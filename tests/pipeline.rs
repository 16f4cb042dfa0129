use noise_loop::compose::{
    apply_border, apply_gradient, color_burn, mask_border, overlay, overlay_text, write_noise,
};
use noise_loop::raster::{Image, Rgba};
use noise_loop::render::{frame_file_name, num_frames, render_frame, RenderOptions};
use noise_loop::resample::{load_image, resize_to_match_border, LoadError};

fn px(r: u8, g: u8, b: u8, a: u8) -> Rgba {
    Rgba { r, g, b, a }
}

fn filled(width: u32, height: u32, p: Rgba) -> Image {
    Image { width, height, pixels: vec![p; (width * height) as usize] }
}

#[test]
fn burn_black_top_is_black() {
    assert_eq!(color_burn(0, 0), 0);
    assert_eq!(color_burn(0, 255), 0);
    assert_eq!(color_burn(0, 128), 0);
}

#[test]
fn burn_white_on_white_is_white() {
    assert_eq!(color_burn(255, 255), 255);
}

#[test]
fn burn_sum_at_most_one_is_black() {
    assert_eq!(color_burn(100, 155), 0);
    assert_eq!(color_burn(200, 55), 0);
}

#[test]
fn burn_formula_value() {
    // 255 * (128 + 200 - 255) / 128 = 145.4..., rounded down
    assert_eq!(color_burn(128, 200), 145);
    // full bottom gives the top back unchanged: (t + 1 - 1) / t = 1
    assert_eq!(color_burn(1, 255), 255);
    assert_eq!(color_burn(255, 128), 128);
}

#[test]
fn gradient_burn_keeps_canvas_alpha() {
    let mut canvas = filled(2, 1, px(255, 0, 128, 255));
    let gradient = filled(2, 1, px(128, 200, 200, 17));
    apply_gradient(&mut canvas, &gradient);
    assert_eq!(canvas.pixels, vec![px(128, 0, 145, 255); 2]);
    assert_eq!((canvas.width, canvas.height), (2, 1));
}

#[test]
fn noise_levels_become_opaque_gray() {
    let mut canvas = Image::new(2, 2);
    assert_eq!(canvas.pixels, vec![px(0, 0, 0, 0); 4]);
    write_noise(&mut canvas, &vec![0, 64, 191, 255]);
    assert_eq!(
        canvas.pixels,
        vec![px(0, 0, 0, 255), px(64, 64, 64, 255), px(191, 191, 191, 255), px(255, 255, 255, 255)]
    );
}

#[test]
fn transparent_overlay_leaves_canvas() {
    let mut canvas = filled(2, 2, px(10, 20, 30, 255));
    let text = filled(2, 2, px(200, 100, 50, 0));
    overlay_text(&mut canvas, &text);
    assert_eq!(canvas.pixels, vec![px(10, 20, 30, 255); 4]);
}

#[test]
fn opaque_overlay_replaces_canvas() {
    let mut canvas = filled(2, 2, px(10, 20, 30, 255));
    let text = filled(2, 2, px(200, 100, 50, 255));
    overlay_text(&mut canvas, &text);
    assert_eq!(canvas.pixels, vec![px(200, 100, 50, 255); 4]);
}

#[test]
fn half_transparent_overlay_blends() {
    let mut canvas = filled(1, 1, px(10, 20, 30, 255));
    let text = filled(1, 1, px(200, 100, 50, 128));
    overlay(&mut canvas, &text);
    let p = canvas.pixels[0];
    assert_eq!((p.r, p.g, p.b), (105, 60, 40));
}

#[test]
fn overlay_is_clipped_to_both_images() {
    // a 1x1 text covers only the first pixel of a 2x2 canvas
    let mut canvas = filled(2, 2, px(1, 1, 1, 255));
    overlay(&mut canvas, &filled(1, 1, px(9, 9, 9, 255)));
    assert_eq!(
        canvas.pixels,
        vec![px(9, 9, 9, 255), px(1, 1, 1, 255), px(1, 1, 1, 255), px(1, 1, 1, 255)]
    );
    // a 3x3 text over a 2x1 canvas touches its two pixels and no more
    let mut small = filled(2, 1, px(1, 1, 1, 255));
    let mut big = filled(3, 3, px(0, 0, 0, 255));
    big.pixels[1] = px(5, 5, 5, 255);
    big.pixels[3] = px(7, 7, 7, 255);
    overlay(&mut small, &big);
    assert_eq!(small.pixels, vec![px(0, 0, 0, 255), px(5, 5, 5, 255)]);
}

fn border_row(alphas: &[u8]) -> Image {
    let pixels = alphas.iter().map(|&a| px(50, 60, 70, a)).collect::<Vec<_>>();
    Image { width: alphas.len() as u32, height: 1, pixels }
}

#[test]
fn mask_clears_up_to_first_opaque_column() {
    let mut alphas = vec![0u8; 10];
    alphas.push(255);
    let border = border_row(&alphas);
    let mut canvas = filled(11, 1, px(100, 100, 100, 255));
    mask_border(&mut canvas, &border);
    for x in 0..10 {
        assert_eq!(canvas.pixels[x], px(0, 0, 0, 0));
    }
    assert_eq!(canvas.pixels[10], px(100, 100, 100, 255));
}

#[test]
fn mask_clears_both_sides_of_each_row() {
    // row 0: semi-transparent, opaque, opaque, semi-transparent, clear
    // row 1: no opaque pixel at all
    let mut border = filled(5, 2, px(0, 0, 0, 0));
    border.pixels[0] = px(0, 0, 0, 128);
    border.pixels[1] = px(0, 0, 0, 255);
    border.pixels[2] = px(0, 0, 0, 255);
    border.pixels[3] = px(0, 0, 0, 254);
    border.pixels[7] = px(0, 0, 0, 200);
    let mut canvas = filled(6, 3, px(9, 9, 9, 255));
    mask_border(&mut canvas, &border);
    let clear = px(0, 0, 0, 0);
    let keep = px(9, 9, 9, 255);
    assert_eq!(
        canvas.pixels,
        vec![
            clear, keep, keep, clear, clear, keep, //
            clear, clear, clear, clear, clear, keep, //
            keep, keep, keep, keep, keep, keep,
        ]
    );
}

#[test]
fn border_is_drawn_over_the_masked_canvas() {
    let border = border_row(&[0, 255, 128]);
    let mut canvas = filled(3, 1, px(100, 100, 100, 255));
    apply_border(&mut canvas, &border);
    assert_eq!(canvas.pixels[0], px(0, 0, 0, 0));
    assert_eq!(canvas.pixels[1], px(50, 60, 70, 255));
    assert_eq!(canvas.pixels[2].a, 128);
    assert_eq!((canvas.pixels[2].r, canvas.pixels[2].g, canvas.pixels[2].b), (50, 60, 70));
}

#[test]
fn nearest_resize_duplicates_pixels() {
    let a = px(1, 2, 3, 255);
    let b = px(4, 5, 6, 255);
    let c = px(7, 8, 9, 255);
    let d = px(10, 11, 12, 255);
    let mut canvas = Image { width: 2, height: 2, pixels: vec![a, b, c, d] };
    let border = filled(4, 4, px(0, 0, 0, 0));
    resize_to_match_border(&mut canvas, &border);
    assert_eq!((canvas.width, canvas.height), (4, 4));
    assert_eq!(
        canvas.pixels,
        vec![a, a, b, b, a, a, b, b, c, c, d, d, c, c, d, d]
    );
}

#[test]
fn resize_to_same_size_copies() {
    let pixels = vec![px(1, 2, 3, 4), px(5, 6, 7, 8)];
    let mut canvas = Image { width: 2, height: 1, pixels: pixels.clone() };
    resize_to_match_border(&mut canvas, &filled(2, 1, px(0, 0, 0, 0)));
    assert_eq!(canvas.pixels, pixels);
}

#[test]
fn frame_count_of_five_seconds_at_thirty() {
    assert_eq!(num_frames(5000, 30), 150);
    let names: Vec<Vec<u8>> = (0..num_frames(5000, 30)).map(frame_file_name).collect();
    assert_eq!(names.len(), 150);
    assert_eq!(names[0], b"00000.png".to_vec());
    assert_eq!(names[149], b"00149.png".to_vec());
}

#[test]
fn frame_names_are_zero_padded() {
    assert_eq!(frame_file_name(7), b"00007.png".to_vec());
    assert_eq!(frame_file_name(99999), b"99999.png".to_vec());
    assert_eq!(frame_file_name(123456), b"123456.png".to_vec());
    assert_eq!(frame_file_name(u64::MAX), format!("{}.png", u64::MAX).into_bytes());
}

#[test]
fn frame_count_rounds_to_nearest() {
    assert_eq!(num_frames(1050, 10), 11);
    assert_eq!(num_frames(1040, 10), 10);
    assert_eq!(num_frames(0, 30), 0);
    assert_eq!(num_frames(u32::MAX, u32::MAX), 18446744065119617);
}

#[test]
fn bytes_round_trip() {
    let img = Image { width: 2, height: 1, pixels: vec![px(1, 2, 3, 4), px(5, 6, 7, 8)] };
    let bytes = img.to_rgba_bytes();
    assert_eq!(bytes, vec![1, 2, 3, 4, 5, 6, 7, 8]);
    let back = Image::from_rgba_bytes(2, 1, &bytes).unwrap();
    assert_eq!(back.pixels, img.pixels);
    assert!(Image::from_rgba_bytes(2, 2, &bytes).is_none());
}

#[test]
fn png_bytes_decode() {
    let raw = vec![255, 0, 0, 255, 0, 255, 0, 128, 0, 0, 255, 0];
    let buffer = image::RgbaImage::from_raw(3, 1, raw).unwrap();
    let mut encoded = std::io::Cursor::new(Vec::new());
    buffer.write_to(&mut encoded, image::ImageOutputFormat::Png).unwrap();
    let img = load_image(encoded.get_ref()).unwrap();
    assert_eq!((img.width, img.height), (3, 1));
    assert_eq!(img.pixels, vec![px(255, 0, 0, 255), px(0, 255, 0, 128), px(0, 0, 255, 0)]);
}

#[test]
fn empty_bytes_fail_to_decode() {
    assert!(matches!(load_image(&[]), Err(LoadError::Decode(_))));
}

#[test]
fn noise_overwrites_whatever_the_canvas_held() {
    let levels = vec![3, 140, 77, 255];
    let mut blank = Image::new(2, 2);
    let mut busy = filled(2, 2, px(9, 8, 7, 6));
    write_noise(&mut blank, &levels);
    write_noise(&mut busy, &levels);
    assert_eq!(blank.pixels, busy.pixels);
    assert_eq!(blank.pixels[1], px(140, 140, 140, 255));
}

#[test]
fn border_row_clears_margin_then_draws_border() {
    let mut alphas = vec![0u8; 10];
    alphas.push(255);
    alphas.push(255);
    let border = border_row(&alphas);
    let mut canvas = filled(12, 1, px(100, 100, 100, 255));
    apply_border(&mut canvas, &border);
    for x in 0..10 {
        assert_eq!(canvas.pixels[x], px(0, 0, 0, 0));
    }
    assert_eq!(canvas.pixels[10], px(50, 60, 70, 255));
    assert_eq!(canvas.pixels[11], px(50, 60, 70, 255));
}

#[test]
fn border_keeps_interior_transparent_pixels() {
    // opaque at both ends, transparent between: nothing inside is cleared
    let border = border_row(&[255, 0, 0, 255]);
    let mut canvas = filled(4, 1, px(100, 100, 100, 255));
    apply_border(&mut canvas, &border);
    assert_eq!(
        canvas.pixels,
        vec![px(50, 60, 70, 255), px(100, 100, 100, 255), px(100, 100, 100, 255), px(50, 60, 70, 255)]
    );
}

#[test]
fn garbage_bytes_fail_to_decode() {
    let r = load_image(&[1, 2, 3, 4, 5]);
    assert!(matches!(r, Err(LoadError::Decode(_))));
}

fn layers() -> (Image, Image, Image) {
    let gradient = filled(2, 2, px(200, 200, 200, 255));
    let text = filled(1, 1, px(0, 0, 0, 255));
    let border = filled(4, 6, px(0, 0, 0, 0));
    (gradient, text, border)
}

#[test]
fn resized_frame_has_border_size() {
    let (gradient, text, border) = layers();
    let opts = RenderOptions { resize_output: true, apply_border: false };
    let frame = render_frame(&vec![255, 100, 200, 0], &gradient, &text, &border, opts);
    assert_eq!((frame.width, frame.height), (4, 6));
    assert_eq!(frame.pixels.len(), 24);
}

#[test]
fn unresized_frame_has_gradient_size() {
    let (gradient, text, _) = layers();
    let border = filled(4, 6, px(0, 0, 0, 0));
    let opts = RenderOptions { resize_output: false, apply_border: false };
    let frame = render_frame(&vec![255, 100, 200, 0], &gradient, &text, &border, opts);
    assert_eq!((frame.width, frame.height), (2, 2));
    // text covers the first pixel; the rest is burned noise over the gradient
    assert_eq!(
        frame.pixels,
        vec![
            px(0, 0, 0, 255),
            px(114, 114, 114, 255),
            px(184, 184, 184, 255),
            px(0, 0, 0, 255),
        ]
    );
}

#[test]
fn rendering_twice_gives_the_same_frame() {
    let (gradient, text, border) = layers();
    let opts = RenderOptions { resize_output: true, apply_border: true };
    let levels = vec![12, 250, 130, 77];
    let first = render_frame(&levels, &gradient, &text, &border, opts);
    let second = render_frame(&levels, &gradient, &text, &border, opts);
    assert_eq!(first.to_rgba_bytes(), second.to_rgba_bytes());
    assert_eq!((first.width, first.height), (4, 6));
}
