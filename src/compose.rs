//! The per-pixel compositing steps applied to a frame's canvas.

use crate::raster::{gray, pixel_at, pixels_of, raster_wf, transparent, Image, Raster, Rgba};
use vstd::prelude::*;

verus! {

/// A cell of a grid lies inside the grid's row-major storage.
pub proof fn lemma_cell_in_grid(x: int, y: int, width: int, height: int)
    requires
        0 <= x < width,
        0 <= y < height,
    ensures
        0 <= y * width + x < width * height,
{
    assert(0 <= y * width + x < width * height) by (nonlinear_arith)
        requires
            0 <= x < width,
            0 <= y < height,
    ;
}

/// The row of a flat index into a grid lies inside the grid.
pub proof fn lemma_row_in_grid(i: int, width: int, height: int)
    requires
        0 <= i < width * height,
        0 <= width,
    ensures
        0 < width,
        0 <= i / width < height,
        0 <= i % width < width,
{
    if width == 0 {
        assert(width * height == 0);
    }
    assert(0 <= i / width < height) by (nonlinear_arith)
        requires
            0 <= i < width * height,
            0 < width,
    ;
}

// ---------------------------------------------------------------------------
// Noise canvas

/// The canvas that a grid of noise levels paints: one opaque gray pixel per level.
pub open spec fn noise_canvas(width: u32, height: u32, levels: Seq<u8>) -> Raster {
    (width, height, Seq::new(levels.len(), |i: int| gray(levels[i])))
}

/// Paints every pixel of `image` with the opaque gray of its noise level;
/// `levels` holds one level per pixel, row-major.
pub fn write_noise(image: &mut Image, levels: &Vec<u8>)
    requires
        old(image).wf(),
        levels@.len() == old(image).pixels@.len(),
    ensures
        final(image)@ == noise_canvas(old(image).width, old(image).height, levels@),
        final(image).wf(),
{
    let n = levels.len();
    let mut i: usize = 0;
    while i < n
        invariant
            i <= n,
            n == levels@.len(),
            image.pixels@.len() == n,
            image.width == old(image).width,
            image.height == old(image).height,
            forall|k: int| 0 <= k < i ==> image.pixels@[k] == gray(levels@[k]),
        decreases n - i,
    {
        let level = levels[i];
        image.pixels.set(i, Rgba { r: level, g: level, b: level, a: 255 });
        i = i + 1;
    }
    assert(image.pixels@ =~= noise_canvas(image.width, image.height, levels@).2);
}

/// Painting the noise does not depend on what the canvas held before: two
/// canvases of the same size painted with the same levels come out equal.
pub proof fn lemma_noise_ignores_canvas(first: Raster, second: Raster, levels: Seq<u8>)
    requires
        first.0 == second.0,
        first.1 == second.1,
    ensures
        noise_canvas(first.0, first.1, levels) == noise_canvas(second.0, second.1, levels),
{
}

// ---------------------------------------------------------------------------
// Color burn

/// The color burn of one channel, on bytes: with `t` and `b` read as fractions
/// of 255, it is 0 when `t + b <= 1`, else 1 when `t == 0`, else
/// `(t + b - 1) / t` clamped to `[0, 1]`; the result is scaled back by 255
/// and rounded down.
pub open spec fn burn_level(top: int, bottom: int) -> int {
    if top + bottom <= 255 {
        0
    } else if top == 0 {
        255
    } else {
        let q = (255 * (top + bottom - 255)) / top;
        if q < 0 {
            0
        } else if q > 255 {
            255
        } else {
            q
        }
    }
}

/// The color burn of `top` over `bottom`: each color channel burned, the
/// alpha of `top` kept.
pub open spec fn burn_pixel(top: Rgba, bottom: Rgba) -> Rgba {
    Rgba {
        r: burn_level(top.r as int, bottom.r as int) as u8,
        g: burn_level(top.g as int, bottom.g as int) as u8,
        b: burn_level(top.b as int, bottom.b as int) as u8,
        a: top.a,
    }
}

/// The color burn of a whole canvas over a gradient of the same size.
pub open spec fn burned(top: Raster, bottom: Raster) -> Raster {
    (top.0, top.1, Seq::new(top.2.len(), |i: int| burn_pixel(top.2[i], bottom.2[i])))
}

/// The color burn of one channel value `top` over `bottom`.
pub fn color_burn(top: u8, bottom: u8) -> (r: u8)
    ensures
        r as int == burn_level(top as int, bottom as int),
        0 <= burn_level(top as int, bottom as int) <= 255,
{
    let t = top as u32;
    let b = bottom as u32;
    if t + b <= 255 {
        0
    } else if t == 0 {
        255
    } else {
        assert(255 * (t + b - 255) <= 255 * 255) by (nonlinear_arith)
            requires
                t + b - 255 <= 255,
        ;
        let q = (255 * (t + b - 255)) / t;
        if q > 255 {
            255
        } else {
            q as u8
        }
    }
}

/// Color-burns `image` (the top layer) over `gradient`, pixel by pixel.
pub fn apply_gradient(image: &mut Image, gradient: &Image)
    requires
        old(image).wf(),
        gradient.wf(),
        gradient.width == old(image).width,
        gradient.height == old(image).height,
    ensures
        final(image)@ == burned(old(image)@, gradient@),
        final(image).wf(),
{
    let n = image.pixels.len();
    let mut i: usize = 0;
    while i < n
        invariant
            i <= n,
            n == old(image).pixels@.len(),
            gradient.pixels@.len() == n,
            image.pixels@.len() == n,
            image.width == old(image).width,
            image.height == old(image).height,
            forall|k: int|
                0 <= k < i ==> image.pixels@[k] == burn_pixel(
                    old(image).pixels@[k],
                    gradient.pixels@[k],
                ),
            forall|k: int| i <= k < n ==> image.pixels@[k] == old(image).pixels@[k],
        decreases n - i,
    {
        let top = image.pixels[i];
        let bottom = gradient.pixels[i];
        let out = Rgba {
            r: color_burn(top.r, bottom.r),
            g: color_burn(top.g, bottom.g),
            b: color_burn(top.b, bottom.b),
            a: top.a,
        };
        image.pixels.set(i, out);
        i = i + 1;
    }
    assert(image.pixels@ =~= burned(old(image)@, gradient@).2);
}

// ---------------------------------------------------------------------------
// Alpha overlay

/// The source-over composite of `top` on `bottom`, as image's `Blend` for
/// RGBA bytes computes it; it depends on the two pixels alone.
pub uninterp spec fn blended(bottom: Rgba, top: Rgba) -> Rgba;

/// The pixel of `top`, drawn at the origin, that covers the pixel at flat
/// index `i` of a grid `width` wide, if any.
pub open spec fn covering(width: u32, top: Raster, i: int) -> Option<Rgba> {
    let x = i % (width as int);
    let y = i / (width as int);
    if x < top.0 && y < top.1 {
        Some(pixel_at(top.2, top.0 as int, x, y))
    } else {
        None
    }
}

/// `top` drawn at the origin of `bottom`, clipped to `bottom`'s bounds: each
/// pixel under `top` is blended with `top`'s pixel there, the rest is kept.
pub open spec fn overlaid(bottom: Raster, top: Raster) -> Raster {
    (
        bottom.0,
        bottom.1,
        Seq::new(
            bottom.2.len(),
            |i: int|
                match covering(bottom.0, top, i) {
                    Some(p) => blended(bottom.2[i], p),
                    None => bottom.2[i],
                },
        ),
    )
}

/// Where an overlay's pixel is fully transparent the result keeps the pixel
/// below, and where it is fully opaque the result is exactly that pixel.
pub open spec fn overlay_extremes(bottom: Raster, top: Raster, result: Seq<Rgba>) -> bool {
    forall|i: int|
        0 <= i < bottom.2.len() ==> match #[trigger] covering(bottom.0, top, i) {
            Some(p) => (p.a == 0 ==> result[i] == bottom.2[i]) && (p.a == 255 ==> result[i]
                == p),
            None => result[i] == bottom.2[i],
        }
}

/// Relies on `image::imageops::overlay` at offset (0, 0) on two RGBA buffers:
/// over the region where both images lie it blends each bottom pixel with the
/// top one through `Pixel::blend`, and leaves the rest of the bottom as it is.
/// `Blend` keeps the bottom pixel under a top pixel of alpha 0 and puts a top
/// pixel of alpha 255 in its place.
#[verifier::external_body]
fn overlay_rgba(
    bottom: Vec<u8>,
    width: u32,
    height: u32,
    top: Vec<u8>,
    top_width: u32,
    top_height: u32,
) -> (r: Vec<u8>)
    requires
        bottom@.len() == 4 * (width * height),
        top@.len() == 4 * (top_width * top_height),
    ensures
        r@.len() == bottom@.len(),
        forall|i: int|
            0 <= i < width * height ==> pixels_of(r@)[i] == match #[trigger] covering(
                width,
                (top_width, top_height, pixels_of(top@)),
                i,
            ) {
                Some(p) => blended(pixels_of(bottom@)[i], p),
                None => pixels_of(bottom@)[i],
            },
        overlay_extremes(
            (width, height, pixels_of(bottom@)),
            (top_width, top_height, pixels_of(top@)),
            pixels_of(r@),
        ),
{
    let mut below = image::RgbaImage::from_raw(width, height, bottom).unwrap();
    let above = image::RgbaImage::from_raw(top_width, top_height, top).unwrap();
    image::imageops::overlay(&mut below, &above, 0, 0);
    below.into_raw()
}

/// The raster's pixels fit in memory packed as four bytes each.
pub open spec fn packable(img: Raster) -> bool {
    4 * img.2.len() <= usize::MAX
}

/// Alpha-composites `top` onto `image` at offset (0, 0), clipped to `image`.
pub fn overlay(image: &mut Image, top: &Image)
    requires
        old(image).wf(),
        top.wf(),
        packable(old(image)@),
        packable(top@),
    ensures
        final(image)@ == overlaid(old(image)@, top@),
        final(image).wf(),
        overlay_extremes(old(image)@, top@, final(image).pixels@),
{
    let below = image.to_rgba_bytes();
    let above = top.to_rgba_bytes();
    let out = overlay_rgba(below, image.width, image.height, above, top.width, top.height);
    let ghost before = old(image)@;
    *image = Image::from_packed(image.width, image.height, &out);
    assert(image.pixels@ =~= overlaid(before, top@).2);
}

/// Draws the text layer over the canvas.
pub fn overlay_text(image: &mut Image, text: &Image)
    requires
        old(image).wf(),
        text.wf(),
        packable(old(image)@),
        packable(text@),
    ensures
        final(image)@ == overlaid(old(image)@, text@),
        final(image).wf(),
        overlay_extremes(old(image)@, text@, final(image).pixels@),
{
    overlay(image, text);
}

// ---------------------------------------------------------------------------
// Border masking

/// The border's pixel at `(x, y)` is fully opaque.
pub open spec fn opaque_at(border: Raster, x: int, y: int) -> bool {
    pixel_at(border.2, border.0 as int, x, y).a == 255
}

/// `(x, y)` lies in the border's margin: inside the border, with no fully
/// opaque border pixel between the row's left edge and it, or none between it
/// and the row's right edge.
pub open spec fn in_margin(border: Raster, x: int, y: int) -> bool {
    &&& 0 <= y < border.1
    &&& 0 <= x < border.0
    &&& (forall|k: int| 0 <= k <= x ==> !opaque_at(border, k, y)) || (forall|k: int|
        x <= k < border.0 ==> !opaque_at(border, k, y))
}

/// `img` with every pixel in the border's margin made transparent.
pub open spec fn masked(img: Raster, border: Raster) -> Raster {
    (
        img.0,
        img.1,
        Seq::new(
            img.2.len(),
            |i: int|
                if in_margin(border, i % (img.0 as int), i / (img.0 as int)) {
                    transparent()
                } else {
                    img.2[i]
                },
        ),
    )
}

/// The column of the first fully opaque pixel of row `y` of the border, or
/// its width when the row has none.
fn first_opaque(border: &Image, y: usize) -> (r: usize)
    requires
        border.wf(),
        y < border.height,
    ensures
        r <= border.width,
        forall|k: int| 0 <= k < r ==> !opaque_at(border@, k, y as int),
        r < border.width ==> opaque_at(border@, r as int, y as int),
{
    let w = border.width as usize;
    let len = border.pixels.len();
    let mut x: usize = 0;
    while x < w
        invariant
            len == border.pixels@.len(),
            x <= w,
            w == border.width,
            y < border.height,
            border.wf(),
            forall|k: int| 0 <= k < x ==> !opaque_at(border@, k, y as int),
        decreases w - x,
    {
        proof {
            lemma_cell_in_grid(x as int, y as int, w as int, border.height as int);
        }
        if border.pixels[y * w + x].a == 255 {
            return x;
        }
        x = x + 1;
    }
    w
}

/// One past the column of the last fully opaque pixel of row `y` of the
/// border, or 0 when the row has none.
fn last_opaque_end(border: &Image, y: usize) -> (r: usize)
    requires
        border.wf(),
        y < border.height,
    ensures
        r <= border.width,
        forall|k: int| r <= k < border.width ==> !opaque_at(border@, k, y as int),
        r > 0 ==> opaque_at(border@, r - 1, y as int),
{
    let w = border.width as usize;
    let len = border.pixels.len();
    let mut x: usize = w;
    while x > 0
        invariant
            len == border.pixels@.len(),
            x <= w,
            w == border.width,
            y < border.height,
            border.wf(),
            forall|k: int| x <= k < w ==> !opaque_at(border@, k, y as int),
        decreases x,
    {
        proof {
            lemma_cell_in_grid(x - 1, y as int, w as int, border.height as int);
        }
        if border.pixels[y * w + (x - 1)].a == 255 {
            return x;
        }
        x = x - 1;
    }
    0
}

/// Clears to transparent every pixel of `image` under the border's margin:
/// in each row of the border, the pixels before its first fully opaque one
/// and those after its last.
pub fn mask_border(image: &mut Image, border: &Image)
    requires
        old(image).wf(),
        border.wf(),
        border.width <= old(image).width,
        border.height <= old(image).height,
    ensures
        final(image)@ == masked(old(image)@, border@),
        final(image).wf(),
{
    let bh = border.height as usize;
    let mut lo: Vec<usize> = Vec::new();
    let mut hi: Vec<usize> = Vec::new();
    let mut y: usize = 0;
    while y < bh
        invariant
            y <= bh,
            bh == border.height,
            border.wf(),
            lo@.len() == y,
            hi@.len() == y,
            forall|r: int|
                #![trigger lo@[r]]
                0 <= r < y ==> {
                    &&& lo@[r] <= border.width
                    &&& (forall|k: int| 0 <= k < lo@[r] ==> !opaque_at(border@, k, r))
                    &&& (lo@[r] < border.width ==> opaque_at(border@, lo@[r] as int, r))
                },
            forall|r: int|
                #![trigger hi@[r]]
                0 <= r < y ==> {
                    &&& hi@[r] <= border.width
                    &&& (forall|k: int| hi@[r] <= k < border.width ==> !opaque_at(border@, k, r))
                    &&& (hi@[r] > 0 ==> opaque_at(border@, hi@[r] - 1, r))
                },
        decreases bh - y,
    {
        lo.push(first_opaque(border, y));
        hi.push(last_opaque_end(border, y));
        y = y + 1;
    }
    let n = image.pixels.len();
    let w = image.width as usize;
    let bw = border.width as usize;
    let mut i: usize = 0;
    while i < n
        invariant
            i <= n,
            n == old(image).pixels@.len(),
            raster_wf(old(image)@),
            w == old(image).width,
            bw == border.width,
            bh == border.height,
            lo@.len() == bh,
            hi@.len() == bh,
            forall|r: int|
                #![trigger lo@[r]]
                0 <= r < bh ==> {
                    &&& lo@[r] <= border.width
                    &&& (forall|k: int| 0 <= k < lo@[r] ==> !opaque_at(border@, k, r))
                    &&& (lo@[r] < border.width ==> opaque_at(border@, lo@[r] as int, r))
                },
            forall|r: int|
                #![trigger hi@[r]]
                0 <= r < bh ==> {
                    &&& hi@[r] <= border.width
                    &&& (forall|k: int| hi@[r] <= k < border.width ==> !opaque_at(border@, k, r))
                    &&& (hi@[r] > 0 ==> opaque_at(border@, hi@[r] - 1, r))
                },
            image.pixels@.len() == n,
            image.width == old(image).width,
            image.height == old(image).height,
            forall|k: int| 0 <= k < i ==> image.pixels@[k] == masked(old(image)@, border@).2[k],
            forall|k: int| i <= k < n ==> image.pixels@[k] == old(image).pixels@[k],
        decreases n - i,
    {
        proof {
            lemma_row_in_grid(i as int, w as int, old(image).height as int);
        }
        let x = i % w;
        let y = i / w;
        let clear = y < bh && x < bw && (x < lo[y] || x >= hi[y]);
        proof {
            let b = border@;
            if y < bh && x < bw {
                let l = lo@[y as int];
                let h = hi@[y as int];
                if x < l {
                    assert forall|k: int| 0 <= k <= x implies !opaque_at(b, k, y as int) by {}
                } else if x >= h {
                    assert forall|k: int| x <= k < b.0 implies !opaque_at(b, k, y as int) by {}
                } else {
                    assert(opaque_at(b, l as int, y as int));
                    assert(opaque_at(b, h - 1, y as int));
                }
            }
            assert(clear == in_margin(border@, x as int, y as int));
        }
        if clear {
            image.pixels.set(i, Rgba { r: 0, g: 0, b: 0, a: 0 });
        }
        i = i + 1;
    }
    assert(image.pixels@ =~= masked(old(image)@, border@).2);
}

/// Masks the canvas under the border's margin, then draws the border over it.
pub fn apply_border(image: &mut Image, border: &Image)
    requires
        old(image).wf(),
        border.wf(),
        border.width <= old(image).width,
        border.height <= old(image).height,
        packable(old(image)@),
        packable(border@),
    ensures
        final(image)@ == overlaid(masked(old(image)@, border@), border@),
        final(image).wf(),
        overlay_extremes(masked(old(image)@, border@), border@, final(image).pixels@),
{
    mask_border(image, border);
    overlay(image, border);
}

} // verus!
