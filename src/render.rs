//! One frame of the loop, from its noise levels to the finished canvas, and
//! the length of the loop in frames.

use crate::compose::{
    apply_border, apply_gradient, burn_level, burned, masked, noise_canvas, overlaid,
    overlay_text, packable, write_noise,
};
use crate::raster::{raster_wf, Image, Raster};
use crate::resample::{resize_to_match_border, resized};
use vstd::prelude::*;

verus! {

/// The number of frames of a loop `duration_millis` milliseconds long at
/// `fps` frames per second: the product of seconds and rate, rounded to the
/// nearest integer, halves up.
pub open spec fn frame_count(duration_millis: int, fps: int) -> int {
    (duration_millis * fps + 500) / 1000
}

/// The number of frames of a loop `duration_millis` milliseconds long at
/// `fps` frames per second.
pub fn num_frames(duration_millis: u32, fps: u32) -> (r: u64)
    ensures
        r == frame_count(duration_millis as int, fps as int),
        1000 * r <= duration_millis * fps + 500 < 1000 * r + 1000,
{
    assert(duration_millis * fps <= 0xffff_ffffu64 * 0xffff_ffffu64) by (nonlinear_arith)
        requires
            duration_millis <= 0xffff_ffffu64,
            fps <= 0xffff_ffffu64,
    ;
    ((duration_millis as u64) * (fps as u64) + 500) / 1000
}

/// The decimal digits of `n` as ASCII bytes, most significant first, padded
/// on the left with zeros to at least `width` digits.
pub open spec fn padded_digits(n: nat, width: nat) -> Seq<u8>
    decreases n + width,
{
    if n < 10 && width <= 1 {
        seq![(48 + n) as u8]
    } else {
        padded_digits(n / 10, if width > 0 {
            (width - 1) as nat
        } else {
            0
        }) + seq![(48 + n % 10) as u8]
    }
}

/// The file name of frame `frame`: its index in five or more zero-padded
/// decimal digits, then `.png`.
pub open spec fn frame_name(frame: nat) -> Seq<u8> {
    padded_digits(frame, 5) + seq![46u8, 112u8, 110u8, 103u8]
}

/// The file name of frame `frame`, as ASCII bytes.
pub fn frame_file_name(frame: u64) -> (r: Vec<u8>)
    ensures
        r@ == frame_name(frame as nat),
{
    let mut out: Vec<u8> = Vec::new();
    let mut m: u64 = frame;
    let mut w: u64 = 5;
    while !(m < 10 && w <= 1)
        invariant
            w <= 5,
            padded_digits(frame as nat, 5) == padded_digits(m as nat, w as nat) + out@,
        decreases m + w,
    {
        let d = (48 + m % 10) as u8;
        proof {
            let rest = padded_digits((m / 10) as nat, if w > 0 {
                (w - 1) as nat
            } else {
                0
            });
            assert(padded_digits(m as nat, w as nat) == rest + seq![d]);
            assert(rest + seq![d] + out@ =~= rest + seq![d].add(out@));
        }
        out.insert(0, d);
        m = m / 10;
        if w > 0 {
            w = w - 1;
        }
    }
    out.insert(0, (48 + m) as u8);
    assert(padded_digits(frame as nat, 5) =~= out@);
    out.push(46);
    out.push(112);
    out.push(110);
    out.push(103);
    assert(out@ =~= frame_name(frame as nat));
    out
}

/// The two optional steps at the end of the pipeline.
#[derive(Clone, Copy, Debug, PartialEq, Eq, Structural)]
pub struct RenderOptions {
    /// Resample the finished canvas to the border's size.
    pub resize_output: bool,
    /// Mask the canvas under the border's margin and draw the border on top;
    /// this resamples to the border's size too.
    pub apply_border: bool,
}

/// The finished frame: the noise canvas color-burned over the gradient, the
/// text drawn over it, then resampled to the border's size and framed by the
/// border when the options ask for it.
pub open spec fn rendered(
    levels: Seq<u8>,
    gradient: Raster,
    text: Raster,
    border: Raster,
    opts: RenderOptions,
) -> Raster {
    let canvas = overlaid(burned(noise_canvas(gradient.0, gradient.1, levels), gradient), text);
    let canvas = if opts.resize_output || opts.apply_border {
        resized(canvas, border.0, border.1)
    } else {
        canvas
    };
    if opts.apply_border {
        overlaid(masked(canvas, border), border)
    } else {
        canvas
    }
}

/// What a frame needs: one noise level per gradient pixel, and layers whose
/// bytes fit in memory.
pub open spec fn renderable(
    levels: Seq<u8>,
    gradient: Raster,
    text: Raster,
    border: Raster,
    opts: RenderOptions,
) -> bool {
    &&& raster_wf(gradient)
    &&& raster_wf(text)
    &&& raster_wf(border)
    &&& levels.len() == gradient.2.len()
    &&& packable(gradient)
    &&& packable(text)
    &&& packable(border)
}

/// Renders one frame from its noise levels (one per gradient pixel, row-major)
/// and the three static layers.
pub fn render_frame(
    levels: &Vec<u8>,
    gradient: &Image,
    text: &Image,
    border: &Image,
    opts: RenderOptions,
) -> (r: Image)
    requires
        renderable(levels@, gradient@, text@, border@, opts),
    ensures
        r@ == rendered(levels@, gradient@, text@, border@, opts),
        r.wf(),
        opts.resize_output || opts.apply_border ==> r.width == border.width && r.height
            == border.height,
        !(opts.resize_output || opts.apply_border) ==> r.width == gradient.width && r.height
            == gradient.height,
{
    let area = gradient.pixels.len();
    assert(area == gradient.width * gradient.height);
    let mut canvas = Image::new(gradient.width, gradient.height);
    write_noise(&mut canvas, levels);
    apply_gradient(&mut canvas, gradient);
    overlay_text(&mut canvas, text);
    if opts.resize_output || opts.apply_border {
        resize_to_match_border(&mut canvas, border);
    }
    if opts.apply_border {
        apply_border(&mut canvas, border);
    }
    canvas
}

/// Rendering is deterministic: the same noise levels, layers and options
/// always give the same frame.
pub proof fn lemma_render_deterministic(
    levels: Seq<u8>,
    gradient: Raster,
    text: Raster,
    border: Raster,
    opts: RenderOptions,
    first: Raster,
    second: Raster,
)
    requires
        first == rendered(levels, gradient, text, border, opts),
        second == rendered(levels, gradient, text, border, opts),
    ensures
        first == second,
{
}

/// Whenever the options resample, the frame has exactly the border's width
/// and height, whatever the gradient's size.
pub proof fn lemma_output_matches_border(
    levels: Seq<u8>,
    gradient: Raster,
    text: Raster,
    border: Raster,
    opts: RenderOptions,
)
    requires
        renderable(levels, gradient, text, border, opts),
        opts.resize_output || opts.apply_border,
    ensures
        rendered(levels, gradient, text, border, opts).0 == border.0,
        rendered(levels, gradient, text, border, opts).1 == border.1,
{
}

/// A black top channel burns to black whatever lies below: the test that the
/// two values sum to at most one comes before the test for a zero top.
pub proof fn lemma_burn_black_top(bottom: int)
    requires
        0 <= bottom <= 255,
    ensures
        burn_level(0, bottom) == 0,
{
}

/// Two white channels burn to white.
pub proof fn lemma_burn_white(top: int, bottom: int)
    requires
        top == 255,
        bottom == 255,
    ensures
        burn_level(top, bottom) == 255,
{
}

} // verus!
