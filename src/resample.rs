//! Decoding input images and resampling a canvas to the border's size, both
//! done by the `image` crate.

use crate::raster::{pixels_of, rgba_bytes, Image, Raster};
use vstd::prelude::*;

verus! {

#[verifier::external_type_specification]
#[verifier::external_body]
pub struct ExImageError(image::ImageError);

/// What decoding `bytes` gives: the width, height and packed RGBA bytes of
/// the image, or `None` when the bytes are not an image in a known format.
pub uninterp spec fn decoded_rgba(bytes: Seq<u8>) -> Option<(u32, u32, Seq<u8>)>;

/// Relies on `image::load_from_memory` (format guessed from the bytes, then
/// decoded) and `DynamicImage::to_rgba8`: the outcome depends on the bytes
/// alone, an empty buffer has no recognisable format, and a decoded image
/// holds four bytes per pixel.
#[verifier::external_body]
fn decode_rgba(buf: &[u8]) -> (r: Result<(u32, u32, Vec<u8>), image::ImageError>)
    ensures
        r is Ok <==> decoded_rgba(buf@) is Some,
        buf@.len() == 0 ==> r is Err,
        r matches Ok((w, h, bytes)) ==> {
            &&& decoded_rgba(buf@) == Some((w, h, bytes@))
            &&& bytes@.len() == 4 * (w * h)
        },
{
    let img = image::load_from_memory(buf)?.to_rgba8();
    Ok((img.width(), img.height(), img.into_raw()))
}

/// Why an input image could not be loaded.
#[derive(Debug)]
pub enum LoadError {
    /// The bytes are not an image in a known format, or decoding failed.
    Decode(image::ImageError),
}

/// The image that `bytes` decodes to, as a raster.
pub open spec fn decoded_raster(bytes: Seq<u8>) -> Option<Raster> {
    match decoded_rgba(bytes) {
        Some((w, h, rgba)) => Some((w, h, pixels_of(rgba))),
        None => None,
    }
}

/// Decodes an encoded image (its format guessed from its bytes) into RGBA.
pub fn load_image(buf: &[u8]) -> (r: Result<Image, LoadError>)
    ensures
        r is Ok <==> decoded_raster(buf@) is Some,
        buf@.len() == 0 ==> r is Err,
        r matches Ok(img) ==> decoded_raster(buf@) == Some(img@) && img.wf(),
{
    match decode_rgba(buf) {
        Ok((w, h, bytes)) => Ok(Image::from_packed(w, h, &bytes)),
        Err(e) => Err(LoadError::Decode(e)),
    }
}

/// What the `image` crate's nearest-neighbour resampling makes of a packed
/// RGBA buffer of `width` x `height` pixels, at `new_width` x `new_height`.
pub uninterp spec fn nearest_resized(
    bytes: Seq<u8>,
    width: u32,
    height: u32,
    new_width: u32,
    new_height: u32,
) -> Seq<u8>;

/// Relies on `image::imageops::resize` with `FilterType::Nearest` on an RGBA
/// buffer: the result depends on the arguments alone, has
/// `new_width` x `new_height` pixels, and is a copy of the input when the size
/// does not change.
#[verifier::external_body]
fn resize_nearest(bytes: &Vec<u8>, width: u32, height: u32, new_width: u32, new_height: u32) -> (r:
    Vec<u8>)
    requires
        bytes@.len() == 4 * (width * height),
        4 * (new_width * new_height) <= usize::MAX,
    ensures
        r@ == nearest_resized(bytes@, width, height, new_width, new_height),
        r@.len() == 4 * (new_width * new_height),
        width == new_width && height == new_height ==> r@ == bytes@,
{
    let src = image::RgbaImage::from_raw(width, height, bytes.clone()).unwrap();
    let filter = image::imageops::FilterType::Nearest;
    image::imageops::resize(&src, new_width, new_height, filter).into_raw()
}

/// `img` resampled, nearest neighbour, to exactly `width` x `height` pixels.
pub open spec fn resized(img: Raster, width: u32, height: u32) -> Raster {
    (width, height, pixels_of(nearest_resized(rgba_bytes(img.2), img.0, img.1, width, height)))
}

/// A canvas that can be resampled to `width` x `height`: its bytes and the
/// result's fit in memory.
pub open spec fn resizable(img: Raster, width: u32, height: u32) -> bool {
    &&& 4 * img.2.len() <= usize::MAX
    &&& 4 * (width * height) <= usize::MAX
}

/// Resamples `image`, nearest neighbour, to the border's exact width and height.
pub fn resize_to_match_border(image: &mut Image, border: &Image)
    requires
        old(image).wf(),
        resizable(old(image)@, border.width, border.height),
    ensures
        final(image)@ == resized(old(image)@, border.width, border.height),
        final(image).wf(),
        final(image).width == border.width,
        final(image).height == border.height,
        old(image).width == border.width && old(image).height == border.height ==> final(image)@
            == old(image)@,
{
    let bytes = image.to_rgba_bytes();
    let out = resize_nearest(&bytes, image.width, image.height, border.width, border.height);
    *image = Image::from_packed(border.width, border.height, &out);
}

} // verus!
