//! Scaling of images, done by the `image` crate.

use vstd::prelude::*;

verus! {

/// The longest side, in pixels, that the scaling supports. The crate computes
/// the positions of pixels in single precision; up to this length every
/// column and row number, and every half step between two of them, is held
/// exactly, and a computed position lies within an eighth of a pixel of the
/// true one.
pub const MAX_RESAMPLE_SIDE: u32 = 1048576;

/// Whether an image of `width` by `height` pixels can be scaled to a square
/// of `side` by `side` pixels: both images have pixels, no side is longer
/// than `MAX_RESAMPLE_SIDE`, and the buffers that the scaling allocates can
/// be addressed.
pub open spec fn can_resample(width: nat, height: nat, side: nat) -> bool {
    &&& 0 < width <= MAX_RESAMPLE_SIDE
    &&& 0 < height <= MAX_RESAMPLE_SIDE
    &&& 0 < side <= MAX_RESAMPLE_SIDE
    &&& 16 * width * side <= isize::MAX
    &&& 4 * side * side <= isize::MAX
}

/// Whether an image of `width` by `height` pixels can be scaled to a square
/// of `side` by `side` pixels.
pub fn resample_is_supported(width: u32, height: u32, side: u32) -> (ok: bool)
    ensures
        ok == can_resample(width as nat, height as nat, side as nat),
{
    if width == 0 || height == 0 || side == 0 {
        return false;
    }
    if width > MAX_RESAMPLE_SIDE || height > MAX_RESAMPLE_SIDE || side > MAX_RESAMPLE_SIDE {
        return false;
    }
    assert(0 <= width * side <= 1048576 * 1048576) by (nonlinear_arith)
        requires
            0 <= width <= 1048576,
            0 <= side <= 1048576,
    ;
    assert(0 <= side * side <= 1048576 * 1048576) by (nonlinear_arith)
        requires
            0 <= side <= 1048576,
    ;
    assert(16 * width * side == 16 * (width * side)) by (nonlinear_arith);
    assert(4 * side * side == 4 * (side * side)) by (nonlinear_arith);
    let rows: u128 = (width as u128) * (side as u128);
    let places: u128 = (side as u128) * (side as u128);
    let limit: u128 = isize::MAX as u128;
    16 * rows <= limit && 4 * places <= limit
}

/// Calls `image::DynamicImage::resize_exact` with the filter
/// `image::imageops::FilterType::Lanczos3` on the image that `bytes` holds,
/// four bytes to the pixel, and returns the bytes of what comes back: the
/// image scaled to a square of `side` by `side` pixels.
///
/// Trusted, not proved: the result has four bytes for each place of the
/// square; and where the image is that square already, the crate copies it,
/// so the result is `bytes`.
///
/// What the bytes are otherwise is given no name and left open. The filter's
/// kernel calls `f32::sin`, whose precision the standard library leaves open
/// from platform to platform and from one call to the next, so two runs need
/// not agree on the bytes.
///
/// The conditions keep away from where the crate gives up: an image without
/// pixels; a buffer too large to allocate; and sides so long that the
/// positions, computed in single precision, miss the image, so that a pixel
/// is weighted by nothing and the cast of the outcome fails.
#[verifier::external_body]
pub(crate) fn resize_rgba8(bytes: Vec<u8>, width: u32, height: u32, side: u32) -> (resized: Vec<
    u8,
>)
    requires
        bytes@.len() == 4 * width * height,
        can_resample(width as nat, height as nat, side as nat),
    ensures
        resized@.len() == 4 * side * side,
        side == width && side == height ==> resized@ == bytes@,
{
    let source = image::RgbaImage::from_raw(width, height, bytes).unwrap();
    image::DynamicImage::ImageRgba8(source)
        .resize_exact(side, side, image::imageops::FilterType::Lanczos3)
        .into_rgba8()
        .into_raw()
}

} // verus!
