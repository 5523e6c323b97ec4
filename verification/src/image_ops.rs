//! The two operations that the `image` crate performs for this library:
//! alpha-blended drawing of one image over another, and the rendering of a
//! color image as gray levels. Both work in floating point, and what is
//! said of them here is taken on trust.

use vstd::prelude::*;

verus! {

/// The samples that `image::imageops::overlay` leaves in an RGBA buffer of
/// the given size after a second RGBA buffer was drawn over it at the
/// origin.
pub uninterp spec fn overlaid(
    bottom: Seq<u8>,
    bottom_width: nat,
    bottom_height: nat,
    top: Seq<u8>,
    top_width: nat,
    top_height: nat,
) -> Seq<u8>;

/// Calls `image::imageops::overlay` to draw `top` over `bottom`, both RGBA
/// and both with pixels, at offset (0, 0).
///
/// Taken on trust: the call blends in place, so the number of samples
/// stays, and what it leaves depends on the two images alone.
#[verifier::external_body]
pub(crate) fn overlay_samples(
    bottom: &mut Vec<u8>,
    bottom_width: u32,
    bottom_height: u32,
    top: &Vec<u8>,
    top_width: u32,
    top_height: u32,
)
    requires
        bottom_width > 0,
        bottom_height > 0,
        top_width > 0,
        top_height > 0,
        old(bottom)@.len() == 4 * (bottom_width * bottom_height),
        top@.len() == 4 * (top_width * top_height),
    ensures
        final(bottom)@ == overlaid(
            old(bottom)@,
            bottom_width as nat,
            bottom_height as nat,
            top@,
            top_width as nat,
            top_height as nat,
        ),
        final(bottom)@.len() == old(bottom)@.len(),
{
    let mut under = image::ImageBuffer::<image::Rgba<u8>, &mut [u8]>::from_raw(
        bottom_width,
        bottom_height,
        bottom.as_mut_slice(),
    ).unwrap();
    let over = image::ImageBuffer::<image::Rgba<u8>, &[u8]>::from_raw(
        top_width,
        top_height,
        top.as_slice(),
    ).unwrap();
    image::imageops::overlay(&mut under, &over, 0, 0);
}

/// Calls `image::DynamicImage::to_luma_alpha8` on an RGBA image with
/// pixels.
///
/// Taken on trust: the result has two samples for each pixel. Nothing is
/// said of their values: the gray levels are weighted sums in floating
/// point, rounded as the build at hand rounds them.
#[verifier::external_body]
pub(crate) fn to_gray_alpha_samples(rgba: &Vec<u8>, width: u32, height: u32) -> (gray: Vec<u8>)
    requires
        width > 0,
        height > 0,
        rgba@.len() == 4 * (width * height),
    ensures
        gray@.len() == 2 * (width * height),
{
    let color = image::RgbaImage::from_raw(width, height, rgba.clone()).unwrap();
    image::DynamicImage::ImageRgba8(color).to_luma_alpha8().into_raw()
}

} // verus!
