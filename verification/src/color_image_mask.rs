//! Recoloring of gray masks without alpha: the result is opaque.

use crate::raster::{GrayImage, Raster, RgbaImage};
use crate::tint::{tint_channel, tinted_channel};
use vstd::prelude::*;

verus! {

/// The four samples, red, green, blue and alpha, that a gray level
/// becomes.
pub open spec fn tinted_opaque_pixel(gray: u8, color: (u8, u8, u8)) -> Seq<u8> {
    seq![
        tinted_channel(gray, color.0),
        tinted_channel(gray, color.1),
        tinted_channel(gray, color.2),
        255u8,
    ]
}

/// The opaque RGBA image that a gray mask becomes: of the same size, each
/// gray level scaled by the channels of the color, each alpha full.
pub open spec fn tinted_opaque(mask: Raster, color: (u8, u8, u8)) -> Raster {
    Raster {
        width: mask.width,
        height: mask.height,
        samples: Seq::new(
            4 * mask.pixel_count(),
            |i: int| tinted_opaque_pixel(mask.samples[i / 4], color)[i % 4],
        ),
    }
}

/// Tints a gray mask towards a color. Each color channel of a pixel is
/// its gray level times the channel of the color over 255, rounded down;
/// every pixel is fully opaque.
pub fn colorize_grayscale_image(gray_img: &GrayImage, color: (u8, u8, u8)) -> (out: RgbaImage)
    ensures
        out@ == tinted_opaque(gray_img@, color),
{
    let samples = gray_img.as_raw();
    let count = samples.len();
    let mut pixels: Vec<u8> = Vec::new();
    let mut i: usize = 0;
    while i < count
        invariant
            i <= count,
            samples@.len() == count,
            samples@ == gray_img@.samples,
            pixels@.len() == 4 * i,
            forall|k: int|
                0 <= k < 4 * i ==> pixels@[k] == tinted_opaque_pixel(samples@[k / 4], color)[k % 4],
        decreases count - i,
    {
        let gray = samples[i];
        pixels.push(tint_channel(gray, color.0));
        pixels.push(tint_channel(gray, color.1));
        pixels.push(tint_channel(gray, color.2));
        pixels.push(255u8);
        i += 1;
    }
    assert(pixels@ =~= tinted_opaque(gray_img@, color).samples);
    RgbaImage::from_samples(gray_img.width(), gray_img.height(), pixels)
}

} // verus!
