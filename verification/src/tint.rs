//! Recoloring of gray-and-alpha masks towards a tint color.

use crate::color::{hex_to_rgb, parsed_hex};
use crate::raster::{GrayAlphaImage, Raster, RgbaImage};
use vstd::prelude::*;

verus! {

/// The threshold that the threshold mode uses unless another is chosen.
pub const DEFAULT_THRESHOLD: u8 = 37;

/// How gray levels are tinted.
#[derive(Debug, Clone, Copy, PartialEq, Eq)]
pub enum TintMode {
    /// Every pixel is scaled towards the tint.
    Plain,
    /// Pixels darker than the threshold keep their gray level, so that
    /// outlines and shadows stay as they are; the others are scaled.
    Threshold(u8),
}

impl TintMode {
    /// The threshold mode with the default threshold.
    pub fn default_threshold() -> (mode: TintMode)
        ensures
            mode == TintMode::Threshold(DEFAULT_THRESHOLD),
    {
        TintMode::Threshold(DEFAULT_THRESHOLD)
    }

    /// Whether a pixel of this gray level is left untinted.
    pub open spec fn keeps(self, gray: u8) -> bool {
        match self {
            TintMode::Plain => false,
            TintMode::Threshold(threshold) => gray < threshold,
        }
    }
}

/// The tinted value of one color channel: the gray level scaled by the
/// tint channel, rounded down.
pub open spec fn tinted_channel(gray: u8, tint: u8) -> u8 {
    ((gray as int * tint as int) / 255) as u8
}

/// A tinted channel is the product divided by 255, rounded down, and never
/// exceeds the tint channel it was scaled by.
pub proof fn lemma_tinted_channel_bounds(gray: u8, tint: u8)
    ensures
        tinted_channel(gray, tint) as int == (gray as int * tint as int) / 255,
        0 <= tinted_channel(gray, tint) <= tint,
        gray as int * tint as int <= 255 * 255,
{
    assert(0 <= gray as int * tint as int <= 255 * tint as int) by (nonlinear_arith)
        requires
            0 <= gray <= 255,
            0 <= tint,
    ;
}

/// The four samples, red, green, blue and alpha, that a mask pixel becomes.
pub open spec fn tinted_pixel(gray: u8, alpha: u8, tint: (u8, u8, u8), mode: TintMode) -> Seq<u8> {
    if mode.keeps(gray) {
        seq![gray, gray, gray, alpha]
    } else {
        seq![
            tinted_channel(gray, tint.0),
            tinted_channel(gray, tint.1),
            tinted_channel(gray, tint.2),
            alpha,
        ]
    }
}

/// The RGBA image that a gray-and-alpha mask becomes: of the same size,
/// each pixel tinted by itself.
pub open spec fn tinted(mask: Raster, tint: (u8, u8, u8), mode: TintMode) -> Raster {
    Raster {
        width: mask.width,
        height: mask.height,
        samples: Seq::new(
            4 * mask.pixel_count(),
            |i: int|
                tinted_pixel(mask.samples[2 * (i / 4)], mask.samples[2 * (i / 4) + 1], tint, mode)[i
                    % 4],
        ),
    }
}

/// Scales a gray level by one channel of the tint color.
pub fn tint_channel(gray: u8, tint: u8) -> (out: u8)
    ensures
        out == tinted_channel(gray, tint),
        out as int == (gray as int * tint as int) / 255,
        out <= tint,
{
    proof {
        lemma_tinted_channel_bounds(gray, tint);
    }
    let product: u16 = (gray as u16) * (tint as u16);
    (product / 255) as u8
}

/// Tints one mask pixel. The alpha is kept as it is. In plain mode each
/// color channel is the gray level times the tint channel over 255,
/// rounded down; in threshold mode a pixel darker than the threshold
/// becomes the neutral gray of its own level instead.
pub fn tint_pixel(gray: u8, alpha: u8, tint: (u8, u8, u8), mode: TintMode) -> (out: [u8; 4])
    ensures
        out@ == tinted_pixel(gray, alpha, tint, mode),
        out[3] == alpha,
        mode.keeps(gray) ==> out[0] == gray && out[1] == gray && out[2] == gray,
        !mode.keeps(gray) ==> {
            &&& out[0] as int == (gray as int * tint.0 as int) / 255
            &&& out[1] as int == (gray as int * tint.1 as int) / 255
            &&& out[2] as int == (gray as int * tint.2 as int) / 255
            &&& out[0] <= tint.0
            &&& out[1] <= tint.1
            &&& out[2] <= tint.2
        },
{
    let keep = match mode {
        TintMode::Plain => false,
        TintMode::Threshold(threshold) => gray < threshold,
    };
    let out = if keep {
        [gray, gray, gray, alpha]
    } else {
        [tint_channel(gray, tint.0), tint_channel(gray, tint.1), tint_channel(gray, tint.2), alpha]
    };
    out
}

/// Tints a gray-and-alpha mask towards a color, pixel by pixel.
pub fn colorize_with(mask: &GrayAlphaImage, tint: (u8, u8, u8), mode: TintMode) -> (out: RgbaImage)
    ensures
        out@ == tinted(mask@, tint, mode),
{
    let samples = mask.as_raw();
    let count = samples.len() / 2;
    let mut pixels: Vec<u8> = Vec::new();
    let mut i: usize = 0;
    while i < count
        invariant
            i <= count,
            samples@.len() == 2 * count,
            2 * count <= usize::MAX,
            samples@ == mask@.samples,
            pixels@.len() == 4 * i,
            forall|k: int|
                0 <= k < 4 * i ==> pixels@[k] == tinted_pixel(
                    samples@[2 * (k / 4)],
                    samples@[2 * (k / 4) + 1],
                    tint,
                    mode,
                )[k % 4],
        decreases count - i,
    {
        let p = tint_pixel(samples[2 * i], samples[2 * i + 1], tint, mode);
        pixels.push(p[0]);
        pixels.push(p[1]);
        pixels.push(p[2]);
        pixels.push(p[3]);
        i += 1;
    }
    assert(pixels@ =~= tinted(mask@, tint, mode).samples);
    RgbaImage::from_samples(mask.width(), mask.height(), pixels)
}

/// Tints a gray-and-alpha mask towards the color that `hex_color` spells,
/// every pixel scaled, none exempt. The alpha of each pixel is kept as it
/// is. Where the text is no color the mask is left alone and the parse
/// error is handed on.
pub fn colorize_grayscale_image(mask: &GrayAlphaImage, hex_color: &str) -> (res: Result<
    RgbaImage,
    String,
>)
    ensures
        match parsed_hex(hex_color@) {
            Ok(tint) => res matches Ok(out) && out@ == tinted(mask@, tint, TintMode::Plain),
            Err(message) => res matches Err(e) && e@ == message,
        },
{
    match hex_to_rgb(hex_color) {
        Ok(tint) => Ok(colorize_with(mask, tint, TintMode::Plain)),
        Err(message) => Err(message),
    }
}

/// What tinting does to each pixel of a mask: the alpha stays; in plain
/// mode, and in threshold mode from the threshold on, each color channel
/// is the gray level times the tint channel over 255, rounded down, and so
/// at most the tint channel; below the threshold the pixel is the neutral
/// gray of its own level, whatever the tint.
pub proof fn lemma_tinted_pixels(mask: Raster, tint: (u8, u8, u8), mode: TintMode, pixel: int)
    requires
        0 <= pixel < mask.pixel_count(),
    ensures
        tinted(mask, tint, mode).width == mask.width,
        tinted(mask, tint, mode).height == mask.height,
        tinted(mask, tint, mode).has_channels(4),
        ({
            let gray = mask.samples[2 * pixel];
            let alpha = mask.samples[2 * pixel + 1];
            let out = tinted(mask, tint, mode).samples;
            &&& out[4 * pixel + 3] == alpha
            &&& mode.keeps(gray) ==> {
                &&& out[4 * pixel] == gray
                &&& out[4 * pixel + 1] == gray
                &&& out[4 * pixel + 2] == gray
            }
            &&& !mode.keeps(gray) ==> {
                &&& out[4 * pixel] as int == (gray as int * tint.0 as int) / 255
                &&& out[4 * pixel + 1] as int == (gray as int * tint.1 as int) / 255
                &&& out[4 * pixel + 2] as int == (gray as int * tint.2 as int) / 255
                &&& out[4 * pixel] <= tint.0
                &&& out[4 * pixel + 1] <= tint.1
                &&& out[4 * pixel + 2] <= tint.2
            }
        }),
{
    let gray = mask.samples[2 * pixel];
    lemma_tinted_channel_bounds(gray, tint.0);
    lemma_tinted_channel_bounds(gray, tint.1);
    lemma_tinted_channel_bounds(gray, tint.2);
}

} // verus!
