//! Rasters held as plain samples: an image is its width, its height and a
//! row-major buffer of 8-bit samples, a fixed number of them per pixel.

use crate::image_ops::{overlaid, overlay_samples, to_gray_alpha_samples};
use vstd::prelude::*;

verus! {

/// What an image is to the contracts: its size in pixels and its samples,
/// row by row, pixel by pixel, channel by channel.
pub struct Raster {
    pub width: nat,
    pub height: nat,
    pub samples: Seq<u8>,
}

impl Raster {
    /// The number of pixels.
    pub open spec fn pixel_count(self) -> nat {
        self.width * self.height
    }

    /// The buffer holds exactly `channels` samples for each pixel.
    pub open spec fn has_channels(self, channels: nat) -> bool {
        self.samples.len() == channels * self.pixel_count()
    }

    /// An image without pixels.
    pub open spec fn is_empty(self) -> bool {
        self.width == 0 || self.height == 0
    }

    /// The RGBA image of the given size in which every sample is zero:
    /// fully transparent everywhere.
    pub open spec fn transparent(width: nat, height: nat) -> Raster {
        Raster { width, height, samples: Seq::new(4 * (width * height), |i: int| 0u8) }
    }

    /// The RGBA image left when `top` is drawn over this RGBA image with
    /// both origins aligned. The size stays; an image without pixels neither
    /// changes nor is changed.
    pub open spec fn drawn_over_by(self, top: Raster) -> Raster {
        if self.is_empty() || top.is_empty() {
            self
        } else {
            Raster {
                width: self.width,
                height: self.height,
                samples: overlaid(
                    self.samples,
                    self.width,
                    self.height,
                    top.samples,
                    top.width,
                    top.height,
                ),
            }
        }
    }
}

/// A product of natural numbers is bounded by the product of their bounds.
proof fn lemma_product_bounds(a: nat, b: nat, a_max: nat, b_max: nat)
    requires
        a <= a_max,
        b <= b_max,
    ensures
        a * b <= a_max * b_max,
{
    assert(a * b <= a_max * b_max) by (nonlinear_arith)
        requires
            a <= a_max,
            b <= b_max,
    ;
}

/// The number of pixels of an image of the given size.
pub fn pixel_count(width: u32, height: u32) -> (count: u64)
    ensures
        count == width * height,
{
    proof {
        lemma_product_bounds(width as nat, height as nat, 0xffff_ffff, 0xffff_ffff);
    }
    (width as u64) * (height as u64)
}

/// Whether a buffer of `len` samples holds exactly `channels` samples for
/// each pixel of an image of the given size.
fn holds_image(width: u32, height: u32, channels: u8, len: usize) -> (fits: bool)
    requires
        channels == 1 || channels == 2 || channels == 4,
    ensures
        fits <==> len == channels * (width * height),
{
    let pixels = pixel_count(width, height) as u128;
    let expected: u128 = if channels == 1 {
        pixels
    } else if channels == 2 {
        2 * pixels
    } else {
        4 * pixels
    };
    len as u128 == expected
}

/// An image with red, green, blue and alpha samples for each pixel.
#[derive(Debug, PartialEq, Eq)]
pub struct RgbaImage {
    width: u32,
    height: u32,
    pixels: Vec<u8>,
}

impl View for RgbaImage {
    type V = Raster;

    closed spec fn view(&self) -> Raster {
        Raster { width: self.width as nat, height: self.height as nat, samples: self.pixels@ }
    }
}

impl Clone for RgbaImage {
    fn clone(&self) -> (copy: Self)
        ensures
            copy@ == self@,
    {
        proof {
            use_type_invariant(self);
        }
        let pixels = self.pixels.clone();
        RgbaImage { width: self.width, height: self.height, pixels }
    }
}

impl RgbaImage {
    #[verifier::type_invariant]
    spec fn well_formed(&self) -> bool {
        self.pixels@.len() == 4 * (self.width as nat * self.height as nat)
    }

    /// Takes a buffer of samples as an image of the given size. The buffer
    /// must hold exactly four samples for each pixel.
    pub fn from_raw(width: u32, height: u32, pixels: Vec<u8>) -> (image: Option<RgbaImage>)
        ensures
            image is Some <==> pixels@.len() == 4 * (width * height),
            image matches Some(img) ==> img@ == (Raster {
                width: width as nat,
                height: height as nat,
                samples: pixels@,
            }),
    {
        if holds_image(width, height, 4, pixels.len()) {
            Some(RgbaImage { width, height, pixels })
        } else {
            None
        }
    }

    /// Takes a buffer that is known to hold four samples for each pixel.
    pub(crate) fn from_samples(width: u32, height: u32, pixels: Vec<u8>) -> (image: RgbaImage)
        requires
            pixels@.len() == 4 * (width * height),
        ensures
            image@ == (Raster { width: width as nat, height: height as nat, samples: pixels@ }),
    {
        RgbaImage { width, height, pixels }
    }

    /// The fully transparent image of the given size: every sample is zero.
    pub fn transparent(width: u32, height: u32) -> (image: RgbaImage)
        requires
            4 * (width * height) <= usize::MAX,
        ensures
            image@ == Raster::transparent(width as nat, height as nat),
    {
        let count: usize = (4 * pixel_count(width, height)) as usize;
        let mut pixels: Vec<u8> = Vec::new();
        let mut i: usize = 0;
        while i < count
            invariant
                i <= count,
                pixels@.len() == i,
                forall|k: int| 0 <= k < i ==> pixels@[k] == 0u8,
            decreases count - i,
        {
            pixels.push(0u8);
            i += 1;
        }
        assert(pixels@ =~= Raster::transparent(width as nat, height as nat).samples);
        RgbaImage { width, height, pixels }
    }

    /// The fully transparent image of the size of this one.
    pub fn blank_like(&self) -> (image: RgbaImage)
        ensures
            image@ == Raster::transparent(self@.width, self@.height),
    {
        proof {
            use_type_invariant(self);
        }
        let sample_count = self.pixels.len();
        assert(sample_count == 4 * (self.width * self.height));
        RgbaImage::transparent(self.width, self.height)
    }

    /// The width in pixels.
    pub fn width(&self) -> (w: u32)
        ensures
            w == self@.width,
    {
        self.width
    }

    /// The height in pixels.
    pub fn height(&self) -> (h: u32)
        ensures
            h == self@.height,
    {
        self.height
    }

    /// The samples, four for each pixel, row by row.
    pub fn as_raw(&self) -> (samples: &Vec<u8>)
        ensures
            samples@ == self@.samples,
            self@.has_channels(4),
    {
        proof {
            use_type_invariant(self);
        }
        &self.pixels
    }

    /// Gives up the image for its buffer of samples.
    pub fn into_raw(self) -> (samples: Vec<u8>)
        ensures
            samples@ == self@.samples,
            self@.has_channels(4),
    {
        proof {
            use_type_invariant(&self);
        }
        self.pixels
    }

    /// Draws `top` over this image, both origins aligned, blending each
    /// pixel that the two share by the alpha of `top`.
    pub fn overlay(&mut self, top: &RgbaImage)
        ensures
            final(self)@ == old(self)@.drawn_over_by(top@),
            final(self)@.has_channels(4),
    {
        proof {
            use_type_invariant(&*self);
            use_type_invariant(top);
        }
        if self.width == 0 || self.height == 0 || top.width == 0 || top.height == 0 {
            return ;
        }
        // The buffer is blended in place, so the image is taken apart for
        // the call and put together again after it.
        let mut taken = RgbaImage { width: 0, height: 0, pixels: Vec::new() };
        core::mem::swap(self, &mut taken);
        let RgbaImage { width, height, mut pixels } = taken;
        overlay_samples(&mut pixels, width, height, &top.pixels, top.width, top.height);
        *self = RgbaImage { width, height, pixels };
    }

    /// Renders this image as gray levels with alpha, in an image of the
    /// same size. The gray levels are those that the `image` crate gives.
    pub fn to_gray_alpha(&self) -> (gray: GrayAlphaImage)
        ensures
            gray@.width == self@.width,
            gray@.height == self@.height,
            gray@.has_channels(2),
    {
        proof {
            use_type_invariant(self);
        }
        if self.width == 0 || self.height == 0 {
            proof {
                assert(self.width as nat * self.height as nat == 0) by (nonlinear_arith)
                    requires
                        self.width == 0 || self.height == 0,
                ;
            }
            GrayAlphaImage { width: self.width, height: self.height, pixels: Vec::new() }
        } else {
            let pixels = to_gray_alpha_samples(&self.pixels, self.width, self.height);
            GrayAlphaImage { width: self.width, height: self.height, pixels }
        }
    }
}

/// An image with a gray level and an alpha sample for each pixel.
#[derive(Debug, PartialEq, Eq)]
pub struct GrayAlphaImage {
    width: u32,
    height: u32,
    pixels: Vec<u8>,
}

impl View for GrayAlphaImage {
    type V = Raster;

    closed spec fn view(&self) -> Raster {
        Raster { width: self.width as nat, height: self.height as nat, samples: self.pixels@ }
    }
}

impl Clone for GrayAlphaImage {
    fn clone(&self) -> (copy: Self)
        ensures
            copy@ == self@,
    {
        proof {
            use_type_invariant(self);
        }
        let pixels = self.pixels.clone();
        GrayAlphaImage { width: self.width, height: self.height, pixels }
    }
}

impl GrayAlphaImage {
    #[verifier::type_invariant]
    spec fn well_formed(&self) -> bool {
        self.pixels@.len() == 2 * (self.width as nat * self.height as nat)
    }

    /// Takes a buffer of samples as an image of the given size. The buffer
    /// must hold exactly two samples for each pixel.
    pub fn from_raw(width: u32, height: u32, pixels: Vec<u8>) -> (image: Option<GrayAlphaImage>)
        ensures
            image is Some <==> pixels@.len() == 2 * (width * height),
            image matches Some(img) ==> img@ == (Raster {
                width: width as nat,
                height: height as nat,
                samples: pixels@,
            }),
    {
        if holds_image(width, height, 2, pixels.len()) {
            Some(GrayAlphaImage { width, height, pixels })
        } else {
            None
        }
    }

    /// The width in pixels.
    pub fn width(&self) -> (w: u32)
        ensures
            w == self@.width,
    {
        self.width
    }

    /// The height in pixels.
    pub fn height(&self) -> (h: u32)
        ensures
            h == self@.height,
    {
        self.height
    }

    /// The samples, two for each pixel, row by row.
    pub fn as_raw(&self) -> (samples: &Vec<u8>)
        ensures
            samples@ == self@.samples,
            self@.has_channels(2),
    {
        proof {
            use_type_invariant(self);
        }
        &self.pixels
    }
}

/// An image with one gray level for each pixel.
#[derive(Debug, PartialEq, Eq)]
pub struct GrayImage {
    width: u32,
    height: u32,
    pixels: Vec<u8>,
}

impl View for GrayImage {
    type V = Raster;

    closed spec fn view(&self) -> Raster {
        Raster { width: self.width as nat, height: self.height as nat, samples: self.pixels@ }
    }
}

impl Clone for GrayImage {
    fn clone(&self) -> (copy: Self)
        ensures
            copy@ == self@,
    {
        proof {
            use_type_invariant(self);
        }
        let pixels = self.pixels.clone();
        GrayImage { width: self.width, height: self.height, pixels }
    }
}

impl GrayImage {
    #[verifier::type_invariant]
    spec fn well_formed(&self) -> bool {
        self.pixels@.len() == 1 * (self.width as nat * self.height as nat)
    }

    /// Takes a buffer of samples as an image of the given size. The buffer
    /// must hold exactly one sample for each pixel.
    pub fn from_raw(width: u32, height: u32, pixels: Vec<u8>) -> (image: Option<GrayImage>)
        ensures
            image is Some <==> pixels@.len() == width * height,
            image matches Some(img) ==> img@ == (Raster {
                width: width as nat,
                height: height as nat,
                samples: pixels@,
            }),
    {
        if holds_image(width, height, 1, pixels.len()) {
            Some(GrayImage { width, height, pixels })
        } else {
            None
        }
    }

    /// The width in pixels.
    pub fn width(&self) -> (w: u32)
        ensures
            w == self@.width,
    {
        self.width
    }

    /// The height in pixels.
    pub fn height(&self) -> (h: u32)
        ensures
            h == self@.height,
    {
        self.height
    }

    /// The samples, one for each pixel, row by row.
    pub fn as_raw(&self) -> (samples: &Vec<u8>)
        ensures
            samples@ == self@.samples,
            self@.has_channels(1),
    {
        proof {
            use_type_invariant(self);
        }
        &self.pixels
    }
}

} // verus!
