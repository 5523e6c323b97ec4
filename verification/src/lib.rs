//! Layer compositing for game-asset icons: tinting of grayscale masks,
//! ordered stacking of overlay layers onto a transparent canvas, and the
//! bookkeeping of a batch of independent composition tasks.

pub mod batch;
pub mod color;
pub mod color_image_mask;
pub mod compose;
pub mod diagnostics;
pub mod image_ops;
pub mod layers;
pub mod paths;
pub mod raster;
pub mod text;
pub mod tint;
