//! Blends aligned, equally sized images into one image through per-pixel
//! weight masks.
//!
//! Every input image has a mask of its own size. At each pixel the mask says
//! how much of that image goes into the result. Masks are generated as
//! stripes, rescaled so that the weights at a pixel share out 255, and then
//! used to blend the images channel by channel.
//!
//! All arithmetic is exact: stripe bounds, shares and blends are quotients of
//! integers, rounded down, with no rounding error on the way. Weights that
//! need a real-valued falloff come in as tables of 8-bit weights.
//!
//! - [`raster`]: what the library reads from and writes to an image
//! - [`stripes`]: how an axis is cut into stripes
//! - [`images`]: the set of images and masks
//! - [`generate`]: generated masks
//! - [`normalize`]: normalising masks
//! - [`composite`]: blending
//! - [`pipeline`]: jobs
//! - [`err`]: errors

pub mod composite;
pub mod err;
pub mod generate;
pub mod images;
pub mod normalize;
pub mod pipeline;
pub mod raster;
pub mod stripes;
pub mod text;

pub use err::HdtrError;
pub use images::{InputImage, InputImages};
