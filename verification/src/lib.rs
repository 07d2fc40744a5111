//! Averages a set of same-sized RGB images pixel by pixel.
//!
//! The library models an image as a grid of 8-bit RGB samples, accumulates
//! per-channel sums in 32-bit cells, and narrows back to 8-bit samples by
//! truncating integer division.

pub mod decode;
pub mod error;
pub mod grid;
pub mod pipeline;
pub mod sample;

pub use decode::DecodedImage;
pub use decode::to_rgba8;
pub use error::AverageError;
pub use grid::Rgb32Image;
pub use grid::Rgb8Image;
pub use pipeline::add_images;
pub use pipeline::Averager;
pub use pipeline::MAX_IMAGES;
pub use sample::Rgb32;
pub use sample::Rgb8;
