//! Blur filters for one band of an image: a rectangle of 8-bit samples
//! stored row by row. Every filter takes the band with its width, its
//! height and a radius, and returns a new band of the same shape, or the
//! reason why the arguments do not describe a band that it can blur.

pub mod area;
pub mod blur_algorithms;
pub mod box_line;
pub mod clamped;
pub mod clamped_line;
pub mod error;
pub mod grid;
pub mod separable;
pub mod stack_line;
pub mod sums;
pub mod table_line;
pub mod tables;
pub mod window;

pub use blur_algorithms::{
    box_blur, box_blur_optimized, box_blur_optimized_further, stack_blur, stack_blur_optimized,
};
pub use error::BlurError;
