//! A small, fixed-size, low-dynamic-range preview image: a rectangular
//! buffer of 8-bit RGBA pixels with size-validated construction,
//! bounds-checked access, and deep-copy duplication.

pub mod image;
pub mod pixel;

pub use image::Error;
pub use image::PreviewImage;
pub use image::MAX_PIXEL_COUNT;
pub use pixel::Linear16;
pub use pixel::PreviewRgba;
