//! The shape algebra and the software rasterizer.

pub mod color;
pub mod pixelbuffer;
pub mod shapes;
