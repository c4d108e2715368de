//! Plain value mathematics: two-dimensional vectors, axis-aligned
//! rectangles, fixed-point helpers and affine transforms.

pub mod fixed;
pub mod rect;
pub mod transf;
pub mod vector;
