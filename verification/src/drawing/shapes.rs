//! Shape primitives and the combinators that compose them.

pub mod circle;
pub mod coloring;
pub mod composite;
pub mod laws;
pub mod rect;
pub mod shape;
pub mod transf;
