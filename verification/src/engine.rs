//! Engine-side value types shared with the renderer.

pub mod color;
