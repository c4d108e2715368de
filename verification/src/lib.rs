//! A compositional signed-distance-field shape library with a software
//! rasterizer, together with the lexer of the companion scripting language.
//!
//! Geometry is carried out in fixed-point arithmetic: distances and
//! transform components are measured in subunits of 1/256 of a pixel, so
//! that every quantity the shape algebra manipulates is a plain integer
//! with exact, machine-checkable semantics.

pub mod drawing;
pub mod engine;
pub mod math;
pub mod parser;
