//! The lexer of the companion scripting language: plain characters in,
//! tokens out.

pub mod error;
pub mod lexer;
pub mod token;
