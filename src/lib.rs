//! Verified core of a ray tracer's scene handling: the scene-description
//! lexer and parser, the render options, texture storage and the BMP header.

pub mod location;
pub mod chars;
pub mod number;
pub mod token;
pub mod error;
pub mod lexer;
pub mod scene;
pub mod tokens;
pub mod grammar;
pub mod parser;
pub mod serialize;
pub mod texture;
pub mod bmp;
