//! An 8-bit educational computer: an assembler that turns source text into a
//! 256-byte memory image, the two text encodings of such an image, and an
//! interpreter that executes the image instruction by instruction.

pub mod math_utils;
pub mod isa;
pub mod register;
pub mod text;
pub mod program;
pub mod lexer;
pub mod parser;
pub mod codegen;
pub mod s19;
pub mod fmem;
