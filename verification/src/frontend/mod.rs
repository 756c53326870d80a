//! From source text to the intermediate representation.

pub mod ir;
pub mod lexer;
pub mod parser;
