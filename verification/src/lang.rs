//! A lexer and a parser driven by rules.

pub mod lexer;
pub mod parser;
pub mod pattern;
pub mod token;
