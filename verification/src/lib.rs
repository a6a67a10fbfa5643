//! Lexical front end of the flog compiler: a single-pass scanner that turns a
//! byte buffer into a stream of classified tokens.

pub mod error;
pub mod lexer;
