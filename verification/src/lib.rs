//! Envlang is an interpreted programming language focused on environment manipulation.
//!
//! This crate holds the verified front end of the language: the symbol tables, the lexers
//! that turn Unicode grapheme segments into tokens, and the parsers that turn tokens into values.
pub mod io;
pub mod symbols;
pub mod chars;
pub mod lexer;
pub mod lenient_lexer;
pub mod unicodesegmenters;
pub mod numerals;
pub mod unicodeparser;
pub mod environment;
pub mod value_parser;
pub mod parsererror;
pub mod operators;
pub mod parser;
