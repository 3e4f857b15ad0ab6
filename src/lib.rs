//! A lexical scanner for a small language: source text in, a flat sequence of
//! typed tokens and a list of lexical errors out.

pub mod error;
pub mod lexer;
pub mod model;
pub mod theorems;
pub mod token;
