//! A tokenizer for CSS Syntax Level 3.
//!
//! The tokenizer walks a `&str` byte by byte and hands out one [`Token`] per
//! call. What each call returns is fixed by the spec functions of
//! [`grammar`], which read the input as a sequence of characters.
pub mod assumed;
pub mod bounds;
pub mod classes;
pub mod cursor;
pub mod dispatch;
pub mod encoding;
pub mod grammar;
pub mod laws;
pub mod names;
pub mod numbers;
pub mod ranges;
pub mod runs;
pub mod strings;
pub mod token;
pub mod urls;
pub mod tokenizer;

pub use token::{NumericValue, Token};
pub use tokenizer::Tokenizer;
