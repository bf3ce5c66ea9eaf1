//! A lexer for a small C-like language: it turns source text into tokens.
//!
//! [`Lexer`] holds the text and a cursor; each request reads one token.
//! What a request reads is defined in [`scan`] on sequences of characters,
//! and what holds of the tokens of an input as a whole is proved in
//! [`stream`].

pub mod chars;
pub mod lexer;
pub mod scan;
pub mod stream;
pub mod token;

pub use crate::lexer::Lexer;
pub use crate::token::{Token, TokenType};
