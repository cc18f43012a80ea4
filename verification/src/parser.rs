//! From source text to syntax tree.
//!
//! [`parse`] reads the whole language by the grammar of [`grammar`], from the words that
//! [`token`] finds; [`numbers`] proves that the numbers of the number words have no part
//! in whether a source parses. [`shift`] is a second, bottom-up parser for the plainest
//! statements alone, over the tokens of the lexer.

pub mod grammar;
pub mod numbers;
pub mod parse;
pub mod shift;
pub mod token;

pub use self::parse::{is_complete, parse};
pub use self::token::{Kind, Lexeme, LexemeView, ParseError, ParseErrorView};
