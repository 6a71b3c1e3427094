//! Lexical analysis: from a line of text to a sequence of tokens.

pub mod types;
pub mod scan;
pub mod lexer;
pub mod laws;

pub use types::{Span, Token, TokenKind, TokenView};
pub use scan::{LexerError, LexerState};
pub use lexer::Lexer;
