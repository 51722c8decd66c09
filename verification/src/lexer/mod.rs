//! Source text to tokens.

pub mod chars;
pub mod error;
pub mod lexer;
pub mod rules;
pub mod token;

pub use self::lexer::Lexer;
pub use error::{LexerError, LexerErrorView};
pub use token::{NumericHint, OperationKind, OperatorKind, Punctuation, PunctuationKind, TokenType, TokenView};
