//! What can go wrong while reading one token.

use super::token::{TokenType, TokenView};
use vstd::prelude::*;

verus! {

/// A failure to read one token.
///
/// A failure concerns one token only: the lexer has moved past the
/// offending text and can go on with what follows.
#[derive(Debug, PartialEq)]
#[allow(inconsistent_fields)]
pub enum LexerError {
    /// Something that had to follow was not there; `expected` describes it.
    MissingExpectedSymbol { expected: &'static str, found: TokenType },
    /// A closing bracket without an opening one before it.
    MissingBalancedSymbol { symbol: char, open: char },
    /// A letter or a misplaced separator right after `raw`, the digits read
    /// so far.
    NumericLiteralInvalidChar { raw: String, invalid: char },
    /// A character that starts no token.
    UnknownSymbol { symbol: String },
}

/// What a lexer error is, with texts as sequences of characters.
#[allow(inconsistent_fields)]
pub enum LexerErrorView {
    MissingExpectedSymbol { expected: Seq<char>, found: TokenView },
    MissingBalancedSymbol { symbol: char, open: char },
    NumericLiteralInvalidChar { raw: Seq<char>, invalid: char },
    UnknownSymbol { symbol: Seq<char> },
}

impl View for LexerError {
    type V = LexerErrorView;

    open spec fn view(&self) -> LexerErrorView {
        match self {
            LexerError::MissingExpectedSymbol { expected, found } => LexerErrorView::MissingExpectedSymbol {
                expected: expected@,
                found: found@,
            },
            LexerError::MissingBalancedSymbol { symbol, open } => LexerErrorView::MissingBalancedSymbol {
                symbol: *symbol,
                open: *open,
            },
            LexerError::NumericLiteralInvalidChar { raw, invalid } => LexerErrorView::NumericLiteralInvalidChar {
                raw: raw@,
                invalid: *invalid,
            },
            LexerError::UnknownSymbol { symbol } => LexerErrorView::UnknownSymbol { symbol: symbol@ },
        }
    }
}

/// The views of a sequence of lexer errors, in order.
pub open spec fn error_views(errors: Seq<LexerError>) -> Seq<LexerErrorView> {
    Seq::new(errors.len(), |i: int| errors[i]@)
}

} // verus!
