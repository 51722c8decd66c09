//! What can go wrong while parsing one statement.

use crate::lexer::token::{TokenType, TokenView};
use vstd::prelude::*;

verus! {

/// A failure to parse one statement.
///
/// `found` is the token at which the parser stood when it gave up.
#[derive(Debug, PartialEq)]
#[allow(inconsistent_fields)]
pub enum ParseError {
    /// A token that the grammar asks for was not there; `expected` describes
    /// it.
    MissingExpectedSymbol { expected: &'static str, found: TokenType },
    /// An operator where none can stand.
    InvalidOperator { found: TokenType },
    /// A token that starts no expression.
    InvalidExpression { found: TokenType },
    /// An integer literal whose text is not a decimal number of 32 bits.
    InvalidLiteral { found: TokenType },
    /// More parameters than a function may have.
    TooManyParameters,
    /// More arguments than a call may have.
    TooManyArguments,
}

/// What a parse error is, with texts as sequences of characters.
#[allow(inconsistent_fields)]
pub enum ParseErrorView {
    MissingExpectedSymbol { expected: Seq<char>, found: TokenView },
    InvalidOperator { found: TokenView },
    InvalidExpression { found: TokenView },
    InvalidLiteral { found: TokenView },
    TooManyParameters,
    TooManyArguments,
}

impl View for ParseError {
    type V = ParseErrorView;

    open spec fn view(&self) -> ParseErrorView {
        match self {
            ParseError::MissingExpectedSymbol { expected, found } => ParseErrorView::MissingExpectedSymbol {
                expected: expected@,
                found: found@,
            },
            ParseError::InvalidOperator { found } => ParseErrorView::InvalidOperator { found: found@ },
            ParseError::InvalidExpression { found } => ParseErrorView::InvalidExpression { found: found@ },
            ParseError::InvalidLiteral { found } => ParseErrorView::InvalidLiteral { found: found@ },
            ParseError::TooManyParameters => ParseErrorView::TooManyParameters,
            ParseError::TooManyArguments => ParseErrorView::TooManyArguments,
        }
    }
}

/// The views of a sequence of parse errors, in order.
pub open spec fn parse_error_views(errors: Seq<ParseError>) -> Seq<ParseErrorView> {
    Seq::new(errors.len(), |i: int| errors[i]@)
}

} // verus!
