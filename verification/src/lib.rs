//! Front end of a small scripting language: a lexer that turns source text
//! into tokens and a recursive-descent parser that turns tokens into
//! statements.
//!
//! Every function is verified against a mathematical description of the
//! language: [`lexer::rules`] says which token starts at each position of a
//! text, [`parser::grammar`] says which tree a token sequence denotes.

use crate::lexer::error::{error_views, LexerError, LexerErrorView};
use crate::lexer::rules::{scan_all, well_terminated};
use crate::lexer::token::{token_views, TokenType, TokenView};
use crate::lexer::Lexer;
use crate::parser::error::{ParseError, ParseErrorView};
use crate::parser::grammar::{parse_result, program};
use crate::parser::parser::program_outcome;
use crate::parser::stmt::{Stmt, StmtView};
use crate::parser::Parser;
use vstd::prelude::*;

pub mod balance;
pub mod lexer;
pub mod parser;

verus! {

/// Reads a whole text: its tokens in order, ending with exactly one
/// end-of-stream token, and the errors in order. A piece of text that gives
/// an error gives no token.
pub fn scan(source_text: &str) -> (r: (Vec<TokenType>, Vec<LexerError>))
    ensures
        token_views(r.0@) == scan_all(source_text@, 0).tokens,
        error_views(r.1@) == scan_all(source_text@, 0).errors,
        well_terminated(token_views(r.0@)),
{
    let mut lexer = Lexer::new(source_text);
    lexer.get_tokens()
}

/// Parses a whole token sequence: the statements in order if every
/// declaration was parsed, and if not, the errors in order, one for each
/// declaration that failed.
pub fn parse(tokens: Vec<TokenType>) -> (r: Result<Vec<Stmt>, Vec<ParseError>>)
    ensures
        program_outcome(r) == parse_result(program(token_views(tokens@), 0)),
{
    let mut parser = Parser::new(tokens);
    parser.parse_program()
}

/// Scanning and parsing are functions of the text: whenever the same text is
/// scanned twice and the tokens of each scan are parsed, the two scans give
/// the same tokens and the same errors, and the two parses give the same
/// trees or the same errors.
pub proof fn lemma_same_text_same_trees(
    text: Seq<char>,
    first_tokens: Seq<TokenView>,
    first_errors: Seq<LexerErrorView>,
    first_trees: Result<Seq<StmtView>, Seq<ParseErrorView>>,
    second_tokens: Seq<TokenView>,
    second_errors: Seq<LexerErrorView>,
    second_trees: Result<Seq<StmtView>, Seq<ParseErrorView>>,
)
    requires
        first_tokens == scan_all(text, 0).tokens,
        first_errors == scan_all(text, 0).errors,
        first_trees == parse_result(program(first_tokens, 0)),
        second_tokens == scan_all(text, 0).tokens,
        second_errors == scan_all(text, 0).errors,
        second_trees == parse_result(program(second_tokens, 0)),
    ensures
        first_tokens == second_tokens,
        first_errors == second_errors,
        first_trees == second_trees,
{
}

} // verus!
