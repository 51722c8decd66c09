//! The lexical units of the language.

use vstd::prelude::*;

verus! {

/// The structural marks, each a single character.
#[derive(Debug, PartialEq, Eq, Clone, Copy, Structural)]
pub enum PunctuationKind {
    OpenParen,
    CloseParen,
    OpenCurly,
    CloseCurly,
    Separator,
    Equal,
    Bang,
    Comma,
    Dot,
}

/// The relational and compound operators, one or two characters long.
#[derive(Debug, PartialEq, Eq, Clone, Copy, Structural)]
pub enum OperatorKind {
    Greater,
    GreaterEqual,
    Less,
    LessEqual,
    EqualEqual,
    BangEqual,
    PlusEqual,
    MinusEqual,
    Increment,
    Decrement,
}

/// The arithmetic operators, each a single character.
#[derive(Debug, PartialEq, Eq, Clone, Copy, Structural)]
pub enum OperationKind {
    Plus,
    Minus,
    Star,
    Slash,
}

/// Whether the text of a numeric literal has a fractional part.
#[derive(Debug, PartialEq, Eq, Clone, Copy, Structural)]
pub enum NumericHint {
    Integer,
    FloatingPoint,
}

/// A structural mark together with the character it was read from.
#[derive(Debug, PartialEq, Eq, Clone, Copy, Structural)]
pub struct Punctuation {
    pub raw: char,
    pub kind: PunctuationKind,
}

/// One lexical unit.
///
/// The text of a numeric literal is kept as it was read; turning it into a
/// number is left to whoever consumes the token.
#[derive(Debug)]
#[allow(inconsistent_fields)]
pub enum TokenType {
    /// The end of the input; always the last token of a sequence.
    EOF,
    Punctuation { raw: char, kind: PunctuationKind },
    Operations { raw: char, kind: OperationKind },
    Operator(OperatorKind),
    /// A name that is not a reserved word.
    Identifier(String),
    Char(char),
    Numeric { raw: String, hint: NumericHint },
    /// The characters between two double quotes, with no escapes processed.
    String(String),
    /// A reserved word.
    Terminal(String),
}

/// What a token is, with texts as sequences of characters.
#[allow(inconsistent_fields)]
pub enum TokenView {
    EOF,
    Punctuation { raw: char, kind: PunctuationKind },
    Operations { raw: char, kind: OperationKind },
    Operator(OperatorKind),
    Identifier(Seq<char>),
    Char(char),
    Numeric { raw: Seq<char>, hint: NumericHint },
    String(Seq<char>),
    Terminal(Seq<char>),
}

impl View for TokenType {
    type V = TokenView;

    open spec fn view(&self) -> TokenView {
        match self {
            TokenType::EOF => TokenView::EOF,
            TokenType::Punctuation { raw, kind } => TokenView::Punctuation { raw: *raw, kind: *kind },
            TokenType::Operations { raw, kind } => TokenView::Operations { raw: *raw, kind: *kind },
            TokenType::Operator(kind) => TokenView::Operator(*kind),
            TokenType::Identifier(name) => TokenView::Identifier(name@),
            TokenType::Char(c) => TokenView::Char(*c),
            TokenType::Numeric { raw, hint } => TokenView::Numeric { raw: raw@, hint: *hint },
            TokenType::String(text) => TokenView::String(text@),
            TokenType::Terminal(word) => TokenView::Terminal(word@),
        }
    }
}

/// The views of a sequence of tokens, in order.
pub open spec fn token_views(tokens: Seq<TokenType>) -> Seq<TokenView> {
    Seq::new(tokens.len(), |i: int| tokens[i]@)
}

impl PartialEq for TokenType {
    /// Two tokens are equal when they are the same variant with the same
    /// kinds and the same texts.
    fn eq(&self, other: &TokenType) -> (r: bool) {
        match (self, other) {
            (TokenType::EOF, TokenType::EOF) => true,
            (
                TokenType::Punctuation { raw: r1, kind: k1 },
                TokenType::Punctuation { raw: r2, kind: k2 },
            ) => *r1 == *r2 && *k1 == *k2,
            (
                TokenType::Operations { raw: r1, kind: k1 },
                TokenType::Operations { raw: r2, kind: k2 },
            ) => *r1 == *r2 && *k1 == *k2,
            (TokenType::Operator(k1), TokenType::Operator(k2)) => *k1 == *k2,
            (TokenType::Identifier(a), TokenType::Identifier(b)) => *a == *b,
            (TokenType::Char(a), TokenType::Char(b)) => *a == *b,
            (
                TokenType::Numeric { raw: r1, hint: h1 },
                TokenType::Numeric { raw: r2, hint: h2 },
            ) => *r1 == *r2 && *h1 == *h2,
            (TokenType::String(a), TokenType::String(b)) => *a == *b,
            (TokenType::Terminal(a), TokenType::Terminal(b)) => *a == *b,
            _ => false,
        }
    }
}

impl vstd::std_specs::cmp::PartialEqSpecImpl for TokenType {
    open spec fn obeys_eq_spec() -> bool {
        true
    }

    open spec fn eq_spec(&self, other: &TokenType) -> bool {
        self@ == other@
    }
}

impl Clone for TokenType {
    fn clone(&self) -> (r: TokenType)
        ensures
            r == *self,
    {
        match self {
            TokenType::EOF => TokenType::EOF,
            TokenType::Punctuation { raw, kind } => TokenType::Punctuation { raw: *raw, kind: *kind },
            TokenType::Operations { raw, kind } => TokenType::Operations { raw: *raw, kind: *kind },
            TokenType::Operator(kind) => TokenType::Operator(*kind),
            TokenType::Identifier(name) => TokenType::Identifier(name.clone()),
            TokenType::Char(c) => TokenType::Char(*c),
            TokenType::Numeric { raw, hint } => TokenType::Numeric { raw: raw.clone(), hint: *hint },
            TokenType::String(text) => TokenType::String(text.clone()),
            TokenType::Terminal(word) => TokenType::Terminal(word.clone()),
        }
    }
}

impl TokenType {
    /// Whether the token is a string literal.
    pub fn is_string(&self) -> (r: bool)
        ensures
            r == (self is String),
    {
        match self {
            TokenType::String(_) => true,
            _ => false,
        }
    }

    /// The contents of a string literal.
    pub fn unwrap_string(&self) -> (r: String)
        requires
            self is String,
        ensures
            r == self->String_0,
            self@ == TokenView::String(r@),
    {
        match self {
            TokenType::String(value) => value.clone(),
            _ => vstd::pervasive::unreached(),
        }
    }
}

} // verus!
