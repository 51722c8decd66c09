//! The lexical rules: which token starts at a position of a text, and where
//! the token after it starts.
//!
//! Everything here is a mathematical description, over a text as a sequence
//! of characters and positions as integers. The lexer is verified to follow
//! it.

use super::chars::{ascii_letter, digit, unicode_alphabetic, unicode_alphanumeric, white_space};
use super::error::LexerErrorView;
use super::token::{NumericHint, OperationKind, OperatorKind, PunctuationKind, TokenView};
use vstd::prelude::*;

verus! {

/// The kinds of character that are read in runs.
#[derive(PartialEq, Eq, Clone, Copy, Structural)]
pub enum CharClass {
    /// White space.
    Blank,
    /// Anything but a line feed: the body of a line comment.
    LineBody,
    /// Anything but a double quote: the body of a string literal.
    StringBody,
    /// What an identifier may continue with.
    WordPart,
    /// A decimal digit or the separator `_`.
    DigitOrSeparator,
}

/// Whether `c` belongs to `class`.
pub open spec fn in_class(class: CharClass, c: char) -> bool {
    match class {
        CharClass::Blank => white_space(c),
        CharClass::LineBody => c != '\n',
        CharClass::StringBody => c != '"',
        CharClass::WordPart => unicode_alphanumeric(c) || digit(c) || c == '_',
        CharClass::DigitOrSeparator => digit(c) || c == '_',
    }
}

/// Whether an identifier or a reserved word may start with `c`.
pub open spec fn word_start(c: char) -> bool {
    unicode_alphabetic(c) || c == '_'
}

/// Where the longest run of characters of `class` that starts at `from`
/// ends: the first position at or after `from` that holds a character
/// outside `class`, or the end of the text.
pub open spec fn run_end(s: Seq<char>, from: int, class: CharClass) -> int
    decreases s.len() - from,
{
    if 0 <= from < s.len() && in_class(class, s[from]) {
        run_end(s, from + 1, class)
    } else {
        from
    }
}

/// A run ends where its definition says: everything before the end is in the
/// class, and the character at the end, if there is one, is not.
pub proof fn lemma_run_end(s: Seq<char>, from: int, class: CharClass)
    requires
        0 <= from <= s.len(),
    ensures
        from <= run_end(s, from, class) <= s.len(),
        forall|i: int| from <= i < run_end(s, from, class) ==> in_class(class, #[trigger] s[i]),
        run_end(s, from, class) < s.len() ==> !in_class(class, s[run_end(s, from, class)]),
    decreases s.len() - from,
{
    if from < s.len() && in_class(class, s[from]) {
        lemma_run_end(s, from + 1, class);
    }
}

/// A position that everything of the class leads up to, and that holds
/// nothing of the class, is where the run ends.
pub proof fn lemma_run_end_is(s: Seq<char>, from: int, class: CharClass, end: int)
    requires
        0 <= from <= end <= s.len(),
        forall|i: int| from <= i < end ==> in_class(class, #[trigger] s[i]),
        end < s.len() ==> !in_class(class, s[end]),
    ensures
        run_end(s, from, class) == end,
    decreases end - from,
{
    if from < end {
        lemma_run_end_is(s, from + 1, class, end);
    }
}

/// Where a block comment whose body starts at `from` ends: just after the
/// first `*/`, or at the end of the text if there is none. Comments do not
/// nest.
pub open spec fn block_comment_end(s: Seq<char>, from: int) -> int
    decreases s.len() - from,
{
    if 0 <= from && from + 1 < s.len() && s[from] == '*' && s[from + 1] == '/' {
        from + 2
    } else if 0 <= from < s.len() {
        block_comment_end(s, from + 1)
    } else {
        from
    }
}

/// A block comment ends after its body started and within the text.
pub proof fn lemma_block_comment_end(s: Seq<char>, from: int)
    requires
        0 <= from <= s.len(),
    ensures
        from <= block_comment_end(s, from) <= s.len(),
    decreases s.len() - from,
{
    if from + 1 < s.len() && s[from] == '*' && s[from + 1] == '/' {
    } else if from < s.len() {
        lemma_block_comment_end(s, from + 1);
    }
}

/// The reserved words.
pub open spec fn keyword_table() -> Seq<Seq<char>> {
    seq![
        "true"@,
        "false"@,
        "let"@,
        "def"@,
        "class"@,
        "extends"@,
        "super"@,
        "this"@,
        "print"@,
        "nil"@,
        "return"@,
        "if"@,
        "while"@,
        "for"@,
    ]
}

/// Whether `text` is a reserved word.
pub open spec fn is_keyword(text: Seq<char>) -> bool {
    keyword_table().contains(text)
}

/// The token for a word: a terminal if the word is reserved, an identifier
/// if not.
pub open spec fn word(text: Seq<char>) -> TokenView {
    if is_keyword(text) {
        TokenView::Terminal(text)
    } else {
        TokenView::Identifier(text)
    }
}

/// What reading one token gives: the token or the failure, and the position
/// at which reading goes on.
pub struct Scanned {
    pub outcome: Result<TokenView, LexerErrorView>,
    pub next: int,
}

/// What reading one group of digits gives: its text or the failure, and the
/// position at which reading goes on.
pub struct DigitGroup {
    pub outcome: Result<Seq<char>, LexerErrorView>,
    pub end: int,
}

/// Where the group of digits that starts at `from` ends.
///
/// A group is made of digits and separators, and a separator never leads:
/// a group that continues digits read before it may start with either, and
/// any other group starts with a digit. The group is empty where `from`
/// holds nothing that it can start with.
pub open spec fn digits_end(s: Seq<char>, from: int, continues: bool) -> int {
    if continues {
        run_end(s, from, CharClass::DigitOrSeparator)
    } else if 0 <= from < s.len() && digit(s[from]) {
        run_end(s, from + 1, CharClass::DigitOrSeparator)
    } else {
        from
    }
}

/// The group of digits at `from`; `continues` says whether it continues
/// digits that were read before it.
///
/// A letter of ASCII or a separator right after the group is an error. So is
/// the end of the text in place of a group that is empty and continues
/// nothing. Nothing after the group is consumed.
pub open spec fn digit_group(s: Seq<char>, from: int, continues: bool) -> DigitGroup {
    let end = digits_end(s, from, continues);
    let raw = s.subrange(from, end);
    if end >= s.len() {
        if continues || end > from {
            DigitGroup { outcome: Ok(raw), end }
        } else {
            DigitGroup {
                outcome: Err(
                    LexerErrorView::MissingExpectedSymbol { expected: "0 - 9"@, found: TokenView::EOF },
                ),
                end,
            }
        }
    } else if !ascii_letter(s[end]) && s[end] != '_' {
        DigitGroup { outcome: Ok(raw), end }
    } else {
        DigitGroup { outcome: Err(LexerErrorView::NumericLiteralInvalidChar { raw, invalid: s[end] }), end }
    }
}

/// The numeric literal whose first character `start` stands just before
/// `from`.
///
/// After a digit come the rest of the whole part and, if a `.` follows it, the
/// `.` and a fractional part, which makes the literal floating point.
/// After a `.` comes a fractional part. The text is kept as read.
pub open spec fn numeric_token(s: Seq<char>, from: int, start: char) -> Scanned {
    if start == '.' {
        let fraction = digit_group(s, from, false);
        match fraction.outcome {
            Err(e) => Scanned { outcome: Err(e), next: fraction.end },
            Ok(f) => Scanned {
                outcome: Ok(TokenView::Numeric { raw: seq![start] + f, hint: NumericHint::FloatingPoint }),
                next: fraction.end,
            },
        }
    } else if digit(start) {
        let whole = digit_group(s, from, true);
        match whole.outcome {
            Err(e) => Scanned { outcome: Err(e), next: whole.end },
            Ok(w) => if 0 <= whole.end < s.len() && s[whole.end] == '.' {
                let fraction = digit_group(s, whole.end + 1, false);
                match fraction.outcome {
                    Err(e) => Scanned { outcome: Err(e), next: fraction.end },
                    Ok(f) => Scanned {
                        outcome: Ok(
                            TokenView::Numeric {
                                raw: seq![start] + w + seq!['.'] + f,
                                hint: NumericHint::FloatingPoint,
                            },
                        ),
                        next: fraction.end,
                    },
                }
            } else {
                Scanned {
                    outcome: Ok(TokenView::Numeric { raw: seq![start] + w, hint: NumericHint::Integer }),
                    next: whole.end,
                }
            },
        }
    } else {
        Scanned {
            outcome: Err(LexerErrorView::NumericLiteralInvalidChar { raw: seq![start], invalid: start }),
            next: from,
        }
    }
}

/// The string literal whose body starts at `from`, after the opening quote.
/// The body runs to the next double quote, which is consumed; a text that
/// ends first gives an error.
pub open spec fn string_token(s: Seq<char>, from: int) -> Scanned {
    let close = run_end(s, from, CharClass::StringBody);
    if close < s.len() {
        Scanned { outcome: Ok(TokenView::String(s.subrange(from, close))), next: close + 1 }
    } else {
        Scanned {
            outcome: Err(LexerErrorView::MissingExpectedSymbol { expected: "\""@, found: TokenView::EOF }),
            next: close,
        }
    }
}

/// The identifier or reserved word whose first character `start` stands just
/// before `from`.
pub open spec fn word_token(s: Seq<char>, from: int, start: char) -> Scanned {
    let end = run_end(s, from, CharClass::WordPart);
    Scanned { outcome: Ok(word(seq![start] + s.subrange(from, end))), next: end }
}

/// Whether the character at `from` is `c`.
pub open spec fn followed_by(s: Seq<char>, from: int, c: char) -> bool {
    0 <= from < s.len() && s[from] == c
}

/// A punctuation token.
pub open spec fn punctuation(raw: char, kind: PunctuationKind) -> TokenView {
    TokenView::Punctuation { raw, kind }
}

/// An arithmetic operator token.
pub open spec fn operation(raw: char, kind: OperationKind) -> TokenView {
    TokenView::Operations { raw, kind }
}

/// The token `token`, after which reading goes on at `next`.
pub open spec fn scanned(token: TokenView, next: int) -> Scanned {
    Scanned { outcome: Ok(token), next }
}

/// The token that starts with the character `c`, where `c` stands just before
/// `from`.
///
/// A character that may start a two-character operator is joined with the
/// next one if that completes the operator, and stands alone if not. A
/// comment is skipped, and the token after it is the result.
pub open spec fn token_from(s: Seq<char>, from: int, c: char) -> Scanned
    decreases s.len() - from, 0int,
{
    if c == '(' {
        scanned(punctuation(c, PunctuationKind::OpenParen), from)
    } else if c == ')' {
        scanned(punctuation(c, PunctuationKind::CloseParen), from)
    } else if c == '{' {
        scanned(punctuation(c, PunctuationKind::OpenCurly), from)
    } else if c == '}' {
        scanned(punctuation(c, PunctuationKind::CloseCurly), from)
    } else if c == ';' {
        scanned(punctuation(c, PunctuationKind::Separator), from)
    } else if c == ',' {
        scanned(punctuation(c, PunctuationKind::Comma), from)
    } else if c == '.' {
        scanned(punctuation(c, PunctuationKind::Dot), from)
    } else if c == '!' {
        if followed_by(s, from, '=') {
            scanned(TokenView::Operator(OperatorKind::BangEqual), from + 1)
        } else {
            scanned(punctuation(c, PunctuationKind::Bang), from)
        }
    } else if c == '=' {
        if followed_by(s, from, '=') {
            scanned(TokenView::Operator(OperatorKind::EqualEqual), from + 1)
        } else {
            scanned(punctuation(c, PunctuationKind::Equal), from)
        }
    } else if c == '+' {
        if followed_by(s, from, '=') {
            scanned(TokenView::Operator(OperatorKind::PlusEqual), from + 1)
        } else if followed_by(s, from, '+') {
            scanned(TokenView::Operator(OperatorKind::Increment), from + 1)
        } else {
            scanned(operation(c, OperationKind::Plus), from)
        }
    } else if c == '-' {
        if followed_by(s, from, '=') {
            scanned(TokenView::Operator(OperatorKind::MinusEqual), from + 1)
        } else if followed_by(s, from, '-') {
            scanned(TokenView::Operator(OperatorKind::Decrement), from + 1)
        } else {
            scanned(operation(c, OperationKind::Minus), from)
        }
    } else if c == '*' {
        scanned(operation(c, OperationKind::Star), from)
    } else if c == '/' {
        if followed_by(s, from, '/') {
            proof {
                lemma_run_end(s, from + 1, CharClass::LineBody);
            }
            scan_token(s, run_end(s, from + 1, CharClass::LineBody))
        } else if followed_by(s, from, '*') {
            proof {
                lemma_block_comment_end(s, from + 1);
            }
            scan_token(s, block_comment_end(s, from + 1))
        } else {
            scanned(operation(c, OperationKind::Slash), from)
        }
    } else if c == '<' {
        if followed_by(s, from, '=') {
            scanned(TokenView::Operator(OperatorKind::LessEqual), from + 1)
        } else {
            scanned(TokenView::Operator(OperatorKind::Less), from)
        }
    } else if c == '>' {
        if followed_by(s, from, '=') {
            scanned(TokenView::Operator(OperatorKind::GreaterEqual), from + 1)
        } else {
            scanned(TokenView::Operator(OperatorKind::Greater), from)
        }
    } else if digit(c) {
        numeric_token(s, from, c)
    } else if c == '"' {
        string_token(s, from)
    } else if word_start(c) {
        word_token(s, from, c)
    } else {
        Scanned { outcome: Err(LexerErrorView::UnknownSymbol { symbol: seq![c] }), next: from }
    }
}

/// The token that starts at or after `from`: white space is skipped, the end
/// of the text gives the end-of-stream token, and any other character starts
/// a token as [`token_from`] says.
pub open spec fn scan_token(s: Seq<char>, from: int) -> Scanned
    decreases s.len() - from, 1int,
{
    let at = run_end(s, from, CharClass::Blank);
    if 0 <= from && at < s.len() {
        proof {
            lemma_run_end(s, from, CharClass::Blank);
        }
        token_from(s, at + 1, s[at])
    } else {
        scanned(TokenView::EOF, at)
    }
}

/// Reading a token never goes backwards nor past the end of the text. The
/// end-of-stream token is given at the end of the text only, and reading
/// anything else moves forward.
pub proof fn lemma_scan_token(s: Seq<char>, from: int)
    requires
        0 <= from <= s.len(),
    ensures
        from <= scan_token(s, from).next <= s.len(),
        scan_token(s, from).outcome == Ok::<TokenView, LexerErrorView>(TokenView::EOF) ==> scan_token(
            s,
            from,
        ).next == s.len(),
        scan_token(s, from).outcome != Ok::<TokenView, LexerErrorView>(TokenView::EOF) ==> scan_token(
            s,
            from,
        ).next > from,
    decreases s.len() - from, 1int,
{
    lemma_run_end(s, from, CharClass::Blank);
    let at = run_end(s, from, CharClass::Blank);
    if at < s.len() {
        lemma_token_from(s, at + 1, s[at]);
    }
}

/// The same for a token whose first character has been read.
pub proof fn lemma_token_from(s: Seq<char>, from: int, c: char)
    requires
        0 < from <= s.len(),
    ensures
        from <= token_from(s, from, c).next <= s.len(),
        token_from(s, from, c).outcome == Ok::<TokenView, LexerErrorView>(TokenView::EOF) ==> token_from(
            s,
            from,
            c,
        ).next == s.len(),
    decreases s.len() - from, 0int,
{
    if c == '/' {
        if followed_by(s, from, '/') {
            lemma_run_end(s, from + 1, CharClass::LineBody);
            lemma_scan_token(s, run_end(s, from + 1, CharClass::LineBody));
        } else if followed_by(s, from, '*') {
            lemma_block_comment_end(s, from + 1);
            lemma_scan_token(s, block_comment_end(s, from + 1));
        }
    } else if digit(c) {
        lemma_numeric_token(s, from, c);
    } else if c == '"' {
        lemma_run_end(s, from, CharClass::StringBody);
    } else if word_start(c) {
        lemma_run_end(s, from, CharClass::WordPart);
    }
}

/// A group of digits ends after it started and within the text.
pub proof fn lemma_digit_group(s: Seq<char>, from: int, continues: bool)
    requires
        0 <= from <= s.len(),
    ensures
        from <= digit_group(s, from, continues).end <= s.len(),
        digit_group(s, from, continues).end == digits_end(s, from, continues),
{
    if continues {
        lemma_run_end(s, from, CharClass::DigitOrSeparator);
    } else if from < s.len() && digit(s[from]) {
        lemma_run_end(s, from + 1, CharClass::DigitOrSeparator);
    }
}

/// A numeric literal ends after it started and within the text, and is never
/// the end-of-stream token.
pub proof fn lemma_numeric_token(s: Seq<char>, from: int, start: char)
    requires
        0 <= from <= s.len(),
    ensures
        from <= numeric_token(s, from, start).next <= s.len(),
        numeric_token(s, from, start).outcome != Ok::<TokenView, LexerErrorView>(TokenView::EOF),
{
    lemma_digit_group(s, from, false);
    lemma_digit_group(s, from, true);
    let whole = digit_group(s, from, true);
    if whole.end < s.len() {
        lemma_digit_group(s, whole.end + 1, false);
    }
}

/// The tokens and the errors that reading a text to its end gives.
pub struct Scan {
    pub tokens: Seq<TokenView>,
    pub errors: Seq<LexerErrorView>,
}

/// Everything that is read from `from` to the end of the text: the tokens in
/// order, ending with the end-of-stream token, and the errors in order. An
/// error leaves no token, and reading goes on after the offending text.
pub open spec fn scan_all(s: Seq<char>, from: int) -> Scan
    decreases s.len() - from,
    when 0 <= from <= s.len()
{
    let first = scan_token(s, from);
    proof {
        lemma_scan_token(s, from);
    }
    match first.outcome {
        Ok(TokenView::EOF) => Scan { tokens: seq![TokenView::EOF], errors: seq![] },
        Ok(token) => {
            let rest = scan_all(s, first.next);
            Scan { tokens: seq![token] + rest.tokens, errors: rest.errors }
        },
        Err(error) => {
            let rest = scan_all(s, first.next);
            Scan { tokens: rest.tokens, errors: seq![error] + rest.errors }
        },
    }
}

/// Whether a token sequence is not empty, ends with the end-of-stream token
/// and holds no other.
pub open spec fn well_terminated(tokens: Seq<TokenView>) -> bool {
    &&& tokens.len() > 0
    &&& tokens.last() == TokenView::EOF
    &&& forall|i: int| 0 <= i < tokens.len() - 1 ==> tokens[i] != TokenView::EOF
}

/// The tokens of any text, read from any position, end with exactly one
/// end-of-stream token.
pub proof fn lemma_scan_all_well_terminated(s: Seq<char>, from: int)
    requires
        0 <= from <= s.len(),
    ensures
        well_terminated(scan_all(s, from).tokens),
    decreases s.len() - from,
{
    let first = scan_token(s, from);
    lemma_scan_token(s, from);
    match first.outcome {
        Ok(TokenView::EOF) => {},
        Ok(token) => {
            lemma_scan_all_well_terminated(s, first.next);
            let rest = scan_all(s, first.next);
            let all = seq![token] + rest.tokens;
            assert(all.last() == rest.tokens.last());
            assert forall|i: int| 0 <= i < all.len() - 1 implies all[i] != TokenView::EOF by {
                if i > 0 {
                    assert(all[i] == rest.tokens[i - 1]);
                }
            }
        },
        Err(error) => {
            lemma_scan_all_well_terminated(s, first.next);
        },
    }
}

} // verus!
