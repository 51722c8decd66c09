//! A scanner for brackets that keeps count of how deep they nest.
//!
//! Each opening bracket is given the depth at which it opens, each closing
//! bracket the depth to which it returns, and a closing bracket that closes
//! nothing is reported. Round and square brackets are counted apart.

use crate::lexer::chars::{chars_of, digit, is_digit, is_whitespace};
use crate::lexer::rules::{in_class, lemma_run_end_is, run_end, CharClass};
use std::collections::HashMap;
use vstd::prelude::*;

verus! {

broadcast use vstd::std_specs::hash::group_hash_axioms;

/// The type of a nesting depth.
pub type BalancingDepthType = i32;

/// The kinds of structural mark. An opening bracket carries the number of
/// brackets of its kind that were open before it, a closing bracket the
/// number that stay open after it.
#[derive(Debug, PartialEq, Eq, Clone, Copy, Structural)]
pub enum PunctuationKind {
    Open(BalancingDepthType),
    Close(BalancingDepthType),
    Separator,
}

/// A structural mark together with the character it was read from.
#[derive(Debug, PartialEq, Eq, Clone, Copy, Structural)]
pub struct Punctuation {
    pub raw: char,
    pub kind: PunctuationKind,
}

/// Whether the text of a numeric literal has a fractional part.
#[derive(Debug, PartialEq, Eq, Clone, Copy, Structural)]
pub enum NumericHint {
    Integer,
    FloatingPoint,
}

/// One lexical unit.
#[derive(Debug, PartialEq)]
pub enum TokenType {
    EOF,
    Punctuation { raw: char, kind: PunctuationKind },
    Operations(String),
    Identifier(String),
    Char(char),
    Numeric(String),
}

/// A token.
pub type Token = TokenType;

/// A failure to read one token.
#[derive(Debug, PartialEq)]
#[allow(inconsistent_fields)]
pub enum LexerError {
    MissingExpectedSymbol { expected: TokenType, found: Token },
    /// A closing bracket while no bracket of its kind is open.
    MissingBalancedSymbol { symbol: char, open: char },
    /// A character that starts no token.
    UnknownSymbol { symbol: String },
}

/// How many round and how many square brackets are open.
pub struct Depths {
    pub round: int,
    pub square: int,
}

/// Whether `c` is an opening bracket that is counted.
pub open spec fn opens(c: char) -> bool {
    c == '(' || c == '['
}

/// Whether `c` is a closing bracket that is counted.
pub open spec fn closes(c: char) -> bool {
    c == ')' || c == ']'
}

/// Whether `c` is a bracket: round, square or curly.
pub open spec fn bracket(c: char) -> bool {
    c == '(' || c == ')' || c == '[' || c == ']' || c == '{' || c == '}'
}

/// The bracket that goes with the bracket `c`.
pub open spec fn partner(c: char) -> char {
    if c == '(' {
        ')'
    } else if c == ')' {
        '('
    } else if c == '{' {
        '}'
    } else if c == '}' {
        '{'
    } else if c == '[' {
        ']'
    } else if c == ']' {
        '['
    } else {
        c
    }
}

/// How many brackets that were opened with `opener` are open.
pub open spec fn depth_of(depths: Depths, opener: char) -> int {
    if opener == '(' {
        depths.round
    } else if opener == '[' {
        depths.square
    } else {
        0
    }
}

/// The depths after the character `c` was read at the depths `depths`: an
/// opening bracket opens one more of its kind, a closing bracket closes one
/// if one is open, and nothing else changes them.
pub open spec fn after_char(depths: Depths, c: char) -> Depths {
    if c == '(' {
        Depths { round: depths.round + 1, square: depths.square }
    } else if c == '[' {
        Depths { round: depths.round, square: depths.square + 1 }
    } else if c == ')' && depths.round >= 1 {
        Depths { round: depths.round - 1, square: depths.square }
    } else if c == ']' && depths.square >= 1 {
        Depths { round: depths.round, square: depths.square - 1 }
    } else {
        depths
    }
}

/// The depths after a whole text was read from depth zero.
pub open spec fn depths_after(s: Seq<char>) -> Depths
    decreases s.len(),
{
    if s.len() == 0 {
        Depths { round: 0, square: 0 }
    } else {
        after_char(depths_after(s.drop_last()), s.last())
    }
}

/// What reading one character that is not white space gives.
pub enum Reading {
    Token(TokenType),
    /// A closing bracket that closes nothing.
    Unbalanced { symbol: char, open: char },
    /// A character that starts no token.
    Unknown { symbol: char },
}

/// What the character `c` gives when it is read at the depths `depths`.
///
/// An opening bracket gives its token with the depth before it. A closing
/// bracket gives its token with the depth after it, or is unbalanced if no
/// bracket of its kind is open. Numbers are not read: a digit gives the
/// end-of-stream token. Any other character is unknown.
pub open spec fn reading(depths: Depths, c: char) -> Reading {
    if opens(c) {
        Reading::Token(
            TokenType::Punctuation { raw: c, kind: PunctuationKind::Open(depth_of(depths, c) as i32) },
        )
    } else if closes(c) {
        if depth_of(depths, partner(c)) >= 1 {
            Reading::Token(
                TokenType::Punctuation {
                    raw: c,
                    kind: PunctuationKind::Close((depth_of(depths, partner(c)) - 1) as i32),
                },
            )
        } else {
            Reading::Unbalanced { symbol: c, open: partner(c) }
        }
    } else if digit(c) {
        Reading::Token(TokenType::EOF)
    } else {
        Reading::Unknown { symbol: c }
    }
}

/// Whether the result `r` of the scanner is the reading `reading`.
pub open spec fn describes(r: Result<TokenType, LexerError>, reading: Reading) -> bool {
    match reading {
        Reading::Token(token) => r == Ok::<TokenType, LexerError>(token),
        Reading::Unbalanced { symbol, open } => r == Err::<TokenType, LexerError>(
            LexerError::MissingBalancedSymbol { symbol, open },
        ),
        Reading::Unknown { symbol } => r matches Err(LexerError::UnknownSymbol { symbol: text }) && text@
            == seq![symbol],
    }
}

/// The number of line feeds in `s` from `from` up to `to`.
pub open spec fn newlines(s: Seq<char>, from: int, to: int) -> int
    decreases to - from,
{
    if from >= to || to > s.len() || from < 0 {
        0
    } else {
        newlines(s, from, to - 1) + if s[to - 1] == '\n' {
            1int
        } else {
            0int
        }
    }
}

/// The number of times that `c` occurs in `s`.
pub open spec fn count(s: Seq<char>, c: char) -> int
    decreases s.len(),
{
    if s.len() == 0 {
        0
    } else {
        count(s.drop_last(), c) + if s.last() == c {
            1int
        } else {
            0int
        }
    }
}

/// Whether no part of `s`, taken from its start, holds more closing than
/// opening brackets of a kind.
pub open spec fn closes_only_opened(s: Seq<char>) -> bool {
    forall|n: int|
        0 <= n <= s.len() ==> count(#[trigger] s.take(n), ')') <= count(s.take(n), '(') && count(
            s.take(n),
            ']',
        ) <= count(s.take(n), '[')
}

/// Whether the round and the square brackets of `s` are balanced: each kind
/// is closed as often as it is opened, and never before it is opened.
pub open spec fn balanced(s: Seq<char>) -> bool {
    &&& closes_only_opened(s)
    &&& count(s, ')') == count(s, '(')
    &&& count(s, ']') == count(s, '[')
}

/// Whether the character at `i` is a closing bracket that is unmatched:
/// every bracket of its kind that was opened before it has been closed
/// before it.
pub open spec fn unmatched_close(s: Seq<char>, i: int) -> bool {
    &&& 0 <= i < s.len()
    &&& closes(s[i])
    &&& depth_of(depths_after(s.take(i)), partner(s[i])) == 0
}

/// What the character at `i` gives when the text is read from its start.
pub open spec fn reading_at(s: Seq<char>, i: int) -> Reading {
    reading(depths_after(s.take(i)), s[i])
}

/// In a text that closes only what was opened, the depth of a kind is the
/// number of its opening brackets less the number of its closing brackets.
pub proof fn lemma_depths_count(s: Seq<char>)
    requires
        closes_only_opened(s),
    ensures
        depths_after(s).round == count(s, '(') - count(s, ')'),
        depths_after(s).square == count(s, '[') - count(s, ']'),
    decreases s.len(),
{
    if s.len() > 0 {
        let before = s.drop_last();
        assert forall|n: int| 0 <= n <= before.len() implies count(#[trigger] before.take(n), ')') <= count(
            before.take(n),
            '(',
        ) && count(before.take(n), ']') <= count(before.take(n), '[') by {
            assert(before.take(n) =~= s.take(n));
        }
        lemma_depths_count(before);
        assert(s.take(s.len() as int) =~= s);
    }
}

/// Reading a text whose brackets are balanced never meets an unbalanced
/// closing bracket: at no position of the text is the reading unbalanced.
pub proof fn lemma_balanced_is_never_unbalanced(s: Seq<char>, i: int)
    requires
        balanced(s),
        0 <= i < s.len(),
    ensures
        !(reading_at(s, i) is Unbalanced),
{
    let before = s.take(i);
    assert forall|n: int| 0 <= n <= before.len() implies count(#[trigger] before.take(n), ')') <= count(
        before.take(n),
        '(',
    ) && count(before.take(n), ']') <= count(before.take(n), '[') by {
        assert(before.take(n) =~= s.take(n));
    }
    lemma_depths_count(before);
    let through = s.take(i + 1);
    assert(through.drop_last() =~= before);
    assert(through.last() == s[i]);
    assert(count(through, ')') <= count(through, '(') && count(through, ']') <= count(through, '['));
}

/// Reading an unmatched closing bracket gives the error for it, with the
/// bracket and the opening bracket that is missing, and nothing else.
pub proof fn lemma_unmatched_close_is_unbalanced(s: Seq<char>, i: int)
    requires
        unmatched_close(s, i),
    ensures
        reading_at(s, i) == (Reading::Unbalanced { symbol: s[i], open: partner(s[i]) }),
{
}

/// A closing bracket with no opening bracket of its kind before it is
/// unmatched.
pub proof fn lemma_close_without_open_is_unmatched(s: Seq<char>, i: int)
    requires
        0 <= i < s.len(),
        closes(s[i]),
        count(s.take(i), partner(s[i])) == 0,
    ensures
        unmatched_close(s, i),
{
    lemma_unopened_depth(s.take(i), partner(s[i]));
}

/// A kind of bracket that a text never opens has depth zero after it.
pub proof fn lemma_unopened_depth(s: Seq<char>, opener: char)
    requires
        count(s, opener) == 0,
    ensures
        depth_of(depths_after(s), opener) == 0,
    decreases s.len(),
{
    if s.len() > 0 {
        lemma_count_nonnegative(s.drop_last(), opener);
        lemma_unopened_depth(s.drop_last(), opener);
    }
}

/// A count is not negative.
pub proof fn lemma_count_nonnegative(s: Seq<char>, c: char)
    ensures
        count(s, c) >= 0,
    decreases s.len(),
{
    if s.len() > 0 {
        lemma_count_nonnegative(s.drop_last(), c);
    }
}

/// Reading white space leaves the depths as they are.
pub proof fn lemma_blank_keeps_depths(s: Seq<char>, from: int, to: int)
    requires
        0 <= from <= to <= s.len(),
        forall|i: int| from <= i < to ==> in_class(CharClass::Blank, #[trigger] s[i]),
    ensures
        depths_after(s.take(to)) == depths_after(s.take(from)),
    decreases to - from,
{
    if from < to {
        lemma_blank_keeps_depths(s, from, to - 1);
        assert(s.take(to).drop_last() =~= s.take(to - 1));
        assert(s.take(to).last() == s[to - 1]);
    }
}

/// A scanner over one text.
///
/// `cur_line` starts at one and grows by one with every line feed that is
/// consumed. `cur_col` starts at one and grows by one with every character
/// that is consumed, and by one more with every line feed.
/// `codepoint_offset` is the number of characters that were consumed.
#[derive(Debug)]
pub struct Lexer {
    pub cur_line: usize,
    pub cur_col: usize,
    pub codepoint_offset: usize,
    chars: Vec<char>,
    position: usize,
    balancing_state: HashMap<u32, BalancingDepthType>,
}

impl Lexer {
    /// The text that the scanner reads.
    pub closed spec fn source(&self) -> Seq<char> {
        self.chars@
    }

    /// The position of the next character to read.
    pub closed spec fn position(&self) -> int {
        self.position as int
    }

    /// The value of `cur_line`.
    pub closed spec fn line(&self) -> int {
        self.cur_line as int
    }

    /// The value of `cur_col`.
    pub closed spec fn column(&self) -> int {
        self.cur_col as int
    }

    /// The value of `codepoint_offset`.
    pub closed spec fn offset(&self) -> int {
        self.codepoint_offset as int
    }

    /// How many brackets that were opened with `opener` the scanner holds
    /// open.
    pub closed spec fn depth(&self, opener: char) -> int {
        if self.balancing_state@.contains_key(opener as u32) {
            self.balancing_state@[opener as u32] as int
        } else {
            0
        }
    }

    /// The depths of the round and the square brackets.
    pub open spec fn depths(&self) -> Depths {
        Depths { round: self.depth('('), square: self.depth('[') }
    }

    /// Whether the scanner is in order: the cursor is within the text, no
    /// counter is ahead of the cursor, and no more brackets are open than
    /// characters were read. The text has fewer characters than the largest
    /// depth that can be counted.
    pub closed spec fn wf(&self) -> bool {
        &&& self.position <= self.chars.len() < i32::MAX
        &&& self.cur_line <= self.position + 1
        &&& self.cur_col <= 2 * self.position + 1
        &&& self.codepoint_offset <= self.position
        &&& 0 <= self.depth('(')
        &&& 0 <= self.depth('[')
        &&& self.depth('(') + self.depth('[') <= self.position
    }

    /// Whether the depths are those that the text before the cursor leaves,
    /// as they are when every character so far was read by
    /// [`Lexer::next_token`].
    pub open spec fn tracking(&self) -> bool {
        self.depths() == depths_after(self.source().take(self.position()))
    }

    /// Whether `after` is this scanner when it has consumed the characters
    /// up to `to`: the text is the same and the counters have grown by what
    /// was consumed.
    pub open spec fn moved_to(self, after: Lexer, to: int) -> bool {
        &&& after.source() == self.source()
        &&& after.position() == to
        &&& after.offset() == self.offset() + (to - self.position())
        &&& after.line() == self.line() + newlines(self.source(), self.position(), to)
        &&& after.column() == self.column() + (to - self.position()) + newlines(self.source(), self.position(), to)
    }

    /// A scanner at the start of `chars`, with no bracket open. It is in
    /// order if the text is not too long to count its brackets.
    pub fn new(chars: &str) -> (lexer: Lexer)
        ensures
            lexer.source() == chars@,
            lexer.position() == 0,
            lexer.line() == 1,
            lexer.column() == 1,
            lexer.offset() == 0,
            lexer.depths() == (Depths { round: 0, square: 0 }),
            lexer.tracking(),
            chars@.len() < i32::MAX ==> lexer.wf(),
    {
        let lexer = Lexer {
            cur_line: 1,
            cur_col: 1,
            codepoint_offset: 0,
            chars: chars_of(chars),
            position: 0,
            balancing_state: HashMap::new(),
        };
        assert(lexer.source().take(0) =~= Seq::<char>::empty());
        lexer
    }

    /// The bracket that goes with the bracket `c`.
    fn map_balance(c: &char) -> (r: char)
        requires
            bracket(*c),
        ensures
            r == partner(*c),
    {
        match *c {
            '(' => ')',
            ')' => '(',
            '{' => '}',
            '}' => '{',
            '[' => ']',
            _ => '[',
        }
    }

    /// Opens one more bracket of the kind of `c` and gives the depth before
    /// it.
    fn push_symbol(&mut self, c: &char) -> (r: BalancingDepthType)
        requires
            old(self).wf(),
            opens(*c),
            old(self).depth('(') + old(self).depth('[') < old(self).position(),
        ensures
            final(self).wf(),
            old(self).moved_to(*final(self), old(self).position()),
            r == old(self).depth(*c),
            final(self).depths() == after_char(old(self).depths(), *c),
    {
        let key = *c as u32;
        let depth = match self.balancing_state.get(&key) {
            Some(v) => *v,
            None => 0,
        };
        self.balancing_state.insert(key, depth + 1);
        depth
    }

    /// Closes one bracket of the kind that `c` closes and gives the depth
    /// after it; an error if none is open.
    fn pop_symbol(&mut self, c: &char) -> (r: Result<BalancingDepthType, LexerError>)
        requires
            old(self).wf(),
            closes(*c),
        ensures
            final(self).wf(),
            old(self).moved_to(*final(self), old(self).position()),
            final(self).depths() == after_char(old(self).depths(), *c),
            old(self).depth(partner(*c)) >= 1 ==> r == Ok::<BalancingDepthType, LexerError>(
                (old(self).depth(partner(*c)) - 1) as i32,
            ),
            old(self).depth(partner(*c)) < 1 ==> r == Err::<BalancingDepthType, LexerError>(
                LexerError::MissingBalancedSymbol { symbol: *c, open: partner(*c) },
            ),
    {
        let open = Lexer::map_balance(c);
        let key = open as u32;
        let depth = match self.balancing_state.get(&key) {
            Some(v) => *v,
            None => 0,
        };
        if depth >= 1 {
            self.balancing_state.insert(key, depth - 1);
            Ok(depth - 1)
        } else {
            Err(LexerError::MissingBalancedSymbol { symbol: *c, open })
        }
    }

    /// Numbers are not read: whatever follows the digit `start`, the result
    /// is the end-of-stream token, and nothing is consumed.
    fn parse_numbers(&mut self, start: char) -> (r: Result<TokenType, LexerError>)
        ensures
            *final(self) == *old(self),
            r == Ok::<TokenType, LexerError>(TokenType::EOF),
    {
        Ok(TokenType::EOF)
    }

    /// Reads the token that starts with `c`, which has just been consumed.
    fn transform_to_type(&mut self, c: char) -> (r: Result<TokenType, LexerError>)
        requires
            old(self).wf(),
            old(self).depth('(') + old(self).depth('[') < old(self).position(),
        ensures
            final(self).wf(),
            old(self).moved_to(*final(self), old(self).position()),
            describes(r, reading(old(self).depths(), c)),
            final(self).depths() == after_char(old(self).depths(), c),
    {
        match c {
            '(' | '[' => Ok(TokenType::Punctuation { raw: c, kind: PunctuationKind::Open(self.push_symbol(&c)) }),
            ')' | ']' => match self.pop_symbol(&c) {
                Ok(depth) => Ok(TokenType::Punctuation { raw: c, kind: PunctuationKind::Close(depth) }),
                Err(e) => Err(e),
            },
            _ => {
                if is_digit(c) {
                    self.parse_numbers(c)
                } else {
                    let mut symbol = String::new();
                    symbol.push(c);
                    assert(symbol@ =~= seq![c]);
                    Err(LexerError::UnknownSymbol { symbol })
                }
            },
        }
    }

    /// Consumes one character, if one is left, and counts it.
    pub fn consume(&mut self) -> (r: Option<char>)
        requires
            old(self).wf(),
        ensures
            final(self).wf(),
            final(self).depths() == old(self).depths(),
            old(self).position() < old(self).source().len() ==> r == Some(
                old(self).source()[old(self).position()],
            ) && old(self).moved_to(*final(self), old(self).position() + 1),
            old(self).position() >= old(self).source().len() ==> r.is_none() && old(self).moved_to(
                *final(self),
                old(self).position(),
            ),
    {
        if self.position < self.chars.len() {
            let c = self.chars[self.position];
            proof {
                reveal_with_fuel(newlines, 2);
            }
            self.position = self.position + 1;
            self.cur_col = self.cur_col + 1;
            if c == '\n' {
                self.cur_line = self.cur_line + 1;
                self.cur_col = self.cur_col + 1;
            }
            self.codepoint_offset = self.codepoint_offset + 1;
            Some(c)
        } else {
            None
        }
    }

    /// Consumes the white space that the cursor stands at.
    fn skip_whitespace(&mut self)
        requires
            old(self).wf(),
        ensures
            final(self).wf(),
            final(self).depths() == old(self).depths(),
            old(self).moved_to(
                *final(self),
                run_end(old(self).source(), old(self).position(), CharClass::Blank),
            ),
            old(self).position() <= final(self).position() <= final(self).source().len(),
            old(self).tracking() ==> final(self).tracking(),
    {
        let ghost from = self.position();
        while self.position < self.chars.len() && is_whitespace(self.chars[self.position])
            invariant
                self.wf(),
                self.depths() == old(self).depths(),
                from == old(self).position(),
                from <= self.position() <= self.source().len(),
                old(self).moved_to(*self, self.position()),
                forall|i: int|
                    from <= i < self.position() ==> in_class(CharClass::Blank, #[trigger] self.source()[i]),
            decreases self.source().len() - self.position(),
        {
            let ghost before = self.position();
            self.consume();
            proof {
                lemma_newlines_split(self.source(), from, before, before + 1);
            }
        }
        proof {
            lemma_run_end_is(self.source(), from, CharClass::Blank, self.position());
            lemma_blank_keeps_depths(self.source(), from, self.position());
        }
    }

    /// Reads the next token.
    ///
    /// White space is skipped. At the end of the text the result is the
    /// end-of-stream token. Otherwise one character is consumed, and the
    /// result and the new depths are those that [`reading`] and
    /// [`after_char`] give for it at the old depths. For a scanner that has
    /// read the text from its start, the result is what [`reading_at`] gives
    /// for the position of the character.
    pub fn next_token(&mut self) -> (r: Result<TokenType, LexerError>)
        requires
            old(self).wf(),
        ensures
            final(self).wf(),
            old(self).tracking() ==> final(self).tracking(),
            ({
                let at = run_end(old(self).source(), old(self).position(), CharClass::Blank);
                if at < old(self).source().len() {
                    &&& old(self).moved_to(*final(self), at + 1)
                    &&& old(self).tracking() ==> describes(r, reading_at(old(self).source(), at))
                    &&& describes(r, reading(old(self).depths(), old(self).source()[at]))
                    &&& final(self).depths() == after_char(old(self).depths(), old(self).source()[at])
                } else {
                    &&& old(self).moved_to(*final(self), at)
                    &&& r == Ok::<TokenType, LexerError>(TokenType::EOF)
                    &&& final(self).depths() == old(self).depths()
                }
            }),
    {
        let ghost from = self.position();
        self.skip_whitespace();
        let ghost at = self.position();
        match self.consume() {
            Some(c) => {
                proof {
                    lemma_newlines_split(self.source(), from, at, at + 1);
                    let s = self.source();
                    assert(s.take(at + 1).drop_last() =~= s.take(at));
                    assert(s.take(at + 1).last() == c);
                }
                self.transform_to_type(c)
            },
            None => Ok(TokenType::EOF),
        }
    }
}

/// The line feeds of two stretches of a text that follow each other add up.
pub proof fn lemma_newlines_split(s: Seq<char>, from: int, middle: int, to: int)
    requires
        0 <= from <= middle <= to <= s.len(),
    ensures
        newlines(s, from, to) == newlines(s, from, middle) + newlines(s, middle, to),
    decreases to - middle,
{
    if middle < to {
        lemma_newlines_split(s, from, middle, to - 1);
    }
}

} // verus!
