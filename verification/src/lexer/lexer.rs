//! The lexer: a cursor over the characters of a text that reads one token at
//! a time.

use super::chars::{chars_of, digit, is_ascii_letter, is_digit, is_whitespace};
use super::error::{error_views, LexerError, LexerErrorView};
use super::rules::{
    block_comment_end, digit_group, digits_end, followed_by, in_class, keyword_table, lemma_run_end_is,
    lemma_scan_all_well_terminated, lemma_scan_token, numeric_token, run_end, scan_all, scan_token,
    string_token, token_from, well_terminated, word, word_token, CharClass,
};
use super::token::{token_views, NumericHint, OperationKind, OperatorKind, PunctuationKind, TokenType, TokenView};
use vstd::prelude::*;
use vstd::string::StringExecFns;

verus! {

/// The views of a sequence of strings, in order.
pub open spec fn string_views(strings: Seq<String>) -> Seq<Seq<char>> {
    Seq::new(strings.len(), |i: int| strings[i]@)
}

/// What reading one token gave, with texts as sequences of characters.
pub open spec fn outcome_view(r: Result<TokenType, LexerError>) -> Result<TokenView, LexerErrorView> {
    match r {
        Ok(token) => Ok(token@),
        Err(error) => Err(error@),
    }
}

/// What reading one group of digits gave, with texts as sequences of
/// characters.
pub open spec fn digits_view(r: Result<String, LexerError>) -> Result<Seq<char>, LexerErrorView> {
    match r {
        Ok(raw) => Ok(raw@),
        Err(error) => Err(error@),
    }
}

/// A lexer over one text.
///
/// It holds the characters of the text, the position of the next character
/// to read, and the table of reserved words.
#[derive(Debug)]
pub struct Lexer {
    chars: Vec<char>,
    position: usize,
    keywords: Vec<String>,
}

impl Clone for Lexer {
    /// A lexer over the same text, at the same position.
    fn clone(&self) -> (r: Lexer)
        ensures
            r.source() == self.source(),
            r.position() == self.position(),
    {
        proof {
            use_type_invariant(self);
        }
        let mut chars: Vec<char> = Vec::new();
        let mut i: usize = 0;
        while i < self.chars.len()
            invariant
                0 <= i <= self.chars.len(),
                chars@ == self.chars@.take(i as int),
            decreases self.chars.len() - i,
        {
            chars.push(self.chars[i]);
            i = i + 1;
        }
        assert(self.chars@.take(self.chars.len() as int) =~= self.chars@);
        let mut keywords: Vec<String> = Vec::new();
        let mut j: usize = 0;
        while j < self.keywords.len()
            invariant
                0 <= j <= self.keywords.len(),
                keywords@ == self.keywords@.take(j as int),
            decreases self.keywords.len() - j,
        {
            keywords.push(self.keywords[j].clone());
            j = j + 1;
        }
        assert(self.keywords@.take(self.keywords.len() as int) =~= self.keywords@);
        Lexer { chars, position: self.position, keywords }
    }
}

impl Lexer {
    #[verifier::type_invariant]
    spec fn inv(self) -> bool {
        &&& self.position <= self.chars.len()
        &&& string_views(self.keywords@) == keyword_table()
    }

    /// The text that the lexer reads.
    pub closed spec fn source(&self) -> Seq<char> {
        self.chars@
    }

    /// The position of the next character to read.
    pub closed spec fn position(&self) -> int {
        self.position as int
    }

    /// A lexer at the start of `chars`.
    pub fn new(chars: &str) -> (lexer: Lexer)
        ensures
            lexer.source() == chars@,
            lexer.position() == 0,
    {
        let mut keywords: Vec<String> = Vec::new();
        keywords.push("true".to_owned());
        keywords.push("false".to_owned());
        keywords.push("let".to_owned());
        keywords.push("def".to_owned());
        keywords.push("class".to_owned());
        keywords.push("extends".to_owned());
        keywords.push("super".to_owned());
        keywords.push("this".to_owned());
        keywords.push("print".to_owned());
        keywords.push("nil".to_owned());
        keywords.push("return".to_owned());
        keywords.push("if".to_owned());
        keywords.push("while".to_owned());
        keywords.push("for".to_owned());
        assert(string_views(keywords@) =~= keyword_table());
        Lexer { chars: chars_of(chars), position: 0, keywords }
    }

    /// Reads the text to its end: the tokens in order, ending with the
    /// end-of-stream token, and the errors in order. A piece of text that
    /// gives an error gives no token, and reading goes on after it.
    pub fn get_tokens(&mut self) -> (r: (Vec<TokenType>, Vec<LexerError>))
        ensures
            final(self).source() == old(self).source(),
            final(self).position() == old(self).source().len(),
            token_views(r.0@) == scan_all(old(self).source(), old(self).position()).tokens,
            error_views(r.1@) == scan_all(old(self).source(), old(self).position()).errors,
            well_terminated(token_views(r.0@)),
    {
        proof {
            use_type_invariant(&*self);
            lemma_scan_all_well_terminated(self.source(), self.position());
        }
        let mut tokens: Vec<TokenType> = Vec::new();
        let mut errors: Vec<LexerError> = Vec::new();
        let mut done = false;
        while !done
            invariant
                self.source() == old(self).source(),
                0 <= self.position() <= self.source().len(),
                !done ==> scan_all(old(self).source(), old(self).position()).tokens == token_views(tokens@)
                    + scan_all(self.source(), self.position()).tokens,
                !done ==> scan_all(old(self).source(), old(self).position()).errors == error_views(errors@)
                    + scan_all(self.source(), self.position()).errors,
                done ==> scan_all(old(self).source(), old(self).position()).tokens == token_views(tokens@),
                done ==> scan_all(old(self).source(), old(self).position()).errors == error_views(errors@),
                done ==> self.position() == self.source().len(),
            decreases self.source().len() - self.position() + (if done { 0int } else { 1int }),
        {
            let ghost before = self.position();
            let ghost tokens_before = token_views(tokens@);
            let ghost errors_before = error_views(errors@);
            proof {
                lemma_scan_token(self.source(), before);
            }
            match self.next_token() {
                Ok(token) => {
                    done = matches!(token, TokenType::EOF);
                    tokens.push(token);
                    proof {
                        let rest = scan_all(self.source(), self.position());
                        assert(token_views(tokens@) =~= tokens_before + seq![token@]);
                        assert(error_views(errors@) =~= errors_before);
                        if !done {
                            assert(tokens_before + (seq![token@] + rest.tokens) =~= tokens_before + seq![
                                token@,
                            ] + rest.tokens);
                        }
                    }
                },
                Err(error) => {
                    errors.push(error);
                    proof {
                        let rest = scan_all(self.source(), self.position());
                        assert(error_views(errors@) =~= errors_before + seq![error@]);
                        assert(token_views(tokens@) =~= tokens_before);
                        assert(errors_before + (seq![error@] + rest.errors) =~= errors_before + seq![error@]
                            + rest.errors);
                    }
                },
            }
        }
        (tokens, errors)
    }

    /// Reads the numeric literal whose first character `start` has just been
    /// read.
    fn parse_numbers(&mut self, start: char) -> (r: Result<TokenType, LexerError>)
        ensures
            final(self).source() == old(self).source(),
            outcome_view(r) == numeric_token(old(self).source(), old(self).position(), start).outcome,
            final(self).position() == numeric_token(old(self).source(), old(self).position(), start).next,
    {
        let mut raw = String::new();
        raw.push(start);
        assert(raw@ =~= seq![start]);
        if start == '.' {
            match self.parse_digits(false) {
                Err(e) => Err(e),
                Ok(fraction) => {
                    raw.append(fraction.as_str());
                    Ok(TokenType::Numeric { raw, hint: NumericHint::FloatingPoint })
                },
            }
        } else if is_digit(start) {
            match self.parse_digits(true) {
                Err(e) => Err(e),
                Ok(whole) => {
                    raw.append(whole.as_str());
                    if self.check_next('.') {
                        raw.push('.');
                        match self.parse_digits(false) {
                            Err(e) => Err(e),
                            Ok(fraction) => {
                                raw.append(fraction.as_str());
                                assert(raw@ =~= seq![start] + whole@ + seq!['.'] + fraction@);
                                Ok(TokenType::Numeric { raw, hint: NumericHint::FloatingPoint })
                            },
                        }
                    } else {
                        Ok(TokenType::Numeric { raw, hint: NumericHint::Integer })
                    }
                },
            }
        } else {
            Err(LexerError::NumericLiteralInvalidChar { raw, invalid: start })
        }
    }

    /// Reads one group of digits and looks at the character after it;
    /// `continues` says whether the group continues digits that were read
    /// before it.
    fn parse_digits(&mut self, continues: bool) -> (r: Result<String, LexerError>)
        ensures
            final(self).source() == old(self).source(),
            digits_view(r) == digit_group(old(self).source(), old(self).position(), continues).outcome,
            final(self).position() == digit_group(old(self).source(), old(self).position(), continues).end,
            0 <= final(self).position() <= final(self).source().len(),
    {
        proof {
            use_type_invariant(&*self);
        }
        let start = self.position;
        let mut raw = String::new();
        loop
            invariant
                self.chars@ == old(self).chars@,
                self.inv(),
                start == old(self).position,
                start <= self.position <= self.chars.len(),
                raw@ == self.chars@.subrange(start as int, self.position as int),
                !continues && self.position > start ==> digit(self.chars@[start as int]),
                forall|i: int|
                    start <= i < self.position && (continues || i > start) ==> in_class(
                        CharClass::DigitOrSeparator,
                        #[trigger] self.chars@[i],
                    ),
            decreases self.chars.len() - self.position,
        {
            if self.position >= self.chars.len() {
                proof {
                    self.lemma_digits_end(start as int, continues);
                }
                if continues || self.position > start {
                    return Ok(raw);
                } else {
                    return Err(LexerError::MissingExpectedSymbol { expected: "0 - 9", found: TokenType::EOF });
                }
            }
            let c = self.chars[self.position];
            if is_digit(c) || (c == '_' && (continues || self.position > start)) {
                raw.push(c);
                self.position = self.position + 1;
                assert(raw@ =~= self.chars@.subrange(start as int, self.position as int));
            } else {
                proof {
                    self.lemma_digits_end(start as int, continues);
                }
                if !is_ascii_letter(c) && c != '_' {
                    return Ok(raw);
                } else {
                    return Err(LexerError::NumericLiteralInvalidChar { raw, invalid: c });
                }
            }
        }
    }

    /// When the cursor has read a group of digits from `start` and stands at
    /// a character that cannot continue it, it stands where the group ends.
    proof fn lemma_digits_end(self, start: int, continues: bool)
        requires
            0 <= start <= self.position <= self.chars.len(),
            !continues && self.position > start ==> digit(self.chars@[start]),
            forall|i: int|
                start <= i < self.position && (continues || i > start) ==> in_class(
                    CharClass::DigitOrSeparator,
                    #[trigger] self.chars@[i],
                ),
            self.position < self.chars.len() ==> {
                let c = self.chars@[self.position as int];
                !(digit(c) || (c == '_' && (continues || self.position > start)))
            },
        ensures
            digits_end(self.chars@, start, continues) == self.position,
    {
        if continues {
            lemma_run_end_is(self.chars@, start, CharClass::DigitOrSeparator, self.position as int);
        } else if self.position > start {
            lemma_run_end_is(self.chars@, start + 1, CharClass::DigitOrSeparator, self.position as int);
        }
    }

    /// Reads the string literal whose opening quote has just been read.
    fn parse_string(&mut self) -> (r: Result<TokenType, LexerError>)
        ensures
            final(self).source() == old(self).source(),
            outcome_view(r) == string_token(old(self).source(), old(self).position()).outcome,
            final(self).position() == string_token(old(self).source(), old(self).position()).next,
    {
        proof {
            use_type_invariant(&*self);
        }
        let start = self.position;
        let mut buf = String::new();
        loop
            invariant
                self.chars@ == old(self).chars@,
                self.inv(),
                start == old(self).position,
                start <= self.position <= self.chars.len(),
                buf@ == self.chars@.subrange(start as int, self.position as int),
                forall|i: int|
                    start <= i < self.position ==> in_class(CharClass::StringBody, #[trigger] self.chars@[i]),
            decreases self.chars.len() - self.position,
        {
            if self.position >= self.chars.len() {
                proof {
                    lemma_run_end_is(self.chars@, start as int, CharClass::StringBody, self.position as int);
                }
                return Err(LexerError::MissingExpectedSymbol { expected: "\"", found: TokenType::EOF });
            }
            let c = self.chars[self.position];
            if c == '"' {
                proof {
                    lemma_run_end_is(self.chars@, start as int, CharClass::StringBody, self.position as int);
                }
                self.position = self.position + 1;
                return Ok(TokenType::String(buf));
            }
            buf.push(c);
            self.position = self.position + 1;
            assert(buf@ =~= self.chars@.subrange(start as int, self.position as int));
        }
    }

    /// Reads the identifier or reserved word whose first character `start`
    /// has just been read.
    fn parse_identifiers_or_terminals(&mut self, start: char) -> (r: TokenType)
        ensures
            final(self).source() == old(self).source(),
            Ok::<TokenView, LexerErrorView>(r@) == word_token(
                old(self).source(),
                old(self).position(),
                start,
            ).outcome,
            final(self).position() == word_token(old(self).source(), old(self).position(), start).next,
    {
        proof {
            use_type_invariant(&*self);
        }
        let from = self.position;
        let mut buf = String::new();
        buf.push(start);
        assert(buf@ =~= seq![start] + self.chars@.subrange(from as int, self.position as int));
        while self.position < self.chars.len() && (self.chars[self.position].is_alphanumeric() || is_digit(
            self.chars[self.position],
        ) || self.chars[self.position] == '_')
            invariant
                self.chars@ == old(self).chars@,
                self.inv(),
                from == old(self).position,
                from <= self.position <= self.chars.len(),
                buf@ == seq![start] + self.chars@.subrange(from as int, self.position as int),
                forall|i: int|
                    from <= i < self.position ==> in_class(CharClass::WordPart, #[trigger] self.chars@[i]),
            decreases self.chars.len() - self.position,
        {
            buf.push(self.chars[self.position]);
            self.position = self.position + 1;
            assert(buf@ =~= seq![start] + self.chars@.subrange(from as int, self.position as int));
        }
        proof {
            lemma_run_end_is(self.chars@, from as int, CharClass::WordPart, self.position as int);
        }
        self.tag_identifier(buf)
    }

    /// Tells a reserved word from an identifier.
    fn tag_identifier(&self, ident: String) -> (r: TokenType)
        ensures
            r@ == word(ident@),
    {
        proof {
            use_type_invariant(self);
        }
        let mut i: usize = 0;
        while i < self.keywords.len()
            invariant
                0 <= i <= self.keywords.len(),
                string_views(self.keywords@) == keyword_table(),
                forall|j: int| 0 <= j < i ==> keyword_table()[j] != ident@,
            decreases self.keywords.len() - i,
        {
            assert(string_views(self.keywords@)[i as int] == self.keywords@[i as int]@);
            if self.keywords[i] == ident {
                return TokenType::Terminal(ident);
            }
            i = i + 1;
        }
        TokenType::Identifier(ident)
    }

    /// Skips the rest of the line and reads the token after it.
    fn parse_single_comment(&mut self) -> (r: Result<TokenType, LexerError>)
        ensures
            final(self).source() == old(self).source(),
            outcome_view(r) == scan_token(
                old(self).source(),
                run_end(old(self).source(), old(self).position(), CharClass::LineBody),
            ).outcome,
            final(self).position() == scan_token(
                old(self).source(),
                run_end(old(self).source(), old(self).position(), CharClass::LineBody),
            ).next,
        decreases old(self).source().len() - old(self).position(), 2int,
    {
        proof {
            use_type_invariant(&*self);
        }
        let ghost from = self.position as int;
        while self.position < self.chars.len() && self.chars[self.position] != '\n'
            invariant
                self.chars@ == old(self).chars@,
                self.inv(),
                from == old(self).position,
                from <= self.position <= self.chars.len(),
                forall|i: int|
                    from <= i < self.position ==> in_class(CharClass::LineBody, #[trigger] self.chars@[i]),
            decreases self.chars.len() - self.position,
        {
            self.position = self.position + 1;
        }
        proof {
            lemma_run_end_is(self.chars@, from, CharClass::LineBody, self.position as int);
        }
        self.next_token()
    }

    /// Skips to the end of the block comment and reads the token after it.
    fn parse_block_comment(&mut self) -> (r: Result<TokenType, LexerError>)
        ensures
            final(self).source() == old(self).source(),
            outcome_view(r) == scan_token(
                old(self).source(),
                block_comment_end(old(self).source(), old(self).position()),
            ).outcome,
            final(self).position() == scan_token(
                old(self).source(),
                block_comment_end(old(self).source(), old(self).position()),
            ).next,
        decreases old(self).source().len() - old(self).position(), 2int,
    {
        proof {
            use_type_invariant(&*self);
        }
        let ghost from = self.position as int;
        let mut closed = false;
        while !closed && self.position < self.chars.len()
            invariant
                self.chars@ == old(self).chars@,
                self.inv(),
                from == old(self).position,
                from <= self.position <= self.chars.len(),
                !closed ==> block_comment_end(self.chars@, from) == block_comment_end(
                    self.chars@,
                    self.position as int,
                ),
                closed ==> block_comment_end(self.chars@, from) == self.position,
            decreases self.chars.len() - self.position + (if closed { 0int } else { 1int }),
        {
            if self.chars[self.position] == '*' {
                self.position = self.position + 1;
                if self.check_next('/') {
                    closed = true;
                }
                proof {
                    use_type_invariant(&*self);
                }
            } else {
                self.position = self.position + 1;
            }
        }
        self.next_token()
    }

    /// Consumes the next character if it is `next`.
    fn check_next(&mut self, next: char) -> (r: bool)
        ensures
            final(self).source() == old(self).source(),
            r == followed_by(old(self).source(), old(self).position(), next),
            final(self).position() == old(self).position() + (if r { 1int } else { 0int }),
    {
        proof {
            use_type_invariant(&*self);
        }
        if self.position < self.chars.len() && self.chars[self.position] == next {
            self.position = self.position + 1;
            true
        } else {
            false
        }
    }

    /// Reads the token that starts with `c`, which has just been read.
    fn transform_to_type(&mut self, c: char) -> (r: Result<TokenType, LexerError>)
        requires
            old(self).position() > 0,
        ensures
            final(self).source() == old(self).source(),
            outcome_view(r) == token_from(old(self).source(), old(self).position(), c).outcome,
            final(self).position() == token_from(old(self).source(), old(self).position(), c).next,
        decreases old(self).source().len() - old(self).position(), 1int,
    {
        proof {
            use_type_invariant(&*self);
        }
        match c {
            '(' => Ok(TokenType::Punctuation { raw: c, kind: PunctuationKind::OpenParen }),
            ')' => Ok(TokenType::Punctuation { raw: c, kind: PunctuationKind::CloseParen }),
            '{' => Ok(TokenType::Punctuation { raw: c, kind: PunctuationKind::OpenCurly }),
            '}' => Ok(TokenType::Punctuation { raw: c, kind: PunctuationKind::CloseCurly }),
            ';' => Ok(TokenType::Punctuation { raw: c, kind: PunctuationKind::Separator }),
            ',' => Ok(TokenType::Punctuation { raw: c, kind: PunctuationKind::Comma }),
            '.' => Ok(TokenType::Punctuation { raw: c, kind: PunctuationKind::Dot }),
            '!' => {
                if self.check_next('=') {
                    return Ok(TokenType::Operator(OperatorKind::BangEqual));
                }
                Ok(TokenType::Punctuation { raw: c, kind: PunctuationKind::Bang })
            },
            '=' => {
                if self.check_next('=') {
                    return Ok(TokenType::Operator(OperatorKind::EqualEqual));
                }
                Ok(TokenType::Punctuation { raw: c, kind: PunctuationKind::Equal })
            },
            '+' => {
                if self.check_next('=') {
                    return Ok(TokenType::Operator(OperatorKind::PlusEqual));
                } else if self.check_next('+') {
                    return Ok(TokenType::Operator(OperatorKind::Increment));
                }
                Ok(TokenType::Operations { raw: c, kind: OperationKind::Plus })
            },
            '-' => {
                if self.check_next('=') {
                    return Ok(TokenType::Operator(OperatorKind::MinusEqual));
                } else if self.check_next('-') {
                    return Ok(TokenType::Operator(OperatorKind::Decrement));
                }
                Ok(TokenType::Operations { raw: c, kind: OperationKind::Minus })
            },
            '*' => Ok(TokenType::Operations { raw: c, kind: OperationKind::Star }),
            '/' => {
                if self.check_next('/') {
                    return self.parse_single_comment();
                } else if self.check_next('*') {
                    return self.parse_block_comment();
                }
                Ok(TokenType::Operations { raw: c, kind: OperationKind::Slash })
            },
            '<' => {
                if self.check_next('=') {
                    return Ok(TokenType::Operator(OperatorKind::LessEqual));
                }
                Ok(TokenType::Operator(OperatorKind::Less))
            },
            '>' => {
                if self.check_next('=') {
                    return Ok(TokenType::Operator(OperatorKind::GreaterEqual));
                }
                Ok(TokenType::Operator(OperatorKind::Greater))
            },
            _ => {
                if is_digit(c) {
                    self.parse_numbers(c)
                } else if c == '"' {
                    self.parse_string()
                } else if c.is_alphabetic() || c == '_' {
                    Ok(self.parse_identifiers_or_terminals(c))
                } else {
                    let mut symbol = String::new();
                    symbol.push(c);
                    assert(symbol@ =~= seq![c]);
                    Err(LexerError::UnknownSymbol { symbol })
                }
            },
        }
    }

    /// Moves the cursor past the white space it stands at.
    fn skip_whitespace(&mut self)
        ensures
            final(self).source() == old(self).source(),
            final(self).position() == run_end(old(self).source(), old(self).position(), CharClass::Blank),
            old(self).position() <= final(self).position() <= final(self).source().len(),
    {
        proof {
            use_type_invariant(&*self);
        }
        let ghost from = self.position as int;
        while self.position < self.chars.len() && is_whitespace(self.chars[self.position])
            invariant
                self.chars@ == old(self).chars@,
                self.inv(),
                from == old(self).position,
                from <= self.position <= self.chars.len(),
                forall|i: int| from <= i < self.position ==> in_class(CharClass::Blank, #[trigger] self.chars@[i]),
            decreases self.chars.len() - self.position,
        {
            self.position = self.position + 1;
        }
        proof {
            lemma_run_end_is(self.chars@, from, CharClass::Blank, self.position as int);
        }
    }

    /// Reads the next token: the token and the new position of the cursor are
    /// those that [`scan_token`] gives for the text and the old position.
    pub fn next_token(&mut self) -> (r: Result<TokenType, LexerError>)
        ensures
            final(self).source() == old(self).source(),
            outcome_view(r) == scan_token(old(self).source(), old(self).position()).outcome,
            final(self).position() == scan_token(old(self).source(), old(self).position()).next,
        decreases old(self).source().len() - old(self).position(), 0int,
    {
        proof {
            use_type_invariant(&*self);
        }
        self.skip_whitespace();
        proof {
            use_type_invariant(&*self);
        }
        if self.position < self.chars.len() {
            let c = self.chars[self.position];
            self.position = self.position + 1;
            self.transform_to_type(c)
        } else {
            Ok(TokenType::EOF)
        }
    }
}

} // verus!
