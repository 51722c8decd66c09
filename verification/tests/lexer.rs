use minicomp::lexer::chars::{is_ascii_letter, is_digit, is_whitespace};
use minicomp::lexer::{
    Lexer, LexerError, NumericHint, OperationKind, OperatorKind, Punctuation, PunctuationKind, TokenType,
};
use minicomp::scan;

fn tokens_of(text: &str) -> Vec<TokenType> {
    let (tokens, errors) = scan(text);
    assert_eq!(errors, vec![]);
    tokens
}

fn punctuation(raw: char, kind: PunctuationKind) -> TokenType {
    TokenType::Punctuation { raw, kind }
}

fn operation(raw: char, kind: OperationKind) -> TokenType {
    TokenType::Operations { raw, kind }
}

fn operator(kind: OperatorKind) -> TokenType {
    TokenType::Operator(kind)
}

fn identifier(name: &str) -> TokenType {
    TokenType::Identifier(name.to_string())
}

fn terminal(word: &str) -> TokenType {
    TokenType::Terminal(word.to_string())
}

fn integer(raw: &str) -> TokenType {
    TokenType::Numeric { raw: raw.to_string(), hint: NumericHint::Integer }
}

fn floating(raw: &str) -> TokenType {
    TokenType::Numeric { raw: raw.to_string(), hint: NumericHint::FloatingPoint }
}

#[test]
fn empty_text_is_one_end_of_stream() {
    assert_eq!(tokens_of(""), vec![TokenType::EOF]);
    assert_eq!(tokens_of(" \t\r\n\u{a0}\u{2003}\u{3000}"), vec![TokenType::EOF]);
}

#[test]
fn every_token_sequence_ends_with_one_end_of_stream() {
    for text in ["", "a b c", "1 + ", "\"open", "# $ %", "/* never closed", "x // y"] {
        let (tokens, _) = scan(text);
        assert_eq!(tokens.last(), Some(&TokenType::EOF));
        assert_eq!(tokens.iter().filter(|t| **t == TokenType::EOF).count(), 1);
    }
}

#[test]
fn single_character_punctuation() {
    assert_eq!(
        tokens_of("(){};,.!="),
        vec![
            punctuation('(', PunctuationKind::OpenParen),
            punctuation(')', PunctuationKind::CloseParen),
            punctuation('{', PunctuationKind::OpenCurly),
            punctuation('}', PunctuationKind::CloseCurly),
            punctuation(';', PunctuationKind::Separator),
            punctuation(',', PunctuationKind::Comma),
            punctuation('.', PunctuationKind::Dot),
            operator(OperatorKind::BangEqual),
            TokenType::EOF,
        ]
    );
    assert_eq!(
        tokens_of("! ="),
        vec![
            punctuation('!', PunctuationKind::Bang),
            punctuation('=', PunctuationKind::Equal),
            TokenType::EOF
        ]
    );
}

#[test]
fn two_character_operators() {
    assert_eq!(
        tokens_of("!= == += -= ++ -- <= >= < >"),
        vec![
            operator(OperatorKind::BangEqual),
            operator(OperatorKind::EqualEqual),
            operator(OperatorKind::PlusEqual),
            operator(OperatorKind::MinusEqual),
            operator(OperatorKind::Increment),
            operator(OperatorKind::Decrement),
            operator(OperatorKind::LessEqual),
            operator(OperatorKind::GreaterEqual),
            operator(OperatorKind::Less),
            operator(OperatorKind::Greater),
            TokenType::EOF,
        ]
    );
}

#[test]
fn lookahead_that_does_not_match_is_not_consumed() {
    assert_eq!(
        tokens_of("+-*/"),
        vec![
            operation('+', OperationKind::Plus),
            operation('-', OperationKind::Minus),
            operation('*', OperationKind::Star),
            operation('/', OperationKind::Slash),
            TokenType::EOF,
        ]
    );
    assert_eq!(
        tokens_of("<a =!x"),
        vec![
            operator(OperatorKind::Less),
            identifier("a"),
            punctuation('=', PunctuationKind::Equal),
            punctuation('!', PunctuationKind::Bang),
            identifier("x"),
            TokenType::EOF,
        ]
    );
    assert_eq!(
        tokens_of("+++"),
        vec![operator(OperatorKind::Increment), operation('+', OperationKind::Plus), TokenType::EOF]
    );
    assert_eq!(
        tokens_of("==="),
        vec![operator(OperatorKind::EqualEqual), punctuation('=', PunctuationKind::Equal), TokenType::EOF]
    );
}

#[test]
fn line_comment_runs_to_the_end_of_the_line() {
    assert_eq!(tokens_of("a // b c\nd"), vec![identifier("a"), identifier("d"), TokenType::EOF]);
    assert_eq!(tokens_of("a //"), vec![identifier("a"), TokenType::EOF]);
    assert_eq!(tokens_of("// one\n// two\n"), vec![TokenType::EOF]);
}

#[test]
fn block_comment_runs_to_the_first_close() {
    assert_eq!(tokens_of("a /* b */c"), vec![identifier("a"), identifier("c"), TokenType::EOF]);
    assert_eq!(tokens_of("/**/1"), vec![integer("1"), TokenType::EOF]);
    assert_eq!(tokens_of("/***/x"), vec![identifier("x"), TokenType::EOF]);
    assert_eq!(tokens_of("/* * / */y"), vec![identifier("y"), TokenType::EOF]);
    assert_eq!(
        tokens_of("/* /* */ z */"),
        vec![
            identifier("z"),
            operation('*', OperationKind::Star),
            operation('/', OperationKind::Slash),
            TokenType::EOF
        ]
    );
    assert_eq!(tokens_of("a /* never closed"), vec![identifier("a"), TokenType::EOF]);
    assert_eq!(tokens_of("/*/"), vec![TokenType::EOF]);
}

#[test]
fn integer_literals() {
    assert_eq!(tokens_of("0"), vec![integer("0"), TokenType::EOF]);
    assert_eq!(tokens_of("007;"), vec![integer("007"), punctuation(';', PunctuationKind::Separator), TokenType::EOF]);
    assert_eq!(tokens_of("12_345"), vec![integer("12_345"), TokenType::EOF]);
    assert_eq!(tokens_of("1_000_000"), vec![integer("1_000_000"), TokenType::EOF]);
    assert_eq!(tokens_of("1__2"), vec![integer("1__2"), TokenType::EOF]);
    assert_eq!(tokens_of("12_"), vec![integer("12_"), TokenType::EOF]);
    assert_eq!(
        tokens_of("1+2"),
        vec![integer("1"), operation('+', OperationKind::Plus), integer("2"), TokenType::EOF]
    );
}

#[test]
fn floating_point_literals() {
    assert_eq!(tokens_of("1.5"), vec![floating("1.5"), TokenType::EOF]);
    assert_eq!(tokens_of("10.2_5 "), vec![floating("10.2_5"), TokenType::EOF]);
    assert_eq!(tokens_of("1_0.5"), vec![floating("1_0.5"), TokenType::EOF]);
    assert_eq!(
        tokens_of("1.;"),
        vec![floating("1."), punctuation(';', PunctuationKind::Separator), TokenType::EOF]
    );
    assert_eq!(
        tokens_of("1.2.3"),
        vec![floating("1.2"), punctuation('.', PunctuationKind::Dot), integer("3"), TokenType::EOF]
    );
    assert_eq!(
        tokens_of(".5"),
        vec![punctuation('.', PunctuationKind::Dot), integer("5"), TokenType::EOF]
    );
}

#[test]
fn letter_after_digits_is_an_error() {
    let (tokens, errors) = scan("12a");
    assert_eq!(errors, vec![LexerError::NumericLiteralInvalidChar { raw: "2".to_string(), invalid: 'a' }]);
    assert_eq!(tokens, vec![identifier("a"), TokenType::EOF]);

    let (tokens, errors) = scan("7z9 + 1");
    assert_eq!(errors, vec![LexerError::NumericLiteralInvalidChar { raw: "".to_string(), invalid: 'z' }]);
    assert_eq!(
        tokens,
        vec![identifier("z9"), operation('+', OperationKind::Plus), integer("1"), TokenType::EOF]
    );

    let (tokens, errors) = scan("1.5e3");
    assert_eq!(errors, vec![LexerError::NumericLiteralInvalidChar { raw: "5".to_string(), invalid: 'e' }]);
    assert_eq!(tokens, vec![identifier("e3"), TokenType::EOF]);
}

#[test]
fn leading_separator_is_an_error() {
    assert_eq!(tokens_of("_2"), vec![identifier("_2"), TokenType::EOF]);

    let (tokens, errors) = scan("3._1");
    assert_eq!(errors, vec![LexerError::NumericLiteralInvalidChar { raw: "".to_string(), invalid: '_' }]);
    assert_eq!(tokens, vec![identifier("_1"), TokenType::EOF]);
}

#[test]
fn fraction_cut_off_by_the_end_is_an_error() {
    let (tokens, errors) = scan("1.");
    assert_eq!(errors, vec![LexerError::MissingExpectedSymbol { expected: "0 - 9", found: TokenType::EOF }]);
    assert_eq!(tokens, vec![TokenType::EOF]);
}

#[test]
fn string_literals_keep_their_text() {
    assert_eq!(tokens_of("\"\""), vec![TokenType::String(String::new()), TokenType::EOF]);
    assert_eq!(
        tokens_of("\"a b\\n // c\"x"),
        vec![TokenType::String("a b\\n // c".to_string()), identifier("x"), TokenType::EOF]
    );
    assert_eq!(
        tokens_of("\"line\nbreak\""),
        vec![TokenType::String("line\nbreak".to_string()), TokenType::EOF]
    );
}

#[test]
fn unterminated_string_is_an_error_and_ends_the_text() {
    let (tokens, errors) = scan("a \"bc d");
    assert_eq!(errors, vec![LexerError::MissingExpectedSymbol { expected: "\"", found: TokenType::EOF }]);
    assert_eq!(tokens, vec![identifier("a"), TokenType::EOF]);
}

#[test]
fn reserved_words_are_terminals() {
    let words = [
        "true", "false", "let", "def", "class", "extends", "super", "this", "print", "nil", "return", "if",
        "while", "for",
    ];
    for word in words {
        assert_eq!(tokens_of(word), vec![terminal(word), TokenType::EOF]);
    }
}

#[test]
fn other_words_are_identifiers() {
    for word in ["x", "_", "_x1", "truely", "True", "lets", "iff", "for_", "while2", "snake_case9"] {
        assert_eq!(tokens_of(word), vec![identifier(word), TokenType::EOF]);
    }
    assert_eq!(tokens_of("\u{e9}t\u{e9} \u{3b1}\u{3b2}"), vec![identifier("\u{e9}t\u{e9}"), identifier("\u{3b1}\u{3b2}"), TokenType::EOF]);
    assert_eq!(tokens_of("x\u{663}y"), vec![identifier("x\u{663}y"), TokenType::EOF]);
}

#[test]
fn a_word_starts_with_a_letter_or_an_underscore() {
    let (tokens, errors) = scan("\u{663}a");
    assert_eq!(errors, vec![LexerError::UnknownSymbol { symbol: "\u{663}".to_string() }]);
    assert_eq!(tokens, vec![identifier("a"), TokenType::EOF]);
}

#[test]
fn unknown_symbols_are_skipped_one_by_one() {
    let (tokens, errors) = scan("a # $b [");
    assert_eq!(
        errors,
        vec![
            LexerError::UnknownSymbol { symbol: "#".to_string() },
            LexerError::UnknownSymbol { symbol: "$".to_string() },
            LexerError::UnknownSymbol { symbol: "[".to_string() },
        ]
    );
    assert_eq!(tokens, vec![identifier("a"), identifier("b"), TokenType::EOF]);
}

#[test]
fn a_small_program() {
    assert_eq!(
        tokens_of("let total = price * 2; // twice\nprint total;"),
        vec![
            terminal("let"),
            identifier("total"),
            punctuation('=', PunctuationKind::Equal),
            identifier("price"),
            operation('*', OperationKind::Star),
            integer("2"),
            punctuation(';', PunctuationKind::Separator),
            terminal("print"),
            identifier("total"),
            punctuation(';', PunctuationKind::Separator),
            TokenType::EOF,
        ]
    );
}

#[test]
fn get_tokens_goes_on_from_the_cursor() {
    let mut lexer = Lexer::new("a b c");
    assert_eq!(lexer.next_token(), Ok(identifier("a")));
    let (tokens, errors) = lexer.get_tokens();
    assert_eq!(errors, vec![]);
    assert_eq!(tokens, vec![identifier("b"), identifier("c"), TokenType::EOF]);
    let (tokens, errors) = lexer.get_tokens();
    assert_eq!(errors, vec![]);
    assert_eq!(tokens, vec![TokenType::EOF]);
}

#[test]
fn a_cloned_lexer_reads_on_by_itself() {
    let mut lexer = Lexer::new("let x");
    assert_eq!(lexer.next_token(), Ok(terminal("let")));
    let mut other = lexer.clone();
    assert_eq!(lexer.next_token(), Ok(identifier("x")));
    assert_eq!(lexer.next_token(), Ok(TokenType::EOF));
    assert_eq!(other.next_token(), Ok(identifier("x")));
    assert_eq!(other.next_token(), Ok(TokenType::EOF));
}

#[test]
fn token_equality_and_clone() {
    let token = floating("1.5");
    assert_eq!(token.clone(), token);
    assert_ne!(token, integer("1.5"));
    assert_ne!(identifier("let"), terminal("let"));
    assert_ne!(TokenType::Char('a'), identifier("a"));
    assert_eq!(TokenType::Char('a'), TokenType::Char('a'));
    assert_ne!(punctuation('(', PunctuationKind::OpenParen), punctuation('[', PunctuationKind::OpenParen));
    let mark = Punctuation { raw: ';', kind: PunctuationKind::Separator };
    assert_eq!(mark, Punctuation { raw: ';', kind: PunctuationKind::Separator });
}

#[test]
fn string_tokens_give_their_contents() {
    let token = TokenType::String("abc".to_string());
    assert!(token.is_string());
    assert_eq!(token.unwrap_string(), "abc");
    assert!(!identifier("abc").is_string());
    assert!(!TokenType::EOF.is_string());
}

#[test]
fn white_space_is_what_the_standard_library_says() {
    for code in 0..=0x10ffffu32 {
        if let Some(c) = char::from_u32(code) {
            assert_eq!(is_whitespace(c), c.is_whitespace(), "{:?}", c);
        }
    }
}

#[test]
fn digits_and_letters_are_what_the_standard_library_says() {
    for code in 0..=0x10ffffu32 {
        if let Some(c) = char::from_u32(code) {
            assert_eq!(is_digit(c), c.is_digit(10), "{:?}", c);
            assert_eq!(is_ascii_letter(c), c.is_ascii_alphabetic(), "{:?}", c);
        }
    }
}
