use minicomp::balance::{Lexer, LexerError, PunctuationKind, TokenType};

fn open(raw: char, depth: i32) -> TokenType {
    TokenType::Punctuation { raw, kind: PunctuationKind::Open(depth) }
}

fn close(raw: char, depth: i32) -> TokenType {
    TokenType::Punctuation { raw, kind: PunctuationKind::Close(depth) }
}

#[test]
fn nested_brackets_carry_their_depth() {
    let mut lexer = Lexer::new("( ( [ ] ) )");
    assert_eq!(lexer.next_token(), Ok(open('(', 0)));
    assert_eq!(lexer.next_token(), Ok(open('(', 1)));
    assert_eq!(lexer.next_token(), Ok(open('[', 0)));
    assert_eq!(lexer.next_token(), Ok(close(']', 0)));
    assert_eq!(lexer.next_token(), Ok(close(')', 1)));
    assert_eq!(lexer.next_token(), Ok(close(')', 0)));
    assert_eq!(lexer.next_token(), Ok(TokenType::EOF));
}

#[test]
fn balanced_text_gives_no_balance_error() {
    let text = "(()[()])[[]]()";
    let mut lexer = Lexer::new(text);
    for _ in 0..text.len() {
        let token = lexer.next_token();
        assert!(matches!(token, Ok(TokenType::Punctuation { .. })));
    }
    assert_eq!(lexer.next_token(), Ok(TokenType::EOF));
}

#[test]
fn unmatched_close_is_reported_where_it_stands() {
    let mut lexer = Lexer::new("()) (");
    assert_eq!(lexer.next_token(), Ok(open('(', 0)));
    assert_eq!(lexer.next_token(), Ok(close(')', 0)));
    assert_eq!(lexer.codepoint_offset, 2);
    assert_eq!(lexer.next_token(), Err(LexerError::MissingBalancedSymbol { symbol: ')', open: '(' }));
    assert_eq!(lexer.codepoint_offset, 3);
    assert_eq!(lexer.next_token(), Ok(open('(', 0)));
    assert_eq!(lexer.next_token(), Ok(TokenType::EOF));
}

#[test]
fn close_of_another_kind_is_unmatched() {
    let mut lexer = Lexer::new("(]");
    assert_eq!(lexer.next_token(), Ok(open('(', 0)));
    assert_eq!(lexer.next_token(), Err(LexerError::MissingBalancedSymbol { symbol: ']', open: '[' }));
}

#[test]
fn other_characters_are_unknown() {
    let mut lexer = Lexer::new("a{");
    assert_eq!(lexer.next_token(), Err(LexerError::UnknownSymbol { symbol: "a".to_string() }));
    assert_eq!(lexer.next_token(), Err(LexerError::UnknownSymbol { symbol: "{".to_string() }));
    assert_eq!(lexer.next_token(), Ok(TokenType::EOF));
}

#[test]
fn digits_give_end_of_stream() {
    let mut lexer = Lexer::new("7(");
    assert_eq!(lexer.next_token(), Ok(TokenType::EOF));
    assert_eq!(lexer.next_token(), Ok(open('(', 0)));
}

#[test]
fn consume_counts_lines_and_columns() {
    let mut lexer = Lexer::new("a\nb");
    assert_eq!((lexer.cur_line, lexer.cur_col, lexer.codepoint_offset), (1, 1, 0));
    assert_eq!(lexer.consume(), Some('a'));
    assert_eq!((lexer.cur_line, lexer.cur_col, lexer.codepoint_offset), (1, 2, 1));
    assert_eq!(lexer.consume(), Some('\n'));
    assert_eq!((lexer.cur_line, lexer.cur_col, lexer.codepoint_offset), (2, 4, 2));
    assert_eq!(lexer.consume(), Some('b'));
    assert_eq!((lexer.cur_line, lexer.cur_col, lexer.codepoint_offset), (2, 5, 3));
    assert_eq!(lexer.consume(), None);
    assert_eq!((lexer.cur_line, lexer.cur_col, lexer.codepoint_offset), (2, 5, 3));
}
