use minicomp::lexer::{
    Lexer, LexerError, NumericHint, OperationKind, OperatorKind, PunctuationKind, TokenType,
};
use minicomp::parser::{
    AssignExpr, BinaryExpr, Expr, Literal, ParseError, Parser, Stmt, UpdateExpr,
};
use minicomp::{parse, scan};

fn number(raw: &str) -> TokenType {
    TokenType::Numeric { raw: raw.to_string(), hint: NumericHint::Integer }
}

fn operation(raw: char, kind: OperationKind) -> TokenType {
    TokenType::Operations { raw, kind }
}

fn identifier(name: &str) -> TokenType {
    TokenType::Identifier(name.to_string())
}

fn integer(value: i32) -> Expr {
    Expr::Literal(Literal::Integer(value))
}

fn variable(name: &str) -> Expr {
    Expr::Variable(identifier(name))
}

fn binary(left: Expr, op: TokenType, right: Expr) -> Expr {
    Expr::BinaryExpr(BinaryExpr { left: Box::new(left), op, right: Box::new(right) })
}

#[test]
fn scan_arithmetic() {
    let (tokens, errors) = scan("1+2*3");
    assert!(errors.is_empty());
    assert_eq!(
        tokens,
        vec![
            number("1"),
            operation('+', OperationKind::Plus),
            number("2"),
            operation('*', OperationKind::Star),
            number("3"),
            TokenType::EOF,
        ]
    );
}

#[test]
fn parse_star_binds_tighter_than_plus() {
    let (tokens, errors) = scan("1+2*3;");
    assert!(errors.is_empty());
    let statements = parse(tokens).unwrap();
    assert_eq!(
        statements,
        vec![Stmt::Expression(binary(
            integer(1),
            operation('+', OperationKind::Plus),
            binary(integer(2), operation('*', OperationKind::Star), integer(3)),
        ))]
    );
}

#[test]
fn parse_let_and_compound_assignment() {
    let (tokens, _) = scan("let x = 1; x += 2;");
    let statements = parse(tokens).unwrap();
    assert_eq!(
        statements,
        vec![
            Stmt::Let { token: identifier("x"), initializer: integer(1) },
            Stmt::Expression(Expr::Update(UpdateExpr {
                name: identifier("x"),
                op: operation('+', OperationKind::Plus),
                change: Box::new(integer(2)),
            })),
        ]
    );
}

#[test]
fn scan_unterminated_string() {
    let (tokens, errors) = scan("\"abc");
    assert_eq!(tokens, vec![TokenType::EOF]);
    assert_eq!(
        errors,
        vec![LexerError::MissingExpectedSymbol { expected: "\"", found: TokenType::EOF }]
    );
}

#[test]
fn parse_for_becomes_while() {
    let (tokens, errors) = scan("for (let i = 0; i < 3; i = i + 1) print i;");
    assert!(errors.is_empty());
    let statements = parse(tokens).unwrap();
    let step = Expr::Assign(AssignExpr {
        name: identifier("i"),
        value: Box::new(binary(variable("i"), operation('+', OperationKind::Plus), integer(1))),
    });
    assert_eq!(
        statements,
        vec![Stmt::Block {
            statements: vec![
                Stmt::Let { token: identifier("i"), initializer: integer(0) },
                Stmt::While {
                    condition: binary(variable("i"), TokenType::Operator(OperatorKind::Less), integer(3)),
                    body: Box::new(Stmt::Block {
                        statements: vec![Stmt::Print(variable("i")), Stmt::Expression(step)],
                    }),
                },
            ],
        }]
    );
}

#[test]
fn scan_and_parse_twice_agree() {
    let text = "class A extends B { def f(x, y) { return x.g(y) - -1; } } let a = (1 + 2) * 3; a++;";
    let (first_tokens, first_errors) = scan(text);
    let (second_tokens, second_errors) = scan(text);
    assert_eq!(first_tokens, second_tokens);
    assert_eq!(first_errors, second_errors);
    let first = Parser::new(first_tokens).parse_program();
    let second = Parser::new(second_tokens).parse_program();
    assert!(first.is_ok());
    assert_eq!(first, second);
}

#[test]
fn lexer_reads_token_by_token() {
    let mut lexer = Lexer::new("a >= b");
    assert_eq!(lexer.next_token().unwrap(), identifier("a"));
    assert_eq!(lexer.next_token().unwrap(), TokenType::Operator(OperatorKind::GreaterEqual));
    assert_eq!(lexer.next_token().unwrap(), identifier("b"));
    assert_eq!(lexer.next_token().unwrap(), TokenType::EOF);
    assert_eq!(lexer.next_token().unwrap(), TokenType::EOF);
}

#[test]
fn parse_errors_are_collected() {
    let (tokens, _) = scan("let = 1; print 2; ) x; print 3;");
    let errors = parse(tokens).unwrap_err();
    assert_eq!(
        errors,
        vec![
            ParseError::MissingExpectedSymbol {
                expected: "variable name after let",
                found: TokenType::Punctuation { raw: '=', kind: PunctuationKind::Equal },
            },
            ParseError::InvalidExpression {
                found: TokenType::Punctuation { raw: ')', kind: PunctuationKind::CloseParen },
            },
        ]
    );
}
