use minicomp::lexer::{NumericHint, OperationKind, OperatorKind, PunctuationKind, TokenType};
use minicomp::parser::number::parse_integer;
use minicomp::parser::{
    AssignExpr, BinaryExpr, CallExpr, Expr, Get, Grouping, Literal, ParseError, Parser, SetExpr, Stmt, Super,
    Terminal, TerminalValue, This, UnaryExpr, UpdateExpr,
};
use minicomp::{parse, scan};

fn parsed(text: &str) -> Vec<Stmt> {
    let (tokens, errors) = scan(text);
    assert_eq!(errors, vec![]);
    parse(tokens).unwrap()
}

fn failed(text: &str) -> Vec<ParseError> {
    let (tokens, errors) = scan(text);
    assert_eq!(errors, vec![]);
    parse(tokens).unwrap_err()
}

fn expression(text: &str) -> Expr {
    let mut statements = parsed(text);
    assert_eq!(statements.len(), 1);
    match statements.remove(0) {
        Stmt::Expression(e) => e,
        other => panic!("not an expression statement: {:?}", other),
    }
}

fn punctuation(raw: char, kind: PunctuationKind) -> TokenType {
    TokenType::Punctuation { raw, kind }
}

fn operation(raw: char, kind: OperationKind) -> TokenType {
    TokenType::Operations { raw, kind }
}

fn plus() -> TokenType {
    operation('+', OperationKind::Plus)
}

fn minus() -> TokenType {
    operation('-', OperationKind::Minus)
}

fn star() -> TokenType {
    operation('*', OperationKind::Star)
}

fn slash() -> TokenType {
    operation('/', OperationKind::Slash)
}

fn identifier(name: &str) -> TokenType {
    TokenType::Identifier(name.to_string())
}

fn terminal(word: &str) -> TokenType {
    TokenType::Terminal(word.to_string())
}

fn close_paren() -> TokenType {
    punctuation(')', PunctuationKind::CloseParen)
}

fn integer(value: i32) -> Expr {
    Expr::Literal(Literal::Integer(value))
}

fn variable(name: &str) -> Expr {
    Expr::Variable(identifier(name))
}

fn binary(left: Expr, op: TokenType, right: Expr) -> Expr {
    Expr::BinaryExpr(BinaryExpr { left: Box::new(left), op, right: Box::new(right) })
}

fn unary(op: TokenType, right: Expr) -> Expr {
    Expr::UnaryExpr(UnaryExpr { op, right: Box::new(right) })
}

fn call(callee: Expr, args: Vec<Expr>) -> Expr {
    Expr::Call(CallExpr { callee: Box::new(callee), paren: close_paren(), args })
}

fn get(object: Expr, name: &str) -> Expr {
    Expr::Get(Get { object: Box::new(object), name: identifier(name) })
}

fn missing(expected: &'static str, found: TokenType) -> ParseError {
    ParseError::MissingExpectedSymbol { expected, found }
}

#[test]
fn empty_program() {
    assert_eq!(parsed(""), vec![]);
    assert_eq!(parse(vec![TokenType::EOF]), Ok(vec![]));
    assert_eq!(parse(vec![]), Ok(vec![]));
}

#[test]
fn literals() {
    assert_eq!(expression("42;"), integer(42));
    assert_eq!(expression("2147483647;"), integer(i32::MAX));
    assert_eq!(expression("1.25;"), Expr::Literal(Literal::FloatingPoint("1.25".to_string())));
    assert_eq!(expression("\"hi\";"), Expr::Literal(Literal::String("hi".to_string())));
    assert_eq!(
        expression("true;"),
        Expr::Literal(Literal::Terminal(Terminal { value: TerminalValue::Boolean(true) }))
    );
    assert_eq!(
        expression("false;"),
        Expr::Literal(Literal::Terminal(Terminal { value: TerminalValue::Boolean(false) }))
    );
    assert_eq!(expression("nil;"), Expr::Literal(Literal::Terminal(Terminal { value: TerminalValue::Nil })));
}

#[test]
fn names_this_and_super() {
    assert_eq!(expression("x;"), variable("x"));
    assert_eq!(expression("this;"), Expr::This(This { keyword: terminal("this") }));
    assert_eq!(
        expression("super.init;"),
        Expr::Super(Super { keyword: terminal("super"), method: identifier("init") })
    );
}

#[test]
fn grouping_overrides_precedence() {
    assert_eq!(
        expression("(1 + 2) * 3;"),
        binary(
            Expr::Grouping(Grouping { expr: Box::new(binary(integer(1), plus(), integer(2))) }),
            star(),
            integer(3)
        )
    );
}

#[test]
fn binary_operators_nest_to_the_left() {
    assert_eq!(
        expression("1 - 2 - 3;"),
        binary(binary(integer(1), minus(), integer(2)), minus(), integer(3))
    );
    assert_eq!(
        expression("8 / 4 * 2;"),
        binary(binary(integer(8), slash(), integer(4)), star(), integer(2))
    );
}

#[test]
fn levels_of_precedence() {
    let less = TokenType::Operator(OperatorKind::Less);
    let equal = TokenType::Operator(OperatorKind::EqualEqual);
    assert_eq!(
        expression("a == b < c + d * e;"),
        binary(
            variable("a"),
            equal,
            binary(
                variable("b"),
                less,
                binary(variable("c"), plus(), binary(variable("d"), star(), variable("e")))
            )
        )
    );
    let not_equal = TokenType::Operator(OperatorKind::BangEqual);
    let greater_equal = TokenType::Operator(OperatorKind::GreaterEqual);
    assert_eq!(
        expression("a >= b != c;"),
        binary(binary(variable("a"), greater_equal, variable("b")), not_equal, variable("c"))
    );
}

#[test]
fn unary_operators_nest_to_the_right() {
    let bang = punctuation('!', PunctuationKind::Bang);
    assert_eq!(expression("!-x;"), unary(bang, unary(minus(), variable("x"))));
    assert_eq!(expression("1 - -2;"), binary(integer(1), minus(), unary(minus(), integer(2))));
}

#[test]
fn calls_and_field_accesses_chain() {
    assert_eq!(expression("f();"), call(variable("f"), vec![]));
    assert_eq!(
        expression("a.b(1, x).c;"),
        get(call(get(variable("a"), "b"), vec![integer(1), variable("x")]), "c")
    );
    assert_eq!(expression("f(1)(2);"), call(call(variable("f"), vec![integer(1)]), vec![integer(2)]));
}

#[test]
fn assignment_nests_to_the_right() {
    assert_eq!(
        expression("a = b = 1;"),
        Expr::Assign(AssignExpr {
            name: identifier("a"),
            value: Box::new(Expr::Assign(AssignExpr { name: identifier("b"), value: Box::new(integer(1)) })),
        })
    );
}

#[test]
fn assignment_to_a_field_sets_it() {
    assert_eq!(
        expression("a.b.c = 1;"),
        Expr::SetExpr(SetExpr {
            object: Box::new(get(variable("a"), "b")),
            name: identifier("c"),
            value: Box::new(integer(1)),
        })
    );
}

#[test]
fn assignment_to_anything_else_leaves_the_target() {
    assert_eq!(expression("1 = 2;"), integer(1));
    assert_eq!(expression("f() += 2;"), call(variable("f"), vec![]));
    assert_eq!(expression("a.b -= 2;"), get(variable("a"), "b"));
}

#[test]
fn compound_assignment_updates() {
    assert_eq!(
        expression("x -= y * 2;"),
        Expr::Update(UpdateExpr {
            name: identifier("x"),
            op: minus(),
            change: Box::new(binary(variable("y"), star(), integer(2))),
        })
    );
}

#[test]
fn increment_and_decrement_update_by_one() {
    assert_eq!(
        expression("i++;"),
        Expr::Update(UpdateExpr { name: identifier("i"), op: plus(), change: Box::new(integer(1)) })
    );
    assert_eq!(
        expression("i--;"),
        Expr::Update(UpdateExpr { name: identifier("i"), op: minus(), change: Box::new(integer(1)) })
    );
    assert_eq!(
        failed("1++;"),
        vec![missing(
            "identifier",
            TokenType::Numeric { raw: "1".to_string(), hint: NumericHint::Integer }
        )]
    );
}

#[test]
fn print_if_while_return_and_block() {
    assert_eq!(
        parsed("if (a) print 1; while (b) { return; return 2; }"),
        vec![
            Stmt::If { condition: variable("a"), branch: Box::new(Stmt::Print(integer(1))) },
            Stmt::While {
                condition: variable("b"),
                body: Box::new(Stmt::Block {
                    statements: vec![
                        Stmt::Return { keyword: terminal("return"), value: None },
                        Stmt::Return { keyword: terminal("return"), value: Some(integer(2)) },
                    ],
                }),
            },
        ]
    );
    assert_eq!(parsed("{}"), vec![Stmt::Block { statements: vec![] }]);
}

#[test]
fn for_with_an_expression_as_initializer() {
    let less = TokenType::Operator(OperatorKind::Less);
    assert_eq!(
        parsed("for (i = 0; i < n; i++) {}"),
        vec![Stmt::Block {
            statements: vec![
                Stmt::Expression(Expr::Assign(AssignExpr { name: identifier("i"), value: Box::new(integer(0)) })),
                Stmt::While {
                    condition: binary(variable("i"), less, variable("n")),
                    body: Box::new(Stmt::Block {
                        statements: vec![
                            Stmt::Block { statements: vec![] },
                            Stmt::Expression(Expr::Update(UpdateExpr {
                                name: identifier("i"),
                                op: plus(),
                                change: Box::new(integer(1)),
                            })),
                        ],
                    }),
                },
            ],
        }]
    );
}

#[test]
fn functions() {
    assert_eq!(
        parsed("def f() {} def add(a, b) { return a + b; }"),
        vec![
            Stmt::Function { name: identifier("f"), params: vec![], body: vec![] },
            Stmt::Function {
                name: identifier("add"),
                params: vec![identifier("a"), identifier("b")],
                body: vec![Stmt::Return {
                    keyword: terminal("return"),
                    value: Some(binary(variable("a"), plus(), variable("b"))),
                }],
            },
        ]
    );
}

#[test]
fn classes() {
    assert_eq!(
        parsed("class A {} class B extends A { def init(x) { this.x = x; } def get() { return super.get; } }"),
        vec![
            Stmt::Class { name: identifier("A"), super_class: None, methods: vec![] },
            Stmt::Class {
                name: identifier("B"),
                super_class: Some(variable("A")),
                methods: vec![
                    Stmt::Function {
                        name: identifier("init"),
                        params: vec![identifier("x")],
                        body: vec![Stmt::Expression(Expr::SetExpr(SetExpr {
                            object: Box::new(Expr::This(This { keyword: terminal("this") })),
                            name: identifier("x"),
                            value: Box::new(variable("x")),
                        }))],
                    },
                    Stmt::Function {
                        name: identifier("get"),
                        params: vec![],
                        body: vec![Stmt::Return {
                            keyword: terminal("return"),
                            value: Some(Expr::Super(Super {
                                keyword: terminal("super"),
                                method: identifier("get"),
                            })),
                        }],
                    },
                ],
            },
        ]
    );
}

#[test]
fn missing_symbols() {
    let semicolon = punctuation(';', PunctuationKind::Separator);
    assert_eq!(failed("print 1"), vec![missing("';' after value", TokenType::EOF)]);
    assert_eq!(failed("1 2;"), vec![missing("';' after expression", TokenType::Numeric { raw: "2".to_string(), hint: NumericHint::Integer })]);
    assert_eq!(failed("let x;"), vec![missing("'=' after variable name", semicolon.clone())]);
    assert_eq!(failed("let x = 1"), vec![missing("';' after expression", TokenType::EOF)]);
    assert_eq!(failed("return 1"), vec![missing("';' after return value", TokenType::EOF)]);
    assert_eq!(failed("if a;"), vec![missing("'(' after if", identifier("a"))]);
    assert_eq!(failed("if (a;"), vec![missing("')' after condition", semicolon.clone())]);
    assert_eq!(failed("while a;"), vec![missing("'(' after while", identifier("a"))]);
    assert_eq!(failed("for i;"), vec![missing("'(' after for", identifier("i"))]);
    assert_eq!(failed("for (;"), vec![ParseError::InvalidExpression { found: semicolon.clone() }]);
    assert_eq!(failed("for (a; b)"), vec![missing("';' after loop condition", close_paren())]);
    assert_eq!(failed("for (a; b; c;"), vec![missing("')' after for clauses", semicolon.clone())]);
    assert_eq!(failed("{ 1;"), vec![missing("'}' after block", TokenType::EOF)]);
    assert_eq!(failed("(1;"), vec![missing("')'", semicolon.clone())]);
    assert_eq!(failed("f(1;"), vec![missing("')' after arguments", semicolon.clone())]);
    assert_eq!(failed("a.1;"), vec![missing("property name after '.'", TokenType::Numeric { raw: "1".to_string(), hint: NumericHint::Integer })]);
    assert_eq!(failed("super;"), vec![missing("'.' after super", semicolon.clone())]);
    assert_eq!(failed("super.1;"), vec![missing("superclass method name", TokenType::Numeric { raw: "1".to_string(), hint: NumericHint::Integer })]);
}

#[test]
fn missing_symbols_in_functions_and_classes() {
    let open_curly = punctuation('{', PunctuationKind::OpenCurly);
    let open_paren = punctuation('(', PunctuationKind::OpenParen);
    let semicolon = punctuation(';', PunctuationKind::Separator);
    assert_eq!(failed("def (a) {}"), vec![missing("function name after def", open_paren.clone())]);
    assert_eq!(failed("def f {}"), vec![missing("'(' after function name", open_curly.clone())]);
    assert_eq!(failed("def f(1) {}"), vec![missing("parameter after '('", TokenType::Numeric { raw: "1".to_string(), hint: NumericHint::Integer })]);
    assert_eq!(failed("def f(a,) {}"), vec![missing("parameter after ','", close_paren())]);
    assert_eq!(failed("def f(a b) {}"), vec![missing("')' after parameters", identifier("b"))]);
    assert_eq!(failed("def f();"), vec![missing("'{' before function body", semicolon.clone())]);
    assert_eq!(failed("class {}"), vec![missing("class name", open_curly.clone())]);
    assert_eq!(failed("class A extends {}"), vec![missing("superclass name", open_curly.clone())]);
    assert_eq!(failed("class A;"), vec![missing("'{' after class name", semicolon.clone())]);
    assert_eq!(failed("class A { f() {} }"), vec![missing("'def' before method", identifier("f"))]);
    assert_eq!(failed("class A { def f();"), vec![missing("'{' before method body", semicolon.clone())]);
    assert_eq!(failed("class A { def f() {}"), vec![missing("'}' after class body", TokenType::EOF)]);
}

#[test]
fn invalid_expression() {
    assert_eq!(failed(";"), vec![ParseError::InvalidExpression { found: punctuation(';', PunctuationKind::Separator) }]);
    assert_eq!(failed("1 + ;"), vec![ParseError::InvalidExpression { found: punctuation(';', PunctuationKind::Separator) }]);
    assert_eq!(failed("print"), vec![ParseError::InvalidExpression { found: TokenType::EOF }]);
    assert_eq!(failed("let x = extends;"), vec![ParseError::InvalidExpression { found: terminal("extends") }]);
}

#[test]
fn invalid_literal() {
    let too_large = TokenType::Numeric { raw: "2147483648".to_string(), hint: NumericHint::Integer };
    assert_eq!(failed("2147483648;"), vec![ParseError::InvalidLiteral { found: too_large }]);
    let separated = TokenType::Numeric { raw: "10_000".to_string(), hint: NumericHint::Integer };
    assert_eq!(failed("10_000;"), vec![ParseError::InvalidLiteral { found: separated }]);
}

fn call_with_arguments(n: usize) -> String {
    let mut text = String::from("f(");
    for i in 0..n {
        if i > 0 {
            text.push(',');
        }
        text.push('1');
    }
    text.push_str(");");
    text
}

fn function_with_parameters(n: usize) -> String {
    let mut text = String::from("def f(");
    for i in 0..n {
        if i > 0 {
            text.push(',');
        }
        text.push('p');
    }
    text.push_str(") {}");
    text
}

#[test]
fn a_call_has_at_most_255_arguments() {
    match expression(&call_with_arguments(255)) {
        Expr::Call(call) => assert_eq!(call.args.len(), 255),
        other => panic!("not a call: {:?}", other),
    }
    assert_eq!(failed(&call_with_arguments(256)), vec![ParseError::TooManyArguments]);
}

#[test]
fn a_function_has_at_most_255_parameters() {
    match &parsed(&function_with_parameters(255))[0] {
        Stmt::Function { params, .. } => assert_eq!(params.len(), 255),
        other => panic!("not a function: {:?}", other),
    }
    assert_eq!(failed(&function_with_parameters(256)), vec![ParseError::TooManyParameters]);
}

#[test]
fn parsing_goes_on_after_an_error() {
    let semicolon = punctuation(';', PunctuationKind::Separator);
    assert_eq!(
        failed("print ; print 1; let = 2; x y z let a = ; a;"),
        vec![
            ParseError::InvalidExpression { found: semicolon.clone() },
            missing("variable name after let", punctuation('=', PunctuationKind::Equal)),
            missing("';' after expression", identifier("y")),
            ParseError::InvalidExpression { found: semicolon.clone() },
        ]
    );
}

#[test]
fn the_parser_stops_at_the_first_end_of_stream() {
    let tokens = vec![
        identifier("a"),
        punctuation(';', PunctuationKind::Separator),
        TokenType::EOF,
        identifier("b"),
        punctuation(';', PunctuationKind::Separator),
        TokenType::EOF,
    ];
    assert_eq!(parse(tokens), Ok(vec![Stmt::Expression(variable("a"))]));
}

#[test]
fn the_end_of_the_tokens_is_an_end_of_stream() {
    let tokens = vec![identifier("a"), punctuation(';', PunctuationKind::Separator)];
    assert_eq!(parse(tokens), Ok(vec![Stmt::Expression(variable("a"))]));
    assert_eq!(parse(vec![identifier("a")]), Err(vec![missing("';' after expression", TokenType::EOF)]));
}

#[test]
fn a_parser_can_be_run_again_at_the_end() {
    let (tokens, _) = scan("print 1;");
    let mut parser = Parser::new(tokens);
    assert_eq!(parser.parse_program(), Ok(vec![Stmt::Print(integer(1))]));
    assert_eq!(parser.parse_program(), Ok(vec![]));
}

#[test]
fn integer_texts() {
    assert_eq!(parse_integer("0"), Some(0));
    assert_eq!(parse_integer("000123"), Some(123));
    assert_eq!(parse_integer("+17"), Some(17));
    assert_eq!(parse_integer("-17"), Some(-17));
    assert_eq!(parse_integer("-0"), Some(0));
    assert_eq!(parse_integer("2147483647"), Some(i32::MAX));
    assert_eq!(parse_integer("-2147483648"), Some(i32::MIN));
    assert_eq!(parse_integer("2147483648"), None);
    assert_eq!(parse_integer("-2147483649"), None);
    assert_eq!(parse_integer("99999999999999999999999999"), None);
    assert_eq!(parse_integer(""), None);
    assert_eq!(parse_integer("+"), None);
    assert_eq!(parse_integer("-"), None);
    assert_eq!(parse_integer("1_000"), None);
    assert_eq!(parse_integer(" 1"), None);
    assert_eq!(parse_integer("1 "), None);
    assert_eq!(parse_integer("--1"), None);
    assert_eq!(parse_integer("12a"), None);
    assert_eq!(parse_integer("\u{663}"), None);
}

#[test]
fn integer_texts_are_read_as_the_standard_library_reads_them() {
    let pieces = ["", "+", "-", "0", "1", "9", "21474", "83647", "83648", "83649", "_", " ", "a", "00"];
    for a in pieces {
        for b in pieces {
            for c in pieces {
                let text = format!("{}{}{}", a, b, c);
                assert_eq!(parse_integer(&text), text.parse::<i32>().ok(), "{:?}", text);
            }
        }
    }
}
