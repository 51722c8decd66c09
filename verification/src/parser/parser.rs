//! The parser: a cursor over a token sequence that builds statements by
//! recursive descent.

use super::error::{parse_error_views, ParseError, ParseErrorView};
use super::expr::{
    expr_views, lemma_call_view, AssignExpr, BinaryExpr, CallExpr, Expr, ExprView, Get, Grouping, Literal,
    SetExpr, Super, Terminal, TerminalValue, This, UnaryExpr, UpdateExpr,
};
use super::grammar::{
    accepts, arguments, arguments_rest, assignment, binary, binary_rest, block, block_items, boundary_from,
    call, call_rest, class_head, class_methods, class_statement, declaration, expect, expect_identifier,
    expression, expression_statement, finish_call, for_statement, function_statement, governed,
    if_statement, is_operator, keyword, lemma_boundary_from, lemma_declaration_consumes, let_declaration,
    mark, operand, parameters, parameters_rest, parse_result, primary, print_statement, ok, program,
    remaining, return_statement, statement, synchronize, shift, terminated_expression, token_at, unary,
    while_statement, FunctionKind, Level, Step,
};
use super::number::parse_integer;
use super::stmt::{lemma_block_view, lemma_class_view, lemma_function_view, stmt_views, Stmt, StmtView};
use crate::lexer::token::{
    token_views, NumericHint, OperationKind, OperatorKind, PunctuationKind, TokenType, TokenView,
};
use vstd::prelude::*;

verus! {

/// What parsing a token gave, by its view.
pub open spec fn token_outcome(r: Result<TokenType, ParseError>) -> Result<TokenView, ParseErrorView> {
    match r {
        Ok(token) => Ok(token@),
        Err(error) => Err(error@),
    }
}

/// What parsing an expression gave, by its view.
pub open spec fn expr_outcome(r: Result<Expr, ParseError>) -> Result<ExprView, ParseErrorView> {
    match r {
        Ok(e) => Ok(e@),
        Err(error) => Err(error@),
    }
}

/// What parsing a statement gave, by its view.
pub open spec fn stmt_outcome(r: Result<Stmt, ParseError>) -> Result<StmtView, ParseErrorView> {
    match r {
        Ok(s) => Ok(s@),
        Err(error) => Err(error@),
    }
}

/// What parsing a sequence of statements gave, by its view.
pub open spec fn stmts_outcome(r: Result<Vec<Stmt>, ParseError>) -> Result<Seq<StmtView>, ParseErrorView> {
    match r {
        Ok(s) => Ok(stmt_views(s@)),
        Err(error) => Err(error@),
    }
}

/// What parsing a whole program gave, by its view.
pub open spec fn program_outcome(r: Result<Vec<Stmt>, Vec<ParseError>>) -> Result<
    Seq<StmtView>,
    Seq<ParseErrorView>,
> {
    match r {
        Ok(s) => Ok(stmt_views(s@)),
        Err(errors) => Err(parse_error_views(errors@)),
    }
}

/// The token of a structural mark.
pub fn mark_token(kind: PunctuationKind) -> (token: TokenType)
    ensures
        token@ == mark(kind),
{
    let raw = match kind {
        PunctuationKind::OpenParen => '(',
        PunctuationKind::CloseParen => ')',
        PunctuationKind::OpenCurly => '{',
        PunctuationKind::CloseCurly => '}',
        PunctuationKind::Separator => ';',
        PunctuationKind::Equal => '=',
        PunctuationKind::Bang => '!',
        PunctuationKind::Comma => ',',
        PunctuationKind::Dot => '.',
    };
    TokenType::Punctuation { raw, kind }
}

/// The token of a reserved word.
pub fn keyword_token(word: &str) -> (token: TokenType)
    ensures
        token@ == keyword(word@),
{
    TokenType::Terminal(word.to_owned())
}

/// A parser over one token sequence.
///
/// The cursor only moves forwards. Past the last token the parser sees the
/// end of the stream, as it does at an end-of-stream token.
#[derive(Debug)]
pub struct Parser {
    current: usize,
    tokens: Vec<TokenType>,
}

impl Parser {
    #[verifier::type_invariant]
    spec fn inv(self) -> bool {
        self.current <= self.tokens.len()
    }

    /// The tokens that the parser reads, by their views.
    pub closed spec fn tokens(&self) -> Seq<TokenView> {
        token_views(self.tokens@)
    }

    /// The position of the next token to read.
    pub closed spec fn cursor(&self) -> nat {
        self.current as nat
    }

    /// Whether `after` is this parser when it has taken `step` with the
    /// outcome `outcome`: the tokens are the same, and the cursor has moved
    /// by what the step consumed.
    pub open spec fn took<T>(self, after: Parser, outcome: Result<T, ParseErrorView>, step: Step<T>) -> bool {
        &&& after.tokens() == self.tokens()
        &&& after.cursor() == self.cursor() + step.consumed
        &&& outcome == step.outcome
    }

    /// A parser at the start of `tokens`.
    pub fn new(tokens: Vec<TokenType>) -> (parser: Parser)
        ensures
            parser.tokens() == token_views(tokens@),
            parser.cursor() == 0,
    {
        Parser { current: 0, tokens }
    }

    /// The token at the cursor.
    fn peek(&self) -> (token: TokenType)
        ensures
            token@ == token_at(self.tokens(), self.cursor()),
    {
        if self.current < self.tokens.len() {
            self.tokens[self.current].clone()
        } else {
            TokenType::EOF
        }
    }

    /// The token before the cursor.
    fn previous(&self) -> (token: TokenType)
        requires
            self.cursor() > 0,
        ensures
            token@ == token_at(self.tokens(), (self.cursor() - 1) as nat),
    {
        proof {
            use_type_invariant(self);
        }
        self.tokens[self.current - 1].clone()
    }

    /// Whether the cursor stands at the end of the stream.
    fn end_of_stream(&self) -> (r: bool)
        ensures
            r == (token_at(self.tokens(), self.cursor()) == TokenView::EOF),
    {
        self.peek() == TokenType::EOF
    }

    /// Whether the token at the cursor is `token_type`.
    fn check_type(&self, token_type: &TokenType) -> (r: bool)
        ensures
            r == accepts(self.tokens(), self.cursor(), token_type@),
    {
        if self.end_of_stream() {
            return false;
        }
        self.peek() == *token_type
    }

    /// Whether the token at the cursor is an identifier.
    fn check_identifier(&self) -> (r: bool)
        ensures
            r == (token_at(self.tokens(), self.cursor()) is Identifier),
    {
        match self.peek() {
            TokenType::Identifier(_) => true,
            _ => false,
        }
    }

    /// Moves the cursor past the token it stands at, unless that is the end
    /// of the stream, and gives the token before the cursor.
    fn advance(&mut self) -> (token: TokenType)
        requires
            token_at(old(self).tokens(), old(self).cursor()) != TokenView::EOF || old(self).cursor() > 0,
        ensures
            final(self).tokens() == old(self).tokens(),
            token_at(old(self).tokens(), old(self).cursor()) != TokenView::EOF ==> final(self).cursor() == old(
                self,
            ).cursor() + 1 && token@ == token_at(old(self).tokens(), old(self).cursor()),
            token_at(old(self).tokens(), old(self).cursor()) == TokenView::EOF ==> final(self).cursor() == old(
                self,
            ).cursor() && token@ == token_at(old(self).tokens(), (old(self).cursor() - 1) as nat),
    {
        proof {
            use_type_invariant(&*self);
        }
        if !self.end_of_stream() {
            self.current = self.current + 1;
        }
        self.previous()
    }

    /// Consumes the token at the cursor if it is one of `types`.
    fn match_type(&mut self, types: &[&TokenType]) -> (r: bool)
        ensures
            final(self).tokens() == old(self).tokens(),
            r == exists|i: int|
                0 <= i < types@.len() && accepts(old(self).tokens(), old(self).cursor(), (#[trigger] types@[i])@),
            final(self).cursor() == old(self).cursor() + (if r {
                1nat
            } else {
                0nat
            }),
    {
        let mut i: usize = 0;
        while i < types.len()
            invariant
                0 <= i <= types@.len(),
                self == old(self),
                forall|j: int|
                    0 <= j < i ==> !accepts(old(self).tokens(), old(self).cursor(), (#[trigger] types@[j])@),
            decreases types@.len() - i,
        {
            if self.check_type(types[i]) {
                self.advance();
                return true;
            }
            i = i + 1;
        }
        false
    }

    /// Whether the token after the one at the cursor is one of `types`.
    fn match_look_ahead(&self, types: &[&TokenType]) -> (r: bool)
        ensures
            r == (self.cursor() + 1 < self.tokens().len() && exists|i: int|
                0 <= i < types@.len() && token_at(self.tokens(), self.cursor() + 1) == (#[trigger] types@[i])@),
    {
        proof {
            use_type_invariant(self);
        }
        if self.tokens.len() - self.current <= 1 {
            return false;
        }
        let mut i: usize = 0;
        while i < types.len()
            invariant
                0 <= i <= types@.len(),
                self.current + 1 < self.tokens.len(),
                forall|j: int|
                    0 <= j < i ==> token_at(self.tokens(), self.cursor() + 1) != (#[trigger] types@[j])@,
            decreases types@.len() - i,
        {
            if self.tokens[self.current + 1] == *types[i] {
                return true;
            }
            i = i + 1;
        }
        false
    }

    /// Consumes the token at the cursor, which must be `token_type`;
    /// `message` describes it in the error.
    fn consume_unit(&mut self, token_type: &TokenType, message: &'static str) -> (r: Result<
        TokenType,
        ParseError,
    >)
        ensures
            old(self).took(
                *final(self),
                token_outcome(r),
                expect(old(self).tokens(), old(self).cursor(), token_type@, message@),
            ),
    {
        if self.check_type(token_type) {
            return Ok(self.advance());
        }
        Err(ParseError::MissingExpectedSymbol { expected: message, found: self.peek() })
    }

    /// Consumes the token at the cursor, which must be an identifier;
    /// `message` describes it in the error.
    fn consume_identifier(&mut self, message: &'static str) -> (r: Result<TokenType, ParseError>)
        ensures
            old(self).took(
                *final(self),
                token_outcome(r),
                expect_identifier(old(self).tokens(), old(self).cursor(), message@),
            ),
    {
        if self.check_identifier() {
            return Ok(self.advance());
        }
        Err(ParseError::MissingExpectedSymbol { expected: message, found: self.peek() })
    }

    /// Parses a `primary`: a literal, a name, `this`, `super.method` or an
    /// expression in parentheses.
    #[verifier::spinoff_prover]
    fn parse_literal(&mut self) -> (r: Result<Expr, ParseError>)
        ensures
            old(self).took(*final(self), expr_outcome(r), primary(old(self).tokens(), old(self).cursor())),
        decreases remaining(old(self).tokens(), old(self).cursor()), 1int,
    {
        proof {
            reveal_with_fuel(primary, 1);
            reveal_with_fuel(expression, 1);
        }
        if self.match_type(&[&keyword_token("true")]) {
            return Ok(Expr::Literal(Literal::Terminal(Terminal { value: TerminalValue::Boolean(true) })));
        }
        if self.match_type(&[&keyword_token("false")]) {
            return Ok(Expr::Literal(Literal::Terminal(Terminal { value: TerminalValue::Boolean(false) })));
        }
        if self.match_type(&[&keyword_token("nil")]) {
            return Ok(Expr::Literal(Literal::Terminal(Terminal { value: TerminalValue::Nil })));
        }
        if self.match_type(&[&keyword_token("this")]) {
            return Ok(Expr::This(This { keyword: self.previous() }));
        }
        if self.match_type(&[&keyword_token("super")]) {
            let keyword = self.previous();
            match self.consume_unit(&mark_token(PunctuationKind::Dot), "'.' after super") {
                Err(e) => {
                    return Err(e);
                },
                Ok(_) => {},
            }
            let method = match self.consume_identifier("superclass method name") {
                Err(e) => {
                    return Err(e);
                },
                Ok(name) => name,
            };
            return Ok(Expr::Super(Super { keyword, method }));
        }
        if self.check_identifier() {
            return Ok(Expr::Variable(self.advance()));
        }
        match self.peek() {
            TokenType::Numeric { raw, hint } => {
                let token = self.advance();
                match hint {
                    NumericHint::Integer => {
                        return match parse_integer(raw.as_str()) {
                            Some(value) => Ok(Expr::Literal(Literal::Integer(value))),
                            None => Err(ParseError::InvalidLiteral { found: token }),
                        };
                    },
                    NumericHint::FloatingPoint => {
                        return Ok(Expr::Literal(Literal::FloatingPoint(raw)));
                    },
                }
            },
            TokenType::String(text) => {
                self.advance();
                return Ok(Expr::Literal(Literal::String(text)));
            },
            _ => {},
        }
        if self.match_type(&[&mark_token(PunctuationKind::OpenParen)]) {
            let expr = match self.parse_expr() {
                Err(e) => {
                    return Err(e);
                },
                Ok(e) => e,
            };
            match self.consume_unit(&mark_token(PunctuationKind::CloseParen), "')'") {
                Err(e) => {
                    return Err(e);
                },
                Ok(_) => {},
            }
            return Ok(Expr::Grouping(Grouping { expr: Box::new(expr) }));
        }
        Err(ParseError::InvalidExpression { found: self.peek() })
    }

    /// Parses the arguments of a call and its closing parenthesis; the
    /// opening one has just been consumed.
    #[verifier::spinoff_prover]
    fn finish_call(&mut self, callee: Expr) -> (r: Result<Expr, ParseError>)
        ensures
            old(self).took(
                *final(self),
                expr_outcome(r),
                finish_call(old(self).tokens(), old(self).cursor(), callee@),
            ),
        decreases remaining(old(self).tokens(), old(self).cursor()), 19int,
    {
        proof {
            reveal_with_fuel(finish_call, 1);
            reveal_with_fuel(arguments, 1);
            reveal_with_fuel(arguments_rest, 1);
            reveal_with_fuel(expression, 1);
        }
        let ghost ts = self.tokens();
        let ghost start = self.cursor();
        let mut args: Vec<Expr> = Vec::new();
        if !self.check_type(&mark_token(PunctuationKind::CloseParen)) {
            let first = match self.parse_expr() {
                Err(e) => {
                    return Err(e);
                },
                Ok(e) => e,
            };
            args.push(first);
            assert(expr_views(args@) =~= seq![first@]);
            loop
                invariant_except_break
                    self.tokens() == ts,
                    ts == old(self).tokens(),
                    start == old(self).cursor(),
                    start <= self.cursor(),
                    arguments(ts, start) == shift(
                        (self.cursor() - start) as nat,
                        arguments_rest(ts, self.cursor(), expr_views(args@)),
                    ),
                ensures
                    self.tokens() == ts,
                    start <= self.cursor(),
                    arguments(ts, start) == ok(expr_views(args@), (self.cursor() - start) as nat),
                decreases remaining(ts, self.cursor()),
            {
                proof {
                    reveal_with_fuel(finish_call, 1);
                    reveal_with_fuel(arguments, 1);
                    reveal_with_fuel(arguments_rest, 1);
                    reveal_with_fuel(expression, 1);
                }
                if !self.match_type(&[&mark_token(PunctuationKind::Comma)]) {
                    break ;
                }
                if args.len() >= 255 {
                    return Err(ParseError::TooManyArguments);
                }
                let next = match self.parse_expr() {
                    Err(e) => {
                        return Err(e);
                    },
                    Ok(e) => e,
                };
                let ghost before = expr_views(args@);
                args.push(next);
                assert(expr_views(args@) =~= before.push(next@));
            }
        } else {
            assert(expr_views(args@) =~= Seq::<ExprView>::empty());
        }
        let paren = match self.consume_unit(&mark_token(PunctuationKind::CloseParen), "')' after arguments") {
            Err(e) => {
                return Err(e);
            },
            Ok(token) => token,
        };
        let call = CallExpr { callee: Box::new(callee), paren, args };
        proof {
            lemma_call_view(call);
        }
        Ok(Expr::Call(call))
    }

    /// Parses a `call`: a primary expression and the calls and field accesses
    /// after it.
    #[verifier::spinoff_prover]
    fn parse_call(&mut self) -> (r: Result<Expr, ParseError>)
        ensures
            old(self).took(*final(self), expr_outcome(r), call(old(self).tokens(), old(self).cursor())),
        decreases remaining(old(self).tokens(), old(self).cursor()), 2int,
    {
        proof {
            reveal_with_fuel(call, 1);
            reveal_with_fuel(call_rest, 1);
            reveal_with_fuel(primary, 1);
        }
        let ghost ts = self.tokens();
        let ghost start = self.cursor();
        let mut expr = match self.parse_literal() {
            Err(e) => {
                return Err(e);
            },
            Ok(e) => e,
        };
        loop
            invariant_except_break
                self.tokens() == ts,
                ts == old(self).tokens(),
                start == old(self).cursor(),
                start <= self.cursor(),
                call(ts, start) == shift((self.cursor() - start) as nat, call_rest(ts, self.cursor(), expr@)),
            ensures
                self.tokens() == ts,
                start <= self.cursor(),
                call(ts, start) == ok(expr@, (self.cursor() - start) as nat),
            decreases remaining(ts, self.cursor()),
        {
            proof {
                reveal_with_fuel(call_rest, 1);
                reveal_with_fuel(finish_call, 1);
            }
            if self.match_type(&[&mark_token(PunctuationKind::OpenParen)]) {
                expr = match self.finish_call(expr) {
                    Err(e) => {
                        return Err(e);
                    },
                    Ok(e) => e,
                };
            } else if self.match_type(&[&mark_token(PunctuationKind::Dot)]) {
                let name = match self.consume_identifier("property name after '.'") {
                    Err(e) => {
                        return Err(e);
                    },
                    Ok(token) => token,
                };
                expr = Expr::Get(Get { object: Box::new(expr), name });
            } else {
                break ;
            }
        }
        Ok(expr)
    }

    /// Parses a `unary`: any number of `!` and `-` before a call.
    #[verifier::spinoff_prover]
    fn parse_unary(&mut self) -> (r: Result<Expr, ParseError>)
        ensures
            old(self).took(*final(self), expr_outcome(r), unary(old(self).tokens(), old(self).cursor())),
        decreases remaining(old(self).tokens(), old(self).cursor()), 3int,
    {
        proof {
            reveal_with_fuel(unary, 1);
            reveal_with_fuel(call, 1);
        }
        if self.match_type(
            &[
                &mark_token(PunctuationKind::Bang),
                &TokenType::Operations { raw: '-', kind: OperationKind::Minus },
            ],
        ) {
            let operator = self.previous();
            let right = match self.parse_unary() {
                Err(e) => {
                    return Err(e);
                },
                Ok(e) => e,
            };
            return Ok(Expr::UnaryExpr(UnaryExpr { op: operator, right: Box::new(right) }));
        }
        self.parse_call()
    }

    /// Consumes the token at the cursor if it is an infix operator of
    /// `level`.
    #[verifier::spinoff_prover]
    fn match_operator(&mut self, level: Level) -> (r: bool)
        ensures
            final(self).tokens() == old(self).tokens(),
            r == (token_at(old(self).tokens(), old(self).cursor()) != TokenView::EOF && is_operator(
                level,
                token_at(old(self).tokens(), old(self).cursor()),
            )),
            final(self).cursor() == old(self).cursor() + (if r {
                1nat
            } else {
                0nat
            }),
    {
        match level {
            Level::Factor => self.match_type(
                &[
                    &TokenType::Operations { raw: '*', kind: OperationKind::Star },
                    &TokenType::Operations { raw: '/', kind: OperationKind::Slash },
                ],
            ),
            Level::Term => self.match_type(
                &[
                    &TokenType::Operations { raw: '+', kind: OperationKind::Plus },
                    &TokenType::Operations { raw: '-', kind: OperationKind::Minus },
                ],
            ),
            Level::Comparison => self.match_type(
                &[
                    &TokenType::Operator(OperatorKind::Greater),
                    &TokenType::Operator(OperatorKind::GreaterEqual),
                    &TokenType::Operator(OperatorKind::Less),
                    &TokenType::Operator(OperatorKind::LessEqual),
                ],
            ),
            Level::Equality => self.match_type(
                &[&TokenType::Operator(OperatorKind::BangEqual), &TokenType::Operator(OperatorKind::EqualEqual)],
            ),
        }
    }

    /// Parses an operand of an operator of `level`.
    #[verifier::spinoff_prover]
    fn parse_operand(&mut self, level: Level) -> (r: Result<Expr, ParseError>)
        ensures
            old(self).took(*final(self), expr_outcome(r), operand(old(self).tokens(), old(self).cursor(), level)),
        decreases remaining(old(self).tokens(), old(self).cursor()), super::grammar::rank_of(level) - 1,
    {
        proof {
            reveal_with_fuel(operand, 1);
            reveal_with_fuel(unary, 1);
            reveal_with_fuel(binary, 1);
        }
        match level {
            Level::Factor => self.parse_unary(),
            Level::Term => self.parse_factor(),
            Level::Comparison => self.parse_term(),
            Level::Equality => self.parse_comparison(),
        }
    }

    /// Parses operands of `level` with operators of `level` between them.
    /// The operators nest to the left.
    #[verifier::spinoff_prover]
    fn parse_level(&mut self, level: Level) -> (r: Result<Expr, ParseError>)
        ensures
            old(self).took(*final(self), expr_outcome(r), binary(old(self).tokens(), old(self).cursor(), level)),
        decreases remaining(old(self).tokens(), old(self).cursor()), super::grammar::rank_of(level),
    {
        proof {
            reveal_with_fuel(binary, 1);
            reveal_with_fuel(binary_rest, 1);
            reveal_with_fuel(operand, 1);
        }
        let ghost ts = self.tokens();
        let ghost start = self.cursor();
        let mut expr = match self.parse_operand(level) {
            Err(e) => {
                return Err(e);
            },
            Ok(e) => e,
        };
        loop
            invariant_except_break
                self.tokens() == ts,
                ts == old(self).tokens(),
                start == old(self).cursor(),
                start <= self.cursor(),
                binary(ts, start, level) == shift(
                    (self.cursor() - start) as nat,
                    binary_rest(ts, self.cursor(), level, expr@),
                ),
            ensures
                self.tokens() == ts,
                start <= self.cursor(),
                binary(ts, start, level) == ok(expr@, (self.cursor() - start) as nat),
            decreases remaining(ts, self.cursor()),
        {
            proof {
                reveal_with_fuel(binary_rest, 1);
                reveal_with_fuel(operand, 1);
            }
            if !self.match_operator(level) {
                break ;
            }
            let operator = self.previous();
            let right = match self.parse_operand(level) {
                Err(e) => {
                    return Err(e);
                },
                Ok(e) => e,
            };
            expr = Expr::BinaryExpr(BinaryExpr { left: Box::new(expr), op: operator, right: Box::new(right) });
        }
        Ok(expr)
    }

    /// Parses a `factor`: unary expressions with `*` and `/` between them.
    #[verifier::spinoff_prover]
    fn parse_factor(&mut self) -> (r: Result<Expr, ParseError>)
        ensures
            old(self).took(
                *final(self),
                expr_outcome(r),
                binary(old(self).tokens(), old(self).cursor(), Level::Factor),
            ),
        decreases remaining(old(self).tokens(), old(self).cursor()), 6int,
    {
        self.parse_level(Level::Factor)
    }

    /// Parses a `term`: factors with `+` and `-` between them.
    #[verifier::spinoff_prover]
    fn parse_term(&mut self) -> (r: Result<Expr, ParseError>)
        ensures
            old(self).took(*final(self), expr_outcome(r), binary(old(self).tokens(), old(self).cursor(), Level::Term)),
        decreases remaining(old(self).tokens(), old(self).cursor()), 9int,
    {
        self.parse_level(Level::Term)
    }

    /// Parses a `comparison`: terms with `<`, `<=`, `>` and `>=` between
    /// them.
    #[verifier::spinoff_prover]
    fn parse_comparison(&mut self) -> (r: Result<Expr, ParseError>)
        ensures
            old(self).took(
                *final(self),
                expr_outcome(r),
                binary(old(self).tokens(), old(self).cursor(), Level::Comparison),
            ),
        decreases remaining(old(self).tokens(), old(self).cursor()), 12int,
    {
        self.parse_level(Level::Comparison)
    }

    /// Parses an `equality`: comparisons with `!=` and `==` between them.
    #[verifier::spinoff_prover]
    fn parse_equality(&mut self) -> (r: Result<Expr, ParseError>)
        ensures
            old(self).took(
                *final(self),
                expr_outcome(r),
                binary(old(self).tokens(), old(self).cursor(), Level::Equality),
            ),
        decreases remaining(old(self).tokens(), old(self).cursor()), 15int,
    {
        self.parse_level(Level::Equality)
    }

    /// Parses an `assignment`: an equality, and after `=`, `+=` or `-=` the
    /// assigned value.
    #[verifier::spinoff_prover]
    fn parse_assignment(&mut self) -> (r: Result<Expr, ParseError>)
        ensures
            old(self).took(*final(self), expr_outcome(r), assignment(old(self).tokens(), old(self).cursor())),
        decreases remaining(old(self).tokens(), old(self).cursor()), 16int,
    {
        proof {
            reveal_with_fuel(assignment, 1);
            reveal_with_fuel(binary, 1);
        }
        let expr = match self.parse_equality() {
            Err(e) => {
                return Err(e);
            },
            Ok(e) => e,
        };
        if self.match_type(&[&mark_token(PunctuationKind::Equal)]) {
            let value = match self.parse_assignment() {
                Err(e) => {
                    return Err(e);
                },
                Ok(e) => e,
            };
            match expr {
                Expr::Variable(name) => Ok(Expr::Assign(AssignExpr { name, value: Box::new(value) })),
                Expr::Get(get) => Ok(
                    Expr::SetExpr(SetExpr { object: get.object, name: get.name, value: Box::new(value) }),
                ),
                other => Ok(other),
            }
        } else if self.match_type(&[&TokenType::Operator(OperatorKind::PlusEqual)]) {
            let value = match self.parse_assignment() {
                Err(e) => {
                    return Err(e);
                },
                Ok(e) => e,
            };
            match expr {
                Expr::Variable(name) => Ok(
                    Expr::Update(
                        UpdateExpr {
                            name,
                            op: TokenType::Operations { raw: '+', kind: OperationKind::Plus },
                            change: Box::new(value),
                        },
                    ),
                ),
                other => Ok(other),
            }
        } else if self.match_type(&[&TokenType::Operator(OperatorKind::MinusEqual)]) {
            let value = match self.parse_assignment() {
                Err(e) => {
                    return Err(e);
                },
                Ok(e) => e,
            };
            match expr {
                Expr::Variable(name) => Ok(
                    Expr::Update(
                        UpdateExpr {
                            name,
                            op: TokenType::Operations { raw: '-', kind: OperationKind::Minus },
                            change: Box::new(value),
                        },
                    ),
                ),
                other => Ok(other),
            }
        } else {
            Ok(expr)
        }
    }

    /// Parses an `expr`: an identifier with `++` or `--` after it, or an
    /// assignment.
    #[verifier::spinoff_prover]
    fn parse_expr(&mut self) -> (r: Result<Expr, ParseError>)
        ensures
            old(self).took(*final(self), expr_outcome(r), expression(old(self).tokens(), old(self).cursor())),
        decreases remaining(old(self).tokens(), old(self).cursor()), 17int,
    {
        proof {
            reveal_with_fuel(expression, 1);
            reveal_with_fuel(assignment, 1);
        }
        if self.match_look_ahead(
            &[&TokenType::Operator(OperatorKind::Increment), &TokenType::Operator(OperatorKind::Decrement)],
        ) {
            let identifier = match self.consume_identifier("identifier") {
                Err(e) => {
                    return Err(e);
                },
                Ok(token) => token,
            };
            let operator = self.advance();
            let change = Expr::Literal(Literal::Integer(1));
            assert(change@ == super::grammar::one());
            return match operator {
                TokenType::Operator(OperatorKind::Increment) => Ok(
                    Expr::Update(
                        UpdateExpr {
                            name: identifier,
                            op: TokenType::Operations { raw: '+', kind: OperationKind::Plus },
                            change: Box::new(change),
                        },
                    ),
                ),
                TokenType::Operator(OperatorKind::Decrement) => Ok(
                    Expr::Update(
                        UpdateExpr {
                            name: identifier,
                            op: TokenType::Operations { raw: '-', kind: OperationKind::Minus },
                            change: Box::new(change),
                        },
                    ),
                ),
                _ => Err(ParseError::InvalidOperator { found: operator }),
            };
        }
        self.parse_assignment()
    }

    /// Parses an expression as a statement.
    #[verifier::spinoff_prover]
    fn expression_statement(&mut self) -> (r: Result<Stmt, ParseError>)
        ensures
            old(self).took(
                *final(self),
                stmt_outcome(r),
                expression_statement(old(self).tokens(), old(self).cursor()),
            ),
        decreases remaining(old(self).tokens(), old(self).cursor()), 19int,
    {
        proof {
            reveal_with_fuel(expression_statement, 1);
            reveal_with_fuel(terminated_expression, 1);
            reveal_with_fuel(expression, 1);
        }
        let expr = match self.parse_expr() {
            Err(e) => {
                return Err(e);
            },
            Ok(e) => e,
        };
        match self.consume_unit(&mark_token(PunctuationKind::Separator), "';' after expression") {
            Err(e) => {
                return Err(e);
            },
            Ok(_) => {},
        }
        Ok(Stmt::Expression(expr))
    }

    /// Parses what follows `print`.
    #[verifier::spinoff_prover]
    fn print_statement(&mut self) -> (r: Result<Stmt, ParseError>)
        ensures
            old(self).took(*final(self), stmt_outcome(r), print_statement(old(self).tokens(), old(self).cursor())),
        decreases remaining(old(self).tokens(), old(self).cursor()), 19int,
    {
        proof {
            reveal_with_fuel(print_statement, 1);
            reveal_with_fuel(terminated_expression, 1);
            reveal_with_fuel(expression, 1);
        }
        let expr = match self.parse_expr() {
            Err(e) => {
                return Err(e);
            },
            Ok(e) => e,
        };
        match self.consume_unit(&mark_token(PunctuationKind::Separator), "';' after value") {
            Err(e) => {
                return Err(e);
            },
            Ok(_) => {},
        }
        Ok(Stmt::Print(expr))
    }

    /// Parses what follows `return`, which has just been consumed.
    #[verifier::spinoff_prover]
    fn return_statement(&mut self) -> (r: Result<Stmt, ParseError>)
        requires
            old(self).cursor() > 0,
        ensures
            old(self).took(
                *final(self),
                stmt_outcome(r),
                return_statement(
                    old(self).tokens(),
                    old(self).cursor(),
                    token_at(old(self).tokens(), (old(self).cursor() - 1) as nat),
                ),
            ),
        decreases remaining(old(self).tokens(), old(self).cursor()), 19int,
    {
        proof {
            reveal_with_fuel(return_statement, 1);
            reveal_with_fuel(terminated_expression, 1);
            reveal_with_fuel(expression, 1);
        }
        let keyword = self.previous();
        let mut value: Option<Expr> = None;
        if !self.check_type(&mark_token(PunctuationKind::Separator)) {
            let expr = match self.parse_expr() {
                Err(e) => {
                    return Err(e);
                },
                Ok(e) => e,
            };
            value = Some(expr);
        }
        match self.consume_unit(&mark_token(PunctuationKind::Separator), "';' after return value") {
            Err(e) => {
                return Err(e);
            },
            Ok(_) => {},
        }
        Ok(Stmt::Return { keyword, value })
    }

    /// Parses what follows `let`: a name, `=`, the initial value and `;`.
    #[verifier::spinoff_prover]
    fn let_declaration(&mut self) -> (r: Result<Stmt, ParseError>)
        ensures
            old(self).took(*final(self), stmt_outcome(r), let_declaration(old(self).tokens(), old(self).cursor())),
        decreases remaining(old(self).tokens(), old(self).cursor()), 19int,
    {
        proof {
            reveal_with_fuel(let_declaration, 1);
            reveal_with_fuel(terminated_expression, 1);
            reveal_with_fuel(expression, 1);
        }
        let name = match self.consume_identifier("variable name after let") {
            Err(e) => {
                return Err(e);
            },
            Ok(token) => token,
        };
        if self.match_type(&[&mark_token(PunctuationKind::Equal)]) {
            let initializer = match self.parse_expr() {
                Err(e) => {
                    return Err(e);
                },
                Ok(e) => e,
            };
            match self.consume_unit(&mark_token(PunctuationKind::Separator), "';' after expression") {
                Err(e) => {
                    return Err(e);
                },
                Ok(_) => {},
            }
            return Ok(Stmt::Let { token: name, initializer });
        }
        Err(ParseError::MissingExpectedSymbol { expected: "'=' after variable name", found: self.peek() })
    }

    /// Parses what follows `if`: a condition in parentheses and a statement.
    #[verifier::spinoff_prover]
    fn if_statement(&mut self) -> (r: Result<Stmt, ParseError>)
        ensures
            old(self).took(*final(self), stmt_outcome(r), if_statement(old(self).tokens(), old(self).cursor())),
        decreases remaining(old(self).tokens(), old(self).cursor()), 19int,
    {
        proof {
            reveal_with_fuel(if_statement, 1);
            reveal_with_fuel(governed, 1);
            reveal_with_fuel(expression, 1);
            reveal_with_fuel(statement, 1);
        }
        match self.consume_unit(&mark_token(PunctuationKind::OpenParen), "'(' after if") {
            Err(e) => {
                return Err(e);
            },
            Ok(_) => {},
        }
        let condition = match self.parse_expr() {
            Err(e) => {
                return Err(e);
            },
            Ok(e) => e,
        };
        match self.consume_unit(&mark_token(PunctuationKind::CloseParen), "')' after condition") {
            Err(e) => {
                return Err(e);
            },
            Ok(_) => {},
        }
        let branch = match self.parse_statement() {
            Err(e) => {
                return Err(e);
            },
            Ok(s) => s,
        };
        Ok(Stmt::If { condition, branch: Box::new(branch) })
    }

    /// Parses what follows `while`: a condition in parentheses and a
    /// statement.
    #[verifier::spinoff_prover]
    fn while_statement(&mut self) -> (r: Result<Stmt, ParseError>)
        ensures
            old(self).took(*final(self), stmt_outcome(r), while_statement(old(self).tokens(), old(self).cursor())),
        decreases remaining(old(self).tokens(), old(self).cursor()), 19int,
    {
        proof {
            reveal_with_fuel(while_statement, 1);
            reveal_with_fuel(governed, 1);
            reveal_with_fuel(expression, 1);
            reveal_with_fuel(statement, 1);
        }
        match self.consume_unit(&mark_token(PunctuationKind::OpenParen), "'(' after while") {
            Err(e) => {
                return Err(e);
            },
            Ok(_) => {},
        }
        let condition = match self.parse_expr() {
            Err(e) => {
                return Err(e);
            },
            Ok(e) => e,
        };
        match self.consume_unit(&mark_token(PunctuationKind::CloseParen), "')' after condition") {
            Err(e) => {
                return Err(e);
            },
            Ok(_) => {},
        }
        let body = match self.parse_statement() {
            Err(e) => {
                return Err(e);
            },
            Ok(s) => s,
        };
        Ok(Stmt::While { condition, body: Box::new(body) })
    }

    /// Parses what follows `for` and builds the loop that it stands for:
    /// `for (init cond; step) body` becomes `{ init while (cond) { body step; } }`.
    #[verifier::spinoff_prover]
    #[verifier::rlimit(60)]
    fn for_statement(&mut self) -> (r: Result<Stmt, ParseError>)
        ensures
            old(self).took(*final(self), stmt_outcome(r), for_statement(old(self).tokens(), old(self).cursor())),
        decreases remaining(old(self).tokens(), old(self).cursor()), 19int,
    {
        proof {
            reveal_with_fuel(for_statement, 1);
            reveal_with_fuel(let_declaration, 1);
            reveal_with_fuel(expression_statement, 1);
            reveal_with_fuel(terminated_expression, 1);
            reveal_with_fuel(expression, 1);
            reveal_with_fuel(statement, 1);
        }
        match self.consume_unit(&mark_token(PunctuationKind::OpenParen), "'(' after for") {
            Err(e) => {
                return Err(e);
            },
            Ok(_) => {},
        }
        let initializer = if self.match_type(&[&keyword_token("let")]) {
            match self.let_declaration() {
                Err(e) => {
                    return Err(e);
                },
                Ok(s) => s,
            }
        } else {
            match self.expression_statement() {
                Err(e) => {
                    return Err(e);
                },
                Ok(s) => s,
            }
        };
        let condition = match self.parse_expr() {
            Err(e) => {
                return Err(e);
            },
            Ok(e) => e,
        };
        match self.consume_unit(&mark_token(PunctuationKind::Separator), "';' after loop condition") {
            Err(e) => {
                return Err(e);
            },
            Ok(_) => {},
        }
        let change = match self.parse_expr() {
            Err(e) => {
                return Err(e);
            },
            Ok(e) => e,
        };
        match self.consume_unit(&mark_token(PunctuationKind::CloseParen), "')' after for clauses") {
            Err(e) => {
                return Err(e);
            },
            Ok(_) => {},
        }
        let body = match self.parse_statement() {
            Err(e) => {
                return Err(e);
            },
            Ok(s) => s,
        };
        let ghost initializer_view = initializer@;
        let ghost condition_view = condition@;
        let ghost change_view = change@;
        let ghost body_view = body@;
        let step = Stmt::Expression(change);
        assert(step@ == StmtView::Expression(change_view));
        let mut inner: Vec<Stmt> = Vec::new();
        inner.push(body);
        inner.push(step);
        assert(stmt_views(inner@) =~= seq![body_view, StmtView::Expression(change_view)]);
        proof {
            lemma_block_view(inner);
        }
        let inner_block = Stmt::Block { statements: inner };
        let repeated = Stmt::While { condition, body: Box::new(inner_block) };
        assert(repeated@ == StmtView::While { condition: condition_view, body: Box::new(inner_block@) });
        let mut outer: Vec<Stmt> = Vec::new();
        outer.push(initializer);
        outer.push(repeated);
        assert(stmt_views(outer@) =~= seq![initializer_view, repeated@]);
        proof {
            lemma_block_view(outer);
        }
        Ok(Stmt::Block { statements: outer })
    }

    /// Parses what follows `{`: declarations and the closing brace.
    #[verifier::spinoff_prover]
    fn parse_block(&mut self) -> (r: Result<Vec<Stmt>, ParseError>)
        ensures
            old(self).took(*final(self), stmts_outcome(r), block(old(self).tokens(), old(self).cursor())),
        decreases remaining(old(self).tokens(), old(self).cursor()), 23int,
    {
        proof {
            reveal_with_fuel(block, 1);
            reveal_with_fuel(block_items, 1);
        }
        let ghost ts = self.tokens();
        let ghost start = self.cursor();
        let mut statements: Vec<Stmt> = Vec::new();
        assert(stmt_views(statements@) =~= Seq::<StmtView>::empty());
        loop
            invariant_except_break
                self.tokens() == ts,
                ts == old(self).tokens(),
                start == old(self).cursor(),
                start <= self.cursor(),
                block_items(ts, start, Seq::empty()) == shift(
                    (self.cursor() - start) as nat,
                    block_items(ts, self.cursor(), stmt_views(statements@)),
                ),
            ensures
                self.tokens() == ts,
                start <= self.cursor(),
                block_items(ts, start, Seq::empty()) == ok(
                    stmt_views(statements@),
                    (self.cursor() - start) as nat,
                ),
            decreases remaining(ts, self.cursor()),
        {
            proof {
                reveal_with_fuel(block, 1);
                reveal_with_fuel(block_items, 1);
                reveal_with_fuel(declaration, 1);
                lemma_declaration_consumes(ts, self.cursor());
            }
            if self.check_type(&mark_token(PunctuationKind::CloseCurly)) || self.end_of_stream() {
                break ;
            }
            let item = match self.parse_declaration() {
                Err(e) => {
                    return Err(e);
                },
                Ok(s) => s,
            };
            let ghost before = stmt_views(statements@);
            statements.push(item);
            assert(stmt_views(statements@) =~= before.push(item@));
        }
        match self.consume_unit(&mark_token(PunctuationKind::CloseCurly), "'}' after block") {
            Err(e) => {
                return Err(e);
            },
            Ok(_) => {},
        }
        Ok(statements)
    }

    /// Parses what follows `def`: a name, the parameters in parentheses and
    /// the body, a block.
    #[verifier::spinoff_prover]
    fn function_statement(&mut self, kind: FunctionKind) -> (r: Result<Stmt, ParseError>)
        ensures
            old(self).took(
                *final(self),
                stmt_outcome(r),
                function_statement(old(self).tokens(), old(self).cursor(), kind),
            ),
        decreases remaining(old(self).tokens(), old(self).cursor()), 24int,
    {
        proof {
            reveal_with_fuel(function_statement, 1);
            reveal_with_fuel(block, 1);
        }
        let ghost ts = self.tokens();
        let ghost start = self.cursor();
        let name = match self.consume_identifier("function name after def") {
            Err(e) => {
                return Err(e);
            },
            Ok(token) => token,
        };
        match self.consume_unit(&mark_token(PunctuationKind::OpenParen), "'(' after function name") {
            Err(e) => {
                return Err(e);
            },
            Ok(_) => {},
        }
        let mut parameters: Vec<TokenType> = Vec::new();
        if !self.check_type(&mark_token(PunctuationKind::CloseParen)) {
            let first = match self.consume_identifier("parameter after '('") {
                Err(e) => {
                    return Err(e);
                },
                Ok(token) => token,
            };
            parameters.push(first);
            assert(token_views(parameters@) =~= seq![first@]);
            loop
                invariant_except_break
                    self.tokens() == ts,
                    ts == old(self).tokens(),
                    start == old(self).cursor(),
                    start + 2 <= self.cursor(),
                    super::grammar::parameters(ts, start + 2) == shift(
                        (self.cursor() - (start + 2)) as nat,
                        parameters_rest(ts, self.cursor(), token_views(parameters@)),
                    ),
                    expect_identifier(ts, start, "function name after def"@).outcome == Ok::<
                        TokenView,
                        ParseErrorView,
                    >(name@),
                    accepts(ts, start + 1, mark(PunctuationKind::OpenParen)),
                ensures
                    self.tokens() == ts,
                    start + 2 <= self.cursor(),
                    super::grammar::parameters(ts, start + 2) == ok(
                        token_views(parameters@),
                        (self.cursor() - (start + 2)) as nat,
                    ),
                decreases remaining(ts, self.cursor()),
            {
                proof {
                    reveal_with_fuel(function_statement, 1);
                }
                if !self.match_type(&[&mark_token(PunctuationKind::Comma)]) {
                    break ;
                }
                if parameters.len() >= 255 {
                    return Err(ParseError::TooManyParameters);
                }
                let next = match self.consume_identifier("parameter after ','") {
                    Err(e) => {
                        return Err(e);
                    },
                    Ok(token) => token,
                };
                let ghost before = token_views(parameters@);
                parameters.push(next);
                assert(token_views(parameters@) =~= before.push(next@));
            }
        } else {
            assert(token_views(parameters@) =~= Seq::<TokenView>::empty());
        }
        match self.consume_unit(&mark_token(PunctuationKind::CloseParen), "')' after parameters") {
            Err(e) => {
                return Err(e);
            },
            Ok(_) => {},
        }
        let opened = match kind {
            FunctionKind::Function => self.consume_unit(
                &mark_token(PunctuationKind::OpenCurly),
                "'{' before function body",
            ),
            FunctionKind::Method => self.consume_unit(
                &mark_token(PunctuationKind::OpenCurly),
                "'{' before method body",
            ),
        };
        match opened {
            Err(e) => {
                return Err(e);
            },
            Ok(_) => {},
        }
        let body = match self.parse_block() {
            Err(e) => {
                return Err(e);
            },
            Ok(statements) => statements,
        };
        proof {
            lemma_function_view(name, parameters, body);
        }
        Ok(Stmt::Function { name, params: parameters, body })
    }

    /// Parses what follows `class`: a name, an optional `extends` with the
    /// name of the superclass and, in braces, the methods, each after `def`.
    #[verifier::spinoff_prover]
    #[verifier::rlimit(60)]
    fn class_statement(&mut self) -> (r: Result<Stmt, ParseError>)
        ensures
            old(self).took(*final(self), stmt_outcome(r), class_statement(old(self).tokens(), old(self).cursor())),
        decreases remaining(old(self).tokens(), old(self).cursor()), 26int,
    {
        proof {
            reveal_with_fuel(class_statement, 1);
            reveal_with_fuel(class_methods, 1);
        }
        let ghost ts = self.tokens();
        let ghost start = self.cursor();
        let name = match self.consume_identifier("class name") {
            Err(e) => {
                return Err(e);
            },
            Ok(token) => token,
        };
        let mut super_class: Option<Expr> = None;
        if self.match_type(&[&keyword_token("extends")]) {
            let parent = match self.consume_identifier("superclass name") {
                Err(e) => {
                    return Err(e);
                },
                Ok(token) => token,
            };
            super_class = Some(Expr::Variable(parent));
        }
        match self.consume_unit(&mark_token(PunctuationKind::OpenCurly), "'{' after class name") {
            Err(e) => {
                return Err(e);
            },
            Ok(_) => {},
        }
        let ghost body_start = self.cursor();
        let mut methods: Vec<Stmt> = Vec::new();
        assert(stmt_views(methods@) =~= Seq::<StmtView>::empty());
        loop
            invariant_except_break
                self.tokens() == ts,
                ts == old(self).tokens(),
                start == old(self).cursor(),
                start < body_start <= self.cursor(),
                class_methods(ts, body_start, Seq::empty()) == shift(
                    (self.cursor() - body_start) as nat,
                    class_methods(ts, self.cursor(), stmt_views(methods@)),
                ),
                class_head(ts, start).outcome == Ok::<(TokenView, Option<ExprView>), ParseErrorView>(
                    (name@, super::stmt::optional_view(super_class)),
                ),
                body_start == start + class_head(ts, start).consumed + 1,
                accepts(ts, (body_start - 1) as nat, mark(PunctuationKind::OpenCurly)),
            ensures
                self.tokens() == ts,
                body_start <= self.cursor(),
                class_methods(ts, body_start, Seq::empty()) == ok(
                    stmt_views(methods@),
                    (self.cursor() - body_start) as nat,
                ),
            decreases remaining(ts, self.cursor()),
        {
            proof {
                reveal_with_fuel(class_statement, 1);
                reveal_with_fuel(class_methods, 1);
                reveal_with_fuel(function_statement, 1);
            }
            if self.check_type(&mark_token(PunctuationKind::CloseCurly)) || self.end_of_stream() {
                break ;
            }
            match self.consume_unit(&keyword_token("def"), "'def' before method") {
                Err(e) => {
                    return Err(e);
                },
                Ok(_) => {},
            }
            let method = match self.function_statement(FunctionKind::Method) {
                Err(e) => {
                    return Err(e);
                },
                Ok(s) => s,
            };
            let ghost before = stmt_views(methods@);
            methods.push(method);
            assert(stmt_views(methods@) =~= before.push(method@));
        }
        match self.consume_unit(&mark_token(PunctuationKind::CloseCurly), "'}' after class body") {
            Err(e) => {
                return Err(e);
            },
            Ok(_) => {},
        }
        proof {
            lemma_class_view(name, super_class, methods);
        }
        Ok(Stmt::Class { name, super_class, methods })
    }

    /// Parses a `statement`.
    #[verifier::spinoff_prover]
    fn parse_statement(&mut self) -> (r: Result<Stmt, ParseError>)
        ensures
            old(self).took(*final(self), stmt_outcome(r), statement(old(self).tokens(), old(self).cursor())),
        decreases remaining(old(self).tokens(), old(self).cursor()), 20int,
    {
        proof {
            reveal_with_fuel(statement, 1);
            reveal_with_fuel(print_statement, 1);
            reveal_with_fuel(if_statement, 1);
            reveal_with_fuel(while_statement, 1);
            reveal_with_fuel(for_statement, 1);
            reveal_with_fuel(return_statement, 1);
            reveal_with_fuel(block, 1);
            reveal_with_fuel(expression_statement, 1);
        }
        if self.match_type(&[&keyword_token("print")]) {
            return self.print_statement();
        }
        if self.match_type(&[&keyword_token("if")]) {
            return self.if_statement();
        }
        if self.match_type(&[&keyword_token("while")]) {
            return self.while_statement();
        }
        if self.match_type(&[&keyword_token("for")]) {
            return self.for_statement();
        }
        if self.match_type(&[&keyword_token("return")]) {
            return self.return_statement();
        }
        if self.match_type(&[&mark_token(PunctuationKind::OpenCurly)]) {
            let statements = match self.parse_block() {
                Err(e) => {
                    return Err(e);
                },
                Ok(s) => s,
            };
            proof {
                lemma_block_view(statements);
            }
            return Ok(Stmt::Block { statements });
        }
        self.expression_statement()
    }

    /// Parses a `declaration`.
    #[verifier::spinoff_prover]
    fn parse_declaration(&mut self) -> (r: Result<Stmt, ParseError>)
        ensures
            old(self).took(*final(self), stmt_outcome(r), declaration(old(self).tokens(), old(self).cursor())),
        decreases remaining(old(self).tokens(), old(self).cursor()), 21int,
    {
        proof {
            reveal_with_fuel(declaration, 1);
            reveal_with_fuel(let_declaration, 1);
            reveal_with_fuel(function_statement, 1);
            reveal_with_fuel(class_statement, 1);
            reveal_with_fuel(statement, 1);
        }
        if self.match_type(&[&keyword_token("let")]) {
            return self.let_declaration();
        }
        if self.match_type(&[&keyword_token("def")]) {
            return self.function_statement(FunctionKind::Function);
        }
        if self.match_type(&[&keyword_token("class")]) {
            return self.class_statement();
        }
        self.parse_statement()
    }

    /// Moves the cursor to where parsing goes on after an error: past the
    /// token it stands at, and then to the next boundary between statements.
    #[verifier::spinoff_prover]
    fn synchronize(&mut self)
        ensures
            final(self).tokens() == old(self).tokens(),
            final(self).cursor() == synchronize(old(self).tokens(), old(self).cursor()),
    {
        proof {
            use_type_invariant(&*self);
        }
        if self.end_of_stream() {
            return ;
        }
        self.current = self.current + 1;
        let ghost ts = self.tokens();
        let ghost from = self.cursor();
        loop
            invariant_except_break
                self.inv(),
                self.tokens() == ts,
                ts == old(self).tokens(),
                from == old(self).cursor() + 1,
                from <= self.cursor(),
                boundary_from(ts, from) == boundary_from(ts, self.cursor()),
            ensures
                self.tokens() == ts,
                boundary_from(ts, from) == self.cursor(),
            decreases remaining(ts, self.cursor()),
        {
            if self.end_of_stream() {
                break ;
            }
            if self.previous() == mark_token(PunctuationKind::Separator) {
                break ;
            }
            if starts_statement_token(&self.peek()) {
                break ;
            }
            self.current = self.current + 1;
        }
    }

    /// Parses the whole token sequence from the cursor on.
    ///
    /// The result is what [`program`] gives for the tokens and the cursor:
    /// the statements in order if every declaration was parsed, and if not,
    /// the errors in order, one for each declaration that failed. After an
    /// error parsing goes on at the next boundary between statements. The
    /// cursor ends at the end of the stream.
    pub fn parse_program(&mut self) -> (r: Result<Vec<Stmt>, Vec<ParseError>>)
        ensures
            final(self).tokens() == old(self).tokens(),
            program_outcome(r) == parse_result(program(old(self).tokens(), old(self).cursor())),
            token_at(final(self).tokens(), final(self).cursor()) == TokenView::EOF,
    {
        let ghost ts = self.tokens();
        let ghost start = self.cursor();
        let mut statements: Vec<Stmt> = Vec::new();
        let mut errors: Vec<ParseError> = Vec::new();
        assert(stmt_views(statements@) =~= Seq::<StmtView>::empty());
        assert(parse_error_views(errors@) =~= Seq::<ParseErrorView>::empty());
        loop
            invariant_except_break
                self.tokens() == ts,
                ts == old(self).tokens(),
                start == old(self).cursor(),
                program(ts, start).statements == stmt_views(statements@) + program(ts, self.cursor()).statements,
                program(ts, start).errors == parse_error_views(errors@) + program(ts, self.cursor()).errors,
            ensures
                self.tokens() == ts,
                program(ts, start).statements == stmt_views(statements@),
                program(ts, start).errors == parse_error_views(errors@),
                token_at(ts, self.cursor()) == TokenView::EOF,
            decreases remaining(ts, self.cursor()),
        {
            let ghost at = self.cursor();
            let ghost statements_before = stmt_views(statements@);
            let ghost errors_before = parse_error_views(errors@);
            if self.end_of_stream() {
                assert(statements_before + Seq::<StmtView>::empty() =~= statements_before);
                assert(errors_before + Seq::<ParseErrorView>::empty() =~= errors_before);
                break ;
            }
            proof {
                lemma_declaration_consumes(ts, at);
            }
            match self.parse_declaration() {
                Ok(statement) => {
                    statements.push(statement);
                    proof {
                        let rest = program(ts, self.cursor());
                        assert(stmt_views(statements@) =~= statements_before.push(statement@));
                        assert(statements_before + (seq![statement@] + rest.statements) =~= statements_before.push(
                            statement@,
                        ) + rest.statements);
                    }
                },
                Err(error) => {
                    errors.push(error);
                    proof {
                        lemma_boundary_from(ts, self.cursor() + 1);
                    }
                    self.synchronize();
                    proof {
                        let rest = program(ts, self.cursor());
                        assert(parse_error_views(errors@) =~= errors_before.push(error@));
                        assert(errors_before + (seq![error@] + rest.errors) =~= errors_before.push(error@)
                            + rest.errors);
                    }
                },
            }
        }
        if errors.len() == 0 {
            Ok(statements)
        } else {
            Err(errors)
        }
    }
}

/// Whether a statement may start with `token`.
pub fn starts_statement_token(token: &TokenType) -> (r: bool)
    ensures
        r == super::grammar::starts_statement(token@),
{
    *token == keyword_token("class") || *token == keyword_token("def") || *token == keyword_token("let")
        || *token == keyword_token("for") || *token == keyword_token("if") || *token == keyword_token("while")
        || *token == keyword_token("print") || *token == keyword_token("return")
}

} // verus!
