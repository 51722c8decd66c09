//! The grammar: which tree a sequence of tokens denotes.
//!
//! Everything here is a mathematical description over the views of tokens.
//! Each rule takes the tokens and the position at which it starts, and gives
//! what it built, or the error that stopped it, together with the number of
//! tokens that it consumed. The parser is verified to follow it.
//!
//! The rules call each other in a circle, so each is measured by the tokens
//! that are left and by its place in the order in which rules start each
//! other at one position. The recursive rules are opaque: a proof that needs
//! the definition of one reveals it.
//!
//! ```text
//! program     := declaration* EndOfStream
//! declaration := "let" IDENT "=" expr ";"
//!              | "def" IDENT "(" params? ")" block
//!              | "class" IDENT ("extends" IDENT)? "{" ("def" IDENT "(" params? ")" block)* "}"
//!              | statement
//! statement   := "print" expr ";"
//!              | "if" "(" expr ")" statement
//!              | "while" "(" expr ")" statement
//!              | "for" "(" (letDecl | exprStmt) expr ";" expr ")" statement
//!              | "return" expr? ";"
//!              | "{" declaration* "}"
//!              | expr ";"
//! expr        := IDENT ("++" | "--") | assignment
//! assignment  := equality (("=" | "+=" | "-=") assignment)?
//! equality    := comparison (("!=" | "==") comparison)*
//! comparison  := term (("<" | "<=" | ">" | ">=") term)*
//! term        := factor (("+" | "-") factor)*
//! factor      := unary (("*" | "/") unary)*
//! unary       := ("!" | "-") unary | call
//! call        := primary ("(" args? ")" | "." IDENT)*
//! primary     := "true" | "false" | "nil" | "this" | "super" "." IDENT
//!              | IDENT | NUMERIC | STRING | "(" expr ")"
//! ```

use super::error::ParseErrorView;
use super::expr::{ExprView, LiteralView, Terminal, TerminalValue};
use super::number::integer_literal;
use super::stmt::StmtView;
use crate::lexer::token::{NumericHint, OperationKind, OperatorKind, PunctuationKind, TokenView};
use vstd::prelude::*;

verus! {

/// What one rule of the grammar gives: the thing it built or the error that
/// stopped it, and the number of tokens it consumed until then.
pub struct Step<T> {
    pub outcome: Result<T, ParseErrorView>,
    pub consumed: nat,
}

/// Success after `consumed` tokens.
pub open spec fn ok<T>(value: T, consumed: nat) -> Step<T> {
    Step { outcome: Ok(value), consumed }
}

/// Failure after `consumed` tokens.
pub open spec fn fail<T>(error: ParseErrorView, consumed: nat) -> Step<T> {
    Step { outcome: Err(error), consumed }
}

/// The step `step` taken after `n` tokens were consumed before it.
pub open spec fn shift<T>(n: nat, step: Step<T>) -> Step<T> {
    Step { outcome: step.outcome, consumed: n + step.consumed }
}

/// The token at `pos`. Past the last token stands the end of the stream.
pub open spec fn token_at(ts: Seq<TokenView>, pos: nat) -> TokenView {
    if pos < ts.len() {
        ts[pos as int]
    } else {
        TokenView::EOF
    }
}

/// The number of tokens from `pos` on.
pub open spec fn remaining(ts: Seq<TokenView>, pos: nat) -> nat {
    if pos < ts.len() {
        (ts.len() - pos) as nat
    } else {
        0
    }
}

/// The character that a structural mark is written with.
pub open spec fn raw_of(kind: PunctuationKind) -> char {
    match kind {
        PunctuationKind::OpenParen => '(',
        PunctuationKind::CloseParen => ')',
        PunctuationKind::OpenCurly => '{',
        PunctuationKind::CloseCurly => '}',
        PunctuationKind::Separator => ';',
        PunctuationKind::Equal => '=',
        PunctuationKind::Bang => '!',
        PunctuationKind::Comma => ',',
        PunctuationKind::Dot => '.',
    }
}

/// The token of a structural mark.
pub open spec fn mark(kind: PunctuationKind) -> TokenView {
    TokenView::Punctuation { raw: raw_of(kind), kind }
}

/// The token of a reserved word.
pub open spec fn keyword(word: Seq<char>) -> TokenView {
    TokenView::Terminal(word)
}

/// The token `+`.
pub open spec fn plus() -> TokenView {
    TokenView::Operations { raw: '+', kind: OperationKind::Plus }
}

/// The token `-`.
pub open spec fn minus() -> TokenView {
    TokenView::Operations { raw: '-', kind: OperationKind::Minus }
}

/// The token `*`.
pub open spec fn star() -> TokenView {
    TokenView::Operations { raw: '*', kind: OperationKind::Star }
}

/// The token `/`.
pub open spec fn slash() -> TokenView {
    TokenView::Operations { raw: '/', kind: OperationKind::Slash }
}

/// The error for a token that the grammar asks for and that is not there.
pub open spec fn missing(expected: Seq<char>, found: TokenView) -> ParseErrorView {
    ParseErrorView::MissingExpectedSymbol { expected, found }
}

/// Whether the token at `pos` is `want`. The end of the stream is never
/// accepted.
pub open spec fn accepts(ts: Seq<TokenView>, pos: nat, want: TokenView) -> bool {
    token_at(ts, pos) != TokenView::EOF && token_at(ts, pos) == want
}

/// The token `want` at `pos`, consumed; an error, with nothing consumed, if
/// another token stands there.
pub open spec fn expect(ts: Seq<TokenView>, pos: nat, want: TokenView, message: Seq<char>) -> Step<
    TokenView,
> {
    if accepts(ts, pos, want) {
        ok(token_at(ts, pos), 1)
    } else {
        fail(missing(message, token_at(ts, pos)), 0)
    }
}

/// The identifier at `pos`, consumed; an error, with nothing consumed, if
/// another token stands there.
pub open spec fn expect_identifier(ts: Seq<TokenView>, pos: nat, message: Seq<char>) -> Step<TokenView> {
    if token_at(ts, pos) is Identifier {
        ok(token_at(ts, pos), 1)
    } else {
        fail(missing(message, token_at(ts, pos)), 0)
    }
}

/// A step that succeeded goes on to consume the token `want`, which must
/// stand where the step ended. `pos` is where the step started.
pub open spec fn then_expect<T>(
    step: Step<T>,
    ts: Seq<TokenView>,
    pos: nat,
    want: TokenView,
    message: Seq<char>,
) -> Step<T> {
    match step.outcome {
        Err(_) => step,
        Ok(value) => if accepts(ts, pos + step.consumed, want) {
            ok(value, step.consumed + 1)
        } else {
            fail(missing(message, token_at(ts, pos + step.consumed)), step.consumed)
        },
    }
}

/// The levels of the infix operators, from the one that binds tightest.
#[derive(PartialEq, Eq, Clone, Copy, Structural)]
pub enum Level {
    Factor,
    Term,
    Comparison,
    Equality,
}

/// Whether `token` is an infix operator of `level`.
pub open spec fn is_operator(level: Level, token: TokenView) -> bool {
    match level {
        Level::Factor => token == star() || token == slash(),
        Level::Term => token == plus() || token == minus(),
        Level::Comparison => {
            ||| token == TokenView::Operator(OperatorKind::Greater)
            ||| token == TokenView::Operator(OperatorKind::GreaterEqual)
            ||| token == TokenView::Operator(OperatorKind::Less)
            ||| token == TokenView::Operator(OperatorKind::LessEqual)
        },
        Level::Equality => {
            ||| token == TokenView::Operator(OperatorKind::BangEqual)
            ||| token == TokenView::Operator(OperatorKind::EqualEqual)
        },
    }
}

/// The place of a level in the order of the rules; a rule only starts, at
/// its own position, rules that stand lower.
pub open spec fn rank_of(level: Level) -> int {
    match level {
        Level::Factor => 5,
        Level::Term => 8,
        Level::Comparison => 11,
        Level::Equality => 14,
    }
}

/// The literal `1`.
pub open spec fn one() -> ExprView {
    ExprView::Literal(LiteralView::Integer(1))
}

/// The literal for one of the reserved words `true`, `false` and `nil`.
pub open spec fn terminal(value: TerminalValue) -> ExprView {
    ExprView::Literal(LiteralView::Terminal(Terminal { value }))
}

/// The most arguments that a call, and the most parameters that a function,
/// may have.
pub open spec fn max_arity() -> nat {
    255
}

/// What `target = value` means: an assignment if the target is a variable,
/// the setting of a field if it is a field. Any other target stays as it is,
/// and the value is dropped.
pub open spec fn assign_to(target: ExprView, value: ExprView) -> ExprView {
    match target {
        ExprView::Variable(name) => ExprView::Assign { name, value: Box::new(value) },
        ExprView::Get { object, name } => ExprView::SetExpr { object, name, value: Box::new(value) },
        _ => target,
    }
}

/// What `target op= change` means: an update if the target is a variable.
/// Any other target stays as it is, and the change is dropped.
pub open spec fn update_of(target: ExprView, op: TokenView, change: ExprView) -> ExprView {
    match target {
        ExprView::Variable(name) => ExprView::Update { name, op, change: Box::new(change) },
        _ => target,
    }
}

/// `primary`: a literal, a name, `this`, `super.method` or an expression in
/// parentheses.
#[verifier::opaque]
pub open spec fn primary(ts: Seq<TokenView>, pos: nat) -> Step<ExprView>
    decreases remaining(ts, pos), 1int,
{
    let token = token_at(ts, pos);
    if token == keyword("true"@) {
        ok(terminal(TerminalValue::Boolean(true)), 1)
    } else if token == keyword("false"@) {
        ok(terminal(TerminalValue::Boolean(false)), 1)
    } else if token == keyword("nil"@) {
        ok(terminal(TerminalValue::Nil), 1)
    } else if token == keyword("this"@) {
        ok(ExprView::This { keyword: token }, 1)
    } else if token == keyword("super"@) {
        if !accepts(ts, pos + 1, mark(PunctuationKind::Dot)) {
            fail(missing("'.' after super"@, token_at(ts, pos + 1)), 1)
        } else {
            let method = expect_identifier(ts, pos + 2, "superclass method name"@);
            match method.outcome {
                Err(e) => fail(e, 2),
                Ok(name) => ok(ExprView::Super { keyword: token, method: name }, 3),
            }
        }
    } else {
        match token {
            TokenView::Identifier(_) => ok(ExprView::Variable(token), 1),
            TokenView::Numeric { raw, hint: NumericHint::Integer } => match integer_literal(raw) {
                Some(value) => ok(ExprView::Literal(LiteralView::Integer(value)), 1),
                None => fail(ParseErrorView::InvalidLiteral { found: token }, 1),
            },
            TokenView::Numeric { raw, hint: NumericHint::FloatingPoint } => ok(
                ExprView::Literal(LiteralView::FloatingPoint(raw)),
                1,
            ),
            TokenView::String(text) => ok(ExprView::Literal(LiteralView::String(text)), 1),
            _ => if token == mark(PunctuationKind::OpenParen) {
                let inner = expression(ts, pos + 1);
                match then_expect(inner, ts, pos + 1, mark(PunctuationKind::CloseParen), "')'"@).outcome {
                    Err(e) => fail(
                        e,
                        1 + then_expect(inner, ts, pos + 1, mark(PunctuationKind::CloseParen), "')'"@).consumed,
                    ),
                    Ok(e) => ok(ExprView::Grouping(Box::new(e)), 2 + inner.consumed),
                }
            } else {
                fail(ParseErrorView::InvalidExpression { found: token }, 0)
            },
        }
    }
}

/// The arguments of a call after the first, each after a comma. `args` holds
/// those before `pos`.
#[verifier::opaque]
pub open spec fn arguments_rest(ts: Seq<TokenView>, pos: nat, args: Seq<ExprView>) -> Step<Seq<ExprView>>
    decreases remaining(ts, pos), 0int,
{
    if accepts(ts, pos, mark(PunctuationKind::Comma)) {
        if args.len() >= max_arity() {
            fail(ParseErrorView::TooManyArguments, 1)
        } else {
            let next = expression(ts, pos + 1);
            match next.outcome {
                Err(e) => fail(e, 1 + next.consumed),
                Ok(e) => shift(1 + next.consumed, arguments_rest(ts, pos + 1 + next.consumed, args.push(e))),
            }
        }
    } else {
        ok(args, 0)
    }
}

/// The arguments of a call, without the parentheses around them.
#[verifier::opaque]
pub open spec fn arguments(ts: Seq<TokenView>, pos: nat) -> Step<Seq<ExprView>>
    decreases remaining(ts, pos), 18int,
{
    if accepts(ts, pos, mark(PunctuationKind::CloseParen)) {
        ok(Seq::empty(), 0)
    } else {
        let first = expression(ts, pos);
        match first.outcome {
            Err(e) => fail(e, first.consumed),
            Ok(e) => shift(first.consumed, arguments_rest(ts, pos + first.consumed, seq![e])),
        }
    }
}

/// The arguments of a call and its closing parenthesis; `pos` stands after
/// the opening one.
#[verifier::opaque]
pub open spec fn finish_call(ts: Seq<TokenView>, pos: nat, callee: ExprView) -> Step<ExprView>
    decreases remaining(ts, pos), 19int,
{
    let args = arguments(ts, pos);
    match args.outcome {
        Err(e) => fail(e, args.consumed),
        Ok(list) => {
            let close = expect(ts, pos + args.consumed, mark(PunctuationKind::CloseParen), "')' after arguments"@);
            match close.outcome {
                Err(e) => fail(e, args.consumed),
                Ok(paren) => ok(ExprView::Call { callee: Box::new(callee), paren, args: list }, args.consumed + 1),
            }
        },
    }
}

/// The calls and field accesses that follow an expression; `callee` is what
/// was built before `pos`.
#[verifier::opaque]
pub open spec fn call_rest(ts: Seq<TokenView>, pos: nat, callee: ExprView) -> Step<ExprView>
    decreases remaining(ts, pos), 0int,
{
    if accepts(ts, pos, mark(PunctuationKind::OpenParen)) {
        let call = finish_call(ts, pos + 1, callee);
        match call.outcome {
            Err(e) => fail(e, 1 + call.consumed),
            Ok(c) => shift(1 + call.consumed, call_rest(ts, pos + 1 + call.consumed, c)),
        }
    } else if accepts(ts, pos, mark(PunctuationKind::Dot)) {
        let name = expect_identifier(ts, pos + 1, "property name after '.'"@);
        match name.outcome {
            Err(e) => fail(e, 1),
            Ok(n) => shift(2, call_rest(ts, pos + 2, ExprView::Get { object: Box::new(callee), name: n })),
        }
    } else {
        ok(callee, 0)
    }
}

/// `call`: a primary expression and the calls and field accesses after it.
#[verifier::opaque]
pub open spec fn call(ts: Seq<TokenView>, pos: nat) -> Step<ExprView>
    decreases remaining(ts, pos), 2int,
{
    let callee = primary(ts, pos);
    match callee.outcome {
        Err(_) => callee,
        Ok(c) => shift(callee.consumed, call_rest(ts, pos + callee.consumed, c)),
    }
}

/// `unary`: any number of `!` and `-` before a call. The operators nest to
/// the right.
#[verifier::opaque]
pub open spec fn unary(ts: Seq<TokenView>, pos: nat) -> Step<ExprView>
    decreases remaining(ts, pos), 3int,
{
    if accepts(ts, pos, mark(PunctuationKind::Bang)) || accepts(ts, pos, minus()) {
        let right = unary(ts, pos + 1);
        match right.outcome {
            Err(e) => fail(e, 1 + right.consumed),
            Ok(r) => ok(ExprView::Unary { op: token_at(ts, pos), right: Box::new(r) }, 1 + right.consumed),
        }
    } else {
        call(ts, pos)
    }
}

/// An operand of an operator of `level`: an expression of the next tighter
/// level.
#[verifier::opaque]
pub open spec fn operand(ts: Seq<TokenView>, pos: nat, level: Level) -> Step<ExprView>
    decreases remaining(ts, pos), rank_of(level) - 1,
{
    match level {
        Level::Factor => unary(ts, pos),
        Level::Term => binary(ts, pos, Level::Factor),
        Level::Comparison => binary(ts, pos, Level::Term),
        Level::Equality => binary(ts, pos, Level::Comparison),
    }
}

/// The operators of `level` and their right operands that follow an
/// expression; `left` is what was built before `pos`. The operators nest to
/// the left.
#[verifier::opaque]
pub open spec fn binary_rest(ts: Seq<TokenView>, pos: nat, level: Level, left: ExprView) -> Step<ExprView>
    decreases remaining(ts, pos), 0int,
{
    if token_at(ts, pos) != TokenView::EOF && is_operator(level, token_at(ts, pos)) {
        let right = operand(ts, pos + 1, level);
        match right.outcome {
            Err(e) => fail(e, 1 + right.consumed),
            Ok(r) => shift(
                1 + right.consumed,
                binary_rest(
                    ts,
                    pos + 1 + right.consumed,
                    level,
                    ExprView::Binary { left: Box::new(left), op: token_at(ts, pos), right: Box::new(r) },
                ),
            ),
        }
    } else {
        ok(left, 0)
    }
}

/// `equality`, `comparison`, `term` and `factor`: operands of `level` with
/// operators of `level` between them.
#[verifier::opaque]
pub open spec fn binary(ts: Seq<TokenView>, pos: nat, level: Level) -> Step<ExprView>
    decreases remaining(ts, pos), rank_of(level),
{
    let left = operand(ts, pos, level);
    match left.outcome {
        Err(_) => left,
        Ok(l) => shift(left.consumed, binary_rest(ts, pos + left.consumed, level, l)),
    }
}

/// `assignment`: an equality, and after `=`, `+=` or `-=` the assigned
/// value, which is an assignment itself.
#[verifier::opaque]
pub open spec fn assignment(ts: Seq<TokenView>, pos: nat) -> Step<ExprView>
    decreases remaining(ts, pos), 16int,
{
    let target = binary(ts, pos, Level::Equality);
    match target.outcome {
        Err(_) => target,
        Ok(t) => {
            let at = pos + target.consumed;
            if accepts(ts, at, mark(PunctuationKind::Equal)) {
                let value = assignment(ts, at + 1);
                match value.outcome {
                    Err(e) => fail(e, target.consumed + 1 + value.consumed),
                    Ok(v) => ok(assign_to(t, v), target.consumed + 1 + value.consumed),
                }
            } else if accepts(ts, at, TokenView::Operator(OperatorKind::PlusEqual)) {
                let value = assignment(ts, at + 1);
                match value.outcome {
                    Err(e) => fail(e, target.consumed + 1 + value.consumed),
                    Ok(v) => ok(update_of(t, plus(), v), target.consumed + 1 + value.consumed),
                }
            } else if accepts(ts, at, TokenView::Operator(OperatorKind::MinusEqual)) {
                let value = assignment(ts, at + 1);
                match value.outcome {
                    Err(e) => fail(e, target.consumed + 1 + value.consumed),
                    Ok(v) => ok(update_of(t, minus(), v), target.consumed + 1 + value.consumed),
                }
            } else {
                target
            }
        },
    }
}

/// Whether `++` or `--` stands after the token at `pos`.
pub open spec fn step_follows(ts: Seq<TokenView>, pos: nat) -> bool {
    token_at(ts, pos + 1) == TokenView::Operator(OperatorKind::Increment) || token_at(ts, pos + 1)
        == TokenView::Operator(OperatorKind::Decrement)
}

/// `expr`: an identifier with `++` or `--` after it, which is an update by
/// one, or an assignment.
#[verifier::opaque]
pub open spec fn expression(ts: Seq<TokenView>, pos: nat) -> Step<ExprView>
    decreases remaining(ts, pos), 17int,
{
    if step_follows(ts, pos) {
        let name = expect_identifier(ts, pos, "identifier"@);
        match name.outcome {
            Err(e) => fail(e, 0),
            Ok(n) => ok(
                ExprView::Update {
                    name: n,
                    op: if token_at(ts, pos + 1) == TokenView::Operator(OperatorKind::Increment) {
                        plus()
                    } else {
                        minus()
                    },
                    change: Box::new(one()),
                },
                2,
            ),
        }
    } else {
        assignment(ts, pos)
    }
}

/// An expression and the `;` after it.
#[verifier::opaque]
pub open spec fn terminated_expression(ts: Seq<TokenView>, pos: nat, message: Seq<char>) -> Step<ExprView>
    decreases remaining(ts, pos), 18int,
{
    then_expect(expression(ts, pos), ts, pos, mark(PunctuationKind::Separator), message)
}

/// An expression as a statement.
#[verifier::opaque]
pub open spec fn expression_statement(ts: Seq<TokenView>, pos: nat) -> Step<StmtView>
    decreases remaining(ts, pos), 19int,
{
    let e = terminated_expression(ts, pos, "';' after expression"@);
    match e.outcome {
        Err(error) => fail(error, e.consumed),
        Ok(value) => ok(StmtView::Expression(value), e.consumed),
    }
}

/// What follows `print`.
#[verifier::opaque]
pub open spec fn print_statement(ts: Seq<TokenView>, pos: nat) -> Step<StmtView>
    decreases remaining(ts, pos), 19int,
{
    let e = terminated_expression(ts, pos, "';' after value"@);
    match e.outcome {
        Err(error) => fail(error, e.consumed),
        Ok(value) => ok(StmtView::Print(value), e.consumed),
    }
}

/// What follows `return`, which is the token `keyword`: an optional value
/// and `;`.
#[verifier::opaque]
pub open spec fn return_statement(ts: Seq<TokenView>, pos: nat, keyword: TokenView) -> Step<StmtView>
    decreases remaining(ts, pos), 19int,
{
    if accepts(ts, pos, mark(PunctuationKind::Separator)) {
        ok(StmtView::Return { keyword, value: None }, 1)
    } else {
        let e = terminated_expression(ts, pos, "';' after return value"@);
        match e.outcome {
            Err(error) => fail(error, e.consumed),
            Ok(value) => ok(StmtView::Return { keyword, value: Some(value) }, e.consumed),
        }
    }
}

/// What follows `let`: a name, `=`, the initial value and `;`.
#[verifier::opaque]
pub open spec fn let_declaration(ts: Seq<TokenView>, pos: nat) -> Step<StmtView>
    decreases remaining(ts, pos), 19int,
{
    let name = expect_identifier(ts, pos, "variable name after let"@);
    match name.outcome {
        Err(e) => fail(e, 0),
        Ok(token) => if accepts(ts, pos + 1, mark(PunctuationKind::Equal)) {
            let e = terminated_expression(ts, pos + 2, "';' after expression"@);
            match e.outcome {
                Err(error) => fail(error, 2 + e.consumed),
                Ok(initializer) => ok(StmtView::Let { token, initializer }, 2 + e.consumed),
            }
        } else {
            fail(missing("'=' after variable name"@, token_at(ts, pos + 1)), 1)
        },
    }
}

/// A condition in parentheses and the statement that it governs: what
/// follows `if` and `while`. `after_open` and `after_close` describe the
/// parentheses in errors.
#[verifier::opaque]
pub open spec fn governed(ts: Seq<TokenView>, pos: nat, after_open: Seq<char>, after_close: Seq<char>) -> Step<
    (ExprView, StmtView),
>
    decreases remaining(ts, pos), 18int,
{
    if !accepts(ts, pos, mark(PunctuationKind::OpenParen)) {
        fail(missing(after_open, token_at(ts, pos)), 0)
    } else {
        let condition = then_expect(
            expression(ts, pos + 1),
            ts,
            pos + 1,
            mark(PunctuationKind::CloseParen),
            after_close,
        );
        match condition.outcome {
            Err(e) => fail(e, 1 + condition.consumed),
            Ok(c) => {
                let body = statement(ts, pos + 1 + condition.consumed);
                match body.outcome {
                    Err(e) => fail(e, 1 + condition.consumed + body.consumed),
                    Ok(b) => ok((c, b), 1 + condition.consumed + body.consumed),
                }
            },
        }
    }
}

/// What follows `if`.
#[verifier::opaque]
pub open spec fn if_statement(ts: Seq<TokenView>, pos: nat) -> Step<StmtView>
    decreases remaining(ts, pos), 19int,
{
    let parts = governed(ts, pos, "'(' after if"@, "')' after condition"@);
    match parts.outcome {
        Err(e) => fail(e, parts.consumed),
        Ok(p) => ok(StmtView::If { condition: p.0, branch: Box::new(p.1) }, parts.consumed),
    }
}

/// What follows `while`.
#[verifier::opaque]
pub open spec fn while_statement(ts: Seq<TokenView>, pos: nat) -> Step<StmtView>
    decreases remaining(ts, pos), 19int,
{
    let parts = governed(ts, pos, "'(' after while"@, "')' after condition"@);
    match parts.outcome {
        Err(e) => fail(e, parts.consumed),
        Ok(p) => ok(StmtView::While { condition: p.0, body: Box::new(p.1) }, parts.consumed),
    }
}

/// The loop that `for (init cond; step) body` stands for:
/// `{ init while (cond) { body step; } }`.
pub open spec fn for_loop(init: StmtView, condition: ExprView, step: ExprView, body: StmtView) -> StmtView {
    StmtView::Block {
        statements: seq![
            init,
            StmtView::While {
                condition,
                body: Box::new(StmtView::Block { statements: seq![body, StmtView::Expression(step)] }),
            },
        ],
    }
}

/// What follows `for`: in parentheses an initializer, which is a `let` or an
/// expression statement, a condition, `;` and a step; then the body.
#[verifier::opaque]
pub open spec fn for_statement(ts: Seq<TokenView>, pos: nat) -> Step<StmtView>
    decreases remaining(ts, pos), 19int,
{
    if !accepts(ts, pos, mark(PunctuationKind::OpenParen)) {
        fail(missing("'(' after for"@, token_at(ts, pos)), 0)
    } else {
        let init = if accepts(ts, pos + 1, keyword("let"@)) {
            shift(2, let_declaration(ts, pos + 2))
        } else {
            shift(1, expression_statement(ts, pos + 1))
        };
        match init.outcome {
            Err(e) => fail(e, init.consumed),
            Ok(i) => {
                let condition = shift(
                    init.consumed,
                    terminated_expression(ts, pos + init.consumed, "';' after loop condition"@),
                );
                match condition.outcome {
                    Err(e) => fail(e, condition.consumed),
                    Ok(c) => {
                        let step = shift(
                            condition.consumed,
                            then_expect(
                                expression(ts, pos + condition.consumed),
                                ts,
                                pos + condition.consumed,
                                mark(PunctuationKind::CloseParen),
                                "')' after for clauses"@,
                            ),
                        );
                        match step.outcome {
                            Err(e) => fail(e, step.consumed),
                            Ok(s) => {
                                let body = shift(step.consumed, statement(ts, pos + step.consumed));
                                match body.outcome {
                                    Err(e) => fail(e, body.consumed),
                                    Ok(b) => ok(for_loop(i, c, s, b), body.consumed),
                                }
                            },
                        }
                    },
                }
            },
        }
    }
}

/// The declarations of a block up to its closing brace or the end of the
/// stream; `items` holds those before `pos`.
///
/// A declaration consumes at least one token
/// ([`lemma_declaration_consumes`]), so the block always goes on after it.
#[verifier::opaque]
pub open spec fn block_items(ts: Seq<TokenView>, pos: nat, items: Seq<StmtView>) -> Step<Seq<StmtView>>
    decreases remaining(ts, pos), 22int,
{
    if token_at(ts, pos) == TokenView::EOF || token_at(ts, pos) == mark(PunctuationKind::CloseCurly) {
        ok(items, 0)
    } else {
        let item = declaration(ts, pos);
        match item.outcome {
            Err(e) => fail(e, item.consumed),
            Ok(s) => if item.consumed > 0 {
                shift(item.consumed, block_items(ts, pos + item.consumed, items.push(s)))
            } else {
                ok(items.push(s), 0)
            },
        }
    }
}

/// What follows `{`: declarations and the closing brace.
#[verifier::opaque]
pub open spec fn block(ts: Seq<TokenView>, pos: nat) -> Step<Seq<StmtView>>
    decreases remaining(ts, pos), 23int,
{
    then_expect(
        block_items(ts, pos, Seq::empty()),
        ts,
        pos,
        mark(PunctuationKind::CloseCurly),
        "'}' after block"@,
    )
}

/// The parameters of a function after the first, each after a comma.
/// `params` holds those before `pos`.
pub open spec fn parameters_rest(ts: Seq<TokenView>, pos: nat, params: Seq<TokenView>) -> Step<Seq<TokenView>>
    decreases remaining(ts, pos),
{
    if accepts(ts, pos, mark(PunctuationKind::Comma)) {
        if params.len() >= max_arity() {
            fail(ParseErrorView::TooManyParameters, 1)
        } else {
            let name = expect_identifier(ts, pos + 1, "parameter after ','"@);
            match name.outcome {
                Err(e) => fail(e, 1),
                Ok(n) => shift(2, parameters_rest(ts, pos + 2, params.push(n))),
            }
        }
    } else {
        ok(params, 0)
    }
}

/// The parameters of a function, without the parentheses around them.
pub open spec fn parameters(ts: Seq<TokenView>, pos: nat) -> Step<Seq<TokenView>> {
    if accepts(ts, pos, mark(PunctuationKind::CloseParen)) {
        ok(Seq::empty(), 0)
    } else {
        let first = expect_identifier(ts, pos, "parameter after '('"@);
        match first.outcome {
            Err(e) => fail(e, 0),
            Ok(n) => shift(1, parameters_rest(ts, pos + 1, seq![n])),
        }
    }
}

/// A name, `(`, the parameters and `)`: the head of a function.
pub open spec fn function_head(ts: Seq<TokenView>, pos: nat) -> Step<(TokenView, Seq<TokenView>)> {
    let name = expect_identifier(ts, pos, "function name after def"@);
    match name.outcome {
        Err(e) => fail(e, 0),
        Ok(n) => if !accepts(ts, pos + 1, mark(PunctuationKind::OpenParen)) {
            fail(missing("'(' after function name"@, token_at(ts, pos + 1)), 1)
        } else {
            let params = then_expect(
                parameters(ts, pos + 2),
                ts,
                pos + 2,
                mark(PunctuationKind::CloseParen),
                "')' after parameters"@,
            );
            match params.outcome {
                Err(e) => fail(e, 2 + params.consumed),
                Ok(p) => ok((n, p), 2 + params.consumed),
            }
        },
    }
}

/// Whether a function stands by itself or in a class.
#[derive(Debug, PartialEq, Eq, Clone, Copy, Structural)]
pub enum FunctionKind {
    Function,
    Method,
}

/// How the opening brace of a body is described in errors.
pub open spec fn body_message(kind: FunctionKind) -> Seq<char> {
    match kind {
        FunctionKind::Function => "'{' before function body"@,
        FunctionKind::Method => "'{' before method body"@,
    }
}

/// What follows `def`: the head of a function and its body, a block.
#[verifier::opaque]
pub open spec fn function_statement(ts: Seq<TokenView>, pos: nat, kind: FunctionKind) -> Step<StmtView>
    decreases remaining(ts, pos), 24int,
{
    let head = then_expect(function_head(ts, pos), ts, pos, mark(PunctuationKind::OpenCurly), body_message(kind));
    match head.outcome {
        Err(e) => fail(e, head.consumed),
        Ok(h) => {
            let body = block(ts, pos + head.consumed);
            match body.outcome {
                Err(e) => fail(e, head.consumed + body.consumed),
                Ok(b) => ok(StmtView::Function { name: h.0, params: h.1, body: b }, head.consumed + body.consumed),
            }
        },
    }
}

/// The methods of a class up to its closing brace or the end of the stream,
/// each after `def`; `methods` holds those before `pos`.
#[verifier::opaque]
pub open spec fn class_methods(ts: Seq<TokenView>, pos: nat, methods: Seq<StmtView>) -> Step<Seq<StmtView>>
    decreases remaining(ts, pos), 25int,
{
    if token_at(ts, pos) == TokenView::EOF || token_at(ts, pos) == mark(PunctuationKind::CloseCurly) {
        ok(methods, 0)
    } else if !accepts(ts, pos, keyword("def"@)) {
        fail(missing("'def' before method"@, token_at(ts, pos)), 0)
    } else {
        let method = function_statement(ts, pos + 1, FunctionKind::Method);
        match method.outcome {
            Err(e) => fail(e, 1 + method.consumed),
            Ok(m) => shift(1 + method.consumed, class_methods(ts, pos + 1 + method.consumed, methods.push(m))),
        }
    }
}

/// A name and an optional `extends` with the name of the superclass, which
/// becomes a variable: the head of a class.
pub open spec fn class_head(ts: Seq<TokenView>, pos: nat) -> Step<(TokenView, Option<ExprView>)> {
    let name = expect_identifier(ts, pos, "class name"@);
    match name.outcome {
        Err(e) => fail(e, 0),
        Ok(n) => if accepts(ts, pos + 1, keyword("extends"@)) {
            let parent = expect_identifier(ts, pos + 2, "superclass name"@);
            match parent.outcome {
                Err(e) => fail(e, 2),
                Ok(p) => ok((n, Some(ExprView::Variable(p))), 3),
            }
        } else {
            ok((n, None), 1)
        },
    }
}

/// What follows `class`: the head of a class and, in braces, its methods.
#[verifier::opaque]
pub open spec fn class_statement(ts: Seq<TokenView>, pos: nat) -> Step<StmtView>
    decreases remaining(ts, pos), 26int,
{
    let head = then_expect(class_head(ts, pos), ts, pos, mark(PunctuationKind::OpenCurly), "'{' after class name"@);
    match head.outcome {
        Err(e) => fail(e, head.consumed),
        Ok(h) => {
            let methods = shift(
                head.consumed,
                then_expect(
                    class_methods(ts, pos + head.consumed, Seq::empty()),
                    ts,
                    pos + head.consumed,
                    mark(PunctuationKind::CloseCurly),
                    "'}' after class body"@,
                ),
            );
            match methods.outcome {
                Err(e) => fail(e, methods.consumed),
                Ok(m) => ok(StmtView::Class { name: h.0, super_class: h.1, methods: m }, methods.consumed),
            }
        },
    }
}

/// `statement`.
#[verifier::opaque]
pub open spec fn statement(ts: Seq<TokenView>, pos: nat) -> Step<StmtView>
    decreases remaining(ts, pos), 20int,
{
    if accepts(ts, pos, keyword("print"@)) {
        shift(1, print_statement(ts, pos + 1))
    } else if accepts(ts, pos, keyword("if"@)) {
        shift(1, if_statement(ts, pos + 1))
    } else if accepts(ts, pos, keyword("while"@)) {
        shift(1, while_statement(ts, pos + 1))
    } else if accepts(ts, pos, keyword("for"@)) {
        shift(1, for_statement(ts, pos + 1))
    } else if accepts(ts, pos, keyword("return"@)) {
        shift(1, return_statement(ts, pos + 1, token_at(ts, pos)))
    } else if accepts(ts, pos, mark(PunctuationKind::OpenCurly)) {
        let body = block(ts, pos + 1);
        match body.outcome {
            Err(e) => fail(e, 1 + body.consumed),
            Ok(statements) => ok(StmtView::Block { statements }, 1 + body.consumed),
        }
    } else {
        expression_statement(ts, pos)
    }
}

/// `declaration`.
#[verifier::opaque]
pub open spec fn declaration(ts: Seq<TokenView>, pos: nat) -> Step<StmtView>
    decreases remaining(ts, pos), 21int,
{
    if accepts(ts, pos, keyword("let"@)) {
        shift(1, let_declaration(ts, pos + 1))
    } else if accepts(ts, pos, keyword("def"@)) {
        shift(1, function_statement(ts, pos + 1, FunctionKind::Function))
    } else if accepts(ts, pos, keyword("class"@)) {
        shift(1, class_statement(ts, pos + 1))
    } else {
        statement(ts, pos)
    }
}

/// Every declaration consumes at least one token.
pub proof fn lemma_declaration_consumes(ts: Seq<TokenView>, pos: nat)
    ensures
        declaration(ts, pos).outcome is Ok ==> declaration(ts, pos).consumed > 0,
{
    reveal_with_fuel(declaration, 1);
    reveal_with_fuel(statement, 1);
    reveal_with_fuel(expression_statement, 1);
    reveal_with_fuel(terminated_expression, 1);
}

/// Whether a statement may start with `token`, so that the parser can take
/// up its work there after an error.
pub open spec fn starts_statement(token: TokenView) -> bool {
    ||| token == keyword("class"@)
    ||| token == keyword("def"@)
    ||| token == keyword("let"@)
    ||| token == keyword("for"@)
    ||| token == keyword("if"@)
    ||| token == keyword("while"@)
    ||| token == keyword("print"@)
    ||| token == keyword("return"@)
}

/// The first boundary between statements at or after `pos`: a position just
/// after a `;`, one that holds a token that starts a statement, or the end of
/// the stream.
pub open spec fn boundary_from(ts: Seq<TokenView>, pos: nat) -> nat
    decreases remaining(ts, pos),
{
    if token_at(ts, pos) == TokenView::EOF {
        pos
    } else if pos > 0 && token_at(ts, (pos - 1) as nat) == mark(PunctuationKind::Separator) {
        pos
    } else if starts_statement(token_at(ts, pos)) {
        pos
    } else {
        boundary_from(ts, pos + 1)
    }
}

/// Where parsing goes on after an error at `pos`: the token at `pos` is
/// given up, and what follows is skipped up to the next boundary between
/// statements.
pub open spec fn synchronize(ts: Seq<TokenView>, pos: nat) -> nat {
    if token_at(ts, pos) == TokenView::EOF {
        pos
    } else {
        boundary_from(ts, pos + 1)
    }
}

/// A boundary is looked for forwards.
pub proof fn lemma_boundary_from(ts: Seq<TokenView>, pos: nat)
    ensures
        boundary_from(ts, pos) >= pos,
        pos <= ts.len() ==> boundary_from(ts, pos) <= ts.len(),
    decreases remaining(ts, pos),
{
    if token_at(ts, pos) == TokenView::EOF {
    } else if pos > 0 && token_at(ts, (pos - 1) as nat) == mark(PunctuationKind::Separator) {
    } else if starts_statement(token_at(ts, pos)) {
    } else {
        lemma_boundary_from(ts, pos + 1);
    }
}

/// The statements and the errors that parsing a token sequence to its end
/// gives.
pub struct Parsed {
    pub statements: Seq<StmtView>,
    pub errors: Seq<ParseErrorView>,
}

/// `program`: the declarations from `pos` to the end of the stream.
///
/// A declaration that fails leaves its error and no statement, and parsing
/// goes on at the next boundary between statements.
pub open spec fn program(ts: Seq<TokenView>, pos: nat) -> Parsed
    decreases remaining(ts, pos),
{
    if token_at(ts, pos) == TokenView::EOF {
        Parsed { statements: Seq::empty(), errors: Seq::empty() }
    } else {
        let item = declaration(ts, pos);
        proof {
            lemma_declaration_consumes(ts, pos);
            lemma_boundary_from(ts, pos + item.consumed + 1);
        }
        match item.outcome {
            Ok(statement) => {
                let rest = program(ts, pos + item.consumed);
                Parsed { statements: seq![statement] + rest.statements, errors: rest.errors }
            },
            Err(error) => {
                let rest = program(ts, synchronize(ts, pos + item.consumed));
                Parsed { statements: rest.statements, errors: seq![error] + rest.errors }
            },
        }
    }
}

/// What parsing a whole token sequence gives: the statements if every
/// declaration was parsed, and all the errors if not.
pub open spec fn parse_result(parsed: Parsed) -> Result<Seq<StmtView>, Seq<ParseErrorView>> {
    if parsed.errors.len() == 0 {
        Ok(parsed.statements)
    } else {
        Err(parsed.errors)
    }
}

} // verus!
