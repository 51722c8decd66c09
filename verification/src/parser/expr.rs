//! Expressions.

use crate::lexer::token::{TokenType, TokenView};
use vstd::prelude::*;

verus! {

/// The value of one of the literal reserved words.
#[derive(Debug, PartialEq, Eq, Clone, Copy, Structural)]
pub enum TerminalValue {
    Boolean(bool),
    Nil,
}

/// A literal written as a reserved word: `true`, `false` or `nil`.
#[derive(Debug, PartialEq, Eq, Clone, Copy, Structural)]
pub struct Terminal {
    pub value: TerminalValue,
}

/// A literal value.
#[derive(Debug, PartialEq)]
pub enum Literal {
    Integer(i32),
    /// The text of a literal with a fractional part, as it was read.
    FloatingPoint(String),
    String(String),
    Boolean(bool),
    Terminal(Terminal),
}

/// An expression in parentheses.
#[derive(Debug, PartialEq)]
pub struct Grouping {
    pub expr: Box<Expr>,
}

/// A prefix operator and its operand.
#[derive(Debug, PartialEq)]
pub struct UnaryExpr {
    pub op: TokenType,
    pub right: Box<Expr>,
}

/// An infix operator and its two operands.
#[derive(Debug, PartialEq)]
pub struct BinaryExpr {
    pub left: Box<Expr>,
    pub op: TokenType,
    pub right: Box<Expr>,
}

/// An assignment to a variable.
#[derive(Debug, PartialEq)]
pub struct AssignExpr {
    pub name: TokenType,
    pub value: Box<Expr>,
}

/// A compound assignment to a variable: `op` is applied to the variable and
/// `change`, and the result is stored in the variable.
#[derive(Debug, PartialEq)]
pub struct UpdateExpr {
    pub name: TokenType,
    pub op: TokenType,
    pub change: Box<Expr>,
}

/// A call; `paren` is the closing parenthesis.
#[derive(Debug, PartialEq)]
pub struct CallExpr {
    pub callee: Box<Expr>,
    pub paren: TokenType,
    pub args: Vec<Expr>,
}

/// A read of a field.
#[derive(Debug, PartialEq)]
pub struct Get {
    pub object: Box<Expr>,
    pub name: TokenType,
}

/// An assignment to a field.
#[derive(Debug, PartialEq)]
pub struct SetExpr {
    pub object: Box<Expr>,
    pub name: TokenType,
    pub value: Box<Expr>,
}

/// The reserved word `this`.
#[derive(Debug, PartialEq)]
pub struct This {
    pub keyword: TokenType,
}

/// A reference to a method of the superclass.
#[derive(Debug, PartialEq)]
pub struct Super {
    pub keyword: TokenType,
    pub method: TokenType,
}

/// An expression. Each node owns its children.
#[derive(Debug, PartialEq)]
pub enum Expr {
    BinaryExpr(BinaryExpr),
    UnaryExpr(UnaryExpr),
    Grouping(Grouping),
    Literal(Literal),
    Variable(TokenType),
    Assign(AssignExpr),
    Update(UpdateExpr),
    Call(CallExpr),
    Get(Get),
    SetExpr(SetExpr),
    This(This),
    Super(Super),
}

/// A program that is a single expression.
#[derive(Debug, PartialEq)]
pub struct Program {
    pub expr: Expr,
}

/// What a literal is, with texts as sequences of characters.
pub enum LiteralView {
    Integer(int),
    FloatingPoint(Seq<char>),
    String(Seq<char>),
    Boolean(bool),
    Terminal(Terminal),
}

/// What an expression is: the tree, with tokens by their views.
#[allow(inconsistent_fields)]
pub enum ExprView {
    Binary { left: Box<ExprView>, op: TokenView, right: Box<ExprView> },
    Unary { op: TokenView, right: Box<ExprView> },
    Grouping(Box<ExprView>),
    Literal(LiteralView),
    Variable(TokenView),
    Assign { name: TokenView, value: Box<ExprView> },
    Update { name: TokenView, op: TokenView, change: Box<ExprView> },
    Call { callee: Box<ExprView>, paren: TokenView, args: Seq<ExprView> },
    Get { object: Box<ExprView>, name: TokenView },
    SetExpr { object: Box<ExprView>, name: TokenView, value: Box<ExprView> },
    This { keyword: TokenView },
    Super { keyword: TokenView, method: TokenView },
}

impl View for Literal {
    type V = LiteralView;

    open spec fn view(&self) -> LiteralView {
        match self {
            Literal::Integer(value) => LiteralView::Integer(*value as int),
            Literal::FloatingPoint(raw) => LiteralView::FloatingPoint(raw@),
            Literal::String(text) => LiteralView::String(text@),
            Literal::Boolean(value) => LiteralView::Boolean(*value),
            Literal::Terminal(terminal) => LiteralView::Terminal(*terminal),
        }
    }
}

impl Expr {
    /// The tree that this expression is.
    pub open spec fn model(self) -> ExprView
        decreases self,
    {
        match self {
            Expr::BinaryExpr(e) => ExprView::Binary {
                left: Box::new(e.left.model()),
                op: e.op@,
                right: Box::new(e.right.model()),
            },
            Expr::UnaryExpr(e) => ExprView::Unary { op: e.op@, right: Box::new(e.right.model()) },
            Expr::Grouping(e) => ExprView::Grouping(Box::new(e.expr.model())),
            Expr::Literal(literal) => ExprView::Literal(literal@),
            Expr::Variable(name) => ExprView::Variable(name@),
            Expr::Assign(e) => ExprView::Assign { name: e.name@, value: Box::new(e.value.model()) },
            Expr::Update(e) => ExprView::Update {
                name: e.name@,
                op: e.op@,
                change: Box::new(e.change.model()),
            },
            Expr::Call(e) => ExprView::Call {
                callee: Box::new(e.callee.model()),
                paren: e.paren@,
                args: Seq::new(
                    e.args.len() as nat,
                    |i: int|
                        if 0 <= i < e.args.len() {
                            e.args[i].model()
                        } else {
                            ExprView::Literal(LiteralView::Boolean(false))
                        },
                ),
            },
            Expr::Get(e) => ExprView::Get { object: Box::new(e.object.model()), name: e.name@ },
            Expr::SetExpr(e) => ExprView::SetExpr {
                object: Box::new(e.object.model()),
                name: e.name@,
                value: Box::new(e.value.model()),
            },
            Expr::This(e) => ExprView::This { keyword: e.keyword@ },
            Expr::Super(e) => ExprView::Super { keyword: e.keyword@, method: e.method@ },
        }
    }
}

impl View for Expr {
    type V = ExprView;

    open spec fn view(&self) -> ExprView {
        self.model()
    }
}

/// The views of a sequence of expressions, in order.
pub open spec fn expr_views(exprs: Seq<Expr>) -> Seq<ExprView> {
    Seq::new(exprs.len(), |i: int| exprs[i]@)
}

/// The arguments of a call are seen as the views of the expressions that
/// stand for them.
pub proof fn lemma_call_view(e: CallExpr)
    ensures
        Expr::Call(e)@ == (ExprView::Call {
            callee: Box::new(e.callee@),
            paren: e.paren@,
            args: expr_views(e.args@),
        }),
{
    assert(Expr::Call(e)@->Call_args =~= expr_views(e.args@));
}

} // verus!
