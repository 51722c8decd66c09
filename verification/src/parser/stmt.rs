//! Statements.

use super::expr::{Expr, ExprView};
use crate::lexer::token::{token_views, TokenType, TokenView};
use vstd::prelude::*;

verus! {

/// A statement. Each node owns its children.
#[derive(Debug, PartialEq)]
#[allow(inconsistent_fields)]
pub enum Stmt {
    Block { statements: Vec<Stmt> },
    Expression(Expr),
    Print(Expr),
    Let { token: TokenType, initializer: Expr },
    /// A conditional; there is no `else` branch in the language.
    If { condition: Expr, branch: Box<Stmt> },
    While { condition: Expr, body: Box<Stmt> },
    Function { name: TokenType, params: Vec<TokenType>, body: Vec<Stmt> },
    Return { keyword: TokenType, value: Option<Expr> },
    /// A class; `super_class`, if there is one, is a variable that names it.
    Class { name: TokenType, super_class: Option<Expr>, methods: Vec<Stmt> },
}

/// What a statement is: the tree, with tokens and expressions by their
/// views.
#[allow(inconsistent_fields)]
pub enum StmtView {
    Block { statements: Seq<StmtView> },
    Expression(ExprView),
    Print(ExprView),
    Let { token: TokenView, initializer: ExprView },
    If { condition: ExprView, branch: Box<StmtView> },
    While { condition: ExprView, body: Box<StmtView> },
    Function { name: TokenView, params: Seq<TokenView>, body: Seq<StmtView> },
    Return { keyword: TokenView, value: Option<ExprView> },
    Class { name: TokenView, super_class: Option<ExprView>, methods: Seq<StmtView> },
}

/// The view of an expression that may be absent.
pub open spec fn optional_view(e: Option<Expr>) -> Option<ExprView> {
    match e {
        Some(e) => Some(e@),
        None => None,
    }
}

impl Stmt {
    /// The tree that this statement is.
    pub open spec fn model(self) -> StmtView
        decreases self,
    {
        match self {
            Stmt::Block { statements } => StmtView::Block {
                statements: Seq::new(
                    statements.len() as nat,
                    |i: int|
                        if 0 <= i < statements.len() {
                            statements[i].model()
                        } else {
                            StmtView::Block { statements: Seq::empty() }
                        },
                ),
            },
            Stmt::Expression(e) => StmtView::Expression(e@),
            Stmt::Print(e) => StmtView::Print(e@),
            Stmt::Let { token, initializer } => StmtView::Let { token: token@, initializer: initializer@ },
            Stmt::If { condition, branch } => StmtView::If {
                condition: condition@,
                branch: Box::new(branch.model()),
            },
            Stmt::While { condition, body } => StmtView::While { condition: condition@, body: Box::new(body.model()) },
            Stmt::Function { name, params, body } => StmtView::Function {
                name: name@,
                params: token_views(params@),
                body: Seq::new(
                    body.len() as nat,
                    |i: int|
                        if 0 <= i < body.len() {
                            body[i].model()
                        } else {
                            StmtView::Block { statements: Seq::empty() }
                        },
                ),
            },
            Stmt::Return { keyword, value } => StmtView::Return { keyword: keyword@, value: optional_view(value) },
            Stmt::Class { name, super_class, methods } => StmtView::Class {
                name: name@,
                super_class: optional_view(super_class),
                methods: Seq::new(
                    methods.len() as nat,
                    |i: int|
                        if 0 <= i < methods.len() {
                            methods[i].model()
                        } else {
                            StmtView::Block { statements: Seq::empty() }
                        },
                ),
            },
        }
    }
}

impl View for Stmt {
    type V = StmtView;

    open spec fn view(&self) -> StmtView {
        self.model()
    }
}

/// The views of a sequence of statements, in order.
pub open spec fn stmt_views(stmts: Seq<Stmt>) -> Seq<StmtView> {
    Seq::new(stmts.len(), |i: int| stmts[i]@)
}

/// The statements of a block are seen as their views.
pub proof fn lemma_block_view(statements: Vec<Stmt>)
    ensures
        (Stmt::Block { statements })@ == (StmtView::Block { statements: stmt_views(statements@) }),
{
    assert((Stmt::Block { statements })@->Block_statements =~= stmt_views(statements@));
}

/// The parameters and the body of a function are seen as their views.
pub proof fn lemma_function_view(name: TokenType, params: Vec<TokenType>, body: Vec<Stmt>)
    ensures
        (Stmt::Function { name, params, body })@ == (StmtView::Function {
            name: name@,
            params: token_views(params@),
            body: stmt_views(body@),
        }),
{
    assert((Stmt::Function { name, params, body })@->Function_body =~= stmt_views(body@));
}

/// The methods of a class are seen as their views.
pub proof fn lemma_class_view(name: TokenType, super_class: Option<Expr>, methods: Vec<Stmt>)
    ensures
        (Stmt::Class { name, super_class, methods })@ == (StmtView::Class {
            name: name@,
            super_class: optional_view(super_class),
            methods: stmt_views(methods@),
        }),
{
    assert((Stmt::Class { name, super_class, methods })@->Class_methods =~= stmt_views(methods@));
}

} // verus!
