//! Tokens to statements.

pub mod error;
pub mod expr;
pub mod grammar;
pub mod number;
pub mod parser;
pub mod stmt;

pub use error::{ParseError, ParseErrorView};
pub use expr::{
    AssignExpr, BinaryExpr, CallExpr, Expr, ExprView, Get, Grouping, Literal, LiteralView, Program, SetExpr,
    Super, Terminal, TerminalValue, This, UnaryExpr, UpdateExpr,
};
pub use self::parser::Parser;
pub use stmt::{Stmt, StmtView};
