//! The syntax tree of a small language of integer expressions.

use vstd::prelude::*;

verus! {

/// A statement.
pub enum Stmt {
    /// An expression, for its value.
    Expr(Expr),
    /// A binding of a name to the value of an expression.
    Let(Name, Expr),
}

/// The name of a binding.
pub struct Name {
    value: String,
}

/// An expression.
pub enum Expr {
    /// An integer literal.
    IntLit(i64),
    /// The sum of two expressions.
    Add(Box<Expr>, Box<Expr>),
    /// The first expression less the second.
    Sub(Box<Expr>, Box<Expr>),
}

} // verus!
