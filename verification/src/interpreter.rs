//! Evaluating expressions by walking their tree.

use vstd::prelude::*;
use crate::ast::{Expr, Name, Stmt};
use crate::visit::Visitor;

verus! {

/// The value of `e` over the integers.
pub open spec fn value_of(e: Expr) -> int
    decreases e,
{
    match e {
        Expr::IntLit(n) => n as int,
        Expr::Add(lhs, rhs) => value_of(*lhs) + value_of(*rhs),
        Expr::Sub(lhs, rhs) => value_of(*lhs) - value_of(*rhs),
    }
}

/// Whether the value of `e`, and of every expression within it, is a 64-bit
/// signed integer.
pub open spec fn in_range(e: Expr) -> bool
    decreases e,
{
    &&& i64::MIN <= value_of(e) <= i64::MAX
    &&& match e {
        Expr::IntLit(_) => true,
        Expr::Add(lhs, rhs) => in_range(*lhs) && in_range(*rhs),
        Expr::Sub(lhs, rhs) => in_range(*lhs) && in_range(*rhs),
    }
}

/// Evaluates expressions to 64-bit signed integers.
pub struct Interpreter;

impl Visitor<i64> for Interpreter {
    /// A name by itself has no value: the interpreter takes none.
    open spec fn takes_name(&self, n: &Name) -> bool {
        false
    }

    /// The interpreter takes the statements that are an expression it takes;
    /// it has no bindings.
    open spec fn takes_stmt(&self, s: &Stmt) -> bool {
        s matches Stmt::Expr(e) && in_range(*e)
    }

    /// The interpreter takes the expressions that never leave the 64-bit
    /// signed integers.
    open spec fn takes_expr(&self, e: &Expr) -> bool {
        in_range(*e)
    }

    fn visit_name(&mut self, n: &Name) -> (value: i64) {
        unreached()
    }

    /// The value of the expression that `s` is.
    fn visit_stmt(&mut self, s: &Stmt) -> (value: i64)
        ensures
            s matches Stmt::Expr(e) && value == value_of(*e),
    {
        match s {
            Stmt::Expr(e) => self.visit_expr(e),
            Stmt::Let(..) => unreached(),
        }
    }

    /// The value of `e`.
    fn visit_expr(&mut self, e: &Expr) -> (value: i64)
        ensures
            value == value_of(*e),
        decreases e,
    {
        match e {
            Expr::IntLit(n) => *n,
            Expr::Add(lhs, rhs) => self.visit_expr(lhs) + self.visit_expr(rhs),
            Expr::Sub(lhs, rhs) => self.visit_expr(lhs) - self.visit_expr(rhs),
        }
    }
}

} // verus!
