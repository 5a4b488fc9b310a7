//! Walking a syntax tree: one operation for each kind of node.

use vstd::prelude::*;
use crate::ast::{Expr, Name, Stmt};

verus! {

/// A walk over syntax trees that yields a `T` for each node it visits.
pub trait Visitor<T> {
    /// Whether this visitor takes the name `n`. A visitor that says nothing
    /// takes every name.
    open spec fn takes_name(&self, n: &Name) -> bool {
        true
    }

    /// Whether this visitor takes the statement `s`. A visitor that says
    /// nothing takes every statement.
    open spec fn takes_stmt(&self, s: &Stmt) -> bool {
        true
    }

    /// Whether this visitor takes the expression `e`. A visitor that says
    /// nothing takes every expression.
    open spec fn takes_expr(&self, e: &Expr) -> bool {
        true
    }

    fn visit_name(&mut self, n: &Name) -> T
        requires
            old(self).takes_name(n),
    ;

    fn visit_stmt(&mut self, s: &Stmt) -> T
        requires
            old(self).takes_stmt(s),
    ;

    fn visit_expr(&mut self, e: &Expr) -> T
        requires
            old(self).takes_expr(e),
    ;
}

} // verus!
