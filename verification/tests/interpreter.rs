use patterns::ast::{Expr, Stmt};
use patterns::interpreter::Interpreter;
use patterns::visit::Visitor;

fn lit(n: i64) -> Box<Expr> {
    Box::new(Expr::IntLit(n))
}

#[test]
fn literal_is_its_own_value() {
    assert_eq!(Interpreter.visit_expr(&Expr::IntLit(-7)), -7);
    assert_eq!(Interpreter.visit_expr(&Expr::IntLit(i64::MAX)), i64::MAX);
}

#[test]
fn sums_and_differences() {
    assert_eq!(Interpreter.visit_expr(&Expr::Add(lit(2), lit(3))), 5);
    assert_eq!(Interpreter.visit_expr(&Expr::Sub(lit(2), lit(3))), -1);
    let nested = Expr::Sub(Box::new(Expr::Add(lit(10), lit(20))), Box::new(Expr::Sub(lit(1), lit(5))));
    assert_eq!(Interpreter.visit_expr(&nested), 34);
}

#[test]
fn values_at_the_ends_of_the_range() {
    assert_eq!(Interpreter.visit_expr(&Expr::Add(lit(i64::MAX - 1), lit(1))), i64::MAX);
    assert_eq!(Interpreter.visit_expr(&Expr::Sub(lit(i64::MIN + 1), lit(1))), i64::MIN);
}

#[test]
fn expression_statement_has_the_value_of_its_expression() {
    assert_eq!(Interpreter.visit_stmt(&Stmt::Expr(Expr::Add(lit(40), lit(2)))), 42);
}
