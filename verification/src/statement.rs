use vstd::prelude::*;

use crate::expr::{Expr, ExprV};
use crate::token::Token;

verus! {

/// A statement: an expression together with the form it appears in.
#[derive(Debug, PartialEq)]
pub struct Statement {
    expression: Expr,
    statement_type: StatementType,
}

/// The form of a statement. Only `ProcCall` (a built-in procedure call
/// such as `write`) is produced by this library's parser; the other
/// forms exist for the surrounding program to build.
#[derive(Debug, PartialEq)]
pub enum StatementType {
    If(Vec<Statement>),
    Var(Token),
    ProcCall(Token),
    While(Vec<Statement>),
    For(Vec<Statement>),
}

impl Statement {
    /// The abstract value of the expression this statement carries.
    pub closed spec fn spec_expression(&self) -> ExprV {
        self.expression@
    }

    /// The form tag this statement carries.
    pub closed spec fn spec_type(&self) -> StatementType {
        self.statement_type
    }

    /// A statement made of the given expression and form tag.
    pub fn new(expression: Expr, statement_type: StatementType) -> (r: Statement)
        ensures
            r.spec_expression() == expression@,
            r.spec_type() == statement_type,
    {
        Statement { expression, statement_type }
    }
}

} // verus!
