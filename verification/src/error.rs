use vstd::prelude::*;

verus! {

/// Every failure the front end can report. Each stage stops at the first
/// error and hands it to the caller unchanged; there is no recovery.
#[derive(Debug, Clone, Copy, PartialEq, Eq, Structural)]
pub enum DuYError {
    /// Unrecognized character, malformed number, unterminated string or
    /// comment, or a `:` that is not followed by `=`.
    InvalidToken,
    /// Identifier that starts with a digit, contains whitespace, or
    /// contains a character that is neither alphanumeric nor `_`.
    InvalidIdentifier,
    /// The parser reached a token that cannot start a primary expression,
    /// or the expression nests deeper than the parser's step budget.
    ExpectedExpression,
    /// An opening parenthesis with no closing parenthesis anywhere ahead.
    MissingClosingParen,
    /// The leading tokens do not match any recognized statement form.
    InvalidStatement,
    /// The evaluator reached a literal it does not evaluate (a string or
    /// an identifier).
    UnsupportedLiteral,
    /// The evaluator reached an operator it defines no rule for (for
    /// example `and` or `or`, which are lexed and parsed but not
    /// evaluated).
    UnsupportedOperator,
    /// Operand kinds incompatible with the requested operation (for
    /// example integer `+` float).
    TypeMismatch,
    /// Integer division or modulo by zero.
    DivisionByZero,
    /// The operation is floating-point arithmetic or comparison, which
    /// this library does not perform: float literals are carried as their
    /// decimal text, and the embedding application computes with them.
    FloatArithmetic,
}

} // verus!
