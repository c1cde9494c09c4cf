use vstd::prelude::*;

use crate::error::DuYError;
use crate::token::{is_value_token, res_token_view, Token, TokenV};
use vstd::string::{StrSliceExecFns, StringExecFns};
use vstd::wrapping::i64_specs;

verus! {

/// An expression tree node. Each node owns its children; the tree is
/// built bottom-up by the parser and read by the evaluator.
#[derive(Debug, PartialEq)]
pub enum Expr {
    Unary((Token, Box<Expr>)),
    Binary((Box<Expr>, Token, Box<Expr>)),
    Literals(Token),
    Grouping(Box<Expr>),
}

/// The abstract value of an expression tree, over token views.
pub enum ExprV {
    Unary(TokenV, Box<ExprV>),
    Binary(Box<ExprV>, TokenV, Box<ExprV>),
    Literals(TokenV),
    Grouping(Box<ExprV>),
}

/// The abstract value of an expression tree.
pub open spec fn expr_view(e: Expr) -> ExprV
    decreases e,
{
    match e {
        Expr::Unary((t, inner)) => ExprV::Unary(t@, Box::new(expr_view(*inner))),
        Expr::Binary((l, t, r)) => ExprV::Binary(
            Box::new(expr_view(*l)),
            t@,
            Box::new(expr_view(*r)),
        ),
        Expr::Literals(t) => ExprV::Literals(t@),
        Expr::Grouping(inner) => ExprV::Grouping(Box::new(expr_view(*inner))),
    }
}

impl View for Expr {
    type V = ExprV;

    open spec fn view(&self) -> ExprV {
        expr_view(*self)
    }
}

/// Well-formed expression: every `Literals` node holds one of the five
/// literal-carrying token variants.
pub open spec fn wf_expr(e: ExprV) -> bool
    decreases e,
{
    match e {
        ExprV::Literals(t) => crate::token::is_literal_token(t),
        ExprV::Grouping(inner) => wf_expr(*inner),
        ExprV::Unary(_, inner) => wf_expr(*inner),
        ExprV::Binary(l, _, r) => wf_expr(*l) && wf_expr(*r),
    }
}

/// Whether a token is one of the six arithmetic operators.
pub open spec fn is_arith_op(op: TokenV) -> bool {
    ||| op is Plus
    ||| op is Minus
    ||| op is Mul
    ||| op is Div
    ||| op is Mod
    ||| op is Pow
}

/// Whether a token is one of the six comparison operators.
pub open spec fn is_cmp_op(op: TokenV) -> bool {
    ||| op is Eq
    ||| op is Neq
    ||| op is Great
    ||| op is GreatEq
    ||| op is Less
    ||| op is LessEq
}

/// Truncated division of 64-bit integers, two's-complement wrapped like
/// the machine operation: dividing `i64::MIN` by `-1` gives `i64::MIN`.
pub open spec fn trunc_div_wrapped(x: i64, d: i64) -> i64 {
    match x.checked_div(d) {
        Some(q) => q,
        None => i64::MIN,
    }
}

/// Truncated remainder of 64-bit integers; the remainder of `i64::MIN`
/// by `-1` is 0.
pub open spec fn trunc_rem_wrapped(x: i64, d: i64) -> i64 {
    match x.checked_rem(d) {
        Some(q) => q,
        None => 0i64,
    }
}

/// `base` raised to `exp`, each multiplication wrapping around the
/// 64-bit two's-complement range.
pub open spec fn wrap_pow(base: i64, exp: nat) -> i64
    decreases exp,
{
    if exp == 0 {
        1i64
    } else {
        i64_specs::wrapping_mul(wrap_pow(base, (exp - 1) as nat), base)
    }
}

/// An arithmetic operator applied to two 64-bit integers: add, subtract
/// and multiply wrap around; divide and modulo by zero are errors; the
/// exponent of `^` must lie in the unsigned 32-bit range.
pub open spec fn int_arith(op: TokenV, i: i64, j: i64) -> Result<TokenV, DuYError> {
    if op is Plus {
        Ok(TokenV::IntegerLiteral(i64_specs::wrapping_add(i, j) as int))
    } else if op is Minus {
        Ok(TokenV::IntegerLiteral(i64_specs::wrapping_sub(i, j) as int))
    } else if op is Mul {
        Ok(TokenV::IntegerLiteral(i64_specs::wrapping_mul(i, j) as int))
    } else if op is Div {
        if j == 0 {
            Err(DuYError::DivisionByZero)
        } else {
            Ok(TokenV::IntegerLiteral(trunc_div_wrapped(i, j) as int))
        }
    } else if op is Mod {
        if j == 0 {
            Err(DuYError::DivisionByZero)
        } else {
            Ok(TokenV::IntegerLiteral(trunc_rem_wrapped(i, j) as int))
        }
    } else if op is Pow {
        if j < 0 || j > u32::MAX {
            Err(DuYError::TypeMismatch)
        } else {
            Ok(TokenV::IntegerLiteral(wrap_pow(i, j as nat) as int))
        }
    } else {
        Err(DuYError::UnsupportedOperator)
    }
}

/// A comparison operator applied to two 64-bit integers.
pub open spec fn int_cmp(op: TokenV, i: i64, j: i64) -> bool {
    if op is Eq {
        i == j
    } else if op is Neq {
        i != j
    } else if op is Great {
        i > j
    } else if op is GreatEq {
        i >= j
    } else if op is Less {
        i < j
    } else {
        i <= j
    }
}

/// A binary operator applied to two evaluated values.
///
/// Arithmetic and comparison are defined on two integers; on two floats
/// they are handed to the embedding application (`FloatArithmetic`);
/// on mixed kinds they are a `TypeMismatch`; comparison of strings or
/// booleans has no defined rule here (`UnsupportedOperator`), and any
/// other operator token is `UnsupportedOperator`.
pub open spec fn apply_binary_s(op: TokenV, a: TokenV, b: TokenV) -> Result<TokenV, DuYError> {
    if is_arith_op(op) {
        match (a, b) {
            (TokenV::IntegerLiteral(x), TokenV::IntegerLiteral(y)) => int_arith(
                op,
                x as i64,
                y as i64,
            ),
            (TokenV::FloatLiteral(_), TokenV::FloatLiteral(_)) => Err(DuYError::FloatArithmetic),
            _ => Err(DuYError::TypeMismatch),
        }
    } else if is_cmp_op(op) {
        match (a, b) {
            (TokenV::IntegerLiteral(x), TokenV::IntegerLiteral(y)) => Ok(
                TokenV::BooleanLiteral(int_cmp(op, x as i64, y as i64)),
            ),
            (TokenV::FloatLiteral(_), TokenV::FloatLiteral(_)) => Err(DuYError::FloatArithmetic),
            (TokenV::StringLiteral(_), TokenV::StringLiteral(_)) => Err(
                DuYError::UnsupportedOperator,
            ),
            (TokenV::BooleanLiteral(_), TokenV::BooleanLiteral(_)) => Err(
                DuYError::UnsupportedOperator,
            ),
            _ => Err(DuYError::TypeMismatch),
        }
    } else {
        Err(DuYError::UnsupportedOperator)
    }
}

/// A unary operator applied to an evaluated value. `-` negates by
/// subtracting from the integer 0, so it inherits the numeric-kind rule
/// of subtraction; `!` flips a boolean; nothing else is defined.
pub open spec fn apply_unary_s(op: TokenV, v: TokenV) -> Result<TokenV, DuYError> {
    if op is Minus {
        apply_binary_s(TokenV::Minus, TokenV::IntegerLiteral(0), v)
    } else if op is Not {
        match v {
            TokenV::BooleanLiteral(b) => Ok(TokenV::BooleanLiteral(!b)),
            _ => Err(DuYError::TypeMismatch),
        }
    } else {
        Err(DuYError::UnsupportedOperator)
    }
}

/// Evaluation of an expression tree: a structural recursion that
/// reduces the tree to an integer, float or boolean literal, or stops
/// at the first ill-typed node.
pub open spec fn eval_s(e: ExprV) -> Result<TokenV, DuYError>
    decreases e,
{
    match e {
        ExprV::Literals(t) => if is_value_token(t) {
            Ok(t)
        } else {
            Err(DuYError::UnsupportedLiteral)
        },
        ExprV::Grouping(inner) => eval_s(*inner),
        ExprV::Unary(op, inner) => match eval_s(*inner) {
            Ok(v) => apply_unary_s(op, v),
            Err(err) => Err(err),
        },
        ExprV::Binary(l, op, r) => match eval_s(*l) {
            Err(err) => Err(err),
            Ok(lv) => match eval_s(*r) {
                Err(err) => Err(err),
                Ok(rv) => apply_binary_s(op, lv, rv),
            },
        },
    }
}

/// `base` raised to `exp` with wrapping multiplications.
fn pow_wrapping(base: i64, exp: u32) -> (r: i64)
    ensures
        r == wrap_pow(base, exp as nat),
{
    let mut acc: i64 = 1;
    let mut k: u32 = 0;
    while k < exp
        invariant
            k <= exp,
            acc == wrap_pow(base, k as nat),
        decreases exp - k,
    {
        acc = acc.wrapping_mul(base);
        k += 1;
    }
    acc
}

/// An arithmetic operator on two integer literals.
fn apply_int_arith(op: &Token, i: i64, j: i64) -> (r: Result<Token, DuYError>)
    ensures
        res_token_view(r) == int_arith(op@, i, j),
{
    match op {
        Token::Plus => Ok(Token::IntegerLiteral(i.wrapping_add(j))),
        Token::Minus => Ok(Token::IntegerLiteral(i.wrapping_sub(j))),
        Token::Mul => Ok(Token::IntegerLiteral(i.wrapping_mul(j))),
        Token::Div => {
            if j == 0 {
                Err(DuYError::DivisionByZero)
            } else {
                match i.checked_div(j) {
                    Some(q) => Ok(Token::IntegerLiteral(q)),
                    None => Ok(Token::IntegerLiteral(i64::MIN)),
                }
            }
        },
        Token::Mod => {
            if j == 0 {
                Err(DuYError::DivisionByZero)
            } else {
                match i.checked_rem(j) {
                    Some(q) => Ok(Token::IntegerLiteral(q)),
                    None => Ok(Token::IntegerLiteral(0)),
                }
            }
        },
        Token::Pow => {
            if j < 0 || j > 4294967295i64 {
                Err(DuYError::TypeMismatch)
            } else {
                Ok(Token::IntegerLiteral(pow_wrapping(i, j as u32)))
            }
        },
        _ => Err(DuYError::UnsupportedOperator),
    }
}

/// A comparison operator on two integer literals.
fn apply_int_cmp(op: &Token, i: i64, j: i64) -> (r: bool)
    ensures
        r == int_cmp(op@, i, j),
{
    match op {
        Token::Eq => i == j,
        Token::Neq => i != j,
        Token::Great => i > j,
        Token::GreatEq => i >= j,
        Token::Less => i < j,
        _ => i <= j,
    }
}

/// A binary operator applied to two evaluated values, as
/// `apply_binary_s` defines it.
pub fn apply_binary(op: &Token, a: &Token, b: &Token) -> (r: Result<Token, DuYError>)
    ensures
        res_token_view(r) == apply_binary_s(op@, a@, b@),
{
    let arith = matches!(
        op,
        Token::Plus | Token::Minus | Token::Mul | Token::Div | Token::Mod | Token::Pow
    );
    let cmp = matches!(
        op,
        Token::Eq | Token::Neq | Token::Great | Token::GreatEq | Token::Less | Token::LessEq
    );
    if arith {
        match (a, b) {
            (Token::IntegerLiteral(i), Token::IntegerLiteral(j)) => apply_int_arith(op, *i, *j),
            (Token::FloatLiteral(_), Token::FloatLiteral(_)) => Err(DuYError::FloatArithmetic),
            _ => Err(DuYError::TypeMismatch),
        }
    } else if cmp {
        match (a, b) {
            (Token::IntegerLiteral(i), Token::IntegerLiteral(j)) => Ok(
                Token::BooleanLiteral(apply_int_cmp(op, *i, *j)),
            ),
            (Token::FloatLiteral(_), Token::FloatLiteral(_)) => Err(DuYError::FloatArithmetic),
            (Token::StringLiteral(_), Token::StringLiteral(_)) => Err(
                DuYError::UnsupportedOperator,
            ),
            (Token::BooleanLiteral(_), Token::BooleanLiteral(_)) => Err(
                DuYError::UnsupportedOperator,
            ),
            _ => Err(DuYError::TypeMismatch),
        }
    } else {
        Err(DuYError::UnsupportedOperator)
    }
}

/// A unary operator applied to an evaluated value, as `apply_unary_s`
/// defines it.
pub fn apply_unary(op: &Token, v: &Token) -> (r: Result<Token, DuYError>)
    ensures
        res_token_view(r) == apply_unary_s(op@, v@),
{
    match op {
        Token::Minus => apply_binary(&Token::Minus, &Token::IntegerLiteral(0), v),
        Token::Not => match v {
            Token::BooleanLiteral(b) => Ok(Token::BooleanLiteral(!*b)),
            _ => Err(DuYError::TypeMismatch),
        },
        _ => Err(DuYError::UnsupportedOperator),
    }
}

impl Expr {
    /// Reduces the tree to a literal value, or reports the first
    /// ill-typed node, exactly as `eval_s` defines it.
    pub fn eval(&self) -> (r: Result<Token, DuYError>)
        ensures
            res_token_view(r) == eval_s(self@),
        decreases self,
    {
        match self {
            Expr::Literals(t) => match t {
                Token::IntegerLiteral(_) | Token::FloatLiteral(_) | Token::BooleanLiteral(_) => Ok(
                    t.dup(),
                ),
                _ => Err(DuYError::UnsupportedLiteral),
            },
            Expr::Grouping(inner) => inner.eval(),
            Expr::Unary((op, inner)) => match inner.eval() {
                Ok(v) => apply_unary(op, &v),
                Err(err) => Err(err),
            },
            Expr::Binary((l, op, r)) => match l.eval() {
                Err(err) => Err(err),
                Ok(lv) => match r.eval() {
                    Err(err) => Err(err),
                    Ok(rv) => apply_binary(op, &lv, &rv),
                },
            },
        }
    }
}

/// The display text of an expression: a literal as its value, a
/// grouping as `(inner)`, a binary node as `(left op right)`, a unary
/// node as `<op operand>`. Diagnostics only, not a re-parseable syntax.
pub open spec fn expr_text(e: ExprV) -> Seq<char>
    decreases e,
{
    match e {
        ExprV::Literals(t) => crate::token::token_text(t),
        ExprV::Grouping(inner) => seq!['('] + expr_text(*inner) + seq![')'],
        ExprV::Unary(t, inner) => seq!['<'] + crate::token::token_text(t) + seq![' '] + expr_text(
            *inner,
        ) + seq!['>'],
        ExprV::Binary(l, t, r) => seq!['('] + expr_text(*l) + seq![' '] + crate::token::token_text(
            t,
        ) + seq![' '] + expr_text(*r) + seq![')'],
    }
}

impl Expr {
    /// The display text of this expression, as `expr_text` defines it.
    pub fn display_string(&self) -> (r: String)
        ensures
            r@ == expr_text(self@),
        decreases self,
    {
        proof {
            reveal_strlit("(");
            reveal_strlit(")");
            reveal_strlit("<");
            reveal_strlit(">");
            reveal_strlit(" ");
        }
        match self {
            Expr::Literals(t) => t.display_string(),
            Expr::Grouping(inner) => {
                let mut s = String::new();
                s.append("(");
                let body = inner.display_string();
                s.append(body.as_str());
                s.append(")");
                proof {
                    assert(s@ =~= expr_text(self@));
                }
                s
            },
            Expr::Unary((t, inner)) => {
                let mut s = String::new();
                s.append("<");
                let tt = t.display_string();
                s.append(tt.as_str());
                s.append(" ");
                let body = inner.display_string();
                s.append(body.as_str());
                s.append(">");
                proof {
                    assert(s@ =~= expr_text(self@));
                }
                s
            },
            Expr::Binary((l, t, r)) => {
                let mut s = String::new();
                s.append("(");
                let lt = l.display_string();
                s.append(lt.as_str());
                s.append(" ");
                let tt = t.display_string();
                s.append(tt.as_str());
                s.append(" ");
                let rt = r.display_string();
                s.append(rt.as_str());
                s.append(")");
                proof {
                    assert(s@ =~= expr_text(self@));
                }
                s
            },
        }
    }
}

/// The value a literal token raises to, for `^`.
pub trait Pow {
    type Output;

    fn pow_token(self, rhs: Self) -> Self::Output;
}

impl Pow for Token {
    type Output = Result<Token, DuYError>;

    /// `^` on two tokens, through the verified binary dispatch.
    fn pow_token(self, other: Token) -> Result<Token, DuYError> {
        apply_binary(&Token::Pow, &self, &other)
    }
}

/// Law: evaluating a literal expression yields the literal unchanged,
/// for every integer, float or boolean literal token.
pub proof fn lemma_eval_literal_roundtrip(t: TokenV)
    requires
        is_value_token(t),
    ensures
        eval_s(ExprV::Literals(t)) == Ok::<TokenV, DuYError>(t),
{
}

/// Law: an arithmetic operator applied to one integer and one float,
/// in either order, fails with `TypeMismatch`: there is no implicit
/// numeric coercion.
pub proof fn lemma_mixed_arith_type_mismatch(op: TokenV, a: TokenV, b: TokenV)
    requires
        is_arith_op(op),
        (a is IntegerLiteral && b is FloatLiteral) || (a is FloatLiteral && b is IntegerLiteral),
    ensures
        apply_binary_s(op, a, b) == Err::<TokenV, DuYError>(DuYError::TypeMismatch),
{
}

/// Law: a binary node whose operands evaluate to one integer and one
/// float, under any arithmetic operator, fails with `TypeMismatch`.
pub proof fn lemma_eval_mixed_arith(e: ExprV)
    requires
        e matches ExprV::Binary(l, op, r) && is_arith_op(op) && eval_s(*l) is Ok && eval_s(*r)
            is Ok && ((eval_s(*l)->Ok_0 is IntegerLiteral && eval_s(*r)->Ok_0 is FloatLiteral) || (
        eval_s(*l)->Ok_0 is FloatLiteral && eval_s(*r)->Ok_0 is IntegerLiteral)),
    ensures
        eval_s(e) == Err::<TokenV, DuYError>(DuYError::TypeMismatch),
{
}

/// Law: dividing or taking the modulo of any integer by the integer 0
/// fails with `DivisionByZero`.
pub proof fn lemma_int_division_by_zero(op: TokenV, x: int)
    requires
        op is Div || op is Mod,
    ensures
        apply_binary_s(op, TokenV::IntegerLiteral(x), TokenV::IntegerLiteral(0)) == Err::<
            TokenV,
            DuYError,
        >(DuYError::DivisionByZero),
{
}

} // verus!
