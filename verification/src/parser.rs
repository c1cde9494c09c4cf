use vstd::prelude::*;

use crate::error::DuYError;
use crate::expr::{Expr, ExprV};
use crate::statement::{Statement, StatementType};
use crate::token::{tokens_view, Token, TokenV};

verus! {

/// The parser's step budget: a bound on grammar recursion (nested
/// parentheses, chained unary operators, chained binary operators) that
/// turns would-be stack exhaustion on pathological input into an
/// `ExpectedExpression` error.
pub const MAX_DEPTH: usize = 4096;

/// The token at an index of the stream; anything outside the stream
/// reads as `EOF`.
pub open spec fn tok_at(toks: Seq<TokenV>, i: int) -> TokenV {
    if 0 <= i < toks.len() {
        toks[i]
    } else {
        TokenV::EOF
    }
}

/// One cursor step: the cursor moves only while a position remains
/// ahead of it.
pub open spec fn step1(toks: Seq<TokenV>, i: int) -> int {
    if i + 1 < toks.len() {
        i + 1
    } else {
        i
    }
}

/// A cursor step of `k` positions, taken only when it stays inside the
/// stream.
pub open spec fn stepk(toks: Seq<TokenV>, i: int, k: int) -> int {
    if i + k < toks.len() {
        i + k
    } else {
        i
    }
}

/// `primary → literal | identifier | "(" expression ")"`.
///
/// A literal or identifier token is consumed as a leaf; `(` demands
/// that some `)` stand ahead in the stream, parses the interior as a
/// grouping, and steps past the closing parenthesis.
pub open spec fn primary_s(toks: Seq<TokenV>, i: int, fuel: nat) -> Result<
    (ExprV, int),
    DuYError,
>
    decreases fuel, 0int,
{
    let x = tok_at(toks, i);
    let j = step1(toks, i);
    match x {
        TokenV::BooleanLiteral(_) => Ok((ExprV::Literals(x), j)),
        TokenV::StringLiteral(_) => Ok((ExprV::Literals(x), j)),
        TokenV::IntegerLiteral(_) => Ok((ExprV::Literals(x), j)),
        TokenV::FloatLiteral(_) => Ok((ExprV::Literals(x), j)),
        TokenV::Identifier(_) => Ok((ExprV::Literals(x), j)),
        TokenV::OParen => {
            if exists|k: int| j <= k < toks.len() && toks[k] is CParen {
                if fuel == 0 {
                    Err(DuYError::ExpectedExpression)
                } else {
                    match equality_s(toks, j, (fuel - 1) as nat) {
                        Err(e) => Err(e),
                        Ok((e0, i2)) => Ok((ExprV::Grouping(Box::new(e0)), step1(toks, i2))),
                    }
                }
            } else {
                Err(DuYError::MissingClosingParen)
            }
        },
        _ => Err(DuYError::ExpectedExpression),
    }
}

/// `unary → ("!" | "-") unary | primary`; runs of unary operators nest
/// right-recursively.
pub open spec fn unary_s(toks: Seq<TokenV>, i: int, fuel: nat) -> Result<(ExprV, int), DuYError>
    decreases fuel, 1int,
{
    let x = tok_at(toks, i);
    if x is Not || x is Minus {
        if fuel == 0 {
            Err(DuYError::ExpectedExpression)
        } else {
            match unary_s(toks, step1(toks, i), (fuel - 1) as nat) {
                Err(e) => Err(e),
                Ok((e0, i2)) => Ok((ExprV::Unary(x, Box::new(e0)), i2)),
            }
        }
    } else {
        primary_s(toks, i, fuel)
    }
}

/// The left-associative fold of `power → unary ("^" unary)*`.
pub open spec fn power_tail(toks: Seq<TokenV>, acc: ExprV, i: int, fuel: nat) -> Result<
    (ExprV, int),
    DuYError,
>
    decreases fuel, 2int,
{
    let x = tok_at(toks, i);
    if x is EOF {
        Ok((acc, i))
    } else if x is Pow {
        if fuel == 0 {
            Err(DuYError::ExpectedExpression)
        } else {
            match unary_s(toks, step1(toks, i), (fuel - 1) as nat) {
                Err(e) => Err(e),
                Ok((rhs, i2)) => power_tail(
                    toks,
                    ExprV::Binary(Box::new(acc), x, Box::new(rhs)),
                    i2,
                    (fuel - 1) as nat,
                ),
            }
        }
    } else {
        Ok((acc, i))
    }
}

/// `power → unary ("^" unary)*`, folding to the left: `2^3^2` groups
/// as `(2^3)^2`.
pub open spec fn power_s(toks: Seq<TokenV>, i: int, fuel: nat) -> Result<(ExprV, int), DuYError>
    decreases fuel, 3int,
{
    match unary_s(toks, i, fuel) {
        Err(e) => Err(e),
        Ok((e0, i2)) => power_tail(toks, e0, i2, fuel),
    }
}

/// The left-associative fold of `factor → power (("*"|"/"|"mod") power)*`.
pub open spec fn factor_tail(toks: Seq<TokenV>, acc: ExprV, i: int, fuel: nat) -> Result<
    (ExprV, int),
    DuYError,
>
    decreases fuel, 4int,
{
    let x = tok_at(toks, i);
    if x is EOF {
        Ok((acc, i))
    } else if x is Mul || x is Div || x is Mod {
        if fuel == 0 {
            Err(DuYError::ExpectedExpression)
        } else {
            match power_s(toks, step1(toks, i), (fuel - 1) as nat) {
                Err(e) => Err(e),
                Ok((rhs, i2)) => factor_tail(
                    toks,
                    ExprV::Binary(Box::new(acc), x, Box::new(rhs)),
                    i2,
                    (fuel - 1) as nat,
                ),
            }
        }
    } else {
        Ok((acc, i))
    }
}

/// `factor → power (("*" | "/" | "mod") power)*`, left-associative.
pub open spec fn factor_s(toks: Seq<TokenV>, i: int, fuel: nat) -> Result<(ExprV, int), DuYError>
    decreases fuel, 5int,
{
    match power_s(toks, i, fuel) {
        Err(e) => Err(e),
        Ok((e0, i2)) => factor_tail(toks, e0, i2, fuel),
    }
}

/// The left-associative fold of `term → factor (("+"|"-") factor)*`.
pub open spec fn term_tail(toks: Seq<TokenV>, acc: ExprV, i: int, fuel: nat) -> Result<
    (ExprV, int),
    DuYError,
>
    decreases fuel, 6int,
{
    let x = tok_at(toks, i);
    if x is EOF {
        Ok((acc, i))
    } else if x is Plus || x is Minus {
        if fuel == 0 {
            Err(DuYError::ExpectedExpression)
        } else {
            match factor_s(toks, step1(toks, i), (fuel - 1) as nat) {
                Err(e) => Err(e),
                Ok((rhs, i2)) => term_tail(
                    toks,
                    ExprV::Binary(Box::new(acc), x, Box::new(rhs)),
                    i2,
                    (fuel - 1) as nat,
                ),
            }
        }
    } else {
        Ok((acc, i))
    }
}

/// `term → factor (("+" | "-") factor)*`, left-associative.
pub open spec fn term_s(toks: Seq<TokenV>, i: int, fuel: nat) -> Result<(ExprV, int), DuYError>
    decreases fuel, 7int,
{
    match factor_s(toks, i, fuel) {
        Err(e) => Err(e),
        Ok((e0, i2)) => term_tail(toks, e0, i2, fuel),
    }
}

/// The left-associative fold of
/// `comparison → term ((">"|">="|"<"|"<=") term)*`.
pub open spec fn comparison_tail(toks: Seq<TokenV>, acc: ExprV, i: int, fuel: nat) -> Result<
    (ExprV, int),
    DuYError,
>
    decreases fuel, 8int,
{
    let x = tok_at(toks, i);
    if x is EOF {
        Ok((acc, i))
    } else if x is Great || x is GreatEq || x is Less || x is LessEq {
        if fuel == 0 {
            Err(DuYError::ExpectedExpression)
        } else {
            match term_s(toks, step1(toks, i), (fuel - 1) as nat) {
                Err(e) => Err(e),
                Ok((rhs, i2)) => comparison_tail(
                    toks,
                    ExprV::Binary(Box::new(acc), x, Box::new(rhs)),
                    i2,
                    (fuel - 1) as nat,
                ),
            }
        }
    } else {
        Ok((acc, i))
    }
}

/// `comparison → term ((">" | ">=" | "<" | "<=") term)*`,
/// left-associative.
pub open spec fn comparison_s(toks: Seq<TokenV>, i: int, fuel: nat) -> Result<
    (ExprV, int),
    DuYError,
>
    decreases fuel, 9int,
{
    match term_s(toks, i, fuel) {
        Err(e) => Err(e),
        Ok((e0, i2)) => comparison_tail(toks, e0, i2, fuel),
    }
}

/// The left-associative fold of
/// `equality → comparison (("="|"<>") comparison)*`.
pub open spec fn equality_tail(toks: Seq<TokenV>, acc: ExprV, i: int, fuel: nat) -> Result<
    (ExprV, int),
    DuYError,
>
    decreases fuel, 10int,
{
    let x = tok_at(toks, i);
    if x is EOF {
        Ok((acc, i))
    } else if x is Eq || x is Neq {
        if fuel == 0 {
            Err(DuYError::ExpectedExpression)
        } else {
            match comparison_s(toks, step1(toks, i), (fuel - 1) as nat) {
                Err(e) => Err(e),
                Ok((rhs, i2)) => equality_tail(
                    toks,
                    ExprV::Binary(Box::new(acc), x, Box::new(rhs)),
                    i2,
                    (fuel - 1) as nat,
                ),
            }
        }
    } else {
        Ok((acc, i))
    }
}

/// `equality → comparison (("=" | "<>") comparison)*`,
/// left-associative.
pub open spec fn equality_s(toks: Seq<TokenV>, i: int, fuel: nat) -> Result<(ExprV, int), DuYError>
    decreases fuel, 11int,
{
    match comparison_s(toks, i, fuel) {
        Err(e) => Err(e),
        Ok((e0, i2)) => equality_tail(toks, e0, i2, fuel),
    }
}

/// `expression → equality`: the grammar's entry point.
pub open spec fn expression_s(toks: Seq<TokenV>, i: int, fuel: nat) -> Result<
    (ExprV, int),
    DuYError,
> {
    equality_s(toks, i, fuel)
}

/// The one statement form this parser recognizes: the exact token
/// shape `write ( <string literal> ) ;`.
pub open spec fn statement_shape(toks: Seq<TokenV>, i: int) -> bool {
    &&& tok_at(toks, i) is Write
    &&& tok_at(toks, i + 1) is OParen
    &&& tok_at(toks, i + 2) is StringLiteral
    &&& tok_at(toks, i + 3) is CParen
    &&& tok_at(toks, i + 4) is SemiColon
}

proof fn lemma_primary_wf(toks: Seq<TokenV>, i: int, fuel: nat)
    ensures
        primary_s(toks, i, fuel) matches Ok((e, _)) ==> crate::expr::wf_expr(e),
    decreases fuel, 0int,
{
    if tok_at(toks, i) is OParen && fuel > 0 {
        lemma_equality_wf(toks, step1(toks, i), (fuel - 1) as nat);
    }
}

proof fn lemma_unary_wf(toks: Seq<TokenV>, i: int, fuel: nat)
    ensures
        unary_s(toks, i, fuel) matches Ok((e, _)) ==> crate::expr::wf_expr(e),
    decreases fuel, 1int,
{
    let x = tok_at(toks, i);
    if (x is Not || x is Minus) && fuel > 0 {
        lemma_unary_wf(toks, step1(toks, i), (fuel - 1) as nat);
    } else {
        lemma_primary_wf(toks, i, fuel);
    }
}

proof fn lemma_power_tail_wf(toks: Seq<TokenV>, acc: ExprV, i: int, fuel: nat)
    requires
        crate::expr::wf_expr(acc),
    ensures
        power_tail(toks, acc, i, fuel) matches Ok((e, _)) ==> crate::expr::wf_expr(e),
    decreases fuel, 2int,
{
    let x = tok_at(toks, i);
    if !(x is EOF) && x is Pow && fuel > 0 {
        lemma_unary_wf(toks, step1(toks, i), (fuel - 1) as nat);
        if let Ok((rhs, i2)) = unary_s(toks, step1(toks, i), (fuel - 1) as nat) {
            lemma_power_tail_wf(
                toks,
                ExprV::Binary(Box::new(acc), x, Box::new(rhs)),
                i2,
                (fuel - 1) as nat,
            );
        }
    }
}

proof fn lemma_power_wf(toks: Seq<TokenV>, i: int, fuel: nat)
    ensures
        power_s(toks, i, fuel) matches Ok((e, _)) ==> crate::expr::wf_expr(e),
    decreases fuel, 3int,
{
    lemma_unary_wf(toks, i, fuel);
    if let Ok((e0, i2)) = unary_s(toks, i, fuel) {
        lemma_power_tail_wf(toks, e0, i2, fuel);
    }
}

proof fn lemma_factor_tail_wf(toks: Seq<TokenV>, acc: ExprV, i: int, fuel: nat)
    requires
        crate::expr::wf_expr(acc),
    ensures
        factor_tail(toks, acc, i, fuel) matches Ok((e, _)) ==> crate::expr::wf_expr(e),
    decreases fuel, 4int,
{
    let x = tok_at(toks, i);
    if !(x is EOF) && (x is Mul || x is Div || x is Mod) && fuel > 0 {
        lemma_power_wf(toks, step1(toks, i), (fuel - 1) as nat);
        if let Ok((rhs, i2)) = power_s(toks, step1(toks, i), (fuel - 1) as nat) {
            lemma_factor_tail_wf(
                toks,
                ExprV::Binary(Box::new(acc), x, Box::new(rhs)),
                i2,
                (fuel - 1) as nat,
            );
        }
    }
}

proof fn lemma_factor_wf(toks: Seq<TokenV>, i: int, fuel: nat)
    ensures
        factor_s(toks, i, fuel) matches Ok((e, _)) ==> crate::expr::wf_expr(e),
    decreases fuel, 5int,
{
    lemma_power_wf(toks, i, fuel);
    if let Ok((e0, i2)) = power_s(toks, i, fuel) {
        lemma_factor_tail_wf(toks, e0, i2, fuel);
    }
}

proof fn lemma_term_tail_wf(toks: Seq<TokenV>, acc: ExprV, i: int, fuel: nat)
    requires
        crate::expr::wf_expr(acc),
    ensures
        term_tail(toks, acc, i, fuel) matches Ok((e, _)) ==> crate::expr::wf_expr(e),
    decreases fuel, 6int,
{
    let x = tok_at(toks, i);
    if !(x is EOF) && (x is Plus || x is Minus) && fuel > 0 {
        lemma_factor_wf(toks, step1(toks, i), (fuel - 1) as nat);
        if let Ok((rhs, i2)) = factor_s(toks, step1(toks, i), (fuel - 1) as nat) {
            lemma_term_tail_wf(
                toks,
                ExprV::Binary(Box::new(acc), x, Box::new(rhs)),
                i2,
                (fuel - 1) as nat,
            );
        }
    }
}

proof fn lemma_term_wf(toks: Seq<TokenV>, i: int, fuel: nat)
    ensures
        term_s(toks, i, fuel) matches Ok((e, _)) ==> crate::expr::wf_expr(e),
    decreases fuel, 7int,
{
    lemma_factor_wf(toks, i, fuel);
    if let Ok((e0, i2)) = factor_s(toks, i, fuel) {
        lemma_term_tail_wf(toks, e0, i2, fuel);
    }
}

proof fn lemma_comparison_tail_wf(toks: Seq<TokenV>, acc: ExprV, i: int, fuel: nat)
    requires
        crate::expr::wf_expr(acc),
    ensures
        comparison_tail(toks, acc, i, fuel) matches Ok((e, _)) ==> crate::expr::wf_expr(e),
    decreases fuel, 8int,
{
    let x = tok_at(toks, i);
    if !(x is EOF) && (x is Great || x is GreatEq || x is Less || x is LessEq) && fuel > 0 {
        lemma_term_wf(toks, step1(toks, i), (fuel - 1) as nat);
        if let Ok((rhs, i2)) = term_s(toks, step1(toks, i), (fuel - 1) as nat) {
            lemma_comparison_tail_wf(
                toks,
                ExprV::Binary(Box::new(acc), x, Box::new(rhs)),
                i2,
                (fuel - 1) as nat,
            );
        }
    }
}

proof fn lemma_comparison_wf(toks: Seq<TokenV>, i: int, fuel: nat)
    ensures
        comparison_s(toks, i, fuel) matches Ok((e, _)) ==> crate::expr::wf_expr(e),
    decreases fuel, 9int,
{
    lemma_term_wf(toks, i, fuel);
    if let Ok((e0, i2)) = term_s(toks, i, fuel) {
        lemma_comparison_tail_wf(toks, e0, i2, fuel);
    }
}

proof fn lemma_equality_tail_wf(toks: Seq<TokenV>, acc: ExprV, i: int, fuel: nat)
    requires
        crate::expr::wf_expr(acc),
    ensures
        equality_tail(toks, acc, i, fuel) matches Ok((e, _)) ==> crate::expr::wf_expr(e),
    decreases fuel, 10int,
{
    let x = tok_at(toks, i);
    if !(x is EOF) && (x is Eq || x is Neq) && fuel > 0 {
        lemma_comparison_wf(toks, step1(toks, i), (fuel - 1) as nat);
        if let Ok((rhs, i2)) = comparison_s(toks, step1(toks, i), (fuel - 1) as nat) {
            lemma_equality_tail_wf(
                toks,
                ExprV::Binary(Box::new(acc), x, Box::new(rhs)),
                i2,
                (fuel - 1) as nat,
            );
        }
    }
}

proof fn lemma_equality_wf(toks: Seq<TokenV>, i: int, fuel: nat)
    ensures
        equality_s(toks, i, fuel) matches Ok((e, _)) ==> crate::expr::wf_expr(e),
    decreases fuel, 11int,
{
    lemma_comparison_wf(toks, i, fuel);
    if let Ok((e0, i2)) = comparison_s(toks, i, fuel) {
        lemma_equality_tail_wf(toks, e0, i2, fuel);
    }
}

/// Law: every expression the grammar yields is well-formed — each of
/// its `Literals` nodes holds one of the five literal-carrying token
/// variants, whatever the token stream was.
pub proof fn lemma_parsed_expression_wf(toks: Seq<TokenV>, i: int, fuel: nat)
    ensures
        expression_s(toks, i, fuel) matches Ok((e, _)) ==> crate::expr::wf_expr(e),
{
    lemma_equality_wf(toks, i, fuel);
}

/// Parser state: the token stream a lexer produced and a cursor index
/// into it.
pub struct Parser {
    src: Vec<Token>,
    current: usize,
}

impl Parser {
    /// The views of the tokens the parser walks.
    pub closed spec fn toks(&self) -> Seq<TokenV> {
        tokens_view(self.src@)
    }

    /// The cursor index.
    pub closed spec fn cursor(&self) -> int {
        self.current as int
    }

    /// Well-formed: the cursor never leaves `[0, length]`.
    pub closed spec fn wf(&self) -> bool {
        self.current <= self.src@.len()
    }

    /// A parser over a token stream, with the cursor at the start.
    pub fn new(src: Vec<Token>) -> (r: Parser)
        ensures
            r.wf(),
            r.toks() == tokens_view(src@),
            r.cursor() == 0,
    {
        Parser { src, current: 0 }
    }

    /// The token `step` places ahead of the cursor; anything outside
    /// the stream reads as `EOF`.
    fn peek(&self, step: usize) -> (r: Token)
        requires
            self.wf(),
        ensures
            r@ == tok_at(self.toks(), self.cursor() + step),
    {
        let remaining = self.src.len() - self.current;
        if step < remaining {
            self.src[self.current + step].dup()
        } else {
            Token::EOF
        }
    }

    /// The token under the cursor.
    fn get_current(&self) -> (r: Token)
        requires
            self.wf(),
        ensures
            r@ == tok_at(self.toks(), self.cursor()),
    {
        self.peek(0)
    }

    /// Steps the cursor forward, only while positions remain ahead.
    fn move_on(&mut self, step: usize)
        requires
            old(self).wf(),
        ensures
            final(self).wf(),
            final(self).toks() == old(self).toks(),
            final(self).cursor() == stepk(old(self).toks(), old(self).cursor(), step as int),
    {
        let remaining = self.src.len() - self.current;
        if step < remaining {
            self.current = self.current + step;
        }
    }

    /// `primary`, as `primary_s` defines it.
    #[verifier::rlimit(50)]
    fn primary(&mut self, fuel: usize) -> (r: Result<Box<Expr>, DuYError>)
        requires
            old(self).wf(),
        ensures
            final(self).wf(),
            final(self).toks() == old(self).toks(),
            match primary_s(old(self).toks(), old(self).cursor(), fuel as nat) {
                Ok((e, next)) => r matches Ok(b) && b@ == e && final(self).cursor() == next,
                Err(err) => r is Err && r->Err_0 == err,
            },
        decreases fuel, 0int,
    {
        let ghost tv = self.toks();
        let x = self.get_current();
        self.move_on(1);
        match x {
            Token::BooleanLiteral(_) => Ok(Box::new(Expr::Literals(x))),
            Token::StringLiteral(_) => Ok(Box::new(Expr::Literals(x))),
            Token::IntegerLiteral(_) => Ok(Box::new(Expr::Literals(x))),
            Token::FloatLiteral(_) => Ok(Box::new(Expr::Literals(x))),
            Token::Identifier(_) => Ok(Box::new(Expr::Literals(x))),
            Token::OParen => {
                let ghost j = self.cursor();
                let n = self.src.len();
                let mut k: usize = self.current;
                while k < n
                    invariant
                        self.wf(),
                        self.toks() == tv,
                        n == self.src@.len(),
                        j <= k as int <= n as int,
                        forall|m: int| j <= m < k as int ==> !(#[trigger] tv[m] is CParen),
                    ensures
                        self.wf(),
                        self.toks() == tv,
                        j <= k as int <= n as int,
                        k < n ==> tv[k as int] is CParen,
                        k == n ==> forall|m: int|
                            j <= m < n as int ==> !(#[trigger] tv[m] is CParen),
                    decreases n - k,
                {
                    let is_close = matches!(&self.src[k], Token::CParen);
                    if is_close {
                        break;
                    }
                    k += 1;
                }
                if k == n {
                    return Err(DuYError::MissingClosingParen);
                }
                if fuel == 0 {
                    return Err(DuYError::ExpectedExpression);
                }
                let e0 = match self.equality(fuel - 1) {
                    Ok(e) => e,
                    Err(err) => {
                        return Err(err);
                    },
                };
                self.move_on(1);
                Ok(Box::new(Expr::Grouping(e0)))
            },
            _ => Err(DuYError::ExpectedExpression),
        }
    }

    /// `unary`, as `unary_s` defines it.
    fn unary(&mut self, fuel: usize) -> (r: Result<Box<Expr>, DuYError>)
        requires
            old(self).wf(),
        ensures
            final(self).wf(),
            final(self).toks() == old(self).toks(),
            match unary_s(old(self).toks(), old(self).cursor(), fuel as nat) {
                Ok((e, next)) => r matches Ok(b) && b@ == e && final(self).cursor() == next,
                Err(err) => r is Err && r->Err_0 == err,
            },
        decreases fuel, 1int,
    {
        let x = self.get_current();
        let is_unary_op = matches!(x, Token::Not | Token::Minus);
        if is_unary_op {
            if fuel == 0 {
                return Err(DuYError::ExpectedExpression);
            }
            self.move_on(1);
            match self.unary(fuel - 1) {
                Ok(e0) => Ok(Box::new(Expr::Unary((x, e0)))),
                Err(err) => Err(err),
            }
        } else {
            self.primary(fuel)
        }
    }

    /// The fold step of `power`, as the spec `power_tail` defines it.
    fn power_rest(&mut self, acc: Box<Expr>, fuel: usize) -> (r: Result<Box<Expr>, DuYError>)
        requires
            old(self).wf(),
        ensures
            final(self).wf(),
            final(self).toks() == old(self).toks(),
            match power_tail(old(self).toks(), acc@, old(self).cursor(), fuel as nat) {
                Ok((e, next)) => r matches Ok(b) && b@ == e && final(self).cursor() == next,
                Err(err) => r is Err && r->Err_0 == err,
            },
        decreases fuel, 2int,
    {
        let x = self.get_current();
        if matches!(x, Token::EOF) {
            return Ok(acc);
        }
        if matches!(x, Token::Pow) {
            if fuel == 0 {
                return Err(DuYError::ExpectedExpression);
            }
            self.move_on(1);
            let rhs = match self.unary(fuel - 1) {
                Ok(e) => e,
                Err(err) => {
                    return Err(err);
                },
            };
            self.power_rest(Box::new(Expr::Binary((acc, x, rhs))), fuel - 1)
        } else {
            Ok(acc)
        }
    }

    /// `power`, as `power_s` defines it: a left-associative fold of
    /// `^` over unary operands.
    fn power(&mut self, fuel: usize) -> (r: Result<Box<Expr>, DuYError>)
        requires
            old(self).wf(),
        ensures
            final(self).wf(),
            final(self).toks() == old(self).toks(),
            match power_s(old(self).toks(), old(self).cursor(), fuel as nat) {
                Ok((e, next)) => r matches Ok(b) && b@ == e && final(self).cursor() == next,
                Err(err) => r is Err && r->Err_0 == err,
            },
        decreases fuel, 3int,
    {
        let expr = match self.unary(fuel) {
            Ok(e) => e,
            Err(err) => {
                return Err(err);
            },
        };
        self.power_rest(expr, fuel)
    }

    /// The fold step of `factor`, as the spec `factor_tail` defines it.
    fn factor_rest(&mut self, acc: Box<Expr>, fuel: usize) -> (r: Result<Box<Expr>, DuYError>)
        requires
            old(self).wf(),
        ensures
            final(self).wf(),
            final(self).toks() == old(self).toks(),
            match factor_tail(old(self).toks(), acc@, old(self).cursor(), fuel as nat) {
                Ok((e, next)) => r matches Ok(b) && b@ == e && final(self).cursor() == next,
                Err(err) => r is Err && r->Err_0 == err,
            },
        decreases fuel, 4int,
    {
        let x = self.get_current();
        if matches!(x, Token::EOF) {
            return Ok(acc);
        }
        if matches!(x, Token::Mul | Token::Div | Token::Mod) {
            if fuel == 0 {
                return Err(DuYError::ExpectedExpression);
            }
            self.move_on(1);
            let rhs = match self.power(fuel - 1) {
                Ok(e) => e,
                Err(err) => {
                    return Err(err);
                },
            };
            self.factor_rest(Box::new(Expr::Binary((acc, x, rhs))), fuel - 1)
        } else {
            Ok(acc)
        }
    }

    /// `factor`, as `factor_s` defines it: a left-associative fold of
    /// `*`, `/` and `mod` over power operands.
    fn factor(&mut self, fuel: usize) -> (r: Result<Box<Expr>, DuYError>)
        requires
            old(self).wf(),
        ensures
            final(self).wf(),
            final(self).toks() == old(self).toks(),
            match factor_s(old(self).toks(), old(self).cursor(), fuel as nat) {
                Ok((e, next)) => r matches Ok(b) && b@ == e && final(self).cursor() == next,
                Err(err) => r is Err && r->Err_0 == err,
            },
        decreases fuel, 5int,
    {
        let expr = match self.power(fuel) {
            Ok(e) => e,
            Err(err) => {
                return Err(err);
            },
        };
        self.factor_rest(expr, fuel)
    }

    /// The fold step of `term`, as the spec `term_tail` defines it.
    fn term_rest(&mut self, acc: Box<Expr>, fuel: usize) -> (r: Result<Box<Expr>, DuYError>)
        requires
            old(self).wf(),
        ensures
            final(self).wf(),
            final(self).toks() == old(self).toks(),
            match term_tail(old(self).toks(), acc@, old(self).cursor(), fuel as nat) {
                Ok((e, next)) => r matches Ok(b) && b@ == e && final(self).cursor() == next,
                Err(err) => r is Err && r->Err_0 == err,
            },
        decreases fuel, 6int,
    {
        let x = self.get_current();
        if matches!(x, Token::EOF) {
            return Ok(acc);
        }
        if matches!(x, Token::Plus | Token::Minus) {
            if fuel == 0 {
                return Err(DuYError::ExpectedExpression);
            }
            self.move_on(1);
            let rhs = match self.factor(fuel - 1) {
                Ok(e) => e,
                Err(err) => {
                    return Err(err);
                },
            };
            self.term_rest(Box::new(Expr::Binary((acc, x, rhs))), fuel - 1)
        } else {
            Ok(acc)
        }
    }

    /// `term`, as `term_s` defines it: a left-associative fold of `+`
    /// and `-` over factor operands.
    fn term(&mut self, fuel: usize) -> (r: Result<Box<Expr>, DuYError>)
        requires
            old(self).wf(),
        ensures
            final(self).wf(),
            final(self).toks() == old(self).toks(),
            match term_s(old(self).toks(), old(self).cursor(), fuel as nat) {
                Ok((e, next)) => r matches Ok(b) && b@ == e && final(self).cursor() == next,
                Err(err) => r is Err && r->Err_0 == err,
            },
        decreases fuel, 7int,
    {
        let expr = match self.factor(fuel) {
            Ok(e) => e,
            Err(err) => {
                return Err(err);
            },
        };
        self.term_rest(expr, fuel)
    }

    /// The fold step of `comparison`, as the spec `comparison_tail`
    /// defines it.
    fn comparison_rest(&mut self, acc: Box<Expr>, fuel: usize) -> (r: Result<Box<Expr>, DuYError>)
        requires
            old(self).wf(),
        ensures
            final(self).wf(),
            final(self).toks() == old(self).toks(),
            match comparison_tail(old(self).toks(), acc@, old(self).cursor(), fuel as nat) {
                Ok((e, next)) => r matches Ok(b) && b@ == e && final(self).cursor() == next,
                Err(err) => r is Err && r->Err_0 == err,
            },
        decreases fuel, 8int,
    {
        let x = self.get_current();
        if matches!(x, Token::EOF) {
            return Ok(acc);
        }
        if matches!(x, Token::Great | Token::GreatEq | Token::Less | Token::LessEq) {
            if fuel == 0 {
                return Err(DuYError::ExpectedExpression);
            }
            self.move_on(1);
            let rhs = match self.term(fuel - 1) {
                Ok(e) => e,
                Err(err) => {
                    return Err(err);
                },
            };
            self.comparison_rest(Box::new(Expr::Binary((acc, x, rhs))), fuel - 1)
        } else {
            Ok(acc)
        }
    }

    /// `comparison`, as `comparison_s` defines it: a left-associative
    /// fold of the four ordering operators over term operands.
    fn comparison(&mut self, fuel: usize) -> (r: Result<Box<Expr>, DuYError>)
        requires
            old(self).wf(),
        ensures
            final(self).wf(),
            final(self).toks() == old(self).toks(),
            match comparison_s(old(self).toks(), old(self).cursor(), fuel as nat) {
                Ok((e, next)) => r matches Ok(b) && b@ == e && final(self).cursor() == next,
                Err(err) => r is Err && r->Err_0 == err,
            },
        decreases fuel, 9int,
    {
        let expr = match self.term(fuel) {
            Ok(e) => e,
            Err(err) => {
                return Err(err);
            },
        };
        self.comparison_rest(expr, fuel)
    }

    /// The fold step of `equality`, as the spec `equality_tail`
    /// defines it.
    fn equality_rest(&mut self, acc: Box<Expr>, fuel: usize) -> (r: Result<Box<Expr>, DuYError>)
        requires
            old(self).wf(),
        ensures
            final(self).wf(),
            final(self).toks() == old(self).toks(),
            match equality_tail(old(self).toks(), acc@, old(self).cursor(), fuel as nat) {
                Ok((e, next)) => r matches Ok(b) && b@ == e && final(self).cursor() == next,
                Err(err) => r is Err && r->Err_0 == err,
            },
        decreases fuel, 10int,
    {
        let x = self.get_current();
        if matches!(x, Token::EOF) {
            return Ok(acc);
        }
        if matches!(x, Token::Eq | Token::Neq) {
            if fuel == 0 {
                return Err(DuYError::ExpectedExpression);
            }
            self.move_on(1);
            let rhs = match self.comparison(fuel - 1) {
                Ok(e) => e,
                Err(err) => {
                    return Err(err);
                },
            };
            self.equality_rest(Box::new(Expr::Binary((acc, x, rhs))), fuel - 1)
        } else {
            Ok(acc)
        }
    }

    /// `equality`, as `equality_s` defines it: a left-associative fold
    /// of `=` and `<>` over comparison operands.
    fn equality(&mut self, fuel: usize) -> (r: Result<Box<Expr>, DuYError>)
        requires
            old(self).wf(),
        ensures
            final(self).wf(),
            final(self).toks() == old(self).toks(),
            match equality_s(old(self).toks(), old(self).cursor(), fuel as nat) {
                Ok((e, next)) => r matches Ok(b) && b@ == e && final(self).cursor() == next,
                Err(err) => r is Err && r->Err_0 == err,
            },
        decreases fuel, 11int,
    {
        let expr = match self.comparison(fuel) {
            Ok(e) => e,
            Err(err) => {
                return Err(err);
            },
        };
        self.equality_rest(expr, fuel)
    }

    /// Parses one expression from the cursor on: the grammar's entry
    /// level with the full step budget.
    pub fn expression(&mut self) -> (r: Result<Expr, DuYError>)
        requires
            old(self).wf(),
        ensures
            final(self).wf(),
            final(self).toks() == old(self).toks(),
            match expression_s(old(self).toks(), old(self).cursor(), MAX_DEPTH as nat) {
                Ok((e, next)) => r matches Ok(x) && x@ == e && final(self).cursor() == next,
                Err(err) => r is Err && r->Err_0 == err,
            },
    {
        match self.equality(MAX_DEPTH) {
            Ok(b) => Ok(*b),
            Err(err) => Err(err),
        }
    }

    /// Recognizes the one statement form `write ( <string> ) ;` and
    /// wraps the string literal as a `write` procedure call; any other
    /// token shape is an `InvalidStatement`.
    pub fn statement(&mut self) -> (r: Result<Statement, DuYError>)
        requires
            old(self).wf(),
        ensures
            final(self).wf(),
            final(self).toks() == old(self).toks(),
            statement_shape(old(self).toks(), old(self).cursor()) ==> {
                &&& r matches Ok(st)
                &&& st.spec_expression() == ExprV::Literals(
                    tok_at(old(self).toks(), old(self).cursor() + 2),
                )
                &&& st.spec_type() matches StatementType::ProcCall(w) && w@ is Write
                &&& final(self).cursor() == old(self).cursor() + 3
            },
            !statement_shape(old(self).toks(), old(self).cursor()) ==> r == Err::<
                Statement,
                DuYError,
            >(DuYError::InvalidStatement) && final(self).cursor() == old(self).cursor(),
    {
        let t0 = self.peek(0);
        let t1 = self.peek(1);
        let t2 = self.peek(2);
        let t3 = self.peek(3);
        let t4 = self.peek(4);
        let shape = matches!(t0, Token::Write) && matches!(t1, Token::OParen) && matches!(
            t2,
            Token::StringLiteral(_),
        ) && matches!(t3, Token::CParen) && matches!(t4, Token::SemiColon);
        if !shape {
            return Err(DuYError::InvalidStatement);
        }
        self.move_on(2);
        let expr = match self.expression() {
            Ok(e) => e,
            Err(err) => {
                // unreachable: a stream matching the shape always
                // parses as a string-literal expression
                proof {
                    assert(false);
                }
                return Err(err);
            },
        };
        Ok(Statement::new(expr, StatementType::ProcCall(Token::Write)))
    }
}

} // verus!
