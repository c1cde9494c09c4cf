use duy::error::DuYError;
use duy::expr::{apply_binary, apply_unary, Expr, Pow};
use duy::parser::Parser;
use duy::token::Token;
use duy::tokenizer::Tokenizer;

fn run(src: &str) -> Result<Token, DuYError> {
    let tokens = Tokenizer::new(src)
        .tokenize_full_src()
        .expect("tokenizing should succeed");
    let expr = Parser::new(tokens).expression().expect("parsing succeeds");
    expr.eval()
}

#[test]
fn literal_round_trip() {
    let cases = vec![
        Token::IntegerLiteral(5),
        Token::IntegerLiteral(-3),
        Token::FloatLiteral("1.5".to_string()),
        Token::BooleanLiteral(true),
        Token::BooleanLiteral(false),
    ];
    for t in cases {
        let e = Expr::Literals(t.dup());
        assert_eq!(e.eval(), Ok(t));
    }
}

#[test]
fn precedence_values() {
    assert_eq!(run("1+2*3"), Ok(Token::IntegerLiteral(7)));
    assert_eq!(run("(1+2)*3"), Ok(Token::IntegerLiteral(9)));
    assert_eq!(run("2^3^2"), Ok(Token::IntegerLiteral(64)));
}

#[test]
fn unary_chaining_value() {
    assert_eq!(run("--1"), Ok(Token::IntegerLiteral(1)));
    assert_eq!(run("-1"), Ok(Token::IntegerLiteral(-1)));
    assert_eq!(run("!true"), Ok(Token::BooleanLiteral(false)));
    assert_eq!(run("!!false"), Ok(Token::BooleanLiteral(false)));
}

#[test]
fn mixed_type_arithmetic_is_a_type_mismatch() {
    assert_eq!(run("1+1.5"), Err(DuYError::TypeMismatch));
    assert_eq!(run("1.5*2"), Err(DuYError::TypeMismatch));
    assert_eq!(run("true+1"), Err(DuYError::TypeMismatch));
    // unary minus negates through integer 0, so a float operand is a
    // mismatch as well
    assert_eq!(run("-1.5"), Err(DuYError::TypeMismatch));
}

#[test]
fn division_semantics() {
    assert_eq!(run("7/2"), Ok(Token::IntegerLiteral(3)));
    assert_eq!(run("-7/2"), Ok(Token::IntegerLiteral(-3)));
    assert_eq!(run("7 mod 2"), Ok(Token::IntegerLiteral(1)));
    assert_eq!(run("-7 mod 2"), Ok(Token::IntegerLiteral(-1)));
    assert_eq!(run("1/0"), Err(DuYError::DivisionByZero));
    assert_eq!(run("5 mod 0"), Err(DuYError::DivisionByZero));
}

#[test]
fn exponent_semantics() {
    assert_eq!(run("2^10"), Ok(Token::IntegerLiteral(1024)));
    assert_eq!(run("5^0"), Ok(Token::IntegerLiteral(1)));
    assert_eq!(run("8^3/23+1312"), Ok(Token::IntegerLiteral(1334)));
    // a negative exponent does not fit the unsigned 32-bit range
    assert_eq!(run("2^(0-1)"), Err(DuYError::TypeMismatch));
}

#[test]
fn arithmetic_wraps_on_overflow() {
    assert_eq!(
        run("9223372036854775807+1"),
        Ok(Token::IntegerLiteral(i64::MIN))
    );
}

#[test]
fn integer_comparisons() {
    assert_eq!(run("1<2"), Ok(Token::BooleanLiteral(true)));
    assert_eq!(run("2<=1"), Ok(Token::BooleanLiteral(false)));
    assert_eq!(run("3>2"), Ok(Token::BooleanLiteral(true)));
    assert_eq!(run("3>=4"), Ok(Token::BooleanLiteral(false)));
    assert_eq!(run("3=3"), Ok(Token::BooleanLiteral(true)));
    assert_eq!(run("3<>3"), Ok(Token::BooleanLiteral(false)));
}

#[test]
fn unsupported_forms() {
    // identifiers and strings are not values to the evaluator
    assert_eq!(run("somename"), Err(DuYError::UnsupportedLiteral));
    assert_eq!(run("'text'"), Err(DuYError::UnsupportedLiteral));
    // boolean equality has no defined rule in this core
    assert_eq!(run("true=false"), Err(DuYError::UnsupportedOperator));
    // `and` is lexed and parsed as a token but never evaluated
    let e = Expr::Binary((
        Box::new(Expr::Literals(Token::IntegerLiteral(1))),
        Token::And,
        Box::new(Expr::Literals(Token::IntegerLiteral(2))),
    ));
    assert_eq!(e.eval(), Err(DuYError::UnsupportedOperator));
    // `!` demands a boolean
    assert_eq!(run("!1"), Err(DuYError::TypeMismatch));
}

#[test]
fn float_work_is_delegated() {
    assert_eq!(run("1.5+2.5"), Err(DuYError::FloatArithmetic));
    assert_eq!(run("1.5<2.5"), Err(DuYError::FloatArithmetic));
}

#[test]
fn apply_functions_directly() {
    assert_eq!(
        apply_binary(
            &Token::Plus,
            &Token::IntegerLiteral(2),
            &Token::IntegerLiteral(3)
        ),
        Ok(Token::IntegerLiteral(5))
    );
    assert_eq!(
        apply_binary(
            &Token::And,
            &Token::IntegerLiteral(1),
            &Token::IntegerLiteral(2)
        ),
        Err(DuYError::UnsupportedOperator)
    );
    assert_eq!(
        apply_binary(
            &Token::Eq,
            &Token::StringLiteral("a".to_string()),
            &Token::StringLiteral("a".to_string())
        ),
        Err(DuYError::UnsupportedOperator)
    );
    assert_eq!(
        apply_unary(&Token::Minus, &Token::IntegerLiteral(9)),
        Ok(Token::IntegerLiteral(-9))
    );
    assert_eq!(
        apply_unary(&Token::Not, &Token::BooleanLiteral(true)),
        Ok(Token::BooleanLiteral(false))
    );
    assert_eq!(
        apply_unary(&Token::Plus, &Token::IntegerLiteral(1)),
        Err(DuYError::UnsupportedOperator)
    );
}

#[test]
fn pow_trait_dispatch() {
    assert_eq!(
        Token::IntegerLiteral(2).pow_token(Token::IntegerLiteral(10)),
        Ok(Token::IntegerLiteral(1024))
    );
    assert_eq!(
        Token::BooleanLiteral(true).pow_token(Token::IntegerLiteral(2)),
        Err(DuYError::TypeMismatch)
    );
}

#[test]
fn full_pipeline_expression() {
    assert_eq!(
        run("(1+2)*3+5*6+8^3/23+1312"),
        Ok(Token::IntegerLiteral(1373))
    );
}
