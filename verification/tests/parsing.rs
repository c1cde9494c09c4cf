use duy::error::DuYError;
use duy::expr::Expr;
use duy::parser::Parser;
use duy::statement::{Statement, StatementType};
use duy::token::Token;
use duy::tokenizer::Tokenizer;

fn parse(src: &str) -> Result<Expr, DuYError> {
    let tokens = Tokenizer::new(src)
        .tokenize_full_src()
        .expect("tokenizing should succeed");
    Parser::new(tokens).expression()
}

fn lit(t: Token) -> Box<Expr> {
    Box::new(Expr::Literals(t))
}

#[test]
fn precedence_shapes() {
    // 1+2*3 parses as 1 + (2*3)
    let expected = Expr::Binary((
        lit(Token::IntegerLiteral(1)),
        Token::Plus,
        Box::new(Expr::Binary((
            lit(Token::IntegerLiteral(2)),
            Token::Mul,
            lit(Token::IntegerLiteral(3)),
        ))),
    ));
    assert_eq!(parse("1+2*3"), Ok(expected));

    // (1+2)*3 groups explicitly
    let expected = Expr::Binary((
        Box::new(Expr::Grouping(Box::new(Expr::Binary((
            lit(Token::IntegerLiteral(1)),
            Token::Plus,
            lit(Token::IntegerLiteral(2)),
        ))))),
        Token::Mul,
        lit(Token::IntegerLiteral(3)),
    ));
    assert_eq!(parse("(1+2)*3"), Ok(expected));
}

#[test]
fn power_is_left_associative() {
    // 2^3^2 parses as (2^3)^2
    let expected = Expr::Binary((
        Box::new(Expr::Binary((
            lit(Token::IntegerLiteral(2)),
            Token::Pow,
            lit(Token::IntegerLiteral(3)),
        ))),
        Token::Pow,
        lit(Token::IntegerLiteral(2)),
    ));
    assert_eq!(parse("2^3^2"), Ok(expected));
}

#[test]
fn unary_operators_nest() {
    let expected = Expr::Unary((
        Token::Minus,
        Box::new(Expr::Unary((
            Token::Minus,
            lit(Token::IntegerLiteral(1)),
        ))),
    ));
    assert_eq!(parse("--1"), Ok(expected));
}

#[test]
fn comparison_and_equality_levels() {
    // 1+2 < 4 = true parses as ((1+2) < 4) = true
    let sum = Expr::Binary((
        lit(Token::IntegerLiteral(1)),
        Token::Plus,
        lit(Token::IntegerLiteral(2)),
    ));
    let cmp = Expr::Binary((
        Box::new(sum),
        Token::Less,
        lit(Token::IntegerLiteral(4)),
    ));
    let expected = Expr::Binary((
        Box::new(cmp),
        Token::Eq,
        lit(Token::BooleanLiteral(true)),
    ));
    assert_eq!(parse("1+2<4=true"), Ok(expected));
}

#[test]
fn parse_errors() {
    assert_eq!(parse(""), Err(DuYError::ExpectedExpression));
    assert_eq!(parse("+"), Err(DuYError::ExpectedExpression));
    assert_eq!(parse("1+"), Err(DuYError::ExpectedExpression));
    assert_eq!(parse("(1+2"), Err(DuYError::MissingClosingParen));
}

#[test]
fn statement_write_empty_string() {
    let tokens = Tokenizer::new("write('');")
        .tokenize_full_src()
        .expect("tokenizing should succeed");
    let mut parser = Parser::new(tokens);
    let statement = parser.statement().expect("statement should parse");
    let expected = Statement::new(
        Expr::Literals(Token::StringLiteral(String::new())),
        StatementType::ProcCall(Token::Write),
    );
    assert_eq!(statement, expected);
}

#[test]
fn statement_write_any_string() {
    let tokens = Tokenizer::new("write('hello');")
        .tokenize_full_src()
        .expect("tokenizing should succeed");
    let statement = Parser::new(tokens).statement().expect("statement parses");
    let expected = Statement::new(
        Expr::Literals(Token::StringLiteral("hello".to_string())),
        StatementType::ProcCall(Token::Write),
    );
    assert_eq!(statement, expected);
}

#[test]
fn statement_rejects_other_shapes() {
    for src in ["read('');", "write(1);", "write('')", "write;", "1+2;"] {
        let tokens = Tokenizer::new(src)
            .tokenize_full_src()
            .expect("tokenizing should succeed");
        assert_eq!(
            Parser::new(tokens).statement(),
            Err(DuYError::InvalidStatement),
            "input {:?} should be an invalid statement",
            src
        );
    }
}

#[test]
fn display_forms() {
    let e = parse("1+2*3").unwrap();
    assert_eq!(e.display_string(), "(1 Plus (2 Mul 3))");
    let e = parse("(1)").unwrap();
    assert_eq!(e.display_string(), "(1)");
    let e = parse("--1").unwrap();
    assert_eq!(e.display_string(), "<Minus <Minus 1>>");
    let e = parse("'text'").unwrap();
    assert_eq!(e.display_string(), "text");
}
