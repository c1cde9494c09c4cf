use duy::error::DuYError;
use duy::helper::{
    skip_comments, tokenize_ident, tokenize_keyword, tokenize_number_literals,
    tokenize_string_literals,
};
use duy::token::Token;
use duy::tokenizer::Tokenizer;

fn lex_all(src: &str) -> Vec<Token> {
    Tokenizer::new(src)
        .tokenize_full_src()
        .expect("tokenizing should succeed")
}

#[test]
fn single_token() {
    let test_inp = vec!["+", "-", "*", ";", "^", "/", "="];
    for operator in test_inp {
        let operator = operator.to_string();
        let mut tokenizer = Tokenizer::new(&operator);
        let _result = tokenizer
            .lex_next_token()
            .expect("Cannot parse single token");
    }
}

#[test]
fn double_tokens() {
    let test_inp = vec!["<", ">", ">=", "<=", ":="];

    for operator in test_inp {
        let operator = operator.to_string();
        let mut tokenizer = Tokenizer::new(&operator);

        let _result = tokenizer
            .lex_next_token()
            .expect("Cannot parse single token");
    }
}

#[test]
fn literals() {
    let test_inp = vec!["'this is a string'", "124124", "12.4124"];

    let mut tokenizer = Tokenizer::new(test_inp[0]);
    if let Token::StringLiteral(x) = tokenizer.lex_next_token().unwrap() {
        assert_eq!(x, "this is a string");
    } else {
        panic!("Cannot tokenize string literal")
    };

    let mut tokenizer = Tokenizer::new(test_inp[1]);
    if let Token::IntegerLiteral(x) = tokenizer.lex_next_token().unwrap() {
        assert_eq!(x, 124124);
    } else {
        panic!("Cannot tokenize integer literal")
    };

    let mut tokenizer = Tokenizer::new(test_inp[2]);
    if let Token::FloatLiteral(x) = tokenizer.lex_next_token().unwrap() {
        assert_eq!(x, "12.4124");
    } else {
        panic!("Cannot tokenize float literal")
    };
}

#[test]
fn identifier_or_keywords() {
    let test_identifier = "thisisaname";
    let mut tokenizer = Tokenizer::new(test_identifier);

    if let Token::Identifier(x) = tokenizer
        .lex_next_token()
        .expect("Cannot parse single token")
    {
        assert_eq!(x, "thisisaname");
    } else {
        panic!("Cannot lex identifiers");
    }

    let test_keywords = vec!["var", "if", "then"];
    let mut result_keywords: Vec<String> = vec![];
    for keyword in &test_keywords {
        let keyword = keyword.to_string();
        let tok = Tokenizer::new(&keyword)
            .lex_next_token()
            .unwrap()
            .display_string();
        result_keywords.push(tok);
    }
    assert_eq!(result_keywords, test_keywords);

    let test_keyword_inside_identifier = "varasdf";
    let tok = Tokenizer::new(test_keyword_inside_identifier)
        .lex_next_token()
        .unwrap();
    if let Token::Identifier(x) = tok {
        assert_eq!(x, test_keyword_inside_identifier);
    } else {
        panic!("Lex identifier");
    }
}

#[test]
fn every_single_character_operator() {
    let cases = vec![
        ("+", Token::Plus),
        ("-", Token::Minus),
        ("*", Token::Mul),
        (";", Token::SemiColon),
        ("^", Token::Pow),
        ("!", Token::Not),
        ("|", Token::Or),
        ("&", Token::And),
        ("=", Token::Eq),
        ("/", Token::Div),
        ("(", Token::OParen),
        (")", Token::CParen),
    ];
    for (src, expected) in cases {
        assert_eq!(lex_all(src), vec![expected, Token::EOF]);
    }
}

#[test]
fn every_multi_character_operator() {
    let cases = vec![
        ("<", Token::Less),
        (">", Token::Great),
        (">=", Token::GreatEq),
        ("<=", Token::LessEq),
        (":=", Token::Assign),
        ("<>", Token::Neq),
    ];
    for (src, expected) in cases {
        assert_eq!(lex_all(src), vec![expected, Token::EOF]);
    }
}

#[test]
fn lone_colon_is_invalid() {
    assert_eq!(
        Tokenizer::new(":").tokenize_full_src(),
        Err(DuYError::InvalidToken)
    );
    assert_eq!(
        Tokenizer::new(": 1").tokenize_full_src(),
        Err(DuYError::InvalidToken)
    );
}

#[test]
fn literal_streams() {
    assert_eq!(
        lex_all("'this is a string'"),
        vec![
            Token::StringLiteral("this is a string".to_string()),
            Token::EOF
        ]
    );
    assert_eq!(
        lex_all("124124"),
        vec![Token::IntegerLiteral(124124), Token::EOF]
    );
    assert_eq!(
        lex_all("12.4124"),
        vec![Token::FloatLiteral("12.4124".to_string()), Token::EOF]
    );
}

#[test]
fn keyword_prefix_stays_identifier() {
    assert_eq!(
        lex_all("varasdf"),
        vec![Token::Identifier("varasdf".to_string()), Token::EOF]
    );
    assert_eq!(lex_all("var"), vec![Token::Var, Token::EOF]);
}

#[test]
fn keywords_match_case_insensitively() {
    assert_eq!(lex_all("VAR"), vec![Token::Var, Token::EOF]);
    assert_eq!(lex_all("While"), vec![Token::While, Token::EOF]);
    assert_eq!(
        lex_all("TRUE"),
        vec![Token::BooleanLiteral(true), Token::EOF]
    );
    assert_eq!(
        lex_all("false"),
        vec![Token::BooleanLiteral(false), Token::EOF]
    );
}

#[test]
fn whitespace_is_filtered() {
    assert_eq!(
        lex_all("  1 +\t2\n"),
        vec![
            Token::IntegerLiteral(1),
            Token::Plus,
            Token::IntegerLiteral(2),
            Token::EOF
        ]
    );
    assert_eq!(lex_all(""), vec![Token::EOF]);
    assert_eq!(lex_all("   "), vec![Token::EOF]);
}

#[test]
fn comments_are_filtered() {
    assert_eq!(
        lex_all("{a comment}42"),
        vec![Token::IntegerLiteral(42), Token::EOF]
    );
    assert_eq!(lex_all("{}"), vec![Token::EOF]);
    assert_eq!(
        Tokenizer::new("{never closed").tokenize_full_src(),
        Err(DuYError::InvalidToken)
    );
}

#[test]
fn string_escapes_are_recognized_not_decoded() {
    assert_eq!(
        lex_all("'a\\'b'"),
        vec![Token::StringLiteral("a\\'b".to_string()), Token::EOF]
    );
    assert_eq!(
        lex_all("'tab\\there'"),
        vec![Token::StringLiteral("tab\\there".to_string()), Token::EOF]
    );
    assert_eq!(
        Tokenizer::new("'bad\\q'").tokenize_full_src(),
        Err(DuYError::InvalidToken)
    );
    assert_eq!(
        Tokenizer::new("'unterminated").tokenize_full_src(),
        Err(DuYError::InvalidToken)
    );
}

#[test]
fn malformed_numbers_are_invalid() {
    assert_eq!(
        Tokenizer::new("1.2.3").tokenize_full_src(),
        Err(DuYError::InvalidToken)
    );
    assert_eq!(
        Tokenizer::new("9223372036854775808").tokenize_full_src(),
        Err(DuYError::InvalidToken)
    );
    assert_eq!(
        lex_all("9223372036854775807"),
        vec![Token::IntegerLiteral(i64::MAX), Token::EOF]
    );
    assert_eq!(
        lex_all("12."),
        vec![Token::FloatLiteral("12.".to_string()), Token::EOF]
    );
}

#[test]
fn unknown_character_is_invalid() {
    assert_eq!(
        Tokenizer::new("@").tokenize_full_src(),
        Err(DuYError::InvalidToken)
    );
}

#[test]
fn eof_is_idempotent() {
    let mut t = Tokenizer::new("1");
    assert_eq!(t.lex_next_token(), Ok(Token::IntegerLiteral(1)));
    assert_eq!(t.lex_next_token(), Ok(Token::EOF));
    assert_eq!(t.lex_next_token(), Ok(Token::EOF));
}

#[test]
fn cursor_helpers() {
    let t = Tokenizer::new("ab");
    assert!(!t.pos_over_end(0));
    assert!(!t.pos_over_end(1));
    assert!(t.pos_over_end(2));

    let mut t = Tokenizer::new("ab");
    assert_eq!(t.look_ahead(0), Some('a'));
    assert_eq!(t.look_ahead(1), Some('b'));
    assert_eq!(t.look_ahead(2), None);

    let mut t = Tokenizer::new("ab cd");
    assert_eq!(t.next_white_space(), 2);
    let mut t = Tokenizer::new("abcd");
    assert_eq!(t.next_white_space(), 0);

    let t = Tokenizer::new("'ab'");
    assert_eq!(t.find_string_colon(1, '\''), Some(3));
    let t = Tokenizer::new("'ab");
    assert_eq!(t.find_string_colon(1, '\''), None);
}

#[test]
fn helper_functions_directly() {
    assert_eq!(tokenize_keyword("WRITE"), Some(Token::Write));
    assert_eq!(tokenize_keyword("mod"), Some(Token::Mod));
    assert_eq!(tokenize_keyword("notakeyword"), None);

    assert_eq!(
        tokenize_ident("abc_1"),
        Ok(Token::Identifier("abc_1".to_string()))
    );
    assert_eq!(tokenize_ident("9abc"), Err(DuYError::InvalidIdentifier));
    assert_eq!(tokenize_ident("a b"), Err(DuYError::InvalidIdentifier));

    assert_eq!(
        tokenize_number_literals("124124"),
        Ok(Token::IntegerLiteral(124124))
    );
    assert_eq!(
        tokenize_number_literals("12.4124"),
        Ok(Token::FloatLiteral("12.4124".to_string()))
    );
    assert_eq!(
        tokenize_number_literals("1.2.3"),
        Err(DuYError::InvalidToken)
    );

    assert_eq!(
        tokenize_string_literals("'x'"),
        Ok(Token::StringLiteral("x".to_string()))
    );
    assert_eq!(tokenize_string_literals("x"), Err(DuYError::InvalidToken));

    assert_eq!(skip_comments("{abc}"), 3);
    assert_eq!(skip_comments("{}"), 0);
    assert_eq!(skip_comments("{no close"), 0);
    assert_eq!(skip_comments("plain"), 0);
}

#[test]
fn token_basics() {
    assert!(Token::WhiteSpace.is_whitespace());
    assert!(!Token::Plus.is_whitespace());
    let t = Token::Identifier("x".to_string());
    assert_eq!(t.dup(), t);
    assert_eq!(Token::IntegerLiteral(-42).display_string(), "-42");
    assert_eq!(Token::IntegerLiteral(0).display_string(), "0");
    assert_eq!(Token::BooleanLiteral(true).display_string(), "true");
    assert_eq!(
        Token::StringLiteral("raw".to_string()).display_string(),
        "raw"
    );
    assert_eq!(
        Token::FloatLiteral("1.25".to_string()).display_string(),
        "1.25"
    );
}
