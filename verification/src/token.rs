use vstd::prelude::*;
use vstd::string::{StrSliceExecFns, StringExecFns};

verus! {

/// The smallest lexical unit of the language: punctuation, a keyword, an
/// operator, or a literal carrying a value.
///
/// A float literal carries the decimal text exactly as it was scanned
/// (digits with one `.`). This library never converts that text to a
/// machine floating-point value; the embedding application does, when it
/// needs to compute with it.
#[derive(Debug, Clone, PartialEq)]
pub enum Token {
    // keywords
    Var,
    If,
    Then,
    Else,
    While,
    For,
    Do,
    Function,
    Begin,
    End,
    // built-in procedure names
    Write,
    Read,
    Sqrt,
    Abs,
    Sort,
    Len,
    Endl,
    // structure and punctuation
    SemiColon,
    Comment,
    EOF,
    WhiteSpace,
    OParen,
    CParen,
    // operators
    Plus,
    Minus,
    Mul,
    Assign,
    Div,
    Mod,
    Pow,
    And,
    Or,
    Not,
    Eq,
    Neq,
    Great,
    GreatEq,
    Less,
    LessEq,
    // literals
    Identifier(String),
    StringLiteral(String),
    IntegerLiteral(i64),
    FloatLiteral(String),
    BooleanLiteral(bool),
}

/// The abstract value of a `Token`: text payloads are sequences of
/// characters and the integer payload is a mathematical integer. All
/// contracts in this library speak of tokens through this view.
pub enum TokenV {
    Var,
    If,
    Then,
    Else,
    While,
    For,
    Do,
    Function,
    Begin,
    End,
    Write,
    Read,
    Sqrt,
    Abs,
    Sort,
    Len,
    Endl,
    SemiColon,
    Comment,
    EOF,
    WhiteSpace,
    OParen,
    CParen,
    Plus,
    Minus,
    Mul,
    Assign,
    Div,
    Mod,
    Pow,
    And,
    Or,
    Not,
    Eq,
    Neq,
    Great,
    GreatEq,
    Less,
    LessEq,
    Identifier(Seq<char>),
    StringLiteral(Seq<char>),
    IntegerLiteral(int),
    FloatLiteral(Seq<char>),
    BooleanLiteral(bool),
}

impl View for Token {
    type V = TokenV;

    open spec fn view(&self) -> TokenV {
        match self {
            Token::Var => TokenV::Var,
            Token::If => TokenV::If,
            Token::Then => TokenV::Then,
            Token::Else => TokenV::Else,
            Token::While => TokenV::While,
            Token::For => TokenV::For,
            Token::Do => TokenV::Do,
            Token::Function => TokenV::Function,
            Token::Begin => TokenV::Begin,
            Token::End => TokenV::End,
            Token::Write => TokenV::Write,
            Token::Read => TokenV::Read,
            Token::Sqrt => TokenV::Sqrt,
            Token::Abs => TokenV::Abs,
            Token::Sort => TokenV::Sort,
            Token::Len => TokenV::Len,
            Token::Endl => TokenV::Endl,
            Token::SemiColon => TokenV::SemiColon,
            Token::Comment => TokenV::Comment,
            Token::EOF => TokenV::EOF,
            Token::WhiteSpace => TokenV::WhiteSpace,
            Token::OParen => TokenV::OParen,
            Token::CParen => TokenV::CParen,
            Token::Plus => TokenV::Plus,
            Token::Minus => TokenV::Minus,
            Token::Mul => TokenV::Mul,
            Token::Assign => TokenV::Assign,
            Token::Div => TokenV::Div,
            Token::Mod => TokenV::Mod,
            Token::Pow => TokenV::Pow,
            Token::And => TokenV::And,
            Token::Or => TokenV::Or,
            Token::Not => TokenV::Not,
            Token::Eq => TokenV::Eq,
            Token::Neq => TokenV::Neq,
            Token::Great => TokenV::Great,
            Token::GreatEq => TokenV::GreatEq,
            Token::Less => TokenV::Less,
            Token::LessEq => TokenV::LessEq,
            Token::Identifier(s) => TokenV::Identifier(s@),
            Token::StringLiteral(s) => TokenV::StringLiteral(s@),
            Token::IntegerLiteral(i) => TokenV::IntegerLiteral(*i as int),
            Token::FloatLiteral(s) => TokenV::FloatLiteral(s@),
            Token::BooleanLiteral(b) => TokenV::BooleanLiteral(*b),
        }
    }
}

/// The view of an optional token.
pub open spec fn opt_token_view(o: Option<Token>) -> Option<TokenV> {
    match o {
        Option::Some(t) => Option::Some(t@),
        Option::None => Option::None,
    }
}

/// The view of a token-or-error result.
pub open spec fn res_token_view(r: Result<Token, crate::error::DuYError>) -> Result<
    TokenV,
    crate::error::DuYError,
> {
    match r {
        Result::Ok(t) => Result::Ok(t@),
        Result::Err(e) => Result::Err(e),
    }
}

/// The views of a sequence of tokens.
pub open spec fn tokens_view(v: Seq<Token>) -> Seq<TokenV> {
    v.map_values(|t: Token| t@)
}

/// Whether a token view is one of the literal-carrying variants.
pub open spec fn is_literal_token(t: TokenV) -> bool {
    ||| t is Identifier
    ||| t is StringLiteral
    ||| t is IntegerLiteral
    ||| t is FloatLiteral
    ||| t is BooleanLiteral
}

/// Whether a token view is a value the evaluator can produce.
pub open spec fn is_value_token(t: TokenV) -> bool {
    ||| t is IntegerLiteral
    ||| t is FloatLiteral
    ||| t is BooleanLiteral
}

impl Token {
    /// Whether this token is the whitespace marker.
    pub fn is_whitespace(&self) -> (r: bool)
        ensures
            r == (self@ is WhiteSpace),
    {
        matches!(self, Token::WhiteSpace)
    }

    /// A copy of this token; literal payloads are copied character for
    /// character.
    pub fn dup(&self) -> (r: Token)
        ensures
            r@ == self@,
    {
        match self {
            Token::Var => Token::Var,
            Token::If => Token::If,
            Token::Then => Token::Then,
            Token::Else => Token::Else,
            Token::While => Token::While,
            Token::For => Token::For,
            Token::Do => Token::Do,
            Token::Function => Token::Function,
            Token::Begin => Token::Begin,
            Token::End => Token::End,
            Token::Write => Token::Write,
            Token::Read => Token::Read,
            Token::Sqrt => Token::Sqrt,
            Token::Abs => Token::Abs,
            Token::Sort => Token::Sort,
            Token::Len => Token::Len,
            Token::Endl => Token::Endl,
            Token::SemiColon => Token::SemiColon,
            Token::Comment => Token::Comment,
            Token::EOF => Token::EOF,
            Token::WhiteSpace => Token::WhiteSpace,
            Token::OParen => Token::OParen,
            Token::CParen => Token::CParen,
            Token::Plus => Token::Plus,
            Token::Minus => Token::Minus,
            Token::Mul => Token::Mul,
            Token::Assign => Token::Assign,
            Token::Div => Token::Div,
            Token::Mod => Token::Mod,
            Token::Pow => Token::Pow,
            Token::And => Token::And,
            Token::Or => Token::Or,
            Token::Not => Token::Not,
            Token::Eq => Token::Eq,
            Token::Neq => Token::Neq,
            Token::Great => Token::Great,
            Token::GreatEq => Token::GreatEq,
            Token::Less => Token::Less,
            Token::LessEq => Token::LessEq,
            Token::Identifier(s) => Token::Identifier(s.clone()),
            Token::StringLiteral(s) => Token::StringLiteral(s.clone()),
            Token::IntegerLiteral(i) => Token::IntegerLiteral(*i),
            Token::FloatLiteral(s) => Token::FloatLiteral(s.clone()),
            Token::BooleanLiteral(b) => Token::BooleanLiteral(*b),
        }
    }
}

/// The decimal digit character for a value below ten.
pub open spec fn digit_char(d: nat) -> char {
    if d == 0 {
        '0'
    } else if d == 1 {
        '1'
    } else if d == 2 {
        '2'
    } else if d == 3 {
        '3'
    } else if d == 4 {
        '4'
    } else if d == 5 {
        '5'
    } else if d == 6 {
        '6'
    } else if d == 7 {
        '7'
    } else if d == 8 {
        '8'
    } else {
        '9'
    }
}

/// The decimal digits of a natural number, most significant first.
pub open spec fn dec_digits(n: nat) -> Seq<char>
    decreases n,
{
    if n < 10 {
        seq![digit_char(n)]
    } else {
        dec_digits(n / 10).push(digit_char(n % 10))
    }
}

/// The decimal rendering of an integer: a `-` sign for negative values,
/// then the digits of the magnitude.
pub open spec fn int_text(i: int) -> Seq<char> {
    if i < 0 {
        seq!['-'] + dec_digits((-i) as nat)
    } else {
        dec_digits(i as nat)
    }
}

/// The display text of a token: keywords and operators render as fixed
/// words, literals as their values.
pub open spec fn token_text(t: TokenV) -> Seq<char> {
    match t {
        TokenV::Var => "var"@,
        TokenV::If => "if"@,
        TokenV::Then => "then"@,
        TokenV::Else => "Else"@,
        TokenV::While => "While"@,
        TokenV::For => "For"@,
        TokenV::Do => "Do"@,
        TokenV::Function => "Function"@,
        TokenV::Begin => "Begin"@,
        TokenV::End => "End"@,
        TokenV::Write => "Write"@,
        TokenV::Read => "Read"@,
        TokenV::Sqrt => "Sqrt"@,
        TokenV::Abs => "Abs"@,
        TokenV::Sort => "Sort"@,
        TokenV::Len => "Len"@,
        TokenV::Endl => "Endl"@,
        TokenV::SemiColon => "SemiColon"@,
        TokenV::Comment => "Comment"@,
        TokenV::EOF => "EOF"@,
        TokenV::WhiteSpace => "WhiteSpace"@,
        TokenV::OParen => "OParen"@,
        TokenV::CParen => "CParen"@,
        TokenV::Plus => "Plus"@,
        TokenV::Minus => "Minus"@,
        TokenV::Mul => "Mul"@,
        TokenV::Assign => "Assign"@,
        TokenV::Div => "Div"@,
        TokenV::Mod => "Mod"@,
        TokenV::Pow => "Pow"@,
        TokenV::And => "And"@,
        TokenV::Or => "Or"@,
        TokenV::Not => "Not"@,
        TokenV::Eq => "Eq"@,
        TokenV::Neq => "Neq"@,
        TokenV::Great => "Great"@,
        TokenV::GreatEq => "GreatEq"@,
        TokenV::Less => "Less"@,
        TokenV::LessEq => "LessEq"@,
        TokenV::Identifier(s) => s,
        TokenV::StringLiteral(s) => s,
        TokenV::IntegerLiteral(i) => int_text(i),
        TokenV::FloatLiteral(s) => s,
        TokenV::BooleanLiteral(b) => if b {
            "true"@
        } else {
            "false"@
        },
    }
}

/// The text of one decimal digit below ten.
fn digit_str(d: u64) -> (r: &'static str)
    requires
        d < 10,
    ensures
        r@ == seq![digit_char(d as nat)],
{
    let r: &'static str = if d == 0 {
        "0"
    } else if d == 1 {
        "1"
    } else if d == 2 {
        "2"
    } else if d == 3 {
        "3"
    } else if d == 4 {
        "4"
    } else if d == 5 {
        "5"
    } else if d == 6 {
        "6"
    } else if d == 7 {
        "7"
    } else if d == 8 {
        "8"
    } else {
        "9"
    };
    proof {
        reveal_strlit("0");
        reveal_strlit("1");
        reveal_strlit("2");
        reveal_strlit("3");
        reveal_strlit("4");
        reveal_strlit("5");
        reveal_strlit("6");
        reveal_strlit("7");
        reveal_strlit("8");
        reveal_strlit("9");
        assert(r@ =~= seq![digit_char(d as nat)]);
    }
    r
}

/// Appends the decimal digits of a value to a text.
pub(crate) fn push_digits(s: &mut String, m: u64)
    ensures
        final(s)@ == old(s)@ + dec_digits(m as nat),
    decreases m,
{
    if m < 10 {
        s.append(digit_str(m));
    } else {
        push_digits(s, m / 10);
        s.append(digit_str(m % 10));
        proof {
            assert(old(s)@ + dec_digits((m / 10) as nat) + seq![digit_char((m % 10) as nat)] =~= old(
                s,
            )@ + dec_digits(m as nat));
        }
    }
}

/// The decimal rendering of a 64-bit integer.
pub fn int_to_string(i: i64) -> (r: String)
    ensures
        r@ == int_text(i as int),
{
    let mut s = String::new();
    let m: u64 = if i < 0 {
        proof {
            reveal_strlit("-");
        }
        s.append("-");
        (-(i as i128)) as u64
    } else {
        i as u64
    };
    push_digits(&mut s, m);
    proof {
        if i < 0 {
            assert(Seq::<char>::empty() + "-"@ + dec_digits(m as nat) =~= seq!['-'] + dec_digits(
                (-(i as int)) as nat,
            ));
        } else {
            assert(Seq::<char>::empty() + dec_digits(m as nat) =~= dec_digits(i as nat));
        }
    }
    s
}

impl Token {
    /// The display text of this token: its literal value for a literal,
    /// a fixed word otherwise.
    pub fn display_string(&self) -> (r: String)
        ensures
            r@ == token_text(self@),
    {
        match self {
            Token::Var => "var".to_owned(),
            Token::If => "if".to_owned(),
            Token::Then => "then".to_owned(),
            Token::Else => "Else".to_owned(),
            Token::While => "While".to_owned(),
            Token::For => "For".to_owned(),
            Token::Do => "Do".to_owned(),
            Token::Function => "Function".to_owned(),
            Token::Begin => "Begin".to_owned(),
            Token::End => "End".to_owned(),
            Token::Write => "Write".to_owned(),
            Token::Read => "Read".to_owned(),
            Token::Sqrt => "Sqrt".to_owned(),
            Token::Abs => "Abs".to_owned(),
            Token::Sort => "Sort".to_owned(),
            Token::Len => "Len".to_owned(),
            Token::Endl => "Endl".to_owned(),
            Token::SemiColon => "SemiColon".to_owned(),
            Token::Comment => "Comment".to_owned(),
            Token::EOF => "EOF".to_owned(),
            Token::WhiteSpace => "WhiteSpace".to_owned(),
            Token::OParen => "OParen".to_owned(),
            Token::CParen => "CParen".to_owned(),
            Token::Plus => "Plus".to_owned(),
            Token::Minus => "Minus".to_owned(),
            Token::Mul => "Mul".to_owned(),
            Token::Assign => "Assign".to_owned(),
            Token::Div => "Div".to_owned(),
            Token::Mod => "Mod".to_owned(),
            Token::Pow => "Pow".to_owned(),
            Token::And => "And".to_owned(),
            Token::Or => "Or".to_owned(),
            Token::Not => "Not".to_owned(),
            Token::Eq => "Eq".to_owned(),
            Token::Neq => "Neq".to_owned(),
            Token::Great => "Great".to_owned(),
            Token::GreatEq => "GreatEq".to_owned(),
            Token::Less => "Less".to_owned(),
            Token::LessEq => "LessEq".to_owned(),
            Token::Identifier(s) => s.clone(),
            Token::StringLiteral(s) => s.clone(),
            Token::IntegerLiteral(i) => int_to_string(*i),
            Token::FloatLiteral(s) => s.clone(),
            Token::BooleanLiteral(b) => if *b {
                "true".to_owned()
            } else {
                "false".to_owned()
            },
        }
    }
}

} // verus!
