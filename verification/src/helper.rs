use vstd::prelude::*;

use crate::error::DuYError;
use crate::token::{res_token_view, opt_token_view, Token, TokenV};
use crate::unicode::{
    alphanumeric_char, char_is_alphanumeric, lower_of, to_lowercase,
};
use vstd::string::StrSliceExecFns;

verus! {

/// Whether a character is an ASCII decimal digit.
pub open spec fn is_digit_char(c: char) -> bool {
    48 <= c as u32 <= 57
}

/// Whether a character may appear in an identifier.
pub open spec fn is_ident_char(c: char) -> bool {
    alphanumeric_char(c) || c == '_'
}

/// Whether two texts hold the same characters.
pub(crate) fn str_eq(a: &str, b: &str) -> (r: bool)
    ensures
        r == (a@ == b@),
{
    let n = a.unicode_len();
    let m = b.unicode_len();
    if n != m {
        return false;
    }
    let mut i: usize = 0;
    while i < n
        invariant
            n == a@.len(),
            n == b@.len(),
            i <= n,
            forall|k: int| 0 <= k < i ==> a@[k] == b@[k],
        decreases n - i,
    {
        if a.get_char(i) != b.get_char(i) {
            return false;
        }
        i += 1;
    }
    proof {
        assert(a@ =~= b@);
    }
    true
}

/// The keyword or boolean literal that a lowercased word stands for, if
/// any.
pub open spec fn keyword_of(s: Seq<char>) -> Option<TokenV> {
    if s == "var"@ {
        Some(TokenV::Var)
    } else if s == "if"@ {
        Some(TokenV::If)
    } else if s == "then"@ {
        Some(TokenV::Then)
    } else if s == "else"@ {
        Some(TokenV::Else)
    } else if s == "while"@ {
        Some(TokenV::While)
    } else if s == "for"@ {
        Some(TokenV::For)
    } else if s == "do"@ {
        Some(TokenV::Do)
    } else if s == "function"@ {
        Some(TokenV::Function)
    } else if s == "begin"@ {
        Some(TokenV::Begin)
    } else if s == "end"@ {
        Some(TokenV::End)
    } else if s == "mod"@ {
        Some(TokenV::Mod)
    } else if s == "and"@ {
        Some(TokenV::And)
    } else if s == "or"@ {
        Some(TokenV::Or)
    } else if s == "not"@ {
        Some(TokenV::Not)
    } else if s == "write"@ {
        Some(TokenV::Write)
    } else if s == "read"@ {
        Some(TokenV::Read)
    } else if s == "sqrt"@ {
        Some(TokenV::Sqrt)
    } else if s == "abs"@ {
        Some(TokenV::Abs)
    } else if s == "sort"@ {
        Some(TokenV::Sort)
    } else if s == "len"@ {
        Some(TokenV::Len)
    } else if s == "endl"@ {
        Some(TokenV::Endl)
    } else if s == "true"@ {
        Some(TokenV::BooleanLiteral(true))
    } else if s == "false"@ {
        Some(TokenV::BooleanLiteral(false))
    } else {
        None
    }
}

/// The token for a reserved word, matched case-insensitively, or `None`
/// when the word is no keyword.
pub fn tokenize_keyword(input: &str) -> (r: Option<Token>)
    ensures
        opt_token_view(r) == keyword_of(lower_of(input@)),
{
    let lw = to_lowercase(input);
    let l = lw.as_str();
    if str_eq(l, "var") {
        Some(Token::Var)
    } else if str_eq(l, "if") {
        Some(Token::If)
    } else if str_eq(l, "then") {
        Some(Token::Then)
    } else if str_eq(l, "else") {
        Some(Token::Else)
    } else if str_eq(l, "while") {
        Some(Token::While)
    } else if str_eq(l, "for") {
        Some(Token::For)
    } else if str_eq(l, "do") {
        Some(Token::Do)
    } else if str_eq(l, "function") {
        Some(Token::Function)
    } else if str_eq(l, "begin") {
        Some(Token::Begin)
    } else if str_eq(l, "end") {
        Some(Token::End)
    } else if str_eq(l, "mod") {
        Some(Token::Mod)
    } else if str_eq(l, "and") {
        Some(Token::And)
    } else if str_eq(l, "or") {
        Some(Token::Or)
    } else if str_eq(l, "not") {
        Some(Token::Not)
    } else if str_eq(l, "write") {
        Some(Token::Write)
    } else if str_eq(l, "read") {
        Some(Token::Read)
    } else if str_eq(l, "sqrt") {
        Some(Token::Sqrt)
    } else if str_eq(l, "abs") {
        Some(Token::Abs)
    } else if str_eq(l, "sort") {
        Some(Token::Sort)
    } else if str_eq(l, "len") {
        Some(Token::Len)
    } else if str_eq(l, "endl") {
        Some(Token::Endl)
    } else if str_eq(l, "true") {
        Some(Token::BooleanLiteral(true))
    } else if str_eq(l, "false") {
        Some(Token::BooleanLiteral(false))
    } else {
        None
    }
}

/// Whether a word is rejected as an identifier: it starts with an ASCII
/// digit or holds a character that is neither alphanumeric nor `_`.
pub open spec fn ident_error(s: Seq<char>) -> bool {
    ||| (s.len() > 0 && is_digit_char(s[0]))
    ||| exists|k: int| 0 <= k < s.len() && !is_ident_char(s[k])
}

/// The identifier token a word yields, or the error that rejects it.
pub open spec fn ident_token(s: Seq<char>) -> Result<TokenV, DuYError> {
    if ident_error(s) {
        Err(DuYError::InvalidIdentifier)
    } else {
        Ok(TokenV::Identifier(s))
    }
}

/// Validates a word as an identifier: it must not start with a digit and
/// every character must be alphanumeric or `_`.
pub fn tokenize_ident(input: &str) -> (r: Result<Token, DuYError>)
    requires
        input@.len() >= 1,
    ensures
        res_token_view(r) == ident_token(input@),
{
    let n = input.unicode_len();
    let c0 = input.get_char(0);
    if 48 <= c0 as u32 && c0 as u32 <= 57 {
        return Err(DuYError::InvalidIdentifier);
    }
    let mut i: usize = 0;
    while i < n
        invariant
            n == input@.len(),
            i <= n,
            forall|k: int| 0 <= k < i ==> is_ident_char(#[trigger] input@[k]),
        decreases n - i,
    {
        let c = input.get_char(i);
        if !(char_is_alphanumeric(c) || c == '_') {
            assert(!is_ident_char(input@[i as int]));
            return Err(DuYError::InvalidIdentifier);
        }
        i += 1;
    }
    Ok(Token::Identifier(input.to_owned()))
}

/// How many `.` characters a text holds.
pub open spec fn dot_count(s: Seq<char>) -> nat
    decreases s.len(),
{
    if s.len() == 0 {
        0
    } else {
        dot_count(s.drop_last()) + (if s.last() == '.' {
            1nat
        } else {
            0nat
        })
    }
}

/// Whether every character is an ASCII digit or `.`.
pub open spec fn all_digits_or_dot(s: Seq<char>) -> bool {
    forall|k: int| 0 <= k < s.len() ==> is_digit_char(#[trigger] s[k]) || s[k] == '.'
}

/// Whether every character is an ASCII digit.
pub open spec fn all_digits(s: Seq<char>) -> bool {
    forall|k: int| 0 <= k < s.len() ==> is_digit_char(#[trigger] s[k])
}

/// The value of a run of decimal digits.
pub open spec fn digits_val(s: Seq<char>) -> int
    decreases s.len(),
{
    if s.len() == 0 {
        0
    } else {
        digits_val(s.drop_last()) * 10 + (s.last() as u32 - 48)
    }
}

proof fn lemma_digits_val_nonneg(s: Seq<char>)
    requires
        all_digits(s),
    ensures
        digits_val(s) >= 0,
    decreases s.len(),
{
    if s.len() > 0 {
        let t = s.drop_last();
        assert forall|k: int| 0 <= k < t.len() implies is_digit_char(#[trigger] t[k]) by {
            assert(t[k] == s[k]);
            assert(is_digit_char(s[k]));
        }
        lemma_digits_val_nonneg(t);
        assert(is_digit_char(s[s.len() - 1]));
        assert(s.last() as u32 - 48 >= 0);
        assert(digits_val(t) * 10 >= 0);
        assert(digits_val(s) == digits_val(t) * 10 + (s.last() as u32 - 48));
    }
}

proof fn lemma_digits_val_prefix_le(s: Seq<char>, i: int)
    requires
        all_digits(s),
        0 <= i <= s.len(),
    ensures
        digits_val(s.subrange(0, i)) <= digits_val(s),
    decreases s.len() - i,
{
    if i == s.len() {
        assert(s.subrange(0, i) =~= s);
    } else {
        let p = s.subrange(0, i);
        let q = s.subrange(0, i + 1);
        assert(q.drop_last() =~= p);
        assert(q.last() == s[i]);
        assert forall|k: int| 0 <= k < p.len() implies is_digit_char(#[trigger] p[k]) by {
            assert(p[k] == s[k]);
            assert(is_digit_char(s[k]));
        }
        lemma_digits_val_nonneg(p);
        assert(is_digit_char(s[i]));
        assert(s[i] as u32 - 48 >= 0);
        assert(digits_val(q) == digits_val(p) * 10 + (s[i] as u32 - 48));
        assert(digits_val(p) * 10 >= digits_val(p));
        lemma_digits_val_prefix_le(s, i + 1);
        assert(digits_val(s.subrange(0, i)) <= digits_val(s.subrange(0, i + 1)));
    }
}

/// The token a run of digits and dots yields: one dot makes a float
/// literal carrying the run itself, no dot makes an integer literal with
/// the decimal value, and anything else (a stray character, a second
/// dot, a value over `i64::MAX`) is rejected.
pub open spec fn number_token(s: Seq<char>) -> Result<TokenV, DuYError> {
    if dot_count(s) == 1 {
        if all_digits_or_dot(s) {
            Ok(TokenV::FloatLiteral(s))
        } else {
            Err(DuYError::InvalidToken)
        }
    } else if dot_count(s) == 0 {
        if all_digits(s) && digits_val(s) <= i64::MAX {
            Ok(TokenV::IntegerLiteral(digits_val(s)))
        } else {
            Err(DuYError::InvalidToken)
        }
    } else {
        Err(DuYError::InvalidToken)
    }
}

/// Turns a scanned numeric run into an integer or float literal token.
///
/// A run with exactly one `.` becomes a float literal carrying the run's
/// text; a run with no dot becomes an integer literal; a value beyond
/// `i64::MAX` is reported as an invalid token rather than an abort.
pub fn tokenize_number_literals(input: &str) -> (r: Result<Token, DuYError>)
    requires
        input@.len() >= 1,
        !(input@.len() == 1 && input@[0] == '.'),
    ensures
        res_token_view(r) == number_token(input@),
{
    let n = input.unicode_len();
    let mut dots: usize = 0;
    let mut i: usize = 0;
    while i < n
        invariant
            n == input@.len(),
            i <= n,
            dots <= i,
            dots == dot_count(input@.subrange(0, i as int)),
        decreases n - i,
    {
        let c = input.get_char(i);
        proof {
            assert(input@.subrange(0, i + 1).drop_last() =~= input@.subrange(0, i as int));
            assert(input@.subrange(0, i + 1).last() == input@[i as int]);
        }
        if c == '.' {
            dots += 1;
        }
        i += 1;
    }
    proof {
        assert(input@.subrange(0, n as int) =~= input@);
    }
    if dots == 1 {
        let mut j: usize = 0;
        while j < n
            invariant
                n == input@.len(),
                j <= n,
                dot_count(input@) == 1,
                forall|k: int|
                    0 <= k < j ==> is_digit_char(#[trigger] input@[k]) || input@[k] == '.',
            decreases n - j,
        {
            let c = input.get_char(j);
            if !(48 <= c as u32 && c as u32 <= 57 || c == '.') {
                assert(!(is_digit_char(input@[j as int]) || input@[j as int] == '.'));
                return Err(DuYError::InvalidToken);
            }
            j += 1;
        }
        Ok(Token::FloatLiteral(input.to_owned()))
    } else if dots == 0 {
        let mut val: u64 = 0;
        let mut j: usize = 0;
        while j < n
            invariant
                n == input@.len(),
                j <= n,
                dot_count(input@) == 0,
                all_digits(input@.subrange(0, j as int)),
                val <= i64::MAX,
                val == digits_val(input@.subrange(0, j as int)),
            decreases n - j,
        {
            let c = input.get_char(j);
            if !(48 <= c as u32 && c as u32 <= 57) {
                assert(!is_digit_char(input@[j as int]));
                return Err(DuYError::InvalidToken);
            }
            let d: u64 = (c as u32 - 48) as u64;
            proof {
                assert(input@.subrange(0, j + 1).drop_last() =~= input@.subrange(0, j as int));
                assert(input@.subrange(0, j + 1).last() == input@[j as int]);
                assert(all_digits(input@.subrange(0, j + 1)));
            }
            if val > (9_223_372_036_854_775_807u64 - d) / 10 {
                proof {
                    let m: int = i64::MAX as int;
                    let q = (m - d) / 10;
                    vstd::arithmetic::div_mod::lemma_fundamental_div_mod(m - d, 10);
                    assert(val >= q + 1);
                    vstd::arithmetic::mul::lemma_mul_inequality(q + 1, val as int, 10);
                    assert(val * 10 + d > m);
                    assert(digits_val(input@.subrange(0, j + 1)) == val * 10 + d);
                    if all_digits(input@) {
                        lemma_digits_val_prefix_le(input@, j + 1);
                        assert(digits_val(input@) > m);
                    }
                }
                return Err(DuYError::InvalidToken);
            }
            proof {
                let m: int = i64::MAX as int;
                let q = (m - d) / 10;
                vstd::arithmetic::div_mod::lemma_fundamental_div_mod(m - d, 10);
                vstd::arithmetic::mul::lemma_mul_inequality(val as int, q, 10);
                assert(val * 10 + d <= m);
            }
            val = val * 10 + d;
            j += 1;
        }
        Ok(Token::IntegerLiteral(val as i64))
    } else {
        Err(DuYError::InvalidToken)
    }
}

/// The token a quoted run yields: the delimiting quotes are stripped and
/// the content between them, escape sequences included, is kept as it
/// stands.
pub open spec fn string_token(s: Seq<char>) -> Result<TokenV, DuYError> {
    if s.len() >= 2 && s[0] == '\'' && s[s.len() - 1] == '\'' {
        Ok(TokenV::StringLiteral(s.subrange(1, s.len() - 1)))
    } else {
        Err(DuYError::InvalidToken)
    }
}

/// Strips the two delimiting quotes from a scanned string literal.
pub fn tokenize_string_literals(input: &str) -> (r: Result<Token, DuYError>)
    ensures
        res_token_view(r) == string_token(input@),
{
    let n = input.unicode_len();
    if n >= 2 && input.get_char(0) == '\'' && input.get_char(n - 1) == '\'' {
        let inner = input.substring_char(1, n - 1);
        Ok(Token::StringLiteral(inner.to_owned()))
    } else {
        Err(DuYError::InvalidToken)
    }
}

/// The first position at or after `i` holding character `c`, if any.
pub open spec fn find_char(s: Seq<char>, c: char, i: int) -> Option<int>
    decreases s.len() - i,
{
    if i >= s.len() {
        None
    } else if s[i] == c {
        Some(i)
    } else {
        find_char(s, c, i + 1)
    }
}

pub proof fn lemma_find_char(s: Seq<char>, c: char, i: int)
    requires
        0 <= i,
    ensures
        match find_char(s, c, i) {
            Some(k) => i <= k < s.len() && s[k] == c && forall|j: int| i <= j < k ==> s[j] != c,
            None => forall|j: int| i <= j < s.len() ==> s[j] != c,
        },
    decreases s.len() - i,
{
    if i >= s.len() {
    } else if s[i] == c {
    } else {
        lemma_find_char(s, c, i + 1);
    }
}

/// How many characters a comment opener tells the caller to step over:
/// for a text starting with `{` whose first `}` stands at position `k`,
/// this is `k - 1`; otherwise 0.
pub open spec fn skip_comments_spec(s: Seq<char>) -> int {
    if s.len() > 0 && s[0] == '{' {
        match find_char(s, '}', 0) {
            Some(k) => k - 1,
            None => 0,
        }
    } else {
        0
    }
}

/// Measures a comment at the head of the text: the distance to just
/// before its closing brace, or 0 when the text opens no comment or the
/// comment never closes.
pub fn skip_comments(src: &str) -> (r: usize)
    ensures
        r as int == skip_comments_spec(src@),
{
    let n = src.unicode_len();
    if n == 0 || src.get_char(0) != '{' {
        return 0;
    }
    let mut i: usize = 0;
    while i < n
        invariant
            n == src@.len(),
            i <= n,
            n > 0,
            src@[0] == '{',
            i > 0 ==> find_char(src@, '}', 0) == find_char(src@, '}', i as int),
            i > 0 ==> src@[0] != '}',
        decreases n - i,
    {
        let ch = src.get_char(i);
        if ch == '}' {
            proof {
                assert(find_char(src@, '}', i as int) == Some(i as int));
            }
            return i - 1;
        }
        i += 1;
    }
    proof {
        assert(find_char(src@, '}', n as int) is None);
    }
    0
}

} // verus!
