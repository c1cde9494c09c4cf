use vstd::prelude::*;

use crate::error::DuYError;
use crate::helper::{
    find_char, is_digit_char, ident_token, keyword_of, number_token, string_token,
    tokenize_ident, tokenize_keyword, tokenize_number_literals, tokenize_string_literals,
};
use crate::token::{tokens_view, Token, TokenV};
use crate::unicode::{
    alphanumeric_char, char_is_alphanumeric, char_is_numeric, char_is_whitespace, lower_of,
    numeric_char, whitespace_char,
};
use vstd::string::StrSliceExecFns;

verus! {

/// The first position at or after `i` that holds a non-whitespace
/// character, capped at the text's length.
pub open spec fn skip_ws(s: Seq<char>, i: int) -> int
    decreases s.len() - i,
{
    if i >= s.len() {
        s.len() as int
    } else if whitespace_char(s[i]) {
        skip_ws(s, i + 1)
    } else {
        i
    }
}

pub proof fn lemma_skip_ws_bounds(s: Seq<char>, i: int)
    requires
        0 <= i,
    ensures
        i <= s.len() ==> i <= skip_ws(s, i) <= s.len(),
        i >= s.len() ==> skip_ws(s, i) == s.len(),
    decreases s.len() - i,
{
    if i < s.len() && whitespace_char(s[i]) {
        lemma_skip_ws_bounds(s, i + 1);
    }
}

/// The first position at or after `i` that closes a quoted run: escape
/// pairs `\'`, `\\`, `\t`, `\n` are stepped over as units, any other
/// character after `\` makes the run invalid, and a run that never
/// closes yields nothing.
pub open spec fn find_delim(s: Seq<char>, i: int, pattern: char) -> Option<int>
    decreases s.len() - i,
{
    if i >= s.len() {
        None
    } else if s[i] == pattern {
        Some(i)
    } else if s[i] == '\\' {
        if i + 1 < s.len() && (s[i + 1] == '\'' || s[i + 1] == '\\' || s[i + 1] == 't' || s[i + 1]
            == 'n') {
            find_delim(s, i + 2, pattern)
        } else {
            None
        }
    } else {
        find_delim(s, i + 1, pattern)
    }
}

pub proof fn lemma_find_delim(s: Seq<char>, i: int, pattern: char)
    requires
        0 <= i,
    ensures
        find_delim(s, i, pattern) matches Some(k) ==> i <= k < s.len() && s[k] == pattern,
    decreases s.len() - i,
{
    if i < s.len() && s[i] != pattern {
        if s[i] == '\\' {
            if i + 1 < s.len() && (s[i + 1] == '\'' || s[i + 1] == '\\' || s[i + 1] == 't' || s[i
                + 1] == 'n') {
                lemma_find_delim(s, i + 2, pattern);
            }
        } else {
            lemma_find_delim(s, i + 1, pattern);
        }
    }
}

/// The end of a numeric run that began just before `i`: the first
/// position at or after `i` whose character is neither numeric nor `.`.
pub open spec fn num_run_end(s: Seq<char>, i: int) -> int
    decreases s.len() - i,
{
    if i >= s.len() {
        s.len() as int
    } else if numeric_char(s[i]) || s[i] == '.' {
        num_run_end(s, i + 1)
    } else {
        i
    }
}

pub proof fn lemma_num_run_end(s: Seq<char>, i: int)
    requires
        0 <= i <= s.len(),
    ensures
        i <= num_run_end(s, i) <= s.len(),
    decreases s.len() - i,
{
    if i < s.len() && (numeric_char(s[i]) || s[i] == '.') {
        lemma_num_run_end(s, i + 1);
    }
}

/// The end of an identifier or keyword run that began just before `i`:
/// the first position at or after `i` whose character is neither
/// alphanumeric nor `_`.
pub open spec fn ident_run_end(s: Seq<char>, i: int) -> int
    decreases s.len() - i,
{
    if i >= s.len() {
        s.len() as int
    } else if alphanumeric_char(s[i]) || s[i] == '_' {
        ident_run_end(s, i + 1)
    } else {
        i
    }
}

pub proof fn lemma_ident_run_end(s: Seq<char>, i: int)
    requires
        0 <= i <= s.len(),
    ensures
        i <= ident_run_end(s, i) <= s.len(),
    decreases s.len() - i,
{
    if i < s.len() && (alphanumeric_char(s[i]) || s[i] == '_') {
        lemma_ident_run_end(s, i + 1);
    }
}

/// One step of lexing: the token that starts at position `i` and the
/// cursor position after it (past the token and any following
/// whitespace), or the error that rejects the text.
///
/// At or past the end of the text the scanner yields `EOF` without
/// moving, so repeated calls keep yielding it.
pub open spec fn scan(s: Seq<char>, i: int) -> Result<(TokenV, int), DuYError> {
    if i >= s.len() {
        Ok((TokenV::EOF, i))
    } else {
        let c = s[i];
        if c == '+' {
            Ok((TokenV::Plus, skip_ws(s, i + 1)))
        } else if c == '-' {
            Ok((TokenV::Minus, skip_ws(s, i + 1)))
        } else if c == '*' {
            Ok((TokenV::Mul, skip_ws(s, i + 1)))
        } else if c == ';' {
            Ok((TokenV::SemiColon, skip_ws(s, i + 1)))
        } else if c == '^' {
            Ok((TokenV::Pow, skip_ws(s, i + 1)))
        } else if c == '!' {
            Ok((TokenV::Not, skip_ws(s, i + 1)))
        } else if c == '|' {
            Ok((TokenV::Or, skip_ws(s, i + 1)))
        } else if c == '&' {
            Ok((TokenV::And, skip_ws(s, i + 1)))
        } else if c == '=' {
            Ok((TokenV::Eq, skip_ws(s, i + 1)))
        } else if c == '/' {
            Ok((TokenV::Div, skip_ws(s, i + 1)))
        } else if c == '(' {
            Ok((TokenV::OParen, skip_ws(s, i + 1)))
        } else if c == ')' {
            Ok((TokenV::CParen, skip_ws(s, i + 1)))
        } else if c == '<' {
            if i + 1 < s.len() && s[i + 1] == '=' {
                Ok((TokenV::LessEq, skip_ws(s, i + 2)))
            } else if i + 1 < s.len() && s[i + 1] == '>' {
                Ok((TokenV::Neq, skip_ws(s, i + 2)))
            } else {
                Ok((TokenV::Less, skip_ws(s, i + 1)))
            }
        } else if c == '>' {
            if i + 1 < s.len() && s[i + 1] == '=' {
                Ok((TokenV::GreatEq, skip_ws(s, i + 2)))
            } else {
                Ok((TokenV::Great, skip_ws(s, i + 1)))
            }
        } else if c == ':' {
            if i + 1 < s.len() && s[i + 1] == '=' {
                Ok((TokenV::Assign, skip_ws(s, i + 2)))
            } else {
                Err(DuYError::InvalidToken)
            }
        } else if c == '\'' {
            match find_delim(s, i + 1, '\'') {
                Some(e) => Ok((TokenV::StringLiteral(s.subrange(i + 1, e)), skip_ws(s, e + 1))),
                None => Err(DuYError::InvalidToken),
            }
        } else if is_digit_char(c) {
            let j = num_run_end(s, i + 1);
            match number_token(s.subrange(i, j)) {
                Ok(t) => Ok((t, skip_ws(s, j))),
                Err(e) => Err(e),
            }
        } else if alphanumeric_char(c) || c == '_' {
            let j = ident_run_end(s, i + 1);
            let w = s.subrange(i, j);
            match keyword_of(lower_of(w)) {
                Some(t) => Ok((t, skip_ws(s, j))),
                None => match ident_token(w) {
                    Ok(t) => Ok((t, skip_ws(s, j))),
                    Err(e) => Err(e),
                },
            }
        } else if c == '{' {
            match find_char(s, '}', i + 1) {
                Some(k) => Ok((TokenV::Comment, skip_ws(s, k + 1))),
                None => Err(DuYError::InvalidToken),
            }
        } else if whitespace_char(c) {
            Ok((TokenV::WhiteSpace, skip_ws(s, i + 1)))
        } else {
            Err(DuYError::InvalidToken)
        }
    }
}

/// A successful scan step inside the text always moves the cursor
/// forward and never past the end.
pub proof fn lemma_scan_next(s: Seq<char>, i: int)
    requires
        0 <= i < s.len(),
        scan(s, i) is Ok,
    ensures
        i < scan(s, i)->Ok_0.1 <= s.len(),
{
    lemma_skip_ws_bounds(s, i + 1);
    lemma_skip_ws_bounds(s, i + 2);
    let c = s[i];
    if c == '\'' {
        lemma_find_delim(s, i + 1, '\'');
        if let Some(e) = find_delim(s, i + 1, '\'') {
            lemma_skip_ws_bounds(s, e + 1);
        }
    }
    if is_digit_char(c) {
        lemma_num_run_end(s, i + 1);
        lemma_skip_ws_bounds(s, num_run_end(s, i + 1));
    }
    if alphanumeric_char(c) || c == '_' {
        lemma_ident_run_end(s, i + 1);
        lemma_skip_ws_bounds(s, ident_run_end(s, i + 1));
    }
    if c == '{' {
        crate::helper::lemma_find_char(s, '}', i + 1);
        if let Some(k) = find_char(s, '}', i + 1) {
            lemma_skip_ws_bounds(s, k + 1);
        }
    }
}

/// The whole token stream of a text from position `i` on: every token
/// `scan` yields, whitespace and comment markers left out, closed with
/// exactly one `EOF`; or the first error.
pub open spec fn lex_all(s: Seq<char>, i: int) -> Result<Seq<TokenV>, DuYError>
    decreases s.len() - i when 0 <= i via lex_all_decreases
{
    if i >= s.len() {
        Ok(seq![TokenV::EOF])
    } else {
        match scan(s, i) {
            Err(e) => Err(e),
            Ok((t, next)) => match lex_all(s, next) {
                Err(e) => Err(e),
                Ok(rest) => Ok(
                    if t is WhiteSpace || t is Comment {
                        rest
                    } else {
                        seq![t] + rest
                    },
                ),
            },
        }
    }
}

#[via_fn]
proof fn lex_all_decreases(s: Seq<char>, i: int) {
    if 0 <= i < s.len() && scan(s, i) is Ok {
        lemma_scan_next(s, i);
    }
}

/// Law: a successfully lexed token stream carries exactly one `EOF`
/// marker, and it stands at the end.
pub proof fn lemma_stream_ends_once(s: Seq<char>, i: int)
    requires
        0 <= i,
    ensures
        lex_all(s, i) matches Ok(ts) ==> ts.len() >= 1 && ts.last() is EOF && (forall|k: int|
            0 <= k < ts.len() - 1 ==> !(#[trigger] ts[k] is EOF)),
    decreases s.len() - i,
{
    if i < s.len() {
        if let Ok((t, next)) = scan(s, i) {
            lemma_scan_next(s, i);
            lemma_stream_ends_once(s, next);
            if let Ok(rest) = lex_all(s, next) {
                if !(t is WhiteSpace || t is Comment) {
                    let ts = seq![t] + rest;
                    assert(!(t is EOF));
                    assert(ts.last() == rest.last());
                    assert forall|k: int| 0 <= k < ts.len() - 1 implies !(#[trigger] ts[k]
                        is EOF) by {
                        if k > 0 {
                            assert(ts[k] == rest[k - 1]);
                        }
                    }
                }
            }
        }
    }
}

/// Lexer state: a source buffer and a cursor that walks it once, left
/// to right.
pub struct Tokenizer {
    src: String,
    n: usize,
    pos: usize,
}

impl Tokenizer {
    /// The characters of the source buffer.
    pub closed spec fn chars(&self) -> Seq<char> {
        self.src@
    }

    /// The cursor position, a character index.
    pub closed spec fn cursor(&self) -> int {
        self.pos as int
    }

    /// Well-formed: the cached character count matches the buffer and
    /// the cursor is inside `[0, length]`.
    pub closed spec fn wf(&self) -> bool {
        self.n == self.src@.len() && self.pos <= self.n
    }

    /// A lexer over the given text, with the cursor at the start.
    pub fn new(src: &str) -> (r: Tokenizer)
        ensures
            r.wf(),
            r.chars() == src@,
            r.cursor() == 0,
    {
        let n = src.unicode_len();
        Tokenizer { src: src.to_owned(), n, pos: 0 }
    }

    /// Whether a position lies at or past the end of the text.
    pub fn pos_over_end(&self, pos: usize) -> (r: bool)
        requires
            self.wf(),
        ensures
            r == (pos as int >= self.chars().len()),
    {
        pos >= self.n
    }

    /// The character `n` places ahead of the cursor, if the text holds
    /// one.
    pub fn look_ahead(&mut self, n: usize) -> (r: Option<char>)
        requires
            old(self).wf(),
        ensures
            *final(self) == *old(self),
            r == (if old(self).cursor() + n < old(self).chars().len() {
                Some(old(self).chars()[old(self).cursor() + n])
            } else {
                None::<char>
            }),
    {
        if self.pos < self.n && n < self.n - self.pos {
            Some(self.src.as_str().get_char(self.pos + n))
        } else {
            None
        }
    }

    /// Steps the cursor `step` characters forward and then past any run
    /// of whitespace, never leaving `[0, length]`.
    pub fn move_on(&mut self, step: usize)
        requires
            old(self).wf(),
        ensures
            final(self).wf(),
            final(self).chars() == old(self).chars(),
            final(self).cursor() == skip_ws(old(self).chars(), old(self).cursor() + step),
    {
        let ghost s = self.src@;
        let ghost target = self.pos as int + step as int;
        let mut t: usize = if step >= self.n - self.pos {
            self.n
        } else {
            self.pos + step
        };
        proof {
            if target >= s.len() {
                assert(skip_ws(s, target) == s.len());
                assert(skip_ws(s, t as int) == s.len());
            }
        }
        while t < self.n
            invariant
                self.wf(),
                self.chars() == s,
                t <= self.n,
                skip_ws(s, target) == skip_ws(s, t as int),
            ensures
                self.wf(),
                self.chars() == s,
                t <= self.n,
                skip_ws(s, target) == t as int,
            decreases self.n - t,
        {
            let c = self.src.as_str().get_char(t);
            if !char_is_whitespace(c) {
                break;
            }
            t += 1;
        }
        self.pos = t;
    }

    /// The position of the first whitespace character after the cursor,
    /// or 0 when none follows before the end of the text.
    pub fn next_white_space(&mut self) -> (r: usize)
        requires
            old(self).wf(),
        ensures
            *final(self) == *old(self),
            ({
                let w = first_ws(old(self).chars(), old(self).cursor() + 1);
                match w {
                    Some(j) => r as int == j,
                    None => r == 0,
                }
            }),
    {
        let ghost s = self.src@;
        if self.pos >= self.n {
            return 0;
        }
        let mut p: usize = self.pos + 1;
        while p < self.n
            invariant
                self.wf(),
                self.chars() == s,
                p <= self.n,
                first_ws(s, old(self).cursor() + 1) == first_ws(s, p as int),
            ensures
                self.wf(),
                self.chars() == s,
                p <= self.n,
                match first_ws(s, old(self).cursor() + 1) {
                    Some(j) => p < self.n && p as int == j,
                    None => p == self.n,
                },
            decreases self.n - p,
        {
            let c = self.src.as_str().get_char(p);
            if char_is_whitespace(c) {
                break;
            }
            p += 1;
        }
        if p < self.n {
            p
        } else {
            0
        }
    }

    /// The next token of the text, leaving the cursor just past it and
    /// any whitespace that follows; or the error that rejects the text,
    /// leaving the cursor where it stood. At the end of the text it
    /// keeps yielding `EOF`.
    pub fn lex_next_token(&mut self) -> (r: Result<Token, DuYError>)
        requires
            old(self).wf(),
        ensures
            final(self).wf(),
            final(self).chars() == old(self).chars(),
            match scan(old(self).chars(), old(self).cursor()) {
                Ok((t, next)) => r matches Ok(tok) && tok@ == t && final(self).cursor() == next,
                Err(e) => r == Err::<Token, DuYError>(e) && final(self).cursor() == old(
                    self,
                ).cursor(),
            },
    {
        let ghost s = self.src@;
        let ghost i0 = self.pos as int;
        if self.pos >= self.n {
            return Ok(Token::EOF);
        }
        let c = self.src.as_str().get_char(self.pos);
        if c == '+' {
            self.move_on(1);
            return Ok(Token::Plus);
        }
        if c == '-' {
            self.move_on(1);
            return Ok(Token::Minus);
        }
        if c == '*' {
            self.move_on(1);
            return Ok(Token::Mul);
        }
        if c == ';' {
            self.move_on(1);
            return Ok(Token::SemiColon);
        }
        if c == '^' {
            self.move_on(1);
            return Ok(Token::Pow);
        }
        if c == '!' {
            self.move_on(1);
            return Ok(Token::Not);
        }
        if c == '|' {
            self.move_on(1);
            return Ok(Token::Or);
        }
        if c == '&' {
            self.move_on(1);
            return Ok(Token::And);
        }
        if c == '=' {
            self.move_on(1);
            return Ok(Token::Eq);
        }
        if c == '/' {
            self.move_on(1);
            return Ok(Token::Div);
        }
        if c == '(' {
            self.move_on(1);
            return Ok(Token::OParen);
        }
        if c == ')' {
            self.move_on(1);
            return Ok(Token::CParen);
        }
        if c == '<' {
            match self.look_ahead(1) {
                Some('=') => {
                    self.move_on(2);
                    return Ok(Token::LessEq);
                },
                Some('>') => {
                    self.move_on(2);
                    return Ok(Token::Neq);
                },
                _ => {
                    self.move_on(1);
                    return Ok(Token::Less);
                },
            }
        }
        if c == '>' {
            match self.look_ahead(1) {
                Some('=') => {
                    self.move_on(2);
                    return Ok(Token::GreatEq);
                },
                _ => {
                    self.move_on(1);
                    return Ok(Token::Great);
                },
            }
        }
        if c == ':' {
            match self.look_ahead(1) {
                Some('=') => {
                    self.move_on(2);
                    return Ok(Token::Assign);
                },
                _ => {
                    return Err(DuYError::InvalidToken);
                },
            }
        }
        if c == '\'' {
            match self.find_string_colon(self.pos + 1, '\'') {
                Some(e) => {
                    proof {
                        lemma_find_delim(s, i0 + 1, '\'');
                    }
                    let sub = self.src.as_str().substring_char(self.pos, e + 1);
                    let step = e + 1 - self.pos;
                    match tokenize_string_literals(sub) {
                        Ok(tok) => {
                            proof {
                                assert(sub@.subrange(1, sub@.len() - 1) =~= s.subrange(
                                    i0 + 1,
                                    e as int,
                                ));
                            }
                            self.move_on(step);
                            return Ok(tok);
                        },
                        Err(_) => {
                            // unreachable: the scanned run is delimited
                            // by quotes on both sides
                            proof {
                                assert(sub@[0] == s[i0]);
                                assert(sub@[sub@.len() - 1] == s[e as int]);
                                assert(false);
                            }
                            return Err(DuYError::InvalidToken);
                        },
                    }
                },
                None => {
                    return Err(DuYError::InvalidToken);
                },
            }
        }
        if 48 <= c as u32 && c as u32 <= 57 {
            let mut j: usize = self.pos + 1;
            while j < self.n
                invariant
                    self.wf(),
                    self.chars() == s,
                    self.cursor() == i0,
                    i0 + 1 <= j <= self.n,
                    num_run_end(s, i0 + 1) == num_run_end(s, j as int),
                ensures
                    self.wf(),
                    self.chars() == s,
                    self.cursor() == i0,
                    i0 + 1 <= j <= self.n,
                    num_run_end(s, i0 + 1) == j as int,
                decreases self.n - j,
            {
                let c2 = self.src.as_str().get_char(j);
                if !(char_is_numeric(c2) || c2 == '.') {
                    break;
                }
                j += 1;
            }
            let sub = self.src.as_str().substring_char(self.pos, j);
            proof {
                assert(sub@[0] == s[i0]);
            }
            let step = j - self.pos;
            match tokenize_number_literals(sub) {
                Ok(tok) => {
                    self.move_on(step);
                    return Ok(tok);
                },
                Err(e) => {
                    return Err(e);
                },
            }
        }
        if char_is_alphanumeric(c) || c == '_' {
            let mut j: usize = self.pos + 1;
            while j < self.n
                invariant
                    self.wf(),
                    self.chars() == s,
                    self.cursor() == i0,
                    i0 + 1 <= j <= self.n,
                    ident_run_end(s, i0 + 1) == ident_run_end(s, j as int),
                ensures
                    self.wf(),
                    self.chars() == s,
                    self.cursor() == i0,
                    i0 + 1 <= j <= self.n,
                    ident_run_end(s, i0 + 1) == j as int,
                decreases self.n - j,
            {
                let c2 = self.src.as_str().get_char(j);
                if !(char_is_alphanumeric(c2) || c2 == '_') {
                    break;
                }
                j += 1;
            }
            let sub = self.src.as_str().substring_char(self.pos, j);
            let step = j - self.pos;
            match tokenize_keyword(sub) {
                Some(tok) => {
                    self.move_on(step);
                    return Ok(tok);
                },
                None => {
                    match tokenize_ident(sub) {
                        Ok(tok) => {
                            self.move_on(step);
                            return Ok(tok);
                        },
                        Err(e) => {
                            return Err(e);
                        },
                    }
                },
            }
        }
        if c == '{' {
            let mut k: usize = self.pos + 1;
            while k < self.n
                invariant
                    self.wf(),
                    self.chars() == s,
                    self.cursor() == i0,
                    i0 + 1 <= k <= self.n,
                    find_char(s, '}', i0 + 1) == find_char(s, '}', k as int),
                ensures
                    self.wf(),
                    self.chars() == s,
                    self.cursor() == i0,
                    i0 + 1 <= k <= self.n,
                    match find_char(s, '}', i0 + 1) {
                        Some(kk) => k < self.n && kk == k as int,
                        None => k == self.n,
                    },
                decreases self.n - k,
            {
                let c2 = self.src.as_str().get_char(k);
                if c2 == '}' {
                    break;
                }
                k += 1;
            }
            if k < self.n {
                let step = k + 1 - self.pos;
                self.move_on(step);
                return Ok(Token::Comment);
            } else {
                return Err(DuYError::InvalidToken);
            }
        }
        if char_is_whitespace(c) {
            self.move_on(1);
            return Ok(Token::WhiteSpace);
        }
        Err(DuYError::InvalidToken)
    }

    /// The whole token stream from the cursor on: every token of the
    /// text in order, whitespace and comment tokens left out, closed
    /// with exactly one `EOF`; or the first error the text raises.
    #[verifier::loop_isolation(false)]
    pub fn tokenize_full_src(&mut self) -> (r: Result<Vec<Token>, DuYError>)
        requires
            old(self).wf(),
        ensures
            final(self).wf(),
            final(self).chars() == old(self).chars(),
            match r {
                Ok(v) => lex_all(old(self).chars(), old(self).cursor()) == Ok::<
                    Seq<TokenV>,
                    DuYError,
                >(tokens_view(v@)),
                Err(e) => lex_all(old(self).chars(), old(self).cursor()) == Err::<
                    Seq<TokenV>,
                    DuYError,
                >(e),
            },
    {
        let ghost s = self.src@;
        let ghost i0 = self.pos as int;
        let mut result: Vec<Token> = Vec::new();
        proof {
            if let Ok(rest) = lex_all(s, i0) {
                assert(tokens_view(result@) + rest =~= rest);
            }
        }
        while self.pos < self.n
            invariant
                self.wf(),
                self.chars() == s,
                0 <= i0,
                match lex_all(s, self.cursor()) {
                    Ok(rest) => lex_all(s, i0) == Ok::<Seq<TokenV>, DuYError>(
                        tokens_view(result@) + rest,
                    ),
                    Err(e) => lex_all(s, i0) == Err::<Seq<TokenV>, DuYError>(e),
                },
            decreases s.len() - self.cursor(),
        {
            let ghost iprev = self.cursor();
            let tok = match self.lex_next_token() {
                Ok(t) => t,
                Err(e) => {
                    return Err(e);
                },
            };
            proof {
                lemma_scan_next(s, iprev);
            }
            let is_comment = matches!(tok, Token::Comment);
            if !tok.is_whitespace() && !is_comment {
                let ghost prev_view = tokens_view(result@);
                let ghost tv = tok@;
                result.push(tok);
                proof {
                    assert(tokens_view(result@) =~= prev_view + seq![tv]);
                    if let Ok(rest) = lex_all(s, self.cursor()) {
                        assert((prev_view + seq![tv]) + rest =~= prev_view + (seq![tv] + rest));
                    }
                }
            }
        }
        let ghost prev_view = tokens_view(result@);
        result.push(Token::EOF);
        proof {
            assert(tokens_view(result@) =~= prev_view + seq![TokenV::EOF]);
        }
        Ok(result)
    }

    /// The position of the closing delimiter of a quoted run starting
    /// at `start`, honoring the escape pairs, or `None` when the run is
    /// invalid or never closes.
    pub fn find_string_colon(&self, start: usize, pattern: char) -> (r: Option<usize>)
        requires
            self.wf(),
        ensures
            match r {
                Some(k) => find_delim(self.chars(), start as int, pattern) == Some(k as int),
                None => find_delim(self.chars(), start as int, pattern) is None,
            },
    {
        let ghost s = self.src@;
        let mut p: usize = start;
        loop
            invariant
                self.wf(),
                self.chars() == s,
                p >= start,
                find_delim(s, start as int, pattern) == find_delim(s, p as int, pattern),
            decreases s.len() + 2 - p,
        {
            if p >= self.n {
                return None;
            }
            let c = self.src.as_str().get_char(p);
            if c == pattern {
                return Some(p);
            }
            if c == '\\' {
                if p + 1 < self.n {
                    let c2 = self.src.as_str().get_char(p + 1);
                    if c2 == '\'' || c2 == '\\' || c2 == 't' || c2 == 'n' {
                        p += 2;
                    } else {
                        return None;
                    }
                } else {
                    return None;
                }
            } else {
                p += 1;
            }
        }
    }
}

/// The first position at or after `i` holding a whitespace character.
pub open spec fn first_ws(s: Seq<char>, i: int) -> Option<int>
    decreases s.len() - i,
{
    if i >= s.len() {
        None
    } else if whitespace_char(s[i]) {
        Some(i)
    } else {
        first_ws(s, i + 1)
    }
}

} // verus!
