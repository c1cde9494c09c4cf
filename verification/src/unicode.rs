use vstd::prelude::*;

verus! {

/// Whether a character has the Unicode whitespace property, as
/// `char::is_whitespace` decides it.
pub uninterp spec fn whitespace_char(c: char) -> bool;

/// Whether a character is Unicode alphanumeric, as
/// `char::is_alphanumeric` decides it.
pub uninterp spec fn alphanumeric_char(c: char) -> bool;

/// Whether a character is Unicode numeric, as `char::is_numeric`
/// decides it.
pub uninterp spec fn numeric_char(c: char) -> bool;

/// The Unicode lowercase mapping of a text, as `str::to_lowercase`
/// computes it.
pub uninterp spec fn lower_of(s: Seq<char>) -> Seq<char>;

/// Relies on char::is_whitespace: whether the character has the Unicode
/// whitespace property, a function of the character alone.
#[verifier::external_body]
pub(crate) fn char_is_whitespace(c: char) -> (r: bool)
    ensures
        r == whitespace_char(c),
{
    c.is_whitespace()
}

/// Relies on char::is_alphanumeric: whether the character is Unicode
/// alphanumeric, a function of the character alone.
#[verifier::external_body]
pub(crate) fn char_is_alphanumeric(c: char) -> (r: bool)
    ensures
        r == alphanumeric_char(c),
{
    c.is_alphanumeric()
}

/// Relies on char::is_numeric: whether the character is Unicode numeric,
/// a function of the character alone.
#[verifier::external_body]
pub(crate) fn char_is_numeric(c: char) -> (r: bool)
    ensures
        r == numeric_char(c),
{
    c.is_numeric()
}

/// Relies on str::to_lowercase: the Unicode lowercase mapping, a function
/// of the characters alone.
#[verifier::external_body]
pub(crate) fn to_lowercase(s: &str) -> (r: String)
    ensures
        r@ == lower_of(s@),
{
    s.to_lowercase()
}

} // verus!
