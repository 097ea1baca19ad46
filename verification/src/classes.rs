//! Character classes of the lexer, decided by regular expressions.

use vstd::prelude::*;
use regex::Regex;

verus! {

/// Characters that may begin an identifier.
pub const LETTER_CLASS: &'static str = "[a-zA-Z_]";

/// Characters that may continue an identifier.
pub const WORD_CLASS: &'static str = "[a-zA-Z0-9_]";

/// Characters that may stand in a numeric literal.
pub const NUMERIC_CLASS: &'static str = "-?[0-9.]";

/// An ASCII letter or an underscore.
pub open spec fn is_letter(c: char) -> bool {
    ('a' <= c && c <= 'z') || ('A' <= c && c <= 'Z') || c == '_'
}

/// An ASCII letter, a decimal digit or an underscore.
pub open spec fn is_word_char(c: char) -> bool {
    is_letter(c) || ('0' <= c && c <= '9')
}

/// A decimal digit or a period.
pub open spec fn is_numeric_char(c: char) -> bool {
    ('0' <= c && c <= '9') || c == '.'
}

/// Whether `pattern` is a valid regular expression that matches somewhere in
/// `text`.
pub uninterp spec fn regex_is_match(pattern: Seq<char>, text: Seq<char>) -> bool;

/// Compiles `pattern` with `regex::Regex::new` and asks `Regex::is_match`
/// whether it matches the text that consists of the character `c` alone. A
/// pattern that does not compile matches nothing.
///
/// Trusted: the answer depends on the pattern and the character only. For the
/// three class patterns of this module it is membership in the class: a
/// bracketed class matches exactly the characters and ranges listed in it,
/// and the optional `-` of `NUMERIC_CLASS` matches the empty text before a
/// lone character.
#[verifier::external_body]
fn one_char_match(pattern: &str, c: char) -> (b: bool)
    ensures
        b == regex_is_match(pattern@, seq![c]),
        pattern@ == LETTER_CLASS@ ==> b == is_letter(c),
        pattern@ == WORD_CLASS@ ==> b == is_word_char(c),
        pattern@ == NUMERIC_CLASS@ ==> b == is_numeric_char(c),
{
    match Regex::new(pattern) {
        Ok(re) => re.is_match(&c.to_string()),
        Err(_) => false,
    }
}

/// Whether `c` may begin an identifier.
pub fn letter(c: char) -> (b: bool)
    ensures
        b == is_letter(c),
{
    one_char_match(LETTER_CLASS, c)
}

/// Whether `c` may continue an identifier.
pub fn word_char(c: char) -> (b: bool)
    ensures
        b == is_word_char(c),
{
    one_char_match(WORD_CLASS, c)
}

/// Whether `c` may stand in a numeric literal.
pub fn numeric_char(c: char) -> (b: bool)
    ensures
        b == is_numeric_char(c),
{
    one_char_match(NUMERIC_CLASS, c)
}

} // verus!
