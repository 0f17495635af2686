//! Character classes of the lexer.
//!
//! ASCII characters are classified here, by their code. A character beyond
//! ASCII is classified by the standard library's Unicode tables, which this
//! crate does not look into.

use vstd::prelude::*;

verus! {

/// What `char::is_alphanumeric` of the standard library returns for `c`.
pub uninterp spec fn unicode_alphanumeric(c: char) -> bool;

/// What `char::is_whitespace` of the standard library returns for `c`.
pub uninterp spec fn unicode_whitespace(c: char) -> bool;

/// `char::is_alphanumeric` of the standard library: whether the character is
/// alphabetic or numeric by the Unicode tables. Its result is a function of
/// the character alone, and is given the name `unicode_alphanumeric`;
/// nothing more is claimed of it.
pub assume_specification[ char::is_alphanumeric ](c: char) -> (known: bool)
    ensures
        known == unicode_alphanumeric(c),
;

/// `char::is_whitespace` of the standard library: whether the character has
/// the Unicode property White_Space. Its result is a function of the
/// character alone, and is given the name `unicode_whitespace`; nothing more
/// is claimed of it.
pub assume_specification[ char::is_whitespace ](c: char) -> (known: bool)
    ensures
        known == unicode_whitespace(c),
;

/// Whether the character is one of the 128 ASCII characters.
pub open spec fn is_ascii(c: char) -> bool {
    (c as u32) < 128
}

/// An ASCII letter, upper or lower case.
pub open spec fn is_ascii_letter(c: char) -> bool {
    ('a' as u32 <= c as u32 && c as u32 <= 'z' as u32) || ('A' as u32 <= c as u32 && c as u32
        <= 'Z' as u32)
}

/// An ASCII decimal digit.
pub open spec fn is_ascii_digit(c: char) -> bool {
    '0' as u32 <= c as u32 && c as u32 <= '9' as u32
}

/// A character that may start an identifier: an ASCII letter or `_`.
pub open spec fn starts_word(c: char) -> bool {
    is_ascii_letter(c) || c == '_'
}

/// A character that may continue an identifier: a letter, a digit or `_`.
/// Beyond ASCII, letters and digits are what Unicode calls alphanumeric.
pub open spec fn continues_word(c: char) -> bool {
    if is_ascii(c) {
        is_ascii_letter(c) || is_ascii_digit(c) || c == '_'
    } else {
        unicode_alphanumeric(c)
    }
}

/// White space, which separates tokens and is otherwise ignored: tab, line
/// feed, vertical tab, form feed, carriage return and space in ASCII, and
/// beyond ASCII what Unicode calls white space.
pub open spec fn is_blank(c: char) -> bool {
    if is_ascii(c) {
        (9 <= c as u32 && c as u32 <= 13) || c == ' '
    } else {
        unicode_whitespace(c)
    }
}

/// Decides `starts_word`.
pub fn is_word_start(c: char) -> (yes: bool)
    ensures
        yes == starts_word(c),
{
    ('a' <= c && c <= 'z') || ('A' <= c && c <= 'Z') || c == '_'
}

/// Decides `continues_word`.
pub fn is_word_part(c: char) -> (yes: bool)
    ensures
        yes == continues_word(c),
{
    if c <= '\x7f' {
        ('a' <= c && c <= 'z') || ('A' <= c && c <= 'Z') || ('0' <= c && c <= '9') || c == '_'
    } else {
        c.is_alphanumeric()
    }
}

/// Decides `is_blank`.
pub fn is_space(c: char) -> (yes: bool)
    ensures
        yes == is_blank(c),
{
    if c <= '\x7f' {
        ('\t' <= c && c <= '\r') || c == ' '
    } else {
        c.is_whitespace()
    }
}

} // verus!
