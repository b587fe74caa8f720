//! Unicode character properties and case mappings, as std computes them.

use vstd::prelude::*;

verus! {

/// Whether std's `char::is_alphabetic` holds of `c` (the Unicode
/// `Alphabetic` property).
pub uninterp spec fn unicode_alphabetic(c: char) -> bool;

/// Whether std's `char::is_uppercase` holds of `c` (the Unicode
/// `Uppercase` property).
pub uninterp spec fn unicode_uppercase(c: char) -> bool;

/// Whether std's `char::is_lowercase` holds of `c` (the Unicode
/// `Lowercase` property).
pub uninterp spec fn unicode_lowercase(c: char) -> bool;

/// The characters that std's `char::to_uppercase` yields for `c`.
pub uninterp spec fn uppercase_mapping(c: char) -> Seq<char>;

/// The text that std's `str::to_lowercase` gives for the text `s`.
pub uninterp spec fn lowercase_text(s: Seq<char>) -> Seq<char>;

/// Calls `char::is_alphabetic`. Claims only that the result is the value of
/// the name `unicode_alphabetic` at `c`, a function of `c` alone; the Unicode
/// tables behind it are not restated.
#[verifier::external_body]
pub(crate) fn is_alphabetic(c: char) -> (r: bool)
    ensures
        r == unicode_alphabetic(c),
{
    c.is_alphabetic()
}

/// Calls `char::is_uppercase`. Claims only that the result is the value of
/// the name `unicode_uppercase` at `c`.
#[verifier::external_body]
pub(crate) fn is_uppercase(c: char) -> (r: bool)
    ensures
        r == unicode_uppercase(c),
{
    c.is_uppercase()
}

/// Calls `char::is_lowercase`. Claims only that the result is the value of
/// the name `unicode_lowercase` at `c`.
#[verifier::external_body]
pub(crate) fn is_lowercase(c: char) -> (r: bool)
    ensures
        r == unicode_lowercase(c),
{
    c.is_lowercase()
}

/// Calls `char::to_uppercase` and collects what it yields. Claims that the
/// collected characters are the value of the name `uppercase_mapping` at `c`.
#[verifier::external_body]
pub(crate) fn to_uppercase(c: char) -> (r: Vec<char>)
    ensures
        r@ == uppercase_mapping(c),
{
    c.to_uppercase().collect()
}

/// Calls `str::to_lowercase`. Claims that the result is the value of the
/// name `lowercase_text` at the characters of `s`; the text-level rules of
/// Unicode lowercasing (such as a final sigma) are not restated.
#[verifier::external_body]
pub(crate) fn to_lowercase(s: &str) -> (r: String)
    ensures
        r@ == lowercase_text(s@),
{
    s.to_lowercase()
}

/// Calls `String::push`, which appends `c` to the end of `s`.
#[verifier::external_body]
pub(crate) fn push_char(s: &mut String, c: char)
    ensures
        final(s)@ == old(s)@.push(c),
{
    s.push(c)
}

} // verus!
