//! Text helpers that the standard library offers without a specification.

use vstd::prelude::*;

verus! {

/// The ASCII upper case of a character: `a` to `z` go to `A` to `Z`, every
/// other character stays.
pub open spec fn ascii_upper(c: char) -> char {
    if 'a' <= c <= 'z' {
        ((c as u8) - 32) as u8 as char
    } else {
        c
    }
}

/// A text with each character in ASCII upper case.
pub open spec fn upper(text: Seq<char>) -> Seq<char> {
    text.map_values(|c: char| ascii_upper(c))
}

/// A text that may be missing, as mathematics sees it.
pub open spec fn optional_text(value: Option<String>) -> Option<Seq<char>> {
    match value {
        Some(text) => Some(text@),
        None => None,
    }
}

/// `str`'s `==`: whether two texts hold the same characters.
#[verifier::external_body]
pub(crate) fn same_text(a: &str, b: &str) -> (same: bool)
    ensures
        same == (a@ == b@),
{
    a == b
}

/// `str::to_ascii_uppercase`: a copy in which the ASCII letters `a` to `z`
/// are replaced by `A` to `Z` and nothing else is changed.
#[verifier::external_body]
pub(crate) fn to_upper(text: &str) -> (raised: String)
    ensures
        raised@ == upper(text@),
{
    text.to_ascii_uppercase()
}

} // verus!
