//! Small string primitives of std that vstd leaves unspecified, each behind a
//! trusted wrapper whose contract restates std's documentation.

use vstd::prelude::*;

use crate::domain::ascii_lower;

verus! {

/// `str::to_ascii_lowercase`: std documents that every ASCII letter 'A'..='Z'
/// is mapped to 'a'..='z' and every other character is unchanged.
#[verifier::external_body]
pub(crate) fn ascii_lowercase(s: &str) -> (r: String)
    ensures
        r@ == ascii_lower(s@),
{
    s.to_ascii_lowercase()
}

/// `<str as PartialEq>::eq`: two string slices are equal exactly when they
/// hold the same characters.
#[verifier::external_body]
pub(crate) fn str_equals(a: &str, b: &str) -> (r: bool)
    ensures
        r == (a@ == b@),
{
    a == b
}

/// `String::push`: appends one character at the end.
#[verifier::external_body]
pub(crate) fn push_char(s: &mut String, c: char)
    ensures
        final(s)@ == old(s)@.push(c),
{
    s.push(c)
}

} // verus!
