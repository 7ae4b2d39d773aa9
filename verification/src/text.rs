//! The few operations on characters and strings that are taken from the
//! standard library on trust.

use vstd::prelude::*;

verus! {

/// Whether Unicode classes `c` as a number, as `char::is_numeric` reports it.
pub uninterp spec fn is_unicode_numeric(c: char) -> bool;

/// `char::is_numeric`: the answer depends on the character alone, and
/// [`is_unicode_numeric`] is its name. Nothing else is claimed of it; the
/// library asks it of characters beyond U+007F only.
#[verifier::external_body]
pub(crate) fn unicode_numeric(c: char) -> (r: bool)
    ensures
        r == is_unicode_numeric(c),
{
    c.is_numeric()
}

/// `==` on `str` (`PartialEq::eq`): two strings are equal exactly when they
/// hold the same characters in the same order.
#[verifier::external_body]
pub(crate) fn same_text(a: &str, b: &str) -> (r: bool)
    ensures
        r == (a@ == b@),
{
    a == b
}

/// `String::push` appends one character to the end of the string.
pub assume_specification[ String::push ](s: &mut String, ch: char)
    ensures
        final(s)@ == old(s)@.push(ch),
;

} // verus!
