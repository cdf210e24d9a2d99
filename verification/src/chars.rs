//! Character classes taken from the standard library.
//!
//! Word splitting and word stripping need to know whether a character is
//! white space and whether it is alphanumeric. Both classes are decided by
//! the standard library; here each gets a name that the contracts of the
//! rest of the crate speak of.

use vstd::prelude::*;

verus! {

/// Whether `c` has the Unicode white-space property, exactly as
/// `char::is_whitespace` decides it.
pub uninterp spec fn wspace(c: char) -> bool;

/// Whether `c` is alphanumeric, exactly as `char::is_alphanumeric`
/// decides it.
pub uninterp spec fn alnum(c: char) -> bool;

/// Relies on char::is_whitespace: the result depends on the character
/// alone.
#[verifier::external_body]
pub fn is_wspace(c: char) -> (r: bool)
    ensures
        r == wspace(c),
{
    c.is_whitespace()
}

/// Relies on char::is_alphanumeric: the result depends on the character
/// alone.
#[verifier::external_body]
pub fn is_alnum(c: char) -> (r: bool)
    ensures
        r == alnum(c),
{
    c.is_alphanumeric()
}

} // verus!
