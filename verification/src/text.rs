//! Small helpers for building strings character by character.

use vstd::prelude::*;

verus! {

/// Relies on `String::push` of std, which vstd leaves unspecified: it appends
/// exactly the given character.
#[verifier::external_body]
pub(crate) fn push_char(s: &mut String, c: char)
    ensures
        final(s)@ == old(s)@.push(c),
{
    s.push(c)
}

} // verus!
