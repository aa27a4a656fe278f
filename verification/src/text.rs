//! Building strings one character at a time.
use vstd::prelude::*;

verus! {

/// `String::push` of std: appends `c` to the end of `s`.
#[verifier::external_body]
pub(crate) fn push_char(s: &mut String, c: char)
    ensures
        final(s)@ == old(s)@.push(c),
{
    s.push(c);
}

} // verus!
