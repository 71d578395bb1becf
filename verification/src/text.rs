//! The two operations on an output buffer that the painter needs beyond
//! appending a string slice.

use vstd::prelude::*;

verus! {

/// Appends one character to a buffer.
///
/// Trusted: calls `String::push`, which is documented to append the given
/// character to the end of the string.
#[verifier::external_body]
pub(crate) fn push_char(buffer: &mut String, c: char)
    ensures
        final(buffer)@ == old(buffer)@.push(c),
{
    buffer.push(c);
}

/// Makes room in an empty buffer for at least `additional` bytes.
///
/// Trusted: calls `String::reserve`, which is documented to change the
/// capacity only, and to panic where the new capacity would be more than
/// `isize::MAX` bytes; the precondition keeps clear of that.
#[verifier::external_body]
pub(crate) fn reserve_bytes(buffer: &mut String, additional: usize)
    requires
        old(buffer)@.len() == 0,
        additional <= usize::MAX / 2,
    ensures
        final(buffer)@ == old(buffer)@,
{
    buffer.reserve(additional);
}

} // verus!
