//! Small bridges between `String` text and `Vec<char>` working buffers.
//!
//! All algorithmic work in this crate happens on `Vec<char>` (fully specified
//! by vstd); these helpers move text across that boundary.

use vstd::prelude::*;

verus! {

/// Relies on str::chars: the iterator yields exactly the characters of the
/// string, in order; collect gathers them unchanged.
#[verifier::external_body]
pub fn str_chars(s: &str) -> (r: Vec<char>)
    ensures
        r@ == s@,
{
    s.chars().collect()
}

/// Relies on the FromIterator impl of String: collecting characters builds
/// the string of exactly those characters, in order.
#[verifier::external_body]
pub fn chars_to_string(v: &Vec<char>) -> (r: String)
    ensures
        r@ == v@,
{
    v.iter().collect()
}

/// Appends the characters of `s` to the working buffer.
pub fn push_str_chars(out: &mut Vec<char>, s: &str)
    ensures
        final(out)@ == old(out)@ + s@,
{
    let mut v = str_chars(s);
    out.append(&mut v);
}

} // verus!
