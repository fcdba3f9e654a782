//! Small building blocks for the texts that the documents carry.

use vstd::prelude::*;
use vstd::string::*;

verus! {

/// `String::push` of std: the text afterwards is the text before with
/// `ch` added at its end. Nothing of this is proved here.
pub assume_specification[ String::push ](s: &mut String, ch: char)
    ensures
        final(s)@ == old(s)@.push(ch),
;

/// The texts `a` and `b` one after the other.
pub fn joined(a: &str, b: &str) -> (r: String)
    ensures
        r@ == a@ + b@,
{
    let mut r = String::from_str(a);
    r.append(b);
    r
}

/// A copy of `s`.
pub fn copy_of(s: &String) -> (r: String)
    ensures
        r@ == s@,
{
    String::from_str(s.as_str())
}

} // verus!
