//! Small string helpers.
use vstd::prelude::*;

verus! {

/// `"HHH"` followed by `s`.
pub fn join(s: &String) -> (r: String)
    ensures
        r@ == "HHH"@ + s@,
{
    String::from_str("HHH").concat(s.as_str())
}

/// The string with more bytes; `s2` when both have the same length.
pub fn longest<'a>(s1: &'a str, s2: &'a str) -> (r: &'a str)
    ensures
        r == if s1.len() > s2.len() {
            s1
        } else {
            s2
        },
{
    if s1.len() > s2.len() {
        s1
    } else {
        s2
    }
}

} // verus!
