//! ASCII case mapping through std.

use vstd::prelude::*;

verus! {

/// ASCII uppercase of one character (`char::to_ascii_uppercase`): `a`..`z` become
/// `A`..`Z`, every other character is unchanged.
pub open spec fn ascii_upper(c: char) -> char {
    if 'a' <= c && c <= 'z' {
        ((c as u32) - 32) as char
    } else {
        c
    }
}

/// ASCII uppercase of a character sequence.
pub open spec fn upper(s: Seq<char>) -> Seq<char> {
    s.map_values(|c: char| ascii_upper(c))
}

/// `str::to_ascii_uppercase`. Claims what std documents: a copy of `s` with each ASCII
/// letter `a`..`z` mapped to `A`..`Z` and every other character unchanged.
#[verifier::external_body]
pub(crate) fn to_ascii_uppercase(s: &str) -> (r: String)
    ensures
        r@ == upper(s@),
{
    s.to_ascii_uppercase()
}

} // verus!
