//! Debug formatting through std.

use vstd::prelude::*;

verus! {

/// What `<str as Debug>::fmt` writes for `s`: the text in double quotes, with
/// quotes, backslashes and non-printable characters escaped.
pub uninterp spec fn str_debug(s: Seq<char>) -> Seq<char>;

/// `format!("{:?}", s)` for a `str`. Claims only the named result.
#[verifier::external_body]
pub(crate) fn debug_str(s: &str) -> (r: String)
    ensures
        r@ == str_debug(s@),
{
    format!("{:?}", s)
}

} // verus!
