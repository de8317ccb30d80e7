//! Texts the guest SDK's service macros generate: the argument tuple a typed client
//! sends, which must serialize as a JSON array of the call's arguments.

use vstd::prelude::*;

verus! {

/// The names, separated by `, `.
pub open spec fn joined(names: Seq<Seq<char>>) -> Seq<char>
    decreases names.len(),
{
    if names.len() == 0 {
        Seq::empty()
    } else if names.len() == 1 {
        names[0]
    } else {
        joined(names.drop_last()) + ", "@ + names.last()
    }
}

/// The argument expression for a call with these argument names: `&[(); 0]` for none
/// (an empty array), `&(a,)` for one — the trailing comma makes it a one-element tuple,
/// not a parenthesized value, so it still serializes as an array — and `&(a, b, ...)`
/// for more.
pub open spec fn args_tuple_spec(names: Seq<Seq<char>>) -> Seq<char> {
    if names.len() == 0 {
        "&[(); 0]"@
    } else if names.len() == 1 {
        "&("@ + names[0] + ",)"@
    } else {
        "&("@ + joined(names) + ")"@
    }
}

/// The names as texts.
pub open spec fn names_view(names: Seq<String>) -> Seq<Seq<char>> {
    names.map_values(|n: String| n@)
}

/// The argument expression text for a call with these argument names.
pub fn args_tuple_text(names: &Vec<String>) -> (r: String)
    ensures
        r@ == args_tuple_spec(names_view(names@)),
{
    if names.len() == 0 {
        return String::from_str("&[(); 0]");
    }
    let mut out = String::from_str("&(");
    out.append(names[0].as_str());
    if names.len() == 1 {
        out.append(",)");
        return out;
    }
    let ghost nv = names_view(names@);
    assert(nv.subrange(0, 1).drop_last().len() == 0);
    assert(joined(nv.subrange(0, 1)) == nv[0]);
    let mut i: usize = 1;
    while i < names.len()
        invariant
            1 <= i <= names@.len(),
            nv == names_view(names@),
            out@ == "&("@ + joined(nv.subrange(0, i as int)),
        decreases names@.len() - i,
    {
        out.append(", ");
        out.append(names[i].as_str());
        assert(nv.subrange(0, i + 1).drop_last() =~= nv.subrange(0, i as int));
        assert(out@ =~= "&("@ + joined(nv.subrange(0, i + 1)));
        i = i + 1;
    }
    assert(nv.subrange(0, names@.len() as int) =~= nv);
    out.append(")");
    out
}

} // verus!
