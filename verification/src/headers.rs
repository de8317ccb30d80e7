//! A listener's response policy: the headers it declares (CORS and the like) merged
//! into the head of every answer it gives.

use vstd::prelude::*;
use crate::text::{chars_of, lower, pairs_view, range_eq_ignore_case};
use crate::ws_codec::slice_to_vec;

verus! {

/// Whether two header names are the same name (header names ignore ASCII case).
pub open spec fn same_name(a: Seq<char>, b: Seq<char>) -> bool {
    lower(a) == lower(b)
}

/// `headers` without any header named `name`, the others in order.
pub open spec fn without_name<V>(headers: Seq<(Seq<char>, V)>, name: Seq<char>) -> Seq<(Seq<char>, V)>
    decreases headers.len(),
{
    if headers.len() == 0 {
        headers
    } else {
        let rest = without_name(headers.drop_last(), name);
        if same_name(headers.last().0, name) {
            rest
        } else {
            rest.push(headers.last())
        }
    }
}

/// `headers` with `header` set: any header of the same name is replaced by it.
pub open spec fn with_header(headers: Seq<(Seq<char>, Seq<char>)>, header: (Seq<char>, Seq<char>)) -> Seq<
    (Seq<char>, Seq<char>),
> {
    without_name(headers, header.0).push(header)
}

/// `headers` with each of `policy` set in turn, so a later policy header of a name
/// replaces an earlier one.
pub open spec fn merged(headers: Seq<(Seq<char>, Seq<char>)>, policy: Seq<(Seq<char>, Seq<char>)>) -> Seq<
    (Seq<char>, Seq<char>),
>
    decreases policy.len(),
{
    if policy.len() == 0 {
        headers
    } else {
        with_header(merged(headers, policy.drop_last()), policy.last())
    }
}

/// Whether two header names are the same name, ignoring ASCII case.
pub fn names_match(a: &str, b: &str) -> (r: bool)
    ensures
        r == same_name(a@, b@),
{
    let x = chars_of(a);
    let y = chars_of(b);
    if x.len() != y.len() {
        assert(lower(a@).len() != lower(b@).len());
        return false;
    }
    let n = x.len();
    assert(x@.subrange(0, n as int) =~= x@);
    range_eq_ignore_case(&x, 0, n, &y)
}

/// A copy of a header.
fn copy_header(h: &(String, String)) -> (r: (String, String))
    ensures
        r.0@ == h.0@,
        r.1@ == h.1@,
{
    (h.0.clone(), h.1.clone())
}

/// Set `name: value` in `headers`, replacing every header of the same name.
pub fn set_header(headers: &Vec<(String, String)>, name: &str, value: &str) -> (r: Vec<(String, String)>)
    ensures
        pairs_view(r@) == with_header(pairs_view(headers@), (name@, value@)),
{
    let mut out: Vec<(String, String)> = Vec::new();
    let mut i: usize = 0;
    while i < headers.len()
        invariant
            i <= headers@.len(),
            pairs_view(out@) == without_name(pairs_view(headers@).subrange(0, i as int), name@),
        decreases headers@.len() - i,
    {
        let ghost pre = pairs_view(headers@).subrange(0, i as int);
        let ghost next = pairs_view(headers@).subrange(0, i + 1);
        assert(next.drop_last() =~= pre);
        if !names_match(headers[i].0.as_str(), name) {
            let h = copy_header(&headers[i]);
            out.push(h);
            assert(pairs_view(out@) =~= without_name(pre, name@).push(next.last()));
        }
        i = i + 1;
    }
    assert(pairs_view(headers@).subrange(0, headers@.len() as int) =~= pairs_view(headers@));
    out.push((String::from_str(name), String::from_str(value)));
    assert(pairs_view(out@) =~= with_header(pairs_view(headers@), (name@, value@)));
    out
}

/// Merge a listener's `policy` headers into an answer's `headers`: each policy header
/// replaces any header of the same name, in the policy's order.
pub fn merge_headers(headers: Vec<(String, String)>, policy: &Vec<(String, String)>) -> (r: Vec<
    (String, String),
>)
    ensures
        pairs_view(r@) == merged(pairs_view(headers@), pairs_view(policy@)),
{
    let mut out = headers;
    let ghost start = pairs_view(out@);
    let mut i: usize = 0;
    while i < policy.len()
        invariant
            i <= policy@.len(),
            pairs_view(out@) == merged(start, pairs_view(policy@).subrange(0, i as int)),
        decreases policy@.len() - i,
    {
        let ghost pre = pairs_view(policy@).subrange(0, i as int);
        let ghost next = pairs_view(policy@).subrange(0, i + 1);
        assert(next.drop_last() =~= pre);
        out = set_header(&out, policy[i].0.as_str(), policy[i].1.as_str());
        i = i + 1;
    }
    assert(pairs_view(policy@).subrange(0, policy@.len() as int) =~= pairs_view(policy@));
    out
}

/// What a sequence with one more element at its end contains.
proof fn lemma_push_contains<A>(s: Seq<A>, x: A, h: A)
    ensures
        s.push(x).contains(h) <==> (s.contains(h) || x == h),
{
    let t = s.push(x);
    if s.contains(h) {
        let k = choose|k: int| 0 <= k < s.len() && s[k] == h;
        assert(t[k] == h);
    }
    if x == h {
        assert(t[s.len() as int] == h);
    }
    if t.contains(h) {
        let k = choose|k: int| 0 <= k < t.len() && t[k] == h;
        if k < s.len() {
            assert(s[k] == h);
        }
    }
}

/// A header kept by `without_name` is one of the input's, of another name.
proof fn lemma_without_name_members<V>(
    headers: Seq<(Seq<char>, V)>,
    name: Seq<char>,
    h: (Seq<char>, V),
)
    ensures
        without_name(headers, name).contains(h) <==> (headers.contains(h) && !same_name(h.0, name)),
    decreases headers.len(),
{
    if headers.len() == 0 {
        assert(!headers.contains(h));
    } else {
        let init = headers.drop_last();
        let last = headers.last();
        lemma_without_name_members(init, name, h);
        assert(headers =~= init.push(last));
        lemma_push_contains(init, last, h);
        let rest = without_name(init, name);
        if !same_name(last.0, name) {
            lemma_push_contains(rest, last, h);
        }
    }
}

/// Law: a listener's policy header is in every merged head unless a later policy
/// header of the same name replaced it; and a header of the answer survives the
/// merge exactly when no policy header carries its name.
pub proof fn law_merge_keeps_policy_and_unnamed(
    headers: Seq<(Seq<char>, Seq<char>)>,
    policy: Seq<(Seq<char>, Seq<char>)>,
    h: (Seq<char>, Seq<char>),
)
    ensures
        (exists|i: int|
            0 <= i < policy.len() && policy[i] == h && forall|j: int|
                i < j < policy.len() ==> !same_name(#[trigger] policy[j].0, h.0)) ==> merged(
            headers,
            policy,
        ).contains(h),
        (headers.contains(h) && forall|j: int| 0 <= j < policy.len() ==> !same_name(
            #[trigger] policy[j].0,
            h.0,
        )) ==> merged(headers, policy).contains(h),
    decreases policy.len(),
{
    if policy.len() > 0 {
        let init = policy.drop_last();
        let last = policy.last();
        law_merge_keeps_policy_and_unnamed(headers, init, h);
        let m0 = merged(headers, init);
        lemma_without_name_members(m0, last.0, h);
        let m = merged(headers, policy);
        assert(m == without_name(m0, last.0).push(last));
        assert(m[m.len() - 1] == last);
        if exists|i: int|
            0 <= i < policy.len() && policy[i] == h && forall|j: int|
                i < j < policy.len() ==> !same_name(#[trigger] policy[j].0, h.0) {
            let i = choose|i: int|
                0 <= i < policy.len() && policy[i] == h && forall|j: int|
                    i < j < policy.len() ==> !same_name(#[trigger] policy[j].0, h.0);
            if i < policy.len() - 1 {
                assert(init[i] == h);
                assert forall|j: int| i < j < init.len() implies !same_name(#[trigger] init[j].0, h.0) by {
                    assert(init[j] == policy[j]);
                }
                assert(m0.contains(h));
                assert(!same_name(last.0, h.0));
                assert(lower(h.0) != lower(last.0));
                let w = without_name(m0, last.0);
                assert(w.contains(h));
                let k = choose|k: int| 0 <= k < w.len() && w[k] == h;
                assert(m[k] == h);
            }
        }
        if headers.contains(h) && forall|j: int| 0 <= j < policy.len() ==> !same_name(
            #[trigger] policy[j].0,
            h.0,
        ) {
            assert forall|j: int| 0 <= j < init.len() implies !same_name(#[trigger] init[j].0, h.0) by {
                assert(init[j] == policy[j]);
            }
            assert(!same_name(policy[policy.len() - 1].0, h.0));
            assert(lower(h.0) != lower(last.0));
            let w = without_name(m0, last.0);
            assert(w.contains(h));
            let k = choose|k: int| 0 <= k < w.len() && w[k] == h;
            assert(m[k] == h);
        }
    }
}

// ── Headers with raw values ──────────────────────────────────────────────────

/// Headers whose values are raw bytes (as a response carries them), viewed as names and
/// byte sequences.
pub open spec fn byte_pairs_view(ps: Seq<(String, Vec<u8>)>) -> Seq<(Seq<char>, Seq<u8>)> {
    ps.map_values(|p: (String, Vec<u8>)| (p.0@, p.1@))
}

/// The value of the first header named `name` (`HeaderMap::get`), if any.
pub open spec fn first_named<V>(headers: Seq<(Seq<char>, V)>, name: Seq<char>) -> Option<V>
    decreases headers.len(),
{
    if headers.len() == 0 {
        None
    } else if same_name(headers[0].0, name) {
        Some(headers[0].1)
    } else {
        first_named(headers.subrange(1, headers.len() as int), name)
    }
}

/// The index of the first header named `name`, if any.
pub fn position_named(headers: &Vec<(String, Vec<u8>)>, name: &str) -> (r: Option<usize>)
    ensures
        match r {
            Some(i) => i < headers@.len() && first_named(byte_pairs_view(headers@), name@) == Some(
                headers@[i as int].1@,
            ),
            None => first_named(byte_pairs_view(headers@), name@) is None,
        },
{
    let ghost all = byte_pairs_view(headers@);
    assert(all.subrange(0, all.len() as int) =~= all);
    let mut i: usize = 0;
    while i < headers.len()
        invariant
            i <= headers@.len(),
            all == byte_pairs_view(headers@),
            first_named(all, name@) == first_named(all.subrange(i as int, all.len() as int), name@),
        decreases headers@.len() - i,
    {
        let ghost rest = all.subrange(i as int, all.len() as int);
        assert(rest[0] == all[i as int]);
        if names_match(headers[i].0.as_str(), name) {
            return Some(i);
        }
        assert(rest.subrange(1, rest.len() as int) =~= all.subrange(i + 1, all.len() as int));
        i = i + 1;
    }
    assert(all.subrange(i as int, all.len() as int).len() == 0);
    None
}

/// `headers` without any header named `name`, the others copied in order.
pub fn drop_named(headers: &Vec<(String, Vec<u8>)>, name: &str) -> (r: Vec<(String, Vec<u8>)>)
    ensures
        byte_pairs_view(r@) == without_name(byte_pairs_view(headers@), name@),
{
    let mut out: Vec<(String, Vec<u8>)> = Vec::new();
    let mut i: usize = 0;
    while i < headers.len()
        invariant
            i <= headers@.len(),
            byte_pairs_view(out@) == without_name(
                byte_pairs_view(headers@).subrange(0, i as int),
                name@,
            ),
        decreases headers@.len() - i,
    {
        let ghost pre = byte_pairs_view(headers@).subrange(0, i as int);
        let ghost next = byte_pairs_view(headers@).subrange(0, i + 1);
        assert(next.drop_last() =~= pre);
        if !names_match(headers[i].0.as_str(), name) {
            let h = (headers[i].0.clone(), slice_to_vec(headers[i].1.as_slice()));
            out.push(h);
            assert(byte_pairs_view(out@) =~= without_name(pre, name@).push(next.last()));
        }
        i = i + 1;
    }
    assert(byte_pairs_view(headers@).subrange(0, headers@.len() as int) =~= byte_pairs_view(
        headers@,
    ));
    out
}

} // verus!
