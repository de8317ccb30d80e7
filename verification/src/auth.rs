//! Serving authentication: what an auth hook is shown about an incoming request, and
//! its verdict. A hook runs before any handler is spawned; its claims seed the
//! request's host-only context, and a denial is answered `401` with no handler run.

use vstd::prelude::*;
use vstd::string::*;
use vstd::utf8::*;
use crate::sse::{decimal, push_all, push_decimal};
use crate::outside::json::{json_object_members, members_view, object_members};
use crate::text::{chars_of, find_key, first_piece, lemma_first_piece, lemma_split_piece, lookup, pairs_view, range_eq, split};

verus! {

/// What an auth hook is shown about an incoming request (an HTTP request, or a
/// WebSocket/SSE upgrade). Assembled host-side; never visible to guest code.
#[derive(Clone, Debug, Default)]
pub struct AuthRequest {
    /// The HTTP method (`GET`, `POST`, …).
    pub method: String,
    /// The request path, without the query string.
    pub path: String,
    /// The raw query string without the leading `?`, or `""`.
    pub query: String,
    /// The request headers, in arrival order.
    pub headers: Vec<(String, String)>,
}

/// An auth hook's verdict on a request.
pub enum AuthVerdict {
    /// Authenticated: these `key → value` claims seed the request's host-only context.
    Allow(Vec<(String, String)>),
    /// Rejected: the serving bridge replies `401 Unauthorized` and spawns no handler.
    Deny,
}

/// The value of one `key=value` pair of a query string when its key is `name`:
/// the pair is cut at its first `=`; a pair without `=` has no value.
pub open spec fn pair_value(pair: Seq<char>, name: Seq<char>) -> Option<Seq<char>> {
    let key = first_piece(pair, '=');
    if key.len() < pair.len() && key == name {
        Some(pair.subrange(key.len() as int + 1, pair.len() as int))
    } else {
        None
    }
}

/// The value of the leftmost pair among `pairs` whose key is `name`.
pub open spec fn first_value(pairs: Seq<Seq<char>>, name: Seq<char>) -> Option<Seq<char>>
    decreases pairs.len(),
{
    if pairs.len() == 0 {
        None
    } else {
        match first_value(pairs.drop_last(), name) {
            Some(v) => Some(v),
            None => pair_value(pairs.last(), name),
        }
    }
}

/// The value of query parameter `name` in `query`: the first `&`-separated pair whose
/// key is `name`, undecoded.
pub open spec fn query_value(query: Seq<char>, name: Seq<char>) -> Option<Seq<char>> {
    first_value(split(query, '&'), name)
}

impl AuthRequest {
    /// The first header whose name equals `name` (ASCII case-insensitive), or `None`.
    pub fn header(&self, name: &str) -> (r: Option<&str>)
        ensures
            r matches Some(v) ==> lookup(pairs_view(self.headers@), name@, true) == Some(v@),
            r is None ==> lookup(pairs_view(self.headers@), name@, true) is None,
    {
        match find_key(&self.headers, name, true) {
            Some(i) => {
                assert(pairs_view(self.headers@)[i as int].1 == self.headers@[i as int].1@);
                Some(self.headers[i].1.as_str())
            },
            None => None,
        }
    }

    /// The value of query parameter `name` (first occurrence), or `None`. Handles
    /// plain `key=value` pairs separated by `&`; values are returned undecoded.
    pub fn query_param(&self, name: &str) -> (r: Option<&str>)
        ensures
            r matches Some(v) ==> query_value(self.query@, name@) == Some(v@),
            r is None ==> query_value(self.query@, name@) is None,
    {
        let s = chars_of(self.query.as_str());
        let target = chars_of(name);
        let n = s.len();
        let mut found: Option<(usize, usize)> = None;
        let mut st: usize = 0;
        let mut i: usize = 0;
        let ghost mut done: Seq<Seq<char>> = Seq::empty();
        while i < n
            invariant
                s@ == self.query@,
                target@ == name@,
                n == s@.len(),
                st <= i <= n,
                st == 0 || s@[st - 1] == '&',
                forall|j: int| st <= j < i ==> s@[j] != '&',
                done == (if st == 0 {
                    Seq::<Seq<char>>::empty()
                } else {
                    split(s@.subrange(0, st - 1), '&')
                }),
                match found {
                    Some((a, b)) => a <= b <= n && first_value(done, name@) == Some(
                        s@.subrange(a as int, b as int),
                    ),
                    None => first_value(done, name@) is None,
                },
            decreases n - i,
        {
            if s[i] == '&' {
                proof {
                    lemma_split_piece(s@, '&', st as int, i as int);
                }
                let m = pair_match(&s, st, i, &target);
                proof {
                    let d = done.push(s@.subrange(st as int, i as int));
                    assert(d.drop_last() =~= done);
                    done = d;
                }
                if found.is_none() {
                    found = m;
                }
                st = i + 1;
            }
            i = i + 1;
        }
        proof {
            lemma_split_piece(s@, '&', st as int, n as int);
            assert(s@.subrange(0, n as int) =~= s@);
        }
        let m = pair_match(&s, st, n, &target);
        proof {
            let d = done.push(s@.subrange(st as int, n as int));
            assert(d.drop_last() =~= done);
        }
        if found.is_none() {
            found = m;
        }
        match found {
            Some((a, b)) => Some(self.query.as_str().substring_char(a, b)),
            None => None,
        }
    }
}

/// An auth verdict as a value.
pub enum VerdictView {
    Allow(Seq<(Seq<char>, Seq<char>)>),
    Deny,
}

impl View for AuthVerdict {
    type V = VerdictView;

    open spec fn view(&self) -> VerdictView {
        match self {
            AuthVerdict::Allow(c) => VerdictView::Allow(pairs_view(c@)),
            AuthVerdict::Deny => VerdictView::Deny,
        }
    }
}

/// The bytes after the first `:` of `reply`, or all of it when there is none.
pub open spec fn after_first_colon(reply: Seq<u8>) -> Seq<u8> {
    let head = first_piece(reply, 58u8);
    if head.len() < reply.len() {
        reply.subrange(head.len() as int + 1, reply.len() as int)
    } else {
        reply
    }
}

/// The string-valued members, in order; the others are dropped.
pub open spec fn string_claims(ms: Seq<(Seq<char>, Option<Seq<char>>)>) -> Seq<(Seq<char>, Seq<char>)>
    decreases ms.len(),
{
    if ms.len() == 0 {
        Seq::empty()
    } else {
        let rest = string_claims(ms.drop_last());
        match ms.last().1 {
            Some(v) => rest.push((ms.last().0, v)),
            None => rest,
        }
    }
}

/// The verdict a delegated runner's reply `"<call_id>:<json>"` stands for: the JSON
/// after the first `:` must be an object whose `allow` member is an object, and then
/// its string-valued members are the claims; anything else is a denial.
pub open spec fn verdict_of(reply: Seq<u8>) -> VerdictView {
    match json_object_members(after_first_colon(reply), "allow"@) {
        Some(ms) => VerdictView::Allow(string_claims(ms)),
        None => VerdictView::Deny,
    }
}

/// Parse a delegated runner's reply into a verdict, failing closed: only an explicit
/// `{"allow": {…}}` allows.
pub fn parse_verdict(reply: &[u8]) -> (r: AuthVerdict)
    ensures
        r@ == verdict_of(reply@),
{
    let n = reply.len();
    let mut i: usize = 0;
    while i < n && reply[i] != 58u8
        invariant
            i <= n,
            n == reply@.len(),
            forall|j: int| 0 <= j < i ==> reply@[j] != 58u8,
        decreases n - i,
    {
        i = i + 1;
    }
    proof {
        lemma_first_piece(reply@, 58u8, i as int);
    }
    let json: &[u8] = if i < n {
        let mut v: Vec<u8> = Vec::new();
        let mut k = i + 1;
        while k < n
            invariant
                i < n,
                n == reply@.len(),
                i + 1 <= k <= n,
                v@ == reply@.subrange(i + 1, k as int),
            decreases n - k,
        {
            v.push(reply[k]);
            k = k + 1;
            assert(v@ =~= reply@.subrange(i + 1, k as int));
        }
        let members = object_members(v.as_slice(), "allow");
        return allow_from(members);
    } else {
        reply
    };
    assert(reply@.subrange(0, i as int) =~= reply@);
    let members = object_members(json, "allow");
    allow_from(members)
}

/// The verdict for the members of an `allow` object (or its absence).
fn allow_from(members: Option<Vec<(String, Option<String>)>>) -> (r: AuthVerdict)
    ensures
        r@ == match members {
            Some(v) => VerdictView::Allow(string_claims(members_view(v@))),
            None => VerdictView::Deny,
        },
{
    match members {
        None => AuthVerdict::Deny,
        Some(v) => {
            let ghost mv = members_view(v@);
            let mut claims: Vec<(String, String)> = Vec::new();
            let mut i: usize = 0;
            while i < v.len()
                invariant
                    i <= v@.len(),
                    mv == members_view(v@),
                    pairs_view(claims@) == string_claims(mv.subrange(0, i as int)),
                decreases v@.len() - i,
            {
                assert(mv.subrange(0, i + 1).drop_last() =~= mv.subrange(0, i as int));
                match &v[i].1 {
                    Some(s) => {
                        claims.push((v[i].0.clone(), s.clone()));
                        assert(pairs_view(claims@) =~= string_claims(mv.subrange(0, i as int)).push(
                            (v@[i as int].0@, s@),
                        ));
                    },
                    None => {},
                }
                i = i + 1;
            }
            assert(mv.subrange(0, v@.len() as int) =~= mv);
            AuthVerdict::Allow(claims)
        },
    }
}


/// The request a delegated auth runner is sent: its `authenticate` function called
/// with `args` (the JSON array holding the request), replying to the process
/// `responder` under the call id `rusm-auth-<seq>` (colon-free, so the reply
/// `"<call id>:<json>"` splits at its first colon).
pub open spec fn auth_envelope_spec(args: Seq<u8>, responder: u64, seq: u64) -> Seq<u8> {
    encode_utf8("{\"fn\":\"authenticate\",\"args\":"@) + args + encode_utf8(",\"replyTo\":{\"pid\":\""@)
        + decimal(responder as nat) + encode_utf8("\",\"callId\":\"rusm-auth-"@) + decimal(
        seq as nat,
    ) + encode_utf8("\"}}"@)
}

/// Write the request a delegated auth runner is sent.
pub fn auth_envelope(args: &[u8], responder: u64, seq: u64) -> (r: Vec<u8>)
    ensures
        r@ == auth_envelope_spec(args@, responder, seq),
{
    let mut out: Vec<u8> = Vec::new();
    push_all(&mut out, "{\"fn\":\"authenticate\",\"args\":".as_bytes());
    push_all(&mut out, args);
    push_all(&mut out, ",\"replyTo\":{\"pid\":\"".as_bytes());
    push_decimal(&mut out, responder);
    push_all(&mut out, "\",\"callId\":\"rusm-auth-".as_bytes());
    push_decimal(&mut out, seq);
    push_all(&mut out, "\"}}".as_bytes());
    assert(out@ =~= auth_envelope_spec(args@, responder, seq));
    out
}

/// The verdict of a delegated hook, failing closed: the runner's reply parsed, or a
/// denial when there was none (the runner is not registered, died, or did not answer
/// in time).
pub fn delegated_verdict(reply: Option<&[u8]>) -> (r: AuthVerdict)
    ensures
        match reply {
            Some(b) => r@ == verdict_of(b@),
            None => r@ == VerdictView::Deny,
        },
{
    match reply {
        Some(b) => parse_verdict(b),
        None => AuthVerdict::Deny,
    }
}

/// The value range of the pair `s[st..i]` when its key is `name`.
fn pair_match(s: &Vec<char>, st: usize, i: usize, name: &Vec<char>) -> (r: Option<(usize, usize)>)
    requires
        st <= i <= s.len(),
    ensures
        match pair_value(s@.subrange(st as int, i as int), name@) {
            Some(v) => r matches Some((a, b)) && st <= a <= b <= i && v == s@.subrange(
                a as int,
                b as int,
            ),
            None => r is None,
        },
{
    let ghost pair = s@.subrange(st as int, i as int);
    let mut e = st;
    while e < i && s[e] != '='
        invariant
            st <= e <= i <= s@.len(),
            forall|j: int| st <= j < e ==> s@[j] != '=',
        decreases i - e,
    {
        e = e + 1;
    }
    proof {
        assert forall|j: int| 0 <= j < e - st implies pair[j] != '=' by {
            assert(pair[j] == s@[st + j]);
        }
        if e < i {
            assert(pair[e - st] == s@[e as int]);
        }
        lemma_first_piece(pair, '=', e - st);
        assert(pair.subrange(0, e - st) =~= s@.subrange(st as int, e as int));
    }
    if e < i && range_eq(s, st, e, name) {
        assert(pair.subrange(e - st + 1, pair.len() as int) =~= s@.subrange(e + 1, i as int));
        Some((e + 1, i))
    } else {
        None
    }
}

} // verus!
