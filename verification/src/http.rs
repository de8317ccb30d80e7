//! Per-request HTTP handling on the guest side: the path parameters a handler is
//! given, where its reply goes, and how an outbound request URL is taken apart.

use vstd::prelude::*;
use vstd::string::*;
use crate::actor::Pid;
use crate::text::{chars_of, find_key, first_piece, lookup, pairs_view, parse_u64, parse_u64_spec, piece_end};
use crate::outside::fmt::{debug_str, str_debug};

verus! {

/// Path parameters captured from the route pattern (`/users/:id` → `params.get("id")`).
pub struct Params(Vec<(String, String)>);

impl Params {
    /// The captured `(name, value)` pairs, in pattern order.
    pub closed spec fn pairs(&self) -> Seq<(Seq<char>, Seq<char>)> {
        pairs_view(self.0@)
    }

    /// Parameters as the host sent them.
    pub fn new(pairs: Vec<(String, String)>) -> (p: Self)
        ensures
            p.pairs() == pairs_view(pairs@),
    {
        Params(pairs)
    }

    /// The value captured for `name`, or `None` if the route had no such parameter.
    pub fn get(&self, name: &str) -> (r: Option<&str>)
        ensures
            r matches Some(v) ==> lookup(self.pairs(), name@, false) == Some(v@),
            r is None ==> lookup(self.pairs(), name@, false) is None,
    {
        match find_key(&self.0, name, false) {
            Some(i) => {
                assert(pairs_view(self.0@)[i as int].1 == self.0@[i as int].1@);
                Some(self.0[i].1.as_str())
            },
            None => None,
        }
    }
}

/// Whether `p` occurs in `s` starting at `i`.
pub open spec fn occurs_at(s: Seq<char>, p: Seq<char>, i: int) -> bool {
    0 <= i && i + p.len() <= s.len() && s.subrange(i, i + p.len()) == p
}

/// The first position at or after `k` where `p` occurs in `s`.
pub open spec fn find_from(s: Seq<char>, p: Seq<char>, k: int) -> Option<int>
    decreases s.len() - k,
{
    if k < 0 || k + p.len() > s.len() {
        None
    } else if occurs_at(s, p, k) {
        Some(k)
    } else if k >= s.len() {
        None
    } else {
        find_from(s, p, k + 1)
    }
}

/// The scheme separator `://`.
pub open spec fn scheme_sep() -> Seq<char> {
    seq![':', '/', '/']
}

/// `url` taken apart into `(scheme, authority, path-with-query)`: cut at the first
/// `://`; the authority runs to the first `/` after it, and the path is the rest, or
/// `/` when there is none. `None` without a `://`.
pub open spec fn split_url_spec(url: Seq<char>) -> Option<(Seq<char>, Seq<char>, Seq<char>)> {
    match find_from(url, scheme_sep(), 0) {
        None => None,
        Some(i) => {
            let rest = url.subrange(i + 3, url.len() as int);
            let authority = first_piece(rest, '/');
            let path = if authority.len() < rest.len() {
                rest.subrange(authority.len() as int, rest.len() as int)
            } else {
                seq!['/']
            };
            Some((url.subrange(0, i), authority, path))
        },
    }
}

/// Split a URL into its `(scheme, authority, path-with-query)` parts; `None` without a
/// `scheme://`. Authority is `host[:port]`; the path defaults to `/`.
pub fn split_url(url: &str) -> (r: Option<(&str, String, String)>)
    ensures
        match split_url_spec(url@) {
            None => r is None,
            Some((scheme, authority, path)) => r matches Some((a, b, c)) && a@ == scheme && b@
                == authority && c@ == path,
        },
{
    let s = chars_of(url);
    let n = s.len();
    let ghost p = scheme_sep();
    let mut k: usize = 0;
    while n >= 3 && k <= n - 3 && !(s[k] == ':' && s[k + 1] == '/' && s[k + 2] == '/')
        invariant
            n == s@.len(),
            s@ == url@,
            p == scheme_sep(),
            k <= n,
            find_from(s@, p, 0) == find_from(s@, p, k as int),
        decreases n - k,
    {
        assert(!occurs_at(s@, p, k as int)) by {
            if occurs_at(s@, p, k as int) {
                assert(s@.subrange(k as int, k + 3)[0] == s@[k as int]);
                assert(s@.subrange(k as int, k + 3)[1] == s@[k + 1]);
                assert(s@.subrange(k as int, k + 3)[2] == s@[k + 2]);
            }
        }
        k = k + 1;
    }
    if n < 3 || k > n - 3 {
        return None;
    }
    assert(occurs_at(s@, p, k as int)) by {
        assert(s@.subrange(k as int, k + 3) =~= p);
    }
    let f = piece_end(&s, k + 3, n, '/');
    let scheme = url.substring_char(0, k);
    let authority = url.substring_char(k + 3, f).to_owned();
    let path = if f < n {
        url.substring_char(f, n).to_owned()
    } else {
        let slash = String::from_str("/");
        proof {
            reveal_strlit("/");
        }
        slash
    };
    proof {
        let rest = s@.subrange(k + 3, n as int);
        assert(rest.subrange(f - (k + 3), rest.len() as int) =~= s@.subrange(f as int, n as int));
        assert(path@ =~= split_url_spec(url@)->Some_0.2);
    }
    Some((scheme, authority, path))
}

/// Where a per-request handler sends its reply: the `from` pid (a decimal string)
/// paired with the request's `ref`, when both came and `from` parses.
pub open spec fn reply_target_spec(from: Option<Seq<char>>, reference: Option<u64>) -> Option<(Pid, u64)> {
    match (from, reference) {
        (Some(f), Some(r)) => match parse_u64_spec(f) {
            Some(pid) => Some((Pid(pid), r)),
            None => None,
        },
        _ => None,
    }
}

/// The reply target of a dispatched request; `None` for a cast that cannot be answered.
pub fn reply_target(from: Option<&str>, reference: Option<u64>) -> (r: Option<(Pid, u64)>)
    ensures
        r == reply_target_spec(
            match from {
                Some(f) => Some(f@),
                None => None,
            },
            reference,
        ),
{
    match (from, reference) {
        (Some(f), Some(rf)) => match parse_u64(f) {
            Some(pid) => Some((Pid(pid), rf)),
            None => None,
        },
        _ => None,
    }
}

/// The scheme of an outbound request.
#[derive(Debug, PartialEq, Eq)]
pub enum FetchScheme {
    Http,
    Https,
    Other(String),
}

/// The method of an outbound request.
#[derive(Debug, PartialEq, Eq)]
pub enum FetchMethod {
    Get,
    Head,
    Post,
    Put,
    Delete,
    Patch,
    Options,
    Other(String),
}

/// The scheme named by `s`: `http` and `https` exactly, anything else as given.
pub open spec fn scheme_of(s: Seq<char>) -> FetchSchemeView {
    if s == seq!['h', 't', 't', 'p'] {
        FetchSchemeView::Http
    } else if s == seq!['h', 't', 't', 'p', 's'] {
        FetchSchemeView::Https
    } else {
        FetchSchemeView::Other(s)
    }
}

/// A scheme as a value.
pub enum FetchSchemeView {
    Http,
    Https,
    Other(Seq<char>),
}

/// A method as a value.
pub enum FetchMethodView {
    Get,
    Head,
    Post,
    Put,
    Delete,
    Patch,
    Options,
    Other(Seq<char>),
}

impl View for FetchScheme {
    type V = FetchSchemeView;

    open spec fn view(&self) -> FetchSchemeView {
        match self {
            FetchScheme::Http => FetchSchemeView::Http,
            FetchScheme::Https => FetchSchemeView::Https,
            FetchScheme::Other(s) => FetchSchemeView::Other(s@),
        }
    }
}

impl View for FetchMethod {
    type V = FetchMethodView;

    open spec fn view(&self) -> FetchMethodView {
        match self {
            FetchMethod::Get => FetchMethodView::Get,
            FetchMethod::Head => FetchMethodView::Head,
            FetchMethod::Post => FetchMethodView::Post,
            FetchMethod::Put => FetchMethodView::Put,
            FetchMethod::Delete => FetchMethodView::Delete,
            FetchMethod::Patch => FetchMethodView::Patch,
            FetchMethod::Options => FetchMethodView::Options,
            FetchMethod::Other(s) => FetchMethodView::Other(s@),
        }
    }
}

/// The method named by `m`: the seven standard names, exactly (upper case); anything
/// else as given.
pub open spec fn method_of(m: Seq<char>) -> FetchMethodView {
    if m == seq!['G', 'E', 'T'] {
        FetchMethodView::Get
    } else if m == seq!['H', 'E', 'A', 'D'] {
        FetchMethodView::Head
    } else if m == seq!['P', 'O', 'S', 'T'] {
        FetchMethodView::Post
    } else if m == seq!['P', 'U', 'T'] {
        FetchMethodView::Put
    } else if m == seq!['D', 'E', 'L', 'E', 'T', 'E'] {
        FetchMethodView::Delete
    } else if m == seq!['P', 'A', 'T', 'C', 'H'] {
        FetchMethodView::Patch
    } else if m == seq!['O', 'P', 'T', 'I', 'O', 'N', 'S'] {
        FetchMethodView::Options
    } else {
        FetchMethodView::Other(m)
    }
}

/// Whether `s` is exactly the characters of `w`.
fn is_word(s: &Vec<char>, w: &[char]) -> (r: bool)
    ensures
        r == (s@ == w@),
{
    if s.len() != w.len() {
        return false;
    }
    let mut i: usize = 0;
    while i < s.len()
        invariant
            s@.len() == w@.len(),
            i <= s@.len(),
            forall|j: int| 0 <= j < i ==> s@[j] == w@[j],
        decreases s@.len() - i,
    {
        if s[i] != w[i] {
            return false;
        }
        i = i + 1;
    }
    assert(s@ =~= w@);
    true
}

/// The scheme of an outbound request URL.
pub fn fetch_scheme(scheme: &str) -> (r: FetchScheme)
    ensures
        r@ == scheme_of(scheme@),
{
    let s = chars_of(scheme);
    if is_word(&s, &['h', 't', 't', 'p']) {
        FetchScheme::Http
    } else if is_word(&s, &['h', 't', 't', 'p', 's']) {
        FetchScheme::Https
    } else {
        FetchScheme::Other(scheme.to_owned())
    }
}

/// The method of an outbound request.
pub fn fetch_method(method: &str) -> (r: FetchMethod)
    ensures
        r@ == method_of(method@),
{
    let m = chars_of(method);
    if is_word(&m, &['G', 'E', 'T']) {
        FetchMethod::Get
    } else if is_word(&m, &['H', 'E', 'A', 'D']) {
        FetchMethod::Head
    } else if is_word(&m, &['P', 'O', 'S', 'T']) {
        FetchMethod::Post
    } else if is_word(&m, &['P', 'U', 'T']) {
        FetchMethod::Put
    } else if is_word(&m, &['D', 'E', 'L', 'E', 'T', 'E']) {
        FetchMethod::Delete
    } else if is_word(&m, &['P', 'A', 'T', 'C', 'H']) {
        FetchMethod::Patch
    } else if is_word(&m, &['O', 'P', 'T', 'I', 'O', 'N', 'S']) {
        FetchMethod::Options
    } else {
        FetchMethod::Other(method.to_owned())
    }
}

/// An outbound request taken apart for the transport.
pub struct FetchPlan {
    pub scheme: FetchScheme,
    pub method: FetchMethod,
    pub authority: String,
    pub path: String,
}

/// The refusal for a URL without a scheme: `bad URL ` and the URL in `{:?}` form.
pub open spec fn bad_url_message(url: Seq<char>) -> Seq<char> {
    seq!['b', 'a', 'd', ' ', 'U', 'R', 'L', ' '] + str_debug(url)
}

/// What an outbound request to `url` with `method` is sent as, before any I/O: its
/// scheme, method, authority and path — or the `bad URL …` refusal when the URL has
/// no `scheme://`.
pub fn plan_fetch(url: &str, method: &str) -> (r: Result<FetchPlan, String>)
    ensures
        match split_url_spec(url@) {
            None => r matches Err(e) && e@ == bad_url_message(url@),
            Some((scheme, authority, path)) => r matches Ok(p) && p.scheme@ == scheme_of(scheme)
                && p.method@ == method_of(method@) && p.authority@ == authority && p.path@ == path,
        },
{
    match split_url(url) {
        None => {
            let mut e = String::from_str("bad URL ");
            proof {
                reveal_strlit("bad URL ");
            }
            let d = debug_str(url);
            e.append(d.as_str());
            assert(e@ =~= bad_url_message(url@));
            Err(e)
        },
        Some((scheme, authority, path)) => Ok(
            FetchPlan {
                scheme: fetch_scheme(scheme),
                method: fetch_method(method),
                authority,
                path,
            },
        ),
    }
}

/// Law: each standard method name selects its own method — `GET`, `HEAD`, `POST`,
/// `PUT`, `DELETE`, `PATCH` and `OPTIONS` — so distinct standard names never share a
/// method; and any other name is carried through as itself.
pub proof fn law_each_method_name_selects_its_method(m: Seq<char>, n: Seq<char>)
    ensures
        method_of("GET"@) == FetchMethodView::Get,
        method_of("HEAD"@) == FetchMethodView::Head,
        method_of("POST"@) == FetchMethodView::Post,
        method_of("PUT"@) == FetchMethodView::Put,
        method_of("DELETE"@) == FetchMethodView::Delete,
        method_of("PATCH"@) == FetchMethodView::Patch,
        method_of("OPTIONS"@) == FetchMethodView::Options,
        method_of(m) == method_of(n) ==> m == n,
        method_of(m) is Other ==> method_of(m) == FetchMethodView::Other(m),
{
    reveal_strlit("GET");
    reveal_strlit("HEAD");
    reveal_strlit("POST");
    reveal_strlit("PUT");
    reveal_strlit("DELETE");
    reveal_strlit("PATCH");
    reveal_strlit("OPTIONS");
    assert("GET"@ =~= seq!['G', 'E', 'T']);
    assert("HEAD"@ =~= seq!['H', 'E', 'A', 'D']);
    assert("POST"@ =~= seq!['P', 'O', 'S', 'T']);
    assert("PUT"@ =~= seq!['P', 'U', 'T']);
    assert("DELETE"@ =~= seq!['D', 'E', 'L', 'E', 'T', 'E']);
    assert("PATCH"@ =~= seq!['P', 'A', 'T', 'C', 'H']);
    assert("OPTIONS"@ =~= seq!['O', 'P', 'T', 'I', 'O', 'N', 'S']);
}

} // verus!
