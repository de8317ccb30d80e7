//! Response-compression policy: which responses are gzipped, which `Accept-Encoding`
//! offers admit gzip, and the one-shot gzip of a buffered body. Bytes are compressed
//! at the transport edge only and never cross into a guest.

use vstd::prelude::*;
use vstd::utf8::*;
use crate::headers::{byte_pairs_view, drop_named, first_named, position_named, without_name};
use crate::outside::flate::{gzip_all, gzip_member_of, gzip_of};
use crate::outside::utf8::str_from_utf8;
use crate::text::{
    is_ws, lead_ws, trail_ws, trim_end, trim_start,
    ascii_lower, ascii_lower_char, chars_of, ends_with, first_piece, lemma_lower_subrange,
    lemma_split_piece, lower, piece_end, range_eq_lower, split, starts_with, trim, trim_bounds,
};

verus! {

/// Below this many bytes gzip's header and framing outweigh the saving, so a small
/// body is sent as-is.
pub const MIN_GZIP_SIZE: usize = 256;

/// The media type of a `content-type` value: the part before any `;` parameters,
/// trimmed and ASCII-lowercased.
pub open spec fn media_type(content_type: Seq<char>) -> Seq<char> {
    lower(trim(first_piece(content_type, ';')))
}

/// Whether a media type names a text-like payload: `text/*`, JSON, JavaScript, XML,
/// XHTML, SVG, or a `+json` / `+xml` structured-syntax suffix.
pub open spec fn compressible_media(t: Seq<char>) -> bool {
    starts_with(t, "text/"@) || t == "application/json"@ || t == "application/javascript"@ || t
        == "application/xml"@ || t == "application/xhtml+xml"@ || t == "image/svg+xml"@
        || ends_with(t, "+json"@) || ends_with(t, "+xml"@)
}

/// Whether a `content-type` names a text-like (well-compressing) payload. An absent
/// type, an already-compressed type (images, video, archives) or an unknown type is
/// left alone.
pub fn is_compressible(content_type: Option<&str>) -> (r: bool)
    ensures
        r == (content_type matches Some(ct) && compressible_media(media_type(ct@))),
{
    let ct = match content_type {
        Some(ct) => ct,
        None => return false,
    };
    let s = chars_of(ct);
    let f = piece_end(&s, 0, s.len(), ';');
    assert(s@.subrange(0, s@.len() as int) =~= s@);
    let (a, b) = trim_bounds(&s, 0, f);
    let ghost t = lower(s@.subrange(a as int, b as int));
    assert(t == media_type(ct@));
    let n = b - a;
    let text = chars_of("text/");
    let json = chars_of("application/json");
    let js = chars_of("application/javascript");
    let xml = chars_of("application/xml");
    let xhtml = chars_of("application/xhtml+xml");
    let svg = chars_of("image/svg+xml");
    let pjson = chars_of("+json");
    let pxml = chars_of("+xml");
    let starts_text = n >= text.len() && range_eq_lower(&s, a, a + text.len(), &text);
    proof {
        if n >= text.len() {
            lemma_lower_subrange(s@.subrange(a as int, b as int), 0, text.len() as int);
            assert(s@.subrange(a as int, b as int).subrange(0, text.len() as int) =~= s@.subrange(
                a as int,
                a + text.len(),
            ));
        }
    }
    let ends_json = n >= pjson.len() && range_eq_lower(&s, b - pjson.len(), b, &pjson);
    proof {
        if n >= pjson.len() {
            lemma_lower_subrange(s@.subrange(a as int, b as int), n - pjson.len(), n as int);
            assert(s@.subrange(a as int, b as int).subrange(n - pjson.len(), n as int) =~= s@.subrange(
                b - pjson.len(),
                b as int,
            ));
        }
    }
    let ends_xml = n >= pxml.len() && range_eq_lower(&s, b - pxml.len(), b, &pxml);
    proof {
        if n >= pxml.len() {
            lemma_lower_subrange(s@.subrange(a as int, b as int), n - pxml.len(), n as int);
            assert(s@.subrange(a as int, b as int).subrange(n - pxml.len(), n as int) =~= s@.subrange(
                b - pxml.len(),
                b as int,
            ));
        }
    }
    starts_text || range_eq_lower(&s, a, b, &json) || range_eq_lower(&s, a, b, &js)
        || range_eq_lower(&s, a, b, &xml) || range_eq_lower(&s, a, b, &xhtml) || range_eq_lower(
        &s,
        a,
        b,
        &svg,
    ) || ends_json || ends_xml
}


/// The quality value a coding parameter carries: the text after `q=` (the `q` in
/// either case), the parameter trimmed.
pub open spec fn q_value(param: Seq<char>) -> Option<Seq<char>> {
    let p = trim(param);
    if p.len() >= 2 && ascii_lower(p[0]) == 'q' && p[1] == '=' {
        Some(p.subrange(2, p.len() as int))
    } else {
        None
    }
}

/// The quality values among a coding's parameters, in order.
pub open spec fn q_values(params: Seq<Seq<char>>) -> Seq<Seq<char>>
    decreases params.len(),
{
    if params.len() == 0 {
        Seq::empty()
    } else {
        let rest = q_values(params.drop_last());
        match q_value(params.last()) {
            Some(q) => rest.push(q),
            None => rest,
        }
    }
}

/// One `Accept-Encoding` offer, when it names gzip or `*` (its coding trimmed and
/// ASCII-lowercased): the quality values of its `;`-separated parameters.
pub open spec fn gzip_offer(token: Seq<char>) -> Option<Seq<Seq<char>>> {
    let head = first_piece(token, ';');
    let coding = lower(trim(head));
    if coding == "gzip"@ || coding == "*"@ {
        Some(
            if head.len() < token.len() {
                q_values(split(token.subrange(head.len() as int + 1, token.len() as int), ';'))
            } else {
                Seq::empty()
            },
        )
    } else {
        None
    }
}

/// The gzip (or `*`) offers among comma-separated offers, in order.
pub open spec fn gzip_offers(tokens: Seq<Seq<char>>) -> Seq<Seq<Seq<char>>>
    decreases tokens.len(),
{
    if tokens.len() == 0 {
        Seq::empty()
    } else {
        let rest = gzip_offers(tokens.drop_last());
        match gzip_offer(tokens.last()) {
            Some(qs) => rest.push(qs),
            None => rest,
        }
    }
}

/// The texts of a list of strings.
pub open spec fn strings_view(v: Seq<String>) -> Seq<Seq<char>> {
    v.map_values(|s: String| s@)
}

/// The texts of a list of lists of strings.
pub open spec fn offers_view(v: Seq<Vec<String>>) -> Seq<Seq<Seq<char>>> {
    v.map_values(|l: Vec<String>| strings_view(l@))
}

/// The quality value of the parameter `t[st..i]`, as the index range of its text.
fn q_range(t: &Vec<char>, st: usize, i: usize) -> (r: Option<(usize, usize)>)
    requires
        st <= i <= t.len(),
    ensures
        match q_value(t@.subrange(st as int, i as int)) {
            Some(q) => r matches Some((a, b)) && st <= a <= b <= i && t@.subrange(a as int, b as int) == q,
            None => r is None,
        },
{
    let (a, b) = trim_bounds(t, st, i);
    let ghost p = t@.subrange(a as int, b as int);
    if b - a >= 2 && ascii_lower_char(t[a]) == 'q' && t[a + 1] == '=' {
        assert(p[0] == t@[a as int] && p[1] == t@[a + 1]);
        assert(p.subrange(2, p.len() as int) =~= t@.subrange(a + 2, b as int));
        Some((a + 2, b))
    } else {
        proof {
            if b - a >= 2 {
                assert(p[0] == t@[a as int] && p[1] == t@[a + 1]);
            }
        }
        None
    }
}

/// The quality values of the `;`-separated parameters in `s[lo..hi]`.
fn params_q_values(s: &Vec<char>, text: &str, lo: usize, hi: usize) -> (r: Vec<String>)
    requires
        s@ == text@,
        lo <= hi <= s.len(),
    ensures
        strings_view(r@) == q_values(split(s@.subrange(lo as int, hi as int), ';')),
{
    let ghost t = s@.subrange(lo as int, hi as int);
    let n = hi - lo;
    let mut out: Vec<String> = Vec::new();
    let mut st: usize = 0;
    let mut i: usize = 0;
    let ghost mut done: Seq<Seq<char>> = Seq::empty();
    while i < n
        invariant
            lo <= hi <= s@.len(),
            n == hi - lo,
            t == s@.subrange(lo as int, hi as int),
            s@ == text@,
            st <= i <= n,
            st == 0 || t[st - 1] == ';',
            forall|j: int| st <= j < i ==> t[j] != ';',
            done == (if st == 0 {
                Seq::<Seq<char>>::empty()
            } else {
                split(t.subrange(0, st - 1), ';')
            }),
            strings_view(out@) == q_values(done),
        decreases n - i,
    {
        if s[lo + i] == ';' {
            assert(t[i as int] == s@[lo + i]);
            proof {
                lemma_split_piece(t, ';', st as int, i as int);
            }
            let ghost d = done.push(t.subrange(st as int, i as int));
            assert(d.drop_last() =~= done);
            assert(t.subrange(st as int, i as int) =~= s@.subrange(lo + st, lo + i));
            match q_range(s, lo + st, lo + i) {
                Some((a, b)) => {
                    out.push(text.substring_char(a, b).to_owned());
                    assert(strings_view(out@) =~= q_values(done).push(s@.subrange(a as int, b as int)));
                },
                None => {},
            }
            proof {
                done = d;
            }
            st = i + 1;
        } else {
            assert(t[i as int] == s@[lo + i]);
        }
        i = i + 1;
    }
    proof {
        lemma_split_piece(t, ';', st as int, n as int);
        assert(t.subrange(0, n as int) =~= t);
    }
    let ghost d = done.push(t.subrange(st as int, n as int));
    assert(d.drop_last() =~= done);
    assert(t.subrange(st as int, n as int) =~= s@.subrange(lo + st, hi as int));
    match q_range(s, lo + st, hi) {
        Some((a, b)) => {
            out.push(text.substring_char(a, b).to_owned());
            assert(strings_view(out@) =~= q_values(done).push(s@.subrange(a as int, b as int)));
        },
        None => {},
    }
    out
}

/// The offer `s[st..i]`, when it names gzip or `*`.
fn offer_at(s: &Vec<char>, text: &str, st: usize, i: usize, gz: &Vec<char>, star: &Vec<char>) -> (r:
    Option<Vec<String>>)
    requires
        s@ == text@,
        st <= i <= s.len(),
        gz@ == "gzip"@,
        star@ == "*"@,
    ensures
        match gzip_offer(s@.subrange(st as int, i as int)) {
            Some(qs) => r matches Some(v) && strings_view(v@) == qs,
            None => r is None,
        },
{
    let ghost tok = s@.subrange(st as int, i as int);
    let f = piece_end(s, st, i, ';');
    let (a, b) = trim_bounds(s, st, f);
    if !(range_eq_lower(s, a, b, gz) || range_eq_lower(s, a, b, star)) {
        return None;
    }
    if f == i {
        assert(strings_view(Seq::<String>::empty()) =~= Seq::<Seq<char>>::empty());
        return Some(Vec::new());
    }
    assert(tok.subrange(f - st + 1, tok.len() as int) =~= s@.subrange(f + 1, i as int));
    Some(params_q_values(s, text, f + 1, i))
}

/// The quality values of every gzip (or `*`) offer in an `Accept-Encoding` value,
/// one list per offer, in order. Whether gzip is accepted is then whether some offer
/// has no quality value that reads as zero.
pub fn gzip_offer_qvalues(accept_encoding: &str) -> (r: Vec<Vec<String>>)
    ensures
        offers_view(r@) == gzip_offers(split(accept_encoding@, ',')),
{
    let s = chars_of(accept_encoding);
    let gz = chars_of("gzip");
    let star = chars_of("*");
    let n = s.len();
    let mut out: Vec<Vec<String>> = Vec::new();
    let mut st: usize = 0;
    let mut i: usize = 0;
    let ghost mut done: Seq<Seq<char>> = Seq::empty();
    while i < n
        invariant
            s@ == accept_encoding@,
            n == s@.len(),
            gz@ == "gzip"@,
            star@ == "*"@,
            st <= i <= n,
            st == 0 || s@[st - 1] == ',',
            forall|j: int| st <= j < i ==> s@[j] != ',',
            done == (if st == 0 {
                Seq::<Seq<char>>::empty()
            } else {
                split(s@.subrange(0, st - 1), ',')
            }),
            offers_view(out@) == gzip_offers(done),
        decreases n - i,
    {
        if s[i] == ',' {
            proof {
                lemma_split_piece(s@, ',', st as int, i as int);
            }
            let ghost d = done.push(s@.subrange(st as int, i as int));
            assert(d.drop_last() =~= done);
            match offer_at(&s, accept_encoding, st, i, &gz, &star) {
                Some(v) => {
                    let ghost vv = strings_view(v@);
                    out.push(v);
                    assert(offers_view(out@) =~= gzip_offers(done).push(vv));
                },
                None => {},
            }
            proof {
                done = d;
            }
            st = i + 1;
        }
        i = i + 1;
    }
    proof {
        lemma_split_piece(s@, ',', st as int, n as int);
        assert(s@.subrange(0, n as int) =~= s@);
    }
    let ghost d = done.push(s@.subrange(st as int, n as int));
    assert(d.drop_last() =~= done);
    match offer_at(&s, accept_encoding, st, n, &gz, &star) {
        Some(v) => {
            let ghost vv = strings_view(v@);
            out.push(v);
            assert(offers_view(out@) =~= gzip_offers(done).push(vv));
        },
        None => {},
    }
    out
}

/// Whether a buffered response may be gzipped before its body is read: compression is
/// enabled for the listener, the client accepts gzip, the reply declares no
/// `content-encoding` of its own, and its type is compressible.
pub open spec fn gzip_eligible_spec(
    enabled: bool,
    accepts: bool,
    has_content_encoding: bool,
    content_type: Option<Seq<char>>,
) -> bool {
    enabled && accepts && !has_content_encoding && (content_type matches Some(ct)
        && compressible_media(media_type(ct)))
}

/// Whether a buffered response may be gzipped (checked before its body is collected).
pub fn gzip_eligible(
    enabled: bool,
    accepts: bool,
    has_content_encoding: bool,
    content_type: Option<&str>,
) -> (r: bool)
    ensures
        r == gzip_eligible_spec(
            enabled,
            accepts,
            has_content_encoding,
            match content_type {
                Some(ct) => Some(ct@),
                None => None,
            },
        ),
{
    enabled && accepts && !has_content_encoding && is_compressible(content_type)
}

/// gzip `data` in one shot (a buffered response body): the gzip member of `data`, or the
/// encoder's error when it refuses the input.
pub fn gzip(data: &[u8]) -> (r: Result<Vec<u8>, std::io::Error>)
    ensures
        r matches Ok(v) ==> gzip_of(data@) == Some(v@),
        r is Err <==> gzip_of(data@) is None,
        r matches Ok(v) ==> gzip_member_of(v@, data@),
{
    gzip_all(data)
}

/// The body an eligible response is sent with: gzipped when it is at least
/// `MIN_GZIP_SIZE` bytes, otherwise `None` (sent unchanged). A compressor failure
/// also leaves the body unchanged.
pub fn compressed_body(data: &[u8]) -> (r: Option<Vec<u8>>)
    ensures
        data@.len() < MIN_GZIP_SIZE ==> r is None,
        data@.len() >= MIN_GZIP_SIZE ==> (match r {
            Some(v) => gzip_of(data@) == Some(v@) && gzip_member_of(v@, data@),
            None => gzip_of(data@) is None,
        }),
{
    if data.len() < MIN_GZIP_SIZE {
        return None;
    }
    match gzip(data) {
        Ok(v) => Some(v),
        Err(_) => None,
    }
}

// ── Gzipping a buffered reply ────────────────────────────────────────────────

/// Whether a header value's bytes are all visible ASCII or tab (`HeaderValue::to_str`).
pub open spec fn visible_ascii(v: Seq<u8>) -> bool {
    forall|i: int| 0 <= i < v.len() ==> (32 <= #[trigger] v[i] < 127 || v[i] == 9)
}

/// A header value as text, when it is visible ASCII (`HeaderValue::to_str`).
pub open spec fn header_text(v: Seq<u8>) -> Option<Seq<char>> {
    if visible_ascii(v) && valid_utf8(v) {
        Some(decode_utf8(v))
    } else {
        None
    }
}

/// A reply's `content-type`, as text, when it has a readable one.
pub open spec fn reply_content_type(headers: Seq<(Seq<char>, Seq<u8>)>) -> Option<Seq<char>> {
    match first_named(headers, "content-type"@) {
        Some(v) => header_text(v),
        None => None,
    }
}

/// Whether a buffered reply is gzipped: it is eligible (compression on, gzip accepted,
/// no `content-encoding` of its own, a compressible type), its body is at least
/// `MIN_GZIP_SIZE` bytes, and the encoder accepts it.
pub open spec fn gzip_applies(
    enabled: bool,
    accepts: bool,
    headers: Seq<(Seq<char>, Seq<u8>)>,
    body: Seq<u8>,
) -> bool {
    &&& gzip_eligible_spec(
        enabled,
        accepts,
        first_named(headers, "content-encoding"@) is Some,
        reply_content_type(headers),
    )
    &&& body.len() >= MIN_GZIP_SIZE
    &&& gzip_of(body) is Some
}

/// The headers of a gzipped reply: its length header dropped (the length changed),
/// then `content-encoding: gzip` and `vary: accept-encoding` added.
pub open spec fn gzipped_headers(headers: Seq<(Seq<char>, Seq<u8>)>) -> Seq<(Seq<char>, Seq<u8>)> {
    without_name(headers, "content-length"@).push(("content-encoding"@, seq![103u8, 122u8, 105u8, 112u8]))
        .push(
        (
            "vary"@,
            seq![97u8, 99u8, 99u8, 101u8, 112u8, 116u8, 45u8, 101u8, 110u8, 99u8, 111u8, 100u8, 105u8, 110u8, 103u8],
        ),
    )
}

/// A header value as text, when it is visible ASCII.
pub fn header_str(v: &[u8]) -> (r: Option<&str>)
    ensures
        match r {
            Some(t) => header_text(v@) == Some(t@),
            None => header_text(v@) is None,
        },
{
    let mut i: usize = 0;
    while i < v.len()
        invariant
            i <= v@.len(),
            forall|j: int| 0 <= j < i ==> (32 <= #[trigger] v@[j] < 127 || v@[j] == 9),
        decreases v@.len() - i,
    {
        let b = v[i];
        if !((32 <= b && b < 127) || b == 9) {
            return None;
        }
        i = i + 1;
    }
    str_from_utf8(v)
}

/// The reply a listener sends for a buffered reply `(headers, body)`: when
/// `gzip_applies`, the body gzipped (a gzip member of the handler's bytes) under the
/// gzipped headers; otherwise the headers and body exactly as given.
pub fn gzip_reply(
    enabled: bool,
    accepts: bool,
    headers: Vec<(String, Vec<u8>)>,
    body: Vec<u8>,
) -> (r: (Vec<(String, Vec<u8>)>, Vec<u8>))
    ensures
        gzip_applies(enabled, accepts, byte_pairs_view(headers@), body@) ==> {
            &&& byte_pairs_view(r.0@) == gzipped_headers(byte_pairs_view(headers@))
            &&& gzip_of(body@) == Some(r.1@)
            &&& gzip_member_of(r.1@, body@)
        },
        !gzip_applies(enabled, accepts, byte_pairs_view(headers@), body@) ==> byte_pairs_view(
            r.0@,
        ) == byte_pairs_view(headers@) && r.1@ == body@,
{
    let has_encoding = position_named(&headers, "content-encoding").is_some();
    let eligible = match position_named(&headers, "content-type") {
        Some(i) => gzip_eligible(enabled, accepts, has_encoding, header_str(headers[i].1.as_slice())),
        None => gzip_eligible(enabled, accepts, has_encoding, None),
    };
    if !eligible || body.len() < MIN_GZIP_SIZE {
        return (headers, body);
    }
    match gzip(body.as_slice()) {
        Err(_) => (headers, body),
        Ok(z) => {
            let mut out = drop_named(&headers, "content-length");
            let ghost kept = byte_pairs_view(out@);
            out.push((String::from_str("content-encoding"), vec![103u8, 122u8, 105u8, 112u8]));
            out.push(
                (
                    String::from_str("vary"),
                    vec![97u8, 99u8, 99u8, 101u8, 112u8, 116u8, 45u8, 101u8, 110u8, 99u8, 111u8, 100u8, 105u8, 110u8, 103u8],
                ),
            );
            assert(byte_pairs_view(out@) =~= gzipped_headers(byte_pairs_view(headers@)));
            (out, z)
        },
    }
}

/// Law: every type the compression policy documents is compressible — JSON,
/// JavaScript, XML, XHTML and SVG, every `text/*` type, and every `+json` or `+xml`
/// structured-syntax suffix — while binary types such as `image/png` and
/// `application/octet-stream` are not.
pub proof fn law_documented_types_are_compressible(t: Seq<char>)
    ensures
        compressible_media("application/json"@),
        compressible_media("application/javascript"@),
        compressible_media("application/xml"@),
        compressible_media("application/xhtml+xml"@),
        compressible_media("image/svg+xml"@),
        compressible_media("text/html"@),
        compressible_media("text/plain"@),
        compressible_media("text/event-stream"@),
        compressible_media("application/ld+json"@),
        compressible_media("application/atom+xml"@),
        starts_with(t, "text/"@) ==> compressible_media(t),
        ends_with(t, "+json"@) ==> compressible_media(t),
        ends_with(t, "+xml"@) ==> compressible_media(t),
        !compressible_media("image/png"@),
        !compressible_media("application/octet-stream"@),
{
    reveal_strlit("text/");
    reveal_strlit("+json");
    reveal_strlit("+xml");
    reveal_strlit("text/html");
    reveal_strlit("text/plain");
    reveal_strlit("text/event-stream");
    reveal_strlit("application/ld+json");
    reveal_strlit("application/atom+xml");
    reveal_strlit("application/json");
    reveal_strlit("application/javascript");
    reveal_strlit("application/xml");
    reveal_strlit("application/xhtml+xml");
    reveal_strlit("image/svg+xml");
    reveal_strlit("image/png");
    reveal_strlit("application/octet-stream");
    assert("text/html"@.subrange(0, 5) =~= "text/"@);
    assert("text/plain"@.subrange(0, 5) =~= "text/"@);
    assert("text/event-stream"@.subrange(0, 5) =~= "text/"@);
    assert("application/ld+json"@.subrange(14, 19) =~= "+json"@);
    assert("application/atom+xml"@.subrange(16, 20) =~= "+xml"@);
    assert("image/png"@.subrange(0, 5) != "text/"@) by {
        assert("image/png"@.subrange(0, 5)[0] != "text/"@[0]);
    }
    assert("image/png"@.subrange(5, 9) != "+xml"@) by {
        assert("image/png"@.subrange(5, 9)[0] != "+xml"@[0]);
    }
    assert("image/png"@.subrange(4, 9) != "+json"@) by {
        assert("image/png"@.subrange(4, 9)[0] != "+json"@[0]);
    }
    assert("application/octet-stream"@.subrange(0, 5) != "text/"@) by {
        assert("application/octet-stream"@.subrange(0, 5)[0] != "text/"@[0]);
    }
    assert("application/octet-stream"@.subrange(20, 24) != "+xml"@) by {
        assert("application/octet-stream"@.subrange(20, 24)[0] != "+xml"@[0]);
    }
    assert("application/octet-stream"@.subrange(19, 24) != "+json"@) by {
        assert("application/octet-stream"@.subrange(19, 24)[0] != "+json"@[0]);
    }
    assert("image/png"@ != "application/json"@);
    assert("image/png"@ != "application/javascript"@);
    assert("image/png"@ != "application/xml"@);
    assert("image/png"@ != "application/xhtml+xml"@);
    assert("image/png"@ != "image/svg+xml"@);
    assert("application/octet-stream"@ != "application/json"@);
    assert("application/octet-stream"@ != "application/javascript"@);
    assert("application/octet-stream"@ != "application/xml"@);
    assert("application/octet-stream"@ != "application/xhtml+xml"@);
    assert("application/octet-stream"@ != "image/svg+xml"@);
}

/// Law: a `content-type` already in normal form — no parameters, no surrounding
/// whitespace, no upper case — is its own media type, so such a value is compressible
/// exactly when its type is (for instance `application/javascript`).
pub proof fn law_normal_content_type_is_its_media_type(t: Seq<char>)
    requires
        forall|j: int| 0 <= j < t.len() ==> t[j] != ';' && !is_ws(#[trigger] t[j]) && !('A' <= t[j]
            && t[j] <= 'Z'),
    ensures
        media_type(t) == t,
{
    lemma_split_piece(t, ';', 0, t.len() as int);
    assert(t.subrange(0, t.len() as int) =~= t);
    assert(first_piece(t, ';') == t);
    if t.len() > 0 {
        assert(!is_ws(t[0]));
        assert(!is_ws(t.last()));
    }
    assert(lead_ws(t) == 0);
    assert(trim_start(t) =~= t);
    assert(trail_ws(t) == 0);
    assert(trim_end(t) =~= t);
    assert(lower(t) =~= t);
}

} // verus!
