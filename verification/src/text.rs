//! Sequence and text helpers shared by the header, query and framing parsers:
//! separator splitting, Unicode whitespace trimming and ASCII case folding, each
//! stated over `Seq` so the parsers' contracts can speak of them directly.

use vstd::prelude::*;
use vstd::string::*;

verus! {

/// Index of the last occurrence of `x` in `s`, or -1 when `x` does not occur.
pub open spec fn last_index<T>(s: Seq<T>, x: T) -> int
    decreases s.len(),
{
    if s.len() == 0 {
        -1
    } else if s.last() == x {
        s.len() - 1
    } else {
        last_index(s.drop_last(), x)
    }
}

/// `last_index` is in range, hits `x`, and nothing after it is `x`.
pub proof fn lemma_last_index<T>(s: Seq<T>, x: T)
    ensures
        -1 <= last_index(s, x) < s.len(),
        last_index(s, x) >= 0 ==> s[last_index(s, x)] == x,
        forall|j: int| last_index(s, x) < j < s.len() ==> s[j] != x,
    decreases s.len(),
{
    if s.len() > 0 && s.last() != x {
        lemma_last_index(s.drop_last(), x);
        assert forall|j: int| last_index(s, x) < j < s.len() implies s[j] != x by {
            if j < s.len() - 1 {
                assert(s.drop_last()[j] == s[j]);
            }
        }
    }
}

/// `s` cut at every `sep` — the pieces `str::split` / `slice::split` yield, in order.
/// There is always at least one piece; adjacent separators yield empty pieces.
pub open spec fn split<T>(s: Seq<T>, sep: T) -> Seq<Seq<T>>
    decreases s.len(),
{
    let k = last_index(s, sep);
    if k < 0 {
        seq![s]
    } else {
        proof {
            lemma_last_index(s, sep);
        }
        split(s.subrange(0, k), sep).push(s.subrange(k + 1, s.len() as int))
    }
}

/// The piece before the first `sep` (all of `s` when there is none): `split(..).next()`.
pub open spec fn first_piece<T>(s: Seq<T>, sep: T) -> Seq<T> {
    split(s, sep)[0]
}

/// Splitting a prefix that ends inside a separator-free run starting at `st`: the
/// pieces of the prefix are the pieces before `st` plus the run itself.
pub proof fn lemma_split_piece<T>(s: Seq<T>, sep: T, st: int, i: int)
    requires
        0 <= st <= i <= s.len(),
        st == 0 || s[st - 1] == sep,
        forall|j: int| st <= j < i ==> s[j] != sep,
    ensures
        split(s.subrange(0, i), sep) == (if st == 0 {
            Seq::<Seq<T>>::empty()
        } else {
            split(s.subrange(0, st - 1), sep)
        }).push(s.subrange(st, i)),
{
    let t = s.subrange(0, i);
    lemma_last_index(t, sep);
    let k = last_index(t, sep);
    if st == 0 {
        if k >= 0 {
            assert(t[k] == s[k]);
        }
        assert(k < 0);
        assert(t == s.subrange(st, i));
        assert(split(t, sep) == seq![t]);
        assert(Seq::<Seq<T>>::empty().push(t) =~= seq![t]);
    } else {
        assert(t[st - 1] == s[st - 1]);
        if k < st - 1 {
            assert(t[st - 1] != sep);
        }
        if k > st - 1 {
            assert(t[k] == s[k]);
        }
        assert(k == st - 1);
        assert(t.subrange(0, k) =~= s.subrange(0, st - 1));
        assert(t.subrange(k + 1, t.len() as int) =~= s.subrange(st, i));
    }
}

/// Every piece of a split is free of the separator.
pub proof fn lemma_split_pieces_sep_free<T>(s: Seq<T>, sep: T)
    ensures
        split(s, sep).len() >= 1,
        forall|p: int, j: int|
            0 <= p < split(s, sep).len() && 0 <= j < split(s, sep)[p].len() ==> split(
                s,
                sep,
            )[p][j] != sep,
    decreases s.len(),
{
    lemma_last_index(s, sep);
    let k = last_index(s, sep);
    if k >= 0 {
        lemma_split_pieces_sep_free(s.subrange(0, k), sep);
        let prev = split(s.subrange(0, k), sep);
        let last = s.subrange(k + 1, s.len() as int);
        assert forall|p: int, j: int|
            0 <= p < split(s, sep).len() && 0 <= j < split(s, sep)[p].len() implies split(
            s,
            sep,
        )[p][j] != sep by {
            if p < prev.len() {
                assert(split(s, sep)[p] == prev[p]);
            } else {
                assert(split(s, sep)[p] == last);
                assert(last[j] == s[k + 1 + j]);
            }
        }
    }
}

/// The first piece of a split ends at the first separator (or the end).
pub proof fn lemma_first_piece<T>(s: Seq<T>, sep: T, i: int)
    requires
        0 <= i <= s.len(),
        i == s.len() || s[i] == sep,
        forall|j: int| 0 <= j < i ==> s[j] != sep,
    ensures
        first_piece(s, sep) == s.subrange(0, i),
    decreases s.len(),
{
    lemma_last_index(s, sep);
    let k = last_index(s, sep);
    if k < 0 {
        if i < s.len() {
            assert(s[i] == sep);
        }
        assert(s.subrange(0, i) =~= s);
    } else {
        assert(k >= i) by {
            if k < i {
                assert(s[k] != sep);
            }
        }
        let t = s.subrange(0, k);
        assert forall|j: int| 0 <= j < i implies t[j] != sep by {
            assert(t[j] == s[j]);
        }
        if i < k {
            assert(t[i] == s[i]);
        }
        lemma_first_piece(t, sep, i);
        lemma_split_pieces_sep_free(t, sep);
        assert(t.subrange(0, i) =~= s.subrange(0, i));
    }
}

/// `char::is_whitespace`: the Unicode `White_Space` property.
pub open spec fn is_ws(c: char) -> bool {
    let u = c as u32;
    (0x9 <= u && u <= 0xd) || u == 0x20 || u == 0x85 || u == 0xa0 || u == 0x1680 || (0x2000 <= u
        && u <= 0x200a) || u == 0x2028 || u == 0x2029 || u == 0x202f || u == 0x205f || u == 0x3000
}

/// `char::is_whitespace`.
pub fn is_ws_char(c: char) -> (r: bool)
    ensures
        r == is_ws(c),
{
    let u = c as u32;
    (0x9 <= u && u <= 0xd) || u == 0x20 || u == 0x85 || u == 0xa0 || u == 0x1680 || (0x2000 <= u
        && u <= 0x200a) || u == 0x2028 || u == 0x2029 || u == 0x202f || u == 0x205f || u == 0x3000
}

/// Number of leading whitespace characters.
pub open spec fn lead_ws(s: Seq<char>) -> int
    decreases s.len(),
{
    if s.len() > 0 && is_ws(s[0]) {
        1 + lead_ws(s.drop_first())
    } else {
        0
    }
}

/// Number of trailing whitespace characters.
pub open spec fn trail_ws(s: Seq<char>) -> int
    decreases s.len(),
{
    if s.len() > 0 && is_ws(s.last()) {
        1 + trail_ws(s.drop_last())
    } else {
        0
    }
}

/// `str::trim_start`.
pub open spec fn trim_start(s: Seq<char>) -> Seq<char> {
    s.subrange(lead_ws(s), s.len() as int)
}

/// `str::trim_end`.
pub open spec fn trim_end(s: Seq<char>) -> Seq<char> {
    s.subrange(0, s.len() - trail_ws(s))
}

/// `str::trim`: leading and trailing Unicode whitespace removed.
pub open spec fn trim(s: Seq<char>) -> Seq<char> {
    trim_end(trim_start(s))
}

proof fn lemma_lead_ws_bound(s: Seq<char>)
    ensures
        0 <= lead_ws(s) <= s.len(),
    decreases s.len(),
{
    if s.len() > 0 && is_ws(s[0]) {
        lemma_lead_ws_bound(s.drop_first());
    }
}

proof fn lemma_trail_ws_bound(s: Seq<char>)
    ensures
        0 <= trail_ws(s) <= s.len(),
    decreases s.len(),
{
    if s.len() > 0 && is_ws(s.last()) {
        lemma_trail_ws_bound(s.drop_last());
    }
}

/// The bounds of `trim` of `s[lo..hi]`, as indices into `s`.
pub fn trim_bounds(s: &Vec<char>, lo: usize, hi: usize) -> (r: (usize, usize))
    requires
        lo <= hi <= s.len(),
    ensures
        lo <= r.0 <= r.1 <= hi,
        s@.subrange(r.0 as int, r.1 as int) == trim(s@.subrange(lo as int, hi as int)),
{
    let ghost whole = s@.subrange(lo as int, hi as int);
    let mut a = lo;
    while a < hi && is_ws_char(s[a])
        invariant
            lo <= a <= hi <= s.len(),
            whole == s@.subrange(lo as int, hi as int),
            lead_ws(whole) == (a - lo) + lead_ws(s@.subrange(a as int, hi as int)),
        decreases hi - a,
    {
        let ghost rest = s@.subrange(a as int, hi as int);
        assert(rest[0] == s@[a as int]);
        assert(rest.drop_first() =~= s@.subrange(a + 1, hi as int));
        a = a + 1;
    }
    proof {
        let rest = s@.subrange(a as int, hi as int);
        if a < hi {
            assert(rest[0] == s@[a as int]);
        }
        assert(lead_ws(rest) == 0);
        lemma_lead_ws_bound(whole);
        assert(trim_start(whole) =~= s@.subrange(a as int, hi as int));
    }
    let ghost ts = s@.subrange(a as int, hi as int);
    let mut b = hi;
    while b > a && is_ws_char(s[b - 1])
        invariant
            lo <= a <= b <= hi <= s.len(),
            ts == s@.subrange(a as int, hi as int),
            trail_ws(ts) == (hi - b) + trail_ws(s@.subrange(a as int, b as int)),
        decreases b - a,
    {
        let ghost rest = s@.subrange(a as int, b as int);
        assert(rest.last() == s@[b - 1]);
        assert(rest.drop_last() =~= s@.subrange(a as int, b - 1));
        b = b - 1;
    }
    proof {
        let rest = s@.subrange(a as int, b as int);
        if b > a {
            assert(rest.last() == s@[b - 1]);
        }
        assert(trail_ws(rest) == 0);
        lemma_trail_ws_bound(ts);
        assert(trim_end(ts) =~= s@.subrange(a as int, b as int));
    }
    (a, b)
}

/// ASCII lowercase of one character (`char::to_ascii_lowercase`).
pub open spec fn ascii_lower(c: char) -> char {
    if 'A' <= c && c <= 'Z' {
        ((c as u32) + 32) as char
    } else {
        c
    }
}

/// ASCII lowercase of a character sequence (`str::to_ascii_lowercase`).
pub open spec fn lower(s: Seq<char>) -> Seq<char> {
    s.map_values(|c: char| ascii_lower(c))
}

/// `char::to_ascii_lowercase`.
pub fn ascii_lower_char(c: char) -> (r: char)
    ensures
        r == ascii_lower(c),
{
    if 'A' <= c && c <= 'Z' {
        let b = (c as u8) + 32;
        b as char
    } else {
        c
    }
}

/// The characters of `s`, in order.
pub fn chars_of(s: &str) -> (v: Vec<char>)
    ensures
        v@ == s@,
{
    let n = s.unicode_len();
    let mut v: Vec<char> = Vec::with_capacity(n);
    let mut i: usize = 0;
    while i < n
        invariant
            n == s@.len(),
            i <= n,
            v@ == s@.subrange(0, i as int),
        decreases n - i,
    {
        v.push(s.get_char(i));
        i = i + 1;
        assert(v@ =~= s@.subrange(0, i as int));
    }
    assert(s@.subrange(0, n as int) =~= s@);
    v
}

/// Whether `s[lo..hi]` equals `pat` exactly.
pub fn range_eq(s: &Vec<char>, lo: usize, hi: usize, pat: &Vec<char>) -> (r: bool)
    requires
        lo <= hi <= s.len(),
    ensures
        r == (s@.subrange(lo as int, hi as int) == pat@),
{
    if hi - lo != pat.len() {
        return false;
    }
    let mut i: usize = 0;
    while i < pat.len()
        invariant
            lo <= hi <= s.len(),
            hi - lo == pat.len(),
            i <= pat.len(),
            forall|j: int| 0 <= j < i ==> s@[lo + j] == pat@[j],
        decreases pat.len() - i,
    {
        if s[lo + i] != pat[i] {
            assert(s@.subrange(lo as int, hi as int)[i as int] != pat@[i as int]);
            return false;
        }
        i = i + 1;
    }
    assert(s@.subrange(lo as int, hi as int) =~= pat@);
    true
}

/// Whether `s[lo..hi]` equals `pat` ignoring ASCII case (`str::eq_ignore_ascii_case`).
pub fn range_eq_ignore_case(s: &Vec<char>, lo: usize, hi: usize, pat: &Vec<char>) -> (r: bool)
    requires
        lo <= hi <= s.len(),
    ensures
        r == (lower(s@.subrange(lo as int, hi as int)) == lower(pat@)),
{
    if hi - lo != pat.len() {
        assert(lower(s@.subrange(lo as int, hi as int)).len() != lower(pat@).len());
        return false;
    }
    let mut i: usize = 0;
    while i < pat.len()
        invariant
            lo <= hi <= s.len(),
            hi - lo == pat.len(),
            i <= pat.len(),
            forall|j: int| 0 <= j < i ==> ascii_lower(s@[lo + j]) == ascii_lower(pat@[j]),
        decreases pat.len() - i,
    {
        if ascii_lower_char(s[lo + i]) != ascii_lower_char(pat[i]) {
            assert(lower(s@.subrange(lo as int, hi as int))[i as int] != lower(pat@)[i as int]);
            return false;
        }
        i = i + 1;
    }
    assert(lower(s@.subrange(lo as int, hi as int)) =~= lower(pat@));
    true
}

/// A list of `(name, value)` string pairs, as character sequences.
pub open spec fn pairs_view(ps: Seq<(String, String)>) -> Seq<(Seq<char>, Seq<char>)> {
    ps.map_values(|p: (String, String)| (p.0@, p.1@))
}

/// Whether a pair's name matches `name` — exactly, or ignoring ASCII case.
pub open spec fn key_matches(k: Seq<char>, name: Seq<char>, ignore_case: bool) -> bool {
    if ignore_case {
        lower(k) == lower(name)
    } else {
        k == name
    }
}

/// The index of the first pair at or after `i` whose name matches `name`.
pub open spec fn find_key_from(
    ps: Seq<(Seq<char>, Seq<char>)>,
    name: Seq<char>,
    ignore_case: bool,
    i: int,
) -> Option<int>
    decreases ps.len() - i,
{
    if i < 0 || i >= ps.len() {
        None
    } else if key_matches(ps[i].0, name, ignore_case) {
        Some(i)
    } else {
        find_key_from(ps, name, ignore_case, i + 1)
    }
}

/// The value of the first pair whose name matches `name`, if any.
pub open spec fn lookup(ps: Seq<(Seq<char>, Seq<char>)>, name: Seq<char>, ignore_case: bool) -> Option<
    Seq<char>,
> {
    match find_key_from(ps, name, ignore_case, 0) {
        Some(i) => Some(ps[i].1),
        None => None,
    }
}

proof fn lemma_find_key_from_range(
    ps: Seq<(Seq<char>, Seq<char>)>,
    name: Seq<char>,
    ignore_case: bool,
    i: int,
)
    ensures
        find_key_from(ps, name, ignore_case, i) matches Some(j) ==> 0 <= i <= j < ps.len()
            && key_matches(ps[j].0, name, ignore_case),
    decreases ps.len() - i,
{
    if 0 <= i < ps.len() && !key_matches(ps[i].0, name, ignore_case) {
        lemma_find_key_from_range(ps, name, ignore_case, i + 1);
    }
}

/// The index of the first pair whose name matches `name`.
pub fn find_key(pairs: &Vec<(String, String)>, name: &str, ignore_case: bool) -> (r: Option<usize>)
    ensures
        r matches Some(j) ==> j < pairs.len() && find_key_from(pairs_view(pairs@), name@, ignore_case, 0)
            == Some(j as int),
        r is None ==> find_key_from(pairs_view(pairs@), name@, ignore_case, 0) is None,
{
    let ghost ps = pairs_view(pairs@);
    let target = chars_of(name);
    let mut i: usize = 0;
    while i < pairs.len()
        invariant
            i <= pairs.len(),
            ps == pairs_view(pairs@),
            target@ == name@,
            find_key_from(ps, name@, ignore_case, 0) == find_key_from(ps, name@, ignore_case, i as int),
        decreases pairs.len() - i,
    {
        let k = chars_of(pairs[i].0.as_str());
        assert(ps[i as int].0 == pairs@[i as int].0@);
        let hit = if ignore_case {
            range_eq_ignore_case(&k, 0, k.len(), &target)
        } else {
            range_eq(&k, 0, k.len(), &target)
        };
        assert(k@.subrange(0, k.len() as int) =~= k@);
        if hit {
            assert(key_matches(ps[i as int].0, name@, ignore_case));
            return Some(i);
        }
        i = i + 1;
    }
    None
}

/// Whether `s[lo..hi]`, ASCII-lowercased, equals `pat`.
pub fn range_eq_lower(s: &Vec<char>, lo: usize, hi: usize, pat: &Vec<char>) -> (r: bool)
    requires
        lo <= hi <= s.len(),
    ensures
        r == (lower(s@.subrange(lo as int, hi as int)) == pat@),
{
    if hi - lo != pat.len() {
        assert(lower(s@.subrange(lo as int, hi as int)).len() != pat@.len());
        return false;
    }
    let mut i: usize = 0;
    while i < pat.len()
        invariant
            lo <= hi <= s.len(),
            hi - lo == pat.len(),
            i <= pat.len(),
            forall|j: int| 0 <= j < i ==> ascii_lower(s@[lo + j]) == pat@[j],
        decreases pat.len() - i,
    {
        if ascii_lower_char(s[lo + i]) != pat[i] {
            assert(lower(s@.subrange(lo as int, hi as int))[i as int] != pat@[i as int]);
            return false;
        }
        i = i + 1;
    }
    assert(lower(s@.subrange(lo as int, hi as int)) =~= pat@);
    true
}

/// Whether `p` is a prefix of `s`.
pub open spec fn starts_with<T>(s: Seq<T>, p: Seq<T>) -> bool {
    p.len() <= s.len() && s.subrange(0, p.len() as int) == p
}

/// Whether `p` is a suffix of `s`.
pub open spec fn ends_with<T>(s: Seq<T>, p: Seq<T>) -> bool {
    p.len() <= s.len() && s.subrange(s.len() - p.len(), s.len() as int) == p
}

/// Lowercasing commutes with taking a sub-range.
pub proof fn lemma_lower_subrange(s: Seq<char>, a: int, b: int)
    requires
        0 <= a <= b <= s.len(),
    ensures
        lower(s).subrange(a, b) == lower(s.subrange(a, b)),
{
    assert(lower(s).subrange(a, b) =~= lower(s.subrange(a, b)));
}

/// The end of the first piece of `s[lo..hi]` cut at `sep`: the first `sep` at or
/// after `lo`, or `hi`.
pub fn piece_end(s: &Vec<char>, lo: usize, hi: usize, sep: char) -> (f: usize)
    requires
        lo <= hi <= s.len(),
    ensures
        lo <= f <= hi,
        first_piece(s@.subrange(lo as int, hi as int), sep) == s@.subrange(lo as int, f as int),
        f < hi ==> s@[f as int] == sep,
        forall|j: int| lo <= j < f ==> s@[j] != sep,
{
    let ghost piece = s@.subrange(lo as int, hi as int);
    let mut f = lo;
    while f < hi && s[f] != sep
        invariant
            lo <= f <= hi <= s@.len(),
            forall|j: int| lo <= j < f ==> s@[j] != sep,
        decreases hi - f,
    {
        f = f + 1;
    }
    proof {
        assert forall|j: int| 0 <= j < f - lo implies piece[j] != sep by {
            assert(piece[j] == s@[lo + j]);
        }
        if f < hi {
            assert(piece[f - lo] == s@[f as int]);
        }
        lemma_first_piece(piece, sep, f - lo);
        assert(piece.subrange(0, f - lo) =~= s@.subrange(lo as int, f as int));
    }
    f
}


/// Whether `c` is an ASCII decimal digit.
pub open spec fn is_digit(c: char) -> bool {
    '0' <= c && c <= '9'
}

/// The value of an ASCII decimal digit.
pub open spec fn digit_value(c: char) -> int {
    c as int - '0' as int
}

/// The value of a run of decimal digits, most significant first (0 for none).
pub open spec fn digits_value(s: Seq<char>) -> int
    decreases s.len(),
{
    if s.len() == 0 {
        0
    } else {
        digits_value(s.drop_last()) * 10 + digit_value(s.last())
    }
}

/// What `str::parse::<u64>` gives: an optional `+`, then one or more decimal digits
/// whose value fits in a `u64`; anything else is `None`.
pub open spec fn parse_u64_spec(s: Seq<char>) -> Option<u64> {
    let d = unsigned_digits(s);
    if d.len() > 0 && all_digits(d) && digits_value(d) <= u64::MAX {
        Some(digits_value(d) as u64)
    } else {
        None
    }
}

/// `s` without one leading `+`, if it has one.
pub open spec fn unsigned_digits(s: Seq<char>) -> Seq<char> {
    if s.len() > 0 && s[0] == '+' {
        s.drop_first()
    } else {
        s
    }
}

/// Whether every character of `s` is a decimal digit.
pub open spec fn all_digits(s: Seq<char>) -> bool {
    forall|i: int| 0 <= i < s.len() ==> is_digit(#[trigger] s[i])
}

/// The value of digits grows with every digit appended.
pub proof fn lemma_digits_monotone(s: Seq<char>, j: int, k: int)
    requires
        0 <= j <= k <= s.len(),
        forall|i: int| 0 <= i < s.len() ==> is_digit(#[trigger] s[i]),
    ensures
        0 <= digits_value(s.subrange(0, j)) <= digits_value(s.subrange(0, k)),
    decreases k,
{
    if k > 0 {
        assert(s.subrange(0, k).drop_last() =~= s.subrange(0, k - 1));
        assert(is_digit(s[k - 1]));
        if j < k {
            lemma_digits_monotone(s, j, k - 1);
        } else {
            lemma_digits_monotone(s, j - 1, k - 1);
        }
    }
}

/// `str::parse::<u64>`, written out: an optional `+` and one or more decimal digits
/// that fit in a `u64`.
pub fn parse_u64(text: &str) -> (r: Option<u64>)
    ensures
        r == parse_u64_spec(text@),
{
    let s = chars_of(text);
    let n = s.len();
    let start: usize = if n > 0 && s[0] == '+' {
        1
    } else {
        0
    };
    let ghost d = unsigned_digits(s@);
    assert(d =~= s@.subrange(start as int, n as int));
    if start == n {
        return None;
    }
    let mut v: u64 = 0;
    let mut i: usize = start;
    while i < n
        invariant
            start <= i <= n,
            n == s@.len(),
            s@ == text@,
            d == s@.subrange(start as int, n as int),
            d == unsigned_digits(text@),
            forall|j: int| start <= j < i ==> is_digit(#[trigger] s@[j]),
            v == digits_value(s@.subrange(start as int, i as int)),
        decreases n - i,
    {
        let c = s[i];
        if !('0' <= c && c <= '9') {
            assert(d[i - start] == s@[i as int]);
            assert(!is_digit(d[i - start]));
            return None;
        }
        let dv = (c as u32 - '0' as u32) as u64;
        assert(s@.subrange(start as int, i + 1).drop_last() =~= s@.subrange(start as int, i as int));
        if v > (u64::MAX - dv) / 10 {
            proof {
                assert(v * 10 + dv > u64::MAX) by (nonlinear_arith)
                    requires
                        v > (u64::MAX - dv) / 10,
                        dv <= 9,
                ;
                if all_digits(d) {
                    lemma_digits_monotone(d, i + 1 - start, d.len() as int);
                    assert(d.subrange(0, i + 1 - start) =~= s@.subrange(start as int, i + 1));
                    assert(d.subrange(0, d.len() as int) =~= d);
                }
            }
            return None;
        }
        assert(v * 10 + dv <= u64::MAX) by (nonlinear_arith)
            requires
                v <= (u64::MAX - dv) / 10,
                dv <= 9,
        ;
        v = v * 10 + dv;
        i = i + 1;
    }
    assert(s@.subrange(start as int, n as int) =~= d);
    Some(v)
}


/// Whether two texts are equal.
pub fn str_eq(a: &str, b: &str) -> (r: bool)
    ensures
        r == (a@ == b@),
{
    let x = chars_of(a);
    let y = chars_of(b);
    if x.len() != y.len() {
        return false;
    }
    let n = x.len();
    assert(y@.subrange(0, n as int) =~= y@);
    range_eq(&y, 0, n, &x)
}

} // verus!
