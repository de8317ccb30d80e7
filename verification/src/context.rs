//! A host-only, per-process claims context — identity and attributes the host attaches
//! to a process (e.g. an `app_id` an auth hook derived from a validated token). Host
//! code writes it; no guest operation reads, writes or forges it.

use vstd::prelude::*;
use vstd::utf8::*;
use vstd::string::*;

verus! {

broadcast use {encode_utf8_valid_utf8, encode_utf8_decode_utf8};

/// Byte-wise lexicographic order, strict: the order of `str`'s `Ord`.
pub open spec fn lex_lt(a: Seq<u8>, b: Seq<u8>) -> bool
    decreases a.len(),
{
    if b.len() == 0 {
        false
    } else if a.len() == 0 {
        true
    } else if a[0] != b[0] {
        a[0] < b[0]
    } else {
        lex_lt(a.drop_first(), b.drop_first())
    }
}

/// `lex_lt` is irreflexive.
pub proof fn lemma_lex_irreflexive(a: Seq<u8>)
    ensures
        !lex_lt(a, a),
    decreases a.len(),
{
    if a.len() > 0 {
        lemma_lex_irreflexive(a.drop_first());
    }
}

/// `lex_lt` is transitive.
pub proof fn lemma_lex_transitive(a: Seq<u8>, b: Seq<u8>, c: Seq<u8>)
    requires
        lex_lt(a, b),
        lex_lt(b, c),
    ensures
        lex_lt(a, c),
    decreases a.len(),
{
    if a.len() > 0 && b.len() > 0 && c.len() > 0 && a[0] == b[0] && b[0] == c[0] {
        lemma_lex_transitive(a.drop_first(), b.drop_first(), c.drop_first());
    }
}

/// `lex_lt` is total on distinct sequences.
pub proof fn lemma_lex_total(a: Seq<u8>, b: Seq<u8>)
    requires
        a != b,
    ensures
        lex_lt(a, b) || lex_lt(b, a),
    decreases a.len(),
{
    if a.len() > 0 && b.len() > 0 && a[0] == b[0] {
        if a.drop_first() == b.drop_first() {
            assert(a =~= seq![a[0]] + a.drop_first());
            assert(b =~= seq![b[0]] + b.drop_first());
        }
        lemma_lex_total(a.drop_first(), b.drop_first());
    } else if a.len() == 0 && b.len() == 0 {
        assert(a =~= b);
    }
}

/// Distinct texts have distinct UTF-8 encodings.
pub proof fn lemma_encode_injective(a: Seq<char>, b: Seq<char>)
    requires
        encode_utf8(a) == encode_utf8(b),
    ensures
        a == b,
{
    assert(decode_utf8(encode_utf8(a)) == a);
    assert(decode_utf8(encode_utf8(b)) == b);
}

/// Whether two byte slices are equal.
pub fn bytes_eq(a: &[u8], b: &[u8]) -> (r: bool)
    ensures
        r == (a@ == b@),
{
    if a.len() != b.len() {
        return false;
    }
    let mut i: usize = 0;
    while i < a.len()
        invariant
            a@.len() == b@.len(),
            i <= a@.len(),
            forall|j: int| 0 <= j < i ==> a@[j] == b@[j],
        decreases a@.len() - i,
    {
        if a[i] != b[i] {
            return false;
        }
        i = i + 1;
    }
    assert(a@ =~= b@);
    true
}

/// Whether `a` sorts strictly before `b`, byte-wise.
pub fn bytes_lt(a: &[u8], b: &[u8]) -> (r: bool)
    ensures
        r == lex_lt(a@, b@),
{
    let mut i: usize = 0;
    assert(a@.subrange(0, a@.len() as int) =~= a@);
    assert(b@.subrange(0, b@.len() as int) =~= b@);
    while i < a.len() && i < b.len() && a[i] == b[i]
        invariant
            i <= a@.len(),
            i <= b@.len(),
            lex_lt(a@, b@) == lex_lt(a@.subrange(i as int, a@.len() as int), b@.subrange(
                i as int,
                b@.len() as int,
            )),
        decreases a@.len() - i,
    {
        let ghost x = a@.subrange(i as int, a@.len() as int);
        let ghost y = b@.subrange(i as int, b@.len() as int);
        assert(x[0] == a@[i as int]);
        assert(y[0] == b@[i as int]);
        assert(x.drop_first() =~= a@.subrange(i + 1, a@.len() as int));
        assert(y.drop_first() =~= b@.subrange(i + 1, b@.len() as int));
        i = i + 1;
    }
    let ghost x = a@.subrange(i as int, a@.len() as int);
    let ghost y = b@.subrange(i as int, b@.len() as int);
    if i == b.len() {
        assert(y.len() == 0);
        false
    } else if i == a.len() {
        true
    } else {
        assert(x[0] == a@[i as int]);
        assert(y[0] == b@[i as int]);
        a[i] < b[i]
    }
}

/// A process's claims context: a small string → string map kept in key order (the
/// byte order of `str`), so iteration is deterministic. Cheap to clone: a child
/// inherits a snapshot of its parent's.
#[derive(Debug)]
pub struct ProcessContext {
    entries: Vec<(String, String)>,
}

impl Clone for ProcessContext {
    /// An independent copy: later changes to either leave the other as it was.
    fn clone(&self) -> (c: Self)
        ensures
            c.entries() == self.entries(),
    {
        proof {
            use_type_invariant(self);
        }
        let mut out: Vec<(String, String)> = Vec::new();
        let mut i: usize = 0;
        while i < self.entries.len()
            invariant
                i <= self.entries@.len(),
                out@.len() == i,
                forall|j: int|
                    0 <= j < i ==> (#[trigger] out@[j]).0@ == self.entries@[j].0@ && out@[j].1@
                        == self.entries@[j].1@,
            decreases self.entries@.len() - i,
        {
            let e = &self.entries[i];
            out.push((e.0.clone(), e.1.clone()));
            i = i + 1;
        }
        assert(out@.map_values(|p: (String, String)| (p.0@, p.1@)) =~= self.entries());
        ProcessContext { entries: out }
    }
}

impl Default for ProcessContext {
    fn default() -> (c: Self)
        ensures
            c.claims() == Map::<Seq<char>, Seq<char>>::empty(),
    {
        ProcessContext::new()
    }
}

/// The UTF-8 bytes of a text.
pub open spec fn key_bytes(k: Seq<char>) -> Seq<u8> {
    encode_utf8(k)
}

/// Entries strictly increasing by key.
pub open spec fn sorted_entries(es: Seq<(Seq<char>, Seq<char>)>) -> bool {
    forall|i: int, j: int|
        0 <= i < j < es.len() ==> lex_lt(key_bytes(#[trigger] es[i].0), key_bytes(#[trigger] es[j].0))
}

/// Whether `k` is one of the keys.
pub open spec fn has_key(es: Seq<(Seq<char>, Seq<char>)>, k: Seq<char>) -> bool {
    exists|i: int| 0 <= i < es.len() && #[trigger] es[i].0 == k
}

/// The entries as a map.
pub open spec fn entries_map(es: Seq<(Seq<char>, Seq<char>)>) -> Map<Seq<char>, Seq<char>> {
    Map::new(
        |k: Seq<char>| has_key(es, k),
        |k: Seq<char>| es[key_index(es, k)].1,
    )
}

/// A position that holds key `k`, where there is one.
pub open spec fn key_index(es: Seq<(Seq<char>, Seq<char>)>, k: Seq<char>) -> int {
    choose|i: int| 0 <= i < es.len() && #[trigger] es[i].0 == k
}

/// In sorted entries, the entry holding a key is the only one.
pub proof fn lemma_sorted_unique(es: Seq<(Seq<char>, Seq<char>)>, i: int, j: int)
    requires
        sorted_entries(es),
        0 <= i < es.len(),
        0 <= j < es.len(),
        es[i].0 == es[j].0,
    ensures
        i == j,
{
    if i < j {
        lemma_lex_irreflexive(key_bytes(es[i].0));
    } else if j < i {
        lemma_lex_irreflexive(key_bytes(es[i].0));
    }
}

/// In sorted entries, the map's value for a held key is the value stored with it.
pub proof fn lemma_map_at(es: Seq<(Seq<char>, Seq<char>)>, i: int)
    requires
        sorted_entries(es),
        0 <= i < es.len(),
    ensures
        entries_map(es).contains_key(es[i].0),
        entries_map(es)[es[i].0] == es[i].1,
{
    let k = es[i].0;
    assert(has_key(es, k));
    let c = key_index(es, k);
    assert(0 <= c < es.len() && es[c].0 == k);
    lemma_sorted_unique(es, i, c);
    assert(entries_map(es).dom().contains(k));
    assert(entries_map(es)[k] == es[c].1);
}

impl ProcessContext {
    /// The entries in key order.
    pub closed spec fn entries(&self) -> Seq<(Seq<char>, Seq<char>)> {
        self.entries@.map_values(|p: (String, String)| (p.0@, p.1@))
    }

    /// The claims as a map.
    pub open spec fn claims(&self) -> Map<Seq<char>, Seq<char>> {
        entries_map(self.entries())
    }

    #[verifier::type_invariant]
    closed spec fn inv(&self) -> bool {
        sorted_entries(self.entries())
    }

    /// An empty context — the default for a process with no claims attached.
    pub fn new() -> (c: Self)
        ensures
            c.entries() == Seq::<(Seq<char>, Seq<char>)>::empty(),
            c.claims() == Map::<Seq<char>, Seq<char>>::empty(),
    {
        let c = ProcessContext { entries: Vec::new() };
        assert(c.entries() =~= Seq::<(Seq<char>, Seq<char>)>::empty());
        assert(c.claims() =~= Map::<Seq<char>, Seq<char>>::empty());
        c
    }

    /// The value for `key`, or `None`.
    pub fn get(&self, key: &str) -> (r: Option<&str>)
        ensures
            r matches Some(v) ==> self.claims().contains_key(key@) && self.claims()[key@] == v@,
            r is None ==> !self.claims().contains_key(key@),
    {
        proof {
            use_type_invariant(self);
        }
        let kb = key.as_bytes();
        let mut i: usize = 0;
        while i < self.entries.len()
            invariant
                i <= self.entries@.len(),
                kb@ == key_bytes(key@),
                sorted_entries(self.entries()),
                forall|j: int| 0 <= j < i ==> #[trigger] self.entries()[j].0 != key@,
            decreases self.entries@.len() - i,
        {
            let eb = self.entries[i].0.as_str().as_bytes();
            assert(self.entries()[i as int].0 == self.entries@[i as int].0@);
            if bytes_eq(eb, kb) {
                proof {
                    lemma_encode_injective(self.entries()[i as int].0, key@);
                    lemma_map_at(self.entries(), i as int);
                }
                return Some(self.entries[i].1.as_str());
            }
            proof {
                if self.entries()[i as int].0 == key@ {
                    assert(eb@ == kb@);
                }
            }
            i = i + 1;
        }
        None
    }

    /// Set (or replace) a claim. Host-side only — there is no guest path to this.
    pub fn set(&mut self, key: &str, value: &str)
        ensures
            final(self).claims() == old(self).claims().insert(key@, value@),
    {
        proof {
            use_type_invariant(&*self);
        }
        let ghost es = self.entries();
        let kb = key.as_bytes();
        let mut p: usize = 0;
        while p < self.entries.len() && bytes_lt(self.entries[p].0.as_str().as_bytes(), kb)
            invariant
                p <= self.entries@.len(),
                es == self.entries(),
                kb@ == key_bytes(key@),
                sorted_entries(es),
                forall|j: int| 0 <= j < p ==> lex_lt(key_bytes(#[trigger] es[j].0), kb@),
            decreases self.entries@.len() - p,
        {
            assert(es[p as int].0 == self.entries@[p as int].0@);
            p = p + 1;
        }
        let n = self.entries.len();
        let replace = p < n && bytes_eq(self.entries[p].0.as_str().as_bytes(), kb);
        proof {
            if p < n {
                assert(es[p as int].0 == self.entries@[p as int].0@);
            }
        }
        let entry = (key.to_owned(), value.to_owned());
        let mut entries: Vec<(String, String)> = Vec::new();
        std::mem::swap(&mut entries, &mut self.entries);
        assert(entries@.map_values(|p: (String, String)| (p.0@, p.1@)) == es);
        if replace {
            proof {
                lemma_encode_injective(es[p as int].0, key@);
            }
            entries.set(p, entry);
            proof {
                let ns = entries@.map_values(|p: (String, String)| (p.0@, p.1@));
                assert(ns =~= es.update(p as int, (key@, value@)));
                assert(sorted_entries(ns)) by {
                    assert forall|i: int, j: int| 0 <= i < j < ns.len() implies lex_lt(
                        key_bytes(#[trigger] ns[i].0),
                        key_bytes(#[trigger] ns[j].0),
                    ) by {
                        assert(ns[i].0 == es[i].0);
                        assert(ns[j].0 == es[j].0);
                    }
                }
                lemma_insert_replaces(es, p as int, key@, value@);
            }
            self.entries = entries;
        } else {
            proof {
                if p < n {
                    if es[p as int].0 == key@ {
                        assert(key_bytes(es[p as int].0) == kb@);
                    }
                    lemma_lex_total(key_bytes(es[p as int].0), kb@);
                    if key_bytes(es[p as int].0) == kb@ {
                        lemma_encode_injective(es[p as int].0, key@);
                    }
                }
            }
            entries.insert(p, entry);
            proof {
                let ns = entries@.map_values(|p: (String, String)| (p.0@, p.1@));
                assert(ns =~= es.insert(p as int, (key@, value@)));
                lemma_insert_new(es, p as int, key@, value@);
            }
            self.entries = entries;
        }
    }

    /// Whether any claim is set.
    pub fn is_empty(&self) -> (r: bool)
        ensures
            r == (self.claims() == Map::<Seq<char>, Seq<char>>::empty()),
            r == (self.entries().len() == 0),
    {
        proof {
            use_type_invariant(self);
        }
        let r = self.entries.len() == 0;
        proof {
            if !r {
                lemma_map_at(self.entries(), 0);
                assert(self.claims().contains_key(self.entries()[0].0));
            } else {
                assert(self.claims() =~= Map::<Seq<char>, Seq<char>>::empty());
            }
        }
        r
    }

    /// The claims in key order.
    pub fn iter(&self) -> (r: Vec<(&str, &str)>)
        ensures
            r@.map_values(|p: (&str, &str)| (p.0@, p.1@)) == self.entries(),
            sorted_entries(self.entries()),
            entries_map(self.entries()) == self.claims(),
    {
        proof {
            use_type_invariant(self);
        }
        let mut out: Vec<(&str, &str)> = Vec::new();
        let mut i: usize = 0;
        while i < self.entries.len()
            invariant
                i <= self.entries@.len(),
                out@.len() == i,
                forall|j: int|
                    0 <= j < i ==> (#[trigger] out@[j]).0@ == self.entries@[j].0@ && out@[j].1@
                        == self.entries@[j].1@,
            decreases self.entries@.len() - i,
        {
            let e = &self.entries[i];
            out.push((e.0.as_str(), e.1.as_str()));
            i = i + 1;
        }
        assert(out@.map_values(|p: (&str, &str)| (p.0@, p.1@)) =~= self.entries());
        out
    }

    /// Build a context from claims, in order — a later claim for the same key
    /// replaces an earlier one.
    pub fn from_iter(claims: Vec<(String, String)>) -> (c: Self)
        ensures
            c.claims() == claims_map(claims@.map_values(|p: (String, String)| (p.0@, p.1@))),
    {
        let mut c = ProcessContext::new();
        let ghost view = claims@.map_values(|p: (String, String)| (p.0@, p.1@));
        let mut i: usize = 0;
        while i < claims.len()
            invariant
                i <= claims@.len(),
                view == claims@.map_values(|p: (String, String)| (p.0@, p.1@)),
                c.claims() == claims_map(view.subrange(0, i as int)),
            decreases claims@.len() - i,
        {
            c.set(claims[i].0.as_str(), claims[i].1.as_str());
            proof {
                assert(view.subrange(0, i + 1).drop_last() =~= view.subrange(0, i as int));
            }
            i = i + 1;
        }
        assert(view.subrange(0, claims@.len() as int) =~= view);
        c
    }
}

/// The map a list of claims builds, later claims replacing earlier ones.
pub open spec fn claims_map(cs: Seq<(Seq<char>, Seq<char>)>) -> Map<Seq<char>, Seq<char>>
    decreases cs.len(),
{
    if cs.len() == 0 {
        Map::empty()
    } else {
        claims_map(cs.drop_last()).insert(cs.last().0, cs.last().1)
    }
}

/// Replacing the value of an existing key is a map update.
proof fn lemma_insert_replaces(es: Seq<(Seq<char>, Seq<char>)>, p: int, k: Seq<char>, v: Seq<char>)
    requires
        sorted_entries(es),
        0 <= p < es.len(),
        es[p].0 == k,
        sorted_entries(es.update(p, (k, v))),
    ensures
        entries_map(es.update(p, (k, v))) == entries_map(es).insert(k, v),
{
    let ns = es.update(p, (k, v));
    assert forall|key: Seq<char>| #![auto] has_key(ns, key) == has_key(es, key) by {
        if has_key(ns, key) {
            let i = choose|i: int| 0 <= i < ns.len() && #[trigger] ns[i].0 == key;
            assert(es[i].0 == key);
        }
        if has_key(es, key) {
            let i = choose|i: int| 0 <= i < es.len() && #[trigger] es[i].0 == key;
            assert(ns[i].0 == key);
        }
    }
    assert forall|key: Seq<char>| #[trigger] entries_map(ns).contains_key(key) implies entries_map(
        ns,
    )[key] == entries_map(es).insert(k, v)[key] by {
        let i = choose|i: int| 0 <= i < ns.len() && #[trigger] ns[i].0 == key;
        lemma_map_at(ns, i);
        if i != p {
            assert(es[i].0 == key);
            lemma_map_at(es, i);
            if key == k {
                lemma_sorted_unique(es, i, p);
            }
        }
    }
    assert(entries_map(ns) =~= entries_map(es).insert(k, v));
}

/// Inserting a new key at its sorted position keeps the entries sorted and adds it
/// to the map.
proof fn lemma_insert_new(es: Seq<(Seq<char>, Seq<char>)>, p: int, k: Seq<char>, v: Seq<char>)
    requires
        sorted_entries(es),
        0 <= p <= es.len(),
        forall|j: int| 0 <= j < p ==> lex_lt(key_bytes(#[trigger] es[j].0), key_bytes(k)),
        p < es.len() ==> lex_lt(key_bytes(k), key_bytes(es[p].0)),
    ensures
        sorted_entries(es.insert(p, (k, v))),
        entries_map(es.insert(p, (k, v))) == entries_map(es).insert(k, v),
{
    let ns = es.insert(p, (k, v));
    assert forall|i: int, j: int| 0 <= i < j < ns.len() implies lex_lt(
        key_bytes(#[trigger] ns[i].0),
        key_bytes(#[trigger] ns[j].0),
    ) by {
        if j < p {
            assert(ns[i] == es[i] && ns[j] == es[j]);
        } else if j == p {
            assert(ns[i] == es[i]);
        } else if i < p {
            assert(ns[i] == es[i] && ns[j] == es[j - 1]);
            if j - 1 > p {
                lemma_lex_transitive(key_bytes(k), key_bytes(es[p].0), key_bytes(es[j - 1].0));
            }
            lemma_lex_transitive(key_bytes(es[i].0), key_bytes(k), key_bytes(es[j - 1].0));
        } else if i == p {
            assert(ns[j] == es[j - 1]);
            if j - 1 > p {
                lemma_lex_transitive(key_bytes(k), key_bytes(es[p].0), key_bytes(es[j - 1].0));
            }
        } else {
            assert(ns[i] == es[i - 1] && ns[j] == es[j - 1]);
        }
    }
    assert(!has_key(es, k)) by {
        if has_key(es, k) {
            let i = choose|i: int| 0 <= i < es.len() && #[trigger] es[i].0 == k;
            if i < p {
                lemma_lex_irreflexive(key_bytes(k));
            } else {
                if i > p {
                    lemma_lex_transitive(key_bytes(k), key_bytes(es[p].0), key_bytes(es[i].0));
                }
                lemma_lex_irreflexive(key_bytes(k));
            }
        }
    }
    assert forall|key: Seq<char>| #[trigger] entries_map(ns).contains_key(key) <==> entries_map(
        es,
    ).insert(k, v).contains_key(key) by {
        if has_key(ns, key) {
            let i = choose|i: int| 0 <= i < ns.len() && #[trigger] ns[i].0 == key;
            if i < p {
                assert(es[i].0 == key);
            } else if i > p {
                assert(es[i - 1].0 == key);
            }
        }
        if has_key(es, key) {
            let i = choose|i: int| 0 <= i < es.len() && #[trigger] es[i].0 == key;
            if i < p {
                assert(ns[i].0 == key);
            } else {
                assert(ns[i + 1].0 == key);
            }
        }
        if key == k {
            assert(ns[p].0 == k);
        }
    }
    assert forall|key: Seq<char>| #[trigger] entries_map(ns).contains_key(key) implies entries_map(
        ns,
    )[key] == entries_map(es).insert(k, v)[key] by {
        let i = choose|i: int| 0 <= i < ns.len() && #[trigger] ns[i].0 == key;
        lemma_map_at(ns, i);
        if i < p {
            assert(ns[i] == es[i]);
            lemma_map_at(es, i);
        } else if i > p {
            assert(ns[i] == es[i - 1]);
            lemma_map_at(es, i - 1);
        }
    }
    assert(entries_map(ns) =~= entries_map(es).insert(k, v));
}


/// Reading a claim back after setting it gives the value set, and every other claim
/// is as it was: `c1` is a context after `set(k, v)` on `c0`.
pub proof fn law_set_then_get(c0: ProcessContext, c1: ProcessContext, k: Seq<char>, v: Seq<char>, other: Seq<char>)
    requires
        c1.claims() == c0.claims().insert(k, v),
    ensures
        c1.claims().contains_key(k),
        c1.claims()[k] == v,
        other != k ==> c1.claims().contains_key(other) == c0.claims().contains_key(other),
        other != k && c0.claims().contains_key(other) ==> c1.claims()[other] == c0.claims()[other],
        c1.claims() != Map::<Seq<char>, Seq<char>>::empty(),
{
    assert(!Map::<Seq<char>, Seq<char>>::empty().contains_key(k));
}

/// Building a context from claims: a later claim for a key replaces an earlier one,
/// and a key no claim names is absent.
pub proof fn law_later_claim_wins(cs: Seq<(Seq<char>, Seq<char>)>, k: Seq<char>, v: Seq<char>, other: Seq<char>)
    ensures
        claims_map(cs.push((k, v)))[k] == v,
        claims_map(cs.push((k, v))).contains_key(k),
        other != k ==> claims_map(cs.push((k, v))).contains_key(other) == claims_map(cs).contains_key(other),
        claims_map(Seq::<(Seq<char>, Seq<char>)>::empty()) == Map::<Seq<char>, Seq<char>>::empty(),
{
    assert(cs.push((k, v)).drop_last() =~= cs);
}

} // verus!
