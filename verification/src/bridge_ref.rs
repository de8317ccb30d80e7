//! Bridge references, `ns:pkg/iface[@ver]`: the interface a component's `#[handlers]`
//! module re-exports from its bindings.

use vstd::prelude::*;
use crate::text::{chars_of, first_piece, piece_end};

verus! {

/// `s` cut at its first `sep` into the text before and after it, or `None` when `s`
/// has no `sep` (`str::split_once`).
pub open spec fn split_once(s: Seq<char>, sep: char) -> Option<(Seq<char>, Seq<char>)> {
    let head = first_piece(s, sep);
    if head.len() < s.len() {
        Some((head, s.subrange(head.len() as int + 1, s.len() as int)))
    } else {
        None
    }
}

/// The namespace, package and interface a bridge reference names: its version (from
/// the first `@`) dropped, then cut at the first `/` into package and interface, and
/// the package at its first `:` into namespace and name. `None` when a cut finds no
/// separator.
pub open spec fn bridge_ref_spec(r: Seq<char>) -> Option<(Seq<char>, Seq<char>, Seq<char>)> {
    match split_once(first_piece(r, '@'), '/') {
        None => None,
        Some((pkg, iface)) => match split_once(pkg, ':') {
            None => None,
            Some((ns, name)) => Some((ns, name, iface)),
        },
    }
}

/// Split a bridge reference `ns:pkg/iface[@ver]` into `(ns, pkg, iface)`, or `None`
/// when it does not have that shape.
pub fn bridge_ref_parts(r: &str) -> (p: Option<(String, String, String)>)
    ensures
        p matches Some(t) ==> bridge_ref_spec(r@) == Some((t.0@, t.1@, t.2@)),
        p is None <==> bridge_ref_spec(r@) is None,
{
    let cs = chars_of(r);
    let n = cs.len();
    assert(cs@.subrange(0, n as int) =~= cs@);
    let k0 = piece_end(&cs, 0, n, '@');
    let ghost no_ver = cs@.subrange(0, k0 as int);
    let k1 = piece_end(&cs, 0, k0, '/');
    assert(no_ver.subrange(0, k1 as int) =~= cs@.subrange(0, k1 as int));
    if k1 >= k0 {
        return None;
    }
    assert(no_ver.subrange(k1 + 1, k0 as int) =~= cs@.subrange(k1 + 1, k0 as int));
    let k2 = piece_end(&cs, 0, k1, ':');
    assert(cs@.subrange(0, k1 as int).subrange(0, k2 as int) =~= cs@.subrange(0, k2 as int));
    if k2 >= k1 {
        return None;
    }
    assert(cs@.subrange(0, k1 as int).subrange(k2 + 1, k1 as int) =~= cs@.subrange(k2 + 1, k1 as int));
    let ns = r.substring_char(0, k2).to_owned();
    let name = r.substring_char(k2 + 1, k1).to_owned();
    let iface = r.substring_char(k1 + 1, k0).to_owned();
    Some((ns, name, iface))
}

} // verus!
