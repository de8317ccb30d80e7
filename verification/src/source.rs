//! Where a request's or a connection's handler comes from: the route decision the
//! orchestrator's route table makes, and how a serving listener turns it into the
//! component to spawn. The component handles (`P`), capability profiles (`C`) and
//! route resolver (`R`) are the engine's; this module decides between them.

use vstd::prelude::*;
use std::sync::Arc;

verus! {

/// The host's per-request routing decision — the engine-local mirror of the manifest
/// route table.
#[derive(Debug, Clone, PartialEq, Eq)]
pub enum Routed {
    /// A route matched: dispatch `action` on `component` with these captured path params.
    Found { component: String, action: String, params: Vec<(String, String)> },
    /// The path matched a route, but not for this method (HTTP 405).
    MethodNotAllowed,
    /// No route matched the path (HTTP 404).
    NotFound,
}

/// What the engine's registry holds for a component name: its prepared component
/// (absent for a dynamic template) and, for a JS handler, the bundle it is sent first.
pub struct HandlerEntry<P> {
    pub prepared: Option<P>,
    pub bundle: Option<Arc<Vec<u8>>>,
}

/// Where a per-connection serving handler (WebSocket or SSE) comes from: one fixed
/// component for every connection, or a route table resolving the path to a
/// registered component with captured params.
#[derive(Clone)]
pub enum Source<P, C, R> {
    /// One handler for every connection; no path params. `bundle` is `Some` for a JS
    /// bundle run on the js-runner.
    Single { prepared: P, bundle: Option<Arc<Vec<u8>>>, caps: C },
    /// Route-table routing; `caps` keys each handler component's capability profile
    /// by name.
    Routed { resolve: R, caps: Vec<(String, C)> },
}

/// A resolved connection handler: the component to spawn, its optional JS bundle, the
/// capability profile to run it under, and the captured route params.
pub struct Resolved<P, C> {
    pub prepared: P,
    pub bundle: Option<Arc<Vec<u8>>>,
    pub caps: C,
    pub params: Vec<(String, String)>,
}

/// The position of the first entry of `t` named `name`, searching from `i`.
pub open spec fn table_index_from<C>(t: Seq<(String, C)>, name: Seq<char>, i: int) -> Option<int>
    decreases t.len() - i,
{
    if i < 0 || i >= t.len() {
        None
    } else if t[i].0@ == name {
        Some(i)
    } else {
        table_index_from(t, name, i + 1)
    }
}

/// A position found searching from `i` is at or after `i`, in range, and holds `name`.
pub proof fn lemma_table_index<C>(t: Seq<(String, C)>, name: Seq<char>, i: int)
    ensures
        table_index_from(t, name, i) matches Some(j) ==> i <= j < t.len() && t[j].0@ == name,
    decreases t.len() - i,
{
    if 0 <= i < t.len() && t[i].0@ != name {
        lemma_table_index(t, name, i + 1);
    }
}

/// The profile a capability table gives `name`: its first entry of that name.
pub open spec fn table_get<C>(t: Seq<(String, C)>, name: Seq<char>) -> Option<C> {
    match table_index_from(t, name, 0) {
        Some(i) => Some(t[i].1),
        None => None,
    }
}

/// The first entry of `table` named `name`, by position.
pub fn table_position<C>(table: &Vec<(String, C)>, name: &str) -> (r: Option<usize>)
    ensures
        match table_index_from(table@, name@, 0) {
            Some(i) => r matches Some(k) && k as int == i,
            None => r is None,
        },
        r matches Some(i) ==> i < table@.len() && table@[i as int].0@ == name@,
{
    proof {
        lemma_table_index(table@, name@, 0);
    }
    let mut i: usize = 0;
    while i < table.len()
        invariant
            i <= table@.len(),
            table_index_from(table@, name@, 0) == table_index_from(table@, name@, i as int),
        decreases table@.len() - i,
    {
        if crate::text::str_eq(table[i].0.as_str(), name) {
            return Some(i);
        }
        i = i + 1;
    }
    None
}

/// The route decision for a connection (or a request) as the listener sees it: the
/// matched component's name, or nothing.
pub open spec fn routed_component(routed: Routed) -> Option<Seq<char>> {
    match routed {
        Routed::Found { component, .. } => Some(component@),
        _ => None,
    }
}

/// The component a route decision names, for the engine to look up.
pub fn route_component(routed: &Routed) -> (r: Option<&str>)
    ensures
        match routed_component(*routed) {
            Some(c) => r matches Some(s) && s@ == c,
            None => r is None,
        },
{
    match routed {
        Routed::Found { component, .. } => Some(component.as_str()),
        _ => None,
    }
}

/// Resolve a routed connection: a matched route whose component is registered with a
/// prepared component (not a dynamic template) and has a capability profile gives the
/// handler with the route's params; anything else is no handler (the listener
/// answers `404`). `entry` is what the registry holds for the matched component.
pub fn resolve_routed<P, C: Clone>(routed: Routed, entry: Option<HandlerEntry<P>>, caps: &Vec<(
    String,
    C,
)>) -> (r: Option<Resolved<P, C>>)
    ensures
        match routed {
            Routed::Found { component, params, .. } => match (entry, table_get(caps@, component@)) {
                (Some(e), Some(c)) => match e.prepared {
                    Some(p) => r matches Some(res) && res.prepared == p && res.bundle == e.bundle
                        && cloned(c, res.caps) && res.params == params,
                    None => r is None,
                },
                _ => r is None,
            },
            _ => r is None,
        },
{
    match routed {
        Routed::Found { component, action: _, params } => {
            let e = match entry {
                Some(e) => e,
                None => return None,
            };
            let prepared = match e.prepared {
                Some(p) => p,
                None => return None,
            };
            match table_position(caps, component.as_str()) {
                Some(i) => {
                    let c = caps[i].1.clone();
                    Some(Resolved { prepared, bundle: e.bundle, caps: c, params })
                },
                None => None,
            }
        },
        _ => None,
    }
}

impl<P: Clone, C: Clone, R> Source<P, C, R> {
    /// The handler of an unrouted listener: its one component, with no params. `None`
    /// for a routed listener, which resolves each connection with `resolve_routed`.
    pub fn resolve_single(&self) -> (r: Option<Resolved<P, C>>)
        ensures
            match self {
                Source::Single { prepared, bundle, caps } => r matches Some(res) && cloned(
                    *prepared,
                    res.prepared,
                ) && cloned(*bundle, res.bundle) && cloned(*caps, res.caps) && res.params@.len() == 0,
                Source::Routed { .. } => r is None,
            },
    {
        match self {
            Source::Single { prepared, bundle, caps } => Some(
                Resolved {
                    prepared: prepared.clone(),
                    bundle: bundle.clone(),
                    caps: caps.clone(),
                    params: Vec::new(),
                },
            ),
            Source::Routed { .. } => None,
        }
    }
}

} // verus!
