//! The host side of the actor ABI: the capability gates every guest operation passes
//! (default-deny: spawning, touching other processes, the store, the network, memory),
//! where a spawned or supervised component and its capabilities come from, how a
//! dynamic bundle source is read, and how a monitored exit reaches a guest's mailbox.
//! The engine's components `P` and capability profiles `C` are carried through.

use vstd::prelude::*;
use std::sync::Arc;
use crate::outside::fmt::{debug_str, str_debug};
use crate::sse::{decimal, push_all, push_decimal};
use crate::text::{chars_of, first_piece, starts_with, trim, trim_bounds};

verus! {

/// What a process's capability profile grants, as far as the host ABI's gates read
/// it: spawning (and supervising, and monitoring), control over other processes, the
/// node store, outbound network, and the memory ceiling in bytes.
#[derive(Debug, Clone, Copy, PartialEq, Eq)]
pub struct Grants {
    pub spawn: bool,
    pub process_control: bool,
    pub storage: bool,
    pub network: bool,
    pub memory_limit: usize,
}

/// Whether a process may inspect, probe or kill `target`: itself always, another only
/// with process control.
pub open spec fn may_touch_spec(g: Grants, own: u64, target: u64) -> bool {
    g.process_control || target == own
}

/// Whether a process may inspect, probe or kill `target`.
pub fn may_touch(g: &Grants, own: u64, target: u64) -> (r: bool)
    ensures
        r == may_touch_spec(*g, own, target),
{
    g.process_control || target == own
}

/// Whether a process may monitor others: a supervisor pairs spawn and monitor, so
/// either grant allows it.
pub fn may_monitor(g: &Grants) -> (r: bool)
    ensures
        r == (g.spawn || g.process_control),
{
    g.spawn || g.process_control
}

/// The processes a guest sees when it lists them: only itself without process
/// control, otherwise every live one.
pub fn visible_processes(g: &Grants, own: u64, all: Vec<u64>) -> (r: Vec<u64>)
    ensures
        g.process_control ==> r@ == all@,
        !g.process_control ==> r@ == seq![own],
{
    if g.process_control {
        all
    } else {
        let mut v: Vec<u64> = Vec::new();
        v.push(own);
        assert(v@ =~= seq![own]);
        v
    }
}

/// How many processes of a tag a guest may kill: none without process control.
pub fn tag_kills_allowed(g: &Grants) -> (r: bool)
    ensures
        r == g.process_control,
{
    g.process_control
}

/// Whether a guest memory may grow to `desired` bytes: up to the capability's
/// ceiling (beyond it, `memory.grow` returns -1 to the guest).
pub fn memory_growing(g: &Grants, desired: usize) -> (r: bool)
    ensures
        r == (desired <= g.memory_limit),
{
    desired <= g.memory_limit
}

/// The kind of a dynamic runner template.
#[derive(Debug, Clone, Copy, PartialEq, Eq)]
pub enum DynamicKind {
    /// A JS runner: the bundle is its first message.
    Js,
    /// A WASM module compiled from the bundle.
    Wasm,
}

/// What the engine's registry holds for a component name: its prepared component
/// (absent for a dynamic template), its JS bundle, its declared capability profile,
/// and, for a runner template, its kind.
pub struct ComponentEntry<P, C> {
    pub prepared: Option<P>,
    pub bundle: Option<Arc<Vec<u8>>>,
    pub caps: Option<C>,
    pub dynamic: Option<DynamicKind>,
}

/// A spawn the host will perform: the component, the profile it runs under, and the
/// bundle to send as its first message.
pub struct SpawnPlan<P, C> {
    pub prepared: P,
    pub caps: C,
    pub bundle: Option<Arc<Vec<u8>>>,
}

/// `a`, then `b`, then `c`.
fn concat3(a: &str, b: &str, c: &str) -> (r: String)
    ensures
        r@ == a@ + b@ + c@,
{
    let mut s = String::from_str(a);
    s.append(b);
    s.append(c);
    s
}

/// The profile a registered component runs under: its declared one, or — for an
/// ad-hoc registration without one — the spawning process's own (never more than the
/// parent has).
pub open spec fn run_caps<C>(declared: Option<C>, own: C, chosen: C) -> bool where C: Clone {
    match declared {
        Some(d) => cloned(d, chosen),
        None => cloned(own, chosen),
    }
}

fn choose_caps<C: Clone>(declared: &Option<C>, own: &C) -> (r: C)
    ensures
        run_caps(*declared, *own, r),
{
    match declared {
        Some(d) => d.clone(),
        None => own.clone(),
    }
}

/// Spawning a registered component by name: it needs the spawn grant, an engine to
/// spawn on, a registered name, a fixed component (a runner template is spawned with
/// `spawn-from`), and a prepared component; it runs under the component's declared
/// profile or, failing that, the spawner's own.
pub fn spawn_plan<P, C: Clone>(
    g: &Grants,
    own_caps: &C,
    has_spawner: bool,
    component: &str,
    entry: Option<ComponentEntry<P, C>>,
) -> (r: Result<SpawnPlan<P, C>, String>)
    ensures
        !g.spawn ==> (r matches Err(e) && e@ == "spawn denied: missing the spawn capability"@),
        g.spawn && !has_spawner ==> (r matches Err(e) && e@ == "spawn unavailable here"@),
        g.spawn && has_spawner && entry is None ==> (r matches Err(e) && e@ == "unknown component `"@
            + component@ + "`"@),
        g.spawn && has_spawner && entry is Some && entry->0.dynamic is Some ==> (r matches Err(e)
            && e@ == "`"@ + component@
            + "` is a dynamic runner template — spawn it with spawn-from(component, source)"@),
        g.spawn && has_spawner && entry is Some && entry->0.dynamic is None && entry->0.prepared is None
            ==> (r matches Err(e) && e@ == "`"@ + component@ + "` has no prepared component"@),
        g.spawn && has_spawner && entry is Some && entry->0.dynamic is None && entry->0.prepared is Some
            ==> (r matches Ok(plan) && plan.prepared == entry->0.prepared->0 && plan.bundle
            == entry->0.bundle && run_caps(entry->0.caps, *own_caps, plan.caps)),
{
    if !g.spawn {
        return Err(String::from_str("spawn denied: missing the spawn capability"));
    }
    if !has_spawner {
        return Err(String::from_str("spawn unavailable here"));
    }
    let e = match entry {
        Some(e) => e,
        None => return Err(concat3("unknown component `", component, "`")),
    };
    if e.dynamic.is_some() {
        return Err(
            concat3(
                "`",
                component,
                "` is a dynamic runner template — spawn it with spawn-from(component, source)",
            ),
        );
    }
    let caps = choose_caps(&e.caps, own_caps);
    match e.prepared {
        Some(p) => Ok(SpawnPlan { prepared: p, caps, bundle: e.bundle }),
        None => Err(concat3("`", component, "` has no prepared component")),
    }
}

/// A dynamic spawn the host will perform, once the bundle is in hand: the runner
/// template's kind, its runner component (for JS), and the profile it runs under.
pub struct DynamicPlan<P, C> {
    pub kind: DynamicKind,
    pub runner: Option<P>,
    pub caps: C,
}

/// Spawning a dynamic instance of a runner template: the same gates as a spawn, and
/// the name must be a runner template (a fixed component is spawned with `spawn`).
/// The instance runs under the template's declared profile (the guest picks the
/// code, never the capabilities) or, failing that, the spawner's own.
pub fn spawn_from_plan<P, C: Clone>(
    g: &Grants,
    own_caps: &C,
    has_spawner: bool,
    component: &str,
    entry: Option<ComponentEntry<P, C>>,
) -> (r: Result<DynamicPlan<P, C>, String>)
    ensures
        !g.spawn ==> (r matches Err(e) && e@ == "spawn denied: missing the spawn capability"@),
        g.spawn && !has_spawner ==> (r matches Err(e) && e@ == "spawn unavailable here"@),
        g.spawn && has_spawner && entry is None ==> (r matches Err(e) && e@ == "unknown component `"@
            + component@ + "`"@),
        g.spawn && has_spawner && entry is Some && entry->0.dynamic is None ==> (r matches Err(e)
            && e@ == "`"@ + component@
            + "` is not a dynamic template (use `spawn` for a fixed component)"@),
        g.spawn && has_spawner && entry is Some && entry->0.dynamic is Some ==> (r matches Ok(plan)
            && plan.kind == entry->0.dynamic->0 && plan.runner == entry->0.prepared && run_caps(
            entry->0.caps,
            *own_caps,
            plan.caps,
        )),
{
    if !g.spawn {
        return Err(String::from_str("spawn denied: missing the spawn capability"));
    }
    if !has_spawner {
        return Err(String::from_str("spawn unavailable here"));
    }
    let e = match entry {
        Some(e) => e,
        None => return Err(concat3("unknown component `", component, "`")),
    };
    let caps = choose_caps(&e.caps, own_caps);
    match e.dynamic {
        None => Err(
            concat3(
                "`",
                component,
                "` is not a dynamic template (use `spawn` for a fixed component)",
            ),
        ),
        Some(kind) => Ok(DynamicPlan { kind, runner: e.prepared, caps }),
    }
}

/// The runner a dynamic JS instance is spawned on.
pub fn js_runner<P>(runner: Option<P>) -> (r: Result<P, String>)
    ensures
        match runner {
            Some(p) => r == Ok::<P, String>(p),
            None => r matches Err(e) && e@ == "dynamic JS template has no runner"@,
        },
{
    match runner {
        Some(p) => Ok(p),
        None => Err(String::from_str("dynamic JS template has no runner")),
    }
}

/// Where a dynamic bundle comes from.
#[derive(Debug, PartialEq, Eq)]
pub enum BundleSource {
    /// `inline:<js>`: the bundle itself.
    Inline(Vec<u8>),
    /// `kv:<bucket>/<key>`: the node store.
    Kv { bucket: String, key: String },
    /// `url:<u>` or `http(s)://…`: fetched from this URL.
    Url(String),
}

/// A bundle source as a value.
pub enum BundleSourceView {
    Inline(Seq<u8>),
    Kv(Seq<char>, Seq<char>),
    Url(Seq<char>),
}

impl View for BundleSource {
    type V = BundleSourceView;

    open spec fn view(&self) -> BundleSourceView {
        match self {
            BundleSource::Inline(b) => BundleSourceView::Inline(b@),
            BundleSource::Kv { bucket, key } => BundleSourceView::Kv(bucket@, key@),
            BundleSource::Url(u) => BundleSourceView::Url(u@),
        }
    }
}

/// `s` without the prefix `p`, when it has it.
pub open spec fn strip(s: Seq<char>, p: Seq<char>) -> Option<Seq<char>> {
    if starts_with(s, p) {
        Some(s.subrange(p.len() as int, s.len() as int))
    } else {
        None
    }
}

/// The text after `url:`, or all of it.
pub open spec fn url_of(s: Seq<char>) -> Seq<char> {
    match strip(s, "url:"@) {
        Some(u) => u,
        None => s,
    }
}

/// Whether a (trimmed) source names a URL to fetch.
pub open spec fn is_url_source(s: Seq<char>) -> bool {
    starts_with(s, "url:"@) || starts_with(s, "http://"@) || starts_with(s, "https://"@)
}

/// How a `spawn-from` source is read, before any I/O: the source is trimmed;
/// `inline:` carries the bundle (its UTF-8 bytes); `kv:` names a bucket and key,
/// split at the first `/`; after an optional `url:`, an `http://` or `https://` URL is
/// fetched; anything else is refused, naming the source in `{:?}` form.
pub open spec fn classify_spec(source: Seq<char>) -> Result<BundleSourceView, Seq<char>> {
    let s = trim(source);
    match strip(s, "inline:"@) {
        Some(js) => Ok(BundleSourceView::Inline(vstd::utf8::encode_utf8(js))),
        None => match strip(s, "kv:"@) {
            Some(rest) => {
                let bucket = first_piece(rest, '/');
                if bucket.len() < rest.len() {
                    Ok(
                        BundleSourceView::Kv(
                            bucket,
                            rest.subrange(bucket.len() as int + 1, rest.len() as int),
                        ),
                    )
                } else {
                    Err("kv source must be `kv:<bucket>/<key>`, got "@ + str_debug(s))
                }
            },
            None => {
                let u = url_of(s);
                if starts_with(u, "http://"@) || starts_with(u, "https://"@) {
                    Ok(BundleSourceView::Url(u))
                } else {
                    Err(
                        "unrecognised bundle source "@ + str_debug(s)
                            + " (expected `inline:<js>`, `kv:<bucket>/<key>`, or `http(s)://…`)"@,
                    )
                }
            },
        },
    }
}

/// Whether `s[lo..]` starts with `p`.
fn has_prefix_at(s: &Vec<char>, lo: usize, hi: usize, p: &str) -> (r: bool)
    requires
        lo <= hi <= s.len(),
    ensures
        r == starts_with(s@.subrange(lo as int, hi as int), p@),
{
    let pc = chars_of(p);
    if hi - lo < pc.len() {
        return false;
    }
    let e = lo + pc.len();
    let r = crate::text::range_eq(s, lo, e, &pc);
    assert(s@.subrange(lo as int, hi as int).subrange(0, pc@.len() as int) =~= s@.subrange(
        lo as int,
        e as int,
    ));
    r
}

/// Read a `spawn-from` source, before any I/O.
pub fn classify_source(source: &str) -> (r: Result<BundleSource, String>)
    ensures
        match classify_spec(source@) {
            Ok(v) => r matches Ok(b) && b@ == v,
            Err(m) => r matches Err(e) && e@ == m,
        },
{
    let cs = chars_of(source);
    let n = cs.len();
    let (a, b) = trim_bounds(&cs, 0, n);
    assert(cs@.subrange(0, n as int) =~= cs@);
    let ghost s = cs@.subrange(a as int, b as int);
    let trimmed = source.substring_char(a, b);
    proof {
        reveal_strlit("inline:");
        reveal_strlit("kv:");
        reveal_strlit("url:");
    }
    if has_prefix_at(&cs, a, b, "inline:") {
        let js = source.substring_char(a + 7, b);
        proof {
            assert(s.subrange(7, s.len() as int) =~= cs@.subrange(a + 7, b as int));
        }
        let bytes = js.as_bytes();
        let mut v: Vec<u8> = Vec::new();
        push_all(&mut v, bytes);
        assert(v@ =~= bytes@);
        return Ok(BundleSource::Inline(v));
    }
    if has_prefix_at(&cs, a, b, "kv:") {
        let lo = a + 3;
        let f = crate::text::piece_end(&cs, lo, b, '/');
        proof {
            assert(s.subrange(3, s.len() as int) =~= cs@.subrange(lo as int, b as int));
        }
        if f < b {
            let bucket = source.substring_char(lo, f).to_owned();
            let key = source.substring_char(f + 1, b).to_owned();
            proof {
                let rest = cs@.subrange(lo as int, b as int);
                assert(rest.subrange(f - lo + 1, rest.len() as int) =~= cs@.subrange(
                    f + 1,
                    b as int,
                ));
            }
            return Ok(BundleSource::Kv { bucket, key });
        }
        let mut m = String::from_str("kv source must be `kv:<bucket>/<key>`, got ");
        let d = debug_str(trimmed);
        m.append(d.as_str());
        return Err(m);
    }
    let u_lo: usize = if has_prefix_at(&cs, a, b, "url:") {
        a + 4
    } else {
        a
    };
    proof {
        if u_lo == a + 4 {
            assert(s.subrange(4, s.len() as int) =~= cs@.subrange(u_lo as int, b as int));
        }
    }
    if has_prefix_at(&cs, u_lo, b, "http://") || has_prefix_at(&cs, u_lo, b, "https://") {
        return Ok(BundleSource::Url(source.substring_char(u_lo, b).to_owned()));
    }
    let mut m = String::from_str("unrecognised bundle source ");
    let d = debug_str(trimmed);
    m.append(d.as_str());
    m.append(" (expected `inline:<js>`, `kv:<bucket>/<key>`, or `http(s)://…`)");
    Err(m)
}


/// Where a dynamic JS instance's bundle comes from, with the grants it needs checked:
/// the source is read first (an unreadable one is refused as such); a `kv:` source
/// then needs the store (storage grant, a configured store) and a URL source the
/// network grant and a configured fetcher; `inline:` needs nothing more.
pub fn js_bundle_source(g: &Grants, has_store: bool, has_resolver: bool, source: &str) -> (r: Result<
    BundleSource,
    String,
>)
    ensures
        match classify_spec(source@) {
            Err(m) => r matches Err(e) && e@ == m,
            Ok(BundleSourceView::Inline(b)) => r matches Ok(v) && v@ == BundleSourceView::Inline(b),
            Ok(BundleSourceView::Kv(bucket, key)) => if !g.storage {
                r matches Err(e) && e@ == "kv denied: missing the storage capability"@
            } else if !has_store {
                r matches Err(e) && e@ == "kv unavailable: no store configured on this node"@
            } else {
                r matches Ok(v) && v@ == BundleSourceView::Kv(bucket, key)
            },
            Ok(BundleSourceView::Url(u)) => if !g.network {
                r matches Err(e) && e@ == "spawn-from url denied: missing the network capability"@
            } else if !has_resolver {
                r matches Err(e) && e@ == "url: bundle sources are not configured on this node"@
            } else {
                r matches Ok(v) && v@ == BundleSourceView::Url(u)
            },
        },
{
    let src = classify_source(source)?;
    match &src {
        BundleSource::Inline(_) => {},
        BundleSource::Kv { .. } => store_gate(g, has_store)?,
        BundleSource::Url(_) => url_gate(g, has_resolver)?,
    }
    Ok(src)
}

/// Refuse a dynamic-WASM source by its scheme, without fetching: a `kv:` source
/// needs the storage grant and a URL source the network grant, on every spawn, so a
/// cached bundle is never reached by a guest lacking them; `inline:` needs neither.
pub fn gate_source(g: &Grants, source: &str) -> (r: Result<(), String>)
    ensures
        starts_with(trim(source@), "kv:"@) && !g.storage ==> (r matches Err(e) && e@
            == "spawn-from kv denied: missing the storage capability"@),
        !(starts_with(trim(source@), "kv:"@) && !g.storage) && is_url_source(trim(source@))
            && !g.network ==> (r matches Err(e) && e@
            == "spawn-from url denied: missing the network capability"@),
        !(starts_with(trim(source@), "kv:"@) && !g.storage) && !(is_url_source(trim(source@))
            && !g.network) ==> r is Ok,
{
    let cs = chars_of(source);
    let n = cs.len();
    let (a, b) = trim_bounds(&cs, 0, n);
    assert(cs@.subrange(0, n as int) =~= cs@);
    if has_prefix_at(&cs, a, b, "kv:") && !g.storage {
        return Err(String::from_str("spawn-from kv denied: missing the storage capability"));
    }
    let is_url = has_prefix_at(&cs, a, b, "url:") || has_prefix_at(&cs, a, b, "http://")
        || has_prefix_at(&cs, a, b, "https://");
    if is_url && !g.network {
        return Err(String::from_str("spawn-from url denied: missing the network capability"));
    }
    Ok(())
}

/// Access to the node store: it needs the storage grant, then a configured store.
pub fn store_gate(g: &Grants, has_store: bool) -> (r: Result<(), String>)
    ensures
        !g.storage ==> (r matches Err(e) && e@ == "kv denied: missing the storage capability"@),
        g.storage && !has_store ==> (r matches Err(e) && e@
            == "kv unavailable: no store configured on this node"@),
        g.storage && has_store ==> r is Ok,
{
    if !g.storage {
        return Err(String::from_str("kv denied: missing the storage capability"));
    }
    if !has_store {
        return Err(String::from_str("kv unavailable: no store configured on this node"));
    }
    Ok(())
}

/// Fetching a bundle from a URL: it needs the network grant, then a configured
/// fetcher.
pub fn url_gate(g: &Grants, has_resolver: bool) -> (r: Result<(), String>)
    ensures
        !g.network ==> (r matches Err(e) && e@
            == "spawn-from url denied: missing the network capability"@),
        g.network && !has_resolver ==> (r matches Err(e) && e@
            == "url: bundle sources are not configured on this node"@),
        g.network && has_resolver ==> r is Ok,
{
    if !g.network {
        return Err(String::from_str("spawn-from url denied: missing the network capability"));
    }
    if !has_resolver {
        return Err(String::from_str("url: bundle sources are not configured on this node"));
    }
    Ok(())
}

/// Starting a supervisor: it needs the spawn grant, then an engine to spawn on.
pub fn supervise_gate(g: &Grants, has_spawner: bool) -> (r: Result<(), String>)
    ensures
        !g.spawn ==> (r matches Err(e) && e@ == "supervise denied: missing the spawn capability"@),
        g.spawn && !has_spawner ==> (r matches Err(e) && e@ == "supervise unavailable here"@),
        g.spawn && has_spawner ==> r is Ok,
{
    if !g.spawn {
        return Err(String::from_str("supervise denied: missing the spawn capability"));
    }
    if !has_spawner {
        return Err(String::from_str("supervise unavailable here"));
    }
    Ok(())
}

/// The restart-intensity window of a supervisor: `within_ms` milliseconds, or — for
/// 0 — the supervisor's whole lifetime (`None`).
pub fn restart_window(within_ms: u32) -> (r: Option<u64>)
    ensures
        within_ms == 0 ==> r is None,
        within_ms != 0 ==> r == Some(within_ms as u64),
{
    if within_ms == 0 {
        None
    } else {
        Some(within_ms as u64)
    }
}

/// A supervised child: a registered fixed component (a runner template cannot be a
/// supervisor child), run under its declared profile or the supervisor's own.
pub fn supervised_child<P, C: Clone>(
    name: &str,
    entry: Option<ComponentEntry<P, C>>,
    own_caps: &C,
) -> (r: Result<SpawnPlan<P, C>, String>)
    ensures
        entry is None ==> (r matches Err(e) && e@ == "unknown component `"@ + name@ + "`"@),
        entry is Some && entry->0.prepared is None ==> (r matches Err(e) && e@ == "`"@ + name@
            + "` is a dynamic template and can't be a supervised child"@),
        entry is Some && entry->0.prepared is Some ==> (r matches Ok(plan) && plan.prepared
            == entry->0.prepared->0 && plan.bundle == entry->0.bundle && run_caps(
            entry->0.caps,
            *own_caps,
            plan.caps,
        )),
{
    let e = match entry {
        Some(e) => e,
        None => return Err(concat3("unknown component `", name, "`")),
    };
    let caps = choose_caps(&e.caps, own_caps);
    match e.prepared {
        Some(p) => Ok(SpawnPlan { prepared: p, caps, bundle: e.bundle }),
        None => Err(concat3("`", name, "` is a dynamic template and can't be a supervised child")),
    }
}

/// Why a monitored process exited.
#[derive(Debug, Clone, Copy, PartialEq, Eq)]
pub enum ExitReason {
    Normal,
    Killed,
    Crashed,
    NoProc,
}

/// The wire name of an exit reason.
pub open spec fn reason_name(r: ExitReason) -> Seq<char> {
    match r {
        ExitReason::Normal => "normal"@,
        ExitReason::Killed => "killed"@,
        ExitReason::Crashed => "crashed"@,
        ExitReason::NoProc => "noproc"@,
    }
}

/// The wire name for an exit reason carried in a `__down` message.
pub fn down_reason(reason: ExitReason) -> (r: &'static str)
    ensures
        r@ == reason_name(reason),
{
    match reason {
        ExitReason::Normal => "normal",
        ExitReason::Killed => "killed",
        ExitReason::Crashed => "crashed",
        ExitReason::NoProc => "noproc",
    }
}

/// The mailbox message a monitored exit becomes:
/// `{"__down":"<pid>","reason":"<reason>"}`.
pub open spec fn down_message_spec(pid: u64, reason: ExitReason) -> Seq<u8> {
    crate::guest::down_prefix() + seq![34u8] + decimal(pid as nat) + vstd::utf8::encode_utf8(
        "\",\"reason\":\""@,
    ) + vstd::utf8::encode_utf8(reason_name(reason)) + vstd::utf8::encode_utf8("\"}"@)
}

/// Render a monitored exit as the `__down` message a guest receives.
pub fn down_message(pid: u64, reason: ExitReason) -> (r: Vec<u8>)
    ensures
        r@ == down_message_spec(pid, reason),
        starts_with(r@, crate::guest::down_prefix()),
{
    let mut out: Vec<u8> = vec![123u8, 34, 95, 95, 100, 111, 119, 110, 34, 58, 34];
    assert(out@ =~= crate::guest::down_prefix() + seq![34u8]);
    push_decimal(&mut out, pid);
    push_all(&mut out, "\",\"reason\":\"".as_bytes());
    push_all(&mut out, down_reason(reason).as_bytes());
    push_all(&mut out, "\"}".as_bytes());
    assert(out@ =~= down_message_spec(pid, reason));
    assert(out@.subrange(0, 10) =~= crate::guest::down_prefix());
    out
}

} // verus!
