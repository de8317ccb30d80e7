use std::sync::Arc;

use rusm::bundle::content_hash;
use rusm::handles::HandleTable;
use rusm::guest::down_pid;
use rusm::actor::Pid;
use rusm::host::{
    classify_source, down_message, down_reason, gate_source, js_runner, may_monitor, may_touch,
    memory_growing, restart_window, spawn_from_plan, spawn_plan, store_gate, supervise_gate,
    supervised_child, tag_kills_allowed, url_gate, visible_processes, BundleSource, ComponentEntry,
    DynamicKind, ExitReason, Grants,
};
use rusm::host::js_bundle_source;

fn grants(spawn: bool, control: bool, storage: bool, network: bool) -> Grants {
    Grants { spawn, process_control: control, storage, network, memory_limit: 1 << 20 }
}

fn fixed(caps: Option<u8>) -> Option<ComponentEntry<&'static str, u8>> {
    Some(ComponentEntry { prepared: Some("comp"), bundle: Some(Arc::new(b"js".to_vec())), caps, dynamic: None })
}

#[test]
fn content_hash_identifies_bytes_not_sources() {
    assert_eq!(content_hash(b"abc"), content_hash(b"abc"));
    assert_ne!(content_hash(b"abc"), content_hash(b"abd"));
    assert_eq!(content_hash(b"").len(), 32);
}

#[test]
fn a_process_touches_only_itself_without_process_control() {
    let sandboxed = grants(false, false, false, false);
    assert!(may_touch(&sandboxed, 5, 5));
    assert!(!may_touch(&sandboxed, 5, 6));
    assert!(may_touch(&grants(false, true, false, false), 5, 6));
    assert_eq!(visible_processes(&sandboxed, 5, vec![1, 5, 9]), vec![5]);
    assert_eq!(visible_processes(&grants(false, true, false, false), 5, vec![1, 5, 9]), vec![1, 5, 9]);
    assert!(!may_monitor(&sandboxed));
    assert!(may_monitor(&grants(true, false, false, false)));
    assert!(may_monitor(&grants(false, true, false, false)));
    assert!(!tag_kills_allowed(&sandboxed));
    assert!(memory_growing(&sandboxed, 1 << 20));
    assert!(!memory_growing(&sandboxed, (1 << 20) + 1));
}

#[test]
fn spawning_is_gated_and_never_escalates() {
    let own: u8 = 7;
    let g = grants(true, false, false, false);
    assert_eq!(
        spawn_plan(&grants(false, true, true, true), &own, true, "c", fixed(None)).err().unwrap(),
        "spawn denied: missing the spawn capability"
    );
    assert_eq!(spawn_plan(&g, &own, false, "c", fixed(None)).err().unwrap(), "spawn unavailable here");
    assert_eq!(spawn_plan::<&str, u8>(&g, &own, true, "c", None).err().unwrap(), "unknown component `c`");
    let template = Some(ComponentEntry { prepared: Some("runner"), bundle: None, caps: None, dynamic: Some(DynamicKind::Js) });
    assert_eq!(
        spawn_plan(&g, &own, true, "t", template).err().unwrap(),
        "`t` is a dynamic runner template — spawn it with spawn-from(component, source)"
    );
    let unprepared = Some(ComponentEntry::<&str, u8> { prepared: None, bundle: None, caps: None, dynamic: None });
    assert_eq!(spawn_plan(&g, &own, true, "u", unprepared).err().unwrap(), "`u` has no prepared component");
    let inherited = spawn_plan(&g, &own, true, "c", fixed(None)).ok().unwrap();
    assert_eq!((inherited.prepared, inherited.caps), ("comp", 7));
    assert_eq!(inherited.bundle.as_deref().map(|b| b.as_slice()), Some(&b"js"[..]));
    let declared = spawn_plan(&g, &own, true, "c", fixed(Some(3))).ok().unwrap();
    assert_eq!(declared.caps, 3);
}

#[test]
fn spawn_from_needs_a_runner_template() {
    let own: u8 = 1;
    let g = grants(true, false, false, false);
    assert_eq!(
        spawn_from_plan(&g, &own, true, "c", fixed(None)).err().unwrap(),
        "`c` is not a dynamic template (use `spawn` for a fixed component)"
    );
    let template = Some(ComponentEntry { prepared: Some("runner"), bundle: None, caps: Some(4u8), dynamic: Some(DynamicKind::Wasm) });
    let plan = spawn_from_plan(&g, &own, true, "t", template).ok().unwrap();
    assert_eq!((plan.kind, plan.runner, plan.caps), (DynamicKind::Wasm, Some("runner"), 4));
    assert_eq!(js_runner(Some(1)).ok(), Some(1));
    assert_eq!(js_runner::<u8>(None).err().unwrap(), "dynamic JS template has no runner");
}

#[test]
fn bundle_sources_are_read_by_scheme() {
    assert_eq!(classify_source("  inline:export default 1 ").unwrap(), BundleSource::Inline(b"export default 1".to_vec()));
    assert_eq!(
        classify_source("kv:bundles/app.js").unwrap(),
        BundleSource::Kv { bucket: "bundles".into(), key: "app.js".into() }
    );
    assert_eq!(classify_source("url:https://x/a.js").unwrap(), BundleSource::Url("https://x/a.js".into()));
    assert_eq!(classify_source("http://x/a.js").unwrap(), BundleSource::Url("http://x/a.js".into()));
    assert_eq!(
        classify_source("kv:nobucket").unwrap_err(),
        "kv source must be `kv:<bucket>/<key>`, got \"kv:nobucket\""
    );
    assert_eq!(
        classify_source(" ftp://x ").unwrap_err(),
        "unrecognised bundle source \"ftp://x\" (expected `inline:<js>`, `kv:<bucket>/<key>`, or `http(s)://…`)"
    );
}

#[test]
fn dynamic_sources_are_gated_by_scheme() {
    let none = grants(true, false, false, false);
    assert_eq!(gate_source(&none, " kv:b/k").unwrap_err(), "spawn-from kv denied: missing the storage capability");
    assert_eq!(gate_source(&none, "https://x").unwrap_err(), "spawn-from url denied: missing the network capability");
    assert_eq!(gate_source(&none, "url:x").unwrap_err(), "spawn-from url denied: missing the network capability");
    assert!(gate_source(&none, "inline:x").is_ok());
    assert!(gate_source(&grants(true, false, true, true), "kv:b/k").is_ok());
    assert_eq!(store_gate(&none, true).unwrap_err(), "kv denied: missing the storage capability");
    assert_eq!(store_gate(&grants(false, false, true, false), false).unwrap_err(), "kv unavailable: no store configured on this node");
    assert_eq!(url_gate(&grants(false, false, false, true), false).unwrap_err(), "url: bundle sources are not configured on this node");
    assert!(url_gate(&grants(false, false, false, true), true).is_ok());
}

#[test]
fn supervisors_are_gated_and_take_fixed_children() {
    let own: u8 = 2;
    assert_eq!(supervise_gate(&grants(false, true, true, true), true).unwrap_err(), "supervise denied: missing the spawn capability");
    assert_eq!(supervise_gate(&grants(true, false, false, false), false).unwrap_err(), "supervise unavailable here");
    assert_eq!(restart_window(0), None);
    assert_eq!(restart_window(5000), Some(5000));
    assert_eq!(supervised_child::<&str, u8>("w", None, &own).err().unwrap(), "unknown component `w`");
    let template = Some(ComponentEntry::<&str, u8> { prepared: None, bundle: None, caps: None, dynamic: Some(DynamicKind::Js) });
    assert_eq!(
        supervised_child("t", template, &own).err().unwrap(),
        "`t` is a dynamic template and can't be a supervised child"
    );
    assert_eq!(supervised_child("w", fixed(None), &own).ok().unwrap().caps, 2);
}

#[test]
fn a_monitored_exit_becomes_a_down_message() {
    assert_eq!(down_message(42, ExitReason::Killed), br#"{"__down":"42","reason":"killed"}"#.to_vec());
    assert_eq!(down_message(0, ExitReason::Normal), br#"{"__down":"0","reason":"normal"}"#.to_vec());
    assert_eq!(down_reason(ExitReason::Crashed), "crashed");
    assert_eq!(down_reason(ExitReason::NoProc), "noproc");
    assert_eq!(down_pid(&down_message(18446744073709551615, ExitReason::NoProc)), Some(Pid(u64::MAX)));
}

#[test]
fn the_memory_limiter_enforces_exactly_the_capability_ceiling() {
    let g = Grants { spawn: false, process_control: false, storage: false, network: false, memory_limit: 256 << 10 };
    assert!(memory_growing(&g, 192 << 10));
    assert!(memory_growing(&g, 256 << 10));
    assert!(!memory_growing(&g, (256 << 10) + 1));
}

#[test]
fn stream_handles_are_fresh_and_closed_handles_are_gone() {
    let mut table: HandleTable<&str> = HandleTable::new();
    let a = table.open("a");
    let b = table.open("b");
    assert_eq!((a, b), (0, 1));
    assert_eq!(table.get(a), Some(&"a"));
    assert_eq!(table.take(a), Some("a"));
    assert_eq!(table.get(a), None);
    assert_eq!(table.take(a), None);
    let c = table.open("c");
    assert_eq!(c, 2, "a closed handle is never reissued");
    let item = table.take(b).unwrap();
    table.restore(b, item);
    assert_eq!(table.get(b), Some(&"b"));
}

#[test]
fn a_js_bundle_source_needs_the_grant_its_scheme_reads_through() {
    let none = grants(true, false, false, false);
    let all = grants(true, false, true, true);
    assert_eq!(js_bundle_source(&none, true, true, "inline:x").unwrap(), BundleSource::Inline(b"x".to_vec()));
    assert_eq!(js_bundle_source(&none, true, true, "kv:b/k").unwrap_err(), "kv denied: missing the storage capability");
    assert_eq!(js_bundle_source(&all, false, true, "kv:b/k").unwrap_err(), "kv unavailable: no store configured on this node");
    assert_eq!(js_bundle_source(&all, true, true, "kv:b/k").unwrap(), BundleSource::Kv { bucket: "b".into(), key: "k".into() });
    assert_eq!(js_bundle_source(&none, true, true, "https://x").unwrap_err(), "spawn-from url denied: missing the network capability");
    assert_eq!(js_bundle_source(&all, true, false, "https://x").unwrap_err(), "url: bundle sources are not configured on this node");
    assert_eq!(js_bundle_source(&all, true, true, "url:https://x").unwrap(), BundleSource::Url("https://x".into()));
    assert!(js_bundle_source(&all, true, true, "ftp://x").unwrap_err().starts_with("unrecognised bundle source"));
}
