use std::sync::Arc;
use std::time::Duration;

use rusm::actor::Pid;
use rusm::auth::AuthVerdict;
use rusm::bridge_ref::bridge_ref_parts;
use rusm::guest::{down_pid, loop_step, next_event, writer_pid, ConnEvent, LoopAction, LoopEvent, LoopState};
use rusm::macro_text::args_tuple_text;
use rusm::headers::{merge_headers, names_match, set_header};
use rusm::lifecycle::{opening_messages, teardown_step, ConnectionLimit, Teardown, TeardownAction, TeardownEvent};
use rusm::routed::{reply_fields, authenticate, check_handler, dispatch_decision, Dispatch, reply_outcome, route_target, routed_http_server, ErrorReply, RoutedHttpServer};
use rusm::serve::{Connection, ConnectionInfo, Stream};
use rusm::source::{resolve_routed, route_component, HandlerEntry, Routed, Source};
use rusm::sse::SseEvent;
use rusm::sse_server::{routed_sse_server, sse_server, sse_server_js, sse_writer_step, stream_head, SseServer, SseWriterAction, SseWriterEvent};
use rusm::ws_codec::{CodecError, WsMessage};
use rusm::ws_server::{
    reader_step, routed_ws_server, switching_headers, writer_step, ws_server, ws_server_js,
    Handshake, ReaderAction, WriterAction, WriterEvent, WsOut, WsServer,
};

type Ws = WsServer<(), &'static str, u8, (), ()>;

fn s(x: &str) -> String {
    x.to_string()
}

#[test]
fn a_ws_listener_rejects_a_disallowed_origin() {
    let server: Ws = ws_server((), "echo", 1).with_allowed_origins(vec![s("https://ok.example")]);
    assert!(server.origin_allowed(Some("https://ok.example")));
    assert!(!server.origin_allowed(Some("https://evil.example")));
    assert!(!server.origin_allowed(None));
    assert_eq!(
        server.handshake(Some("https://evil.example"), true, Some("k"), None, None),
        Handshake::Refused(403)
    );
    let open: Ws = ws_server((), "echo", 1);
    assert!(open.origin_allowed(None));
    assert!(open.origin_allowed(Some("anything")));
}

#[test]
fn a_ws_listener_negotiates_a_subprotocol() {
    let server: Ws = ws_server((), "echo", 1).with_subprotocols(vec![s("chat.v2"), s("chat.v1")]);
    assert_eq!(server.negotiate_subprotocol(Some("chat.v1, chat.v2")), Some(s("chat.v1")));
    assert_eq!(server.negotiate_subprotocol(Some(" other ,  chat.v2 ")), Some(s("chat.v2")));
    assert_eq!(server.negotiate_subprotocol(Some("other")), None);
    assert_eq!(server.negotiate_subprotocol(None), None);
    let none: Ws = ws_server((), "echo", 1);
    assert_eq!(none.negotiate_subprotocol(Some("chat.v1")), None);
}

#[test]
fn the_handshake_refuses_in_order_and_otherwise_switches() {
    let server: Ws = ws_server((), "echo", 1)
        .with_subprotocols(vec![s("p")])
        .with_compression(true);
    assert_eq!(server.handshake(None, false, Some("k"), None, None), Handshake::Refused(404));
    assert_eq!(server.handshake(None, true, None, None, None), Handshake::Refused(426));
    match server.handshake(None, true, Some("dGhlIHNhbXBsZSBub25jZQ=="), Some("p"), Some("permessage-deflate")) {
        Handshake::Switch { accept, subprotocol, extensions } => {
            // The RFC 6455 example key and its accept value.
            assert_eq!(accept, "s3pPLMBiTxaQ9kYGzzhZRbK+xOo=");
            assert_eq!(subprotocol.as_deref(), Some("p"));
            assert_eq!(
                extensions.as_deref(),
                Some("permessage-deflate; client_no_context_takeover; server_no_context_takeover")
            );
        }
        other => panic!("expected a switch, got {other:?}"),
    }
    let plain: Ws = ws_server((), "echo", 1);
    match plain.handshake(None, true, Some("k"), Some("p"), Some("permessage-deflate")) {
        Handshake::Switch { subprotocol, extensions, .. } => {
            assert_eq!(subprotocol, None);
            assert_eq!(extensions, None);
        }
        other => panic!("expected a switch, got {other:?}"),
    }
}

#[test]
fn switching_headers_echo_what_was_negotiated() {
    assert_eq!(
        switching_headers(s("acc"), None, None),
        vec![
            (s("connection"), s("Upgrade")),
            (s("upgrade"), s("websocket")),
            (s("sec-websocket-accept"), s("acc")),
        ]
    );
    let all = switching_headers(s("acc"), Some(s("p")), Some(s("e")));
    assert_eq!(all.len(), 5);
    assert_eq!(all[3], (s("sec-websocket-protocol"), s("p")));
    assert_eq!(all[4], (s("sec-websocket-extensions"), s("e")));
}

#[test]
fn ws_builders_set_one_field_each() {
    let server: Ws = ws_server((), "echo", 1)
        .with_max_connections(Some(2))
        .with_max_message_size(Some(64))
        .with_keepalive(Duration::from_millis(250))
        .with_tls(Some(()));
    assert_eq!(server.max_connections(), Some(2));
    assert_eq!(server.max_message_size(), Some(64));
    assert_eq!(server.keepalive(), Duration::from_millis(250));
    assert_eq!(server.tls(), &Some(()));
    let fresh: Ws = ws_server((), "echo", 1);
    assert_eq!(fresh.keepalive(), Duration::from_secs(30));
    assert_eq!(fresh.max_connections(), None);
    assert!(matches!(fresh.source(), Source::Single { prepared, bundle: None, caps: 1 } if *prepared == "echo"));
    let js: Ws = ws_server_js((), "runner", b"bundle".to_vec(), 2);
    match js.source() {
        Source::Single { prepared, bundle: Some(b), caps } => {
            assert_eq!(*prepared, "runner");
            assert_eq!(b.as_slice(), b"bundle");
            assert_eq!(*caps, 2);
        }
        _ => panic!("a js server runs its bundle on the runner"),
    }
    let routed: Ws = routed_ws_server((), (), vec![(s("chat"), 3)]);
    assert!(matches!(routed.source(), Source::Routed { .. }));
    assert!(routed.source().resolve_single().is_none());
}

#[test]
fn the_writer_and_reader_steps() {
    assert_eq!(writer_step(WriterEvent::Mailbox(Some(vec![1]))), WriterAction::SendBinary(vec![1]));
    assert_eq!(writer_step(WriterEvent::Mailbox(None)), WriterAction::Stop);
    assert_eq!(writer_step(WriterEvent::Control(Some(WsOut::Text(vec![2])))), WriterAction::SendText(vec![2]));
    assert_eq!(writer_step(WriterEvent::Control(Some(WsOut::Pong(vec![3])))), WriterAction::SendPong(vec![3]));
    assert_eq!(
        writer_step(WriterEvent::Control(Some(WsOut::Close(1000, s("bye"))))),
        WriterAction::SendCloseThenStop(1000, s("bye"))
    );
    assert_eq!(writer_step(WriterEvent::Control(None)), WriterAction::Stop);
    assert_eq!(writer_step(WriterEvent::Idle), WriterAction::SendPing(Vec::new()));

    assert_eq!(reader_step::<CodecError>(Some(Ok(WsMessage::Text(vec![1])))), ReaderAction::Deliver(vec![1]));
    assert_eq!(reader_step::<CodecError>(Some(Ok(WsMessage::Binary(vec![2])))), ReaderAction::Deliver(vec![2]));
    assert_eq!(reader_step::<CodecError>(Some(Ok(WsMessage::Ping(vec![3])))), ReaderAction::Pong(vec![3]));
    assert_eq!(reader_step::<CodecError>(Some(Ok(WsMessage::Pong(vec![4])))), ReaderAction::Ignore);
    assert_eq!(reader_step::<CodecError>(Some(Ok(WsMessage::Close(None)))), ReaderAction::Stop);
    assert_eq!(reader_step(Some(Err(CodecError::ReservedBits))), ReaderAction::Stop);
    assert_eq!(reader_step::<CodecError>(None), ReaderAction::Stop);
}

#[test]
fn a_routed_sse_listener_404s_an_unmatched_path() {
    let head = stream_head(false, &vec![(s("x-extra"), s("1"))]);
    assert_eq!(head.status, 404);
    assert_eq!(head.headers, vec![(s("content-type"), s("text/plain; charset=utf-8"))]);
    assert_eq!(head.body, b"not found");
    let open = stream_head(true, &Vec::new());
    assert_eq!(open.status, 200);
    assert_eq!(
        open.headers,
        vec![(s("content-type"), s("text/event-stream")), (s("cache-control"), s("no-cache"))]
    );
    assert!(open.body.is_empty());
}

#[test]
fn the_sse_writer_frames_events_and_heartbeats() {
    assert_eq!(
        sse_writer_step(SseWriterEvent::Message(b"a\nb".to_vec())),
        SseWriterAction::Send(b"data: a\ndata: b\n\n".to_vec())
    );
    let rich = SseEvent { data: b"x".to_vec(), event: Some(s("tick")), id: Some(s("7\n")), retry: Some(1500) };
    assert_eq!(
        sse_writer_step(SseWriterEvent::Rich(Some(rich))),
        SseWriterAction::Send(b"id: 7\nevent: tick\nretry: 1500\ndata: x\n\n".to_vec())
    );
    assert_eq!(sse_writer_step(SseWriterEvent::Idle), SseWriterAction::Send(b": ping\n\n".to_vec()));
    assert_eq!(sse_writer_step(SseWriterEvent::ClientGone), SseWriterAction::Stop);
    assert_eq!(sse_writer_step(SseWriterEvent::HandlerDown), SseWriterAction::Stop);
    assert_eq!(sse_writer_step(SseWriterEvent::Rich(None)), SseWriterAction::Stop);
    assert_eq!(sse_writer_step(SseWriterEvent::OtherSignal), SseWriterAction::Ignore);
}

#[test]
fn sse_servers_keep_their_source_and_headers() {
    let server: SseServer<(), &str, u8, ()> = sse_server((), "feed", 1).with_headers(vec![(s("x-a"), s("1"))]);
    assert_eq!(server.headers(), &vec![(s("x-a"), s("1"))]);
    let resolved = server.source().resolve_single().unwrap();
    assert_eq!(resolved.prepared, "feed");
    assert_eq!(resolved.caps, 1);
    assert!(resolved.params.is_empty() && resolved.bundle.is_none());
    let routed: SseServer<(), &str, u8, ()> = routed_sse_server((), (), vec![(s("feed"), 9)]);
    assert!(routed.headers().is_empty());
    match routed.source() {
        Source::Routed { caps, .. } => assert_eq!(caps, &vec![(s("feed"), 9)]),
        Source::Single { .. } => panic!("a routed listener resolves each connection"),
    }
    let js: SseServer<(), &str, u8, ()> = sse_server_js((), "runner", b"js".to_vec(), 4);
    let r = js.source().resolve_single().unwrap();
    assert_eq!(r.bundle.as_deref().map(|b| b.as_slice()), Some(&b"js"[..]));
}

#[test]
fn a_routed_connection_needs_a_registered_fixed_component_with_a_profile() {
    let caps = vec![(s("chat"), 5u8)];
    let found = |name: &str| Routed::Found { component: s(name), action: s("open"), params: vec![(s("room"), s("7"))] };
    let entry = |p: Option<&'static str>| Some(HandlerEntry { prepared: p, bundle: Some(Arc::new(b"js".to_vec())) });

    let r = resolve_routed(found("chat"), entry(Some("chat-component")), &caps).unwrap();
    assert_eq!(r.prepared, "chat-component");
    assert_eq!(r.caps, 5);
    assert_eq!(r.params, vec![(s("room"), s("7"))]);
    assert_eq!(r.bundle.as_deref().map(|b| b.as_slice()), Some(&b"js"[..]));

    assert!(resolve_routed(found("chat"), None::<HandlerEntry<&str>>, &caps).is_none());
    assert!(resolve_routed(found("chat"), entry(None), &caps).is_none());
    assert!(resolve_routed(found("other"), entry(Some("x")), &caps).is_none());
    assert!(resolve_routed(Routed::NotFound, entry(Some("x")), &caps).is_none());
    assert!(resolve_routed(Routed::MethodNotAllowed, entry(Some("x")), &caps).is_none());
    assert_eq!(route_component(&found("chat")), Some("chat"));
    assert_eq!(route_component(&Routed::NotFound), None);
}

#[test]
fn dispatch_answers_every_failure_with_a_status() {
    let deny = authenticate(Some(AuthVerdict::Deny)).err().unwrap();
    assert_eq!(deny, ErrorReply { status: 401, message: s("unauthorized") });
    let anon = authenticate(None).ok().unwrap();
    assert!(anon.is_empty());
    let seeded = authenticate(Some(AuthVerdict::Allow(vec![(s("app_id"), s("acme"))]))).ok().unwrap();
    assert_eq!(seeded.get("app_id"), Some("acme"));

    assert_eq!(route_target(Routed::NotFound).err().unwrap(), ErrorReply { status: 404, message: s("not found") });
    assert_eq!(
        route_target(Routed::MethodNotAllowed).err().unwrap(),
        ErrorReply { status: 405, message: s("method not allowed") }
    );
    let (c, a, p) = route_target(Routed::Found { component: s("demo"), action: s("hello"), params: vec![] }).ok().unwrap();
    assert_eq!((c.as_str(), a.as_str(), p.len()), ("demo", "hello", 0));

    let caps = vec![(s("demo"), 1u8)];
    let entry = |p: Option<&'static str>| Some(HandlerEntry { prepared: p, bundle: None });
    assert_eq!(
        check_handler("demo", None::<HandlerEntry<&str>>, &caps, Some(vec![])).err().unwrap(),
        ErrorReply { status: 500, message: s("route names unregistered component `demo`") }
    );
    assert_eq!(
        check_handler("nocaps", entry(Some("x")), &caps, Some(vec![])).err().unwrap(),
        ErrorReply { status: 500, message: s("no capability profile for `nocaps`") }
    );
    assert_eq!(
        check_handler("demo", entry(Some("x")), &caps, None).err().unwrap(),
        ErrorReply { status: 400, message: s("could not read body") }
    );
    assert_eq!(
        check_handler("demo", entry(None), &caps, Some(vec![])).err().unwrap(),
        ErrorReply { status: 500, message: s("`demo` is a dynamic template, not an HTTP handler") }
    );
    let ok = check_handler("demo", entry(Some("x")), &caps, Some(b"ping".to_vec())).ok().unwrap();
    assert_eq!((ok.prepared, ok.caps, ok.body), ("x", 1, b"ping".to_vec()));

    assert_eq!(reply_outcome(Some(Ok::<u16, String>(200))).ok(), Some(200));
    assert_eq!(
        reply_outcome(Some(Err::<u16, String>(s("boom")))).err().unwrap(),
        ErrorReply { status: 500, message: s("boom") }
    );
    assert_eq!(
        reply_outcome(None::<Result<u16, String>>).err().unwrap(),
        ErrorReply { status: 502, message: s("handler did not reply") }
    );
}

#[test]
fn routed_http_builders_set_one_field_each() {
    let server: RoutedHttpServer<(), (), u8, (), ()> = routed_http_server((), (), vec![(s("demo"), 1)]);
    assert!(!server.compression() && server.max_connections().is_none());
    assert!(server.tls().is_none() && server.auth().is_none() && server.headers().is_empty());
    let server = server
        .with_compression(true)
        .with_max_connections(Some(8))
        .with_headers(vec![(s("x"), s("y"))])
        .with_tls(Some(()))
        .with_auth(Some(()));
    assert!(server.compression());
    assert_eq!(server.max_connections(), Some(8));
    assert_eq!(server.headers(), &vec![(s("x"), s("y"))]);
    assert!(server.tls().is_some() && server.auth().is_some());
    assert_eq!(server.caps(), &vec![(s("demo"), 1)]);
}

#[test]
fn rs_ws_connection_loop_skips_a_stray_down() {
    let writer = writer_pid(b"42");
    assert_eq!(writer, Pid(42));
    assert_eq!(next_event(writer, br#"{"__down":"999999"}"#.to_vec()), ConnEvent::Message(br#"{"__down":"999999"}"#.to_vec()));
    assert_eq!(next_event(writer, b"frame".to_vec()), ConnEvent::Message(b"frame".to_vec()));
    assert_eq!(next_event(writer, br#"{"__down":"42","reason":"normal"}"#.to_vec()), ConnEvent::Closed);
}

#[test]
fn monitor_notices_are_recognised_by_prefix_and_pid() {
    assert_eq!(down_pid(br#"{"__down":"7"}"#), Some(Pid(7)));
    assert_eq!(down_pid(br#"{"__down":"7","reason":"killed"}"#), Some(Pid(7)));
    assert_eq!(down_pid(br#"{ "__down":"7"}"#), None); // no prefix, never parsed
    assert_eq!(down_pid(br#"{"__down":7}"#), None); // not a string
    assert_eq!(down_pid(br#"{"__down":"x"}"#), None);
    assert_eq!(down_pid(br#"{"__down":"7""#), None); // not JSON
    assert_eq!(down_pid(b"hello"), None);
    assert_eq!(writer_pid(b" 17 \n"), Pid(17));
    assert_eq!(writer_pid(b"abc"), Pid(0));
    assert_eq!(writer_pid(&[0xff, 0x31]), Pid(0));
}

#[test]
fn connection_method_is_uppercased() {
    let info = ConnectionInfo::new(s("get"), s("/"), s(""), vec![], vec![], s(""), None);
    assert_eq!(info.method(), "GET");
    let info = ConnectionInfo::new(s("Patch"), s("/"), s(""), vec![], vec![], s(""), None);
    assert_eq!(info.method(), "PATCH");
}

#[test]
fn connection_views_report_their_context() {
    let info = ConnectionInfo::new(
        s("GET"),
        s("/rooms/7"),
        s("a=1"),
        vec![(s("room"), s("7"))],
        vec![(s("Origin"), s("https://x")), (s("origin"), s("https://y"))],
        s("127.0.0.1:5000"),
        Some(s("chat")),
    );
    assert_eq!(info.param("room"), Some("7"));
    assert_eq!(info.header("ORIGIN"), Some("https://x"));
    assert_eq!(info.subprotocol(), Some("chat"));
    let conn = Connection::new(Pid(3), info.clone());
    assert_eq!(conn.writer(), Pid(3));
    assert_eq!(conn.info().path(), "/rooms/7");
    let mut stream = Stream::new(Pid(4), info);
    assert!(!stream.is_done());
    stream.close();
    assert!(stream.is_done());
    assert_eq!(stream.writer(), Pid(4));
    assert_eq!(stream.info().query(), "a=1");
}

#[test]
fn a_denied_request_is_401_whatever_its_route() {
    let caps = vec![(s("demo"), 1u8)];
    let entry = || Some(HandlerEntry { prepared: Some("demo-component"), bundle: None });
    for routed in [
        Routed::NotFound,
        Routed::MethodNotAllowed,
        Routed::Found { component: s("demo"), action: s("hello"), params: vec![] },
    ] {
        match dispatch_decision(Some(AuthVerdict::Deny), routed, entry(), &caps, Some(vec![])) {
            Dispatch::Answer(e) => assert_eq!(e, ErrorReply { status: 401, message: s("unauthorized") }),
            Dispatch::Spawn { .. } => panic!("a denied request never spawns a handler"),
        }
    }
    match dispatch_decision(None, Routed::NotFound, entry(), &caps, Some(vec![])) {
        Dispatch::Answer(e) => assert_eq!(e.status, 404),
        Dispatch::Spawn { .. } => panic!("an unrouted request never spawns a handler"),
    }
    let found = Routed::Found { component: s("demo"), action: s("hello"), params: vec![(s("name"), s("alice"))] };
    match dispatch_decision(Some(AuthVerdict::Allow(vec![(s("app_id"), s("acme"))])), found, entry(), &caps, Some(b"hi".to_vec())) {
        Dispatch::Spawn { context, action, params, handler } => {
            assert_eq!(context.get("app_id"), Some("acme"));
            assert_eq!(action, "hello");
            assert_eq!(params, vec![(s("name"), s("alice"))]);
            assert_eq!((handler.prepared, handler.caps, handler.body), ("demo-component", 1, b"hi".to_vec()));
        }
        Dispatch::Answer(e) => panic!("expected a spawn, got {e:?}"),
    }
}

#[test]
fn an_sse_listener_applies_serve_headers() {
    let server: SseServer<(), &'static str, u8, ()> =
        sse_server((), "feed", 1).with_headers(vec![(s("access-control-allow-origin"), s("*"))]);
    let head = server.stream_head(true);
    assert_eq!(head.status, 200);
    assert_eq!(
        head.headers,
        vec![
            (s("content-type"), s("text/event-stream")),
            (s("cache-control"), s("no-cache")),
            (s("access-control-allow-origin"), s("*")),
        ]
    );
    // A later list replaces an earlier one.
    let server = server.with_headers(vec![(s("x-a"), s("1"))]);
    let head = server.stream_head(true);
    assert!(head.headers.contains(&(s("x-a"), s("1"))));
    assert!(!head.headers.iter().any(|(k, _)| k == "access-control-allow-origin"));
    // A refused path gets no policy headers.
    assert_eq!(server.stream_head(false).headers, vec![(s("content-type"), s("text/plain; charset=utf-8"))]);
}

#[test]
fn listener_headers_replace_defaults_of_the_same_name() {
    let merged = merge_headers(
        vec![(s("Content-Type"), s("text/plain")), (s("x-keep"), s("k"))],
        &vec![(s("content-type"), s("application/json")), (s("x-new"), s("1")), (s("X-NEW"), s("2"))],
    );
    assert_eq!(
        merged,
        vec![(s("x-keep"), s("k")), (s("content-type"), s("application/json")), (s("X-NEW"), s("2"))]
    );
    assert!(names_match("Cache-Control", "cache-control"));
    assert!(!names_match("cache-control", "cache-contro"));
    assert_eq!(set_header(&vec![], "a", "b"), vec![(s("a"), s("b"))]);
}

#[test]
fn a_routed_listener_merges_its_headers_into_replies() {
    let server: RoutedHttpServer<(), (), u8, (), ()> = routed_http_server((), (), vec![])
        .with_headers(vec![(s("access-control-allow-origin"), s("*"))]);
    let out = server.reply_headers(vec![(s("content-type"), s("text/plain"))]);
    assert_eq!(out, vec![(s("content-type"), s("text/plain")), (s("access-control-allow-origin"), s("*"))]);
}

#[test]
fn a_ws_listener_caps_concurrent_connections() {
    let server: Ws = ws_server((), "echo", 1).with_max_connections(Some(1));
    let mut limit = server.connection_limit();
    assert!(limit.try_admit());
    assert_eq!(limit.live(), 1);
    assert!(!limit.try_admit(), "a second live connection is dropped");
    limit.release();
    assert!(limit.try_admit(), "after the first closes a new one is admitted");
    let open: Ws = ws_server((), "echo", 1);
    let mut unlimited = open.connection_limit();
    for _ in 0..1000 {
        assert!(unlimited.try_admit());
    }
    assert_eq!(unlimited.live(), 0);
    let mut zero = ConnectionLimit::new(Some(0));
    assert!(!zero.try_admit());
}

#[test]
fn a_handler_gets_its_bundle_then_the_writer_pid() {
    let bundle = b"export default {}".to_vec();
    assert_eq!(opening_messages(Some(&bundle), Pid(42)), vec![bundle.clone(), b"42".to_vec()]);
    assert_eq!(opening_messages(None, Pid(7)), vec![b"7".to_vec()]);
    assert_eq!(writer_pid(&opening_messages(None, Pid(1234))[0]), Pid(1234));
}

#[test]
fn teardown_kills_the_writer_first_and_reaps_a_lingering_handler() {
    let (st, a) = teardown_step(Teardown::Open, TeardownEvent::ConnectionEnded);
    assert_eq!((st, a), (Teardown::Draining, TeardownAction::KillWriter));
    assert_eq!(teardown_step(st, TeardownEvent::HandlerExited), (Teardown::Done, TeardownAction::Nothing));
    assert_eq!(teardown_step(st, TeardownEvent::GraceElapsed), (Teardown::Done, TeardownAction::KillHandler));
    assert_eq!(
        teardown_step(Teardown::Done, TeardownEvent::GraceElapsed),
        (Teardown::Done, TeardownAction::Nothing)
    );
    assert_eq!(
        teardown_step(Teardown::Open, TeardownEvent::GraceElapsed),
        (Teardown::Open, TeardownAction::Nothing)
    );
}

#[test]
fn bridge_references_split_into_namespace_package_and_interface() {
    assert_eq!(
        bridge_ref_parts("acme:billing/ledger@0.1.0"),
        Some((s("acme"), s("billing"), s("ledger")))
    );
    assert_eq!(bridge_ref_parts("my-ns:pkg/iface"), Some((s("my-ns"), s("pkg"), s("iface"))));
    assert_eq!(bridge_ref_parts("acme:billing@0.1.0/ledger"), None);
    assert_eq!(bridge_ref_parts("billing/ledger"), None);
    assert_eq!(bridge_ref_parts("acme:billing"), None);
}

#[test]
fn a_guest_serve_loop_closes_exactly_once() {
    let w = Pid(9);
    let (st, a) = loop_step(LoopState::Running, w, LoopEvent::Received(b"hi".to_vec()));
    assert_eq!((st, a), (LoopState::Running, LoopAction::Message(b"hi".to_vec())));
    let stray = br#"{"__down":"8"}"#.to_vec();
    assert_eq!(
        loop_step(LoopState::Running, w, LoopEvent::Received(stray.clone())),
        (LoopState::Running, LoopAction::Message(stray))
    );
    let (st, a) = loop_step(LoopState::Running, w, LoopEvent::Received(br#"{"__down":"9"}"#.to_vec()));
    assert_eq!((st, a), (LoopState::Finished, LoopAction::Close));
    assert_eq!(loop_step(st, w, LoopEvent::StreamClosed), (LoopState::Finished, LoopAction::Stop));
    assert_eq!(
        loop_step(LoopState::Running, w, LoopEvent::StreamClosed),
        (LoopState::Finished, LoopAction::Close)
    );
}

#[test]
fn a_reply_gives_its_error_or_its_response() {
    assert_eq!(reply_fields(Some(7u16), None), Ok(7));
    assert_eq!(reply_fields(Some(7u16), Some(s("boom"))), Err(s("boom")));
    assert_eq!(reply_fields::<u16>(None, None), Err(s("reply missing `ok`")));
}

#[test]
fn a_client_sends_its_arguments_as_a_tuple() {
    assert_eq!(args_tuple_text(&vec![]), "&[(); 0]");
    assert_eq!(args_tuple_text(&vec![s("a")]), "&(a,)");
    assert_eq!(args_tuple_text(&vec![s("a"), s("b"), s("c")]), "&(a, b, c)");
}
