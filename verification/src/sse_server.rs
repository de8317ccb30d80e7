//! Serving Server-Sent Events with a component process per connection: the
//! listener's configuration, the answer that opens (or refuses) a stream, and the
//! steps of the per-connection writer that owns the response body.

use vstd::prelude::*;
use vstd::utf8::*;
use std::sync::Arc;
use crate::headers::{merge_headers, merged};
use crate::source::Source;
use crate::sse::{data_event, rich_event, sse_data_frame, sse_event_frame, SseEvent};

verus! {

/// The keep-alive comment the writer sends when no event has flowed for a while:
/// `: ping`, then the blank line.
pub open spec fn heartbeat() -> Seq<u8> {
    seq![58u8, 32u8, 112u8, 105u8, 110u8, 103u8, 10u8, 10u8]
}

/// The idle interval, in seconds, after which the writer sends a heartbeat.
pub const SSE_HEARTBEAT_SECS: u64 = 15;

/// An SSE listener's configuration: the engine's spawner `S`, where each
/// connection's handler comes from, and the response headers merged into every
/// stream's head.
#[derive(Clone)]
pub struct SseServer<S, P, C, R> {
    source: Source<P, C, R>,
    spawner: S,
    headers: Vec<(String, String)>,
}

/// An SSE listener's configuration as a value.
pub struct SseServerView<S, P, C, R> {
    pub source: Source<P, C, R>,
    pub spawner: S,
    pub headers: Seq<(Seq<char>, Seq<char>)>,
}

impl<S, P, C, R> View for SseServer<S, P, C, R> {
    type V = SseServerView<S, P, C, R>;

    closed spec fn view(&self) -> SseServerView<S, P, C, R> {
        SseServerView {
            source: self.source,
            spawner: self.spawner,
            headers: crate::text::pairs_view(self.headers@),
        }
    }
}

fn with_source<S, P, C, R>(spawner: S, source: Source<P, C, R>) -> (s: SseServer<S, P, C, R>)
    ensures
        s@ == (SseServerView { source, spawner, headers: Seq::empty() }),
{
    let s = SseServer { source, spawner, headers: Vec::new() };
    assert(s@.headers =~= Seq::<(Seq<char>, Seq<char>)>::empty());
    s
}

/// An SSE server that runs `prepared` as the handler process for every connection,
/// under `caps`.
pub fn sse_server<S, P, C, R>(spawner: S, prepared: P, caps: C) -> (s: SseServer<S, P, C, R>)
    ensures
        s@ == (SseServerView::<S, P, C, R> {
            source: Source::Single { prepared, bundle: None, caps },
            spawner,
            headers: Seq::empty(),
        }),
{
    with_source(spawner, Source::Single { prepared, bundle: None, caps })
}

/// An SSE server whose per-connection handler is a JS bundle run on the js-runner
/// `runner`: the bundle is the runner's first message.
pub fn sse_server_js<S, P, C, R>(spawner: S, runner: P, bundle: Vec<u8>, caps: C) -> (s: SseServer<
    S,
    P,
    C,
    R,
>)
    ensures
        s@ == (SseServerView::<S, P, C, R> {
            source: Source::Single { prepared: runner, bundle: Some(Arc::new(bundle)), caps },
            spawner,
            headers: Seq::empty(),
        }),
{
    with_source(spawner, Source::Single { prepared: runner, bundle: Some(Arc::new(bundle)), caps })
}

/// A routed SSE server: each connection's path resolves through `resolve` to a
/// registered handler component, spawned under its profile in `caps`.
pub fn routed_sse_server<S, P, C, R>(spawner: S, resolve: R, caps: Vec<(String, C)>) -> (s: SseServer<
    S,
    P,
    C,
    R,
>)
    ensures
        s@ == (SseServerView::<S, P, C, R> {
            source: Source::Routed { resolve, caps },
            spawner,
            headers: Seq::empty(),
        }),
{
    with_source(spawner, Source::Routed { resolve, caps })
}

impl<S, P, C, R> SseServer<S, P, C, R> {
    /// Add the listener's response headers (merged into each stream's head).
    pub fn with_headers(self, headers: Vec<(String, String)>) -> (s: Self)
        ensures
            s@ == (SseServerView { headers: crate::text::pairs_view(headers@), ..self@ }),
    {
        SseServer { headers, ..self }
    }

    /// Where each connection's handler comes from.
    pub fn source(&self) -> (r: &Source<P, C, R>)
        ensures
            *r == self@.source,
    {
        &self.source
    }

    /// The engine's spawner.
    pub fn spawner(&self) -> (r: &S)
        ensures
            *r == self@.spawner,
    {
        &self.spawner
    }

    /// The answer to a connection: the opening head with this listener's headers merged
    /// in when a handler was `resolved`, else the `404`.
    pub fn stream_head(&self, resolved: bool) -> (r: StreamHead)
        ensures
            r.status == stream_head_spec(resolved).0,
            r.body@ == stream_head_spec(resolved).2,
            crate::text::pairs_view(r.headers@) == if resolved {
                merged(stream_head_spec(true).1, self@.headers)
            } else {
                stream_head_spec(false).1
            },
    {
        stream_head(resolved, &self.headers)
    }

    /// The response headers merged into every stream's head.
    pub fn headers(&self) -> (r: &Vec<(String, String)>)
        ensures
            crate::text::pairs_view(r@) == self@.headers,
    {
        &self.headers
    }
}

/// The head of the answer to an SSE request.
#[derive(Debug, PartialEq, Eq)]
pub struct StreamHead {
    pub status: u16,
    pub headers: Vec<(String, String)>,
    /// The whole body of a refusal; an opened stream's body is the writer's.
    pub body: Vec<u8>,
}

/// The answer that opens an SSE stream when a handler was resolved — `200`,
/// `text/event-stream`, `no-cache` — or refuses it with a plain-text `404 not found`
/// when the path has no handler.
pub open spec fn stream_head_spec(resolved: bool) -> (u16, Seq<(Seq<char>, Seq<char>)>, Seq<u8>) {
    if resolved {
        (
            200,
            seq![("content-type"@, "text/event-stream"@), ("cache-control"@, "no-cache"@)],
            Seq::empty(),
        )
    } else {
        (
            404,
            seq![("content-type"@, "text/plain; charset=utf-8"@)],
            seq![110u8, 111u8, 116u8, 32u8, 102u8, 111u8, 117u8, 110u8, 100u8],
        )
    }
}

/// The head that opens a stream, with the listener's `policy` headers merged over the
/// defaults (each replaces a default of the same name), or the `404` for a path without
/// a handler (no stream opens, so no policy is applied).
pub fn stream_head(resolved: bool, policy: &Vec<(String, String)>) -> (r: StreamHead)
    ensures
        r.status == stream_head_spec(resolved).0,
        r.body@ == stream_head_spec(resolved).2,
        crate::text::pairs_view(r.headers@) == if resolved {
            merged(stream_head_spec(true).1, crate::text::pairs_view(policy@))
        } else {
            stream_head_spec(false).1
        },
{
    let mut headers: Vec<(String, String)> = Vec::new();
    if resolved {
        headers.push((String::from_str("content-type"), String::from_str("text/event-stream")));
        headers.push((String::from_str("cache-control"), String::from_str("no-cache")));
        assert(crate::text::pairs_view(headers@) =~= stream_head_spec(true).1);
        let headers = merge_headers(headers, policy);
        let r = StreamHead { status: 200, headers, body: Vec::new() };
        assert(r.body@ =~= Seq::<u8>::empty());
        r
    } else {
        headers.push(
            (String::from_str("content-type"), String::from_str("text/plain; charset=utf-8")),
        );
        let body: Vec<u8> = vec![110u8, 111u8, 116u8, 32u8, 102u8, 111u8, 117u8, 110u8, 100u8];
        let r = StreamHead { status: 404, headers, body };
        assert(crate::text::pairs_view(r.headers@) =~= stream_head_spec(false).1);
        assert(r.body@ =~= stream_head_spec(false).2);
        r
    }
}

/// What a stream's writer woke up for.
pub enum SseWriterEvent {
    /// The client went away (the body was dropped).
    ClientGone,
    /// A plain message from the handler: its payload, framed as `data:` fields.
    Message(Vec<u8>),
    /// The handler exited (closed its stream or crashed).
    HandlerDown,
    /// Some other signal in the mailbox.
    OtherSignal,
    /// A rich event from the handler, or `None` when the handler is gone.
    Rich(Option<SseEvent>),
    /// The heartbeat interval passed with no event.
    Idle,
}

/// What a stream's writer does next.
#[derive(Debug, PartialEq, Eq)]
pub enum SseWriterAction {
    /// Send these bytes on the body; end if the client is gone.
    Send(Vec<u8>),
    /// Nothing to send.
    Ignore,
    /// End the body.
    Stop,
}

/// The view of an optional text as UTF-8 bytes.
pub open spec fn opt_bytes(o: Option<String>) -> Option<Seq<u8>> {
    match o {
        Some(s) => Some(encode_utf8(s@)),
        None => None,
    }
}

/// One step of a stream's writer: a plain message is sent as one `data:` event, a rich
/// event with its `id:`/`event:`/`retry:` lines, an idle interval as a heartbeat; the
/// client leaving, the handler exiting, or its event channel closing ends the body.
pub fn sse_writer_step(event: SseWriterEvent) -> (a: SseWriterAction)
    ensures
        match event {
            SseWriterEvent::ClientGone => a == SseWriterAction::Stop,
            SseWriterEvent::Message(p) => a matches SseWriterAction::Send(b) && b@ == data_event(p@),
            SseWriterEvent::HandlerDown => a == SseWriterAction::Stop,
            SseWriterEvent::OtherSignal => a == SseWriterAction::Ignore,
            SseWriterEvent::Rich(Some(e)) => a matches SseWriterAction::Send(b) && b@ == rich_event(
                e.data@,
                opt_bytes(e.event),
                opt_bytes(e.id),
                e.retry,
            ),
            SseWriterEvent::Rich(None) => a == SseWriterAction::Stop,
            SseWriterEvent::Idle => a matches SseWriterAction::Send(b) && b@ == heartbeat(),
        },
{
    match event {
        SseWriterEvent::ClientGone => SseWriterAction::Stop,
        SseWriterEvent::Message(p) => SseWriterAction::Send(sse_data_frame(p.as_slice())),
        SseWriterEvent::HandlerDown => SseWriterAction::Stop,
        SseWriterEvent::OtherSignal => SseWriterAction::Ignore,
        SseWriterEvent::Rich(Some(e)) => SseWriterAction::Send(sse_event_frame(&e)),
        SseWriterEvent::Rich(None) => SseWriterAction::Stop,
        SseWriterEvent::Idle => {
            let b: Vec<u8> = vec![58u8, 32u8, 112u8, 105u8, 110u8, 103u8, 10u8, 10u8];
            assert(b@ =~= heartbeat());
            SseWriterAction::Send(b)
        },
    }
}

} // verus!
