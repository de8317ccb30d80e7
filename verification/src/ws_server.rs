//! Serving WebSockets with a component process per connection: the listener's
//! configuration, the handshake decision (origin, route, key, subprotocol,
//! permessage-deflate), and the steps of the per-connection writer and reader. The
//! engine's spawner `S`, components `P`, capability profiles `C`, resolver `R` and TLS
//! acceptor `T` are carried through; the I/O around these decisions is the caller's.

use vstd::prelude::*;
use vstd::string::*;
use std::sync::Arc;
use crate::outside::handshake::{accept_key_of, derive_accept_key};
use crate::outside::time::{duration_from_secs, secs_duration};
use crate::lifecycle::ConnectionLimit;
use crate::source::Source;
use crate::text::{chars_of, lemma_split_piece, piece_end, range_eq, split, trim, trim_bounds};
use crate::ws_codec::{deflate_response, negotiate_permessage_deflate, offers_permessage_deflate, WsMessage};

verus! {

/// The default idle keep-alive interval, in seconds: a connection with no frame for
/// this long gets a server ping.
pub const WS_KEEPALIVE_SECS: u64 = 30;

/// A WebSocket listener's configuration.
pub struct WsServer<S, P, C, R, T> {
    source: Source<P, C, R>,
    spawner: S,
    keepalive: core::time::Duration,
    subprotocols: Vec<String>,
    max_connections: Option<usize>,
    max_message_size: Option<usize>,
    allowed_origins: Vec<String>,
    compress: bool,
    tls: Option<T>,
}

/// A WebSocket listener's configuration as a value.
pub struct WsServerView<S, P, C, R, T> {
    pub source: Source<P, C, R>,
    pub spawner: S,
    pub keepalive: core::time::Duration,
    pub subprotocols: Seq<Seq<char>>,
    pub max_connections: Option<usize>,
    pub max_message_size: Option<usize>,
    pub allowed_origins: Seq<Seq<char>>,
    pub compress: bool,
    pub tls: Option<T>,
}

/// The texts of a list of strings.
pub open spec fn texts(v: Seq<String>) -> Seq<Seq<char>> {
    v.map_values(|s: String| s@)
}

impl<S, P, C, R, T> View for WsServer<S, P, C, R, T> {
    type V = WsServerView<S, P, C, R, T>;

    closed spec fn view(&self) -> WsServerView<S, P, C, R, T> {
        WsServerView {
            source: self.source,
            spawner: self.spawner,
            keepalive: self.keepalive,
            subprotocols: texts(self.subprotocols@),
            max_connections: self.max_connections,
            max_message_size: self.max_message_size,
            allowed_origins: texts(self.allowed_origins@),
            compress: self.compress,
            tls: self.tls,
        }
    }
}

/// A listener with the given handler source and the defaults: a 30 s keep-alive, no
/// subprotocols, no caps, any origin, no compression, plain `ws`.
pub open spec fn default_ws_view<S, P, C, R, T>(spawner: S, source: Source<P, C, R>) -> WsServerView<
    S,
    P,
    C,
    R,
    T,
> {
    WsServerView {
        source,
        spawner,
        keepalive: secs_duration(WS_KEEPALIVE_SECS),
        subprotocols: Seq::empty(),
        max_connections: None,
        max_message_size: None,
        allowed_origins: Seq::empty(),
        compress: false,
        tls: None,
    }
}

fn with_source<S, P, C, R, T>(spawner: S, source: Source<P, C, R>) -> (s: WsServer<S, P, C, R, T>)
    ensures
        s@ == default_ws_view::<S, P, C, R, T>(spawner, source),
{
    let s = WsServer {
        source,
        spawner,
        keepalive: duration_from_secs(WS_KEEPALIVE_SECS),
        subprotocols: Vec::new(),
        max_connections: None,
        max_message_size: None,
        allowed_origins: Vec::new(),
        compress: false,
        tls: None,
    };
    assert(s@.subprotocols =~= Seq::<Seq<char>>::empty());
    assert(s@.allowed_origins =~= Seq::<Seq<char>>::empty());
    s
}

/// A WebSocket server that runs `prepared` as the handler process for every
/// connection, under `caps`.
pub fn ws_server<S, P, C, R, T>(spawner: S, prepared: P, caps: C) -> (s: WsServer<S, P, C, R, T>)
    ensures
        s@ == default_ws_view::<S, P, C, R, T>(
            spawner,
            Source::Single { prepared, bundle: None, caps },
        ),
{
    with_source(spawner, Source::Single { prepared, bundle: None, caps })
}

/// A WebSocket server whose per-connection handler is a JS bundle run on the
/// js-runner `runner`: the bundle is the runner's first message.
pub fn ws_server_js<S, P, C, R, T>(spawner: S, runner: P, bundle: Vec<u8>, caps: C) -> (s: WsServer<
    S,
    P,
    C,
    R,
    T,
>)
    ensures
        s@ == default_ws_view::<S, P, C, R, T>(
            spawner,
            Source::Single { prepared: runner, bundle: Some(Arc::new(bundle)), caps },
        ),
{
    with_source(spawner, Source::Single { prepared: runner, bundle: Some(Arc::new(bundle)), caps })
}

/// A routed WebSocket server: each connection's path resolves through `resolve` to a
/// registered handler component, run under its profile in `caps`.
pub fn routed_ws_server<S, P, C, R, T>(spawner: S, resolve: R, caps: Vec<(String, C)>) -> (s: WsServer<
    S,
    P,
    C,
    R,
    T,
>)
    ensures
        s@ == default_ws_view::<S, P, C, R, T>(spawner, Source::Routed { resolve, caps }),
{
    with_source(spawner, Source::Routed { resolve, caps })
}

/// Whether an `Origin` may open a connection: any may when no allow-list is set;
/// otherwise only a listed one, and a request without an `Origin` may not.
pub open spec fn origin_ok(allowed: Seq<Seq<char>>, origin: Option<Seq<char>>) -> bool {
    allowed.len() == 0 || (origin matches Some(o) && allowed.contains(o))
}

/// The first offered subprotocol, trimmed, that the listener supports.
pub open spec fn first_supported(pieces: Seq<Seq<char>>, supported: Seq<Seq<char>>) -> Option<
    Seq<char>,
>
    decreases pieces.len(),
{
    if pieces.len() == 0 {
        None
    } else {
        match first_supported(pieces.drop_last(), supported) {
            Some(v) => Some(v),
            None => if supported.contains(trim(pieces.last())) {
                Some(trim(pieces.last()))
            } else {
                None
            },
        }
    }
}

/// The negotiated subprotocol: the first one the client offers (comma-separated, each
/// trimmed) that the listener supports; none when the listener supports none or the
/// client offers none.
pub open spec fn negotiated(supported: Seq<Seq<char>>, offered: Option<Seq<char>>) -> Option<
    Seq<char>,
> {
    if supported.len() == 0 {
        None
    } else {
        match offered {
            None => None,
            Some(o) => first_supported(split(o, ','), supported),
        }
    }
}

/// The answer to a WebSocket handshake.
#[derive(Debug, PartialEq, Eq)]
pub enum Handshake {
    /// Refused before any upgrade, with this status (`403`, `404` or `426`).
    Refused(u16),
    /// `101 Switching Protocols`, echoing the accept key, the negotiated subprotocol
    /// and the negotiated extension.
    Switch { accept: String, subprotocol: Option<String>, extensions: Option<String> },
}

/// The view of an optional text.
pub open spec fn opt_view(o: Option<&str>) -> Option<Seq<char>> {
    match o {
        Some(s) => Some(s@),
        None => None,
    }
}

/// The view of an optional owned text.
pub open spec fn opt_string_view(o: Option<String>) -> Option<Seq<char>> {
    match o {
        Some(s) => Some(s@),
        None => None,
    }
}

impl<S, P, C, R, T> WsServer<S, P, C, R, T> {
    /// Set the idle keep-alive ping interval.
    pub fn with_keepalive(self, interval: core::time::Duration) -> (s: Self)
        ensures
            s@ == (WsServerView { keepalive: interval, ..self@ }),
    {
        WsServer { keepalive: interval, ..self }
    }

    /// Set the supported subprotocols; the first one a client offers that is listed
    /// here is negotiated. Empty negotiates none.
    pub fn with_subprotocols(self, subprotocols: Vec<String>) -> (s: Self)
        ensures
            s@ == (WsServerView { subprotocols: texts(subprotocols@), ..self@ }),
    {
        WsServer { subprotocols, ..self }
    }

    /// Cap concurrent connections; `None` = unlimited.
    pub fn with_max_connections(self, max: Option<usize>) -> (s: Self)
        ensures
            s@ == (WsServerView { max_connections: max, ..self@ }),
    {
        WsServer { max_connections: max, ..self }
    }

    /// Cap the inbound message size in bytes; `None` = the transport default.
    pub fn with_max_message_size(self, max: Option<usize>) -> (s: Self)
        ensures
            s@ == (WsServerView { max_message_size: max, ..self@ }),
    {
        WsServer { max_message_size: max, ..self }
    }

    /// Restrict the handshake to these `Origin`s; empty = any origin.
    pub fn with_allowed_origins(self, origins: Vec<String>) -> (s: Self)
        ensures
            s@ == (WsServerView { allowed_origins: texts(origins@), ..self@ }),
    {
        WsServer { allowed_origins: origins, ..self }
    }

    /// Negotiate permessage-deflate when the client offers it.
    pub fn with_compression(self, on: bool) -> (s: Self)
        ensures
            s@ == (WsServerView { compress: on, ..self@ }),
    {
        WsServer { compress: on, ..self }
    }

    /// Terminate TLS on each connection with this acceptor; `None` = plain `ws`.
    pub fn with_tls(self, tls: Option<T>) -> (s: Self)
        ensures
            s@ == (WsServerView { tls, ..self@ }),
    {
        WsServer { tls, ..self }
    }

    /// Where each connection's handler comes from.
    pub fn source(&self) -> (r: &Source<P, C, R>)
        ensures
            *r == self@.source,
    {
        &self.source
    }

    /// The engine's spawner.
    pub fn spawner(&self) -> (r: &S)
        ensures
            *r == self@.spawner,
    {
        &self.spawner
    }

    /// The idle keep-alive interval.
    pub fn keepalive(&self) -> (r: core::time::Duration)
        ensures
            r == self@.keepalive,
    {
        self.keepalive
    }

    /// The connection cap.
    pub fn max_connections(&self) -> (r: Option<usize>)
        ensures
            r == self@.max_connections,
    {
        self.max_connections
    }

    /// The live-connection count this listener admits connections by, before any
    /// connection: under its cap, with none live. At the cap a new connection is
    /// dropped before its handshake.
    pub fn connection_limit(&self) -> (r: ConnectionLimit)
        ensures
            r.spec_max() == self@.max_connections,
            r.spec_live() == 0,
    {
        ConnectionLimit::new(self.max_connections)
    }

    /// The inbound message size cap.
    pub fn max_message_size(&self) -> (r: Option<usize>)
        ensures
            r == self@.max_message_size,
    {
        self.max_message_size
    }

    /// The TLS acceptor.
    pub fn tls(&self) -> (r: &Option<T>)
        ensures
            *r == self@.tls,
    {
        &self.tls
    }

    /// Whether a request with this `Origin` header may open a connection.
    pub fn origin_allowed(&self, origin: Option<&str>) -> (r: bool)
        ensures
            r == origin_ok(self@.allowed_origins, opt_view(origin)),
    {
        if self.allowed_origins.len() == 0 {
            return true;
        }
        let o = match origin {
            Some(o) => o,
            None => return false,
        };
        let ghost allowed = texts(self.allowed_origins@);
        assert(self@.allowed_origins == allowed);
        let mut i: usize = 0;
        while i < self.allowed_origins.len()
            invariant
                i <= self.allowed_origins@.len(),
                allowed == texts(self.allowed_origins@),
                opt_view(origin) == Some(o@),
                forall|j: int| 0 <= j < i ==> allowed[j] != o@,
            decreases self.allowed_origins@.len() - i,
        {
            if crate::text::str_eq(self.allowed_origins[i].as_str(), o) {
                assert(allowed[i as int] == o@);
                assert(allowed.contains(o@));
                return true;
            }
            i = i + 1;
        }
        proof {
            if allowed.contains(o@) {
                let j = choose|j: int| 0 <= j < allowed.len() && allowed[j] == o@;
                assert(allowed[j] != o@);
            }
        }
        false
    }

    /// Negotiate a subprotocol from the client's `Sec-WebSocket-Protocol` header.
    pub fn negotiate_subprotocol(&self, offered: Option<&str>) -> (r: Option<String>)
        ensures
            opt_string_view(r) == negotiated(self@.subprotocols, opt_view(offered)),
    {
        if self.subprotocols.len() == 0 {
            return None;
        }
        let offered = match offered {
            Some(o) => o,
            None => return None,
        };
        let ghost supported = texts(self.subprotocols@);
        let s = chars_of(offered);
        let n = s.len();
        let mut found: Option<(usize, usize)> = None;
        let mut st: usize = 0;
        let mut i: usize = 0;
        let ghost mut done: Seq<Seq<char>> = Seq::empty();
        while i < n
            invariant
                s@ == offered@,
                n == s@.len(),
                supported == texts(self.subprotocols@),
                st <= i <= n,
                st == 0 || s@[st - 1] == ',',
                forall|j: int| st <= j < i ==> s@[j] != ',',
                done == (if st == 0 {
                    Seq::<Seq<char>>::empty()
                } else {
                    split(s@.subrange(0, st - 1), ',')
                }),
                match found {
                    Some((a, b)) => a <= b <= n && first_supported(done, supported) == Some(
                        s@.subrange(a as int, b as int),
                    ),
                    None => first_supported(done, supported) is None,
                },
            decreases n - i,
        {
            if s[i] == ',' {
                proof {
                    lemma_split_piece(s@, ',', st as int, i as int);
                }
                let m = self.supported_piece(&s, st, i);
                proof {
                    let d = done.push(s@.subrange(st as int, i as int));
                    assert(d.drop_last() =~= done);
                    done = d;
                }
                if found.is_none() {
                    found = m;
                }
                st = i + 1;
            }
            i = i + 1;
        }
        proof {
            lemma_split_piece(s@, ',', st as int, n as int);
            assert(s@.subrange(0, n as int) =~= s@);
        }
        let m = self.supported_piece(&s, st, n);
        proof {
            let d = done.push(s@.subrange(st as int, n as int));
            assert(d.drop_last() =~= done);
        }
        if found.is_none() {
            found = m;
        }
        match found {
            Some((a, b)) => Some(offered.substring_char(a, b).to_owned()),
            None => None,
        }
    }

    /// The trimmed range of `s[st..i]` when the listener supports it.
    fn supported_piece(&self, s: &Vec<char>, st: usize, i: usize) -> (r: Option<(usize, usize)>)
        requires
            st <= i <= s.len(),
        ensures
            match r {
                Some((a, b)) => st <= a <= b <= i && texts(self.subprotocols@).contains(
                    trim(s@.subrange(st as int, i as int)),
                ) && s@.subrange(a as int, b as int) == trim(s@.subrange(st as int, i as int)),
                None => !texts(self.subprotocols@).contains(trim(s@.subrange(st as int, i as int))),
            },
    {
        let (a, b) = trim_bounds(s, st, i);
        let ghost supported = texts(self.subprotocols@);
        let ghost piece = s@.subrange(a as int, b as int);
        let mut k: usize = 0;
        while k < self.subprotocols.len()
            invariant
                k <= self.subprotocols@.len(),
                st <= a <= b <= i <= s@.len(),
                supported == texts(self.subprotocols@),
                piece == s@.subrange(a as int, b as int),
                piece == trim(s@.subrange(st as int, i as int)),
                forall|j: int| 0 <= j < k ==> supported[j] != piece,
            decreases self.subprotocols@.len() - k,
        {
            let name = chars_of(self.subprotocols[k].as_str());
            if range_eq(s, a, b, &name) {
                assert(supported[k as int] == piece);
                assert(supported.contains(piece));
                return Some((a, b));
            }
            k = k + 1;
        }
        proof {
            if supported.contains(piece) {
                let j = choose|j: int| 0 <= j < supported.len() && supported[j] == piece;
                assert(supported[j] != piece);
            }
        }
        None
    }

    /// The answer to a handshake, in order: a disallowed `Origin` is `403`; a path
    /// with no handler (`resolved` false) is `404`; a request without a
    /// `Sec-WebSocket-Key` is `426`; otherwise `101`, with the accept key for `key`,
    /// the negotiated subprotocol, and permessage-deflate when the listener compresses
    /// and the client offers it.
    pub fn handshake(
        &self,
        origin: Option<&str>,
        resolved: bool,
        key: Option<&str>,
        protocols: Option<&str>,
        extensions: Option<&str>,
    ) -> (r: Handshake)
        ensures
            !origin_ok(self@.allowed_origins, opt_view(origin)) ==> r == Handshake::Refused(403),
            origin_ok(self@.allowed_origins, opt_view(origin)) && !resolved ==> r
                == Handshake::Refused(404),
            origin_ok(self@.allowed_origins, opt_view(origin)) && resolved && key is None ==> r
                == Handshake::Refused(426),
            origin_ok(self@.allowed_origins, opt_view(origin)) && resolved && key is Some ==> (r matches Handshake::Switch { accept, subprotocol, extensions: ext }
                && accept@ == accept_key_of(key->0.spec_bytes()) && opt_string_view(subprotocol)
                == negotiated(self@.subprotocols, opt_view(protocols)) && (ext is Some <==> (
            self@.compress && extensions is Some && offers_permessage_deflate(extensions->0@)))
                && (ext is Some ==> ext->0@ == deflate_response())),
    {
        if !self.origin_allowed(origin) {
            return Handshake::Refused(403);
        }
        if !resolved {
            return Handshake::Refused(404);
        }
        let k = match key {
            Some(k) => k,
            None => return Handshake::Refused(426),
        };
        let accept = derive_accept_key(k.as_bytes());
        let subprotocol = self.negotiate_subprotocol(protocols);
        let ext = if self.compress {
            negotiate_permessage_deflate(extensions)
        } else {
            None
        };
        Handshake::Switch { accept, subprotocol, extensions: ext }
    }
}


/// The `Sec-WebSocket-Accept` for a request's `Sec-WebSocket-Key`, or `None` when it
/// carries no key.
pub fn ws_accept(key: Option<&str>) -> (r: Option<String>)
    ensures
        match key {
            Some(k) => r matches Some(a) && a@ == accept_key_of(k.spec_bytes()),
            None => r is None,
        },
{
    match key {
        Some(k) => Some(derive_accept_key(k.as_bytes())),
        None => None,
    }
}

/// The headers of the `101` that completes a handshake: `connection: Upgrade`,
/// `upgrade: websocket`, the accept key, then the negotiated subprotocol and
/// extension when there are any.
pub open spec fn switching_headers_spec(
    accept: Seq<char>,
    subprotocol: Option<Seq<char>>,
    extensions: Option<Seq<char>>,
) -> Seq<(Seq<char>, Seq<char>)> {
    seq![
        ("connection"@, "Upgrade"@),
        ("upgrade"@, "websocket"@),
        ("sec-websocket-accept"@, accept),
    ] + match subprotocol {
        Some(p) => seq![("sec-websocket-protocol"@, p)],
        None => Seq::empty(),
    } + match extensions {
        Some(e) => seq![("sec-websocket-extensions"@, e)],
        None => Seq::empty(),
    }
}

/// The headers of the `101 Switching Protocols` answer.
pub fn switching_headers(accept: String, subprotocol: Option<String>, extensions: Option<String>) -> (r:
    Vec<(String, String)>)
    ensures
        crate::text::pairs_view(r@) == switching_headers_spec(
            accept@,
            opt_string_view(subprotocol),
            opt_string_view(extensions),
        ),
{
    let ghost a = accept@;
    let ghost sp = opt_string_view(subprotocol);
    let ghost ex = opt_string_view(extensions);
    let mut r: Vec<(String, String)> = Vec::new();
    r.push((String::from_str("connection"), String::from_str("Upgrade")));
    r.push((String::from_str("upgrade"), String::from_str("websocket")));
    r.push((String::from_str("sec-websocket-accept"), accept));
    let ghost base = crate::text::pairs_view(r@);
    assert(base =~= seq![
        ("connection"@, "Upgrade"@),
        ("upgrade"@, "websocket"@),
        ("sec-websocket-accept"@, a),
    ]);
    if let Some(p) = subprotocol {
        r.push((String::from_str("sec-websocket-protocol"), p));
    }
    let ghost mid = crate::text::pairs_view(r@);
    assert(mid =~= base + match sp {
        Some(p) => seq![("sec-websocket-protocol"@, p)],
        None => Seq::<(Seq<char>, Seq<char>)>::empty(),
    });
    if let Some(e) = extensions {
        r.push((String::from_str("sec-websocket-extensions"), e));
    }
    assert(crate::text::pairs_view(r@) =~= mid + match ex {
        Some(e) => seq![("sec-websocket-extensions"@, e)],
        None => Seq::<(Seq<char>, Seq<char>)>::empty(),
    });
    r
}

/// A control frame a handler emits to its connection's writer.
#[derive(Debug, PartialEq, Eq)]
pub enum WsOut {
    /// A text frame (the bytes are UTF-8).
    Text(Vec<u8>),
    /// A close frame with a status code and reason; the writer then ends.
    Close(u16, String),
    /// A pong echoing a client ping's payload.
    Pong(Vec<u8>),
}

/// What the writer of a connection woke up for.
pub enum WriterEvent {
    /// Its mailbox: a binary frame to send, or `None` when the mailbox closed or a
    /// non-message signal arrived.
    Mailbox(Option<Vec<u8>>),
    /// The handler's control channel: a frame, or `None` when the handler is gone.
    Control(Option<WsOut>),
    /// The keep-alive interval passed with no frame.
    Idle,
}

/// What the writer does next.
#[derive(Debug, PartialEq, Eq)]
pub enum WriterAction {
    SendBinary(Vec<u8>),
    SendText(Vec<u8>),
    SendPong(Vec<u8>),
    SendPing(Vec<u8>),
    /// Send a close frame with this code and reason, then end.
    SendCloseThenStop(u16, String),
    /// End the connection's writer.
    Stop,
}

/// One step of a connection's writer. After any send that fails, the writer ends.
pub fn writer_step(event: WriterEvent) -> (a: WriterAction)
    ensures
        match event {
            WriterEvent::Mailbox(Some(b)) => a == WriterAction::SendBinary(b),
            WriterEvent::Mailbox(None) => a == WriterAction::Stop,
            WriterEvent::Control(Some(WsOut::Text(p))) => a == WriterAction::SendText(p),
            WriterEvent::Control(Some(WsOut::Pong(p))) => a == WriterAction::SendPong(p),
            WriterEvent::Control(Some(WsOut::Close(c, m))) => a == WriterAction::SendCloseThenStop(
                c,
                m,
            ),
            WriterEvent::Control(None) => a == WriterAction::Stop,
            WriterEvent::Idle => a matches WriterAction::SendPing(p) && p@.len() == 0,
        },
{
    match event {
        WriterEvent::Mailbox(Some(b)) => WriterAction::SendBinary(b),
        WriterEvent::Mailbox(None) => WriterAction::Stop,
        WriterEvent::Control(Some(WsOut::Text(p))) => WriterAction::SendText(p),
        WriterEvent::Control(Some(WsOut::Pong(p))) => WriterAction::SendPong(p),
        WriterEvent::Control(Some(WsOut::Close(c, m))) => WriterAction::SendCloseThenStop(c, m),
        WriterEvent::Control(None) => WriterAction::Stop,
        WriterEvent::Idle => WriterAction::SendPing(Vec::new()),
    }
}

/// What the reader of a connection does with the next inbound message.
#[derive(Debug, PartialEq, Eq)]
pub enum ReaderAction {
    /// Deliver the payload to the handler's mailbox (one message per frame).
    Deliver(Vec<u8>),
    /// Answer a ping with this pong, through the writer; end if the writer is gone.
    Pong(Vec<u8>),
    /// Nothing to do (a pong answering our keep-alive ping).
    Ignore,
    /// End the connection.
    Stop,
}

/// One step of a connection's reader: data is delivered, a ping is answered, a pong
/// is ignored, and a close, an error (of any kind) or the end of the stream ends it.
pub fn reader_step<E>(next: Option<Result<WsMessage, E>>) -> (a: ReaderAction)
    ensures
        match next {
            Some(Ok(WsMessage::Text(d))) => a == ReaderAction::Deliver(d),
            Some(Ok(WsMessage::Binary(d))) => a == ReaderAction::Deliver(d),
            Some(Ok(WsMessage::Ping(p))) => a == ReaderAction::Pong(p),
            Some(Ok(WsMessage::Pong(_))) => a == ReaderAction::Ignore,
            _ => a == ReaderAction::Stop,
        },
{
    match next {
        Some(Ok(WsMessage::Text(d))) => ReaderAction::Deliver(d),
        Some(Ok(WsMessage::Binary(d))) => ReaderAction::Deliver(d),
        Some(Ok(WsMessage::Ping(p))) => ReaderAction::Pong(p),
        Some(Ok(WsMessage::Pong(_))) => ReaderAction::Ignore,
        _ => ReaderAction::Stop,
    }
}


/// The negotiated subprotocol is always one the listener supports and the client
/// offered (one of its comma-separated offers, trimmed).
pub proof fn law_negotiated_is_supported_and_offered(supported: Seq<Seq<char>>, offered: Option<Seq<char>>)
    ensures
        negotiated(supported, offered) matches Some(p) ==> supported.contains(p) && (exists|q: int|
            0 <= q < split(offered->0, ',').len() && trim(#[trigger] split(offered->0, ',')[q]) == p),
{
    if let Some(o) = offered {
        if supported.len() > 0 {
            lemma_first_supported(split(o, ','), supported);
        }
    }
}

/// What `first_supported` picks is supported and is some trimmed piece.
pub proof fn lemma_first_supported(pieces: Seq<Seq<char>>, supported: Seq<Seq<char>>)
    ensures
        first_supported(pieces, supported) matches Some(p) ==> supported.contains(p) && (exists|q: int|
            0 <= q < pieces.len() && trim(#[trigger] pieces[q]) == p),
    decreases pieces.len(),
{
    if pieces.len() > 0 {
        lemma_first_supported(pieces.drop_last(), supported);
        if let Some(p) = first_supported(pieces.drop_last(), supported) {
            let q = choose|q: int| 0 <= q < pieces.drop_last().len() && trim(#[trigger] pieces.drop_last()[q]) == p;
            assert(pieces[q] == pieces.drop_last()[q]);
        } else if supported.contains(trim(pieces.last())) {
            assert(trim(pieces[pieces.len() - 1]) == trim(pieces.last()));
        }
    }
}

} // verus!
