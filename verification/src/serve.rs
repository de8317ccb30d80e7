//! The per-connection request context of a WebSocket or SSE handler, and the
//! guest-side views of its connection (`ws::Connection`, `sse::Stream`).

use vstd::prelude::*;
use crate::actor::Pid;
use crate::outside::ascii::{to_ascii_uppercase, upper};
use crate::text::{find_key, find_key_from, lookup, pairs_view};

verus! {

/// The HTTP context of a per-connection WebSocket or SSE handler — the request
/// that opened the connection. Fixed for the connection's life.
#[derive(Clone, Debug, Default, PartialEq, Eq)]
pub struct ConnectionInfo {
    method: String,
    path: String,
    query: String,
    params: Vec<(String, String)>,
    headers: Vec<(String, String)>,
    remote_addr: String,
    subprotocol: Option<String>,
}

impl ConnectionInfo {
    /// The request method, uppercased.
    pub closed spec fn spec_method(&self) -> Seq<char> {
        self.method@
    }

    /// The path, without the query string.
    pub closed spec fn spec_path(&self) -> Seq<char> {
        self.path@
    }

    /// The raw query string, without the leading `?`.
    pub closed spec fn spec_query(&self) -> Seq<char> {
        self.query@
    }

    /// The captured route parameters, in order.
    pub closed spec fn spec_params(&self) -> Seq<(Seq<char>, Seq<char>)> {
        pairs_view(self.params@)
    }

    /// The request headers, in arrival order.
    pub closed spec fn spec_headers(&self) -> Seq<(Seq<char>, Seq<char>)> {
        pairs_view(self.headers@)
    }

    /// The peer address, empty when unknown.
    pub closed spec fn spec_remote_addr(&self) -> Seq<char> {
        self.remote_addr@
    }

    /// The negotiated WebSocket subprotocol.
    pub closed spec fn spec_subprotocol(&self) -> Option<Seq<char>> {
        match self.subprotocol {
            Some(s) => Some(s@),
            None => None,
        }
    }

    /// Capture a connection's context: the method (ASCII-uppercased), the path and query
    /// split apart, the route parameters the listener captured, the headers in arrival
    /// order, the peer address and the negotiated subprotocol.
    pub fn new(
        method: String,
        path: String,
        query: String,
        params: Vec<(String, String)>,
        headers: Vec<(String, String)>,
        remote_addr: String,
        subprotocol: Option<String>,
    ) -> (c: Self)
        ensures
            c.spec_method() == upper(method@),
            c.spec_path() == path@,
            c.spec_query() == query@,
            c.spec_params() == pairs_view(params@),
            c.spec_headers() == pairs_view(headers@),
            c.spec_remote_addr() == remote_addr@,
            c.spec_subprotocol() == (match subprotocol {
                Some(s) => Some(s@),
                None => None::<Seq<char>>,
            }),
    {
        let method = to_ascii_uppercase(method.as_str());
        ConnectionInfo { method, path, query, params, headers, remote_addr, subprotocol }
    }

    /// Request method, uppercased (`GET`, …).
    pub fn method(&self) -> (r: &str)
        ensures
            r@ == self.spec_method(),
    {
        self.method.as_str()
    }

    /// Path without the query string.
    pub fn path(&self) -> (r: &str)
        ensures
            r@ == self.spec_path(),
    {
        self.path.as_str()
    }

    /// Raw query string without the leading `?` (empty when absent).
    pub fn query(&self) -> (r: &str)
        ensures
            r@ == self.spec_query(),
    {
        self.query.as_str()
    }

    /// All route parameters captured from the listener's route pattern.
    pub fn params(&self) -> (r: &[(String, String)])
        ensures
            pairs_view(r@) == self.spec_params(),
    {
        self.params.as_slice()
    }

    /// One captured route parameter by name (exact match, first occurrence).
    pub fn param(&self, name: &str) -> (r: Option<&str>)
        ensures
            r matches Some(v) ==> lookup(self.spec_params(), name@, false) == Some(v@),
            r is None ==> lookup(self.spec_params(), name@, false) is None,
    {
        match find_key(&self.params, name, false) {
            Some(i) => {
                assert(pairs_view(self.params@)[i as int].1 == self.params@[i as int].1@);
                Some(self.params[i].1.as_str())
            },
            None => None,
        }
    }

    /// All request headers (lowercased names, arrival order; a name may repeat).
    pub fn headers(&self) -> (r: &[(String, String)])
        ensures
            pairs_view(r@) == self.spec_headers(),
    {
        self.headers.as_slice()
    }

    /// The first value of header `name` (ASCII case-insensitive), or `None`.
    pub fn header(&self, name: &str) -> (r: Option<&str>)
        ensures
            r matches Some(v) ==> lookup(self.spec_headers(), name@, true) == Some(v@),
            r is None ==> lookup(self.spec_headers(), name@, true) is None,
    {
        match find_key(&self.headers, name, true) {
            Some(i) => {
                assert(pairs_view(self.headers@)[i as int].1 == self.headers@[i as int].1@);
                Some(self.headers[i].1.as_str())
            },
            None => None,
        }
    }

    /// Peer socket address (`ip:port`), empty if the transport can't report one.
    pub fn remote_addr(&self) -> (r: &str)
        ensures
            r@ == self.spec_remote_addr(),
    {
        self.remote_addr.as_str()
    }

    /// The negotiated WebSocket subprotocol, if any (always `None` for SSE).
    pub fn subprotocol(&self) -> (r: Option<&str>)
        ensures
            r matches Some(v) ==> self.spec_subprotocol() == Some(v@),
            r is None ==> self.spec_subprotocol() is None,
    {
        match &self.subprotocol {
            Some(s) => Some(s.as_str()),
            None => None,
        }
    }
}

/// One WebSocket connection — a per-connection handler's view of its socket: the
/// writer process that owns the sink, and the request context.
pub struct Connection {
    writer: Pid,
    info: ConnectionInfo,
}

impl Connection {
    /// The writer the handler replies through.
    pub closed spec fn spec_writer(&self) -> Pid {
        self.writer
    }

    /// The connection's request context.
    pub closed spec fn spec_info(&self) -> ConnectionInfo {
        self.info
    }

    /// A connection whose writer is `writer`, opened by the request `info`.
    pub fn new(writer: Pid, info: ConnectionInfo) -> (c: Self)
        ensures
            c.spec_writer() == writer,
            c.spec_info() == info,
    {
        Connection { writer, info }
    }

    /// The connection's writer pid (the reply target).
    pub fn writer(&self) -> (r: Pid)
        ensures
            r == self.spec_writer(),
    {
        self.writer
    }

    /// This connection's request context.
    pub fn info(&self) -> (r: &ConnectionInfo)
        ensures
            *r == self.spec_info(),
    {
        &self.info
    }
}

/// One SSE connection — a per-connection handler's view of its stream: the writer
/// that owns the response body, the request context, and whether the handler has
/// asked to end the stream.
pub struct Stream {
    writer: Pid,
    done: bool,
    info: ConnectionInfo,
}

impl Stream {
    /// The writer events are emitted through.
    pub closed spec fn spec_writer(&self) -> Pid {
        self.writer
    }

    /// The stream's request context.
    pub closed spec fn spec_info(&self) -> ConnectionInfo {
        self.info
    }

    /// Whether the handler has closed the stream.
    pub closed spec fn spec_done(&self) -> bool {
        self.done
    }

    /// An open stream whose writer is `writer`, opened by the request `info`.
    pub fn new(writer: Pid, info: ConnectionInfo) -> (s: Self)
        ensures
            s.spec_writer() == writer,
            s.spec_info() == info,
            !s.spec_done(),
    {
        Stream { writer, done: false, info }
    }

    /// The connection's writer pid (the emit target).
    pub fn writer(&self) -> (r: Pid)
        ensures
            r == self.spec_writer(),
    {
        self.writer
    }

    /// This stream's request context.
    pub fn info(&self) -> (r: &ConnectionInfo)
        ensures
            *r == self.spec_info(),
    {
        &self.info
    }

    /// End the stream (a server-initiated close); the serve loop then stops.
    pub fn close(&mut self)
        ensures
            final(self).spec_done(),
            final(self).spec_writer() == old(self).spec_writer(),
            final(self).spec_info() == old(self).spec_info(),
    {
        self.done = true;
    }

    /// Whether the handler has closed the stream.
    pub fn is_done(&self) -> (r: bool)
        ensures
            r == self.spec_done(),
    {
        self.done
    }
}

} // verus!
