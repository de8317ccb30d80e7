//! Per-request routed HTTP serving: the listener's configuration, and the decisions
//! made for each request before a handler is spawned fresh for it — authenticate,
//! route, check the matched handler — and how the handler's reply becomes the answer.
//! Every failure is an answer with a status code; none spawns a handler.

use vstd::prelude::*;
use std::sync::Arc;
use crate::auth::AuthVerdict;
use crate::context::{claims_map, ProcessContext};
use crate::headers::{merge_headers, merged};
use crate::lifecycle::ConnectionLimit;
use crate::source::{table_get, table_position, HandlerEntry, Routed};

verus! {

/// A per-request routed HTTP server's configuration: the engine's spawner `S` and
/// route resolver `R`, each handler component's capability profile `C` by name, the
/// listener's response headers, connection cap, compression switch, TLS acceptor `T`
/// and auth hook `A`.
#[derive(Clone)]
pub struct RoutedHttpServer<S, R, C, T, A> {
    spawner: S,
    resolve: R,
    caps: Vec<(String, C)>,
    headers: Vec<(String, String)>,
    max_connections: Option<usize>,
    compress: bool,
    tls: Option<T>,
    auth: Option<A>,
}

/// A routed HTTP server's configuration as a value.
pub struct RoutedHttpServerView<S, R, C, T, A> {
    pub spawner: S,
    pub resolve: R,
    pub caps: Seq<(String, C)>,
    pub headers: Seq<(Seq<char>, Seq<char>)>,
    pub max_connections: Option<usize>,
    pub compress: bool,
    pub tls: Option<T>,
    pub auth: Option<A>,
}

impl<S, R, C, T, A> View for RoutedHttpServer<S, R, C, T, A> {
    type V = RoutedHttpServerView<S, R, C, T, A>;

    closed spec fn view(&self) -> RoutedHttpServerView<S, R, C, T, A> {
        RoutedHttpServerView {
            spawner: self.spawner,
            resolve: self.resolve,
            caps: self.caps@,
            headers: crate::text::pairs_view(self.headers@),
            max_connections: self.max_connections,
            compress: self.compress,
            tls: self.tls,
            auth: self.auth,
        }
    }
}

/// Build a per-request routed HTTP server: `resolve` maps `(method, path)` to a
/// [`Routed`] decision; `caps` gives the capability profile to spawn each handler
/// component under, keyed by name. No response headers, no connection cap, no
/// compression, plain HTTP and no authentication until set.
pub fn routed_http_server<S, R, C, T, A>(spawner: S, resolve: R, caps: Vec<(String, C)>) -> (s:
    RoutedHttpServer<S, R, C, T, A>)
    ensures
        s@.spawner == spawner,
        s@.resolve == resolve,
        s@.caps == caps@,
        s@.headers == Seq::<(Seq<char>, Seq<char>)>::empty(),
        s@.max_connections is None,
        !s@.compress,
        s@.tls is None,
        s@.auth is None,
{
    let s = RoutedHttpServer {
        spawner,
        resolve,
        caps,
        headers: Vec::new(),
        max_connections: None,
        compress: false,
        tls: None,
        auth: None,
    };
    assert(s@.headers =~= Seq::<(Seq<char>, Seq<char>)>::empty());
    s
}

impl<S, R, C, T, A> RoutedHttpServer<S, R, C, T, A> {
    /// Add the listener's response headers (merged into each reply — e.g. CORS).
    pub fn with_headers(self, headers: Vec<(String, String)>) -> (s: Self)
        ensures
            s@ == (RoutedHttpServerView { headers: crate::text::pairs_view(headers@), ..self@ }),
    {
        RoutedHttpServer { headers, ..self }
    }

    /// gzip eligible responses the client accepts.
    pub fn with_compression(self, on: bool) -> (s: Self)
        ensures
            s@ == (RoutedHttpServerView { compress: on, ..self@ }),
    {
        RoutedHttpServer { compress: on, ..self }
    }

    /// Terminate TLS on each connection with this acceptor; `None` = plain HTTP.
    pub fn with_tls(self, tls: Option<T>) -> (s: Self)
        ensures
            s@ == (RoutedHttpServerView { tls, ..self@ }),
    {
        RoutedHttpServer { tls, ..self }
    }

    /// Authenticate each request with this hook; `None` = no authentication.
    pub fn with_auth(self, auth: Option<A>) -> (s: Self)
        ensures
            s@ == (RoutedHttpServerView { auth, ..self@ }),
    {
        RoutedHttpServer { auth, ..self }
    }

    /// Cap concurrent connections; `None` = unlimited.
    pub fn with_max_connections(self, max: Option<usize>) -> (s: Self)
        ensures
            s@ == (RoutedHttpServerView { max_connections: max, ..self@ }),
    {
        RoutedHttpServer { max_connections: max, ..self }
    }

    /// The engine's spawner.
    pub fn spawner(&self) -> (r: &S)
        ensures
            *r == self@.spawner,
    {
        &self.spawner
    }

    /// The route resolver.
    pub fn resolver(&self) -> (r: &R)
        ensures
            *r == self@.resolve,
    {
        &self.resolve
    }

    /// The capability profiles by component name.
    pub fn caps(&self) -> (r: &Vec<(String, C)>)
        ensures
            r@ == self@.caps,
    {
        &self.caps
    }

    /// The response headers merged into every reply.
    pub fn headers(&self) -> (r: &Vec<(String, String)>)
        ensures
            crate::text::pairs_view(r@) == self@.headers,
    {
        &self.headers
    }

    /// The connection cap.
    pub fn max_connections(&self) -> (r: Option<usize>)
        ensures
            r == self@.max_connections,
    {
        self.max_connections
    }

    /// The live-connection count this listener admits connections by, before any
    /// connection: under its cap, with none live.
    pub fn connection_limit(&self) -> (r: ConnectionLimit)
        ensures
            r.spec_max() == self@.max_connections,
            r.spec_live() == 0,
    {
        ConnectionLimit::new(self.max_connections)
    }

    /// A reply's headers with this listener's response headers merged in: each of the
    /// listener's headers replaces any of the same name.
    pub fn reply_headers(&self, headers: Vec<(String, String)>) -> (r: Vec<(String, String)>)
        ensures
            crate::text::pairs_view(r@) == merged(crate::text::pairs_view(headers@), self@.headers),
    {
        merge_headers(headers, &self.headers)
    }

    /// Whether eligible replies are gzipped.
    pub fn compression(&self) -> (r: bool)
        ensures
            r == self@.compress,
    {
        self.compress
    }

    /// The TLS acceptor.
    pub fn tls(&self) -> (r: &Option<T>)
        ensures
            *r == self@.tls,
    {
        &self.tls
    }

    /// The auth hook.
    pub fn auth(&self) -> (r: &Option<A>)
        ensures
            *r == self@.auth,
    {
        &self.auth
    }
}

/// A request answered without a handler: its status and plain-text body.
#[derive(Debug, PartialEq, Eq)]
pub struct ErrorReply {
    pub status: u16,
    pub message: String,
}

/// The claims of an `Allow` verdict, as texts.
pub open spec fn claims_view(claims: Seq<(String, String)>) -> Seq<(Seq<char>, Seq<char>)> {
    claims.map_values(|p: (String, String)| (p.0@, p.1@))
}

/// The request context an auth outcome seeds, or the `401` a denial is answered with.
/// `verdict` is `None` when the listener has no auth hook: the context starts empty.
pub fn authenticate(verdict: Option<AuthVerdict>) -> (r: Result<ProcessContext, ErrorReply>)
    ensures
        match verdict {
            None => r matches Ok(c) && c.claims() == Map::<Seq<char>, Seq<char>>::empty(),
            Some(AuthVerdict::Allow(claims)) => r matches Ok(c) && c.claims() == claims_map(
                claims_view(claims@),
            ),
            Some(AuthVerdict::Deny) => r matches Err(e) && e.status == 401 && e.message@
                == "unauthorized"@,
        },
{
    match verdict {
        None => Ok(ProcessContext::new()),
        Some(AuthVerdict::Allow(claims)) => Ok(ProcessContext::from_iter(claims)),
        Some(AuthVerdict::Deny) => Err(ErrorReply { status: 401, message: String::from_str("unauthorized") }),
    }
}

/// The matched `(component, action, params)` of a route decision, or the answer to an
/// unmatched request: `405` when the path matched for another method, `404` otherwise.
pub fn route_target(routed: Routed) -> (r: Result<(String, String, Vec<(String, String)>), ErrorReply>)
    ensures
        match routed {
            Routed::Found { component, action, params } => r == Ok::<
                (String, String, Vec<(String, String)>),
                ErrorReply,
            >((component, action, params)),
            Routed::MethodNotAllowed => r matches Err(e) && e.status == 405 && e.message@
                == "method not allowed"@,
            Routed::NotFound => r matches Err(e) && e.status == 404 && e.message@ == "not found"@,
        },
{
    match routed {
        Routed::Found { component, action, params } => Ok((component, action, params)),
        Routed::MethodNotAllowed => Err(
            ErrorReply { status: 405, message: String::from_str("method not allowed") },
        ),
        Routed::NotFound => Err(ErrorReply { status: 404, message: String::from_str("not found") }),
    }
}

/// `a`, then `b`, then `c`.
fn concat3(a: &str, b: &str, c: &str) -> (r: String)
    ensures
        r@ == a@ + b@ + c@,
{
    let mut s = String::from_str(a);
    s.append(b);
    s.append(c);
    s
}

/// A matched handler, checked and ready to spawn: the component to run (`prepared`),
/// its JS bundle if any, its capability profile, and the request body.
pub struct HttpHandler<P, C> {
    pub prepared: P,
    pub bundle: Option<Arc<Vec<u8>>>,
    pub caps: C,
    pub body: Vec<u8>,
}

/// The check of a matched component before it is spawned, in order: it must be
/// registered (`500`), have a capability profile (`500`), the request body must have
/// been read (`400`), and it must be a fixed component rather than a dynamic template
/// (`500`). `entry` is what the registry holds for `component`; `body` is `None` when
/// the body could not be read.
pub fn check_handler<P, C: Clone>(
    component: &str,
    entry: Option<HandlerEntry<P>>,
    caps: &Vec<(String, C)>,
    body: Option<Vec<u8>>,
) -> (r: Result<HttpHandler<P, C>, ErrorReply>)
    ensures
        entry is None ==> (r matches Err(e) && e.status == 500 && e.message@
            == "route names unregistered component `"@ + component@ + "`"@),
        entry is Some && table_get(caps@, component@) is None ==> (r matches Err(e) && e.status
            == 500 && e.message@ == "no capability profile for `"@ + component@ + "`"@),
        entry is Some && table_get(caps@, component@) is Some && body is None ==> (r matches Err(e)
            && e.status == 400 && e.message@ == "could not read body"@),
        entry is Some && table_get(caps@, component@) is Some && body is Some && entry->0.prepared is None
            ==> (r matches Err(e) && e.status == 500 && e.message@ == "`"@ + component@
            + "` is a dynamic template, not an HTTP handler"@),
        match (entry, table_get(caps@, component@), body) {
            (Some(en), Some(c), Some(b)) => match en.prepared {
                Some(p) => r matches Ok(h) && h.prepared == p && h.bundle == en.bundle && cloned(
                    c,
                    h.caps,
                ) && h.body == b,
                None => true,
            },
            _ => true,
        },
{
    let e = match entry {
        Some(e) => e,
        None => {
            return Err(
                ErrorReply {
                    status: 500,
                    message: concat3("route names unregistered component `", component, "`"),
                },
            )
        },
    };
    let i = match table_position(caps, component) {
        Some(i) => i,
        None => {
            return Err(
                ErrorReply {
                    status: 500,
                    message: concat3("no capability profile for `", component, "`"),
                },
            )
        },
    };
    let body = match body {
        Some(b) => b,
        None => {
            return Err(ErrorReply { status: 400, message: String::from_str("could not read body") })
        },
    };
    let prepared = match e.prepared {
        Some(p) => p,
        None => {
            return Err(
                ErrorReply {
                    status: 500,
                    message: concat3("`", component, "` is a dynamic template, not an HTTP handler"),
                },
            )
        },
    };
    Ok(HttpHandler { prepared, bundle: e.bundle, caps: caps[i].1.clone(), body })
}


/// What becomes of one routed request before any handler runs: it is answered at once,
/// or its matched handler is spawned fresh with the request's seeded context, the
/// action to dispatch and the captured params.
pub enum Dispatch<P, C> {
    Answer(ErrorReply),
    Spawn {
        context: ProcessContext,
        action: String,
        params: Vec<(String, String)>,
        handler: HttpHandler<P, C>,
    },
}

/// The decision for one routed request, in order: authenticate first (a denial is
/// `401` whatever the route, so it never reveals whether a route exists), then route
/// (`405`/`404`), then check the matched handler (`500`/`400`); only a request that
/// passes all of them spawns a handler. `entry` is what the registry holds for the
/// matched component and `body` the request body, `None` when it could not be read.
pub fn dispatch_decision<P, C: Clone>(
    verdict: Option<AuthVerdict>,
    routed: Routed,
    entry: Option<HandlerEntry<P>>,
    caps: &Vec<(String, C)>,
    body: Option<Vec<u8>>,
) -> (r: Dispatch<P, C>)
    ensures
        verdict matches Some(AuthVerdict::Deny) ==> (r matches Dispatch::Answer(e) && e.status
            == 401),
        !(verdict matches Some(AuthVerdict::Deny)) && routed is MethodNotAllowed ==> (r matches Dispatch::Answer(
            e,
        ) && e.status == 405),
        !(verdict matches Some(AuthVerdict::Deny)) && routed is NotFound ==> (r matches Dispatch::Answer(
            e,
        ) && e.status == 404),
        r matches Dispatch::Spawn { context, action, params, handler } ==> {
            &&& routed matches Routed::Found { component: c, action: a, params: p }
            &&& action == a
            &&& params == p
            &&& entry matches Some(en)
            &&& en.prepared == Some(handler.prepared)
            &&& handler.bundle == en.bundle
            &&& table_get(caps@, c@) is Some
            &&& cloned(table_get(caps@, c@)->0, handler.caps)
            &&& body == Some(handler.body)
            &&& context.claims() == match verdict {
                Some(AuthVerdict::Allow(claims)) => claims_map(claims_view(claims@)),
                _ => Map::<Seq<char>, Seq<char>>::empty(),
            }
        },
        !(verdict matches Some(AuthVerdict::Deny)) ==> (match routed {
            Routed::Found { component: c, .. } => {
                &&& entry is None ==> (r matches Dispatch::Answer(e) && e.status == 500
                    && e.message@ == "route names unregistered component `"@ + c@ + "`"@)
                &&& entry is Some && table_get(caps@, c@) is None ==> (r matches Dispatch::Answer(e)
                    && e.status == 500 && e.message@ == "no capability profile for `"@ + c@ + "`"@)
                &&& entry is Some && table_get(caps@, c@) is Some && body is None ==> (
                r matches Dispatch::Answer(e) && e.status == 400 && e.message@
                    == "could not read body"@)
                &&& entry is Some && table_get(caps@, c@) is Some && body is Some
                    && entry->0.prepared is None ==> (r matches Dispatch::Answer(e) && e.status
                    == 500 && e.message@ == "`"@ + c@ + "` is a dynamic template, not an HTTP handler"@)
            },
            _ => true,
        }),
        !(verdict matches Some(AuthVerdict::Deny)) ==> match (routed, entry) {
            (Routed::Found { component: c, .. }, Some(en)) => (en.prepared is Some && table_get(
                caps@,
                c@,
            ) is Some && body is Some) ==> r is Spawn,
            _ => true,
        },
{
    let context = match authenticate(verdict) {
        Ok(c) => c,
        Err(e) => return Dispatch::Answer(e),
    };
    let (component, action, params) = match route_target(routed) {
        Ok(t) => t,
        Err(e) => return Dispatch::Answer(e),
    };
    match check_handler(component.as_str(), entry, caps, body) {
        Ok(handler) => Dispatch::Spawn { context, action, params, handler },
        Err(e) => Dispatch::Answer(e),
    }
}

/// The answer a handler's reply becomes: its response when it replied with one, a
/// `500` carrying its message when it replied with an error, and a `502` when it never
/// replied (`reply` is `None`).
pub fn reply_outcome<W>(reply: Option<Result<W, String>>) -> (r: Result<W, ErrorReply>)
    ensures
        match reply {
            Some(Ok(w)) => r == Ok::<W, ErrorReply>(w),
            Some(Err(m)) => r matches Err(e) && e.status == 500 && e.message@ == m@,
            None => r matches Err(e) && e.status == 502 && e.message@ == "handler did not reply"@,
        },
{
    match reply {
        Some(Ok(w)) => Ok(w),
        Some(Err(m)) => Err(ErrorReply { status: 500, message: m }),
        None => Err(ErrorReply { status: 502, message: String::from_str("handler did not reply") }),
    }
}

/// What a handler's decoded reply carries: its error when it has one, else its
/// response, and the error "reply missing `ok`" when it carries neither.
pub fn reply_fields<W>(ok: Option<W>, err: Option<String>) -> (r: Result<W, String>)
    ensures
        match (err, ok) {
            (Some(e), _) => r matches Err(m) && m@ == e@,
            (None, Some(w)) => r == Ok::<W, String>(w),
            (None, None) => r matches Err(m) && m@ == "reply missing `ok`"@,
        },
{
    match err {
        Some(e) => Err(e),
        None => match ok {
            Some(w) => Ok(w),
            None => Err(String::from_str("reply missing `ok`")),
        },
    }
}

} // verus!
