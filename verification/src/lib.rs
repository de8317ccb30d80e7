//! RUSM's serving and messaging core: the WebSocket frame transport and
//! permessage-deflate, Server-Sent-Events framing, response-compression policy,
//! request authentication, the per-process claims context, the attach protocol, the
//! listener configurations of the serving bridges with the decisions they make per
//! request and per connection, and the capability gates of the actor host operations.

pub mod actor;
pub mod auth;
pub mod bridge_ref;
pub mod bundle;
pub mod compress;
pub mod context;
pub mod guest;
pub mod handles;
pub mod headers;
pub mod host;
pub mod http;
pub mod lifecycle;
pub mod macro_text;
pub mod outside;
pub mod protocol;
pub mod routed;
pub mod serve;
pub mod source;
pub mod sse;
pub mod sse_server;
pub mod text;
pub mod ws_codec;
pub mod ws_server;

