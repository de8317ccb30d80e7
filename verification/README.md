# rusm

The serving and messaging core of the RUSM actor runtime, written in Verus: the
decisions the host makes about a request, a connection or a guest operation are
executable functions with contracts that Verus proves. What needs the Wasm engine, the
network or an outside cache (the compile cache's eviction and single-flight) stays
outside the library.

- `src/` — the verified library.
  - `ws_codec`, `ws_server` — WebSocket frames (decode, encode, masking, close
    payloads), message assembly with permessage-deflate, the handshake decision, and
    the per-connection writer and reader steps.
  - `sse`, `sse_server` — Server-Sent-Events framing and the stream writer's steps.
  - `routed`, `source` — per-request routing decisions and handler resolution.
  - `headers`, `lifecycle` — the listener headers merged into every answer, the
    connection cap, a handler's first messages and the connection teardown.
  - `auth`, `context` — what an auth hook sees, its verdict, and the claims context.
  - `host`, `handles` — the capability gates of the actor host operations, spawn
    plans, bundle sources, exit notices, and stream/timer handles.
  - `compress`, `http`, `guest`, `protocol`, `serve`, `bundle`, `bridge_ref`,
    `macro_text`, `actor`, `text` — response compression policy and the gzipped
    reply, URL and reply handling, the guest serve loops' decisions, the attach
    protocol, connection context, bundle identity, bridge references and macro
    argument texts, and the text and number helpers the rest is written with.
  - `outside` — the calls into `flate2`, `tungstenite`, `serde_json`, `sha2` and the
    unspecified parts of std, each with the contract the library relies on.
- `tests/` — tests of the library's behaviour on concrete values.
- `app/` — the I/O around it: the tokio frame transport, hyper responses, TLS, JSON,
  the REPL and auth-hook traits, and macro token generation.
