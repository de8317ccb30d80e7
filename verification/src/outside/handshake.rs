//! The WebSocket accept key, through tungstenite.

use vstd::prelude::*;

verus! {

/// The `Sec-WebSocket-Accept` value for a client's `Sec-WebSocket-Key`: the base64 of
/// the SHA-1 of the key followed by the RFC 6455 GUID.
pub uninterp spec fn accept_key_of(key: Seq<u8>) -> Seq<char>;

/// `tungstenite::handshake::derive_accept_key`. Claims only the named result.
#[verifier::external_body]
pub(crate) fn derive_accept_key(key: &[u8]) -> (r: String)
    ensures
        r@ == accept_key_of(key@),
{
    tokio_tungstenite::tungstenite::handshake::derive_accept_key(key)
}

} // verus!
