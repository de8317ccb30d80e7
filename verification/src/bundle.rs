//! The identity of a dynamic bundle in the compile cache: the SHA-256 of its bytes,
//! never its source, so identical bytes from any source share one compile and a
//! source serving new bytes is a new entry.

use vstd::prelude::*;
use crate::outside::digest::{sha256, sha256_of};

verus! {

/// The cache identity of a bundle.
pub type ContentHash = [u8; 32];

/// SHA-256 of `bytes` — the content hash that keys the compile cache. Equal bytes
/// give equal hashes, whatever their source.
pub fn content_hash(bytes: &[u8]) -> (h: ContentHash)
    ensures
        h@ == sha256_of(bytes@),
{
    sha256(bytes)
}

} // verus!
