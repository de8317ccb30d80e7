//! DEFLATE and gzip through `flate2`.

use std::io::Write;

use flate2::write::{DeflateDecoder, DeflateEncoder, GzEncoder};
use flate2::Compression;
use vstd::prelude::*;

verus! {

/// The raw DEFLATE stream `flate2` produces for `data` at the default level, up to and
/// including a sync flush, or `None` when its compressor reports an error for that input.
pub uninterp spec fn deflate_sync_flush(data: Seq<u8>) -> Option<Seq<u8>>;

/// What `flate2`'s raw DEFLATE decoder writes out for `data` followed by `tail`, or
/// `None` when it refuses the input.
pub uninterp spec fn inflate_raw(data: Seq<u8>, tail: Seq<u8>) -> Option<Seq<u8>>;

/// The complete gzip member `flate2` produces for `data` at the default level, or `None`
/// when its encoder reports an error for that input.
pub uninterp spec fn gzip_of(data: Seq<u8>) -> Option<Seq<u8>>;

/// The LEN/NLEN of an empty stored block, `00 00 ff ff`: the last bytes of a sync flush.
pub open spec fn empty_stored_block_len() -> Seq<u8> {
    seq![0x00u8, 0x00u8, 0xffu8, 0xffu8]
}

/// `flate2::write::DeflateEncoder` at the default level: write `data`, sync-flush, and
/// take the bytes produced. Claims that the outcome is the named one (the stream on
/// success, a failure exactly when the compressor reports one: the encoder writes into a
/// `Vec`, which takes every byte, and the compressor is a function of its input), and what
/// flate2's source shows of a sync flush: it completes the data's blocks and follows
/// them with an empty stored block (its header bits, then `00 00 ff ff`), so the stream
/// ends with those four bytes after at least one more, and inflating it gives back
/// `data`.
#[verifier::external_body]
pub(crate) fn deflate_sync(data: &[u8]) -> (r: Result<Vec<u8>, std::io::Error>)
    ensures
        r matches Ok(v) ==> deflate_sync_flush(data@) == Some(v@),
        r is Err ==> deflate_sync_flush(data@) is None,
        r matches Ok(v) ==> v@.len() >= 5 && v@.subrange(v@.len() - 4, v@.len() as int)
            == empty_stored_block_len() && inflate_raw(
            v@.subrange(0, v@.len() - 4),
            empty_stored_block_len(),
        ) == Some(data@),
{
    let mut encoder = DeflateEncoder::new(Vec::new(), Compression::default());
    encoder.write_all(data)?;
    encoder.flush()?;
    Ok(std::mem::take(encoder.get_mut()))
}

/// `flate2::write::DeflateDecoder`: write `data` then `tail`, flush, and take the bytes
/// produced. Claims that the outcome is the named one: the output on success, and a
/// failure exactly when the decoder refuses the input.
#[verifier::external_body]
pub(crate) fn inflate(data: &[u8], tail: &[u8]) -> (r: Result<Vec<u8>, std::io::Error>)
    ensures
        r matches Ok(v) ==> inflate_raw(data@, tail@) == Some(v@),
        r is Err ==> inflate_raw(data@, tail@) is None,
{
    let mut decoder = DeflateDecoder::new(Vec::new());
    decoder.write_all(data)?;
    decoder.write_all(tail)?;
    decoder.flush()?;
    Ok(std::mem::take(decoder.get_mut()))
}

/// The fixed header of the members `flate2`'s `GzEncoder` writes at the default level:
/// magic `1f 8b`, method 8 (deflate), no flags, mtime 0, no extra flags, OS 255.
pub open spec fn gzip_header() -> Seq<u8> {
    seq![0x1fu8, 0x8bu8, 8u8, 0u8, 0u8, 0u8, 0u8, 0u8, 0u8, 255u8]
}

/// `n` as four little-endian bytes.
pub open spec fn le32(n: nat) -> Seq<u8> {
    seq![(n % 256) as u8, ((n / 256) % 256) as u8, ((n / 65536) % 256) as u8, ((n / 16777216) % 256) as u8]
}

/// Whether `member` is a gzip member of `data` as `GzEncoder` lays it out: the fixed
/// header, a complete raw DEFLATE stream that inflates back to `data`, then the CRC-32
/// and the length of `data` modulo 2^32, little-endian.
pub open spec fn gzip_member_of(member: Seq<u8>, data: Seq<u8>) -> bool {
    &&& member.len() >= 18
    &&& member.subrange(0, 10) == gzip_header()
    &&& inflate_raw(member.subrange(10, member.len() - 8), Seq::empty()) == Some(data)
    &&& member.subrange(member.len() - 4, member.len() as int) == le32(data.len() % 0x1_0000_0000)
}

/// `flate2::write::GzEncoder` at the default level: write `data` and finish the member.
/// Claims that the outcome is the named one: the member on success, and a failure exactly
/// when the encoder reports one for this input. The encoder writes into a `Vec`, which
/// takes every byte, so an error can only come from the compressor itself, and the
/// compressor is a function of the bytes it is given. Claims too what flate2's source
/// shows of the member's layout (`GzBuilder`'s default header, the finished raw DEFLATE
/// stream, then the CRC-32 and length trailer), so that the member decompresses back to
/// `data`.
#[verifier::external_body]
pub(crate) fn gzip_all(data: &[u8]) -> (r: Result<Vec<u8>, std::io::Error>)
    ensures
        r matches Ok(v) ==> gzip_of(data@) == Some(v@),
        r is Err ==> gzip_of(data@) is None,
        r matches Ok(v) ==> gzip_member_of(v@, data@),
{
    let mut encoder = GzEncoder::new(Vec::new(), Compression::default());
    encoder.write_all(data)?;
    encoder.finish()
}

} // verus!
