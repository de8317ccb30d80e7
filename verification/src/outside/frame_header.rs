//! WebSocket frame headers through tungstenite's frame primitives.

use std::io::Cursor;

use tokio_tungstenite::tungstenite::protocol::frame::coding::OpCode;
use tokio_tungstenite::tungstenite::protocol::frame::FrameHeader;
use vstd::prelude::*;

verus! {

/// An outside frame-header error.
#[verifier::external_type_specification]
#[verifier::external_body]
pub struct ExTungsteniteError(tokio_tungstenite::tungstenite::Error);

/// An outside I/O error.
#[verifier::external_type_specification]
#[verifier::external_body]
pub struct ExIoError(std::io::Error);

/// A parsed frame header: the flag bits, the 4-bit opcode, the client mask, the
/// declared payload length, and how many bytes the header occupied.
#[derive(Clone, Copy, Debug, PartialEq, Eq)]
pub struct FrameHead {
    pub fin: bool,
    pub rsv1: bool,
    pub rsv2: bool,
    pub rsv3: bool,
    pub opcode: u8,
    pub mask: Option<[u8; 4]>,
    pub len: u64,
    pub header_len: usize,
}

/// What tungstenite's `FrameHeader::parse` makes of the start of `buf`: `None` when
/// it refuses the header, `Some(None)` when more bytes are needed, else the header.
pub uninterp spec fn ws_header_parse(buf: Seq<u8>) -> Option<Option<FrameHead>>;

/// The header bytes tungstenite's `FrameHeader::format` writes for these fields and a
/// payload of `len` bytes.
pub uninterp spec fn ws_header_format(
    fin: bool,
    rsv1: bool,
    rsv2: bool,
    rsv3: bool,
    opcode: u8,
    mask: Option<[u8; 4]>,
    len: u64,
) -> Seq<u8>;

/// `FrameHeader::parse` over a cursor at the start of `buf`. Claims the named outcome,
/// and — as the source shows — that the header lies within `buf` and its opcode is a
/// 4-bit code.
#[verifier::external_body]
pub(crate) fn parse_frame_header(buf: &[u8]) -> (r: Result<Option<FrameHead>, tokio_tungstenite::tungstenite::Error>)
    ensures
        r is Err <==> ws_header_parse(buf@) is None,
        r matches Ok(h) ==> ws_header_parse(buf@) == Some(h),
        r matches Ok(Some(h)) ==> h.header_len <= buf@.len() && h.opcode <= 15,
{
    let mut cursor = Cursor::new(buf);
    let parsed = FrameHeader::parse(&mut cursor)?;
    Ok(parsed.map(|(h, len)| FrameHead {
        fin: h.is_final,
        rsv1: h.rsv1,
        rsv2: h.rsv2,
        rsv3: h.rsv3,
        opcode: u8::from(h.opcode),
        mask: h.mask,
        len,
        header_len: cursor.position() as usize,
    }))
}

/// Whether a 4-bit code is one tungstenite's parser accepts (not a reserved opcode).
pub open spec fn known_opcode(code: u8) -> bool {
    code == 0 || code == 1 || code == 2 || code == 8 || code == 9 || code == 10
}

/// `FrameHeader::format` into a fresh buffer. Claims that it succeeds (its only fallible
/// steps are `write_all` calls on a `Vec`, which grows as needed), that it yields the named
/// header bytes, and — as the source shows, `parse` reading back exactly the fields
/// and the minimal length encoding `format` writes — that a header with a known
/// opcode parses back, whatever follows it, to its fields and its own length.
#[verifier::external_body]
pub(crate) fn format_frame_header(
    fin: bool,
    rsv1: bool,
    rsv2: bool,
    rsv3: bool,
    opcode: u8,
    mask: Option<[u8; 4]>,
    len: u64,
) -> (r: Result<Vec<u8>, tokio_tungstenite::tungstenite::Error>)
    requires
        opcode <= 15,
    ensures
        r is Ok,
        r matches Ok(v) ==> v@ == ws_header_format(fin, rsv1, rsv2, rsv3, opcode, mask, len),
        r matches Ok(v) ==> (known_opcode(opcode) ==> forall|rest: Seq<u8>|
            #[trigger] ws_header_parse(v@ + rest) == Some(
                Some(FrameHead { fin, rsv1, rsv2, rsv3, opcode, mask, len, header_len: v@.len() as usize }),
            )),
{
    let header = FrameHeader { is_final: fin, rsv1, rsv2, rsv3, opcode: OpCode::from(opcode), mask };
    let mut head = Vec::new();
    header.format(len, &mut head)?;
    Ok(head)
}

} // verus!
