//! The WebSocket frame transport (server role) with permessage-deflate (RFC 7692).
//!
//! Frames are parsed and formatted with tungstenite's header primitives; the rest —
//! the payload cut, unmasking, the size caps, message assembly from fragments,
//! decompression and the control-frame rules of RFC 6455 — is stated and proved
//! here. Compression uses no-context-takeover in both directions, so each message
//! is (de)compressed standalone.

use vstd::prelude::*;
use vstd::utf8::*;
use vstd::string::*;
use crate::outside::flate::{deflate_sync, deflate_sync_flush, empty_stored_block_len, inflate, inflate_raw};
use crate::outside::frame_header::{format_frame_header, parse_frame_header, ws_header_format, ws_header_parse, FrameHead};
use crate::outside::utf8::{from_utf8_lossy, utf8_lossy};
use crate::text::{chars_of, first_piece, lemma_first_piece, lemma_split_piece, range_eq, split, trim, trim_bounds};

verus! {

broadcast use {encode_utf8_valid_utf8, encode_utf8_decode_utf8};

/// Data opcodes (RFC 6455 §5.2).
#[derive(Clone, Copy, Debug, PartialEq, Eq, Structural)]
pub enum DataKind {
    /// 0x0: a continuation of a fragmented message.
    Continue,
    /// 0x1: a text frame.
    Text,
    /// 0x2: a binary frame.
    Binary,
    /// 0x3–0x7: reserved.
    Reserved(u8),
}

/// Control opcodes (RFC 6455 §5.5).
#[derive(Clone, Copy, Debug, PartialEq, Eq, Structural)]
pub enum ControlKind {
    /// 0x8: close.
    Close,
    /// 0x9: ping.
    Ping,
    /// 0xA: pong.
    Pong,
    /// 0xB–0xF: reserved.
    Reserved(u8),
}

/// A frame opcode.
#[derive(Clone, Copy, Debug, PartialEq, Eq, Structural)]
pub enum Opcode {
    Data(DataKind),
    Control(ControlKind),
}

/// The opcode a 4-bit code denotes.
pub open spec fn spec_opcode_of(code: u8) -> Opcode {
    if code == 0 {
        Opcode::Data(DataKind::Continue)
    } else if code == 1 {
        Opcode::Data(DataKind::Text)
    } else if code == 2 {
        Opcode::Data(DataKind::Binary)
    } else if code <= 7 {
        Opcode::Data(DataKind::Reserved(code))
    } else if code == 8 {
        Opcode::Control(ControlKind::Close)
    } else if code == 9 {
        Opcode::Control(ControlKind::Ping)
    } else if code == 10 {
        Opcode::Control(ControlKind::Pong)
    } else {
        Opcode::Control(ControlKind::Reserved(code))
    }
}

/// The 4-bit code of an opcode.
pub open spec fn spec_opcode_code(op: Opcode) -> u8 {
    match op {
        Opcode::Data(DataKind::Continue) => 0,
        Opcode::Data(DataKind::Text) => 1,
        Opcode::Data(DataKind::Binary) => 2,
        Opcode::Data(DataKind::Reserved(c)) => c,
        Opcode::Control(ControlKind::Close) => 8,
        Opcode::Control(ControlKind::Ping) => 9,
        Opcode::Control(ControlKind::Pong) => 10,
        Opcode::Control(ControlKind::Reserved(c)) => c,
    }
}

/// Whether an opcode is well formed: a reserved code lies in its reserved range.
pub open spec fn opcode_wf(op: Opcode) -> bool {
    match op {
        Opcode::Data(DataKind::Reserved(c)) => 3 <= c <= 7,
        Opcode::Control(ControlKind::Reserved(c)) => 11 <= c <= 15,
        _ => true,
    }
}

impl Opcode {
    /// The opcode of a 4-bit code.
    pub fn from_code(code: u8) -> (r: Opcode)
        requires
            code <= 15,
        ensures
            r == spec_opcode_of(code),
            opcode_wf(r),
            spec_opcode_code(r) == code,
    {
        if code == 0 {
            Opcode::Data(DataKind::Continue)
        } else if code == 1 {
            Opcode::Data(DataKind::Text)
        } else if code == 2 {
            Opcode::Data(DataKind::Binary)
        } else if code <= 7 {
            Opcode::Data(DataKind::Reserved(code))
        } else if code == 8 {
            Opcode::Control(ControlKind::Close)
        } else if code == 9 {
            Opcode::Control(ControlKind::Ping)
        } else if code == 10 {
            Opcode::Control(ControlKind::Pong)
        } else {
            Opcode::Control(ControlKind::Reserved(code))
        }
    }

    /// The 4-bit code of this opcode.
    pub fn code(&self) -> (r: u8)
        ensures
            r == spec_opcode_code(*self),
    {
        match *self {
            Opcode::Data(DataKind::Continue) => 0,
            Opcode::Data(DataKind::Text) => 1,
            Opcode::Data(DataKind::Binary) => 2,
            Opcode::Data(DataKind::Reserved(c)) => c,
            Opcode::Control(ControlKind::Close) => 8,
            Opcode::Control(ControlKind::Ping) => 9,
            Opcode::Control(ControlKind::Pong) => 10,
            Opcode::Control(ControlKind::Reserved(c)) => c,
        }
    }
}

/// A well-formed opcode round-trips through its code.
pub proof fn lemma_opcode_code_roundtrip(op: Opcode)
    requires
        opcode_wf(op),
    ensures
        spec_opcode_code(op) <= 15,
        spec_opcode_of(spec_opcode_code(op)) == op,
{
}

/// One raw WebSocket frame (server view): the bits the message layer needs.
#[derive(Debug, Clone)]
pub struct RawFrame {
    pub fin: bool,
    pub rsv1: bool,
    pub opcode: Opcode,
    pub payload: Vec<u8>,
}

/// A frame as plain values.
pub struct FrameView {
    pub fin: bool,
    pub rsv1: bool,
    pub opcode: Opcode,
    pub payload: Seq<u8>,
}

impl View for RawFrame {
    type V = FrameView;

    open spec fn view(&self) -> FrameView {
        FrameView { fin: self.fin, rsv1: self.rsv1, opcode: self.opcode, payload: self.payload@ }
    }
}

/// A fully assembled WebSocket message.
#[derive(Debug, Clone, PartialEq)]
pub enum WsMessage {
    Text(Vec<u8>),
    Binary(Vec<u8>),
    Ping(Vec<u8>),
    Pong(Vec<u8>),
    /// A close, with its optional code and reason.
    Close(Option<(u16, String)>),
}

/// A message as plain values.
pub enum MessageView {
    Text(Seq<u8>),
    Binary(Seq<u8>),
    Ping(Seq<u8>),
    Pong(Seq<u8>),
    Close(Option<(u16, Seq<char>)>),
}

impl View for WsMessage {
    type V = MessageView;

    open spec fn view(&self) -> MessageView {
        match self {
            WsMessage::Text(d) => MessageView::Text(d@),
            WsMessage::Binary(d) => MessageView::Binary(d@),
            WsMessage::Ping(d) => MessageView::Ping(d@),
            WsMessage::Pong(d) => MessageView::Pong(d@),
            WsMessage::Close(None) => MessageView::Close(None),
            WsMessage::Close(Some((code, reason))) => MessageView::Close(Some((*code, reason@))),
        }
    }
}

/// Why a frame or message was refused.
#[derive(Debug)]
pub enum CodecError {
    /// The frame header could not be parsed (tungstenite refused it).
    Header(tokio_tungstenite::tungstenite::Error),
    /// RSV2 or RSV3 is set; no negotiated extension defines them.
    ReservedBits,
    /// A frame's declared payload exceeds the per-frame size cap.
    FrameTooLarge,
    /// A control frame that is fragmented, longer than 125 bytes, or compressed.
    InvalidControlFrame,
    /// A control frame with a reserved opcode.
    ReservedControlOpcode,
    /// A data frame with a reserved opcode.
    ReservedDataOpcode,
    /// A new data message started while a fragmented one is still open.
    DataFrameMidFragment,
    /// RSV1 (compressed) set on a connection that did not negotiate permessage-deflate.
    CompressedWithoutDeflate,
    /// A continuation frame with no message to continue.
    ContinuationWithoutStart,
    /// RSV1 set on a continuation frame (it belongs on the first frame only).
    Rsv1OnContinuation,
    /// A message exceeds the message-size cap.
    MessageTooLarge,
    /// A compressed message inflates past the message-size cap.
    DecompressedTooLarge,
    /// The compressed payload does not inflate.
    Inflate(std::io::Error),
    /// The compressor failed.
    Deflate(std::io::Error),
}

// ── Masking ──────────────────────────────────────────────────────────────────

/// `payload` XORed with the repeating 4-byte `mask` (RFC 6455 §5.3).
pub open spec fn masked(payload: Seq<u8>, mask: [u8; 4]) -> Seq<u8> {
    Seq::new(payload.len(), |i: int| payload[i] ^ mask[i % 4])
}

/// In-place WebSocket masking and unmasking: XOR each byte with the 4-byte key.
pub fn apply_mask(payload: &mut Vec<u8>, mask: [u8; 4])
    ensures
        final(payload)@ == masked(old(payload)@, mask),
{
    let n = payload.len();
    let mut i: usize = 0;
    while i < n
        invariant
            n == old(payload)@.len(),
            payload@.len() == n,
            i <= n,
            forall|j: int| 0 <= j < i ==> payload@[j] == old(payload)@[j] ^ mask[j % 4],
            forall|j: int| i <= j < n ==> payload@[j] == old(payload)@[j],
        decreases n - i,
    {
        assert((i & 3) == i % 4) by (bit_vector);
        let b = payload[i] ^ mask[i & 3];
        payload.set(i, b);
        i = i + 1;
    }
    assert(payload@ =~= masked(old(payload)@, mask));
}

/// Masking is its own inverse: applying the same key twice restores the payload.
pub proof fn lemma_mask_involution(payload: Seq<u8>, mask: [u8; 4])
    ensures
        masked(masked(payload, mask), mask) == payload,
{
    assert forall|i: int| 0 <= i < payload.len() implies masked(masked(payload, mask), mask)[i]
        == payload[i] by {
        let a = payload[i];
        let m = mask[i % 4];
        assert((a ^ m) ^ m == a) by (bit_vector);
    }
    assert(masked(masked(payload, mask), mask) =~= payload);
}

// ── Extension negotiation ────────────────────────────────────────────────────

/// Whether a `Sec-WebSocket-Extensions` value offers permessage-deflate: some
/// comma-separated offer whose extension token (before any `;` parameters),
/// trimmed, is exactly `permessage-deflate`.
pub open spec fn offers_permessage_deflate(extensions: Seq<char>) -> bool {
    exists|q: int|
        0 <= q < split(extensions, ',').len() && trim(
            first_piece(#[trigger] split(extensions, ',')[q], ';'),
        ) == "permessage-deflate"@
}

/// The `Sec-WebSocket-Extensions` value echoed in the `101` when the client offers
/// permessage-deflate: no context takeover in either direction.
pub open spec fn deflate_response() -> Seq<char> {
    "permessage-deflate; client_no_context_takeover; server_no_context_takeover"@
}

/// Whether `s[st..i]`'s extension token, trimmed, equals `token`.
fn offer_names(s: &Vec<char>, st: usize, i: usize, token: &Vec<char>) -> (r: bool)
    requires
        st <= i <= s.len(),
    ensures
        r == (trim(first_piece(s@.subrange(st as int, i as int), ';')) == token@),
{
    let ghost piece = s@.subrange(st as int, i as int);
    let mut f = st;
    while f < i && s[f] != ';'
        invariant
            st <= f <= i <= s@.len(),
            forall|j: int| st <= j < f ==> s@[j] != ';',
        decreases i - f,
    {
        f = f + 1;
    }
    proof {
        assert forall|j: int| 0 <= j < f - st implies piece[j] != ';' by {
            assert(piece[j] == s@[st + j]);
        }
        if f < i {
            assert(piece[f - st] == s@[f as int]);
        }
        lemma_first_piece(piece, ';', f - st);
        assert(piece.subrange(0, f - st) =~= s@.subrange(st as int, f as int));
    }
    let (a, b) = trim_bounds(s, st, f);
    range_eq(s, a, b, token)
}

/// Whether the client's `Sec-WebSocket-Extensions` offers permessage-deflate, and the
/// value to echo in the `101` when it does.
pub fn negotiate_permessage_deflate(extensions: Option<&str>) -> (r: Option<String>)
    ensures
        r matches Some(v) ==> extensions matches Some(e) && offers_permessage_deflate(e@)
            && v@ == deflate_response(),
        r is None ==> !(extensions matches Some(e) && offers_permessage_deflate(e@)),
{
    let ext = match extensions {
        Some(e) => e,
        None => return None,
    };
    let s = chars_of(ext);
    let token = chars_of("permessage-deflate");
    let n = s.len();
    let mut found = false;
    let mut st: usize = 0;
    let mut i: usize = 0;
    let ghost mut done: Seq<Seq<char>> = Seq::empty();
    while i < n
        invariant
            s@ == ext@,
            n == s@.len(),
            token@ == "permessage-deflate"@,
            st <= i <= n,
            st == 0 || s@[st - 1] == ',',
            forall|j: int| st <= j < i ==> s@[j] != ',',
            done == (if st == 0 {
                Seq::<Seq<char>>::empty()
            } else {
                split(s@.subrange(0, st - 1), ',')
            }),
            found == exists|q: int|
                0 <= q < done.len() && trim(first_piece(#[trigger] done[q], ';'))
                    == "permessage-deflate"@,
        decreases n - i,
    {
        if s[i] == ',' {
            proof {
                lemma_split_piece(s@, ',', st as int, i as int);
            }
            let hit = offer_names(&s, st, i, &token);
            proof {
                let piece = s@.subrange(st as int, i as int);
                let old_done = done;
                done = old_done.push(piece);
                lemma_found_extend(old_done, piece, found, hit);
            }
            found = found || hit;
            st = i + 1;
        }
        i = i + 1;
    }
    proof {
        lemma_split_piece(s@, ',', st as int, n as int);
        assert(s@.subrange(0, n as int) =~= s@);
    }
    let hit = offer_names(&s, st, n, &token);
    proof {
        let piece = s@.subrange(st as int, n as int);
        lemma_found_extend(done, piece, found, hit);
    }
    if found || hit {
        Some(String::from_str("permessage-deflate; client_no_context_takeover; server_no_context_takeover"))
    } else {
        None
    }
}

/// Appending one offer to the scanned list extends "some offer names the token" by it.
proof fn lemma_found_extend(done: Seq<Seq<char>>, piece: Seq<char>, found: bool, hit: bool)
    requires
        found == exists|q: int|
            0 <= q < done.len() && trim(first_piece(#[trigger] done[q], ';'))
                == "permessage-deflate"@,
        hit == (trim(first_piece(piece, ';')) == "permessage-deflate"@),
    ensures
        (found || hit) == exists|q: int|
            0 <= q < done.push(piece).len() && trim(first_piece(#[trigger] done.push(piece)[q], ';'))
                == "permessage-deflate"@,
{
    let d = done.push(piece);
    if hit {
        assert(d[done.len() as int] == piece);
    }
    if found {
        let q = choose|q: int|
            0 <= q < done.len() && trim(first_piece(#[trigger] done[q], ';'))
                == "permessage-deflate"@;
        assert(d[q] == done[q]);
    }
    if exists|q: int|
        0 <= q < d.len() && trim(first_piece(#[trigger] d[q], ';')) == "permessage-deflate"@ {
        let q = choose|q: int|
            0 <= q < d.len() && trim(first_piece(#[trigger] d[q], ';')) == "permessage-deflate"@;
        if q < done.len() {
            assert(d[q] == done[q]);
        }
    }
}


/// The kind of a `CodecError`, as a plain value.
#[derive(Clone, Copy, Debug, PartialEq, Eq, Structural)]
pub enum ErrorKind {
    Header,
    ReservedBits,
    FrameTooLarge,
    InvalidControlFrame,
    ReservedControlOpcode,
    ReservedDataOpcode,
    DataFrameMidFragment,
    CompressedWithoutDeflate,
    ContinuationWithoutStart,
    Rsv1OnContinuation,
    MessageTooLarge,
    DecompressedTooLarge,
    Inflate,
    Deflate,
}

impl View for CodecError {
    type V = ErrorKind;

    open spec fn view(&self) -> ErrorKind {
        match self {
            CodecError::Header(_) => ErrorKind::Header,
            CodecError::ReservedBits => ErrorKind::ReservedBits,
            CodecError::FrameTooLarge => ErrorKind::FrameTooLarge,
            CodecError::InvalidControlFrame => ErrorKind::InvalidControlFrame,
            CodecError::ReservedControlOpcode => ErrorKind::ReservedControlOpcode,
            CodecError::ReservedDataOpcode => ErrorKind::ReservedDataOpcode,
            CodecError::DataFrameMidFragment => ErrorKind::DataFrameMidFragment,
            CodecError::CompressedWithoutDeflate => ErrorKind::CompressedWithoutDeflate,
            CodecError::ContinuationWithoutStart => ErrorKind::ContinuationWithoutStart,
            CodecError::Rsv1OnContinuation => ErrorKind::Rsv1OnContinuation,
            CodecError::MessageTooLarge => ErrorKind::MessageTooLarge,
            CodecError::DecompressedTooLarge => ErrorKind::DecompressedTooLarge,
            CodecError::Inflate(_) => ErrorKind::Inflate,
            CodecError::Deflate(_) => ErrorKind::Deflate,
        }
    }
}

// ── permessage-deflate payload transform ─────────────────────────────────────

/// The empty-block marker a DEFLATE sync flush ends with; permessage-deflate strips
/// it on the wire and the receiver appends it back (RFC 7692 §7.2.1, §7.2.2).
pub open spec fn sync_tail() -> Seq<u8> {
    seq![0x00u8, 0x00u8, 0xffu8, 0xffu8]
}

/// A sync-flushed DEFLATE stream as permessage-deflate sends it: its trailing marker
/// removed, and an empty result sent as a single `0x00` byte (RFC 7692 §7.2.3.6).
pub open spec fn stripped_stream(out: Seq<u8>) -> Seq<u8> {
    let stripped = if out.len() >= 4 && out.subrange(out.len() - 4, out.len() as int)
        == sync_tail() {
        out.subrange(0, out.len() - 4)
    } else {
        out
    };
    if stripped.len() == 0 {
        seq![0x00u8]
    } else {
        stripped
    }
}

/// The permessage-deflate payload of `data`, or `None` when the compressor refuses it.
pub open spec fn deflated_payload(data: Seq<u8>) -> Option<Seq<u8>> {
    match deflate_sync_flush(data) {
        Some(out) => Some(stripped_stream(out)),
        None => None,
    }
}

/// The result of inflating one permessage-deflate payload under an optional cap.
pub open spec fn inflated_payload(data: Seq<u8>, max: Option<usize>) -> Result<Seq<u8>, ErrorKind> {
    match inflate_raw(data, sync_tail()) {
        None => Err(ErrorKind::Inflate),
        Some(out) => if max matches Some(m) && out.len() > m {
            Err(ErrorKind::DecompressedTooLarge)
        } else {
            Ok(out)
        },
    }
}

/// Compress one message standalone (no context takeover): DEFLATE with a sync flush,
/// then strip the trailing empty-block marker.
pub fn deflate_message(data: &[u8]) -> (r: Result<Vec<u8>, CodecError>)
    ensures
        (match deflated_payload(data@) {
            Some(p) => r matches Ok(v) && v@ == p,
            None => r matches Err(e) && e@ == ErrorKind::Deflate,
        }),
        r matches Ok(v) ==> forall|max: Option<usize>|
            !(max matches Some(m) && data@.len() > m) ==> #[trigger] inflated_payload(v@, max)
                == Ok::<Seq<u8>, ErrorKind>(data@),
{
    let mut out = match deflate_sync(data) {
        Ok(v) => v,
        Err(e) => return Err(CodecError::Deflate(e)),
    };
    let ghost full = out@;
    let n = out.len();
    if n >= 4 && out[n - 4] == 0x00 && out[n - 3] == 0x00 && out[n - 2] == 0xff && out[n - 1] == 0xff {
        assert(full.subrange(n - 4, n as int) =~= sync_tail());
        out.truncate(n - 4);
        assert(out@ =~= full.subrange(0, n - 4));
    } else {
        assert(!(n >= 4 && full.subrange(n - 4, n as int) == sync_tail())) by {
            if n >= 4 && full.subrange(n - 4, n as int) == sync_tail() {
                assert(full.subrange(n - 4, n as int)[0] == full[n - 4]);
                assert(full.subrange(n - 4, n as int)[1] == full[n - 3]);
                assert(full.subrange(n - 4, n as int)[2] == full[n - 2]);
                assert(full.subrange(n - 4, n as int)[3] == full[n - 1]);
            }
        }
    }
    if out.len() == 0 {
        out.push(0x00);
        assert(out@ =~= seq![0x00u8]);
    }
    proof {
        assert(sync_tail() == empty_stored_block_len());
        assert(out@ == full.subrange(0, full.len() - 4));
    }
    Ok(out)
}

/// Inflate one permessage-deflate payload: append the stripped marker, raw-inflate,
/// and refuse a result longer than `max` (a deflate-bomb guard).
pub fn inflate_message(data: &[u8], max: Option<usize>) -> (r: Result<Vec<u8>, CodecError>)
    ensures
        match inflated_payload(data@, max) {
            Ok(out) => r matches Ok(v) && v@ == out,
            Err(k) => r matches Err(e) && e@ == k,
        },
{
    let tail: [u8; 4] = [0x00, 0x00, 0xff, 0xff];
    assert(tail@ =~= sync_tail());
    let out = match inflate(data, &tail) {
        Ok(v) => v,
        Err(e) => return Err(CodecError::Inflate(e)),
    };
    if let Some(m) = max {
        if out.len() > m {
            return Err(CodecError::DecompressedTooLarge);
        }
    }
    Ok(out)
}

// ── Close frames ─────────────────────────────────────────────────────────────

/// The payload of a close frame: the status code big-endian, then the UTF-8 reason.
pub open spec fn close_payload_of(code: u16, reason: Seq<char>) -> Seq<u8> {
    seq![(code / 256) as u8, (code % 256) as u8] + encode_utf8(reason)
}

/// The text of a close reason: the bytes decoded, invalid sequences replaced.
pub open spec fn reason_text(bytes: Seq<u8>) -> Seq<char> {
    if valid_utf8(bytes) {
        decode_utf8(bytes)
    } else {
        utf8_lossy(bytes)
    }
}

/// A close payload read back: `None` when it carries no code, else the big-endian
/// code and the reason text.
pub open spec fn parsed_close(payload: Seq<u8>) -> Option<(u16, Seq<char>)> {
    if payload.len() < 2 {
        None
    } else {
        Some(
            (
                (payload[0] as int * 256 + payload[1] as int) as u16,
                reason_text(payload.subrange(2, payload.len() as int)),
            ),
        )
    }
}

/// The payload of a close frame with `code` and `reason`.
pub fn close_payload(code: u16, reason: &str) -> (r: Vec<u8>)
    ensures
        r@ == close_payload_of(code, reason@),
{
    let mut payload: Vec<u8> = Vec::new();
    payload.push((code / 256) as u8);
    payload.push((code % 256) as u8);
    let bytes = reason.as_bytes();
    let mut i: usize = 0;
    while i < bytes.len()
        invariant
            bytes@ == encode_utf8(reason@),
            i <= bytes@.len(),
            payload@ == seq![(code / 256) as u8, (code % 256) as u8] + bytes@.subrange(0, i as int),
        decreases bytes@.len() - i,
    {
        payload.push(bytes[i]);
        i = i + 1;
        assert(payload@ =~= seq![(code / 256) as u8, (code % 256) as u8] + bytes@.subrange(0, i as int));
    }
    assert(bytes@.subrange(0, bytes@.len() as int) =~= bytes@);
    payload
}

/// Parse a close payload into its code and reason (fewer than two bytes = no code).
pub fn parse_close(payload: &[u8]) -> (r: Option<(u16, String)>)
    ensures
        match parsed_close(payload@) {
            None => r is None,
            Some((code, reason)) => r matches Some((c, s)) && c == code && s@ == reason,
        },
{
    if payload.len() < 2 {
        return None;
    }
    let code = (payload[0] as u16) * 256 + (payload[1] as u16);
    let rest = &payload[2..payload.len()];
    assert(rest@ =~= payload@.subrange(2, payload@.len() as int));
    let reason = from_utf8_lossy(rest);
    Some((code, reason))
}

/// A close frame's payload reads back as the code and reason it was built from.
pub proof fn lemma_close_roundtrip(code: u16, reason: Seq<char>)
    ensures
        parsed_close(close_payload_of(code, reason)) == Some((code, reason)),
{
    let p = close_payload_of(code, reason);
    assert(p.subrange(2, p.len() as int) =~= encode_utf8(reason));
    assert((p[0] as int * 256 + p[1] as int) as u16 == code);
}


// ── Frame transport ──────────────────────────────────────────────────────────

/// What the decoder makes of the bytes buffered so far.
pub enum Decoded {
    /// Not a whole frame yet. `reserve` is how many more bytes the payload still
    /// needs, once the header is complete and the frame's length is representable.
    Incomplete { reserve: Option<usize> },
    /// One frame, unmasked, and the number of bytes it occupied at the buffer's start.
    Frame { frame: RawFrame, consumed: usize },
}

/// The decoder's outcome as plain values.
pub enum DecodedView {
    Incomplete { reserve: Option<usize> },
    Frame { frame: FrameView, consumed: usize },
}

impl View for Decoded {
    type V = DecodedView;

    open spec fn view(&self) -> DecodedView {
        match self {
            Decoded::Incomplete { reserve } => DecodedView::Incomplete { reserve: *reserve },
            Decoded::Frame { frame, consumed } => DecodedView::Frame { frame: frame@, consumed: *consumed },
        }
    }
}

/// The payload bytes as the client sent them: unmasked when a mask is present.
pub open spec fn unmasked(payload: Seq<u8>, mask: Option<[u8; 4]>) -> Seq<u8> {
    match mask {
        Some(m) => masked(payload, m),
        None => payload,
    }
}

/// What decoding the start of `buf` yields, under an optional per-frame size cap:
/// the header is parsed by tungstenite; RSV2/RSV3 are refused; a declared payload
/// over the cap is refused before it is buffered; a frame whose payload has not all
/// arrived asks for the rest; otherwise the frame is cut out and unmasked.
pub open spec fn decoded(buf: Seq<u8>, max_size: Option<usize>) -> Result<DecodedView, ErrorKind> {
    match ws_header_parse(buf) {
        None => Err(ErrorKind::Header),
        Some(None) => Ok(DecodedView::Incomplete { reserve: None }),
        Some(Some(h)) => {
            let len = h.len as usize;
            let total = h.header_len + len;
            if h.rsv2 || h.rsv3 {
                Err(ErrorKind::ReservedBits)
            } else if max_size matches Some(m) && len > m {
                Err(ErrorKind::FrameTooLarge)
            } else if buf.len() < total {
                Ok(
                    DecodedView::Incomplete {
                        reserve: if total <= usize::MAX {
                            Some((total - buf.len()) as usize)
                        } else {
                            None
                        },
                    },
                )
            } else {
                Ok(
                    DecodedView::Frame {
                        frame: FrameView {
                            fin: h.fin,
                            rsv1: h.rsv1,
                            opcode: spec_opcode_of(h.opcode),
                            payload: unmasked(buf.subrange(h.header_len as int, total), h.mask),
                        },
                        consumed: total as usize,
                    },
                )
            }
        },
    }
}

/// Decode one frame from the start of `buf` (the server side: client frames arrive
/// masked). Consumes nothing itself; the caller drops `consumed` bytes on success.
pub fn decode_frame(buf: &[u8], max_size: Option<usize>) -> (r: Result<Decoded, CodecError>)
    ensures
        match decoded(buf@, max_size) {
            Ok(d) => r matches Ok(v) && v@ == d,
            Err(k) => r matches Err(e) && e@ == k,
        },
        r matches Ok(Decoded::Frame { frame, .. }) ==> opcode_wf(frame.opcode),
{
    let head = match parse_frame_header(buf) {
        Err(e) => return Err(CodecError::Header(e)),
        Ok(None) => return Ok(Decoded::Incomplete { reserve: None }),
        Ok(Some(h)) => h,
    };
    if head.rsv2 || head.rsv3 {
        return Err(CodecError::ReservedBits);
    }
    let len = #[verifier::truncate] (head.len as usize);
    if let Some(m) = max_size {
        if len > m {
            return Err(CodecError::FrameTooLarge);
        }
    }
    let total = match head.header_len.checked_add(len) {
        Some(t) => t,
        None => {
            let blen = buf.len();
            assert(head.header_len + len > usize::MAX);
            assert(buf@.len() == blen);
            return Ok(Decoded::Incomplete { reserve: None });
        },
    };
    if buf.len() < total {
        return Ok(Decoded::Incomplete { reserve: Some(total - buf.len()) });
    }
    let mut payload = slice_to_vec(&buf[head.header_len..total]);
    assert(payload@ =~= buf@.subrange(head.header_len as int, total as int));
    if let Some(mask) = head.mask {
        apply_mask(&mut payload, mask);
    }
    let opcode = Opcode::from_code(head.opcode);
    Ok(Decoded::Frame { frame: RawFrame { fin: head.fin, rsv1: head.rsv1, opcode, payload }, consumed: total })
}

/// The wire form of a server frame: an unmasked header with RSV2/RSV3 clear, then
/// the payload.
pub open spec fn encoded(frame: FrameView) -> Seq<u8> {
    ws_header_format(
        frame.fin,
        frame.rsv1,
        false,
        false,
        spec_opcode_code(frame.opcode),
        None,
        frame.payload.len() as u64,
    ) + frame.payload
}

/// Whether an opcode is one a peer may send (not reserved).
pub open spec fn known(op: Opcode) -> bool {
    !(op matches Opcode::Data(DataKind::Reserved(_))) && !(op matches Opcode::Control(
        ControlKind::Reserved(_),
    ))
}

/// Encode one server frame (never masked); this always succeeds. A frame with a known opcode decodes back
/// to itself, consuming exactly the encoding, under any size cap it fits.
pub fn encode_frame(frame: &RawFrame) -> (r: Result<Vec<u8>, CodecError>)
    requires
        opcode_wf(frame.opcode),
    ensures
        r is Ok,
        r matches Ok(v) ==> v@ == encoded(frame@),
        r matches Ok(v) ==> (known(frame.opcode) ==> forall|max: Option<usize>|
            !(max matches Some(m) && frame.payload@.len() > m) ==> #[trigger] decoded(v@, max)
                == Ok::<DecodedView, ErrorKind>(
                DecodedView::Frame { frame: frame@, consumed: v@.len() as usize },
            )),
{
    let code = frame.opcode.code();
    let mut out = match format_frame_header(
        frame.fin,
        frame.rsv1,
        false,
        false,
        code,
        None,
        frame.payload.len() as u64,
    ) {
        Ok(v) => v,
        Err(e) => return Err(CodecError::Header(e)),
    };
    let ghost head = out@;
    let hlen = out.len();
    let mut i: usize = 0;
    while i < frame.payload.len()
        invariant
            i <= frame.payload@.len(),
            out@ == head + frame.payload@.subrange(0, i as int),
        decreases frame.payload@.len() - i,
    {
        out.push(frame.payload[i]);
        i = i + 1;
        assert(out@ =~= head + frame.payload@.subrange(0, i as int));
    }
    assert(frame.payload@.subrange(0, frame.payload@.len() as int) =~= frame.payload@);
    let olen = out.len();
    let plen = frame.payload.len();
    proof {
        if known(frame.opcode) {
            lemma_opcode_code_roundtrip(frame.opcode);
            assert(olen == hlen + plen);
            assert forall|max: Option<usize>|
                !(max matches Some(m) && frame.payload@.len() > m) implies #[trigger] decoded(
                out@,
                max,
            ) == Ok::<DecodedView, ErrorKind>(
                DecodedView::Frame { frame: frame@, consumed: olen },
            ) by {
                assert(ws_header_parse(head + frame.payload@) == Some(
                    Some(
                        FrameHead {
                            fin: frame.fin,
                            rsv1: frame.rsv1,
                            rsv2: false,
                            rsv3: false,
                            opcode: code,
                            mask: None,
                            len: plen as u64,
                            header_len: hlen,
                        },
                    ),
                ));
                assert(out@.subrange(head.len() as int, out@.len() as int) =~= frame.payload@);
            }
        }
    }
    Ok(out)
}

/// A copy of a byte slice.
pub fn slice_to_vec(s: &[u8]) -> (v: Vec<u8>)
    ensures
        v@ == s@,
{
    let mut v: Vec<u8> = Vec::with_capacity(s.len());
    let mut i: usize = 0;
    while i < s.len()
        invariant
            i <= s@.len(),
            v@ == s@.subrange(0, i as int),
        decreases s@.len() - i,
    {
        v.push(s[i]);
        i = i + 1;
        assert(v@ =~= s@.subrange(0, i as int));
    }
    assert(s@.subrange(0, s@.len() as int) =~= s@);
    v
}

// ── Outbound frames ──────────────────────────────────────────────────────────

/// A data message as the server sends it: one final frame, deflated with RSV1 set
/// when permessage-deflate was negotiated.
pub fn data_frame(text: bool, payload: Vec<u8>, deflate: bool) -> (r: Result<RawFrame, CodecError>)
    ensures
        r matches Ok(f) ==> f.fin && f.rsv1 == deflate && f.opcode == (if text {
            Opcode::Data(DataKind::Text)
        } else {
            Opcode::Data(DataKind::Binary)
        }) && (if deflate {
            deflated_payload(payload@) == Some(f.payload@)
        } else {
            f.payload@ == payload@
        }),
        r matches Err(e) ==> deflate && e@ == ErrorKind::Deflate,
        r is Err <==> deflate && deflated_payload(payload@) is None,
        r matches Ok(f) ==> forall|st: AssemblerView|
            st.fragment is None && (deflate ==> st.deflate) && !over_limit(
                st.max_size,
                f.payload@.len() as int,
            ) && !over_limit(st.max_size, payload@.len() as int) ==> #[trigger] assembled(st, f@).1
                == Some(
                Ok::<MessageView, ErrorKind>(
                    tagged(
                        if text {
                            DataKind::Text
                        } else {
                            DataKind::Binary
                        },
                        payload@,
                    ),
                ),
            ),
{
    let kind = if text {
        DataKind::Text
    } else {
        DataKind::Binary
    };
    if deflate {
        let body = deflate_message(payload.as_slice())?;
        Ok(RawFrame { fin: true, rsv1: true, opcode: Opcode::Data(kind), payload: body })
    } else {
        Ok(RawFrame { fin: true, rsv1: false, opcode: Opcode::Data(kind), payload })
    }
}

/// A control frame: final, never compressed (RFC 6455 §5.5).
pub fn control_frame(kind: ControlKind, payload: Vec<u8>) -> (r: RawFrame)
    ensures
        r.fin && !r.rsv1 && r.opcode == Opcode::Control(kind) && r.payload@ == payload@,
{
    RawFrame { fin: true, rsv1: false, opcode: Opcode::Control(kind), payload }
}

/// A server-initiated close frame with `code` and `reason`.
pub fn close_frame(code: u16, reason: &str) -> (r: RawFrame)
    ensures
        r.fin && !r.rsv1 && r.opcode == Opcode::Control(ControlKind::Close) && r.payload@
            == close_payload_of(code, reason@),
{
    control_frame(ControlKind::Close, close_payload(code, reason))
}


// ── Message assembly ─────────────────────────────────────────────────────────

/// The inbound message layer of one connection: whether permessage-deflate was
/// negotiated, the message-size cap, and the fragmented data message in progress
/// (its kind, whether it is compressed, and the bytes so far).
pub struct Assembler {
    deflate: bool,
    max_size: Option<usize>,
    fragment: Option<(DataKind, bool, Vec<u8>)>,
}

/// The assembler's state as plain values.
pub struct AssemblerView {
    pub deflate: bool,
    pub max_size: Option<usize>,
    pub fragment: Option<(DataKind, bool, Seq<u8>)>,
}

impl View for Assembler {
    type V = AssemblerView;

    closed spec fn view(&self) -> AssemblerView {
        AssemblerView {
            deflate: self.deflate,
            max_size: self.max_size,
            fragment: match self.fragment {
                Some((k, c, b)) => Some((k, c, b@)),
                None => None,
            },
        }
    }
}

/// A data message's bytes tagged with its kind.
pub open spec fn tagged(kind: DataKind, data: Seq<u8>) -> MessageView {
    match kind {
        DataKind::Text => MessageView::Text(data),
        _ => MessageView::Binary(data),
    }
}

/// A complete data message: decompressed when it was sent compressed.
pub open spec fn finished(kind: DataKind, compressed: bool, data: Seq<u8>, max: Option<usize>) -> Result<
    MessageView,
    ErrorKind,
> {
    if compressed {
        match inflated_payload(data, max) {
            Ok(out) => Ok(tagged(kind, out)),
            Err(k) => Err(k),
        }
    } else {
        Ok(tagged(kind, data))
    }
}

/// Whether `size` bytes exceed the message-size cap.
pub open spec fn over_limit(max: Option<usize>, size: int) -> bool {
    max matches Some(m) && size > m
}

/// One inbound frame's effect: the next state, and the message or protocol error it
/// completes (`None` while a fragmented message is still open). Control frames must
/// be final, at most 125 bytes and uncompressed, and pass through without touching a
/// fragment in progress; a data frame may not start while one is open; RSV1 marks a
/// compressed message, allowed only when negotiated and only on its first frame; a
/// continuation needs an open message; sizes are capped per message.
pub open spec fn assembled(st: AssemblerView, f: FrameView) -> (AssemblerView, Option<
    Result<MessageView, ErrorKind>,
>) {
    let len = f.payload.len() as int;
    match f.opcode {
        Opcode::Control(c) => if !f.fin || len > 125 || f.rsv1 {
            (st, Some(Err(ErrorKind::InvalidControlFrame)))
        } else {
            match c {
                ControlKind::Ping => (st, Some(Ok(MessageView::Ping(f.payload)))),
                ControlKind::Pong => (st, Some(Ok(MessageView::Pong(f.payload)))),
                ControlKind::Close => (st, Some(Ok(MessageView::Close(parsed_close(f.payload))))),
                ControlKind::Reserved(_) => (st, Some(Err(ErrorKind::ReservedControlOpcode))),
            }
        },
        Opcode::Data(DataKind::Reserved(_)) => (st, Some(Err(ErrorKind::ReservedDataOpcode))),
        Opcode::Data(DataKind::Continue) => match st.fragment {
            None => (st, Some(Err(ErrorKind::ContinuationWithoutStart))),
            Some((kind, compressed, buf)) => {
                let cleared = AssemblerView { fragment: None, ..st };
                if f.rsv1 {
                    (cleared, Some(Err(ErrorKind::Rsv1OnContinuation)))
                } else if over_limit(st.max_size, buf.len() + len) {
                    (cleared, Some(Err(ErrorKind::MessageTooLarge)))
                } else if f.fin {
                    (cleared, Some(finished(kind, compressed, buf + f.payload, st.max_size)))
                } else {
                    (
                        AssemblerView { fragment: Some((kind, compressed, buf + f.payload)), ..st },
                        None,
                    )
                }
            },
        },
        Opcode::Data(kind) => if st.fragment is Some {
            (st, Some(Err(ErrorKind::DataFrameMidFragment)))
        } else if f.rsv1 && !st.deflate {
            (st, Some(Err(ErrorKind::CompressedWithoutDeflate)))
        } else if over_limit(st.max_size, len) {
            (st, Some(Err(ErrorKind::MessageTooLarge)))
        } else if f.fin {
            (st, Some(finished(kind, f.rsv1, f.payload, st.max_size)))
        } else {
            (AssemblerView { fragment: Some((kind, f.rsv1, f.payload)), ..st }, None)
        },
    }
}

/// An assembler step's outcome as plain values.
pub open spec fn outcome_view(r: Option<Result<WsMessage, CodecError>>) -> Option<Result<MessageView, ErrorKind>> {
    match r {
        None => None,
        Some(Ok(m)) => Some(Ok(m@)),
        Some(Err(e)) => Some(Err(e@)),
    }
}

/// Whether `a + b` exceeds the cap.
fn exceeds(max: Option<usize>, a: usize, b: usize) -> (r: bool)
    ensures
        r == over_limit(max, a + b),
{
    match max {
        Some(m) => match a.checked_add(b) {
            Some(t) => t > m,
            None => true,
        },
        None => false,
    }
}

impl Assembler {
    /// A connection's inbound message layer, with no message in progress.
    pub fn new(deflate: bool, max_size: Option<usize>) -> (a: Self)
        ensures
            a@ == (AssemblerView { deflate, max_size, fragment: None }),
    {
        Assembler { deflate, max_size, fragment: None }
    }

    /// Decompress (if the message was compressed) and tag it Text/Binary.
    fn finish(&self, kind: DataKind, compressed: bool, data: Vec<u8>) -> (r: Result<WsMessage, CodecError>)
        ensures
            match finished(kind, compressed, data@, self.max_size) {
                Ok(m) => r matches Ok(v) && v@ == m,
                Err(k) => r matches Err(e) && e@ == k,
            },
    {
        let data = if compressed {
            inflate_message(data.as_slice(), self.max_size)?
        } else {
            data
        };
        Ok(
            match kind {
                DataKind::Text => WsMessage::Text(data),
                _ => WsMessage::Binary(data),
            },
        )
    }

    /// Feed one inbound frame: the message or protocol error it completes, or `None`
    /// while a fragmented message is still open.
    pub fn on_frame(&mut self, frame: RawFrame) -> (r: Option<Result<WsMessage, CodecError>>)
        ensures
            (final(self)@, outcome_view(r)) == assembled(old(self)@, frame@),
    {
        let len = frame.payload.len();
        match frame.opcode {
            Opcode::Control(control) => {
                if !frame.fin || len > 125 || frame.rsv1 {
                    return Some(Err(CodecError::InvalidControlFrame));
                }
                match control {
                    ControlKind::Ping => Some(Ok(WsMessage::Ping(frame.payload))),
                    ControlKind::Pong => Some(Ok(WsMessage::Pong(frame.payload))),
                    ControlKind::Close => Some(Ok(WsMessage::Close(parse_close(frame.payload.as_slice())))),
                    ControlKind::Reserved(_) => Some(Err(CodecError::ReservedControlOpcode)),
                }
            },
            Opcode::Data(DataKind::Reserved(_)) => Some(Err(CodecError::ReservedDataOpcode)),
            Opcode::Data(DataKind::Continue) => {
                let taken = self.fragment.take();
                match taken {
                    None => Some(Err(CodecError::ContinuationWithoutStart)),
                    Some((kind, compressed, mut buf)) => {
                        if frame.rsv1 {
                            return Some(Err(CodecError::Rsv1OnContinuation));
                        }
                        if exceeds(self.max_size, buf.len(), len) {
                            return Some(Err(CodecError::MessageTooLarge));
                        }
                        let mut more = frame.payload;
                        buf.append(&mut more);
                        if frame.fin {
                            return Some(self.finish(kind, compressed, buf));
                        }
                        self.fragment = Some((kind, compressed, buf));
                        None
                    },
                }
            },
            Opcode::Data(kind) => {
                if self.fragment.is_some() {
                    return Some(Err(CodecError::DataFrameMidFragment));
                }
                if frame.rsv1 && !self.deflate {
                    return Some(Err(CodecError::CompressedWithoutDeflate));
                }
                if exceeds(self.max_size, 0, len) {
                    return Some(Err(CodecError::MessageTooLarge));
                }
                if frame.fin {
                    return Some(self.finish(kind, frame.rsv1, frame.payload));
                }
                self.fragment = Some((kind, frame.rsv1, frame.payload));
                None
            },
        }
    }
}

/// An unfragmented, uncompressed data frame within the cap is delivered unchanged.
pub proof fn lemma_whole_frame_passes_through(st: AssemblerView, f: FrameView)
    requires
        st.fragment is None,
        f.fin,
        !f.rsv1,
        f.opcode == Opcode::Data(DataKind::Text) || f.opcode == Opcode::Data(DataKind::Binary),
        !over_limit(st.max_size, f.payload.len() as int),
    ensures
        assembled(st, f).0 == st,
        assembled(st, f).1 == Some(Ok::<MessageView, ErrorKind>(
            if f.opcode == Opcode::Data(DataKind::Text) {
                MessageView::Text(f.payload)
            } else {
                MessageView::Binary(f.payload)
            },
        )),
{
}

/// Control frames never disturb a fragmented message in progress: the state after
/// one is the state before it.
pub proof fn lemma_control_keeps_fragment(st: AssemblerView, f: FrameView)
    requires
        f.opcode is Control,
    ensures
        assembled(st, f).0 == st,
{
}

/// A non-final, uncompressed continuation within the cap appends its payload to the
/// message in progress and completes nothing.
pub proof fn lemma_continuation_appends(
    st: AssemblerView,
    f: FrameView,
    kind: DataKind,
    compressed: bool,
    buf: Seq<u8>,
)
    requires
        st.fragment == Some((kind, compressed, buf)),
        f.opcode == Opcode::Data(DataKind::Continue),
        !f.fin,
        !f.rsv1,
        !over_limit(st.max_size, (buf.len() + f.payload.len()) as int),
    ensures
        assembled(st, f).1 is None,
        assembled(st, f).0.fragment == Some((kind, compressed, buf + f.payload)),
{
}

/// A message sent as an uncompressed start frame and a final continuation arrives as
/// the concatenation of the two payloads.
pub proof fn lemma_two_fragments_concatenate(st: AssemblerView, start: FrameView, cont: FrameView)
    requires
        st.fragment is None,
        start.opcode == Opcode::Data(DataKind::Text) || start.opcode == Opcode::Data(DataKind::Binary),
        !start.fin,
        !start.rsv1,
        cont.opcode == Opcode::Data(DataKind::Continue),
        cont.fin,
        !cont.rsv1,
        !over_limit(st.max_size, (start.payload.len() + cont.payload.len()) as int),
    ensures
        assembled(st, start).1 is None,
        assembled(assembled(st, start).0, cont).0.fragment is None,
        assembled(assembled(st, start).0, cont).1 == Some(Ok::<MessageView, ErrorKind>(
            if start.opcode == Opcode::Data(DataKind::Text) {
                MessageView::Text(start.payload + cont.payload)
            } else {
                MessageView::Binary(start.payload + cont.payload)
            },
        )),
{
}

/// What a compressed message's bytes are delivered as: their raw inflation with the
/// stripped marker `00 00 ff ff` put back, refused when it fails or exceeds the cap.
pub open spec fn delivered_inflated(kind: DataKind, payload: Seq<u8>, max: Option<usize>) -> Option<
    Result<MessageView, ErrorKind>,
> {
    match inflate_raw(payload, seq![0x00u8, 0x00u8, 0xffu8, 0xffu8]) {
        None => Some(Err(ErrorKind::Inflate)),
        Some(out) => if max matches Some(m) && out.len() > m {
            Some(Err(ErrorKind::DecompressedTooLarge))
        } else if kind == DataKind::Text {
            Some(Ok(MessageView::Text(out)))
        } else {
            Some(Ok(MessageView::Binary(out)))
        },
    }
}

/// Law: on a connection that negotiated permessage-deflate, a compressed message is
/// delivered inflated whether it arrives whole or fragmented: a final RSV1 frame is
/// the inflation of its payload, and an RSV1 start frame followed by a final
/// continuation is the inflation of the two payloads joined — the first frame's RSV1
/// decides for the whole message.
pub proof fn law_compressed_messages_are_inflated(st: AssemblerView, start: FrameView, cont: FrameView)
    requires
        st.deflate,
        st.fragment is None,
        start.opcode == Opcode::Data(DataKind::Text) || start.opcode == Opcode::Data(DataKind::Binary),
        start.rsv1,
        cont.opcode == Opcode::Data(DataKind::Continue),
        cont.fin,
        !cont.rsv1,
        !over_limit(st.max_size, (start.payload.len() + cont.payload.len()) as int),
    ensures
        start.fin ==> assembled(st, start).1 == delivered_inflated(
            start.opcode->Data_0,
            start.payload,
            st.max_size,
        ),
        !start.fin ==> assembled(st, start).1 is None,
        !start.fin ==> assembled(assembled(st, start).0, cont).1 == delivered_inflated(
            start.opcode->Data_0,
            start.payload + cont.payload,
            st.max_size,
        ),
{
}

/// Law: permessage-deflate is negotiated exactly when some comma-separated offer of
/// the header, at any position, has `permessage-deflate` as its token (before any `;`
/// parameters, trimmed) — the first, the last or one in between alike.
pub proof fn law_deflate_offer_counts_at_any_position(extensions: Seq<char>, q: int)
    ensures
        0 <= q < split(extensions, ',').len() && trim(first_piece(split(extensions, ',')[q], ';'))
            == "permessage-deflate"@ ==> offers_permessage_deflate(extensions),
        !offers_permessage_deflate(extensions) ==> forall|p: int|
            0 <= p < split(extensions, ',').len() ==> trim(
                first_piece(#[trigger] split(extensions, ',')[p], ';'),
            ) != "permessage-deflate"@,
{
}

} // verus!
