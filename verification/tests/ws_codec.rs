use bytes::Bytes;
use rusm::ws_codec::{
    apply_mask, close_frame, CodecError, decode_frame, deflate_message, encode_frame, inflate_message,
    negotiate_permessage_deflate, parse_close, Assembler, ControlKind, DataKind, Decoded, Opcode,
    RawFrame, WsMessage,
};
use tokio_tungstenite::tungstenite::protocol::frame::coding::{Control, Data, OpCode};
use tokio_tungstenite::tungstenite::protocol::frame::{Frame, FrameHeader};

#[test]
fn negotiates_permessage_deflate_only_when_offered() {
    assert_eq!(
        negotiate_permessage_deflate(Some("permessage-deflate")).as_deref(),
        Some("permessage-deflate; client_no_context_takeover; server_no_context_takeover")
    );
    assert!(negotiate_permessage_deflate(Some("permessage-deflate; client_max_window_bits")).is_some());
    assert!(negotiate_permessage_deflate(Some("x-some-ext")).is_none());
    assert!(negotiate_permessage_deflate(None).is_none());
}

#[test]
fn negotiation_looks_at_every_offer() {
    assert!(negotiate_permessage_deflate(Some("x-a, permessage-deflate ;x=1")).is_some());
    assert!(negotiate_permessage_deflate(Some("x-permessage-deflate")).is_none());
    assert!(negotiate_permessage_deflate(Some("")).is_none());
}

#[test]
fn deflate_inflate_round_trips() {
    for msg in [&b""[..], b"hi", b"the quick brown fox jumps over the lazy dog", &[0u8; 1000][..]] {
        let compressed = deflate_message(msg).unwrap();
        assert_eq!(inflate_message(&compressed, None).unwrap(), msg);
    }
    let big = b"abcabcabc".repeat(100);
    assert!(deflate_message(&big).unwrap().len() < big.len());
}

#[test]
fn inflate_enforces_the_decompressed_size_cap() {
    let compressed = deflate_message(&[b'a'; 10_000]).unwrap();
    assert!(inflate_message(&compressed, Some(100)).is_err());
    assert!(inflate_message(&compressed, Some(10_000)).is_ok());
}

#[test]
fn masking_is_its_own_inverse() {
    let mask = [0x12, 0x34, 0x56, 0x78];
    let mut data = b"masked payload".to_vec();
    let original = data.clone();
    apply_mask(&mut data, mask);
    assert_ne!(data, original);
    apply_mask(&mut data, mask);
    assert_eq!(data, original);
}

/// A masked client frame, as a browser would send it.
fn masked_client_frame(opcode: OpCode, rsv1: bool, payload: &[u8]) -> Vec<u8> {
    let header = FrameHeader {
        is_final: true,
        rsv1,
        rsv2: false,
        rsv3: false,
        opcode,
        mask: Some([0xAA, 0xBB, 0xCC, 0xDD]),
    };
    let frame = Frame::from_payload(header, Bytes::copy_from_slice(payload));
    let mut out = Vec::new();
    frame.format(&mut out).unwrap();
    out
}

fn decode_one(buf: &[u8], max: Option<usize>) -> (RawFrame, usize) {
    match decode_frame(buf, max).unwrap() {
        Decoded::Frame { frame, consumed } => (frame, consumed),
        Decoded::Incomplete { .. } => panic!("a whole frame was expected"),
    }
}

#[test]
fn codec_round_trips_a_masked_frame() {
    let buf = masked_client_frame(OpCode::Data(Data::Binary), false, b"ping");
    let (frame, consumed) = decode_one(&buf, None);
    assert_eq!(&frame.payload[..], b"ping");
    assert!(!frame.rsv1 && frame.fin);
    assert_eq!(consumed, buf.len(), "the whole frame was consumed");

    let out = encode_frame(&frame).unwrap();
    let (again, _) = decode_one(&out, None);
    assert_eq!(&again.payload[..], b"ping");
}

#[test]
fn codec_waits_for_a_partial_frame_and_caps_size() {
    let oversized = masked_client_frame(OpCode::Data(Data::Binary), false, b"toolong");
    assert!(decode_frame(&oversized, Some(3)).is_err());

    let full = masked_client_frame(OpCode::Data(Data::Binary), false, b"hello");
    assert!(matches!(decode_frame(&full[..3], None).unwrap(), Decoded::Incomplete { .. }));
    assert!(matches!(
        decode_frame(&full[..full.len() - 1], None).unwrap(),
        Decoded::Incomplete { reserve: Some(1) }
    ));
}

/// Feed raw client bytes through the decoder and the assembler until a message or an
/// error comes out.
fn receive(assembler: &mut Assembler, mut buf: &[u8]) -> Option<Result<WsMessage, ()>> {
    while !buf.is_empty() {
        let (frame, consumed) = match decode_frame(buf, None) {
            Ok(Decoded::Frame { frame, consumed }) => (frame, consumed),
            Ok(Decoded::Incomplete { .. }) => return None,
            Err(_) => return Some(Err(())),
        };
        buf = &buf[consumed..];
        if let Some(out) = assembler.on_frame(frame) {
            return Some(out.map_err(|_| ()));
        }
    }
    None
}

fn non_final(mut frame: Vec<u8>) -> Vec<u8> {
    frame[0] &= 0x7F;
    frame
}

#[test]
fn assembles_a_fragmented_text_message() {
    let mut assembler = Assembler::new(false, None);
    let mut wire = non_final(masked_client_frame(OpCode::Data(Data::Text), false, b"Hel"));
    wire.extend(masked_client_frame(OpCode::Data(Data::Continue), false, b"lo"));
    assert_eq!(receive(&mut assembler, &wire), Some(Ok(WsMessage::Text(b"Hello".to_vec()))));
}

#[test]
fn round_trips_a_compressed_message_both_directions() {
    let mut assembler = Assembler::new(true, None);
    let payload = b"compress me, compress me, compress me".to_vec();
    let deflated = deflate_message(&payload).unwrap();
    let frame = masked_client_frame(OpCode::Data(Data::Binary), true, &deflated);
    assert_eq!(receive(&mut assembler, &frame), Some(Ok(WsMessage::Binary(payload))));

    let out = rusm::ws_codec::data_frame(true, b"hello from the server".to_vec(), true).unwrap();
    let wire = encode_frame(&out).unwrap();
    let (back, _) = decode_one(&wire, None);
    assert!(back.rsv1, "server compressed the frame");
    assert_eq!(inflate_message(&back.payload, None).unwrap(), b"hello from the server");
}

#[test]
fn surfaces_a_pong_control_frame() {
    let mut assembler = Assembler::new(false, None);
    let pong = masked_client_frame(OpCode::Control(Control::Pong), false, b"data");
    assert_eq!(receive(&mut assembler, &pong), Some(Ok(WsMessage::Pong(b"data".to_vec()))));
}

#[test]
fn rejects_a_reserved_control_opcode() {
    let mut assembler = Assembler::new(false, None);
    let frame = masked_client_frame(OpCode::Control(Control::Reserved(0xB)), false, b"");
    assert_eq!(receive(&mut assembler, &frame), Some(Err(())));
}

#[test]
fn rejects_a_reserved_data_opcode() {
    let mut assembler = Assembler::new(false, None);
    let frame = masked_client_frame(OpCode::Data(Data::Reserved(0x3)), false, b"");
    assert_eq!(receive(&mut assembler, &frame), Some(Err(())));
}

#[test]
fn rejects_new_data_frame_mid_fragment() {
    let mut assembler = Assembler::new(false, None);
    let mut wire = non_final(masked_client_frame(OpCode::Data(Data::Text), false, b"hello"));
    wire.extend(non_final(masked_client_frame(OpCode::Data(Data::Binary), false, b"world")));
    assert_eq!(receive(&mut assembler, &wire), Some(Err(())));
}

#[test]
fn rejects_compressed_frame_when_deflate_not_negotiated() {
    let mut assembler = Assembler::new(false, None);
    let frame = masked_client_frame(OpCode::Data(Data::Binary), true, b"data");
    assert_eq!(receive(&mut assembler, &frame), Some(Err(())));
}

#[test]
fn rejects_a_continuation_without_a_start_frame() {
    let mut assembler = Assembler::new(false, None);
    let cont = masked_client_frame(OpCode::Data(Data::Continue), false, b"orphan");
    assert_eq!(receive(&mut assembler, &cont), Some(Err(())));
}

#[test]
fn rejects_rsv1_on_a_continuation_frame() {
    let mut assembler = Assembler::new(true, None);
    let mut wire = non_final(masked_client_frame(OpCode::Data(Data::Binary), false, b"hello"));
    wire.extend(masked_client_frame(OpCode::Data(Data::Continue), true, b"world"));
    assert_eq!(receive(&mut assembler, &wire), Some(Err(())));
}

#[test]
fn rejects_a_non_final_control_frame() {
    let mut assembler = Assembler::new(false, None);
    let ping = non_final(masked_client_frame(OpCode::Control(Control::Ping), false, b"hi"));
    assert_eq!(receive(&mut assembler, &ping), Some(Err(())));
}

#[test]
fn surfaces_ping_and_close_control_frames() {
    let mut assembler = Assembler::new(false, None);
    let ping = masked_client_frame(OpCode::Control(Control::Ping), false, b"hi");
    assert_eq!(receive(&mut assembler, &ping), Some(Ok(WsMessage::Ping(b"hi".to_vec()))));

    let mut close_payload = 1000u16.to_be_bytes().to_vec();
    close_payload.extend_from_slice(b"bye");
    let close = masked_client_frame(OpCode::Control(Control::Close), false, &close_payload);
    assert_eq!(
        receive(&mut assembler, &close),
        Some(Ok(WsMessage::Close(Some((1000, "bye".to_string())))))
    );
}

#[test]
fn a_control_frame_between_fragments_keeps_the_message_open() {
    let mut assembler = Assembler::new(false, None);
    let first = non_final(masked_client_frame(OpCode::Data(Data::Text), false, b"ab"));
    assert_eq!(receive(&mut assembler, &first), None);
    let ping = masked_client_frame(OpCode::Control(Control::Ping), false, b"p");
    assert_eq!(receive(&mut assembler, &ping), Some(Ok(WsMessage::Ping(b"p".to_vec()))));
    let last = masked_client_frame(OpCode::Data(Data::Continue), false, b"cd");
    assert_eq!(receive(&mut assembler, &last), Some(Ok(WsMessage::Text(b"abcd".to_vec()))));
}

#[test]
fn a_message_over_the_cap_is_refused() {
    let mut assembler = Assembler::new(false, Some(4));
    let mut wire = non_final(masked_client_frame(OpCode::Data(Data::Binary), false, b"abc"));
    wire.extend(masked_client_frame(OpCode::Data(Data::Continue), false, b"de"));
    assert_eq!(receive(&mut assembler, &wire), Some(Err(())));
}

#[test]
fn close_frames_carry_code_and_reason() {
    let frame = close_frame(1001, "going away");
    assert!(frame.fin && !frame.rsv1);
    assert!(matches!(frame.opcode, Opcode::Control(ControlKind::Close)));
    assert_eq!(parse_close(&frame.payload), Some((1001, "going away".to_string())));
    assert_eq!(parse_close(&[3]), None);
    assert_eq!(parse_close(&[]), None);
    assert_eq!(Opcode::from_code(0x1).code(), 0x1);
    assert!(matches!(Opcode::from_code(0x2), Opcode::Data(DataKind::Binary)));
}

#[test]
fn a_close_reason_that_is_not_utf8_is_decoded_lossily() {
    assert_eq!(parse_close(&[0x03, 0xE8, 0xFF, b'o', b'k']), Some((1000, "\u{FFFD}ok".to_string())));
    assert_eq!(parse_close(&[0x03, 0xE8]), Some((1000, String::new())));
}

#[test]
fn each_refusal_names_its_reason() {
    // RSV2 set on a frame.
    let mut frame = masked_client_frame(OpCode::Data(Data::Binary), false, b"x");
    frame[0] |= 0x20;
    assert!(matches!(decode_frame(&frame, None), Err(CodecError::ReservedBits)));
    // Over the per-frame cap.
    let big = masked_client_frame(OpCode::Data(Data::Binary), false, b"toolong");
    assert!(matches!(decode_frame(&big, Some(3)), Err(CodecError::FrameTooLarge)));
    // A reserved opcode is refused by the header parser.
    let reserved = masked_client_frame(OpCode::Data(Data::Reserved(0x3)), false, b"");
    assert!(matches!(decode_frame(&reserved, None), Err(CodecError::Header(_))));

    let raw = |fin: bool, rsv1: bool, opcode: Opcode, payload: &[u8]| RawFrame { fin, rsv1, opcode, payload: payload.to_vec() };
    let mut a = Assembler::new(false, Some(4));
    assert!(matches!(a.on_frame(raw(true, false, Opcode::Control(ControlKind::Reserved(0xB)), b"")), Some(Err(CodecError::ReservedControlOpcode))));
    assert!(matches!(a.on_frame(raw(true, false, Opcode::Data(DataKind::Reserved(0x3)), b"")), Some(Err(CodecError::ReservedDataOpcode))));
    assert!(matches!(a.on_frame(raw(false, false, Opcode::Control(ControlKind::Ping), b"")), Some(Err(CodecError::InvalidControlFrame))));
    assert!(matches!(a.on_frame(raw(true, false, Opcode::Control(ControlKind::Ping), &[0u8; 126])), Some(Err(CodecError::InvalidControlFrame))));
    assert!(matches!(a.on_frame(raw(true, true, Opcode::Data(DataKind::Text), b"x")), Some(Err(CodecError::CompressedWithoutDeflate))));
    assert!(matches!(a.on_frame(raw(true, false, Opcode::Data(DataKind::Continue), b"x")), Some(Err(CodecError::ContinuationWithoutStart))));
    assert!(matches!(a.on_frame(raw(true, false, Opcode::Data(DataKind::Binary), b"12345")), Some(Err(CodecError::MessageTooLarge))));
    assert!(a.on_frame(raw(false, false, Opcode::Data(DataKind::Binary), b"12")).is_none());
    assert!(matches!(a.on_frame(raw(false, false, Opcode::Data(DataKind::Text), b"x")), Some(Err(CodecError::DataFrameMidFragment))));
    assert!(matches!(a.on_frame(raw(true, true, Opcode::Data(DataKind::Continue), b"x")), Some(Err(CodecError::Rsv1OnContinuation))));

    let mut d = Assembler::new(true, Some(100));
    let bomb = deflate_message(&[b'a'; 10_000]).unwrap();
    assert!(bomb.len() <= 100);
    assert!(matches!(d.on_frame(raw(true, true, Opcode::Data(DataKind::Binary), &bomb)), Some(Err(CodecError::DecompressedTooLarge))));
    assert!(matches!(inflate_message(&[0xff, 0xff, 0xff], None), Err(CodecError::Inflate(_))));
}
