use std::io::Read;

use rusm::compress::{compressed_body, gzip, gzip_eligible, gzip_offer_qvalues, gzip_reply, header_str, is_compressible};

fn gunzip(data: &[u8]) -> Vec<u8> {
    let mut out = Vec::new();
    flate2::read::GzDecoder::new(data).read_to_end(&mut out).unwrap();
    out
}

#[test]
fn compressible_types_are_recognised() {
    assert!(is_compressible(Some("text/html; charset=utf-8")));
    assert!(is_compressible(Some("application/json")));
    assert!(is_compressible(Some("application/ld+json")));
    assert!(is_compressible(Some("image/svg+xml")));
    assert!(is_compressible(Some("text/event-stream")));
    assert!(!is_compressible(Some("image/png")));
    assert!(!is_compressible(Some("application/octet-stream")));
    assert!(!is_compressible(None));
}

#[test]
fn gzip_round_trips() {
    let data = b"the quick brown fox".repeat(50);
    assert_eq!(gunzip(&gzip(&data).unwrap()), data);
}

#[test]
fn only_eligible_bodies_over_the_threshold_are_compressed() {
    assert!(gzip_eligible(true, true, false, Some("application/json")));
    assert!(!gzip_eligible(false, true, false, Some("application/json")));
    assert!(!gzip_eligible(true, false, false, Some("application/json")));
    assert!(!gzip_eligible(true, true, true, Some("application/json")));
    assert!(!gzip_eligible(true, true, false, Some("image/png")));
    assert!(!gzip_eligible(true, true, false, None));

    assert_eq!(compressed_body(&[b'a'; 255]), None);
    let big = vec![b'a'; 256];
    let out = compressed_body(&big).unwrap();
    assert_ne!(out, big);
    assert_eq!(gunzip(&out), big);
}

#[test]
fn accept_encoding_offers_are_read_with_their_quality_values() {
    let none: Vec<Vec<String>> = Vec::new();
    assert_eq!(gzip_offer_qvalues("gzip, deflate, br"), vec![Vec::<String>::new()]);
    assert_eq!(gzip_offer_qvalues("deflate, gzip"), vec![Vec::<String>::new()]);
    assert_eq!(gzip_offer_qvalues("GZIP"), vec![Vec::<String>::new()]);
    assert_eq!(gzip_offer_qvalues("*"), vec![Vec::<String>::new()]);
    assert_eq!(gzip_offer_qvalues("gzip;q=0.5"), vec![vec!["0.5".to_string()]]);
    assert_eq!(gzip_offer_qvalues("gzip;q=0"), vec![vec!["0".to_string()]]);
    assert_eq!(gzip_offer_qvalues("*;q=0"), vec![vec!["0".to_string()]]);
    assert_eq!(gzip_offer_qvalues("deflate, br"), none);
    assert_eq!(
        gzip_offer_qvalues("gzip ; level=1; Q=0.2 , * ;q=1"),
        vec![vec!["0.2".to_string()], vec!["1".to_string()]]
    );
}

#[test]
fn accepts_gzip_parses_the_header() {
    let none: Vec<Vec<String>> = vec![vec![]];
    assert_eq!(gzip_offer_qvalues("gzip, deflate, br"), none);
    assert_eq!(gzip_offer_qvalues("deflate, gzip"), none);
    assert_eq!(gzip_offer_qvalues("GZIP"), none);
    assert_eq!(gzip_offer_qvalues("*"), none);
    assert_eq!(gzip_offer_qvalues("gzip;q=0.5"), vec![vec!["0.5".to_string()]]);
    assert_eq!(gzip_offer_qvalues("gzip;q=0"), vec![vec!["0".to_string()]]);
    assert_eq!(gzip_offer_qvalues("*;q=0"), vec![vec!["0".to_string()]]);
    assert!(gzip_offer_qvalues("deflate, br").is_empty());
}

fn reply_headers(content_type: &str, len: usize) -> Vec<(String, Vec<u8>)> {
    vec![
        ("content-type".to_string(), content_type.as_bytes().to_vec()),
        ("content-length".to_string(), len.to_string().into_bytes()),
    ]
}

#[test]
fn gzips_a_large_eligible_response_the_client_accepts() {
    let body = format!("hi {}\n", "a".repeat(400)).into_bytes();
    let (headers, out) = gzip_reply(true, true, reply_headers("text/plain; charset=utf-8", body.len()), body.clone());
    assert_eq!(
        headers,
        vec![
            ("content-type".to_string(), b"text/plain; charset=utf-8".to_vec()),
            ("content-encoding".to_string(), b"gzip".to_vec()),
            ("vary".to_string(), b"accept-encoding".to_vec()),
        ]
    );
    assert!(out.len() < body.len());
    assert_eq!(gunzip(&out), body);
    assert_eq!(&out[..10], &[0x1f, 0x8b, 8, 0, 0, 0, 0, 0, 0, 255]);
    assert_eq!(&out[out.len() - 4..], &(body.len() as u32).to_le_bytes());

    // Not accepted, switched off, too small, already encoded, or not compressible: unchanged.
    let h = reply_headers("text/plain", body.len());
    assert_eq!(gzip_reply(true, false, h.clone(), body.clone()), (h.clone(), body.clone()));
    assert_eq!(gzip_reply(false, true, h.clone(), body.clone()), (h.clone(), body.clone()));
    let small = b"hi alice\n".to_vec();
    let hs = reply_headers("text/plain", small.len());
    assert_eq!(gzip_reply(true, true, hs.clone(), small.clone()), (hs, small));
    let mut enc = h.clone();
    enc.push(("content-encoding".to_string(), b"br".to_vec()));
    assert_eq!(gzip_reply(true, true, enc.clone(), body.clone()), (enc, body.clone()));
    let png = reply_headers("image/png", body.len());
    assert_eq!(gzip_reply(true, true, png.clone(), body.clone()), (png, body.clone()));
    let bad = reply_headers("text/plain; x=\u{e9}", body.len());
    assert_eq!(gzip_reply(true, true, bad.clone(), body.clone()), (bad, body));
}

#[test]
fn header_values_read_as_text_only_when_visible_ascii() {
    assert_eq!(header_str(b"text/html"), Some("text/html"));
    assert_eq!(header_str(b"a\tb"), Some("a\tb"));
    assert_eq!(header_str(b"caf\xc3\xa9"), None);
    assert_eq!(header_str(b"a\nb"), None);
}
