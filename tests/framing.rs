use rust_analyzer_mcp::framing::{decode_frame, encode_frame, parse_content_length};

#[test]
fn frame_has_header_then_body() {
    let body = br#"{"jsonrpc":"2.0","id":1}"#;
    let frame = encode_frame(body);
    let expected = format!("Content-Length: {}\r\n\r\n{}", body.len(), std::str::from_utf8(body).unwrap());
    assert_eq!(frame, expected.into_bytes());
}

#[test]
fn frame_round_trip() {
    for body in [&b""[..], &b"{}"[..], &b"{\"method\":\"initialized\",\"params\":{}}"[..], &[b'x'; 1234][..]] {
        let frame = encode_frame(body);
        let (out, used) = decode_frame(&frame).expect("a whole frame");
        assert_eq!(out, body.to_vec());
        assert_eq!(used, frame.len());
    }
}

#[test]
fn foreign_header_line_is_skipped() {
    let mut buf = b"ping from the engine\r\n".to_vec();
    let skipped = buf.len();
    let frame = encode_frame(b"{\"id\":7}");
    buf.extend_from_slice(&frame);
    let (out, used) = decode_frame(&buf).unwrap();
    assert_eq!(out, b"{\"id\":7}".to_vec());
    assert_eq!(used, skipped + frame.len());
}

#[test]
fn incomplete_frame_waits_for_more() {
    let frame = encode_frame(b"{\"id\":1}");
    assert_eq!(decode_frame(&frame[..frame.len() - 1]), None);
    assert_eq!(decode_frame(b"Content-Length: 5\r\n"), None);
    assert_eq!(decode_frame(b""), None);
}

#[test]
fn two_frames_decode_one_at_a_time() {
    let mut buf = encode_frame(b"[1]");
    buf.extend_from_slice(&encode_frame(b"[2,3]"));
    let (first, used) = decode_frame(&buf).unwrap();
    assert_eq!(first, b"[1]".to_vec());
    let (second, _) = decode_frame(&buf[used..]).unwrap();
    assert_eq!(second, b"[2,3]".to_vec());
}

#[test]
fn content_length_header_parsing() {
    assert_eq!(parse_content_length("Content-Length: 42\r\n"), Some(42));
    assert_eq!(parse_content_length("Content-Length:   7  "), Some(7));
    assert_eq!(parse_content_length("Content-Length: +9"), Some(9));
    assert_eq!(parse_content_length("Content-Length: "), None);
    assert_eq!(parse_content_length("Content-Length: 4x"), None);
    assert_eq!(parse_content_length("Content-Type: 4"), None);
    assert_eq!(parse_content_length("content-length: 4"), None);
    assert_eq!(parse_content_length("Content-Length: 99999999999999999999999"), None);
}

#[test]
fn header_of_any_length_is_read_back() {
    for n in [0usize, 1, 9, 10, 4096, usize::MAX] {
        assert_eq!(parse_content_length(&format!("Content-Length: {}\r\n", n)), Some(n));
    }
    assert_eq!(parse_content_length("Content-Type: application/json\r\n"), None);
    assert_eq!(parse_content_length("Content-Length: abc\r\n"), None);
}

#[test]
fn stream_of_frames_decodes_in_order() {
    let bodies: Vec<Vec<u8>> = vec![b"{\"id\":1}".to_vec(), Vec::new(), b"[true,null]".to_vec(), vec![b'7'; 300]];
    let mut stream = Vec::new();
    for b in &bodies {
        stream.extend_from_slice(&encode_frame(b));
    }
    let mut out = Vec::new();
    while let Some((body, used)) = decode_frame(&stream) {
        out.push(body);
        stream.drain(..used);
    }
    assert_eq!(out, bodies);
    assert!(stream.is_empty());
}
