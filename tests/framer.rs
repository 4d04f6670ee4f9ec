use lsp_client::framer::{decode_one, encode, FrameError, Header, MAX_BODY};

fn header(name: &str, value: &str) -> Header {
    Header { name: name.as_bytes().to_vec(), value: value.as_bytes().to_vec() }
}

#[test]
fn encode_writes_exact_length() {
    let out = encode(&vec![], b"{\"a\":1}");
    assert_eq!(out, b"Content-Length: 7\r\n\r\n{\"a\":1}".to_vec());
}

#[test]
fn encode_empty_body() {
    assert_eq!(encode(&vec![], b""), b"Content-Length: 0\r\n\r\n".to_vec());
}

#[test]
fn encode_with_extra_header() {
    let out = encode(&vec![header("Content-Type", "x")], b"hello world!");
    assert_eq!(out, b"Content-Length: 12\r\nContent-Type: x\r\n\r\nhello world!".to_vec());
}

#[test]
fn round_trip_keeps_headers_and_body() {
    let headers = vec![header("Content-Type", "application/vscode-jsonrpc"), header("X-Tag", "")];
    let body = b"{\"jsonrpc\":\"2.0\"}".to_vec();
    let bytes = encode(&headers, &body);
    let (frame, used) = decode_one(&bytes).unwrap();
    assert_eq!(used, bytes.len());
    assert_eq!(frame.body, body);
    assert_eq!(frame.headers.len(), 2);
    assert_eq!(frame.headers[0].name, b"Content-Type".to_vec());
    assert_eq!(frame.headers[0].value, b"application/vscode-jsonrpc".to_vec());
    assert_eq!(frame.headers[1].name, b"X-Tag".to_vec());
    assert_eq!(frame.headers[1].value, b"".to_vec());
}

#[test]
fn decode_leaves_following_bytes() {
    let (frame, used) = decode_one(b"content-length: 2\r\n\r\nokNEXT").unwrap();
    assert_eq!(frame.body, b"ok".to_vec());
    assert_eq!(used, 23);
}

#[test]
fn decode_trims_value_whitespace() {
    let (frame, _) = decode_one(b"Content-Length: \t 3 \r\n\r\nabc").unwrap();
    assert_eq!(frame.body, b"abc".to_vec());
}

#[test]
fn decode_accepts_equal_duplicate_length() {
    let (frame, _) = decode_one(b"Content-Length: 1\r\nCONTENT-LENGTH: 1\r\n\r\nz").unwrap();
    assert_eq!(frame.body, b"z".to_vec());
    assert!(frame.headers.is_empty());
}

#[test]
fn decode_refuses_conflicting_lengths() {
    assert_eq!(
        decode_one(b"Content-Length: 1\r\nContent-Length: 2\r\n\r\nzz").err(),
        Some(FrameError::MalformedHeader)
    );
}

#[test]
fn decode_missing_length() {
    assert_eq!(decode_one(b"Content-Type: x\r\n\r\n").err(), Some(FrameError::MissingContentLength));
}

#[test]
fn decode_line_without_colon() {
    assert_eq!(decode_one(b"Content-Length 3\r\n\r\nabc").err(), Some(FrameError::MalformedHeader));
}

#[test]
fn decode_bare_line_feed() {
    assert_eq!(decode_one(b"Content-Length: 3\n\r\nabc").err(), Some(FrameError::MalformedHeader));
}

#[test]
fn decode_non_numeric_length() {
    assert_eq!(decode_one(b"Content-Length: 3a\r\n\r\nabc").err(), Some(FrameError::MalformedHeader));
}

#[test]
fn decode_oversized_frame() {
    let text = format!("Content-Length: {}\r\n\r\n", MAX_BODY + 1);
    assert_eq!(decode_one(text.as_bytes()).err(), Some(FrameError::OversizedFrame));
    let huge = b"Content-Length: 99999999999999999999999\r\n\r\n";
    assert_eq!(decode_one(huge).err(), Some(FrameError::OversizedFrame));
}

#[test]
fn decode_largest_length_waits_for_body() {
    let text = format!("Content-Length: {}\r\n\r\nabc", MAX_BODY);
    assert_eq!(decode_one(text.as_bytes()).err(), Some(FrameError::UnexpectedEof));
}

#[test]
fn decode_partial_frame_is_eof() {
    assert_eq!(decode_one(b"Content-Length: 5\r\n\r\nab").err(), Some(FrameError::UnexpectedEof));
    assert_eq!(decode_one(b"Content-Len").err(), Some(FrameError::UnexpectedEof));
    assert_eq!(decode_one(b"Content-Length: 5\r").err(), Some(FrameError::UnexpectedEof));
}
