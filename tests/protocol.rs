use lsp_client::cli::{dispatch, name_to_program, same_text, Program};
use lsp_client::protocol::{
    cancel_frame, initialize_frame, notification_frame, request_frame, response_frame,
};

#[test]
fn request_frame_is_exact() {
    let frame = request_frame(1, "$/ping", b"null");
    let body = "{\"jsonrpc\":\"2.0\",\"id\":1,\"method\":\"$/ping\",\"params\":null}";
    assert_eq!(frame, format!("Content-Length: {}\r\n\r\n{}", body.len(), body).into_bytes());
}

#[test]
fn request_frame_escapes_method() {
    let frame = request_frame(2, "a\"b\\c\n", b"{}");
    let body = "{\"jsonrpc\":\"2.0\",\"id\":2,\"method\":\"a\\\"b\\\\c\\n\",\"params\":{}}";
    assert_eq!(frame, format!("Content-Length: {}\r\n\r\n{}", body.len(), body).into_bytes());
}

#[test]
fn initialized_notification_is_exact() {
    let frame = notification_frame("initialized", b"{}");
    let body = "{\"jsonrpc\":\"2.0\",\"method\":\"initialized\",\"params\":{}}";
    assert_eq!(frame, format!("Content-Length: {}\r\n\r\n{}", body.len(), body).into_bytes());
}

#[test]
fn server_request_answered_with_id() {
    let frame = response_frame(b"100", b"{\"title\":\"OK\"}");
    let body = "{\"jsonrpc\":\"2.0\",\"id\":100,\"result\":{\"title\":\"OK\"}}";
    assert_eq!(frame, format!("Content-Length: {}\r\n\r\n{}", body.len(), body).into_bytes());
}

#[test]
fn cancel_sends_cancel_request() {
    let frame = cancel_frame(7);
    let body = "{\"jsonrpc\":\"2.0\",\"method\":\"$/cancelRequest\",\"params\":{\"id\":7}}";
    assert_eq!(frame, format!("Content-Length: {}\r\n\r\n{}", body.len(), body).into_bytes());
}

#[test]
fn initialize_frame_carries_root() {
    let frame = initialize_frame(3, "/work");
    let text = String::from_utf8(frame).unwrap();
    let split = text.find("\r\n\r\n").unwrap();
    let body = &text[split + 4..];
    assert_eq!(text[..split].to_string(), format!("Content-Length: {}", body.len()));
    assert!(body.starts_with("{\"jsonrpc\":\"2.0\",\"id\":3,\"method\":\"initialize\",\"params\":{"));
    assert!(body.contains("\"rootPath\":\"/work\""));
    assert!(body.contains("\"capabilities\":{"));
}

#[test]
fn names_select_programs() {
    assert_eq!(name_to_program("example"), Program::Example);
    assert_eq!(name_to_program("exampl"), Program::Help);
    assert_eq!(name_to_program(""), Program::Help);
    assert!(same_text("tc", "tc"));
    assert!(!same_text("tc", "tcc"));
}

#[test]
fn dispatch_strips_tool_name() {
    let args: Vec<String> = vec!["tc".into(), "example".into(), "a".into(), "b".into()];
    let (prog, rest) = dispatch(&args);
    assert_eq!(prog, Program::Example);
    assert_eq!(rest, vec!["a".to_string(), "b".to_string()]);
}

#[test]
fn dispatch_without_subcommand_is_help() {
    let args: Vec<String> = vec!["tc".into()];
    let (prog, rest) = dispatch(&args);
    assert_eq!(prog, Program::Help);
    assert!(rest.is_empty());
    let (prog, rest) = dispatch(&vec!["other".to_string(), "x".to_string()]);
    assert_eq!(prog, Program::Help);
    assert_eq!(rest, vec!["x".to_string()]);
}

use lsp_client::protocol::{classify, inbound_from_shape, method_not_found_frame, Inbound};

fn bytes(s: &str) -> Option<Vec<u8>> {
    Some(s.as_bytes().to_vec())
}

#[test]
fn classify_response() {
    assert_eq!(
        classify(b"{\"jsonrpc\":\"2.0\",\"id\":2,\"result\":\"b\"}"),
        Inbound::Response { id: Some(2), result: bytes("\"b\""), error: None }
    );
    assert_eq!(
        classify(b"{\"jsonrpc\":\"2.0\",\"id\":7,\"error\":{\"code\":-32800,\"message\":\"x\"}}"),
        Inbound::Response { id: Some(7), result: None, error: bytes("{\"code\":-32800,\"message\":\"x\"}") }
    );
    assert_eq!(
        classify(b"{\"jsonrpc\":\"2.0\",\"id\":null,\"error\":{\"code\":-32700,\"message\":\"x\"}}"),
        Inbound::Response { id: None, result: None, error: bytes("{\"code\":-32700,\"message\":\"x\"}") }
    );
    assert_eq!(
        classify(b"{\"jsonrpc\":\"2.0\",\"id\":\"x1\",\"result\":1}"),
        Inbound::Response { id: None, result: bytes("1"), error: None }
    );
}

#[test]
fn classify_server_request_and_notification() {
    let request = b"{\"jsonrpc\":\"2.0\",\"id\":100,\"method\":\"window/showMessageRequest\",\"params\":{}}";
    assert_eq!(
        classify(request),
        Inbound::ServerRequest {
            id: b"100".to_vec(),
            method: b"window/showMessageRequest".to_vec(),
            params: bytes("{}")
        }
    );
    let named = b"{\"jsonrpc\":\"2.0\",\"id\":\"s\",\"method\":\"m\"}";
    assert_eq!(
        classify(named),
        Inbound::ServerRequest { id: b"\"s\"".to_vec(), method: b"m".to_vec(), params: None }
    );
    let note = b"{\"jsonrpc\":\"2.0\",\"method\":\"$/progress\",\"params\":{}}";
    assert_eq!(
        classify(note),
        Inbound::Notification { method: b"$/progress".to_vec(), params: bytes("{}") }
    );
    assert_eq!(classify(b"[1]"), Inbound::Invalid);
    assert_eq!(classify(b"{not json"), Inbound::Unparseable { mentions_id: false });
    assert_eq!(classify(b"{\"id\":3,"), Inbound::Unparseable { mentions_id: true });
}

#[test]
fn shapes_follow_dispatch_rules() {
    assert_eq!(inbound_from_shape(None, true), Inbound::Unparseable { mentions_id: true });
    assert_eq!(
        inbound_from_shape(Some((bytes("4"), Some(4), None, None, bytes("1"), None)), false),
        Inbound::Response { id: Some(4), result: bytes("1"), error: None }
    );
    assert_eq!(
        inbound_from_shape(Some((bytes("4"), Some(4), bytes("m"), bytes("[]"), None, None)), false),
        Inbound::ServerRequest { id: b"4".to_vec(), method: b"m".to_vec(), params: bytes("[]") }
    );
    assert_eq!(
        inbound_from_shape(Some((None, None, bytes("m"), None, None, None)), false),
        Inbound::Notification { method: b"m".to_vec(), params: None }
    );
    assert_eq!(inbound_from_shape(Some((None, None, None, None, None, None)), false), Inbound::Invalid);
}

#[test]
fn unknown_server_request_gets_method_not_found() {
    let frame = method_not_found_frame(b"100");
    let body = "{\"jsonrpc\":\"2.0\",\"id\":100,\"error\":{\"code\":-32601,\"message\":\"Method not found\"}}";
    assert_eq!(frame, format!("Content-Length: {}\r\n\r\n{}", body.len(), body).into_bytes());
}

#[test]
fn parse_error_reply_is_exact() {
    let frame = lsp_client::protocol::parse_error_frame();
    let body = "{\"jsonrpc\":\"2.0\",\"id\":null,\"error\":{\"code\":-32700,\"message\":\"Parse error\"}}";
    assert_eq!(frame, format!("Content-Length: {}\r\n\r\n{}", body.len(), body).into_bytes());
}

#[test]
fn initialize_frame_is_exact() {
    let frame = initialize_frame(1, "/work");
    let params = "{\"processId\":null,\"rootPath\":\"/work\",\"rootUri\":null,\"capabilities\":{}}";
    let body = format!("{{\"jsonrpc\":\"2.0\",\"id\":1,\"method\":\"initialize\",\"params\":{}}}", params);
    assert_eq!(frame, format!("Content-Length: {}\r\n\r\n{}", body.len(), body).into_bytes());
}

#[test]
fn initialize_frame_escapes_root() {
    let frame = String::from_utf8(initialize_frame(4, "d\u{e9}j\u{e0}\t\"x\u{1}")).unwrap();
    assert!(frame.contains("\"rootPath\":\"d\u{e9}j\u{e0}\\t\\\"x\\u0001\""));
    let method = String::from_utf8(request_frame(5, "m\u{1f}\u{8}", b"0")).unwrap();
    assert!(method.contains("\"method\":\"m\\u001f\\b\""));
}
