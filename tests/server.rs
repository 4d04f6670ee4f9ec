use lsp_client::error::LspError;
use lsp_client::language::Language;
use lsp_client::pending::PendingTable;
use lsp_client::server::{ExitStatus, LspServer, Step, StopMode, SupervisorState};
use lsp_client::protocol::{initialized_frame, parse_error_frame, method_not_found_frame, Inbound};

fn running(language: Language) -> LspServer {
    let mut server = LspServer::new(language, ".".into());
    server.start().unwrap();
    server.spawned(None).unwrap();
    server
}

fn operational() -> LspServer {
    let mut server = running(Language::Rust);
    let (id, _) = server.initialize_lsp().unwrap();
    server.complete_initialize(id, true).unwrap();
    server
}

#[test]
fn test_sanity_lsp_server_start_stop() {
    let mut lsp_server = LspServer::new(Language::Rust, ".".into());
    assert_eq!(lsp_server.start(), Ok("rust-analyzer"));
    lsp_server.spawned(None).unwrap();
    lsp_server.stop(StopMode::Graceful).unwrap();
    lsp_server.terminated(Ok(ExitStatus::Exited(0))).unwrap();
    assert_eq!(lsp_server.state(), SupervisorState::Stopped);
}

#[test]
fn test_sanity_lsp_server_start_restart() {
    let mut lsp_server = LspServer::new(Language::Rust, ".".into());
    lsp_server.start().unwrap();
    lsp_server.spawned(None).unwrap();
    assert_eq!(lsp_server.restart(), Ok(true));
    lsp_server.terminated(Ok(ExitStatus::Exited(0))).unwrap();
    lsp_server.start().unwrap();
    lsp_server.spawned(None).unwrap();
    assert_eq!(lsp_server.state(), SupervisorState::Running);
}

#[test]
fn test_lsp_initialize() {
    let mut lsp_server = LspServer::new(Language::Rust, ".".into());
    lsp_server.start().unwrap();
    lsp_server.spawned(None).unwrap();
    let (id, frame) = lsp_server.initialize_lsp().unwrap();
    assert_eq!(id, 1);
    let text = String::from_utf8(frame).unwrap();
    assert!(text.contains("\"method\":\"initialize\""));
    assert!(text.contains("\"rootPath\":\".\""));
}

#[test]
fn start_stop_leaves_nothing_pending() {
    let mut server = operational();
    let id = server.request().unwrap();
    assert!(server.is_pending(id));
    server.stop(StopMode::Graceful).unwrap();
    server.terminated(Ok(ExitStatus::Exited(0))).unwrap();
    assert_eq!(server.state(), SupervisorState::Stopped);
    assert!(server.no_pending());
    assert!(!server.is_initialized());
}

#[test]
fn start_twice_is_refused() {
    let mut server = running(Language::C);
    assert_eq!(server.start(), Err(LspError::AlreadyStarted));
    assert_eq!(server.state(), SupervisorState::Running);
}

#[test]
fn programs_by_language() {
    assert_eq!(Language::C.program(), "clangd");
    assert_eq!(Language::Cpp.program(), "clangd");
    assert_eq!(Language::Rust.program(), "rust-analyzer");
    assert_eq!(Language::Python.program(), "pylsp");
    let mut server = LspServer::new(Language::Python, "/src".into());
    assert_eq!(server.start(), Ok("pylsp"));
    assert_eq!(server.workspace(), "/src");
}

#[test]
fn stop_after_stop_is_not_running() {
    let mut server = running(Language::Rust);
    server.stop(StopMode::Graceful).unwrap();
    server.terminated(Ok(ExitStatus::Exited(0))).unwrap();
    assert_eq!(server.stop(StopMode::Graceful), Err(LspError::NotRunning));
    assert_eq!(server.state(), SupervisorState::Stopped);
}

#[test]
fn stop_before_start_is_not_running() {
    let mut server = LspServer::new(Language::Rust, ".".into());
    assert_eq!(server.stop(StopMode::Graceful), Err(LspError::NotRunning));
    assert_eq!(server.started(), Err(LspError::NotRunning));
}

#[test]
fn failed_kill_keeps_running() {
    let mut server = running(Language::Rust);
    server.stop(StopMode::Forceful).unwrap();
    assert_eq!(server.terminated(Err("denied".to_string())), Err(LspError::FailedToKill("denied".to_string())));
    assert_eq!(server.state(), SupervisorState::Running);
}

#[test]
fn failed_spawn_is_reported() {
    let mut server = LspServer::new(Language::Rust, ".".into());
    server.start().unwrap();
    assert_eq!(server.spawned(Some("not found".to_string())), Err(LspError::SpawnFailed("not found".to_string())));
    assert_eq!(server.state(), SupervisorState::Stopped);
}

#[test]
fn restart_yields_fresh_running_uninit() {
    let mut server = operational();
    server.request().unwrap();
    assert_eq!(server.restart(), Ok(true));
    server.terminated(Ok(ExitStatus::Exited(0))).unwrap();
    server.start().unwrap();
    server.spawned(None).unwrap();
    assert_eq!(server.state(), SupervisorState::Running);
    assert!(!server.is_initialized());
    assert!(!server.is_shutdown_requested());
    assert!(server.no_pending());
}

#[test]
fn initialize_handshake_completes() {
    let mut server = running(Language::Rust);
    assert_eq!(server.request(), Err(LspError::NotInitialized));
    let (id, _) = server.initialize_lsp().unwrap();
    assert!(!server.is_initialized());
    assert_eq!(server.complete_initialize(id, true), Ok(initialized_frame()));
    assert!(server.is_initialized());
    assert!(server.no_pending());
    assert_eq!(server.initialize_lsp(), Err(LspError::AlreadyInitialized));
}

#[test]
fn initialize_error_response_leaves_uninitialized() {
    let mut server = running(Language::Rust);
    let (id, _) = server.initialize_lsp().unwrap();
    assert_eq!(server.complete_initialize(id, false), Err(LspError::InitializeRejected));
    assert!(!server.is_initialized());
}

#[test]
fn initialize_before_start_is_not_running() {
    let mut server = LspServer::new(Language::Rust, ".".into());
    assert_eq!(server.initialize_lsp(), Err(LspError::NotRunning));
}

#[test]
fn concurrent_requests_resolve_out_of_order() {
    let mut table = PendingTable::new();
    assert_eq!(table.allocate(), Ok(1));
    assert_eq!(table.allocate(), Ok(2));
    assert_eq!(table.allocate(), Ok(3));
    assert_eq!(table.resolve(2), Ok(()));
    assert_eq!(table.resolve(1), Ok(()));
    assert!(table.contains(3));
    assert_eq!(table.resolve(3), Ok(()));
    assert!(table.is_empty());
}

#[test]
fn second_response_is_stray() {
    let mut table = PendingTable::new();
    let id = table.allocate().unwrap();
    assert_eq!(table.resolve(id), Ok(()));
    assert_eq!(table.resolve(id), Err(LspError::StrayResponse));
    assert_eq!(table.resolve(42), Err(LspError::StrayResponse));
}

#[test]
fn failed_entries_take_no_response() {
    let mut table = PendingTable::new();
    table.allocate().unwrap();
    table.allocate().unwrap();
    let mut failed = table.fail_all();
    failed.sort();
    assert_eq!(failed, vec![1, 2]);
    assert!(table.is_empty());
    assert_eq!(table.resolve(1), Err(LspError::StrayResponse));
    assert_eq!(table.allocate(), Ok(3));
}

#[test]
fn cancelled_request_stays_pending_until_answered() {
    let mut server = operational();
    let id = server.request().unwrap();
    let notice = server.cancel(id).unwrap();
    assert_eq!(notice, lsp_client::protocol::cancel_frame(id));
    assert!(server.is_pending(id));
    assert_eq!(server.response(id), Ok(()));
    assert!(!server.is_pending(id));
    assert_eq!(server.cancel(id), None);
}

#[test]
fn crash_recovery() {
    let mut server = operational();
    let a = server.request().unwrap();
    let b = server.request().unwrap();
    let mut failed = server.transport_closed();
    failed.sort();
    assert_eq!(failed, vec![a, b]);
    assert_eq!(server.request(), Err(LspError::NotRunning));
    assert_eq!(server.restart(), Ok(false));
    server.spawned(None).unwrap();
    assert!(server.initialize_lsp().is_ok());
}

#[test]
fn shutdown_allows_only_exit() {
    let mut server = operational();
    let id = server.shutdown().unwrap();
    assert!(server.is_shutdown_requested());
    assert_eq!(server.request(), Err(LspError::AlreadyShutdown));
    assert_eq!(server.response(id), Ok(()));
}

#[test]
fn error_messages() {
    assert_eq!(LspError::NotRunning.message(), "LSP is not running");
    assert_eq!(LspError::AlreadyStarted.message(), "LSP already started");
    assert_eq!(LspError::AlreadyStarted.describe(), "LSP already started");
    let spawn = LspError::SpawnFailed("no such file".to_string());
    assert_eq!(spawn.cause(), Some("no such file"));
    assert_eq!(spawn.describe(), "Failed to spawn LSP process, reason: no such file");
    let kill = LspError::FailedToKill("denied".to_string());
    assert_eq!(kill.describe(), "Failed to kill process, reason: denied");
    assert_eq!(LspError::TransportClosed.cause(), None);
}

#[test]
fn stop_records_exit_status_and_hands_back_failed_ids() {
    let mut server = operational();
    let a = server.request().unwrap();
    server.stop(StopMode::Graceful).unwrap();
    assert_eq!(server.terminated(Ok(ExitStatus::Signalled)), Ok(vec![a]));
    assert_eq!(server.last_exit(), Some(ExitStatus::Signalled));
    assert_eq!(server.state(), SupervisorState::Stopped);
}

#[test]
fn graceful_stop_escalates_to_forceful() {
    let mut server = running(Language::Rust);
    assert_eq!(server.restart(), Ok(true));
    assert_eq!(server.stop_mode(), StopMode::Graceful);
    assert_eq!(
        server.terminated(Err("deadline expired".to_string())),
        Err(LspError::FailedToTerminate("deadline expired".to_string()))
    );
    assert_eq!(server.state(), SupervisorState::Stopping);
    assert_eq!(server.stop_mode(), StopMode::Forceful);
    assert_eq!(server.terminated(Ok(ExitStatus::Signalled)), Ok(vec![]));
    server.start().unwrap();
    server.spawned(None).unwrap();
    assert_eq!(server.state(), SupervisorState::Running);
}

fn text(s: &str) -> Option<Vec<u8>> {
    Some(s.as_bytes().to_vec())
}

#[test]
fn inbound_steps() {
    let mut server = operational();
    let a = server.request().unwrap();
    let b = server.request().unwrap();
    let answer = Inbound::Response { id: Some(b), result: text("\"b\""), error: None };
    assert_eq!(server.on_inbound(a, answer.clone()), Step::Resolved { id: b, result: text("\"b\""), error: None });
    assert_eq!(server.on_inbound(a, answer), Step::Stray);
    let failed = Inbound::Response { id: Some(a), result: None, error: text("{\"code\":-32800}") };
    assert_eq!(server.on_inbound(a, failed), Step::Completed { result: None, error: text("{\"code\":-32800}") });
    assert!(server.no_pending());
    assert_eq!(server.on_inbound(a, Inbound::Response { id: None, result: None, error: None }), Step::Stray);
    let note = Inbound::Notification { method: b"$/progress".to_vec(), params: None };
    assert_eq!(server.on_inbound(a, note), Step::Ignored);
    let request = Inbound::ServerRequest { id: b"\"abc\"".to_vec(), method: b"m".to_vec(), params: None };
    assert_eq!(server.on_inbound(a, request), Step::Reply(method_not_found_frame(b"\"abc\"")));
    assert_eq!(server.on_inbound(a, Inbound::Unparseable { mentions_id: true }), Step::Reply(parse_error_frame()));
    assert_eq!(server.on_inbound(a, Inbound::Unparseable { mentions_id: false }), Step::Violation);
    assert_eq!(server.on_inbound(a, Inbound::Invalid), Step::Violation);
}

#[test]
fn each_caller_gets_its_own_result() {
    let mut server = operational();
    let ids: Vec<u64> = (0..3).map(|_| server.request().unwrap()).collect();
    let order = [(1, "\"b\""), (0, "\"a\""), (2, "\"c\"")];
    for (k, result) in order {
        let msg = Inbound::Response { id: Some(ids[k]), result: text(result), error: None };
        assert_eq!(server.on_inbound(ids[k], msg), Step::Completed { result: text(result), error: None });
    }
    assert!(server.no_pending());
}

#[test]
fn registered_handlers_receive_messages() {
    let mut server = operational();
    server.on_request("window/showMessageRequest");
    server.on_notification("window/logMessage");
    let request = Inbound::ServerRequest {
        id: b"100".to_vec(),
        method: b"window/showMessageRequest".to_vec(),
        params: text("{}"),
    };
    assert_eq!(
        server.on_inbound(1, request),
        Step::Dispatch { id: b"100".to_vec(), method: b"window/showMessageRequest".to_vec(), params: text("{}") }
    );
    let note = Inbound::Notification { method: b"window/logMessage".to_vec(), params: None };
    assert_eq!(server.on_inbound(1, note), Step::Notify { method: b"window/logMessage".to_vec(), params: None });
}

#[test]
fn rejected_initialize_allows_only_exit() {
    let mut server = running(Language::Rust);
    let (id, _) = server.initialize_lsp().unwrap();
    assert_eq!(server.complete_initialize(id, false), Err(LspError::InitializeRejected));
    assert!(server.is_shutdown_requested());
    assert_eq!(server.request(), Err(LspError::AlreadyShutdown));
    let notice = server.exit().unwrap();
    let body = "{\"jsonrpc\":\"2.0\",\"method\":\"exit\",\"params\":null}";
    assert_eq!(notice, format!("Content-Length: {}\r\n\r\n{}", body.len(), body).into_bytes());
    assert_eq!(server.state(), SupervisorState::Stopping);
    assert_eq!(server.terminated(Ok(ExitStatus::Exited(0))), Ok(vec![]));
    assert_eq!(server.exit(), Err(LspError::NotRunning));
}

#[test]
fn transport_closed_then_request_is_not_running() {
    let mut server = operational();
    server.request().unwrap();
    assert_eq!(server.transport_closed().len(), 1);
    assert_eq!(server.request(), Err(LspError::NotRunning));
    assert!(server.no_pending());
}
