use opi_coding_agent::adapter_host::{
    handshake_decision, request_id, AdapterHostError, HandshakeResult, PendingRequests,
};
use opi_coding_agent::adapter_protocol::{AdapterProcessMessageKind, PROTOCOL_VERSION};
use opi_coding_agent::image::{detect_media_type, load_image, ImageLoadError, MediaType};
use opi_coding_agent::rpc::{exit_after_shutdown, rpc_loop_step, LoopAction, LoopEvent};
use opi_coding_agent::runner::{
    before_tool_call, find_error_message, json_run_result, session_header_line, text_run_result,
    ExitCode, PromptOutcome,
};

#[test]
fn pending_requests_route_each_response_once() {
    let mut p: PendingRequests<u32> = PendingRequests::new();
    assert_eq!(p.insert("1".to_string(), 10), None);
    assert_eq!(p.insert("2".to_string(), 20), None);
    assert_eq!(p.insert("1".to_string(), 11), Some(10));
    assert_eq!(p.route(Some("1")), Some(11));
    assert_eq!(p.route(Some("1")), None);
    assert_eq!(p.route(None), None);
    assert_eq!(p.remove("9"), None);
    let rest = p.drain();
    assert_eq!(rest, vec![("2".to_string(), 20)]);
    assert_eq!(p.route(Some("2")), None);
}

#[test]
fn host_error_messages() {
    assert_eq!(
        AdapterHostError::InitializeTimeout { timeout_ms: 5000 }.message(),
        "initialize handshake timed out after 5s"
    );
    assert_eq!(
        AdapterHostError::RequestTimeout { id: "7".to_string(), timeout_ms: 1500 }.message(),
        "request '7' timed out after 1.5s"
    );
    assert_eq!(
        AdapterHostError::AdapterExited { package: "p".to_string(), exit_code: Some(-2) }.message(),
        "adapter 'p' exited unexpectedly (exit code: Some(-2))"
    );
    assert_eq!(
        AdapterHostError::AdapterExited { package: "p".to_string(), exit_code: None }.message(),
        "adapter 'p' exited unexpectedly (exit code: None)"
    );
    assert_eq!(AdapterHostError::AdapterUnavailable { package: "p".to_string() }.message(), "adapter 'p' is unavailable");
    assert_eq!(request_id(42), "42");
    assert_eq!(PROTOCOL_VERSION, "opi-extension-jsonl-v1");
}

#[test]
fn handshake_outcomes() {
    assert!(handshake_decision("p", HandshakeResult::Capabilities, 1000).is_ok());
    let (reason, e) = handshake_decision("p", HandshakeResult::AdapterError { message: "nope".to_string() }, 1000).unwrap_err();
    assert_eq!(reason, "handshake_error");
    assert_eq!(e.message(), "adapter spawn failed for 'p': adapter error during handshake: nope");
    let (reason, e) = handshake_decision(
        "p",
        HandshakeResult::Unexpected { kind: AdapterProcessMessageKind::ToolResult },
        1000,
    )
    .unwrap_err();
    assert_eq!(reason, "unexpected_response");
    assert_eq!(e.message(), "adapter spawn failed for 'p': expected capabilities response, got: \"tool_result\"");
    let (reason, e) = handshake_decision(
        "p",
        HandshakeResult::Failed { error: AdapterHostError::Io("broken pipe".to_string()), exit_code: Some(3) },
        1000,
    )
    .unwrap_err();
    assert_eq!(reason, "handshake_failure");
    assert!(matches!(e, AdapterHostError::AdapterExited { exit_code: Some(3), .. }));
    let (reason, e) = handshake_decision("p", HandshakeResult::TimedOut, 1000).unwrap_err();
    assert_eq!(reason, "initialize_timeout");
    assert!(matches!(e, AdapterHostError::InitializeTimeout { timeout_ms: 1000 }));
}

#[test]
fn media_types_by_extension() {
    assert_eq!(detect_media_type("a/b/photo.PNG"), Some(MediaType::Png));
    assert_eq!(detect_media_type("x.jpeg"), Some(MediaType::Jpeg));
    assert_eq!(detect_media_type("x.JpG"), Some(MediaType::Jpeg));
    assert_eq!(detect_media_type("x.webp"), Some(MediaType::WebP));
    assert_eq!(detect_media_type("x.gif/"), Some(MediaType::Gif));
    assert_eq!(detect_media_type(".png"), None);
    assert_eq!(detect_media_type("x.bmp"), None);
    assert_eq!(detect_media_type("/"), None);
}

#[test]
fn loading_images() {
    let img = load_image("a.png", Ok(vec![1, 2, 3])).unwrap();
    assert_eq!(img.data, vec![1, 2, 3]);
    assert_eq!(img.media_type, MediaType::Png);
    let e: ImageLoadError = load_image("a.txt", Ok(vec![])).unwrap_err();
    assert_eq!(e.message(), "image load error for a.txt: unsupported image format (accepted: png, jpg/jpeg, gif, webp)");
    let e = load_image("a.gif", Err("missing".to_string())).unwrap_err();
    assert_eq!(e.reason, "failed to read file: missing");
}

#[test]
fn run_results_by_outcome() {
    let parts = vec!["Hel".to_string(), "lo".to_string()];
    let persist = vec!["disk full".to_string()];
    let r = text_run_result(&PromptOutcome::Completed { error_message: None }, &parts, &persist);
    assert_eq!((r.stdout.as_str(), r.stderr.as_str(), r.exit_code), ("Hello", "\nsession persist error: disk full", 0));
    let r = text_run_result(&PromptOutcome::Completed { error_message: Some("rate".to_string()) }, &parts, &vec![]);
    assert_eq!((r.stdout.as_str(), r.stderr.as_str(), r.exit_code), ("", "rate", 4));
    let r = text_run_result(&PromptOutcome::Cancelled, &parts, &vec![]);
    assert_eq!((r.stderr.as_str(), r.exit_code), ("cancelled", 130));
    let r = text_run_result(&PromptOutcome::AuthFailed("bad key".to_string()), &parts, &vec![]);
    assert_eq!((r.stderr.as_str(), r.exit_code), ("authentication error: bad key", 3));
    let r = text_run_result(&PromptOutcome::Tool("t".to_string()), &parts, &vec![]);
    assert_eq!(r.exit_code, 5);
    let r = text_run_result(&PromptOutcome::MaxTurnsExceeded(12), &parts, &vec![]);
    assert_eq!((r.stderr.as_str(), r.exit_code), ("max turns exceeded (12)", 1));
    let r = json_run_result(&PromptOutcome::Hook("h".to_string()), "{}\n".to_string());
    assert_eq!((r.stdout.as_str(), r.stderr.as_str(), r.exit_code), ("{}\n", "hook error: h", 1));
    assert_eq!(ExitCode::ConfigError.code(), 2);
    assert_eq!(find_error_message(&vec![None, Some("e1".to_string()), Some("e2".to_string())]).as_deref(), Some("e1"));
}

#[test]
fn mutating_tools_need_permission() {
    assert!(before_tool_call(false, "read").is_ok());
    assert!(before_tool_call(true, "bash").is_ok());
    assert_eq!(
        before_tool_call(false, "bash").unwrap_err(),
        "tool 'bash' is not allowed in non-interactive mode without --allow-mutating"
    );
}

#[test]
fn rpc_loop_steps() {
    assert_eq!(rpc_loop_step(LoopEvent::Handled { ok: true }), LoopAction::Continue);
    assert_eq!(
        rpc_loop_step(LoopEvent::InputClosed),
        LoopAction::ShutdownThenExit { code: ExitCode::Success }
    );
    assert_eq!(
        rpc_loop_step(LoopEvent::Emitted { ok: false }),
        LoopAction::ShutdownThenExit { code: ExitCode::RuntimeFailure }
    );
    assert_eq!(rpc_loop_step(LoopEvent::Ready { ok: false }), LoopAction::Exit(ExitCode::RuntimeFailure));
    assert_eq!(exit_after_shutdown(ExitCode::Success, false), ExitCode::RuntimeFailure);
    assert_eq!(exit_after_shutdown(ExitCode::Success, true), ExitCode::Success);
}

#[test]
fn json_output_opens_with_the_session_header() {
    let mut m = serde_json::Map::new();
    m.insert("type".to_string(), serde_json::Value::from("session_header"));
    m.insert("schema_version".to_string(), serde_json::Value::from(1u32));
    let expected = format!("{}\n", serde_json::Value::Object(m));
    assert_eq!(session_header_line(), expected);
    assert_eq!(session_header_line(), "{\"schema_version\":1,\"type\":\"session_header\"}\n");
}
