use samokod::agent::session::{missing_binary_in, startup_error_from};
use samokod::text::is_whitespace;
use samokod::types::AgentError;
use samokod::error_hint::{classify_error, is_transport_error, ErrorHintKind};

#[test]
fn auth_hint_for_401() {
    let hint = classify_error("opencode acp exited (code 1): provider anthropic returned 401 Unauthorized");
    assert_eq!(hint.kind, ErrorHintKind::Auth);
    assert!(hint.retryable);
    assert!(hint.text.contains("/connect"));
}

#[test]
fn missing_binary_has_no_retry() {
    let hint = classify_error("opencode binary not found");
    assert_eq!(hint.kind, ErrorHintKind::MissingBinary);
    assert!(!hint.retryable);
}

#[test]
fn rate_limit_hint() {
    let hint = classify_error("request failed with 429 rate limit");
    assert_eq!(hint.kind, ErrorHintKind::RateLimit);
}

#[test]
fn stalled_permission_hint() {
    let hint = classify_error(
        "permission queue stalled 30s waiting on session/request_permission for tool call_9f3a",
    );
    assert_eq!(hint.kind, ErrorHintKind::ApprovalStalled);
}

#[test]
fn unknown_falls_back_to_retry() {
    let hint = classify_error("something odd happened");
    assert_eq!(hint.kind, ErrorHintKind::PlainRetry);
    assert!(hint.retryable);
    assert_eq!(hint.text, "retry the turn");
}

#[test]
fn classification_ignores_case() {
    assert_eq!(classify_error("MISSING BINARY").kind, ErrorHintKind::MissingBinary);
    assert_eq!(classify_error("Too Many Requests").kind, ErrorHintKind::RateLimit);
}

#[test]
fn closed_transport_needs_reopen() {
    assert!(is_transport_error("transport incoming_closed"));
    assert!(!is_transport_error("provider returned 401 Unauthorized"));
    assert!(is_transport_error("Broken Pipe"));
}

#[test]
fn lowered_text_classifies_directly() {
    let hint = samokod::error_hint::classify_lowered("provider returned 401 unauthorized");
    assert_eq!(hint.kind, ErrorHintKind::Auth);
    assert_eq!(hint.text, "looks like auth - run /connect in opencode, then retry");
    assert!(hint.retryable);
    assert_eq!(samokod::error_hint::classify_lowered("Missing Binary").kind, ErrorHintKind::PlainRetry);
    assert!(samokod::error_hint::transport_gone_in("broken pipe"));
    assert!(!samokod::error_hint::transport_gone_in("Broken Pipe"));
    assert!(is_transport_error("Broken Pipe"));
}

#[test]
fn startup_output_is_read_after_lowercasing() {
    assert!(missing_binary_in("opencode: command not found"));
    assert!(!missing_binary_in("OpenCode: Command Not Found"));
    assert_eq!(startup_error_from("OpenCode: Command Not Found", "opencode: command not found"), AgentError::MissingBinary);
    assert_eq!(
        startup_error_from("boom", "boom"),
        AgentError::AgentExited { raw: "boom".to_string() }
    );
    assert_eq!(
        samokod::desktop::startup_error_from("No Such File", "no such file"),
        samokod::desktop::AgentError::MissingBinary
    );
}

#[test]
fn whitespace_is_the_unicode_class() {
    for c in [' ', '\t', '\n', '\r', '\u{0b}', '\u{0c}', '\u{85}', '\u{a0}', '\u{1680}', '\u{2000}', '\u{200a}', '\u{2028}', '\u{2029}', '\u{202f}', '\u{205f}', '\u{3000}'] {
        assert!(is_whitespace(c), "{c:?}");
        assert_eq!(is_whitespace(c), c.is_whitespace());
    }
    for c in ['a', '-', '\u{200b}', '\u{180e}', '\u{feff}', '\u{1f}'] {
        assert!(!is_whitespace(c), "{c:?}");
        assert_eq!(is_whitespace(c), c.is_whitespace());
    }
}
