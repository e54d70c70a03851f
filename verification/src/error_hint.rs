//! Failure taxonomy: the raw agent output stays visible and a short hint is
//! appended underneath it.
use vstd::prelude::*;

use crate::text::{chars_of, contains_seq, contains_str, lowercase, owned, to_lowercase};

verus! {

/// Appended hint for a failure row.
#[derive(Debug, Clone, Copy, PartialEq, Eq, Structural)]
pub enum ErrorHintKind {
    MissingBinary,
    Auth,
    RateLimit,
    ApprovalStalled,
    PlainRetry,
}

#[derive(Debug, Clone, PartialEq, Eq)]
pub struct ErrorHint {
    pub kind: ErrorHintKind,
    pub text: String,
    pub retryable: bool,
}

/// The hint a lowercased failure text earns; the first matching rule wins.
pub open spec fn hint_kind_of(lowered: Seq<char>) -> ErrorHintKind {
    if contains_seq(lowered, "opencode binary not found"@) || contains_seq(
        lowered,
        "missing binary"@,
    ) {
        ErrorHintKind::MissingBinary
    } else if contains_seq(lowered, "401"@) || contains_seq(lowered, "unauthorized"@)
        || contains_seq(lowered, "auth"@) || contains_seq(lowered, "/connect"@) {
        ErrorHintKind::Auth
    } else if contains_seq(lowered, "429"@) || contains_seq(lowered, "rate limit"@)
        || contains_seq(lowered, "too many requests"@) {
        ErrorHintKind::RateLimit
    } else if contains_seq(lowered, "permission queue stalled"@) || (contains_seq(
        lowered,
        "request_permission"@,
    ) && contains_seq(lowered, "stalled"@)) {
        ErrorHintKind::ApprovalStalled
    } else {
        ErrorHintKind::PlainRetry
    }
}

/// The text appended for each hint.
pub open spec fn hint_text(kind: ErrorHintKind) -> Seq<char> {
    match kind {
        ErrorHintKind::MissingBinary =>
            "opencode is not installed - install it with npm install -g opencode-ai, then reopen the repo"@,
        ErrorHintKind::Auth => "looks like auth - run /connect in opencode, then retry"@,
        ErrorHintKind::RateLimit => "rate limited - wait a minute, then retry"@,
        ErrorHintKind::ApprovalStalled =>
            "the approval card above may be out of view - scroll up to answer it"@,
        ErrorHintKind::PlainRetry => "retry the turn"@,
    }
}

/// Only a missing binary cannot be retried: the fix is outside the app.
pub open spec fn hint_retryable(kind: ErrorHintKind) -> bool {
    kind != ErrorHintKind::MissingBinary
}

/// The full hint for a failure text.
pub open spec fn hint_of(raw: Seq<char>) -> (ErrorHintKind, Seq<char>, bool) {
    let kind = hint_kind_of(lowercase(raw));
    (kind, hint_text(kind), hint_retryable(kind))
}

fn hint(kind: ErrorHintKind) -> (h: ErrorHint)
    ensures
        h.kind == kind,
        h.text@ == hint_text(kind),
        h.retryable == hint_retryable(kind),
{
    let text = match kind {
        ErrorHintKind::MissingBinary => owned(
            "opencode is not installed - install it with npm install -g opencode-ai, then reopen the repo",
        ),
        ErrorHintKind::Auth => owned("looks like auth - run /connect in opencode, then retry"),
        ErrorHintKind::RateLimit => owned("rate limited - wait a minute, then retry"),
        ErrorHintKind::ApprovalStalled => owned(
            "the approval card above may be out of view - scroll up to answer it",
        ),
        ErrorHintKind::PlainRetry => owned("retry the turn"),
    };
    ErrorHint { kind, text, retryable: !matches!(kind, ErrorHintKind::MissingBinary) }
}

/// Classifies raw agent output into an appended hint, case-insensitively.
pub fn classify_error(raw: &str) -> (h: ErrorHint)
    ensures
        (h.kind, h.text@, h.retryable) == hint_of(raw@),
{
    let lowered = to_lowercase(raw);
    classify_lowered(lowered.as_str())
}

/// The hint for already lowercased failure text (what `classify_error`
/// does after lowercasing).
pub fn classify_lowered(lowered: &str) -> (h: ErrorHint)
    ensures
        h.kind == hint_kind_of(lowered@),
        h.text@ == hint_text(h.kind),
        h.retryable == hint_retryable(h.kind),
{
    let l = chars_of(lowered);
    let kind = if contains_str(&l, "opencode binary not found") || contains_str(&l, "missing binary") {
        ErrorHintKind::MissingBinary
    } else if contains_str(&l, "401") || contains_str(&l, "unauthorized") || contains_str(&l, "auth")
        || contains_str(&l, "/connect") {
        ErrorHintKind::Auth
    } else if contains_str(&l, "429") || contains_str(&l, "rate limit") || contains_str(
        &l,
        "too many requests",
    ) {
        ErrorHintKind::RateLimit
    } else if contains_str(&l, "permission queue stalled") || (contains_str(
        &l,
        "request_permission",
    ) && contains_str(&l, "stalled")) {
        ErrorHintKind::ApprovalStalled
    } else {
        ErrorHintKind::PlainRetry
    };
    hint(kind)
}

/// Law: the markers of a lowercased failure text decide its hint, the
/// earlier class winning: a missing binary, then auth, then a rate limit,
/// then a stalled approval; text with none of them is a plain retry. Only
/// the missing binary is not retryable.
pub proof fn lemma_hint_markers(lowered: Seq<char>)
    ensures
        contains_seq(lowered, "opencode binary not found"@) || contains_seq(lowered, "missing binary"@)
            ==> hint_kind_of(lowered) == ErrorHintKind::MissingBinary,
        !contains_seq(lowered, "opencode binary not found"@) && !contains_seq(lowered, "missing binary"@)
            && (contains_seq(lowered, "401"@) || contains_seq(lowered, "unauthorized"@) || contains_seq(lowered, "auth"@)
            || contains_seq(lowered, "/connect"@)) ==> hint_kind_of(lowered) == ErrorHintKind::Auth,
        !contains_seq(lowered, "opencode binary not found"@) && !contains_seq(lowered, "missing binary"@)
            && !contains_seq(lowered, "401"@) && !contains_seq(lowered, "unauthorized"@) && !contains_seq(lowered, "auth"@)
            && !contains_seq(lowered, "/connect"@) && (contains_seq(lowered, "429"@) || contains_seq(lowered, "rate limit"@)
            || contains_seq(lowered, "too many requests"@)) ==> hint_kind_of(lowered) == ErrorHintKind::RateLimit,
        !contains_seq(lowered, "opencode binary not found"@) && !contains_seq(lowered, "missing binary"@)
            && !contains_seq(lowered, "401"@) && !contains_seq(lowered, "unauthorized"@) && !contains_seq(lowered, "auth"@)
            && !contains_seq(lowered, "/connect"@) && !contains_seq(lowered, "429"@) && !contains_seq(lowered, "rate limit"@)
            && !contains_seq(lowered, "too many requests"@) && (contains_seq(lowered, "permission queue stalled"@)
            || (contains_seq(lowered, "request_permission"@) && contains_seq(lowered, "stalled"@)))
            ==> hint_kind_of(lowered) == ErrorHintKind::ApprovalStalled,
        !contains_seq(lowered, "opencode binary not found"@) && !contains_seq(lowered, "missing binary"@)
            && !contains_seq(lowered, "401"@) && !contains_seq(lowered, "unauthorized"@) && !contains_seq(lowered, "auth"@)
            && !contains_seq(lowered, "/connect"@) && !contains_seq(lowered, "429"@) && !contains_seq(lowered, "rate limit"@)
            && !contains_seq(lowered, "too many requests"@) && !contains_seq(lowered, "permission queue stalled"@)
            && !(contains_seq(lowered, "request_permission"@) && contains_seq(lowered, "stalled"@))
            ==> hint_kind_of(lowered) == ErrorHintKind::PlainRetry,
        hint_retryable(hint_kind_of(lowered)) <==> hint_kind_of(lowered) != ErrorHintKind::MissingBinary,
{
}

/// Whether a lowercased failure text says the transport is gone.
pub open spec fn transport_gone(lowered: Seq<char>) -> bool {
    contains_seq(lowered, "transport"@) || contains_seq(lowered, "incoming_closed"@)
        || contains_seq(lowered, "connection closed"@) || contains_seq(lowered, "broken pipe"@)
        || contains_seq(lowered, "exited"@)
}

/// True when the turn failed because the transport is gone and the session
/// must be reopened before the next prompt.
pub fn is_transport_error(raw: &str) -> (gone: bool)
    ensures
        gone == transport_gone(lowercase(raw@)),
{
    let lowered = to_lowercase(raw);
    transport_gone_in(lowered.as_str())
}

/// Whether already lowercased failure text says the transport is gone
/// (what `is_transport_error` does after lowercasing).
pub fn transport_gone_in(lowered: &str) -> (gone: bool)
    ensures
        gone == transport_gone(lowered@),
{
    let l = chars_of(lowered);
    contains_str(&l, "transport") || contains_str(&l, "incoming_closed") || contains_str(
        &l,
        "connection closed",
    ) || contains_str(&l, "broken pipe") || contains_str(&l, "exited")
}

} // verus!
