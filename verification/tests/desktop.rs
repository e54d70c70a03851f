use samokod::desktop::{add_usage, is_todowrite, parse_todos, validate_repo, AgentError, GitRun, TokenSums, Usage};
use samokod::json::Json;

#[test]
fn types_missing_binary_names_opencode() {
    assert!(AgentError::MissingBinary.to_string().contains("opencode"));
    assert!(samokod::types::AgentError::MissingBinary.to_string().contains("opencode"));
}

#[test]
fn todowrite_name_matches_case_insensitively() {
    assert!(is_todowrite(Some("todowrite")));
    assert!(is_todowrite(Some("TodoWrite")));
    assert!(!is_todowrite(Some("bash")));
    assert!(!is_todowrite(None));
    assert!(!is_todowrite(Some("todowrites")));
}

#[test]
fn token_sums_accumulate_per_turn_usage() {
    let mut sums = TokenSums::new();
    for (total, input, output) in [(9154, 7359, 3), (9165, 202, 3)] {
        add_usage(&mut sums, &Usage { total_tokens: total, input_tokens: input, output_tokens: output });
    }
    assert_eq!(sums.input, 7561);
    assert_eq!(sums.output, 6);
}

#[test]
fn accepts_git_repo() {
    let top = GitRun::Ran { success: true, stdout: Some("/repo\n".to_string()) };
    let head = GitRun::Ran { success: true, stdout: Some("main\n".to_string()) };
    let info = validate_repo("/repo/src", &top, &head).expect("valid repo");
    assert_eq!(info.root, "/repo");
    assert_eq!(info.branch, "main");
    let detached = validate_repo("/repo", &top, &GitRun::Ran { success: false, stdout: None }).expect("valid");
    assert_eq!(detached.branch, "HEAD");
}

#[test]
fn rejects_non_git_folder() {
    let failed = GitRun::Ran { success: false, stdout: None };
    let error = validate_repo("/tmp/x", &failed, &failed).expect_err("must reject");
    assert!(error.contains("not a git repository"));
    let not_started = validate_repo("/tmp/x", &GitRun::NotStarted("no git".to_string()), &failed).expect_err("must reject");
    assert_eq!(not_started, "git failed: no git");
}

#[test]
fn startup_errors_are_typed_for_the_shared_agent() {
    assert_eq!(samokod::desktop::map_startup_error("No such file or directory"), AgentError::MissingBinary);
    assert_eq!(
        samokod::desktop::map_startup_error("boom"),
        AgentError::AgentExited { raw: "boom".to_string() }
    );
}

fn text(value: &str) -> Json {
    Json::Str(value.to_string())
}

fn object(entries: Vec<(&str, Json)>) -> Json {
    Json::Object(entries.into_iter().map(|(key, value)| (key.to_string(), value)).collect())
}

#[test]
fn empty_list_parses_to_empty() {
    assert!(parse_todos(&object(vec![("todos", Json::Array(vec![]))])).is_empty());
    assert!(parse_todos(&object(vec![])).is_empty());
}

#[test]
fn shared_session_parses_completed_output_shape() {
    let row = object(vec![("content", text("a")), ("status", text("completed")), ("priority", text("high"))]);
    let payload = object(vec![
        ("output", text("\u{2026}")),
        ("metadata", object(vec![("todos", Json::Array(vec![row]))])),
    ]);
    let todos = parse_todos(&payload);
    assert_eq!(todos.len(), 1);
    assert_eq!(todos[0].content, "a");
    assert_eq!(todos[0].status, "completed");
    assert_eq!(todos[0].priority, "high");
}

#[test]
fn shared_session_skips_rows_with_missing_fields() {
    let partial = object(vec![("content", text("a")), ("status", text("pending"))]);
    let full = object(vec![("content", text("b")), ("status", text("pending")), ("priority", text("low"))]);
    let payload = object(vec![("todos", Json::Array(vec![partial, full]))]);
    let todos = parse_todos(&payload);
    assert_eq!(todos.len(), 1);
    assert_eq!(todos[0].content, "b");
}
