use samokod::json::Json;
use samokod::todos::{diff_todos, parse_todos, todos_from_call, todos_from_update};
use samokod::types::TodoView;

fn s(text: &str) -> Json {
    Json::Str(text.to_string())
}

fn obj(entries: Vec<(&str, Json)>) -> Json {
    Json::Object(entries.into_iter().map(|(k, v)| (k.to_string(), v)).collect())
}

fn row(content: &str, status: &str, priority: &str) -> Json {
    obj(vec![("content", s(content)), ("status", s(status)), ("priority", s(priority))])
}

fn todo(content: &str, status: &str) -> TodoView {
    TodoView { content: content.to_string(), status: status.to_string(), priority: "high".to_string() }
}

fn todo_items() -> Json {
    Json::Array(vec![row("a", "pending", "medium"), row("b", "pending", "medium")])
}

#[test]
fn todos_parses_call_input_shape() {
    let payload = obj(vec![(
        "todos",
        Json::Array(vec![row("a", "pending", "high"), row("b", "in_progress", "low")]),
    )]);
    let todos = parse_todos(&payload).expect("todos key present");
    assert_eq!(todos.len(), 2);
    assert_eq!(todos[1].status, "in_progress");
    assert_eq!(samokod::desktop::parse_todos(&payload).len(), 2);
}

#[test]
fn todos_parses_completed_output_shape() {
    let payload = obj(vec![
        ("output", s("…")),
        (
            "metadata",
            obj(vec![("todos", Json::Array(vec![row("a", "completed", "high")])), ("truncated", Json::Bool(false))]),
        ),
    ]);
    let todos = parse_todos(&payload).expect("metadata.todos present");
    assert_eq!(todos, vec![todo("a", "completed")]);
}

#[test]
fn missing_key_returns_none() {
    assert!(parse_todos(&obj(vec![])).is_none());
    assert!(parse_todos(&obj(vec![("output", s("…")), ("metadata", obj(vec![]))])).is_none());
    assert!(parse_todos(&obj(vec![("todos", Json::Null)])).is_none());
}

#[test]
fn empty_list_returns_some_empty() {
    assert_eq!(parse_todos(&obj(vec![("todos", Json::Array(vec![]))])), Some(Vec::new()));
    assert!(samokod::desktop::parse_todos(&obj(vec![])).is_empty());
}

#[test]
fn todos_skips_rows_with_missing_fields() {
    let payload = obj(vec![(
        "todos",
        Json::Array(vec![
            obj(vec![("content", s("a")), ("status", s("pending"))]),
            row("b", "pending", "low"),
            obj(vec![("content", s("c")), ("status", s("pending")), ("priority", Json::Number("1".to_string()))]),
        ]),
    )]);
    let todos = parse_todos(&payload).expect("todos key present");
    assert_eq!(todos.len(), 1);
}

#[test]
fn call_extracts_input() {
    let raw = obj(vec![("todos", todo_items())]);
    let fresh = todos_from_call(Some(&raw)).expect("input carries todos");
    assert_eq!(fresh.len(), 2);
    assert_eq!(fresh[0].content, "a");
}

#[test]
fn call_ignores_empty_input() {
    assert!(todos_from_call(None).is_none());
    assert!(todos_from_call(Some(&obj(vec![]))).is_none());
}

#[test]
fn update_prefers_output_over_input() {
    let input = obj(vec![("todos", Json::Array(vec![row("a", "pending", "high")]))]);
    let output = obj(vec![
        ("output", s("…")),
        ("metadata", obj(vec![("todos", todo_items()), ("truncated", Json::Bool(false))])),
    ]);
    let fresh = todos_from_update(Some(&input), Some(&output)).expect("output carries todos");
    assert_eq!(fresh.len(), 2);
    assert_eq!(fresh[0].content, "a");
}

#[test]
fn update_falls_back_to_input() {
    let input = obj(vec![("todos", todo_items())]);
    let fresh = todos_from_update(Some(&input), None).expect("input carries todos");
    assert_eq!(fresh.len(), 2);
}

#[test]
fn update_ignores_payloads_without_todos() {
    assert!(todos_from_update(None, None).is_none());
    assert!(todos_from_update(Some(&obj(vec![])), Some(&obj(vec![("output", s("…"))]))).is_none());
}

#[test]
fn todos_diff_reports_added_and_status_changed_only() {
    let old = vec![todo("a", "pending"), todo("gone", "pending"), todo("same", "pending")];
    let new = vec![todo("a", "completed"), todo("b", "pending"), todo("same", "pending")];
    let changes = diff_todos(&old, &new);
    assert_eq!(changes.len(), 2);
    assert!(changes.iter().any(|c| c.content == "a" && c.status == "completed"));
    assert!(changes.iter().any(|c| c.content == "b"));
}

#[test]
fn todos_identical_lists_have_no_changes() {
    let list = vec![todo("a", "pending")];
    assert!(diff_todos(&list, &list).is_empty());
}

#[test]
fn repeated_content_matches_the_first_row() {
    let list = vec![todo("a", "pending"), todo("a", "completed")];
    let changes = diff_todos(&list, &list);
    assert_eq!(changes.len(), 1);
    assert_eq!(changes[0].status, "completed");
}
