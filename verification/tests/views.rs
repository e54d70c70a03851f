use samokod::agent::{ActivePlan, LiveSession, State};
use samokod::branch::{head_path, DotGit};
use samokod::permissions::{rule_hint, to_view};
use samokod::protocol::{
    ConfigCategory, ConfigKind, ConfigOption, ContentBlock, PermissionOption, PermissionOptionKind,
    SelectOption, SelectOptions, SessionUpdate, ToolCall, ToolCallStatus, ToolCallUpdate, ToolKind,
};
use samokod::repo_state::{
    classify_option, load_repo_state, save_role, ConfigRole, RepoState, StoredText,
};
use samokod::session_config::config_views;
use samokod::types::{ConfigOptionView, SessionKey, SessionRole};
use samokod::updates::{agent_text_of, format_tool_line, format_tool_update};

fn option(id: &str, kind: PermissionOptionKind) -> PermissionOption {
    PermissionOption { option_id: id.to_string(), name: id.to_string(), kind }
}

#[test]
fn keeps_only_one_shot_options() {
    let options = vec![
        option("a-once", PermissionOptionKind::AllowOnce),
        option("a-always", PermissionOptionKind::AllowAlways),
        option("r-once", PermissionOptionKind::RejectOnce),
        option("r-always", PermissionOptionKind::RejectAlways),
    ];
    let view = to_view(&options);
    assert_eq!(view.iter().map(|item| item.id.as_str()).collect::<Vec<_>>(), vec!["a-once", "r-once"]);
    assert_eq!(view.iter().map(|item| item.kind.as_str()).collect::<Vec<_>>(), vec!["allow", "reject"]);
}

#[test]
fn empty_when_only_always() {
    let options = vec![option("a-always", PermissionOptionKind::AllowAlways)];
    assert!(to_view(&options).is_empty());
}

#[test]
fn rule_hint_names_tool() {
    assert_eq!(rule_hint(Some("bash")), "bash - asked because your OpenCode config sets bash to ask");
    assert_eq!(rule_hint(None), "asked because your OpenCode config sets this tool to ask");
}

#[test]
fn rule_hint_without_a_name_is_generic() {
    assert_eq!(rule_hint(Some("")), "asked because your OpenCode config sets this tool to ask");
}

fn view(id: &str, category: Option<&str>) -> ConfigOptionView {
    ConfigOptionView {
        id: id.to_string(),
        name: id.to_string(),
        current_value: "v".to_string(),
        options: vec![],
        category: category.map(str::to_string),
    }
}

#[test]
fn classifies_model_and_effort() {
    assert_eq!(classify_option(&view("llm", Some("model"))), Some(ConfigRole::Model));
    assert_eq!(classify_option(&view("x", Some("thought_level"))), Some(ConfigRole::Effort));
    assert_eq!(classify_option(&view("effort", None)), Some(ConfigRole::Effort));
    assert_eq!(classify_option(&view("mode", Some("mode"))), None);
}

#[test]
fn repo_state_round_trips_through_disk() {
    let state = save_role(RepoState::empty(), ConfigRole::Model, "m1");
    let state = save_role(state, ConfigRole::Effort, "high");
    let expected = RepoState { model: Some("m1".to_string()), effort: Some("high".to_string()) };
    assert_eq!(state, expected);
    let text = StoredText::Text("{\"model\":\"m1\",\"effort\":\"high\"}".to_string());
    assert_eq!(load_repo_state(&text, Some(state.clone())), expected);
}

#[test]
fn blank_or_missing_state_means_defaults() {
    let parsed = Some(RepoState { model: Some("m".to_string()), effort: None });
    assert_eq!(load_repo_state(&StoredText::Text("  \n".to_string()), parsed.clone()), RepoState::empty());
    assert_eq!(load_repo_state(&StoredText::Missing, parsed.clone()), RepoState::empty());
    assert_eq!(load_repo_state(&StoredText::Unreadable, parsed), RepoState::empty());
    assert_eq!(load_repo_state(&StoredText::Text("{".to_string()), None), RepoState::empty());
}

#[test]
fn agent_chunk_extracts_text() {
    let update = SessionUpdate::AgentMessageChunk(ContentBlock::Text("hello".to_string()));
    assert_eq!(agent_text_of(&update), Some("hello".to_string()));
}

fn call(id: &str, title: &str, kind: ToolKind, status: ToolCallStatus) -> ToolCall {
    ToolCall { tool_call_id: id.to_string(), title: title.to_string(), kind, status, raw_input: None }
}

#[test]
fn non_text_update_yields_no_chunk() {
    let update = SessionUpdate::ToolCall(call("id-1", "title", ToolKind::Read, ToolCallStatus::Pending));
    assert_eq!(agent_text_of(&update), None);
}

#[test]
fn every_tool_kind_maps_to_one_line() {
    for kind in [
        ToolKind::Read,
        ToolKind::Edit,
        ToolKind::Delete,
        ToolKind::Move,
        ToolKind::Search,
        ToolKind::Execute,
        ToolKind::Think,
        ToolKind::Fetch,
        ToolKind::Other,
    ] {
        let line = format_tool_line(&call("id-1", "src-tauri/acp.rs", kind, ToolCallStatus::Completed));
        assert!(line.text.contains("src-tauri/acp.rs"), "{kind:?}");
        assert!(!line.id.is_empty());
    }
}

#[test]
fn tool_line_reads_verb_title_and_status() {
    let line = format_tool_line(&call("id-2", "ls -la", ToolKind::Execute, ToolCallStatus::InProgress));
    assert_eq!(line.id, "id-2");
    assert_eq!(line.text, "ran ls -la");
    assert_eq!(line.status, "inprogress");
    let bare = format_tool_line(&call("id-3", "", ToolKind::Edit, ToolCallStatus::Failed));
    assert_eq!(bare.text, "edited");
    assert_eq!(bare.status, "failed");
}

fn update(id: &str) -> ToolCallUpdate {
    ToolCallUpdate {
        tool_call_id: id.to_string(),
        title: None,
        kind: None,
        status: None,
        name: None,
        raw_input: None,
        raw_output: None,
    }
}

#[test]
fn update_line_uses_title() {
    let line = format_tool_update(&update("id-9"));
    assert_eq!(line.id, "id-9");
    assert_eq!(line.text, "ran running tool");
    assert_eq!(line.status, "pending");
    let mut titled = update("id-10");
    titled.title = Some("src/main.rs".to_string());
    titled.kind = Some(ToolKind::Read);
    titled.status = Some(ToolCallStatus::Completed);
    let line = format_tool_update(&titled);
    assert_eq!(line.text, "read src/main.rs");
    assert_eq!(line.status, "completed");
}

fn select_fixture(id: &str, name: &str, category: Option<ConfigCategory>) -> ConfigOption {
    ConfigOption {
        id: id.to_string(),
        name: name.to_string(),
        kind: ConfigKind::Select {
            current_value: "v".to_string(),
            options: SelectOptions::Ungrouped(vec![SelectOption { value: "v".to_string(), name: "V".to_string() }]),
        },
        category,
    }
}

#[test]
fn config_views_keep_agent_ordering() {
    let option = ConfigOption {
        id: "model".to_string(),
        name: "Model".to_string(),
        kind: ConfigKind::Select {
            current_value: "opencode/big-pickle".to_string(),
            options: SelectOptions::Ungrouped(vec![SelectOption {
                value: "opencode/big-pickle".to_string(),
                name: "Big Pickle".to_string(),
            }]),
        },
        category: Some(ConfigCategory::Model),
    };
    let views = config_views(std::slice::from_ref(&option));
    assert_eq!(views.len(), 1);
    assert_eq!(views[0].id, "model");
    assert_eq!(views[0].category.as_deref(), Some("model"));
    assert_eq!(views[0].current_value, "opencode/big-pickle");
    assert_eq!(views[0].options.len(), 1);
}

#[test]
fn config_views_maps_categories() {
    let options = vec![
        select_fixture("llm", "LLM", Some(ConfigCategory::Model)),
        select_fixture("mode", "Session Mode", Some(ConfigCategory::Mode)),
        select_fixture("effort", "Effort", Some(ConfigCategory::ThoughtLevel)),
        select_fixture("ctx", "Context", Some(ConfigCategory::ModelConfig)),
        select_fixture("custom", "Custom", Some(ConfigCategory::Other("_custom".to_string()))),
        select_fixture("legacy", "Legacy", None),
    ];
    let views = config_views(&options);
    let categories: Vec<Option<&str>> = views.iter().map(|view| view.category.as_deref()).collect();
    assert_eq!(
        categories,
        [Some("model"), Some("mode"), Some("thought_level"), Some("model_config"), Some("_custom"), None]
    );
}

#[test]
fn working_releases_awake_guard() {
    let mut state = State::new();
    let key = SessionKey { plan: "2026-09-25.10-54-59".to_string(), role: SessionRole::Scoping };
    state.sessions.push(LiveSession::fresh(
        key.clone(),
        ActivePlan::scoping("2026-09-25.10-54-59".to_string()),
        RepoState::empty(),
    ));
    assert!(state.set_working(&key, true));
    assert!(state.sessions[0].working);
    assert!(!state.set_working(&key, false));
    assert!(!state.sessions[0].working);
}

#[test]
fn resolves_plain_repo_head() {
    assert_eq!(head_path("/tmp/repo", &DotGit::Dir), Some("/tmp/repo/.git/HEAD".to_string()));
}

#[test]
fn resolves_worktree_pointer() {
    let pointer = DotGit::File(Some("gitdir: real-git\n".to_string()));
    assert_eq!(head_path("/tmp/repo", &pointer), Some("/tmp/repo/real-git/HEAD".to_string()));
    let absolute = DotGit::File(Some("gitdir: /srv/main/.git/worktrees/x\n".to_string()));
    assert_eq!(head_path("/tmp/repo", &absolute), Some("/srv/main/.git/worktrees/x/HEAD".to_string()));
}

#[test]
fn missing_git_yields_none() {
    assert_eq!(head_path("/tmp/repo", &DotGit::Missing), None);
    assert_eq!(head_path("/tmp/repo", &DotGit::File(None)), None);
    assert_eq!(head_path("/tmp/repo", &DotGit::File(Some("garbage".to_string()))), None);
}
