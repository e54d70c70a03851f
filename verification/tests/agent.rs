use samokod::agent::lifecycle::{reserve_scoping_name, AbandonStep};
use samokod::agent::permissions::PermissionDecision;
use samokod::protocol::{PermissionOption, PermissionOptionKind, PermissionRequest};
use samokod::agent::plans_list::{most_recent_key, ScannedPlan};
use samokod::agent::session::{map_startup_error, poll_step, reapply_step, startup_result, PollStep, ReapplyStep, StartupSignal};
use samokod::agent::turns::role_prefix_text;
use samokod::agent::warm::{is_finished, release_warm, try_claim_warm};
use samokod::agent::{ActivePlan, Flag, LiveSession, State};
use samokod::opencode::{executor_first_message, planner_first_message};
use samokod::plans::{materialize_scoping, plan_title, roles_for, Phase, PlanRef};
use samokod::repo_state::{ConfigRole, RepoState};
use samokod::session_config::option_id_for_role;
use samokod::types::{AgentError, ConfigOptionView, SessionKey, SessionRole};

fn key(plan: &str, role: SessionRole) -> SessionKey {
    SessionKey { plan: plan.to_string(), role }
}

fn with_session(state: &mut State, plan: &str) {
    let k = key(plan, SessionRole::Scoping);
    state.sessions.push(LiveSession::fresh(k, ActivePlan::scoping(plan.to_string()), RepoState::empty()));
}

fn scanned(name: &str, phase: Phase, mtime: Option<u64>, roles: Vec<SessionRole>) -> ScannedPlan {
    ScannedPlan {
        plan: PlanRef { name: name.to_string(), phase },
        title: "Untitled".to_string(),
        has_plan_md: false,
        roles,
        mtime,
    }
}

#[test]
fn scoping_starts_prefixed() {
    assert!(ActivePlan::scoping("n".to_string()).prefixed);
    assert!(!ActivePlan::executing("n".to_string()).prefixed);
}

#[test]
fn scoping_prefix_combines_role_and_user_text() {
    let display = ".samokod/plans/scoping/ts";
    let text = role_prefix_text(Phase::Scoping, display, "  do things  ").expect("scoping prefixes");
    assert_eq!(text, planner_first_message(display, "  do things  "));
}

#[test]
fn executing_prefix_combines_role_and_user_text() {
    let display = ".samokod/plans/executing/ts.slug";
    let text = role_prefix_text(Phase::Executing, display, "  do things  ").expect("executing prefixes");
    assert!(text.contains(&executor_first_message(display)));
    assert!(text.contains("do things"));
}

#[test]
fn finished_phases_never_prefix() {
    for phase in [Phase::Completed, Phase::Cancelled] {
        assert!(role_prefix_text(phase, "dir", "hi").is_none());
    }
}

#[test]
fn stale_role_skips_when_option_absent() {
    let view = |id: &str, category: Option<&str>| ConfigOptionView {
        id: id.to_string(),
        name: id.to_string(),
        current_value: "v".to_string(),
        options: vec![],
        category: category.map(str::to_string),
    };
    let options = vec![view("llm", Some("model"))];
    assert_eq!(option_id_for_role(&options, ConfigRole::Model), Some("llm".to_string()));
    assert_eq!(option_id_for_role(&options, ConfigRole::Effort), None);
    let stored = RepoState { model: Some("m1".to_string()), effort: Some("high".to_string()) };
    assert_eq!(
        reapply_step(&stored, &options, ConfigRole::Model),
        ReapplyStep::Send { id: "llm".to_string(), value: "m1".to_string() }
    );
    assert_eq!(reapply_step(&stored, &options, ConfigRole::Effort), ReapplyStep::NoOption);
    assert_eq!(reapply_step(&RepoState::empty(), &options, ConfigRole::Model), ReapplyStep::NotStored);
}

#[test]
fn working_holds_guard_while_any_session_runs() {
    let mut state = State::new();
    with_session(&mut state, "a");
    with_session(&mut state, "b");
    let first = key("a", SessionRole::Scoping);
    let second = key("b", SessionRole::Scoping);
    assert!(state.set_working(&first, true));
    assert!(state.set_working(&second, true));
    assert!(state.set_working(&first, false));
    assert!(!state.set_working(&second, false));
}

#[test]
fn idle_gate_is_per_session() {
    let mut state = State::new();
    with_session(&mut state, "a");
    with_session(&mut state, "b");
    state.set_working(&key("a", SessionRole::Scoping), true);
    assert!(state.ensure_idle(&key("a", SessionRole::Scoping)).is_err());
    assert!(state.ensure_idle(&key("b", SessionRole::Scoping)).is_ok());
}

#[test]
fn failed_flag_tracks_turn_outcome() {
    let mut state = State::new();
    with_session(&mut state, "a");
    let k = key("a", SessionRole::Scoping);
    state.set_flag(&k, Flag::Failed, true);
    assert!(state.sessions[0].failed);
    state.begin_turn(&k, "hi".to_string()).expect("idle");
    assert!(state.begin_turn(&k, "again".to_string()).is_err());
    let failure = state.turn_failed(&k, "transport incoming_closed");
    assert!(failure.transport_gone);
    assert!(state.sessions[0].failed);
    assert!(!state.sessions[0].working);
    assert_eq!(state.last_prompt(&k).as_deref(), Some("hi"));
    state.begin_turn(&k, "retry".to_string()).expect("idle again");
    assert!(!state.turn_done(&k));
    assert!(!state.sessions[0].failed);
}

#[test]
fn empty_scoping_needs_no_plan_md_no_activity_no_prompt() {
    let mut state = State::new();
    let name = "2026-09-26.08-41-03";
    assert!(state.is_empty_scoping(name, false));
    assert!(!state.is_empty_scoping(name, true));
    state.touch_activity(name, 1);
    assert!(!state.is_empty_scoping(name, false));
    state.remove_activity(name);
    with_session(&mut state, name);
    assert!(state.is_empty_scoping(name, false));
    state.sessions[0].last_prompt = Some("hi".to_string());
    assert!(!state.is_empty_scoping(name, false));
}

#[test]
fn draft_returns_template_only_while_fresh() {
    let name = "2026-09-26.08-41-03";
    let k = key(name, SessionRole::Scoping);
    let mut state = State::new();
    state.pending_scoping = Some(name.to_string());
    let draft = state.scoping_draft_for(&k, false, false).expect("draft").expect("fresh prefills");
    assert!(draft.contains(".samokod/plans/scoping/2026-09-26.08-41-03"));
    assert!(!draft.contains("{{PLAN_DIR}}"));
    let state = State::new();
    assert_eq!(state.scoping_draft_for(&k, true, true).expect("gate"), None);
    assert_eq!(state.scoping_draft_for(&key(name, SessionRole::Executing), true, false).expect("gate"), None);
    assert!(matches!(state.scoping_draft_for(&k, false, false), Err(AgentError::NoSession { .. })));
}

#[test]
fn vanish_removes_session_activity_and_pending() {
    let name = "2026-09-26.08-41-03";
    let mut state = State::new();
    state.pending_scoping = Some(name.to_string());
    state.touch_activity(name, 7);
    with_session(&mut state, name);
    state.vanish_scoping(name);
    assert!(state.sessions.is_empty());
    assert_eq!(state.activity_of(name), None);
    assert_eq!(state.pending_scoping, None);
    state.vanish_scoping("2026-09-26.08-41-99");
}

#[test]
fn reserve_avoids_taken_names() {
    let on_disk = vec!["2026-09-26.08-41-03".to_string()];
    let reserved = reserve_scoping_name(&on_disk, Some("2026-09-26.08-41-03-1"), "2026-09-26.08-41-03");
    assert_eq!(reserved, "2026-09-26.08-41-03-2");
    assert_eq!(reserve_scoping_name(&on_disk, None, "2026-09-26.08-41-04"), "2026-09-26.08-41-04");
}

#[test]
fn double_reserve_reuses_empty_pending() {
    let mut state = State::new();
    state.open_repo("/repo", "main", &vec![], "2026-09-26.08-41-03");
    let pending = state.pending_scoping.clone().expect("pending reserved");
    assert_eq!(state.current, Some(key(&pending, SessionRole::Scoping)));
    assert_eq!(state.create_plan(&vec![], "2026-09-26.08-41-03", false), Ok(true));
    state.touch_activity(&pending, 1);
    assert_eq!(state.create_plan(&vec![], "2026-09-26.08-41-03", false), Ok(false));
    let fresh = state.pending_scoping.clone().expect("fresh pending");
    assert_ne!(fresh, pending);
}

#[test]
fn select_away_discards_only_empty_prev() {
    let mut state = State::new();
    state.open_repo("/repo", "main", &vec![], "2026-09-26.08-41-03");
    let target = key("2026-09-26.08-41-04", SessionRole::Scoping);
    let vanished = state.select_plan(target.clone(), true, false).expect("select");
    assert_eq!(vanished.as_deref(), Some("2026-09-26.08-41-03"));
    assert_eq!(state.pending_scoping, None);
    assert_eq!(state.current, Some(target.clone()));
    assert!(matches!(
        state.select_plan(key("gone", SessionRole::Scoping), false, false),
        Err(AgentError::NoSession { .. })
    ));
}

#[test]
fn abandon_vanishes_empty_and_moves_others() {
    let mut state = State::new();
    state.open_repo("/repo", "main", &vec!["a".to_string()], "now");
    let k = key("a", SessionRole::Scoping);
    assert!(matches!(state.abandon_plan(&k, false, true), Ok(AbandonStep::Vanished(_))));
    match state.abandon_plan(&k, true, true) {
        Ok(AbandonStep::Move(plan)) => assert_eq!(plan.phase, Phase::Scoping),
        other => panic!("unexpected {other:?}"),
    }
    assert!(state.abandon_plan(&key("a", SessionRole::Executing), true, true).is_err());
}

#[test]
fn claim_is_single_flight() {
    let mut warming = Vec::new();
    let k = key("2026-09-26.08-52-57", SessionRole::Scoping);
    assert!(try_claim_warm(&mut warming, &k));
    assert!(!try_claim_warm(&mut warming, &k));
}

#[test]
fn release_allows_reclaim_after_failure() {
    let mut warming = Vec::new();
    let k = key("2026-09-26.08-52-57", SessionRole::Scoping);
    assert!(try_claim_warm(&mut warming, &k));
    release_warm(&mut warming, &k);
    assert!(try_claim_warm(&mut warming, &k));
}

#[test]
fn startup_errors_are_typed() {
    assert_eq!(map_startup_error("spawn failed: No such file or directory"), AgentError::MissingBinary);
    assert_eq!(map_startup_error("opencode: command not found"), AgentError::MissingBinary);
    assert_eq!(
        map_startup_error("exit 1"),
        AgentError::AgentExited { raw: "exit 1".to_string() }
    );
    assert_eq!(startup_result(&StartupSignal::Ready, true), Ok(()));
    assert!(startup_result(&StartupSignal::Ready, false).is_err());
    assert!(startup_result(&StartupSignal::Cancelled, true).is_err());
    assert_eq!(poll_step(true, true, true), PollStep::Ready);
    assert_eq!(poll_step(false, false, true), PollStep::TryClaim);
    assert_eq!(poll_step(false, true, true), PollStep::GiveUp);
    assert_eq!(poll_step(false, true, false), PollStep::Wait);
}

#[test]
fn entries_sort_scoping_first_then_rest() {
    let state = State::new();
    let rows = vec![
        scanned("done", Phase::Completed, Some(5), vec![SessionRole::Scoping]),
        scanned("new", Phase::Scoping, Some(1), vec![SessionRole::Scoping]),
    ];
    let entries = state.sorted_entries(rows, &vec![]);
    assert_eq!(entries[0].name, "new");
    assert_eq!(entries[1].name, "done");
}

#[test]
fn activity_beats_newer_mtime() {
    let mut state = State::new();
    state.touch_activity("old", 1);
    let rows = vec![
        scanned("new", Phase::Scoping, Some(9), vec![SessionRole::Scoping]),
        scanned("old", Phase::Scoping, Some(1), vec![SessionRole::Scoping]),
    ];
    let entries = state.sorted_entries(rows, &vec![]);
    assert_eq!(entries[0].name, "old");
}

#[test]
fn idle_plans_fall_back_to_newest_first() {
    let state = State::new();
    let rows = vec![
        scanned("first", Phase::Scoping, Some(1), vec![SessionRole::Scoping]),
        scanned("second", Phase::Scoping, Some(2), vec![SessionRole::Scoping]),
        scanned("a-no-time", Phase::Scoping, None, vec![SessionRole::Scoping]),
        scanned("b-no-time", Phase::Scoping, None, vec![SessionRole::Scoping]),
    ];
    let names: Vec<String> = state.sorted_entries(rows, &vec![]).into_iter().map(|e| e.name).collect();
    assert_eq!(names, vec!["second", "first", "b-no-time", "a-no-time"]);
}

#[test]
fn pending_lists_as_untitled_without_dir() {
    let mut state = State::new();
    state.pending_scoping = Some("2026-09-26.08-41-03".to_string());
    let entries = state.sorted_entries(vec![], &vec![]);
    assert_eq!(entries.len(), 1);
    assert_eq!(entries[0].name, "2026-09-26.08-41-03");
    assert_eq!(entries[0].title, "Untitled");
    assert!(!entries[0].has_plan_md);
    assert_eq!(entries[0].sessions.len(), 1);
    assert_eq!(entries[0].sessions[0].role, SessionRole::Scoping);
}

#[test]
fn most_recent_prefers_execution_session() {
    let mut state = State::new();
    with_session(&mut state, "p");
    state.sessions[0].working = true;
    let rows = vec![scanned("p", Phase::Executing, None, vec![SessionRole::Scoping, SessionRole::Executing])];
    let entries = state.sorted_entries(rows, &vec![true]);
    assert!(entries[0].sessions[0].working);
    assert!(!entries[0].sessions[1].working);
    assert_eq!(most_recent_key(&entries), Some(key("p", SessionRole::Executing)));
    assert_eq!(most_recent_key(&[]), None);
}

#[test]
fn permission_cards_open_and_close() {
    let mut state = State::new();
    with_session(&mut state, "a");
    let k = key("a", SessionRole::Scoping);
    let request = PermissionRequest {
        session_id: "s1".to_string(),
        tool_call_id: "call-1".to_string(),
        title: None,
        kind: None,
        name: Some("bash".to_string()),
        options: vec![PermissionOption {
            option_id: "ok".to_string(),
            name: "Allow".to_string(),
            kind: PermissionOptionKind::AllowOnce,
        }],
    };
    let card = state.ask_permission(&k, &request).expect("card opens");
    assert_eq!(card.title, "run this action?");
    assert_eq!(card.kind, "tool");
    assert!(state.sessions[0].approval);
    assert_eq!(
        state.answer_permission(&k, "call-1", Some("ok".to_string())),
        Ok(PermissionDecision::Selected("ok".to_string()))
    );
    assert!(state.answer_permission(&k, "call-1", None).is_err());
    assert_eq!(state.resolve_permission(&k, "call-1", None), PermissionDecision::Cancelled);
    assert!(!state.sessions[0].approval);
}

#[test]
fn untitled_plans_list_without_heading() {
    let state = State::new();
    let bare = PlanRef { name: "bare".to_string(), phase: Phase::Scoping };
    let row = ScannedPlan {
        roles: roles_for(&bare, false, false),
        plan: bare,
        title: plan_title(Some("no heading here\n")),
        has_plan_md: true,
        mtime: Some(1),
    };
    let entries = state.sorted_entries(vec![row], &vec![]);
    assert_eq!(entries.len(), 1);
    assert_eq!(entries[0].title, "Untitled");
    assert_eq!(entries[0].sessions.len(), 1);
}

#[test]
fn statuses_cover_sessions_and_live_flags() {
    let mut state = State::new();
    let k = key("a", SessionRole::Executing);
    let mut live = LiveSession::fresh(k.clone(), ActivePlan::executing("a".to_string()), RepoState::empty());
    live.working = true;
    live.approval = true;
    state.sessions.push(live);
    let rows = vec![scanned("a", Phase::Executing, None, vec![SessionRole::Scoping, SessionRole::Executing])];
    let entries = state.sorted_entries(rows, &vec![false]);
    assert_eq!(entries.len(), 1);
    assert_eq!(entries[0].sessions.len(), 2);
    let executing = entries[0].sessions.iter().find(|status| status.role == SessionRole::Executing).expect("executing status");
    assert!(executing.working);
    assert!(executing.approval);
    assert!(!executing.failed);
    assert!(!executing.live);
    let scoping = entries[0].sessions.iter().find(|status| status.role == SessionRole::Scoping).expect("scoping status");
    assert!(!scoping.working);
}

#[test]
fn cancelled_scoping_lists_one_row() {
    let state = State::new();
    let cancelled = PlanRef { name: "c".to_string(), phase: Phase::Cancelled };
    let rows = vec![scanned("c", Phase::Cancelled, Some(3), roles_for(&cancelled, false, false))];
    let entries = state.sorted_entries(rows, &vec![]);
    assert_eq!(entries.len(), 1);
    assert_eq!(entries[0].sessions.len(), 1);
    assert_eq!(entries[0].sessions[0].role, SessionRole::Scoping);
}

#[test]
fn reserve_creates_no_dir_and_avoids_taken_names() {
    let on_disk = vec!["2026-09-26.08-41-03".to_string()];
    let reserved = reserve_scoping_name(&on_disk, Some("2026-09-26.08-41-04"), "2026-09-26.08-41-03");
    assert_ne!(reserved, "2026-09-26.08-41-03");
    assert_ne!(reserved, "2026-09-26.08-41-04");
    let reserved = reserve_scoping_name(&on_disk, Some("2026-09-26.08-41-04"), "2026-09-26.08-41-04");
    assert_eq!(reserved, "2026-09-26.08-41-04-1");
}

#[test]
fn vanish_removes_dir_session_activity_and_pending() {
    let name = "2026-09-26.08-41-03";
    let mut state = State::new();
    state.pending_scoping = Some(name.to_string());
    state.touch_activity(name, 1);
    with_session(&mut state, name);
    state.vanish_scoping(name);
    assert!(state.sessions.is_empty());
    assert_eq!(state.activity_of(name), None);
    assert_eq!(state.pending_scoping, None);
    state.vanish_scoping("2026-09-26.08-41-99");
    assert!(state.sessions.is_empty());
}

#[test]
fn send_path_materializes_and_clears_pending() {
    let name = "2026-09-26.08-41-03";
    let mut state = State::new();
    state.pending_scoping = Some(name.to_string());
    let session = key(name, SessionRole::Scoping);
    assert!(state.is_pending(&session));
    let plan = materialize_scoping(&session.plan);
    assert_eq!(plan, PlanRef { name: name.to_string(), phase: Phase::Scoping });
    state.clear_pending(&session.plan);
    assert_eq!(state.pending_scoping, None);
    assert!(!state.is_pending(&session));
}

#[test]
fn finished_needs_completed_or_cancelled_dir() {
    assert!(!is_finished(false, false));
    assert!(is_finished(true, false));
    assert!(is_finished(false, true));
    let mut state = State::new();
    let k = key("2026-09-26.08-41-03", SessionRole::Scoping);
    assert!(!state.begin_warm(&k, false, false));
    state.repo_root = Some("/repo".to_string());
    assert!(!state.begin_warm(&k, true, false));
    assert!(state.begin_warm(&k, false, false));
    assert!(!state.begin_warm(&k, false, false));
}

#[test]
fn reinstalled_session_hands_back_open_cards() {
    let mut state = State::new();
    with_session(&mut state, "a");
    let k = key("a", SessionRole::Scoping);
    state.sessions[0].pending.push("call-7".to_string());
    let orphaned = state.install_session(&k, ActivePlan::scoping("a".to_string()), "s2".to_string(), RepoState::empty(), "/repo", "main");
    assert_eq!(orphaned, vec!["call-7".to_string()]);
    assert_eq!(state.sessions.len(), 1);
    assert_eq!(state.sessions[0].session_id.as_deref(), Some("s2"));
    assert!(state.sessions[0].pending.is_empty());
    let fresh = state.install_session(&key("b", SessionRole::Scoping), ActivePlan::scoping("b".to_string()), "s3".to_string(), RepoState::empty(), "/repo", "main");
    assert!(fresh.is_empty());
}

#[test]
fn non_empty_scoping_plan_moves_to_cancelled() {
    let mut state = State::new();
    state.open_repo("/repo", "main", &vec!["2026-09-26.08-41-03".to_string()], "2026-09-26.08-41-04");
    let k = key("2026-09-26.08-41-03", SessionRole::Scoping);
    match state.abandon_plan(&k, true, true) {
        Ok(AbandonStep::Move(plan)) => assert_eq!(plan, PlanRef { name: "2026-09-26.08-41-03".to_string(), phase: Phase::Scoping }),
        other => panic!("unexpected {other:?}"),
    }
    assert!(state.create_plan(&vec!["2026-09-26.08-41-03".to_string()], "2026-09-26.08-41-03", false) == Ok(false));
    assert_eq!(state.pending_scoping.as_deref(), Some("2026-09-26.08-41-03-1"));
}

#[test]
fn abandoned_plan_selects_its_cancelled_scoping_session() {
    let mut state = State::new();
    state.open_repo("/repo", "main", &vec!["2026-09-26.08-41-03".to_string()], "2026-09-26.08-41-04");
    state.touch_activity("2026-09-26.08-41-03", 5);
    let k = key("2026-09-26.08-41-03", SessionRole::Scoping);
    let from = PlanRef { name: "2026-09-26.08-41-03".to_string(), phase: Phase::Scoping };
    let next = PlanRef { name: "2026-09-26.08-41-03.draft".to_string(), phase: Phase::Cancelled };
    state.finish_abandon(&k, &from, &next);
    assert_eq!(state.current, Some(key("2026-09-26.08-41-03.draft", SessionRole::Scoping)));
    assert_eq!(state.activity_of("2026-09-26.08-41-03.draft"), Some(5));
    assert_eq!(state.activity_of("2026-09-26.08-41-03"), None);
}

#[test]
fn abandoning_the_pending_plan_clears_it() {
    let mut state = State::new();
    state.open_repo("/repo", "main", &vec![], "2026-09-26.08-41-03");
    let pending = state.pending_scoping.clone().expect("pending");
    match state.abandon_plan(&key(&pending, SessionRole::Scoping), false, false) {
        Ok(AbandonStep::Vanished(name)) => assert_eq!(name, pending),
        other => panic!("unexpected {other:?}"),
    }
    assert_eq!(state.pending_scoping, None);
}
