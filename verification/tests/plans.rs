use samokod::plans::timestamp_name;
use samokod::plans::slug_of_lowered;
use samokod::plans::{
    abandon, begin_merge, complete, execute, extract_title, finish_merge, gitignore_path,
    materialize_scoping, phase_rank, plan_title, roles_for, slugify, structure_dirs, unique_name,
    Phase, PlanError, PlanRef, GITIGNORE_TEXT,
};
use samokod::types::SessionRole;

fn plan(name: &str, phase: Phase) -> PlanRef {
    PlanRef { name: name.to_string(), phase }
}

#[test]
fn phases_have_distinct_dirs() {
    let phases = [
        Phase::Scoping,
        Phase::Executing,
        Phase::Merging,
        Phase::Completed,
        Phase::Cancelled,
    ];
    let mut dirs: Vec<&str> = phases.iter().map(|phase| phase.dir_name()).collect();
    dirs.sort();
    dirs.dedup();
    assert_eq!(dirs.len(), 5);
}

#[test]
fn only_active_phases_run_chats() {
    assert!(Phase::Scoping.is_active());
    assert!(Phase::Executing.is_active());
    assert!(Phase::Merging.is_active());
    assert!(!Phase::Completed.is_active());
    assert!(!Phase::Cancelled.is_active());
}

#[test]
fn unique_name_passes_through_when_free() {
    let taken: Vec<String> = Vec::new();
    assert_eq!(unique_name("2026-09-25.10-54-59", &taken), "2026-09-25.10-54-59");
}

#[test]
fn unique_name_suffixes_on_collision() {
    let taken = vec![
        "2026-09-25.10-54-59".to_string(),
        "2026-09-25.10-54-59-1".to_string(),
    ];
    assert_eq!(unique_name("2026-09-25.10-54-59", &taken), "2026-09-25.10-54-59-2");
}

#[test]
fn unique_name_skips_only_taken_suffixes() {
    let taken = vec!["base".to_string(), "base-2".to_string()];
    assert_eq!(unique_name("base", &taken), "base-1");
}

#[test]
fn slugify_joins_runs_with_single_hyphens() {
    assert_eq!(
        slugify("Plan: ship the AD3 diagonal-flow app icon!"),
        "plan-ship-the-ad3-diagonal-flow-app-icon"
    );
    assert_eq!(slugify("  spaced   out  "), "spaced-out");
    assert_eq!(slugify("TODO side panel + spend"), "todo-side-panel-spend");
}

#[test]
fn slugify_caps_length() {
    let slug = slugify(&"a".repeat(100));
    assert_eq!(slug.len(), 60);
}

#[test]
fn slugify_of_symbols_only_is_empty() {
    assert_eq!(slugify("!!! ???"), "");
}

#[test]
fn extract_title_takes_first_heading() {
    let text = "intro\n\n# Real title\n\n## Sub\n";
    assert_eq!(extract_title(text).as_deref(), Some("Real title"));
}

#[test]
fn extract_title_rejects_hash_without_space() {
    assert_eq!(extract_title("#hashtag\n").as_deref(), None);
    assert_eq!(extract_title("no headings\n").as_deref(), None);
}

#[test]
fn plan_title_falls_back_to_untitled() {
    assert_eq!(plan_title(Some("intro\n\n# Real title\n")), "Real title");
    assert_eq!(plan_title(Some("no heading here\n")), "Untitled");
    assert_eq!(plan_title(None), "Untitled");
}

#[test]
fn execute_rejects_wrong_phase() {
    let running = plan("x", Phase::Executing);
    assert!(matches!(execute(&running, "# T\n"), Err(PlanError::WrongPhase { .. })));
}

#[test]
fn execute_fails_loud_without_heading() {
    let scoping = plan("2026-09-26.08-41-03", Phase::Scoping);
    assert!(matches!(execute(&scoping, "no heading here\n"), Err(PlanError::Untitled)));
}

#[test]
fn execute_slugs_the_title_into_the_name() {
    let scoping = plan("2026-09-26.08-41-03", Phase::Scoping);
    let next = execute(&scoping, "# Shiny feature\n\nSteps.\n").expect("execute");
    assert_eq!(next.name, "2026-09-26.08-41-03.shiny-feature");
    assert_eq!(next.phase, Phase::Executing);
}

#[test]
fn lifecycle_moves_keep_names() {
    let running = plan("ts.slug", Phase::Executing);
    let done = complete(&running).expect("complete");
    assert_eq!(done.name, "ts.slug");
    assert_eq!(done.phase, Phase::Completed);
    let merging = begin_merge(&running).expect("begin");
    assert_eq!(merging.phase, Phase::Merging);
    let rebased = finish_merge(&merging).expect("finish");
    assert_eq!(rebased.phase, Phase::Completed);
    assert_eq!(rebased.name, "ts.slug");
    assert!(complete(&merging).is_err());
    assert!(finish_merge(&running).is_err());
}

#[test]
fn abandon_names_scoping_plan_when_possible() {
    let scoping = plan("2026-09-26.08-41-03", Phase::Scoping);
    let cancelled = abandon(&scoping, Some("# Draft idea\n")).expect("abandon");
    assert_eq!(cancelled.phase, Phase::Cancelled);
    assert!(cancelled.name.ends_with(".draft-idea"));
}

#[test]
fn abandon_keeps_bare_name_without_plan_md() {
    let scoping = plan("2026-09-26.08-41-03", Phase::Scoping);
    let cancelled = abandon(&scoping, None).expect("abandon");
    assert_eq!(cancelled.name, scoping.name);
    let done = plan("x", Phase::Completed);
    assert!(matches!(abandon(&done, None), Err(PlanError::WrongPhase { .. })));
}

#[test]
fn execution_roles_survive_cancel() {
    let scoping_only = vec![SessionRole::Scoping];
    let both = vec![SessionRole::Scoping, SessionRole::Executing];
    let all = vec![SessionRole::Scoping, SessionRole::Executing, SessionRole::Merging];
    assert_eq!(roles_for(&plan("a", Phase::Scoping), false, false), scoping_only);
    assert_eq!(roles_for(&plan("a", Phase::Executing), false, false), both);
    assert_eq!(roles_for(&plan("a", Phase::Completed), true, false), both);
    assert_eq!(roles_for(&plan("a", Phase::Merging), false, false), all);
    assert_eq!(roles_for(&plan("a", Phase::Completed), true, true), all);
    assert_eq!(roles_for(&plan("a", Phase::Cancelled), true, false), both);
    assert_eq!(roles_for(&plan("a", Phase::Cancelled), false, false), scoping_only);
}

#[test]
fn ranks_follow_lifecycle_order() {
    assert_eq!(phase_rank(Phase::Scoping), 0);
    assert_eq!(phase_rank(Phase::Cancelled), 4);
    assert!(phase_rank(Phase::Executing) < phase_rank(Phase::Merging));
}

#[test]
fn paths_live_under_samokod() {
    let p = plan("ts", Phase::Scoping);
    assert_eq!(p.path("/repo"), "/repo/.samokod/plans/scoping/ts");
    assert_eq!(p.plan_md("/repo"), "/repo/.samokod/plans/scoping/ts/plan.md");
    assert_eq!(p.scope_glob(), ".samokod/plans/scoping/ts/**");
    let dirs = structure_dirs("/repo");
    assert_eq!(dirs[0], "/repo/.samokod/plans/scoping");
    assert_eq!(dirs[4], "/repo/.samokod/plans/cancelled");
    assert_eq!(PlanError::Untitled.to_string(), "plan.md has no top heading to name the plan");
}

#[test]
fn title_reads_first_heading() {
    assert_eq!(plan_title(Some("intro\n\n# Real title\n")), "Real title");
    assert_eq!(plan_title(Some("  ##\tIndented title  \r\nbody\n")), "Indented title");
}

#[test]
fn title_falls_back_to_untitled() {
    assert_eq!(plan_title(None), "Untitled");
    assert_eq!(plan_title(Some("no heading here\n")), "Untitled");
    assert_eq!(plan_title(Some("####### seven hashes\n#\n")), "Untitled");
}

#[test]
fn merge_moves_through_merging_without_renaming() {
    let scoping = plan("2026-09-26.08-41-03", Phase::Scoping);
    let executing = execute(&scoping, "# Shiny\n").expect("execute");
    let merging = begin_merge(&executing).expect("begin");
    assert_eq!(merging.phase, Phase::Merging);
    assert_eq!(merging.name, executing.name);
    assert!(matches!(begin_merge(&merging), Err(PlanError::WrongPhase { .. })));
    let done = finish_merge(&merging).expect("finish");
    assert_eq!(done.phase, Phase::Completed);
    assert_eq!(done.name, merging.name);
    assert!(matches!(finish_merge(&done), Err(PlanError::WrongPhase { .. })));
    assert!(matches!(complete(&merging), Err(PlanError::WrongPhase { .. })));
}

#[test]
fn materialize_creates_missing_dir() {
    let materialized = materialize_scoping("2026-09-26.08-41-03");
    assert_eq!(materialized.phase, Phase::Scoping);
    assert_eq!(materialized.path("/repo"), "/repo/.samokod/plans/scoping/2026-09-26.08-41-03");
}

#[test]
fn materialize_is_idempotent() {
    let first = materialize_scoping("2026-09-26.08-41-03");
    let second = materialize_scoping("2026-09-26.08-41-03");
    assert_eq!(first, second);
    assert_eq!(second.name, "2026-09-26.08-41-03");
}

#[test]
fn structure_and_lifecycle_round_trip_on_disk() {
    assert_eq!(gitignore_path("/repo"), "/repo/.samokod/.gitignore");
    assert_eq!(GITIGNORE_TEXT, "*\n");
    assert_eq!(structure_dirs("/repo").len(), 5);
    let scoping = materialize_scoping("2026-09-26.08-41-03");
    let executing = execute(&scoping, "# Shiny feature\n\nSteps.\n").expect("execute");
    assert_eq!(executing.phase, Phase::Executing);
    assert!(executing.name.ends_with(".shiny-feature"));
    let completed = complete(&executing).expect("complete");
    assert_eq!(completed.phase, Phase::Completed);
    assert_eq!(completed.name, executing.name);
}

#[test]
fn complete_then_scoping_keeps_history_and_starts_fresh() {
    let executing = execute(&materialize_scoping("2026-09-26.08-41-03"), "# Shiny feature\n").expect("execute");
    let completed = complete(&executing).expect("complete");
    let fresh = materialize_scoping("2026-09-26.08-41-04");
    assert_eq!(fresh.phase, Phase::Scoping);
    assert_ne!(fresh.path("/repo"), completed.path("/repo"));
    assert_eq!(completed.path("/repo"), "/repo/.samokod/plans/completed/2026-09-26.08-41-03.shiny-feature");
}

#[test]
fn slug_of_lowered_text_keeps_case() {
    assert_eq!(slug_of_lowered("shiny feature!"), "shiny-feature");
    assert_eq!(slug_of_lowered("Shiny"), "Shiny");
    assert_eq!(slugify("Shiny Feature"), "shiny-feature");
    let long = format!("{} b", "a".repeat(59));
    assert_eq!(slugify(&long), format!("{}-", "a".repeat(59)));
}

#[test]
fn timestamp_names_pad_every_field() {
    assert_eq!(timestamp_name(2026, 9, 25, 10, 54, 59), "2026-09-25.10-54-59");
    assert_eq!(timestamp_name(987, 1, 2, 3, 4, 5), "0987-01-02.03-04-05");
    assert_eq!(timestamp_name(2026, 12, 31, 0, 0, 0).len(), 19);
}
