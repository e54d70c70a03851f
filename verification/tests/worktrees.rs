use samokod::worktrees::{
    branch_name, create, fast_forward, head_commit, head_commit_args, is_dirty, is_ffable,
    is_ffable_args, plan_slug, prune, remove, rev_parse_args, run_git, settle_step, status_args,
    update_ref_args, worktree_add_args, worktree_path, worktree_samokod_dir, FailurePolicy,
    FastForward, WorktreeError,
};

#[test]
fn naming_maps_plan_to_path_and_branch() {
    let name = "2026-09-26.14-53-26.shiny-feature";
    assert_eq!(
        worktree_path("/repo", name),
        "/repo/.samokod/worktrees/2026-09-26.14-53-26.shiny-feature"
    );
    assert_eq!(branch_name(name), "samokod/shiny-feature");
}

#[test]
fn slug_strips_timestamp_and_collision_suffix() {
    assert_eq!(plan_slug("2026-09-26.14-53-26.shiny-feature"), "shiny-feature");
    assert_eq!(plan_slug("2026-09-26.14-53-26-1.shiny-feature"), "shiny-feature");
    assert_eq!(plan_slug("2026-09-26.14-53-26"), "2026-09-26.14-53-26");
}

#[test]
fn slug_keeps_names_without_dot_slug() {
    assert_eq!(plan_slug("2026-09-26.14-53-26-1"), "2026-09-26.14-53-26-1");
    assert_eq!(plan_slug("2026-09-26.14-53-26."), "2026-09-26.14-53-26.");
}

#[test]
fn create_records_branch_and_add_args() {
    let record = create("/repo", "2026-09-26.14-53-26.shiny-feature", "abc123", "main");
    assert_eq!(record.branch, "samokod/shiny-feature");
    assert_eq!(record.base, "abc123");
    assert_eq!(record.main_branch, "main");
    assert_eq!(
        worktree_add_args(&record),
        vec![
            "worktree",
            "add",
            "-b",
            "samokod/shiny-feature",
            "/repo/.samokod/worktrees/2026-09-26.14-53-26.shiny-feature",
            "abc123"
        ]
    );
}

#[test]
fn outputs_read_trimmed() {
    assert_eq!(head_commit("abc123\n"), "abc123");
    assert!(!is_dirty("  \n"));
    assert!(is_dirty(" M src/lib.rs\n"));
}

#[test]
fn ffable_reads_exit_codes() {
    assert!(is_ffable(Some(0), "main", "b", "").expect("ancestor"));
    assert!(!is_ffable(Some(1), "main", "b", "").expect("diverged"));
    match is_ffable(Some(128), "main", "b", " fatal \n") {
        Err(WorktreeError::Git { args, stderr }) => {
            assert_eq!(args, "merge-base --is-ancestor main b");
            assert_eq!(stderr, "fatal");
        }
        other => panic!("unexpected {other:?}"),
    }
}

#[test]
fn run_git_keeps_trimmed_stderr() {
    let args = vec!["status".to_string(), "--porcelain".to_string()];
    match run_git(&args, false, None, "  boom \n") {
        Err(WorktreeError::Git { args, stderr }) => {
            assert_eq!(args, "status --porcelain");
            assert_eq!(stderr, "boom");
        }
        other => panic!("unexpected {other:?}"),
    }
    assert_eq!(run_git(&args, true, Some("ok".to_string()), "").expect("ok"), "ok");
    assert!(run_git(&args, true, None, "").is_err());
}

#[test]
fn remove_deletes_worktree_then_branch_then_prunes() {
    let steps = remove(true, "/wt", "samokod/x", false);
    assert_eq!(steps.len(), 3);
    assert_eq!(steps[0].args, vec!["worktree", "remove", "/wt"]);
    assert_eq!(steps[1].args, vec!["branch", "-D", "samokod/x"]);
    assert_eq!(steps[2].args, vec!["worktree", "prune"]);
    assert_eq!(steps[2].on_failure, FailurePolicy::Ignore);
    let forced = remove(true, "/wt", "samokod/x", true);
    assert_eq!(forced[0].args, vec!["worktree", "remove", "--force", "/wt"]);
    let gone = remove(false, "/wt", "samokod/x", false);
    assert_eq!(gone.len(), 2);
    assert_eq!(gone[0].on_failure, FailurePolicy::AbortUnlessNotFound);
}

#[test]
fn missing_branch_is_quiet_only_when_tolerated() {
    let not_found = || {
        Err(WorktreeError::Git {
            args: "branch -D x".to_string(),
            stderr: "error: branch 'x' not found.".to_string(),
        })
    };
    assert!(settle_step(FailurePolicy::AbortUnlessNotFound, not_found()).is_none());
    assert!(settle_step(FailurePolicy::Abort, not_found()).is_some());
    assert!(settle_step(FailurePolicy::Ignore, not_found()).is_none());
    assert!(settle_step(FailurePolicy::Abort, Ok(String::new())).is_none());
}

#[test]
fn fast_forward_refuses_diverged_branch() {
    assert!(matches!(
        fast_forward(false, Some("main"), "main", "samokod/x"),
        FastForward::Refused(WorktreeError::NotAncestor { .. })
    ));
    match fast_forward(true, Some("main"), "main", "samokod/x") {
        FastForward::MergeFfOnly(args) => assert_eq!(args, vec!["merge", "--ff-only", "samokod/x"]),
        other => panic!("unexpected {other:?}"),
    }
    assert_eq!(fast_forward(true, None, "main", "samokod/x"), FastForward::MoveRef);
    assert_eq!(
        update_ref_args("main", "new\n", "old\n"),
        vec![
            "update-ref",
            "-m",
            "samokod: fast-forward on plan finish",
            "refs/heads/main",
            "new",
            "old"
        ]
    );
    assert_eq!(
        WorktreeError::NotAncestor { main_branch: "main".to_string(), branch: "b".to_string() }.to_string(),
        "b is not a fast-forward of main"
    );
}

#[test]
fn head_commit_reports_main_tip() {
    assert_eq!(head_commit_args(), vec!["rev-parse", "HEAD"]);
    assert_eq!(head_commit("0123456789abcdef0123456789abcdef01234567\n"), "0123456789abcdef0123456789abcdef01234567");
}

#[test]
fn create_checks_out_branch_with_empty_samokod() {
    let record = create("/repo", "2026-09-26.14-53-26.shiny-feature", "abc123", "main");
    assert_eq!(record.branch, "samokod/shiny-feature");
    assert_eq!(record.path, "/repo/.samokod/worktrees/2026-09-26.14-53-26.shiny-feature");
    assert_eq!(worktree_samokod_dir(&record), "/repo/.samokod/worktrees/2026-09-26.14-53-26.shiny-feature/.samokod");
}

#[test]
fn dirty_tracks_uncommitted_changes() {
    assert_eq!(status_args(), vec!["status", "--porcelain"]);
    assert!(!is_dirty(""));
    assert!(is_dirty("?? wip.txt\n"));
}

#[test]
fn ffable_tracks_main_ancestry() {
    assert_eq!(is_ffable_args("main", "samokod/ff-check"), vec!["merge-base", "--is-ancestor", "main", "samokod/ff-check"]);
    assert_eq!(is_ffable(Some(0), "main", "samokod/ff-check", ""), Ok(true));
    assert_eq!(is_ffable(Some(1), "main", "samokod/ff-check", ""), Ok(false));
}

#[test]
fn fast_forward_advances_main_to_branch() {
    assert_eq!(rev_parse_args("samokod/ff-soon"), vec!["rev-parse", "--verify", "samokod/ff-soon"]);
    assert_eq!(fast_forward(true, Some("feature"), "main", "samokod/ff-soon"), FastForward::MoveRef);
    match fast_forward(true, Some("main"), "main", "samokod/ff-soon") {
        FastForward::MergeFfOnly(args) => assert_eq!(args, vec!["merge", "--ff-only", "samokod/ff-soon"]),
        other => panic!("unexpected {other:?}"),
    }
}

#[test]
fn remove_deletes_worktree_and_branch() {
    let steps = remove(true, "/repo/.samokod/worktrees/x.gone-soon", "samokod/gone-soon", false);
    assert_eq!(steps[0].args, vec!["worktree", "remove", "/repo/.samokod/worktrees/x.gone-soon"]);
    assert_eq!(steps[0].on_failure, FailurePolicy::Abort);
    assert_eq!(steps[1].args, vec!["branch", "-D", "samokod/gone-soon"]);
    assert_eq!(steps[1].on_failure, FailurePolicy::Abort);
}

#[test]
fn prune_reconciles_without_deleting_branches() {
    let args = prune();
    assert_eq!(args, vec!["worktree", "prune"]);
    assert!(!args.iter().any(|word| word == "-D" || word == "branch"));
}
