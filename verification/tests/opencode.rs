use samokod::opencode::{
    agent_config, agent_env, agent_for, executor_first_message, merger_first_message,
    plan_display, planner_first_message, scoping_draft, AgentConfig, PermissionSetting,
    CONFIG_CONTENT_ENV, EXECUTOR_AGENT, MERGER_AGENT, PLANNER_AGENT,
};
use samokod::plans::{Phase, PlanRef};

fn test_plan() -> PlanRef {
    PlanRef { name: "ts".to_string(), phase: Phase::Scoping }
}

/// `*` crosses `/`, like OpenCode's wildcard.
fn wildcard_match(pattern: &str, text: &str) -> bool {
    let (pattern, text) = (pattern.as_bytes(), text.as_bytes());
    let (mut pi, mut ti) = (0, 0);
    let (mut star, mut restart) = (None, 0);
    while ti < text.len() {
        if pi < pattern.len() && pattern[pi] == b'*' {
            star = Some(pi);
            restart = ti;
            pi += 1;
        } else if pi < pattern.len() && pattern[pi] == text[ti] {
            pi += 1;
            ti += 1;
        } else if let Some(star_at) = star {
            restart += 1;
            ti = restart;
            pi = star_at + 1;
        } else {
            return false;
        }
    }
    while pi < pattern.len() && pattern[pi] == b'*' {
        pi += 1;
    }
    pi == pattern.len()
}

fn setting<'a>(config: &'a AgentConfig, agent: &str, permission: &str) -> &'a PermissionSetting {
    let definition = config.agents.iter().find(|a| a.id == agent).expect("agent present");
    &definition.permission.iter().find(|(name, _)| name == permission).expect("permission").1
}

/// The last rule whose pattern matches the resource wins.
fn effect_of(config: &AgentConfig, agent: &str, permission: &str, resource: &str) -> String {
    match setting(config, agent, permission) {
        PermissionSetting::Effect(effect) => effect.clone(),
        PermissionSetting::Rules(rules) => {
            let mut effect = "none".to_string();
            for (pattern, value) in rules {
                if wildcard_match(pattern, resource) {
                    effect = value.clone();
                }
            }
            effect
        }
    }
}

#[test]
fn all_agents_are_primary_without_prompt_field() {
    let config = agent_config(&test_plan());
    assert_eq!(config.agents.len(), 3);
    for agent in &config.agents {
        assert_eq!(agent.mode, "primary");
    }
}

#[test]
fn planner_edit_allows_only_plan_dir() {
    let plan = test_plan();
    let config = agent_config(&plan);
    let inside = format!(".samokod/plans/scoping/{}/plan.md", plan.name);
    assert_eq!(effect_of(&config, PLANNER_AGENT, "edit", &inside), "allow");
    assert_eq!(effect_of(&config, PLANNER_AGENT, "edit", "src/App.tsx"), "deny");
}

#[test]
fn planner_allows_bash() {
    let config = agent_config(&test_plan());
    assert_eq!(effect_of(&config, PLANNER_AGENT, "bash", "cargo test"), "allow");
}

#[test]
fn planner_task_allows_explore_and_scout() {
    let config = agent_config(&test_plan());
    for agent_type in ["explore", "scout"] {
        assert_eq!(effect_of(&config, PLANNER_AGENT, "task", agent_type), "allow");
    }
    for agent_type in ["general", "unknown-type"] {
        assert_eq!(effect_of(&config, PLANNER_AGENT, "task", agent_type), "deny");
    }
}

#[test]
fn executor_allows_edits_and_bash() {
    let config = agent_config(&test_plan());
    assert_eq!(effect_of(&config, EXECUTOR_AGENT, "edit", "src/App.tsx"), "allow");
    assert_eq!(effect_of(&config, EXECUTOR_AGENT, "bash", "cargo test"), "allow");
}

#[test]
fn executor_asks_inside_samokod() {
    let config = agent_config(&test_plan());
    for resource in [".samokod", ".samokod/state.json", ".samokod/plans/scoping/x/plan.md"] {
        assert_eq!(effect_of(&config, EXECUTOR_AGENT, "edit", resource), "ask");
    }
    assert_eq!(effect_of(&config, EXECUTOR_AGENT, "edit", "src/App.tsx"), "allow");
}

#[test]
fn granular_rules_serialize_deny_first() {
    let config = agent_config(&test_plan());
    let keys = |agent: &str, permission: &str| -> Vec<String> {
        match setting(&config, agent, permission) {
            PermissionSetting::Rules(rules) => rules.iter().map(|(p, _)| p.clone()).collect(),
            PermissionSetting::Effect(_) => panic!("granular permission is a rule list"),
        }
    };
    assert_eq!(keys(PLANNER_AGENT, "edit"), vec!["*".to_string(), test_plan().scope_glob()]);
    assert_eq!(keys(PLANNER_AGENT, "task"), vec!["*", "explore", "scout"]);
    assert_eq!(keys(EXECUTOR_AGENT, "edit"), vec!["*", ".samokod", ".samokod/**"]);
}

#[test]
fn planner_and_executor_deny_question() {
    let config = agent_config(&test_plan());
    for agent in [PLANNER_AGENT, EXECUTOR_AGENT, MERGER_AGENT] {
        assert_eq!(effect_of(&config, agent, "question", "anything"), "deny");
    }
}

#[test]
fn merger_allows_every_worktree_edit_without_subagents() {
    let config = agent_config(&test_plan());
    assert_eq!(effect_of(&config, MERGER_AGENT, "edit", "src/App.tsx"), "allow");
    assert_eq!(effect_of(&config, MERGER_AGENT, "edit", ".samokod/state.json"), "allow");
    assert_eq!(effect_of(&config, MERGER_AGENT, "bash", "git rebase -i main"), "allow");
    assert_eq!(effect_of(&config, MERGER_AGENT, "task", "explore"), "deny");
}

#[test]
fn env_carries_the_config() {
    let (key, config) = agent_env(&test_plan());
    assert_eq!(key, CONFIG_CONTENT_ENV);
    assert_eq!(config, agent_config(&test_plan()));
}

#[test]
fn merging_plans_run_the_merger() {
    assert_eq!(agent_for(Phase::Merging), MERGER_AGENT);
    assert_eq!(agent_for(Phase::Executing), EXECUTOR_AGENT);
    assert_eq!(agent_for(Phase::Scoping), PLANNER_AGENT);
    assert_eq!(agent_for(Phase::Completed), EXECUTOR_AGENT);
}

#[test]
fn merger_message_fills_every_placeholder() {
    let message = merger_first_message(
        "samokod/shiny-feature",
        "main",
        "/repo/.samokod/worktrees/2026-09-26.14-53-26.shiny-feature",
        "/repo/.samokod/plans/merging/2026-09-26.14-53-26.shiny-feature/plan.md",
    );
    assert!(message.contains("samokod/shiny-feature"));
    assert!(message.contains("`main`"));
    assert!(message.contains("/repo/.samokod/worktrees/2026-09-26.14-53-26.shiny-feature"));
    assert!(!message.contains("{{WORKTREE_BRANCH}}"));
    assert!(!message.contains("{{MAIN_BRANCH}}"));
    assert!(!message.contains("{{WORKTREE_PATH}}"));
    assert!(!message.contains("{{PLAN_MD_ABS_PATH}}"));
}

#[test]
fn scoping_draft_names_plan_path() {
    let draft = scoping_draft(".samokod/plans/scoping/ts");
    assert!(draft.contains(".samokod/plans/scoping/ts/plan.md"));
    assert!(!draft.contains("{{PLAN_DIR}}"));
}

#[test]
fn executor_message_names_plan_path() {
    let message = executor_first_message(".samokod/plans/executing/ts.slug");
    assert!(message.contains(".samokod/plans/executing/ts.slug/plan.md"));
    assert!(!message.contains("{{PLAN_DIR}}"));
}

#[test]
fn planner_message_appends_trimmed_text() {
    let message = planner_first_message(".samokod/plans/scoping/ts", "  do things  ");
    assert!(message.starts_with(&scoping_draft(".samokod/plans/scoping/ts")));
    assert!(message.ends_with("\n\ndo things"));
}

#[test]
fn plan_display_names_phase_dir() {
    let scoping = PlanRef { name: "ts".to_string(), phase: Phase::Scoping };
    assert_eq!(plan_display(&scoping), ".samokod/plans/scoping/ts");
    let executing = PlanRef { name: "ts.slug".to_string(), phase: Phase::Executing };
    assert_eq!(plan_display(&executing), ".samokod/plans/executing/ts.slug");
}
