//! OpenCode edge rules: the agent definitions injected at spawn and the
//! first-message role templates.
//!
//! The agent definitions are modelled as data here and serialized to
//! OpenCode's inline JSON config where the process is spawned. Their
//! permission rules are checked against OpenCode's reading of them: the
//! last rule whose wildcard pattern matches a resource wins.
use vstd::prelude::*;

use crate::plans::{Phase, PlanRef, phase_dir_name, scope_glob_of};
use crate::text::{chars_of, extend_chars, owned, replace_all, replace_seq, string_of, trim_chars, trim_seq};

verus! {

pub const PLANNER_AGENT: &'static str = "samokod-planner";

pub const EXECUTOR_AGENT: &'static str = "samokod-executor";

pub const MERGER_AGENT: &'static str = "samokod-merger";

/// Env key carrying inline JSON config. Merges over user and project config.
pub const CONFIG_CONTENT_ENV: &'static str = "OPENCODE_CONFIG_CONTENT";

/// Planner role template; `{{PLAN_DIR}}` marks the plan directory.
pub const PLANNER_PROMPT: &'static str = "Help me scope out some work, don't implement it yet - another agent will later execute the plan you write when I click a button.

We might start with some initial investigation, but once it's clear what the work is, write a plan to `{{PLAN_DIR}}/plan.md` with the edit tool.

Plan structure:
```
# Title

One line about the objective of the work.

## Desired state

A high-level description of the repo state after the work is done. Focus on what to achieve rather than what code changes to make.

## Implementation plan

1. `message of first commit`

   What to do in this commit

2. `message of second commit`

   What to do in this commit
```

Once the plan is written, iterate with me until there are no more questions you need my input on.

If needed, put supporting material (mockups, notes, sketches) alongside `plan.md`. Refer to them in the plan using their relative path, as the plan folder might be moved.

Make sure the plan leads to code which is as clean as possible - don't shy away from refactoring if needed.
";

/// Executor role template; `{{PLAN_DIR}}` marks the plan directory.
pub const EXECUTOR_PROMPT: &'static str = "Execute the plan in `{{PLAN_DIR}}/plan.md`. It was scoped and approved before this conversation started.

Work through its implementation plan in order. Make one commit per step, using the step's message as the commit message, and keep every commit passing the checks standard for this repo.

Treat the plan's desired state as the goal: where a step turns out wrong or incomplete, adjust it to reach that state and say what you changed and why.

If supporting material sits alongside `plan.md`, read it before starting.

When every step is committed, summarize what was done.
";

/// Merger role template with four placeholders.
pub const MERGER_PROMPT: &'static str = "I launched you in a git worktree whose branch is `{{WORKTREE_BRANCH}}`.

Rebase `{{WORKTREE_BRANCH}}` on top of `{{MAIN_BRANCH}}` by running `GIT_SEQUENCE_EDITOR=\"perl -pi -e 's/^pick /edit /'\" git -C {{WORKTREE_PATH}} rebase -i {{MAIN_BRANCH}}`.

You may edit any file in the worktree, not just conflicted ones: each rebased commit must stay complete and faithful to its original intent. For example, if a commit mass-renamed something, make sure its rebased version also renames all uses of the renamed symbol which have been introduced on `{{MAIN_BRANCH}}`. Make sure that every commit resulting from the rebase passes checks standard for this repo.

If it is unclear what a commit's intent was, refer to `{{PLAN_MD_ABS_PATH}}`, which documents an implementation plan which was carried out in this worktree.
";

/// Agent id for a phase: the planner scopes, the merger rebases, the
/// executor runs everything else.
pub open spec fn agent_id_of(phase: Phase) -> Seq<char> {
    match phase {
        Phase::Scoping => PLANNER_AGENT@,
        Phase::Merging => MERGER_AGENT@,
        _ => EXECUTOR_AGENT@,
    }
}

/// Agent id for a phase.
pub fn agent_for(phase: Phase) -> (id: &'static str)
    ensures
        id@ == agent_id_of(phase),
{
    match phase {
        Phase::Scoping => PLANNER_AGENT,
        Phase::Executing => EXECUTOR_AGENT,
        Phase::Merging => MERGER_AGENT,
        Phase::Completed | Phase::Cancelled => EXECUTOR_AGENT,
    }
}

/// Plan dir as the agent sees it: repo-relative, forward slashes.
pub open spec fn plan_display_of(plan: PlanRef) -> Seq<char> {
    ".samokod/plans/"@ + phase_dir_name(plan.phase) + "/"@ + plan.name@
}

pub fn plan_display(plan: &PlanRef) -> (display: String)
    ensures
        display@ == plan_display_of(*plan),
{
    let mut v = chars_of(".samokod/plans/");
    extend_chars(&mut v, plan.phase.dir_name());
    extend_chars(&mut v, "/");
    extend_chars(&mut v, plan.name.as_str());
    string_of(&v)
}

/// Scoping draft: the planner template with its plan dir filled in.
/// Prefilled into the first message box as ordinary editable user content.
pub fn scoping_draft(plan_dir: &str) -> (draft: String)
    ensures
        draft@ == replace_seq(PLANNER_PROMPT@, "{{PLAN_DIR}}"@, plan_dir@),
{
    proof {
        reveal_strlit("{{PLAN_DIR}}");
    }
    replace_all(PLANNER_PROMPT, "{{PLAN_DIR}}", plan_dir)
}

/// Executor role and instruction. Sent once per executing conversation:
/// hidden on approval, prefixed to the first prompt otherwise.
pub fn executor_first_message(plan_dir: &str) -> (message: String)
    ensures
        message@ == replace_seq(EXECUTOR_PROMPT@, "{{PLAN_DIR}}"@, plan_dir@),
{
    proof {
        reveal_strlit("{{PLAN_DIR}}");
    }
    replace_all(EXECUTOR_PROMPT, "{{PLAN_DIR}}", plan_dir)
}

/// The planner's first message when a scoping conversation starts from a
/// restored session: the planner template with its plan dir filled in,
/// then the user's text, trimmed.
pub open spec fn planner_message_of(plan_dir: Seq<char>, user_text: Seq<char>) -> Seq<char> {
    replace_seq(PLANNER_PROMPT@, "{{PLAN_DIR}}"@, plan_dir) + "\n\n"@ + trim_seq(user_text)
}

pub fn planner_first_message(plan_dir: &str, user_text: &str) -> (message: String)
    ensures
        message@ == planner_message_of(plan_dir@, user_text@),
{
    let draft = scoping_draft(plan_dir);
    let mut v = chars_of(draft.as_str());
    extend_chars(&mut v, "\n\n");
    let user = chars_of(user_text);
    let trimmed = trim_chars(&user);
    let t = string_of(&trimmed);
    extend_chars(&mut v, t.as_str());
    string_of(&v)
}

/// The merger template with its four placeholders filled in order.
pub open spec fn merger_message_of(
    worktree_branch: Seq<char>,
    main_branch: Seq<char>,
    worktree_path: Seq<char>,
    plan_md_abs_path: Seq<char>,
) -> Seq<char> {
    replace_seq(
        replace_seq(
            replace_seq(
                replace_seq(MERGER_PROMPT@, "{{WORKTREE_BRANCH}}"@, worktree_branch),
                "{{MAIN_BRANCH}}"@,
                main_branch,
            ),
            "{{WORKTREE_PATH}}"@,
            worktree_path,
        ),
        "{{PLAN_MD_ABS_PATH}}"@,
        plan_md_abs_path,
    )
}

/// Merger role and instruction. Sent hidden when the conflict path starts
/// the merge agent in the worktree.
pub fn merger_first_message(
    worktree_branch: &str,
    main_branch: &str,
    worktree_path: &str,
    plan_md_abs_path: &str,
) -> (message: String)
    ensures
        message@ == merger_message_of(
            worktree_branch@,
            main_branch@,
            worktree_path@,
            plan_md_abs_path@,
        ),
{
    proof {
        reveal_strlit("{{WORKTREE_BRANCH}}");
        reveal_strlit("{{MAIN_BRANCH}}");
        reveal_strlit("{{WORKTREE_PATH}}");
        reveal_strlit("{{PLAN_MD_ABS_PATH}}");
    }
    let a = replace_all(MERGER_PROMPT, "{{WORKTREE_BRANCH}}", worktree_branch);
    let b = replace_all(a.as_str(), "{{MAIN_BRANCH}}", main_branch);
    let c = replace_all(b.as_str(), "{{WORKTREE_PATH}}", worktree_path);
    replace_all(c.as_str(), "{{PLAN_MD_ABS_PATH}}", plan_md_abs_path)
}

// ---------------------------------------------------------------------------
// Agent definitions.
// ---------------------------------------------------------------------------

/// One permission setting: a single effect, or ordered `(pattern, effect)`
/// rules of which the last matching pattern wins.
#[derive(Debug, Clone, PartialEq, Eq)]
pub enum PermissionSetting {
    Effect(String),
    Rules(Vec<(String, String)>),
}

/// One agent definition. Permissions only, no `prompt` field: role guidance
/// travels as first-message text so OpenCode's per-model base prompt stays
/// intact.
#[derive(Debug, Clone, PartialEq, Eq)]
pub struct AgentDefinition {
    pub id: String,
    pub mode: String,
    pub description: String,
    pub permission: Vec<(String, PermissionSetting)>,
}

/// The full inline config: the three agents, in order.
#[derive(Debug, Clone, PartialEq, Eq)]
pub struct AgentConfig {
    pub agents: Vec<AgentDefinition>,
}

/// A permission setting as plain character sequences.
pub enum SettingModel {
    Effect(Seq<char>),
    Rules(Seq<(Seq<char>, Seq<char>)>),
}

pub open spec fn rules_view(rules: Seq<(String, String)>) -> Seq<(Seq<char>, Seq<char>)> {
    rules.map_values(|r: (String, String)| (r.0@, r.1@))
}

pub open spec fn setting_view(setting: PermissionSetting) -> SettingModel {
    match setting {
        PermissionSetting::Effect(e) => SettingModel::Effect(e@),
        PermissionSetting::Rules(r) => SettingModel::Rules(rules_view(r@)),
    }
}

/// An agent as `(id, mode, description, permissions)`.
pub open spec fn agent_view(agent: AgentDefinition) -> (
    Seq<char>,
    Seq<char>,
    Seq<char>,
    Seq<(Seq<char>, SettingModel)>,
) {
    (
        agent.id@,
        agent.mode@,
        agent.description@,
        agent.permission@.map_values(|p: (String, PermissionSetting)| (p.0@, setting_view(p.1))),
    )
}

pub open spec fn config_view(config: AgentConfig) -> Seq<
    (Seq<char>, Seq<char>, Seq<char>, Seq<(Seq<char>, SettingModel)>),
> {
    config.agents@.map_values(|a: AgentDefinition| agent_view(a))
}

/// The fixed allowances every agent shares.
pub open spec fn base_permissions() -> Seq<(Seq<char>, SettingModel)> {
    seq![
        ("read"@, SettingModel::Effect("allow"@)),
        ("external_directory"@, SettingModel::Effect("allow"@)),
    ]
}

/// Planner edits stay inside its relative plan scope; the shell stays fully
/// allowed for investigation. Rule order is load-bearing: `*` comes first
/// and the scope after. It may only spawn read-only researchers.
pub open spec fn planner_permissions_of(plan: PlanRef) -> Seq<(Seq<char>, SettingModel)> {
    base_permissions() + seq![
        (
            "edit"@,
            SettingModel::Rules(
                seq![("*"@, "deny"@), (scope_glob_of(plan.name@, plan.phase), "allow"@)],
            ),
        ),
        ("bash"@, SettingModel::Effect("allow"@)),
        ("question"@, SettingModel::Effect("deny"@)),
        (
            "task"@,
            SettingModel::Rules(
                seq![("*"@, "deny"@), ("explore"@, "allow"@), ("scout"@, "allow"@)],
            ),
        ),
    ]
}

/// Executor edits ask inside `.samokod` (the bare key covers the directory
/// entry itself); everything else, shell included, is allowed.
pub open spec fn executor_permissions_of() -> Seq<(Seq<char>, SettingModel)> {
    base_permissions() + seq![
        (
            "edit"@,
            SettingModel::Rules(
                seq![("*"@, "allow"@), (".samokod"@, "ask"@), (".samokod/**"@, "ask"@)],
            ),
        ),
        ("bash"@, SettingModel::Effect("allow"@)),
        ("question"@, SettingModel::Effect("deny"@)),
    ]
}

/// Merger edits anything in its worktree, asks nothing and spawns no
/// subagents.
pub open spec fn merger_permissions_of() -> Seq<(Seq<char>, SettingModel)> {
    base_permissions() + seq![
        ("edit"@, SettingModel::Effect("allow"@)),
        ("bash"@, SettingModel::Effect("allow"@)),
        ("question"@, SettingModel::Effect("deny"@)),
        ("task"@, SettingModel::Effect("deny"@)),
    ]
}

/// The config injected for a plan's processes.
pub open spec fn agent_config_of(plan: PlanRef) -> Seq<
    (Seq<char>, Seq<char>, Seq<char>, Seq<(Seq<char>, SettingModel)>),
> {
    seq![
        (
            PLANNER_AGENT@,
            "primary"@,
            "Plans one task. Writes only inside its plan directory."@,
            planner_permissions_of(plan),
        ),
        (
            EXECUTOR_AGENT@,
            "primary"@,
            "Executes one approved plan."@,
            executor_permissions_of(),
        ),
        (
            MERGER_AGENT@,
            "primary"@,
            "Rebases one plan branch onto the latest main."@,
            merger_permissions_of(),
        ),
    ]
}

fn effect_entry(name: &str, effect: &str) -> (entry: (String, PermissionSetting))
    ensures
        entry.0@ == name@,
        setting_view(entry.1) == SettingModel::Effect(effect@),
{
    (owned(name), PermissionSetting::Effect(owned(effect)))
}

/// Ordered rules from `(pattern, effect)` pairs. Insertion order is the
/// contract: the last matching rule is granted.
fn rules_entry(name: &str, rules: &[(&str, &str)]) -> (entry: (String, PermissionSetting))
    ensures
        entry.0@ == name@,
        setting_view(entry.1) == SettingModel::Rules(
            rules@.map_values(|r: (&str, &str)| (r.0@, r.1@)),
        ),
{
    let mut out: Vec<(String, String)> = Vec::new();
    let mut i: usize = 0;
    while i < rules.len()
        invariant
            i <= rules.len(),
            rules_view(out@) == rules@.take(i as int).map_values(|r: (&str, &str)| (r.0@, r.1@)),
        decreases rules.len() - i,
    {
        let (pattern, effect) = rules[i];
        let ghost before = out@;
        out.push((owned(pattern), owned(effect)));
        assert(rules@.take(i + 1) == rules@.take(i as int).push(rules@[i as int]));
        assert(rules_view(out@) =~= rules_view(before).push((pattern@, effect@)));
        assert(rules@.take(i + 1).map_values(|r: (&str, &str)| (r.0@, r.1@)) =~= rules@.take(
            i as int,
        ).map_values(|r: (&str, &str)| (r.0@, r.1@)).push((pattern@, effect@)));
        i = i + 1;
    }
    assert(rules@.take(rules.len() as int) == rules@);
    (owned(name), PermissionSetting::Rules(out))
}

fn base_entries() -> (entries: Vec<(String, PermissionSetting)>)
    ensures
        entries@.map_values(|p: (String, PermissionSetting)| (p.0@, setting_view(p.1)))
            == base_permissions(),
{
    let mut entries: Vec<(String, PermissionSetting)> = Vec::new();
    entries.push(effect_entry("read", "allow"));
    entries.push(effect_entry("external_directory", "allow"));
    assert(entries@.map_values(|p: (String, PermissionSetting)| (p.0@, setting_view(p.1)))
        =~= base_permissions());
    entries
}

fn agent(id: &str, description: &str, permission: Vec<(String, PermissionSetting)>) -> (a:
    AgentDefinition)
    ensures
        agent_view(a) == (
            id@,
            "primary"@,
            description@,
            permission@.map_values(|p: (String, PermissionSetting)| (p.0@, setting_view(p.1))),
        ),
{
    AgentDefinition {
        id: owned(id),
        mode: owned("primary"),
        description: owned(description),
        permission,
    }
}

/// Full agent config for one plan's processes.
pub fn agent_config(plan: &PlanRef) -> (config: AgentConfig)
    ensures
        config_view(config) == agent_config_of(*plan),
{
    let ghost pv = |p: (String, PermissionSetting)| (p.0@, setting_view(p.1));
    let mut planner = base_entries();
    let glob = plan.scope_glob();
    let edit_rules = [("*", "deny"), (glob.as_str(), "allow")];
    planner.push(rules_entry("edit", &edit_rules));
    planner.push(effect_entry("bash", "allow"));
    planner.push(effect_entry("question", "deny"));
    let task_rules = [("*", "deny"), ("explore", "allow"), ("scout", "allow")];
    planner.push(rules_entry("task", &task_rules));
    assert(planner@.map_values(pv) =~= planner_permissions_of(*plan)) by {
        assert(edit_rules@.map_values(|r: (&str, &str)| (r.0@, r.1@)) =~= seq![
            ("*"@, "deny"@),
            (scope_glob_of(plan.name@, plan.phase), "allow"@),
        ]);
        assert(task_rules@.map_values(|r: (&str, &str)| (r.0@, r.1@)) =~= seq![
            ("*"@, "deny"@),
            ("explore"@, "allow"@),
            ("scout"@, "allow"@),
        ]);
    }
    let mut executor = base_entries();
    let exec_rules = [("*", "allow"), (".samokod", "ask"), (".samokod/**", "ask")];
    executor.push(rules_entry("edit", &exec_rules));
    executor.push(effect_entry("bash", "allow"));
    executor.push(effect_entry("question", "deny"));
    assert(executor@.map_values(pv) =~= executor_permissions_of()) by {
        assert(exec_rules@.map_values(|r: (&str, &str)| (r.0@, r.1@)) =~= seq![
            ("*"@, "allow"@),
            (".samokod"@, "ask"@),
            (".samokod/**"@, "ask"@),
        ]);
    }
    let mut merger = base_entries();
    merger.push(effect_entry("edit", "allow"));
    merger.push(effect_entry("bash", "allow"));
    merger.push(effect_entry("question", "deny"));
    merger.push(effect_entry("task", "deny"));
    assert(merger@.map_values(pv) =~= merger_permissions_of());
    let mut agents: Vec<AgentDefinition> = Vec::new();
    agents.push(agent(PLANNER_AGENT, "Plans one task. Writes only inside its plan directory.", planner));
    agents.push(agent(EXECUTOR_AGENT, "Executes one approved plan.", executor));
    agents.push(agent(MERGER_AGENT, "Rebases one plan branch onto the latest main.", merger));
    let config = AgentConfig { agents };
    assert(config_view(config) =~= agent_config_of(*plan));
    config
}

/// Extra spawn env pinning the agents: the config travels under
/// `CONFIG_CONTENT_ENV`, serialized as JSON by the process spawner.
pub fn agent_env(plan: &PlanRef) -> (env: (String, AgentConfig))
    ensures
        env.0@ == CONFIG_CONTENT_ENV@,
        config_view(env.1) == agent_config_of(*plan),
{
    (owned(CONFIG_CONTENT_ENV), agent_config(plan))
}

// ---------------------------------------------------------------------------
// How OpenCode reads the permissions.
// ---------------------------------------------------------------------------

/// OpenCode's wildcard match: `*` matches any run of characters, `/`
/// included; every other character matches itself.
pub open spec fn glob_match(pattern: Seq<char>, text: Seq<char>) -> bool
    decreases pattern.len(), text.len(),
{
    if pattern.len() == 0 {
        text.len() == 0
    } else if pattern[0] == '*' {
        glob_match(pattern.skip(1), text) || (text.len() > 0 && glob_match(pattern, text.skip(1)))
    } else {
        text.len() > 0 && text[0] == pattern[0] && glob_match(pattern.skip(1), text.skip(1))
    }
}

/// The effect of the last rule whose pattern matches, if any does.
pub open spec fn last_match(rules: Seq<(Seq<char>, Seq<char>)>, resource: Seq<char>) -> Option<
    Seq<char>,
>
    decreases rules.len(),
{
    if rules.len() == 0 {
        None
    } else if glob_match(rules.last().0, resource) {
        Some(rules.last().1)
    } else {
        last_match(rules.drop_last(), resource)
    }
}

/// The effect a setting grants on one resource.
pub open spec fn setting_effect(setting: SettingModel, resource: Seq<char>) -> Option<Seq<char>> {
    match setting {
        SettingModel::Effect(e) => Some(e),
        SettingModel::Rules(rules) => last_match(rules, resource),
    }
}

/// The first entry of a keyed list with the given key.
pub open spec fn lookup<V>(entries: Seq<(Seq<char>, V)>, key: Seq<char>) -> Option<V>
    decreases entries.len(),
{
    if entries.len() == 0 {
        None
    } else if entries[0].0 == key {
        Some(entries[0].1)
    } else {
        lookup(entries.skip(1), key)
    }
}

/// The permissions of the agent with the given id.
pub open spec fn agent_permissions(
    config: Seq<(Seq<char>, Seq<char>, Seq<char>, Seq<(Seq<char>, SettingModel)>)>,
    id: Seq<char>,
) -> Option<Seq<(Seq<char>, SettingModel)>> {
    lookup(config.map_values(|a: (Seq<char>, Seq<char>, Seq<char>, Seq<(Seq<char>, SettingModel)>)| (a.0, a.3)), id)
}

/// What an agent of the config is granted for one permission on one
/// resource; `None` when nothing in the config speaks of it.
pub open spec fn effect_in(
    config: Seq<(Seq<char>, Seq<char>, Seq<char>, Seq<(Seq<char>, SettingModel)>)>,
    agent: Seq<char>,
    permission: Seq<char>,
    resource: Seq<char>,
) -> Option<Seq<char>> {
    match agent_permissions(config, agent) {
        Some(perms) => match lookup(perms, permission) {
            Some(setting) => setting_effect(setting, resource),
            None => None,
        },
        None => None,
    }
}

/// `*` alone matches every text.
pub proof fn lemma_star_matches_all(text: Seq<char>)
    ensures
        glob_match("*"@, text),
    decreases text.len(),
{
    reveal_strlit("*");
    let p = "*"@;
    assert(p[0] == '*');
    if text.len() == 0 {
        assert(p.skip(1).len() == 0);
        assert(glob_match(p.skip(1), text));
    } else {
        lemma_star_matches_all(text.skip(1));
    }
}

/// A pattern without `*` matches exactly itself.
pub proof fn lemma_literal_match(pattern: Seq<char>, text: Seq<char>)
    requires
        forall|i: int| 0 <= i < pattern.len() ==> pattern[i] != '*',
    ensures
        glob_match(pattern, text) <==> pattern == text,
    decreases pattern.len(),
{
    if pattern.len() > 0 {
        assert forall|i: int| 0 <= i < pattern.skip(1).len() implies pattern.skip(1)[i] != '*' by {
            assert(pattern.skip(1)[i] == pattern[i + 1]);
        }
        lemma_literal_match(pattern.skip(1), text.skip(1));
        if text.len() > 0 && text[0] == pattern[0] && pattern.skip(1) == text.skip(1) {
            assert(pattern == seq![pattern[0]] + pattern.skip(1));
            assert(text == seq![text[0]] + text.skip(1));
        }
        if pattern == text {
            assert(text.len() > 0 && text[0] == pattern[0]);
        }
    } else {
        if text.len() == 0 {
            assert(pattern == text);
        }
    }
}

/// A keyed list yields its first entry with the key.
proof fn lemma_lookup_at<V>(entries: Seq<(Seq<char>, V)>, key: Seq<char>, k: int)
    requires
        0 <= k < entries.len(),
        entries[k].0 == key,
        forall|j: int| 0 <= j < k ==> entries[j].0 != key,
    ensures
        lookup(entries, key) == Some(entries[k].1),
    decreases k,
{
    if k > 0 {
        assert forall|j: int| 0 <= j < k - 1 implies entries.skip(1)[j].0 != key by {
            assert(entries.skip(1)[j] == entries[j + 1]);
        }
        assert(entries.skip(1)[k - 1] == entries[k]);
        lemma_lookup_at(entries.skip(1), key, k - 1);
    }
}

/// The last matching rule decides.
proof fn lemma_last_match_at(rules: Seq<(Seq<char>, Seq<char>)>, resource: Seq<char>, k: int)
    requires
        0 <= k < rules.len(),
        glob_match(rules[k].0, resource),
        forall|j: int| k < j < rules.len() ==> !glob_match(#[trigger] rules[j].0, resource),
    ensures
        last_match(rules, resource) == Some(rules[k].1),
    decreases rules.len(),
{
    if k < rules.len() - 1 {
        assert(!glob_match(rules[rules.len() - 1].0, resource));
        assert forall|j: int| k < j < rules.drop_last().len() implies !glob_match(
            #[trigger] rules.drop_last()[j].0,
            resource,
        ) by {
            assert(rules.drop_last()[j] == rules[j]);
        }
        lemma_last_match_at(rules.drop_last(), resource, k);
    }
}

proof fn lemma_config_lookups(plan: PlanRef)
    ensures
        agent_permissions(agent_config_of(plan), PLANNER_AGENT@) == Some(
            planner_permissions_of(plan),
        ),
        agent_permissions(agent_config_of(plan), EXECUTOR_AGENT@) == Some(
            executor_permissions_of(),
        ),
        agent_permissions(agent_config_of(plan), MERGER_AGENT@) == Some(merger_permissions_of()),
{
    reveal_strlit("samokod-planner");
    reveal_strlit("samokod-executor");
    reveal_strlit("samokod-merger");
    let c = agent_config_of(plan).map_values(
        |a: (Seq<char>, Seq<char>, Seq<char>, Seq<(Seq<char>, SettingModel)>)| (a.0, a.3),
    );
    assert(PLANNER_AGENT@[8] != EXECUTOR_AGENT@[8]);
    assert(PLANNER_AGENT@[8] != MERGER_AGENT@[8]);
    assert(EXECUTOR_AGENT@[8] != MERGER_AGENT@[8]);
    lemma_lookup_at(c, PLANNER_AGENT@, 0);
    lemma_lookup_at(c, EXECUTOR_AGENT@, 1);
    lemma_lookup_at(c, MERGER_AGENT@, 2);
}

/// The permission names, told apart by their first characters (`read`,
/// `external_directory`, `edit`, `bash`, `question`, `task`).
proof fn lemma_permission_names_differ()
    ensures
        "read"@ != "edit"@,
        "external_directory"@ != "edit"@,
        "read"@ != "bash"@,
        "external_directory"@ != "bash"@,
        "edit"@ != "bash"@,
        "read"@ != "question"@,
        "external_directory"@ != "question"@,
        "edit"@ != "question"@,
        "bash"@ != "question"@,
        "read"@ != "task"@,
        "external_directory"@ != "task"@,
        "edit"@ != "task"@,
        "bash"@ != "task"@,
        "question"@ != "task"@,
{
    reveal_strlit("read");
    reveal_strlit("external_directory");
    reveal_strlit("edit");
    reveal_strlit("bash");
    reveal_strlit("question");
    reveal_strlit("task");
    assert("read"@[0] == 'r');
    assert("external_directory"@[0] == 'e' && "external_directory"@[1] == 'x');
    assert("edit"@[0] == 'e' && "edit"@[1] == 'd');
    assert("bash"@[0] == 'b');
    assert("question"@[0] == 'q');
    assert("task"@[0] == 't');
}

/// Law: the planner may edit exactly what lies inside its own plan
/// directory's scope glob, and nothing else.
pub proof fn lemma_planner_edits_only_plan_scope(plan: PlanRef, resource: Seq<char>)
    ensures
        effect_in(agent_config_of(plan), PLANNER_AGENT@, "edit"@, resource) == Some(
            if glob_match(scope_glob_of(plan.name@, plan.phase), resource) {
                "allow"@
            } else {
                "deny"@
            },
        ),
{
    lemma_config_lookups(plan);
    lemma_permission_names_differ();
    let perms = planner_permissions_of(plan);
    lemma_lookup_at(perms, "edit"@, 2);
    let rules = seq![("*"@, "deny"@), (scope_glob_of(plan.name@, plan.phase), "allow"@)];
    lemma_star_matches_all(resource);
    if glob_match(scope_glob_of(plan.name@, plan.phase), resource) {
        lemma_last_match_at(rules, resource, 1);
    } else {
        lemma_last_match_at(rules, resource, 0);
    }
}

/// Law: the executor asks before editing `.samokod` or anything under it,
/// and edits everything else freely.
pub proof fn lemma_executor_asks_inside_samokod(plan: PlanRef, resource: Seq<char>)
    ensures
        effect_in(agent_config_of(plan), EXECUTOR_AGENT@, "edit"@, resource) == Some(
            if glob_match(".samokod"@, resource) || glob_match(".samokod/**"@, resource) {
                "ask"@
            } else {
                "allow"@
            },
        ),
{
    lemma_config_lookups(plan);
    lemma_permission_names_differ();
    let perms = executor_permissions_of();
    lemma_lookup_at(perms, "edit"@, 2);
    let rules = seq![("*"@, "allow"@), (".samokod"@, "ask"@), (".samokod/**"@, "ask"@)];
    lemma_star_matches_all(resource);
    if glob_match(".samokod/**"@, resource) {
        lemma_last_match_at(rules, resource, 2);
    } else if glob_match(".samokod"@, resource) {
        lemma_last_match_at(rules, resource, 1);
    } else {
        lemma_last_match_at(rules, resource, 0);
    }
}

/// Law: the planner may spawn only the `explore` and `scout` researchers.
pub proof fn lemma_planner_tasks_only_researchers(plan: PlanRef, agent_type: Seq<char>)
    ensures
        effect_in(agent_config_of(plan), PLANNER_AGENT@, "task"@, agent_type) == Some(
            if agent_type == "explore"@ || agent_type == "scout"@ {
                "allow"@
            } else {
                "deny"@
            },
        ),
{
    lemma_config_lookups(plan);
    lemma_permission_names_differ();
    reveal_strlit("explore");
    reveal_strlit("scout");
    let perms = planner_permissions_of(plan);
    lemma_lookup_at(perms, "task"@, 5);
    let rules = seq![("*"@, "deny"@), ("explore"@, "allow"@), ("scout"@, "allow"@)];
    lemma_star_matches_all(agent_type);
    lemma_literal_match("explore"@, agent_type);
    lemma_literal_match("scout"@, agent_type);
    if agent_type == "scout"@ {
        lemma_last_match_at(rules, agent_type, 2);
    } else if agent_type == "explore"@ {
        lemma_last_match_at(rules, agent_type, 1);
    } else {
        lemma_last_match_at(rules, agent_type, 0);
    }
}

/// Law: no agent may ask the user questions, and every agent may run the
/// shell on anything.
pub proof fn lemma_no_questions_shell_allowed(plan: PlanRef, agent: Seq<char>, resource: Seq<char>)
    requires
        agent == PLANNER_AGENT@ || agent == EXECUTOR_AGENT@ || agent == MERGER_AGENT@,
    ensures
        effect_in(agent_config_of(plan), agent, "question"@, resource) == Some("deny"@),
        effect_in(agent_config_of(plan), agent, "bash"@, resource) == Some("allow"@),
{
    lemma_config_lookups(plan);
    lemma_permission_names_differ();
    if agent == PLANNER_AGENT@ {
        lemma_lookup_at(planner_permissions_of(plan), "bash"@, 3);
        lemma_lookup_at(planner_permissions_of(plan), "question"@, 4);
    } else if agent == EXECUTOR_AGENT@ {
        lemma_lookup_at(executor_permissions_of(), "bash"@, 3);
        lemma_lookup_at(executor_permissions_of(), "question"@, 4);
    } else {
        lemma_lookup_at(merger_permissions_of(), "bash"@, 3);
        lemma_lookup_at(merger_permissions_of(), "question"@, 4);
    }
}

/// Law: the merger edits anything in its worktree and spawns no subagents.
pub proof fn lemma_merger_edits_everything(plan: PlanRef, resource: Seq<char>)
    ensures
        effect_in(agent_config_of(plan), MERGER_AGENT@, "edit"@, resource) == Some("allow"@),
        effect_in(agent_config_of(plan), MERGER_AGENT@, "task"@, resource) == Some("deny"@),
{
    lemma_config_lookups(plan);
    lemma_permission_names_differ();
    lemma_lookup_at(merger_permissions_of(), "edit"@, 2);
    lemma_lookup_at(merger_permissions_of(), "task"@, 5);
}

/// Law: every agent may read any file and reach outside the repository.
pub proof fn lemma_agents_read_everywhere(plan: PlanRef, agent: Seq<char>, resource: Seq<char>)
    requires
        agent == PLANNER_AGENT@ || agent == EXECUTOR_AGENT@ || agent == MERGER_AGENT@,
    ensures
        effect_in(agent_config_of(plan), agent, "read"@, resource) == Some("allow"@),
        effect_in(agent_config_of(plan), agent, "external_directory"@, resource) == Some("allow"@),
{
    lemma_config_lookups(plan);
    reveal_strlit("read");
    reveal_strlit("external_directory");
    assert("read"@.len() == 4 && "external_directory"@.len() == 18);
    assert("read"@ != "external_directory"@);
    if agent == PLANNER_AGENT@ {
        lemma_lookup_at(planner_permissions_of(plan), "read"@, 0);
        lemma_lookup_at(planner_permissions_of(plan), "external_directory"@, 1);
    } else if agent == EXECUTOR_AGENT@ {
        lemma_lookup_at(executor_permissions_of(), "read"@, 0);
        lemma_lookup_at(executor_permissions_of(), "external_directory"@, 1);
    } else {
        lemma_lookup_at(merger_permissions_of(), "read"@, 0);
        lemma_lookup_at(merger_permissions_of(), "external_directory"@, 1);
    }
}

/// Law: every agent is a primary agent.
pub proof fn lemma_agents_are_primary(plan: PlanRef)
    ensures
        forall|i: int|
            0 <= i < agent_config_of(plan).len() ==> #[trigger] agent_config_of(plan)[i].1
                == "primary"@,
{
}

} // verus!
