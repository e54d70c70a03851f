//! Shared backend views: failures and the payloads that cross the command
//! edge. Errors render as strings there.
use vstd::prelude::*;

use crate::plans::{Phase, PlanError, PlanRef, plan_error_message};
use crate::text::{concat2, owned};

verus! {

/// Failures of the agent lifecycle.
#[derive(Debug, Clone, PartialEq, Eq)]
pub enum AgentError {
    MissingBinary,
    AgentExited { raw: String },
    RequestFailed { raw: String },
    NoSession { raw: String },
    Plan { raw: String },
}

/// The message an agent error renders as.
pub open spec fn agent_error_message(error: AgentError) -> Seq<char> {
    match error {
        AgentError::MissingBinary => "opencode binary not found. Install it with: npm install -g opencode-ai"@,
        AgentError::AgentExited { raw } => "agent exited: "@ + raw@,
        AgentError::RequestFailed { raw } => "request failed: "@ + raw@,
        AgentError::NoSession { raw } => "no session: "@ + raw@,
        AgentError::Plan { raw } => "plan failed: "@ + raw@,
    }
}

impl AgentError {
    pub fn to_string(&self) -> (message: String)
        ensures
            message@ == agent_error_message(*self),
    {
        match self {
            AgentError::MissingBinary => owned(
                "opencode binary not found. Install it with: npm install -g opencode-ai",
            ),
            AgentError::AgentExited { raw } => concat2("agent exited: ", raw.as_str()),
            AgentError::RequestFailed { raw } => concat2("request failed: ", raw.as_str()),
            AgentError::NoSession { raw } => concat2("no session: ", raw.as_str()),
            AgentError::Plan { raw } => concat2("plan failed: ", raw.as_str()),
        }
    }

    /// A refused plan transition, carrying the plan error's message.
    pub fn from_plan(error: &PlanError) -> (wrapped: AgentError)
        ensures
            wrapped matches AgentError::Plan { raw } && raw@ == plan_error_message(*error),
    {
        AgentError::Plan { raw: error.to_string() }
    }
}

/// Session role inside one plan: its planner chat, its executor chat, and
/// its merge chat on the conflict path.
#[derive(Debug, Clone, Copy, PartialEq, Eq, Hash, Structural)]
pub enum SessionRole {
    Scoping,
    Executing,
    Merging,
}

/// One session: a plan directory name plus a role.
#[derive(Debug, Clone, PartialEq, Eq, Hash)]
pub struct SessionKey {
    pub plan: String,
    pub role: SessionRole,
}

/// One `▸` tool status line regardless of tool kind.
#[derive(Debug, Clone, PartialEq, Eq)]
pub struct ToolLineView {
    pub id: String,
    pub text: String,
    pub status: String,
}

/// One one-shot permission option (`allow` or `reject`). `always` variants
/// never reach the frontend.
#[derive(Debug, Clone, PartialEq, Eq)]
pub struct PermissionOptionView {
    pub id: String,
    pub kind: String,
}

/// Inline permission card payload.
#[derive(Debug, Clone, PartialEq, Eq)]
pub struct PermissionView {
    pub tool_call_id: String,
    pub title: String,
    pub kind: String,
    pub options: Vec<PermissionOptionView>,
    /// Effective rule only, never the config file it came from.
    pub rule_hint: String,
}

/// One todo row mirrored from the agent's list.
#[derive(Debug, Clone, PartialEq, Eq)]
pub struct TodoView {
    pub content: String,
    pub status: String,
    pub priority: String,
}

/// Changed rows since the previous list: added rows plus status changes.
#[derive(Debug, Clone, PartialEq, Eq)]
pub struct TodoChangeView {
    pub content: String,
    pub status: String,
}

/// One value inside a session config option.
#[derive(Debug, Clone, PartialEq, Eq)]
pub struct ConfigOptionValueView {
    pub value: String,
    pub name: String,
}

/// Session config option.
#[derive(Debug, Clone, PartialEq, Eq)]
pub struct ConfigOptionView {
    pub id: String,
    pub name: String,
    pub current_value: String,
    pub options: Vec<ConfigOptionValueView>,
    /// Spec `category`, absent when the agent omits it.
    pub category: Option<String>,
}

/// Plan state for the topbar dropdown.
#[derive(Debug, Clone, PartialEq, Eq)]
pub struct PlanInfo {
    pub name: String,
    pub phase: Phase,
    pub has_plan_md: bool,
}

impl PlanInfo {
    /// Frontend plan payload; `has_plan_md` is the fresh `plan.md`
    /// existence check done by the caller.
    pub fn of(plan: &PlanRef, has_plan_md: bool) -> (info: PlanInfo)
        ensures
            info.name@ == plan.name@,
            info.phase == plan.phase,
            info.has_plan_md == has_plan_md,
    {
        PlanInfo { name: plan.name.clone(), phase: plan.phase, has_plan_md }
    }
}

/// Session info returned after opening a repo.
#[derive(Debug, Clone, PartialEq, Eq)]
pub struct SessionInfo {
    pub session_id: String,
    pub repo_root: String,
    pub branch: String,
    pub config_options: Vec<ConfigOptionView>,
    /// The chat's plan. Every chat owns exactly one.
    pub plan: PlanInfo,
}

/// Recent repo row for the picker: path only.
#[derive(Debug, Clone, PartialEq, Eq)]
pub struct RecentRepo {
    pub path: String,
}

/// Local state persisted under the OS app-data directory.
#[derive(Debug, Clone, PartialEq, Eq)]
pub struct Prefs {
    pub recent: Vec<RecentRepo>,
}

impl Prefs {
    /// No recent repositories.
    pub fn new() -> (prefs: Prefs)
        ensures
            prefs.recent@.len() == 0,
    {
        Prefs { recent: Vec::new() }
    }
}

/// Status of one session a plan owns, for the row dots.
#[derive(Debug, Clone, PartialEq, Eq)]
pub struct SessionStatusView {
    pub role: SessionRole,
    pub working: bool,
    pub approval: bool,
    pub failed: bool,
    pub live: bool,
}

/// One row of the plans list.
#[derive(Debug, Clone, PartialEq, Eq)]
pub struct PlanEntry {
    pub name: String,
    pub phase: Phase,
    pub title: String,
    pub has_plan_md: bool,
    pub sessions: Vec<SessionStatusView>,
}

/// The plans list and the selected session.
#[derive(Debug, Clone, PartialEq, Eq)]
pub struct PlansUpdate {
    pub plans: Vec<PlanEntry>,
    pub selected: SessionKey,
}

/// What opening a repository shows.
#[derive(Debug, Clone, PartialEq, Eq)]
pub struct OpenRepoResult {
    pub repo_root: String,
    pub branch: String,
    pub plans: Vec<PlanEntry>,
    pub selected: SessionKey,
}

} // verus!
