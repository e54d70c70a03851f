//! Turns: the one-time role prefix, the busy guard, what a finished or
//! failed turn leaves behind, and how session updates are routed.
use vstd::prelude::*;

use crate::agent::{
    Flag, LiveSession, State, any_working, flag_set, has_session, has_session_at, kv,
    lemma_unique_index, lemma_update_keeps_keys, same_but_sessions, with_flag,
};
use crate::error_hint::{ErrorHint, classify_error, hint_of, is_transport_error, transport_gone};
use crate::opencode::{
    executor_first_message, plan_display, plan_display_of, planner_first_message,
    planner_message_of,
};
use crate::plans::Phase;
use crate::protocol::SessionUpdate;
use crate::session_config::{config_views, option_view_of, view_of};
use crate::text::{chars_of, extend_chars, lowercase, owned, replace_seq, string_of, trim_chars, trim_seq};
use crate::todos::{changes_of, change_views, diff_todos, todos_from_call, todos_from_update, todos_view};
use crate::types::{AgentError, ConfigOptionView, SessionKey, TodoChangeView, TodoView, ToolLineView};
use crate::updates::{agent_text_of, format_tool_line, format_tool_update};

verus! {

/// The role template for the first message of one ACP conversation:
/// restored sessions get their template again so a fresh conversation
/// still knows its job; merging and finished plans never prefix.
pub open spec fn role_prefix_of(phase: Phase, display: Seq<char>, user_text: Seq<char>) -> Option<Seq<char>> {
    match phase {
        Phase::Scoping => Some(planner_message_of(display, user_text)),
        Phase::Executing => Some(
            replace_seq(crate::opencode::EXECUTOR_PROMPT@, "{{PLAN_DIR}}"@, display) + "\n\n"@ + trim_seq(user_text),
        ),
        _ => None,
    }
}

pub fn role_prefix_text(phase: Phase, display: &str, user_text: &str) -> (text: Option<String>)
    ensures
        match text {
            Some(t) => role_prefix_of(phase, display@, user_text@) == Some(t@),
            None => role_prefix_of(phase, display@, user_text@) is None,
        },
{
    match phase {
        Phase::Scoping => Some(planner_first_message(display, user_text)),
        Phase::Executing => {
            let role = executor_first_message(display);
            let mut v = chars_of(role.as_str());
            extend_chars(&mut v, "\n\n");
            let user = chars_of(user_text);
            let trimmed = trim_chars(&user);
            let t = string_of(&trimmed);
            extend_chars(&mut v, t.as_str());
            Some(string_of(&v))
        },
        _ => None,
    }
}

impl State {
    /// Claims the one-time role prefix for the first message of one ACP
    /// conversation: one check-and-mark, so a retried turn never prefixes
    /// twice.
    pub fn claim_role_prefix(&mut self, key: &SessionKey, user_text: &str) -> (text: Option<String>)
        requires
            old(self).wf(),
        ensures
            final(self).wf(),
            same_but_sessions(*final(self), *old(self)),
            final(self).sessions@.len() == old(self).sessions@.len(),
            !has_session(old(self).sessions@, kv(*key)) ==> text is None && final(self).sessions@ == old(self).sessions@,
            forall|i: int| #[trigger] has_session_at(old(self).sessions@, kv(*key), i) ==> {
                let s = old(self).sessions@[i];
                let prefix = role_prefix_of(s.plan.phase, plan_display_of(s.plan.plan_ref_spec()), user_text@);
                if s.plan.prefixed || prefix is None {
                    text is None && final(self).sessions@ == old(self).sessions@
                } else {
                    text matches Some(t) && Some(t@) == prefix && final(self).sessions@ == old(self).sessions@.update(
                        i,
                        LiveSession { plan: crate::agent::ActivePlan { prefixed: true, ..s.plan }, ..s },
                    )
                }
            },
    {
        let i = match self.find(key) {
            Some(i) => i,
            None => {
                return None;
            },
        };
        proof {
            lemma_unique_index(self.sessions@, kv(*key), i as int);
        }
        if self.sessions[i].plan.prefixed {
            return None;
        }
        let plan = self.sessions[i].plan.plan_ref();
        let display = plan_display(&plan);
        let text = role_prefix_text(self.sessions[i].plan.phase, display.as_str(), user_text);
        if text.is_none() {
            return None;
        }
        let ghost before = self.sessions@;
        let mut s = self.sessions.remove(i);
        s.plan.prefixed = true;
        self.sessions.insert(i, s);
        assert(self.sessions@ =~= before.update(i as int, self.sessions@[i as int]));
        proof {
            lemma_update_keeps_keys(before, i as int, self.sessions@[i as int]);
        }
        text
    }

    /// Guards one turn: refused while the session's turn runs, else the
    /// session works and records the prompt so retry resends exactly what
    /// ran. Returns whether the sleep guard must be held.
    pub fn begin_turn(&mut self, key: &SessionKey, text: String) -> (hold_awake: Result<bool, AgentError>)
        requires
            old(self).wf(),
        ensures
            final(self).wf(),
            same_but_sessions(*final(self), *old(self)),
            (exists|i: int| has_session_at(old(self).sessions@, kv(*key), i) && old(self).sessions@[i].working) ==> (
                hold_awake matches Err(AgentError::RequestFailed { raw }) && raw@ == "a turn is already running"@
                && final(self).sessions@ == old(self).sessions@),
            !(exists|i: int| has_session_at(old(self).sessions@, kv(*key), i) && old(self).sessions@[i].working) ==> (
                hold_awake == Ok::<bool, AgentError>(any_working(final(self).sessions@))
                && final(self).sessions@.len() == old(self).sessions@.len()
                && (forall|i: int| #[trigger] has_session_at(old(self).sessions@, kv(*key), i) ==>
                    final(self).sessions@ == old(self).sessions@.update(i, LiveSession { working: true, last_prompt: Some(text), ..old(self).sessions@[i] }))
                && (!has_session(old(self).sessions@, kv(*key)) ==> final(self).sessions@ == old(self).sessions@)),
    {
        if self.is_working(key) {
            return Err(AgentError::RequestFailed { raw: owned("a turn is already running") });
        }
        match self.find(key) {
            Some(i) => {
                proof {
                    lemma_unique_index(self.sessions@, kv(*key), i as int);
                }
                let ghost before = self.sessions@;
                let mut s = self.sessions.remove(i);
                s.working = true;
                s.last_prompt = Some(text);
                self.sessions.insert(i, s);
                assert(self.sessions@ =~= before.update(i as int, self.sessions@[i as int]));
                proof {
                    lemma_update_keeps_keys(before, i as int, self.sessions@[i as int]);
                }
            },
            None => {},
        }
        Ok(self.any_working())
    }

    /// A turn that landed: the session is idle and not failed. Returns
    /// whether the sleep guard must be held.
    pub fn turn_done(&mut self, key: &SessionKey) -> (hold_awake: bool)
        requires
            old(self).wf(),
        ensures
            final(self).wf(),
            same_but_sessions(*final(self), *old(self)),
            exists|mid: Seq<LiveSession>| flag_set(old(self).sessions@, mid, kv(*key), Flag::Working, false)
                && flag_set(mid, final(self).sessions@, kv(*key), Flag::Failed, false),
            hold_awake == any_working(final(self).sessions@),
    {
        self.set_flag(key, Flag::Working, false);
        let ghost mid = self.sessions@;
        self.set_flag(key, Flag::Failed, false);
        self.any_working()
    }
}

/// What a failed turn leaves for the edge.
#[derive(Debug)]
pub struct TurnFailure {
    pub hold_awake: bool,
    /// The transport is gone: the connection and session id were dropped,
    /// so the next prompt reopens the session.
    pub transport_gone: bool,
    pub hint: ErrorHint,
}

impl State {
    /// A turn that failed with `raw`: the session is idle and failed; a
    /// gone transport also drops its connection and session id.
    pub fn turn_failed(&mut self, key: &SessionKey, raw: &str) -> (failure: TurnFailure)
        requires
            old(self).wf(),
        ensures
            final(self).wf(),
            same_but_sessions(*final(self), *old(self)),
            failure.transport_gone == transport_gone(lowercase(raw@)),
            (failure.hint.kind, failure.hint.text@, failure.hint.retryable) == hint_of(raw@),
            failure.hold_awake == any_working(final(self).sessions@),
            final(self).sessions@.len() == old(self).sessions@.len(),
            forall|i: int| 0 <= i < old(self).sessions@.len() ==> #[trigger] final(self).sessions@[i] == if kv(old(self).sessions@[i].key) == kv(*key) {
                if failure.transport_gone {
                    LiveSession { working: false, failed: true, connected: false, session_id: None, ..old(self).sessions@[i] }
                } else {
                    LiveSession { working: false, failed: true, ..old(self).sessions@[i] }
                }
            } else {
                old(self).sessions@[i]
            },
    {
        let gone = is_transport_error(raw);
        let ghost start = self.sessions@;
        self.set_flag(key, Flag::Working, false);
        let ghost mid = self.sessions@;
        self.set_flag(key, Flag::Failed, true);
        let ghost flagged = self.sessions@;
        if gone {
            self.drop_connection(key);
        }
        assert forall|i: int| 0 <= i < start.len() implies #[trigger] self.sessions@[i] == if kv(start[i].key) == kv(*key) {
            if gone {
                LiveSession { working: false, failed: true, connected: false, session_id: None, ..start[i] }
            } else {
                LiveSession { working: false, failed: true, ..start[i] }
            }
        } else {
            start[i]
        } by {
            assert(mid[i] == (if kv(start[i].key) == kv(*key) { with_flag(start[i], Flag::Working, false) } else { start[i] }));
            assert(flagged[i] == (if kv(mid[i].key) == kv(*key) { with_flag(mid[i], Flag::Failed, true) } else { mid[i] }));
        }
        let hint = classify_error(raw);
        TurnFailure { hold_awake: self.any_working(), transport_gone: gone, hint }
    }

    /// The prompt a retry resends: the session's last one.
    pub fn last_prompt(&self, key: &SessionKey) -> (text: Option<String>)
        requires
            self.wf(),
        ensures
            match text {
                Some(t) => exists|i: int| has_session_at(self.sessions@, kv(*key), i) && (self.sessions@[i].last_prompt matches Some(p) && p@ == t@),
                None => !exists|i: int| has_session_at(self.sessions@, kv(*key), i) && self.sessions@[i].last_prompt is Some,
            },
    {
        match self.find(key) {
            Some(i) => {
                proof {
                    lemma_unique_index(self.sessions@, kv(*key), i as int);
                }
                match &self.sessions[i].last_prompt {
                    Some(p) => Some(owned(p.as_str())),
                    None => None,
                }
            },
            None => None,
        }
    }

    /// Before a fresh prompt: the failed flag clears (the dot goes green
    /// while the turn runs), the selection follows the session, and the
    /// plan's recency is stamped.
    pub fn prompt_prelude(&mut self, key: &SessionKey, stamp: u64)
        requires
            old(self).wf(),
        ensures
            final(self).wf(),
            flag_set(old(self).sessions@, final(self).sessions@, kv(*key), Flag::Failed, false),
            final(self).current matches Some(c) && kv(c) == kv(*key),
            crate::agent::lifecycle::activity_map(final(self).activity@) == crate::agent::lifecycle::activity_map(old(self).activity@).insert(key.plan@, stamp),
            final(self).pending_scoping == old(self).pending_scoping,
            final(self).repo_root == old(self).repo_root,
    {
        self.set_flag(key, Flag::Failed, false);
        self.select_key(crate::agent::copy_key(key));
        self.touch_activity(key.plan.as_str(), stamp);
    }

    /// Replaces the held todo list with a fresh one; returns the changes
    /// when the list moved, `None` (and no change) for an identical list or
    /// a missing session.
    pub fn update_todos(&mut self, key: &SessionKey, fresh: Vec<TodoView>) -> (changes: Option<Vec<TodoChangeView>>)
        requires
            old(self).wf(),
        ensures
            final(self).wf(),
            same_but_sessions(*final(self), *old(self)),
            final(self).sessions@.len() == old(self).sessions@.len(),
            !has_session(old(self).sessions@, kv(*key)) ==> changes is None && final(self).sessions@ == old(self).sessions@,
            forall|i: int| #[trigger] has_session_at(old(self).sessions@, kv(*key), i) ==> {
                let s = old(self).sessions@[i];
                if todos_view(s.todos@) == todos_view(fresh@) {
                    changes is None && final(self).sessions@ == old(self).sessions@
                } else {
                    changes matches Some(c) && change_views(c@) == changes_of(s.todos@, fresh@)
                        && final(self).sessions@ == old(self).sessions@.update(i, LiveSession { todos: fresh, ..s })
                }
            },
    {
        let i = match self.find(key) {
            Some(i) => i,
            None => {
                return None;
            },
        };
        proof {
            lemma_unique_index(self.sessions@, kv(*key), i as int);
        }
        if todo_lists_equal(&self.sessions[i].todos, &fresh) {
            return None;
        }
        let changes = diff_todos(self.sessions[i].todos.as_slice(), fresh.as_slice());
        let ghost before = self.sessions@;
        let mut s = self.sessions.remove(i);
        s.todos = fresh;
        self.sessions.insert(i, s);
        assert(self.sessions@ =~= before.update(i as int, self.sessions@[i as int]));
        proof {
            lemma_update_keeps_keys(before, i as int, self.sessions@[i as int]);
        }
        Some(changes)
    }
}

/// Row-by-row equality of two todo lists.
pub fn todo_lists_equal(a: &Vec<TodoView>, b: &Vec<TodoView>) -> (same: bool)
    ensures
        same == (todos_view(a@) == todos_view(b@)),
{
    if a.len() != b.len() {
        assert(todos_view(a@).len() != todos_view(b@).len());
        return false;
    }
    let mut i: usize = 0;
    while i < a.len()
        invariant
            i <= a.len(),
            a.len() == b.len(),
            forall|k: int| 0 <= k < i ==> crate::todos::todo_view(a@[k]) == crate::todos::todo_view(b@[k]),
        decreases a.len() - i,
    {
        let same = crate::text::str_eq(a[i].content.as_str(), b[i].content.as_str())
            && crate::text::str_eq(a[i].status.as_str(), b[i].status.as_str())
            && crate::text::str_eq(a[i].priority.as_str(), b[i].priority.as_str());
        if !same {
            assert(todos_view(a@)[i as int] != todos_view(b@)[i as int]);
            return false;
        }
        i = i + 1;
    }
    assert(todos_view(a@) =~= todos_view(b@));
    true
}

/// What one session notification asks of the edge.
#[derive(Debug)]
pub struct Routed {
    /// The notification belongs to an older ACP session and is dropped.
    pub stale: bool,
    /// Streamed agent text to append.
    pub agent_text: Option<String>,
    /// A tool status line to show.
    pub tool_line: Option<ToolLineView>,
    /// A todo list read off the tool payload, for `update_todos`.
    pub todos: Option<Vec<TodoView>>,
    /// Fresh config options to show.
    pub config_options: Option<Vec<ConfigOptionView>>,
    /// A usage tick whose figures the edge turns into a spend event.
    pub usage: bool,
}

impl State {
    /// Routes one session update of the ACP session `update_session_id`:
    /// updates of another session than the one the state holds for `key`
    /// are stale; otherwise text, tool lines, todo snoops, config options
    /// and usage ticks are picked out.
    pub fn route_update(&self, key: &SessionKey, update_session_id: &str, update: &SessionUpdate) -> (routed: Routed)
        requires
            self.wf(),
        ensures
            routed.stale == exists|i: int| has_session_at(self.sessions@, kv(*key), i)
                && (self.sessions@[i].session_id matches Some(id) && id@ != update_session_id@),
            routed.stale ==> routed.agent_text is None && routed.tool_line is None && routed.todos is None
                && routed.config_options is None && !routed.usage,
            !routed.stale ==> {
                &&& match routed.agent_text {
                    Some(t) => crate::updates::agent_text_spec(*update) == Some(t@),
                    None => crate::updates::agent_text_spec(*update) is None,
                }
                &&& routed.usage == (*update is UsageUpdate)
                &&& match *update {
                    SessionUpdate::ToolCall(call) => {
                        &&& routed.tool_line matches Some(line) && line.id@ == call.tool_call_id@
                            && line.text@ == crate::updates::tool_text_of(call.kind, call.title@)
                            && line.status@ == crate::updates::status_label_of(call.status)
                        &&& match (call.raw_input, routed.todos) {
                            (Some(input), Some(list)) => crate::todos::parsed_todos(input) == Some(todos_view(list@)),
                            (Some(input), None) => crate::todos::parsed_todos(input) is None,
                            (None, t) => t is None,
                        }
                        &&& routed.config_options is None
                    },
                    SessionUpdate::ToolCallUpdate(u) => {
                        &&& routed.tool_line matches Some(line) && (line.id@, line.text@, line.status@) == crate::updates::update_line_of(u)
                        &&& match routed.todos {
                            Some(list) => crate::todos::update_todos_spec(u.raw_input, u.raw_output) == Some(todos_view(list@)),
                            None => crate::todos::update_todos_spec(u.raw_input, u.raw_output) is None,
                        }
                        &&& routed.config_options is None
                    },
                    SessionUpdate::ConfigOptionUpdate(options) => {
                        &&& routed.tool_line is None && routed.todos is None
                        &&& routed.config_options matches Some(views) && views@.map_values(|v: ConfigOptionView| view_of(v))
                            == options@.map_values(|o: crate::protocol::ConfigOption| option_view_of(o))
                    },
                    _ => routed.tool_line is None && routed.todos is None && routed.config_options is None,
                }
            },
    {
        let stale = match self.find(key) {
            Some(i) => {
                proof {
                    lemma_unique_index(self.sessions@, kv(*key), i as int);
                }
                match &self.sessions[i].session_id {
                    Some(id) => !crate::text::str_eq(id.as_str(), update_session_id),
                    None => false,
                }
            },
            None => false,
        };
        if stale {
            return Routed { stale: true, agent_text: None, tool_line: None, todos: None, config_options: None, usage: false };
        }
        let agent_text = agent_text_of(update);
        match update {
            SessionUpdate::ToolCall(call) => {
                let line = format_tool_line(call);
                let todos = match &call.raw_input {
                    Some(input) => todos_from_call(Some(input)),
                    None => None,
                };
                Routed { stale: false, agent_text, tool_line: Some(line), todos, config_options: None, usage: false }
            },
            SessionUpdate::ToolCallUpdate(u) => {
                let line = format_tool_update(u);
                let todos = todos_from_update(u.raw_input.as_ref(), u.raw_output.as_ref());
                Routed { stale: false, agent_text, tool_line: Some(line), todos, config_options: None, usage: false }
            },
            SessionUpdate::ConfigOptionUpdate(options) => {
                let views = config_views(options.as_slice());
                Routed { stale: false, agent_text, tool_line: None, todos: None, config_options: Some(views), usage: false }
            },
            SessionUpdate::UsageUpdate => Routed { stale: false, agent_text, tool_line: None, todos: None, config_options: None, usage: true },
            _ => Routed { stale: false, agent_text, tool_line: None, todos: None, config_options: None, usage: false },
        }
    }
}

impl State {
    /// Forgets a session's connection and ACP session id: its transport is
    /// gone and the next prompt reopens it.
    pub fn drop_connection(&mut self, key: &SessionKey)
        requires
            old(self).wf(),
        ensures
            final(self).wf(),
            same_but_sessions(*final(self), *old(self)),
            final(self).sessions@.len() == old(self).sessions@.len(),
            forall|i: int| 0 <= i < old(self).sessions@.len() ==> #[trigger] final(self).sessions@[i] == if kv(old(self).sessions@[i].key) == kv(*key) {
                LiveSession { connected: false, session_id: None, ..old(self).sessions@[i] }
            } else {
                old(self).sessions@[i]
            },
    {
        match self.find(key) {
            Some(i) => {
                proof {
                    lemma_unique_index(self.sessions@, kv(*key), i as int);
                }
                let ghost before = self.sessions@;
                let mut s = self.sessions.remove(i);
                s.connected = false;
                s.session_id = None;
                self.sessions.insert(i, s);
                assert(self.sessions@ =~= before.update(i as int, self.sessions@[i as int]));
                proof {
                    lemma_update_keeps_keys(before, i as int, self.sessions@[i as int]);
                    assert forall|j: int| 0 <= j < before.len() && j != i implies kv(before[j].key) != kv(*key) by {
                        assert(!has_session_at(before, kv(*key), j));
                    }
                }
            },
            None => {
                assert forall|j: int| 0 <= j < self.sessions@.len() implies kv(self.sessions@[j].key) != kv(*key) by {
                    assert(!has_session_at(self.sessions@, kv(*key), j));
                }
            },
        }
    }
}

} // verus!
