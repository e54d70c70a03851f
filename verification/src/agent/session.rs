//! Live sessions: one agent process per session. Spawning is lazy on the
//! first prompt, except the eager executor start after approval. The
//! decisions along the way live here: how a startup ends, what a fresh or
//! reopened session keeps, which stored roles are reapplied, and how a
//! racing warm is waited out.
use vstd::prelude::*;

use crate::agent::{
    ActivePlan, LiveSession, State, copy_key, has_session, has_session_at, keys_unique, kv,
    lemma_unique_index, lemma_update_keeps_keys, phase_role, role_phase, role_phase_of,
    same_but_sessions,
};
use crate::error_hint::{ErrorHint, classify_error, hint_of};
use crate::plans::Phase;
use crate::repo_state::{ConfigRole, RepoState, get_role, opt_view, role_value};
use crate::session_config::{first_with_role, option_id_for_role};
use crate::text::{chars_of, concat2, contains_seq, contains_str, extend_chars, lowercase, owned, string_of, to_lowercase};
use crate::types::{AgentError, ConfigOptionView, SessionKey, SessionRole};

verus! {

/// Whether lowercased startup output says the binary is missing.
pub open spec fn says_missing_binary(lowered: Seq<char>) -> bool {
    contains_seq(lowered, "no such file"@) || (contains_seq(lowered, "not found"@) && contains_seq(lowered, "opencode"@))
}

/// Spawn failures arrive as text through the ready channel, so missing
/// binaries are classified by matching the process output.
pub fn map_startup_error(raw: &str) -> (error: AgentError)
    ensures
        says_missing_binary(lowercase(raw@)) ==> error == AgentError::MissingBinary,
        !says_missing_binary(lowercase(raw@)) ==> (error matches AgentError::AgentExited { raw: r } && r@ == raw@),
{
    let lowered = to_lowercase(raw);
    startup_error_from(raw, lowered.as_str())
}

/// Whether already lowercased startup output says the binary is missing.
pub fn missing_binary_in(lowered: &str) -> (missing: bool)
    ensures
        missing == says_missing_binary(lowered@),
{
    let l = chars_of(lowered);
    contains_str(&l, "no such file") || (contains_str(&l, "not found") && contains_str(&l, "opencode"))
}

/// The startup error for raw output given its lowercase (what
/// `map_startup_error` does after lowercasing).
pub fn startup_error_from(raw: &str, lowered: &str) -> (error: AgentError)
    ensures
        says_missing_binary(lowered@) ==> error == AgentError::MissingBinary,
        !says_missing_binary(lowered@) ==> (error matches AgentError::AgentExited { raw: r } && r@ == raw@),
{
    if missing_binary_in(lowered) {
        return AgentError::MissingBinary;
    }
    AgentError::AgentExited { raw: owned(raw) }
}

/// How the agent's startup reported back.
#[derive(Debug, Clone, PartialEq, Eq)]
pub enum StartupSignal {
    /// The initialize handshake finished.
    Ready,
    /// The agent task failed before it was ready, with its error text.
    Failed(String),
    /// The startup task went away without reporting.
    Cancelled,
}

/// The outcome of one startup: ready with the connection in place, or the
/// error the caller sees. `connection_held` is whether the connection is
/// still there once ready.
pub fn startup_result(signal: &StartupSignal, connection_held: bool) -> (result: Result<(), AgentError>)
    ensures
        *signal is Ready && connection_held ==> result is Ok,
        *signal is Ready && !connection_held ==> (result matches Err(AgentError::RequestFailed { raw }) && raw@ == "agent connection vanished during initialize"@),
        *signal is Cancelled ==> (result matches Err(AgentError::RequestFailed { raw }) && raw@ == "agent startup was cancelled"@),
        signal matches StartupSignal::Failed(raw) ==> (says_missing_binary(lowercase(raw@)) ==> result == Err::<(), AgentError>(AgentError::MissingBinary)),
        signal matches StartupSignal::Failed(raw) ==> (!says_missing_binary(lowercase(raw@)) ==> (result matches Err(AgentError::AgentExited { raw: r }) && r@ == raw@)),
{
    match signal {
        StartupSignal::Ready => if connection_held {
            Ok(())
        } else {
            Err(AgentError::RequestFailed { raw: owned("agent connection vanished during initialize") })
        },
        StartupSignal::Failed(raw) => Err(map_startup_error(raw.as_str())),
        StartupSignal::Cancelled => Err(AgentError::RequestFailed { raw: owned("agent startup was cancelled") }),
    }
}

impl State {
    /// Whether the session holds a connection whose transport is still open
    /// (`transport_open`), so the next turn reuses it. A closed transport
    /// drops the connection from the entry so a fresh process is spawned.
    pub fn reuse_connection(&mut self, key: &SessionKey, transport_open: bool) -> (reuse: bool)
        requires
            old(self).wf(),
        ensures
            final(self).wf(),
            same_but_sessions(*final(self), *old(self)),
            final(self).sessions@.len() == old(self).sessions@.len(),
            reuse == (transport_open && exists|i: int| has_session_at(old(self).sessions@, kv(*key), i) && old(self).sessions@[i].connected),
            forall|i: int| 0 <= i < old(self).sessions@.len() ==> #[trigger] final(self).sessions@[i] == if kv(old(self).sessions@[i].key) == kv(*key) && !transport_open {
                LiveSession { connected: false, ..old(self).sessions@[i] }
            } else {
                old(self).sessions@[i]
            },
    {
        match self.find(key) {
            Some(i) => {
                proof {
                    lemma_unique_index(self.sessions@, kv(*key), i as int);
                }
                if !self.sessions[i].connected {
                    assert forall|j: int| 0 <= j < self.sessions@.len() && kv(self.sessions@[j].key) == kv(*key) implies !self.sessions@[j].connected by {
                        assert(has_session_at(self.sessions@, kv(*key), j));
                    }
                    if !transport_open {
                        self.forget_connection(i);
                    }
                    return false;
                }
                if transport_open {
                    return true;
                }
                self.forget_connection(i);
                false
            },
            None => {
                assert forall|j: int| 0 <= j < self.sessions@.len() implies kv(self.sessions@[j].key) != kv(*key) by {
                    assert(!has_session_at(self.sessions@, kv(*key), j));
                }
                false
            },
        }
    }

    fn forget_connection(&mut self, i: usize)
        requires
            old(self).wf(),
            i < old(self).sessions@.len(),
            forall|j: int| 0 <= j < old(self).sessions@.len() && j != i ==> kv(old(self).sessions@[j].key) != kv(old(self).sessions@[i as int].key),
        ensures
            final(self).wf(),
            same_but_sessions(*final(self), *old(self)),
            final(self).sessions@ == old(self).sessions@.update(i as int, LiveSession { connected: false, ..old(self).sessions@[i as int] }),
    {
        let ghost before = self.sessions@;
        let mut s = self.sessions.remove(i);
        s.connected = false;
        self.sessions.insert(i, s);
        assert(self.sessions@ =~= before.update(i as int, self.sessions@[i as int]));
        proof {
            lemma_update_keeps_keys(before, i as int, self.sessions@[i as int]);
        }
    }

    /// The initialize handshake finished: the session holds the connection
    /// and whether the agent can close sessions. A session without an entry
    /// gets a fresh one for `plan`.
    pub fn attach_connection(&mut self, key: &SessionKey, plan: ActivePlan, supports_close: bool)
        requires
            old(self).wf(),
        ensures
            final(self).wf(),
            same_but_sessions(*final(self), *old(self)),
            forall|i: int| #[trigger] has_session_at(old(self).sessions@, kv(*key), i) ==> final(self).sessions@ == old(self).sessions@.update(i, LiveSession {
                connected: true,
                supports_close,
                ..old(self).sessions@[i]
            }),
            !has_session(old(self).sessions@, kv(*key)) ==> final(self).sessions@.len() == old(self).sessions@.len() + 1
                && final(self).sessions@.drop_last() == old(self).sessions@ && ({
                    let s = final(self).sessions@.last();
                    &&& kv(s.key) == kv(*key) && s.plan == plan && s.connected && s.supports_close == supports_close
                    &&& s.session_id is None && !s.working && !s.approval && !s.failed && s.last_prompt is None
                    &&& s.pending@.len() == 0 && s.todos@.len() == 0 && s.last_roles.model is None && s.last_roles.effort is None
                }),
    {
        match self.find(key) {
            Some(i) => {
                proof {
                    lemma_unique_index(self.sessions@, kv(*key), i as int);
                }
                let ghost before = self.sessions@;
                let mut s = self.sessions.remove(i);
                s.connected = true;
                s.supports_close = supports_close;
                self.sessions.insert(i, s);
                assert(self.sessions@ =~= before.update(i as int, self.sessions@[i as int]));
                proof {
                    lemma_update_keeps_keys(before, i as int, self.sessions@[i as int]);
                }
            },
            None => {
                let mut fresh = LiveSession::fresh(copy_key(key), plan, RepoState::empty());
                fresh.connected = true;
                fresh.supports_close = supports_close;
                let ghost before = self.sessions@;
                self.sessions.push(fresh);
                assert(self.sessions@.drop_last() == before);
                assert(keys_unique(self.sessions@)) by {
                    assert forall|a: int, b: int| 0 <= a < b < self.sessions@.len() implies kv(#[trigger] self.sessions@[a].key) != kv(#[trigger] self.sessions@[b].key) by {
                        if b == before.len() {
                            assert(self.sessions@[a] == before[a]);
                            assert(!has_session_at(before, kv(*key), a));
                        } else {
                            assert(self.sessions@[a] == before[a] && self.sessions@[b] == before[b]);
                        }
                    }
                }
            },
        }
    }

    /// A startup failed with `raw`: the session's dot turns red even
    /// before any prompt ran. Returns the hint shown under the failure.
    pub fn startup_failed(&mut self, key: &SessionKey, raw: &str) -> (hint: ErrorHint)
        requires
            old(self).wf(),
        ensures
            final(self).wf(),
            same_but_sessions(*final(self), *old(self)),
            crate::agent::flag_set(old(self).sessions@, final(self).sessions@, kv(*key), crate::agent::Flag::Failed, true),
            (hint.kind, hint.text@, hint.retryable) == hint_of(raw@),
    {
        self.set_flag(key, crate::agent::Flag::Failed, true);
        classify_error(raw)
    }

    /// The live connection's session id, when the session holds an open
    /// session on a connection whose transport is open.
    pub fn live_session_id(&self, key: &SessionKey, transport_open: bool) -> (id: Option<String>)
        requires
            self.wf(),
        ensures
            match id {
                Some(s) => transport_open && exists|i: int| has_session_at(self.sessions@, kv(*key), i) && self.sessions@[i].connected
                    && (self.sessions@[i].session_id matches Some(x) && x@ == s@),
                None => !(transport_open && exists|i: int| has_session_at(self.sessions@, kv(*key), i) && self.sessions@[i].connected
                    && self.sessions@[i].session_id is Some),
            },
    {
        if !transport_open {
            return None;
        }
        match self.find(key) {
            Some(i) => {
                proof {
                    lemma_unique_index(self.sessions@, kv(*key), i as int);
                }
                if !self.sessions[i].connected {
                    return None;
                }
                match &self.sessions[i].session_id {
                    Some(s) => Some(owned(s.as_str())),
                    None => None,
                }
            },
            None => None,
        }
    }
}

/// The key a plan's session opens under; finished plans open none.
pub fn spawn_key(plan: &ActivePlan) -> (key: Result<SessionKey, AgentError>)
    ensures
        match key {
            Ok(k) => phase_role(plan.phase) == Some(k.role) && k.plan@ == plan.name@,
            Err(e) => phase_role(plan.phase) is None && (e matches AgentError::RequestFailed { raw } && raw@ == "cannot open a session for a finished plan"@),
        },
{
    match plan.key() {
        Some(k) => Ok(k),
        None => Err(AgentError::RequestFailed { raw: owned("cannot open a session for a finished plan") }),
    }
}

/// The error of a failed agent-mode pin: loud, since a planner session
/// running as the wrong agent would silently break write confinement.
pub fn pin_agent_error(mode: &str, error: &str) -> (e: AgentError)
    ensures
        e matches AgentError::RequestFailed { raw } && raw@ == "failed to select agent "@ + mode@ + ": "@ + error@,
{
    let mut v = chars_of("failed to select agent ");
    extend_chars(&mut v, mode);
    extend_chars(&mut v, ": ");
    extend_chars(&mut v, error);
    AgentError::RequestFailed { raw: string_of(&v) }
}

/// One step of reapplying the stored roles to a fresh session.
#[derive(Debug, Clone, PartialEq, Eq)]
pub enum ReapplyStep {
    /// Nothing stored for the role.
    NotStored,
    /// Stored, but no advertised option fills the role: skipped with a
    /// warning while the open continues on defaults.
    NoOption,
    /// Send `value` to option `id`.
    Send { id: String, value: String },
}

/// What to do for one stored role given the current options: model first,
/// then effort, each against the options as the previous step left them.
pub fn reapply_step(stored: &RepoState, options: &[ConfigOptionView], role: ConfigRole) -> (step: ReapplyStep)
    ensures
        role_value(*stored, role) is None ==> step is NotStored,
        role_value(*stored, role) is Some && first_with_role(options@, role) is None ==> step is NoOption,
        role_value(*stored, role) is Some && first_with_role(options@, role) is Some ==> (step matches ReapplyStep::Send { id, value }
            && Some(value@) == role_value(*stored, role) && first_with_role(options@, role)->0.id@ == id@),
{
    match get_role(stored, role) {
        None => ReapplyStep::NotStored,
        Some(value) => match option_id_for_role(options, role) {
            Some(id) => ReapplyStep::Send { id, value },
            None => ReapplyStep::NoOption,
        },
    }
}

impl State {
    /// Installs a freshly opened session: it holds the connection and ACP
    /// session `session_id`, nothing runs, no card is open, the applied
    /// roles are recorded, and the selection, repo and branch follow it. A
    /// reopened session keeps its one-time prefix state and close support;
    /// a new one starts with the plan's flag. Returns the tool calls of
    /// cards the replaced entry still had open, answered cancelled at the
    /// edge.
    pub fn install_session(&mut self, key: &SessionKey, plan: ActivePlan, session_id: String, applied: RepoState, repo_root: &str, branch: &str) -> (orphaned: Vec<String>)
        requires
            old(self).wf(),
        ensures
            final(self).wf(),
            final(self).current matches Some(c) && kv(c) == kv(*key),
            final(self).repo_root matches Some(r) && r@ == repo_root@,
            final(self).branch@ == branch@,
            final(self).activity == old(self).activity,
            final(self).pending_scoping == old(self).pending_scoping,
            final(self).warming == old(self).warming,
            has_session(final(self).sessions@, kv(*key)),
            forall|j: int| #[trigger] has_session_at(final(self).sessions@, kv(*key), j) ==> {
                let s = final(self).sessions@[j];
                &&& s.connected && s.session_id == Some(session_id)
                &&& !s.working && !s.approval && !s.failed && s.last_prompt is None
                &&& s.pending@.len() == 0 && s.todos@.len() == 0 && s.last_roles == applied
                &&& s.plan.name == plan.name && s.plan.phase == plan.phase
                &&& (forall|i: int| #[trigger] has_session_at(old(self).sessions@, kv(*key), i) ==>
                    s.plan.prefixed == old(self).sessions@[i].plan.prefixed && s.supports_close == old(self).sessions@[i].supports_close)
                &&& (!has_session(old(self).sessions@, kv(*key)) ==> s.plan.prefixed == plan.prefixed && !s.supports_close)
            },
            forall|k: (Seq<char>, crate::types::SessionRole)| k != kv(*key) ==> (has_session(final(self).sessions@, k) <==> has_session(old(self).sessions@, k)),
            forall|i: int| #[trigger] has_session_at(old(self).sessions@, kv(*key), i)
                ==> orphaned@.map_values(|t: String| t@) == old(self).sessions@[i].pending@.map_values(|t: String| t@),
            !has_session(old(self).sessions@, kv(*key)) ==> orphaned@.len() == 0,
    {
        let previous = self.remove_session(key);
        let (supports_close, prefixed, orphaned) = match previous {
            Some(p) => (p.supports_close, p.plan.prefixed, p.pending),
            None => (false, plan.prefixed, Vec::new()),
        };
        let mut plan = plan;
        plan.prefixed = prefixed;
        let mut fresh = LiveSession::fresh(copy_key(key), plan, applied);
        fresh.connected = true;
        fresh.supports_close = supports_close;
        fresh.session_id = Some(session_id);
        let ghost before = self.sessions@;
        self.sessions.push(fresh);
        assert(self.sessions@.drop_last() == before);
        assert(keys_unique(self.sessions@)) by {
            assert forall|a: int, b: int| 0 <= a < b < self.sessions@.len() implies kv(#[trigger] self.sessions@[a].key) != kv(#[trigger] self.sessions@[b].key) by {
                if b == before.len() {
                    assert(self.sessions@[a] == before[a]);
                    assert(!has_session_at(before, kv(*key), a));
                } else {
                    assert(self.sessions@[a] == before[a] && self.sessions@[b] == before[b]);
                }
            }
        }
        proof {
            let n = (before.len()) as int;
            assert(has_session_at(self.sessions@, kv(*key), n));
            lemma_unique_index(self.sessions@, kv(*key), n);
            assert forall|k: (Seq<char>, crate::types::SessionRole)| k != kv(*key) implies (has_session(self.sessions@, k) <==> has_session(old(self).sessions@, k)) by {
                if has_session(self.sessions@, k) {
                    let j = choose|j: int| has_session_at(self.sessions@, k, j);
                    assert(j != n);
                    assert(has_session_at(before, k, j));
                    let i = choose|i: int| has_session_at(old(self).sessions@, kv(*key), i) && before == old(self).sessions@.remove(i);
                    if exists|i: int| has_session_at(old(self).sessions@, kv(*key), i) && before == old(self).sessions@.remove(i) {
                        let oj = if j < i { j } else { j + 1 };
                        assert(old(self).sessions@[oj] == before[j]);
                        assert(has_session_at(old(self).sessions@, k, oj));
                    }
                }
                if has_session(old(self).sessions@, k) {
                    let j = choose|j: int| has_session_at(old(self).sessions@, k, j);
                    if exists|i: int| has_session_at(old(self).sessions@, kv(*key), i) && before == old(self).sessions@.remove(i) {
                        let i = choose|i: int| has_session_at(old(self).sessions@, kv(*key), i) && before == old(self).sessions@.remove(i);
                        assert(j != i);
                        let bj = if j < i { j } else { j - 1 };
                        assert(before[bj] == old(self).sessions@[j]);
                        assert(has_session_at(self.sessions@, k, bj));
                    } else {
                        assert(has_session_at(self.sessions@, k, j));
                    }
                }
            }
        }
        self.repo_root = Some(owned(repo_root));
        self.branch = owned(branch);
        self.current = Some(copy_key(key));
        orphaned
    }

    /// The plan a claimed session spawns for: refused without an open repo,
    /// or when the plan directory is gone (`dir_exists`) unless it is the
    /// pending scoping name. A known session keeps its prefix state across
    /// transport deaths; anything without an entry starts with the role's
    /// default.
    pub fn claimed_plan(&self, key: &SessionKey, dir_exists: bool) -> (plan: Result<ActivePlan, AgentError>)
        requires
            self.wf(),
        ensures
            self.repo_root is None ==> (plan matches Err(AgentError::NoSession { raw }) && raw@ == "open a repository first"@),
            self.repo_root is Some && !dir_exists && !self.is_pending_spec(*key) ==> (plan matches Err(AgentError::NoSession { raw }) && raw@ == "plan is gone"@),
            self.repo_root is Some && (dir_exists || self.is_pending_spec(*key)) ==> (plan matches Ok(p) && p.name@ == key.plan@
                && p.phase == role_phase_of(key.role)
                && (forall|i: int| #[trigger] has_session_at(self.sessions@, kv(*key), i) ==> p.prefixed == self.sessions@[i].plan.prefixed)
                && (!has_session(self.sessions@, kv(*key)) ==> p.prefixed == (key.role == SessionRole::Scoping))),
    {
        self.require_repo()?;
        if !dir_exists && !self.is_pending(key) {
            return Err(AgentError::NoSession { raw: owned("plan is gone") });
        }
        let stored = match self.find(key) {
            Some(i) => {
                proof {
                    lemma_unique_index(self.sessions@, kv(*key), i as int);
                }
                Some(self.sessions[i].plan.prefixed)
            },
            None => None,
        };
        let phase = role_phase(key.role);
        let prefixed = match stored {
            Some(p) => p,
            None => key.role == SessionRole::Scoping,
        };
        Ok(ActivePlan { name: owned(key.plan.as_str()), phase, prefixed })
    }
}

/// One poll of a caller waiting out a racing warm.
#[derive(Debug, Clone, Copy, PartialEq, Eq)]
pub enum PollStep {
    /// The session is live now: use it.
    Ready,
    /// The warm is over without a live session: try to claim the spawn.
    TryClaim,
    /// Keep waiting.
    Wait,
    /// Waited too long.
    GiveUp,
}

/// The next move of a caller waiting on another spawner, given whether the
/// session is live, whether the warm is still in flight, and whether the
/// wait ran out.
pub fn poll_step(live: bool, still_warming: bool, timed_out: bool) -> (step: PollStep)
    ensures
        live ==> step == PollStep::Ready,
        !live && !still_warming ==> step == PollStep::TryClaim,
        !live && still_warming && timed_out ==> step == PollStep::GiveUp,
        !live && still_warming && !timed_out ==> step == PollStep::Wait,
{
    if live {
        PollStep::Ready
    } else if !still_warming {
        PollStep::TryClaim
    } else if timed_out {
        PollStep::GiveUp
    } else {
        PollStep::Wait
    }
}

/// The error a caller gets after waiting out a warm that never finished.
pub fn warming_timeout_error() -> (e: AgentError)
    ensures
        e matches AgentError::RequestFailed { raw } && raw@ == "session is warming, try again"@,
{
    AgentError::RequestFailed { raw: owned("session is warming, try again") }
}

} // verus!
