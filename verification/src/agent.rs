//! Agent lifecycle rules: one agent process per live session, sessions
//! keyed by plan directory name plus role, plans listed from disk.
//!
//! `State` holds what the rules read and decide on. The process edge keeps
//! the live connections and the permission reply channels, keyed the same
//! way, and performs what the operations here decide.
pub mod lifecycle;
pub mod permissions;
pub mod plans_list;
pub mod session;
pub mod turns;
pub mod warm;

use vstd::prelude::*;

use crate::plans::{Phase, PlanRef};
use crate::repo_state::RepoState;
use crate::text::{owned, str_eq};
use crate::types::{AgentError, SessionKey, SessionRole, TodoView};

verus! {

/// A session key as plain values.
pub open spec fn kv(key: SessionKey) -> (Seq<char>, SessionRole) {
    (key.plan@, key.role)
}

/// Whether two keys name the same session.
pub fn key_eq(a: &SessionKey, b: &SessionKey) -> (same: bool)
    ensures
        same == (kv(*a) == kv(*b)),
{
    a.role == b.role && str_eq(a.plan.as_str(), b.plan.as_str())
}

/// A fresh copy of a key.
pub fn copy_key(key: &SessionKey) -> (copy: SessionKey)
    ensures
        kv(copy) == kv(*key),
{
    SessionKey { plan: owned(key.plan.as_str()), role: key.role }
}

/// The phase whose chats a role runs.
pub open spec fn role_phase_of(role: SessionRole) -> Phase {
    match role {
        SessionRole::Scoping => Phase::Scoping,
        SessionRole::Executing => Phase::Executing,
        SessionRole::Merging => Phase::Merging,
    }
}

/// Role phases: sessions only run on active plans.
pub fn role_phase(role: SessionRole) -> (phase: Phase)
    ensures
        phase == role_phase_of(role),
{
    match role {
        SessionRole::Scoping => Phase::Scoping,
        SessionRole::Executing => Phase::Executing,
        SessionRole::Merging => Phase::Merging,
    }
}

/// Plan owned by one live session.
#[derive(Debug, Clone, PartialEq, Eq)]
pub struct ActivePlan {
    pub name: String,
    pub phase: Phase,
    /// Role already delivered for this ACP conversation. Scoping never
    /// sends one (the composer holds the template as editable text);
    /// executing sends once, hidden on approval or prefixed to the first
    /// prompt otherwise.
    pub prefixed: bool,
}

/// The session role of a plan phase; finished plans have none.
pub open spec fn phase_role(phase: Phase) -> Option<SessionRole> {
    match phase {
        Phase::Scoping => Some(SessionRole::Scoping),
        Phase::Executing => Some(SessionRole::Executing),
        Phase::Merging => Some(SessionRole::Merging),
        _ => None,
    }
}

impl ActivePlan {
    pub fn scoping(name: String) -> (plan: ActivePlan)
        ensures
            plan.name == name,
            plan.phase == Phase::Scoping,
            plan.prefixed,
    {
        ActivePlan { name, phase: Phase::Scoping, prefixed: true }
    }

    pub fn executing(name: String) -> (plan: ActivePlan)
        ensures
            plan.name == name,
            plan.phase == Phase::Executing,
            !plan.prefixed,
    {
        ActivePlan { name, phase: Phase::Executing, prefixed: false }
    }

    /// The session key of this plan's chat; finished plans have none.
    pub fn key(&self) -> (key: Option<SessionKey>)
        ensures
            match key {
                Some(k) => phase_role(self.phase) == Some(k.role) && k.plan@ == self.name@,
                None => phase_role(self.phase) is None,
            },
    {
        let role = match self.phase {
            Phase::Scoping => SessionRole::Scoping,
            Phase::Executing => SessionRole::Executing,
            Phase::Merging => SessionRole::Merging,
            Phase::Completed | Phase::Cancelled => {
                return None;
            },
        };
        Some(SessionKey { plan: owned(self.name.as_str()), role })
    }

    pub open spec fn plan_ref_spec(&self) -> PlanRef {
        PlanRef { name: self.name, phase: self.phase }
    }

    pub fn plan_ref(&self) -> (plan: PlanRef)
        ensures
            plan.name@ == self.name@,
            plan.phase == self.phase,
    {
        PlanRef { name: owned(self.name.as_str()), phase: self.phase }
    }
}

/// One live agent session: the flags, transcript-side state and plan the
/// rules read. `connected` says the process edge holds a connection for
/// it; `pending` lists the tool calls whose permission cards are open.
#[derive(Debug)]
pub struct LiveSession {
    pub key: SessionKey,
    pub session_id: Option<String>,
    pub connected: bool,
    pub supports_close: bool,
    pub working: bool,
    pub approval: bool,
    pub failed: bool,
    pub last_prompt: Option<String>,
    pub last_roles: RepoState,
    pub pending: Vec<String>,
    pub todos: Vec<TodoView>,
    pub plan: ActivePlan,
}

impl LiveSession {
    /// A session entry with nothing running and nothing connected.
    pub fn fresh(key: SessionKey, plan: ActivePlan, roles: RepoState) -> (session: LiveSession)
        ensures
            session.key == key,
            session.plan == plan,
            session.last_roles == roles,
            session.session_id is None,
            !session.connected,
            !session.supports_close,
            !session.working,
            !session.approval,
            !session.failed,
            session.last_prompt is None,
            session.pending@.len() == 0,
            session.todos@.len() == 0,
    {
        LiveSession {
            key,
            session_id: None,
            connected: false,
            supports_close: false,
            working: false,
            approval: false,
            failed: false,
            last_prompt: None,
            last_roles: roles,
            pending: Vec::new(),
            todos: Vec::new(),
            plan,
        }
    }

    /// Live: an open session on a connection whose transport is still
    /// open (`transport_open` is the edge's reading of it).
    pub fn is_live(&self, transport_open: bool) -> (live: bool)
        ensures
            live == (self.session_id is Some && self.connected && transport_open),
    {
        self.session_id.is_some() && self.connected && transport_open
    }
}

/// The agent state: every session entry, the selection, the open repo and
/// its branch, the recency of user prompts per plan, the reserved pending
/// scoping name, and the session keys being warmed.
#[derive(Debug)]
pub struct State {
    pub sessions: Vec<LiveSession>,
    pub current: Option<SessionKey>,
    pub repo_root: Option<String>,
    pub branch: String,
    /// Last user-sent prompt per plan directory name, as increasing
    /// stamps. Drives plan sorting; migrated across renames so an approved
    /// plan keeps its recency.
    pub activity: Vec<(String, u64)>,
    /// Reserved scoping timestamp with no directory yet. Listed as a normal
    /// `Untitled` entry until the first prompt materializes it.
    pub pending_scoping: Option<String>,
    /// Background warms in flight, one per session key.
    pub warming: Vec<SessionKey>,
}

/// No two sessions share a key.
pub open spec fn keys_unique(sessions: Seq<LiveSession>) -> bool {
    forall|i: int, j: int|
        0 <= i < j < sessions.len() ==> kv(#[trigger] sessions[i].key) != kv(#[trigger] sessions[j].key)
}

/// No plan has two activity stamps.
pub open spec fn names_unique(activity: Seq<(String, u64)>) -> bool {
    forall|i: int, j: int|
        0 <= i < j < activity.len() ==> (#[trigger] activity[i]).0@ != (#[trigger] activity[j]).0@
}

/// The index of the session with a key, if any.
pub open spec fn has_session_at(sessions: Seq<LiveSession>, key: (Seq<char>, SessionRole), i: int) -> bool {
    0 <= i < sessions.len() && kv(sessions[i].key) == key
}

pub open spec fn has_session(sessions: Seq<LiveSession>, key: (Seq<char>, SessionRole)) -> bool {
    exists|i: int| has_session_at(sessions, key, i)
}

/// Whether any session runs a turn: the sleep guard is held exactly then.
pub open spec fn any_working(sessions: Seq<LiveSession>) -> bool {
    exists|i: int| 0 <= i < sessions.len() && (#[trigger] sessions[i]).working
}

impl State {
    /// Well-formed: keys and activity names are unique.
    pub open spec fn wf(&self) -> bool {
        keys_unique(self.sessions@) && names_unique(self.activity@)
    }

    /// No repo, no sessions.
    pub fn new() -> (state: State)
        ensures
            state.wf(),
            state.sessions@.len() == 0,
            state.current is None,
            state.repo_root is None,
            state.branch@.len() == 0,
            state.activity@.len() == 0,
            state.pending_scoping is None,
            state.warming@.len() == 0,
    {
        State {
            sessions: Vec::new(),
            current: None,
            repo_root: None,
            branch: String::new(),
            activity: Vec::new(),
            pending_scoping: None,
            warming: Vec::new(),
        }
    }

    /// The position of the session with a key.
    pub fn find(&self, key: &SessionKey) -> (found: Option<usize>)
        ensures
            match found {
                Some(i) => has_session_at(self.sessions@, kv(*key), i as int),
                None => !has_session(self.sessions@, kv(*key)),
            },
    {
        let mut i: usize = 0;
        while i < self.sessions.len()
            invariant
                i <= self.sessions.len(),
                forall|k: int| 0 <= k < i ==> !has_session_at(self.sessions@, kv(*key), k),
            decreases self.sessions.len() - i,
        {
            if key_eq(&self.sessions[i].key, key) {
                return Some(i);
            }
            i = i + 1;
        }
        None
    }

    /// Whether any session runs a turn.
    pub fn any_working(&self) -> (working: bool)
        ensures
            working == any_working(self.sessions@),
    {
        let mut i: usize = 0;
        while i < self.sessions.len()
            invariant
                i <= self.sessions.len(),
                forall|k: int| 0 <= k < i ==> !(#[trigger] self.sessions@[k]).working,
            decreases self.sessions.len() - i,
        {
            if self.sessions[i].working {
                return true;
            }
            i = i + 1;
        }
        false
    }
}

/// The per-session flags the edge toggles.
#[derive(Debug, Clone, Copy, PartialEq, Eq, Structural)]
pub enum Flag {
    Working,
    Approval,
    Failed,
}

/// A session with one flag set.
pub open spec fn with_flag(s: LiveSession, flag: Flag, value: bool) -> LiveSession {
    match flag {
        Flag::Working => LiveSession { working: value, ..s },
        Flag::Approval => LiveSession { approval: value, ..s },
        Flag::Failed => LiveSession { failed: value, ..s },
    }
}

/// The sessions after setting one flag on the session with `key`; the
/// others are untouched.
pub open spec fn flag_set(old: Seq<LiveSession>, new: Seq<LiveSession>, key: (Seq<char>, SessionRole), flag: Flag, value: bool) -> bool {
    &&& new.len() == old.len()
    &&& forall|i: int|
        0 <= i < old.len() ==> #[trigger] new[i] == if kv(old[i].key) == key {
            with_flag(old[i], flag, value)
        } else {
            old[i]
        }
}

/// Everything but the sessions is unchanged.
pub open spec fn same_but_sessions(a: State, b: State) -> bool {
    &&& a.current == b.current
    &&& a.repo_root == b.repo_root
    &&& a.branch == b.branch
    &&& a.activity == b.activity
    &&& a.pending_scoping == b.pending_scoping
    &&& a.warming == b.warming
}

impl State {
    fn set_flag_at(&mut self, i: usize, flag: Flag, value: bool)
        requires
            i < old(self).sessions.len(),
        ensures
            final(self).sessions@ == old(self).sessions@.update(i as int, with_flag(old(self).sessions@[i as int], flag, value)),
            same_but_sessions(*final(self), *old(self)),
    {
        let mut s = self.sessions.remove(i);
        match flag {
            Flag::Working => s.working = value,
            Flag::Approval => s.approval = value,
            Flag::Failed => s.failed = value,
        }
        self.sessions.insert(i, s);
        assert(self.sessions@ =~= old(self).sessions@.update(i as int, with_flag(old(self).sessions@[i as int], flag, value)));
    }

    /// Sets one flag on the session with `key`, if there is one.
    pub fn set_flag(&mut self, key: &SessionKey, flag: Flag, value: bool)
        requires
            old(self).wf(),
        ensures
            final(self).wf(),
            flag_set(old(self).sessions@, final(self).sessions@, kv(*key), flag, value),
            same_but_sessions(*final(self), *old(self)),
    {
        match self.find(key) {
            Some(i) => {
                self.set_flag_at(i, flag, value);
                assert forall|j: int| 0 <= j < old(self).sessions@.len() && j != i implies kv(old(self).sessions@[j].key) != kv(*key) by {
                    if j < i {
                        assert(kv(old(self).sessions@[j].key) != kv(old(self).sessions@[i as int].key));
                    } else {
                        assert(kv(old(self).sessions@[i as int].key) != kv(old(self).sessions@[j].key));
                    }
                }
                assert(keys_unique(self.sessions@)) by {
                    assert forall|a: int, b: int| 0 <= a < b < self.sessions@.len() implies kv(#[trigger] self.sessions@[a].key) != kv(#[trigger] self.sessions@[b].key) by {
                        assert(self.sessions@[a].key == old(self).sessions@[a].key);
                        assert(self.sessions@[b].key == old(self).sessions@[b].key);
                    }
                }
            },
            None => {
                assert forall|j: int| 0 <= j < old(self).sessions@.len() implies kv(old(self).sessions@[j].key) != kv(*key) by {
                    assert(!has_session_at(old(self).sessions@, kv(*key), j));
                }
            },
        }
    }

    /// Marks a session working or idle. Working and the sleep guard move
    /// together: returns whether the guard must be held, which is whether
    /// any session works afterwards.
    pub fn set_working(&mut self, key: &SessionKey, working: bool) -> (hold_awake: bool)
        requires
            old(self).wf(),
        ensures
            final(self).wf(),
            flag_set(old(self).sessions@, final(self).sessions@, kv(*key), Flag::Working, working),
            same_but_sessions(*final(self), *old(self)),
            hold_awake == any_working(final(self).sessions@),
    {
        self.set_flag(key, Flag::Working, working);
        self.any_working()
    }

    /// Whether a session's turn is running.
    pub fn is_working(&self, key: &SessionKey) -> (busy: bool)
        requires
            self.wf(),
        ensures
            busy == exists|i: int| has_session_at(self.sessions@, kv(*key), i) && self.sessions@[i].working,
    {
        match self.find(key) {
            Some(i) => {
                assert forall|j: int| has_session_at(self.sessions@, kv(*key), j) implies j == i by {
                    if j < i {
                        assert(kv(self.sessions@[j].key) != kv(self.sessions@[i as int].key));
                    } else if j > i {
                        assert(kv(self.sessions@[i as int].key) != kv(self.sessions@[j].key));
                    }
                }
                self.sessions[i].working
            },
            None => false,
        }
    }

    /// Refuses plan transitions while the session's turn runs.
    pub fn ensure_idle(&self, key: &SessionKey) -> (r: Result<(), AgentError>)
        requires
            self.wf(),
        ensures
            (exists|i: int| has_session_at(self.sessions@, kv(*key), i) && self.sessions@[i].working)
                ==> (r matches Err(AgentError::RequestFailed { raw }) && raw@ == "a turn is already running"@),
            !(exists|i: int| has_session_at(self.sessions@, kv(*key), i) && self.sessions@[i].working)
                ==> r is Ok,
    {
        if self.is_working(key) {
            return Err(AgentError::RequestFailed { raw: owned("a turn is already running") });
        }
        Ok(())
    }
}

/// With unique keys, a key sits at one index at most.
pub proof fn lemma_unique_index(sessions: Seq<LiveSession>, key: (Seq<char>, SessionRole), i: int)
    requires
        keys_unique(sessions),
        has_session_at(sessions, key, i),
    ensures
        forall|j: int| has_session_at(sessions, key, j) ==> j == i,
{
    assert forall|j: int| has_session_at(sessions, key, j) implies j == i by {
        if j < i {
            assert(kv(sessions[j].key) != kv(sessions[i].key));
        } else if j > i {
            assert(kv(sessions[i].key) != kv(sessions[j].key));
        }
    }
}

/// The sessions after dropping the one with `key`, if any.
pub open spec fn key_removed(old: Seq<LiveSession>, new: Seq<LiveSession>, key: (Seq<char>, SessionRole)) -> bool {
    ||| (exists|i: int| has_session_at(old, key, i) && new == old.remove(i))
    ||| (!has_session(old, key) && new == old)
}

impl State {
    /// Removes the session with `key`, returning it.
    pub fn remove_session(&mut self, key: &SessionKey) -> (removed: Option<LiveSession>)
        requires
            old(self).wf(),
        ensures
            final(self).wf(),
            key_removed(old(self).sessions@, final(self).sessions@, kv(*key)),
            !has_session(final(self).sessions@, kv(*key)),
            same_but_sessions(*final(self), *old(self)),
            match removed {
                Some(s) => exists|i: int| has_session_at(old(self).sessions@, kv(*key), i) && old(self).sessions@[i] == s
                    && final(self).sessions@ == old(self).sessions@.remove(i),
                None => !has_session(old(self).sessions@, kv(*key)) && final(self).sessions@ == old(self).sessions@,
            },
    {
        match self.find(key) {
            Some(i) => {
                proof {
                    lemma_unique_index(self.sessions@, kv(*key), i as int);
                }
                let ghost before = self.sessions@;
                let s = self.sessions.remove(i);
                assert(keys_unique(self.sessions@)) by {
                    assert forall|a: int, b: int| 0 <= a < b < self.sessions@.len() implies kv(#[trigger] self.sessions@[a].key) != kv(#[trigger] self.sessions@[b].key) by {
                        let oa = if a < i { a } else { a + 1 };
                        let ob = if b < i { b } else { b + 1 };
                        assert(self.sessions@[a] == before[oa]);
                        assert(self.sessions@[b] == before[ob]);
                    }
                }
                assert forall|j: int| !has_session_at(self.sessions@, kv(*key), j) by {
                    if 0 <= j < self.sessions@.len() {
                        let oj = if j < i { j } else { j + 1 };
                        assert(self.sessions@[j] == before[oj]);
                    }
                }
                Some(s)
            },
            None => None,
        }
    }
}

/// Replacing a session by one with the same key keeps keys unique.
pub proof fn lemma_update_keeps_keys(sessions: Seq<LiveSession>, i: int, s: LiveSession)
    requires
        keys_unique(sessions),
        0 <= i < sessions.len(),
        kv(s.key) == kv(sessions[i].key),
    ensures
        keys_unique(sessions.update(i, s)),
{
    let u = sessions.update(i, s);
    assert forall|a: int, b: int| 0 <= a < b < u.len() implies kv(#[trigger] u[a].key) != kv(#[trigger] u[b].key) by {
        assert(kv(u[a].key) == kv(sessions[a].key));
        assert(kv(u[b].key) == kv(sessions[b].key));
    }
}

} // verus!
