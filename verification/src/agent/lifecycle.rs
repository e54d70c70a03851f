//! Session lifecycle decisions: activity recency, selection, the lazy
//! pending scoping session, and the plan transitions a session may start.
use vstd::prelude::*;

use crate::agent::{
    LiveSession, State, copy_key, key_eq, lemma_update_keeps_keys, has_session, has_session_at, key_removed, kv, lemma_unique_index,
    names_unique, same_but_sessions,
};
use crate::opencode::{plan_display, scoping_draft};
use crate::plans::{Phase, PlanRef, names_of, picks_unique, unique_name};
use crate::repo_state::{ConfigRole, RepoState, opt_view, role_value};
use crate::text::{owned, replace_seq, str_eq};
use crate::types::{AgentError, SessionKey, SessionRole};

verus! {

/// Plan recency as a map from plan name to stamp.
pub open spec fn activity_map(activity: Seq<(String, u64)>) -> Map<Seq<char>, u64>
    decreases activity.len(),
{
    if activity.len() == 0 {
        Map::empty()
    } else {
        activity_map(activity.drop_last()).insert(activity.last().0@, activity.last().1)
    }
}

/// With unique names, the map holds exactly the listed names and stamps.
pub proof fn lemma_activity_map(activity: Seq<(String, u64)>)
    requires
        names_unique(activity),
    ensures
        forall|n: Seq<char>| #[trigger] activity_map(activity).contains_key(n) <==> exists|k: int| 0 <= k < activity.len() && activity[k].0@ == n,
        forall|k: int| 0 <= k < activity.len() ==> activity_map(activity)[#[trigger] activity[k].0@] == activity[k].1,
    decreases activity.len(),
{
    if activity.len() > 0 {
        let d = activity.drop_last();
        assert(names_unique(d)) by {
            assert forall|i: int, j: int| 0 <= i < j < d.len() implies (#[trigger] d[i]).0@ != (#[trigger] d[j]).0@ by {
                assert(d[i] == activity[i] && d[j] == activity[j]);
            }
        }
        lemma_activity_map(d);
        let m = activity_map(activity);
        assert forall|n: Seq<char>| #[trigger] m.contains_key(n) <==> exists|k: int| 0 <= k < activity.len() && activity[k].0@ == n by {
            if m.contains_key(n) && n != activity.last().0@ {
                assert(activity_map(d).contains_key(n));
                let k = choose|k: int| 0 <= k < d.len() && d[k].0@ == n;
                assert(activity[k] == d[k]);
            }
            if exists|k: int| 0 <= k < activity.len() && activity[k].0@ == n {
                let k = choose|k: int| 0 <= k < activity.len() && activity[k].0@ == n;
                if k < activity.len() - 1 {
                    assert(d[k] == activity[k]);
                }
            }
        }
        assert forall|k: int| 0 <= k < activity.len() implies m[#[trigger] activity[k].0@] == activity[k].1 by {
            if k < activity.len() - 1 {
                assert(d[k] == activity[k]);
                assert(activity[k].0@ != activity[activity.len() - 1].0@);
            }
        }
    }
}

impl State {
    fn find_activity(&self, name: &str) -> (found: Option<usize>)
        ensures
            match found {
                Some(i) => i < self.activity@.len() && self.activity@[i as int].0@ == name@,
                None => forall|k: int| 0 <= k < self.activity@.len() ==> self.activity@[k].0@ != name@,
            },
    {
        let mut i: usize = 0;
        while i < self.activity.len()
            invariant
                i <= self.activity.len(),
                forall|k: int| 0 <= k < i ==> self.activity@[k].0@ != name@,
            decreases self.activity.len() - i,
        {
            if str_eq(self.activity[i].0.as_str(), name) {
                return Some(i);
            }
            i = i + 1;
        }
        None
    }

    /// The recency stamp of a plan, if any prompt was sent on it.
    pub fn activity_of(&self, name: &str) -> (stamp: Option<u64>)
        requires
            self.wf(),
        ensures
            match stamp {
                Some(t) => activity_map(self.activity@).contains_key(name@) && activity_map(self.activity@)[name@] == t,
                None => !activity_map(self.activity@).contains_key(name@),
            },
    {
        proof {
            lemma_activity_map(self.activity@);
        }
        match self.find_activity(name) {
            Some(i) => Some(self.activity[i].1),
            None => None,
        }
    }

    /// Forgets a plan's recency.
    pub fn remove_activity(&mut self, name: &str) -> (stamp: Option<u64>)
        requires
            old(self).wf(),
        ensures
            final(self).wf(),
            activity_map(final(self).activity@) == activity_map(old(self).activity@).remove(name@),
            match stamp {
                Some(t) => activity_map(old(self).activity@).contains_key(name@) && activity_map(old(self).activity@)[name@] == t,
                None => !activity_map(old(self).activity@).contains_key(name@),
            },
            final(self).sessions == old(self).sessions,
            final(self).current == old(self).current,
            final(self).repo_root == old(self).repo_root,
            final(self).branch == old(self).branch,
            final(self).pending_scoping == old(self).pending_scoping,
            final(self).warming == old(self).warming,
    {
        proof {
            lemma_activity_map(self.activity@);
        }
        match self.find_activity(name) {
            Some(i) => {
                let ghost before = self.activity@;
                let (_, t) = self.activity.remove(i);
                let ghost after = self.activity@;
                assert(names_unique(after)) by {
                    assert forall|a: int, b: int| 0 <= a < b < after.len() implies (#[trigger] after[a]).0@ != (#[trigger] after[b]).0@ by {
                        let oa = if a < i { a } else { a + 1 };
                        let ob = if b < i { b } else { b + 1 };
                        assert(after[a] == before[oa] && after[b] == before[ob]);
                    }
                }
                proof {
                    lemma_activity_map(after);
                    assert(activity_map(after) =~= activity_map(before).remove(name@)) by {
                        assert forall|n: Seq<char>| #[trigger] activity_map(after).contains_key(n) <==> activity_map(before).remove(name@).contains_key(n) by {
                            if activity_map(after).contains_key(n) {
                                let k = choose|k: int| 0 <= k < after.len() && after[k].0@ == n;
                                let ok = if k < i { k } else { k + 1 };
                                assert(after[k] == before[ok]);
                                assert(ok != i);
                                if n == name@ {
                                    if ok < i {
                                        assert(before[ok].0@ != before[i as int].0@);
                                    } else {
                                        assert(before[i as int].0@ != before[ok].0@);
                                    }
                                }
                            }
                            if activity_map(before).remove(name@).contains_key(n) {
                                let k = choose|k: int| 0 <= k < before.len() && before[k].0@ == n;
                                assert(k != i);
                                let ak = if k < i { k } else { k - 1 };
                                assert(after[ak] == before[k]);
                            }
                        }
                        assert forall|n: Seq<char>| #[trigger] activity_map(after).contains_key(n) implies activity_map(after)[n] == activity_map(before).remove(name@)[n] by {
                            let k = choose|k: int| 0 <= k < after.len() && after[k].0@ == n;
                            let ok = if k < i { k } else { k + 1 };
                            assert(after[k] == before[ok]);
                        }
                    }
                }
                Some(t)
            },
            None => {
                assert(activity_map(self.activity@) =~= activity_map(self.activity@).remove(name@));
                None
            },
        }
    }

    /// Records one user prompt on a plan for sorting.
    pub fn touch_activity(&mut self, name: &str, stamp: u64)
        requires
            old(self).wf(),
        ensures
            final(self).wf(),
            activity_map(final(self).activity@) == activity_map(old(self).activity@).insert(name@, stamp),
            final(self).sessions == old(self).sessions,
            final(self).current == old(self).current,
            final(self).pending_scoping == old(self).pending_scoping,
            final(self).repo_root == old(self).repo_root,
            final(self).warming == old(self).warming,
    {
        self.remove_activity(name);
        let ghost before = self.activity@;
        self.activity.push((owned(name), stamp));
        assert(names_unique(self.activity@)) by {
            lemma_activity_map(before);
            assert forall|a: int, b: int| 0 <= a < b < self.activity@.len() implies (#[trigger] self.activity@[a]).0@ != (#[trigger] self.activity@[b]).0@ by {
                if b == before.len() {
                    assert(self.activity@[a] == before[a]);
                    assert(activity_map(before).contains_key(before[a].0@));
                } else {
                    assert(self.activity@[a] == before[a] && self.activity@[b] == before[b]);
                }
            }
        }
        assert(self.activity@.drop_last() == before);
        assert(activity_map(self.activity@) =~= activity_map(old(self).activity@).insert(name@, stamp));
    }

    /// Carries recency across a plan rename.
    pub fn move_activity(&mut self, from: &str, to: &str)
        requires
            old(self).wf(),
        ensures
            final(self).wf(),
            activity_map(old(self).activity@).contains_key(from@) ==> activity_map(final(self).activity@)
                == activity_map(old(self).activity@).remove(from@).insert(to@, activity_map(old(self).activity@)[from@]),
            !activity_map(old(self).activity@).contains_key(from@) ==> activity_map(final(self).activity@)
                == activity_map(old(self).activity@),
            final(self).sessions == old(self).sessions,
            final(self).current == old(self).current,
            final(self).pending_scoping == old(self).pending_scoping,
            final(self).repo_root == old(self).repo_root,
            final(self).warming == old(self).warming,
    {
        if let Some(t) = self.remove_activity(from) {
            self.touch_activity(to, t);
        }
    }

    /// Pins the selection to one session key.
    pub fn select_key(&mut self, key: SessionKey)
        ensures
            final(self).current == Some(key),
            final(self).sessions == old(self).sessions,
            final(self).activity == old(self).activity,
            final(self).pending_scoping == old(self).pending_scoping,
            final(self).repo_root == old(self).repo_root,
            final(self).warming == old(self).warming,
    {
        self.current = Some(key);
    }

    /// Drops every session entry and the selection. Repo opens start from
    /// scratch; the sleep guard is released.
    pub fn clear_sessions(&mut self)
        requires
            old(self).wf(),
        ensures
            final(self).wf(),
            final(self).sessions@.len() == 0,
            final(self).current is None,
            final(self).pending_scoping is None,
            final(self).activity == old(self).activity,
            final(self).repo_root == old(self).repo_root,
            final(self).warming == old(self).warming,
    {
        self.sessions = Vec::new();
        self.current = None;
        self.pending_scoping = None;
    }

    /// Whether a session's plan is the reserved pending scoping name.
    pub fn is_pending(&self, key: &SessionKey) -> (pending: bool)
        ensures
            pending == self.is_pending_spec(*key),
    {
        match &self.pending_scoping {
            Some(p) => key.role == SessionRole::Scoping && str_eq(p.as_str(), key.plan.as_str()),
            None => false,
        }
    }

    /// Clears the pending scoping name once its directory exists.
    pub fn clear_pending(&mut self, name: &str)
        ensures
            (old(self).pending_scoping matches Some(p) && p@ == name@) ==> final(self).pending_scoping is None,
            !(old(self).pending_scoping matches Some(p) && p@ == name@) ==> final(self).pending_scoping == old(self).pending_scoping,
            final(self).sessions == old(self).sessions,
            final(self).activity == old(self).activity,
            final(self).current == old(self).current,
            final(self).repo_root == old(self).repo_root,
            final(self).warming == old(self).warming,
    {
        let matches = match &self.pending_scoping {
            Some(p) => str_eq(p.as_str(), name),
            None => false,
        };
        if matches {
            self.pending_scoping = None;
        }
    }
}

/// Empty scoping session: no `plan.md`, no recorded activity and no sent
/// prompt, whether or not the directory exists.
pub open spec fn empty_scoping(state: State, name: Seq<char>, has_plan_md: bool) -> bool {
    &&& !has_plan_md
    &&& !activity_map(state.activity@).contains_key(name)
    &&& !(exists|i: int| has_session_at(state.sessions@, (name, SessionRole::Scoping), i) && state.sessions@[i].last_prompt is Some)
}

impl State {
    /// Whether the scoping session of `name` is still empty; `has_plan_md`
    /// is the fresh existence check of its `plan.md`.
    pub fn is_empty_scoping(&self, name: &str, has_plan_md: bool) -> (empty: bool)
        requires
            self.wf(),
        ensures
            empty == empty_scoping(*self, name@, has_plan_md),
    {
        if has_plan_md {
            return false;
        }
        if self.activity_of(name).is_some() {
            return false;
        }
        let key = SessionKey { plan: owned(name), role: SessionRole::Scoping };
        match self.find(&key) {
            Some(i) => {
                proof {
                    lemma_unique_index(self.sessions@, kv(key), i as int);
                }
                self.sessions[i].last_prompt.is_none()
            },
            None => true,
        }
    }

    /// Discards an empty scoping session without a `cancelled/` trace: its
    /// entry, its recency and, on match, the pending name. The directory
    /// itself is removed at the edge.
    pub fn vanish_scoping(&mut self, name: &str)
        requires
            old(self).wf(),
        ensures
            final(self).wf(),
            key_removed(old(self).sessions@, final(self).sessions@, (name@, SessionRole::Scoping)),
            !has_session(final(self).sessions@, (name@, SessionRole::Scoping)),
            activity_map(final(self).activity@) == activity_map(old(self).activity@).remove(name@),
            (old(self).pending_scoping matches Some(p) && p@ == name@) ==> final(self).pending_scoping is None,
            !(old(self).pending_scoping matches Some(p) && p@ == name@) ==> final(self).pending_scoping == old(self).pending_scoping,
            final(self).current == old(self).current,
            final(self).repo_root == old(self).repo_root,
            final(self).warming == old(self).warming,
    {
        let key = SessionKey { plan: owned(name), role: SessionRole::Scoping };
        self.remove_session(&key);
        self.remove_activity(name);
        self.clear_pending(name);
    }
}

impl State {
    /// Prefilled scoping draft for one session: the rendered template only
    /// while the session is fresh (`is_empty_scoping`), `None` for
    /// non-fresh or non-scoping sessions, and an error when the plan is
    /// gone. `dir_exists` and `has_plan_md` are the fresh disk checks of
    /// its scoping directory.
    pub fn scoping_draft_for(&self, session: &SessionKey, dir_exists: bool, has_plan_md: bool) -> (draft: Result<Option<String>, AgentError>)
        requires
            self.wf(),
        ensures
            session.role != SessionRole::Scoping ==> draft == Ok::<Option<String>, AgentError>(None),
            session.role == SessionRole::Scoping && !self.is_pending_spec(*session) && !dir_exists ==> (draft matches Err(AgentError::NoSession { raw }) && raw@ == "plan is gone"@),
            session.role == SessionRole::Scoping && (self.is_pending_spec(*session) || dir_exists) && !empty_scoping(*self, session.plan@, has_plan_md) ==> draft == Ok::<Option<String>, AgentError>(None),
            session.role == SessionRole::Scoping && (self.is_pending_spec(*session) || dir_exists) && empty_scoping(*self, session.plan@, has_plan_md) ==> (draft matches Ok(Some(d)) && d@ == replace_seq(crate::opencode::PLANNER_PROMPT@, "{{PLAN_DIR}}"@, ".samokod/plans/scoping/"@ + session.plan@)),
    {
        if session.role != SessionRole::Scoping {
            return Ok(None);
        }
        let pending = self.is_pending(session);
        if !pending && !dir_exists {
            return Err(AgentError::NoSession { raw: owned("plan is gone") });
        }
        if !self.is_empty_scoping(session.plan.as_str(), has_plan_md) {
            return Ok(None);
        }
        let plan = PlanRef { name: owned(session.plan.as_str()), phase: Phase::Scoping };
        let display = plan_display(&plan);
        proof {
            reveal_strlit("scoping");
            reveal_strlit(".samokod/plans/");
            reveal_strlit("/");
            reveal_strlit(".samokod/plans/scoping/");
            assert(display@ =~= ".samokod/plans/scoping/"@ + session.plan@);
        }
        Ok(Some(scoping_draft(display.as_str())))
    }

    pub open spec fn is_pending_spec(&self, key: SessionKey) -> bool {
        key.role == SessionRole::Scoping && (self.pending_scoping matches Some(p) && p@ == key.plan@)
    }
}

/// Reserved timestamp name for a lazy scoping session: collision-proof
/// against the on-disk scoping names plus the current pending name.
pub fn reserve_scoping_name(scoping_names: &Vec<String>, pending: Option<&str>, now: &str) -> (name: String)
    requires
        scoping_names@.len() + 1 < u64::MAX,
    ensures
        picks_unique(now@, names_of(scoping_names@) + match pending {
            Some(p) => seq![p@],
            None => Seq::empty(),
        }, name@),
        !names_of(scoping_names@).contains(name@),
        pending matches Some(p) ==> name@ != p@,
{
    let mut taken: Vec<String> = Vec::new();
    let mut i: usize = 0;
    while i < scoping_names.len()
        invariant
            i <= scoping_names.len(),
            names_of(taken@) == names_of(scoping_names@).take(i as int),
        decreases scoping_names.len() - i,
    {
        let ghost before = taken@;
        taken.push(owned(scoping_names[i].as_str()));
        assert(names_of(taken@) =~= names_of(before).push(scoping_names@[i as int]@));
        assert(names_of(scoping_names@).take(i + 1) =~= names_of(scoping_names@).take(i as int).push(scoping_names@[i as int]@));
        i = i + 1;
    }
    assert(names_of(scoping_names@).take(scoping_names.len() as int) == names_of(scoping_names@));
    if let Some(p) = pending {
        let ghost before = taken@;
        taken.push(owned(p));
        assert(names_of(taken@) =~= names_of(before).push(p@));
    }
    let ghost all = names_of(taken@);
    assert(all =~= names_of(scoping_names@) + match pending {
        Some(p) => seq![p@],
        None => Seq::empty(),
    });
    let name = unique_name(now, &taken);
    proof {
        if names_of(scoping_names@).contains(name@) {
            let k = choose|k: int| 0 <= k < names_of(scoping_names@).len() && names_of(scoping_names@)[k] == name@;
            assert(all[k] == name@);
        }
        if let Some(p) = pending {
            assert(all[all.len() - 1] == p@);
        }
    }
    name
}

/// What dropping a live session leaves for the edge to do.
#[derive(Debug)]
pub struct DroppedSession {
    /// Tool calls whose open permission cards are answered cancelled.
    pub cancelled: Vec<String>,
    /// The ACP session to close, when the agent advertised closing.
    pub close_session: Option<String>,
    /// Whether the sleep guard stays held.
    pub hold_awake: bool,
}

/// What a dropped session leaves: its open cards, and the session to close.
pub open spec fn dropped_from(removed: Option<LiveSession>, dropped: DroppedSession) -> bool {
    match removed {
        Some(s) => {
            &&& dropped.cancelled@.map_values(|t: String| t@) == s.pending@.map_values(|t: String| t@)
            &&& dropped.close_session == (if s.supports_close && s.connected && s.session_id is Some {
                s.session_id
            } else {
                None
            })
        },
        None => dropped.cancelled@.len() == 0 && dropped.close_session is None,
    }
}

impl State {
    /// Shuts down one live session and forgets it; its open cards are
    /// cancelled and the sleep guard is released when nothing works.
    pub fn drop_live(&mut self, key: &SessionKey) -> (dropped: DroppedSession)
        requires
            old(self).wf(),
        ensures
            final(self).wf(),
            key_removed(old(self).sessions@, final(self).sessions@, kv(*key)),
            same_but_sessions(*final(self), *old(self)),
            dropped.hold_awake == crate::agent::any_working(final(self).sessions@),
            (exists|i: int| has_session_at(old(self).sessions@, kv(*key), i) && dropped_from(Some(old(self).sessions@[i]), dropped))
                || (!has_session(old(self).sessions@, kv(*key)) && dropped_from(None, dropped)),
    {
        let removed = self.remove_session(key);
        let hold_awake = self.any_working();
        match removed {
            Some(s) => {
                let close_session = if s.supports_close && s.connected && s.session_id.is_some() {
                    s.session_id
                } else {
                    None
                };
                let dropped = DroppedSession { cancelled: s.pending, close_session, hold_awake };
                dropped
            },
            None => {
                let dropped = DroppedSession { cancelled: Vec::new(), close_session: None, hold_awake };
                assert(dropped_from(None, dropped));
                dropped
            },
        }
    }
}

impl State {
    /// The open repository, or the error every repo-bound action reports
    /// without one.
    pub fn require_repo(&self) -> (root: Result<String, AgentError>)
        ensures
            match self.repo_root {
                Some(r) => root matches Ok(x) && x@ == r@,
                None => root matches Err(AgentError::NoSession { raw }) && raw@ == "open a repository first"@,
            },
    {
        match &self.repo_root {
            Some(r) => Ok(owned(r.as_str())),
            None => Err(AgentError::NoSession { raw: owned("open a repository first") }),
        }
    }

    /// The plan a transition starts from: refused while the session's turn
    /// runs, without an open repo, or unless the session has `role` and
    /// its plan directory exists (`dir_exists`), with `refusal` as the
    /// message.
    pub fn transition_source(&self, key: &SessionKey, role: SessionRole, dir_exists: bool, refusal: &str) -> (from: Result<PlanRef, AgentError>)
        requires
            self.wf(),
        ensures
            (exists|i: int| has_session_at(self.sessions@, kv(*key), i) && self.sessions@[i].working)
                ==> (from matches Err(AgentError::RequestFailed { raw }) && raw@ == "a turn is already running"@),
            !(exists|i: int| has_session_at(self.sessions@, kv(*key), i) && self.sessions@[i].working)
                && self.repo_root is None ==> (from matches Err(AgentError::NoSession { raw }) && raw@ == "open a repository first"@),
            !(exists|i: int| has_session_at(self.sessions@, kv(*key), i) && self.sessions@[i].working)
                && self.repo_root is Some && (key.role != role || !dir_exists) ==> (from matches Err(AgentError::RequestFailed { raw }) && raw@ == refusal@),
            !(exists|i: int| has_session_at(self.sessions@, kv(*key), i) && self.sessions@[i].working)
                && self.repo_root is Some && key.role == role && dir_exists ==> (from matches Ok(p) && p.name@ == key.plan@ && p.phase == crate::agent::role_phase_of(role)),
    {
        self.ensure_idle(key)?;
        self.require_repo()?;
        if key.role != role || !dir_exists {
            return Err(AgentError::RequestFailed { raw: owned(refusal) });
        }
        Ok(PlanRef { name: owned(key.plan.as_str()), phase: crate::agent::role_phase(role) })
    }

    /// After a plan moved from `from` to `next`: the old session goes, its
    /// recency follows the rename, and the selection moves to `select`
    /// on the renamed plan when given.
    pub fn finish_transition(&mut self, key: &SessionKey, from: &PlanRef, next: &PlanRef, select: Option<SessionRole>) -> (dropped: DroppedSession)
        requires
            old(self).wf(),
        ensures
            final(self).wf(),
            !has_session(final(self).sessions@, kv(*key)),
            dropped.hold_awake == crate::agent::any_working(final(self).sessions@),
            activity_map(old(self).activity@).contains_key(from.name@) ==> activity_map(final(self).activity@)
                == activity_map(old(self).activity@).remove(from.name@).insert(next.name@, activity_map(old(self).activity@)[from.name@]),
            !activity_map(old(self).activity@).contains_key(from.name@) ==> activity_map(final(self).activity@)
                == activity_map(old(self).activity@),
            match select {
                Some(role) => final(self).current matches Some(c) && c.plan@ == next.name@ && c.role == role,
                None => final(self).current == old(self).current,
            },
            final(self).pending_scoping == old(self).pending_scoping,
            final(self).repo_root == old(self).repo_root,
    {
        let dropped = self.drop_live(key);
        self.move_activity(from.name.as_str(), next.name.as_str());
        if let Some(role) = select {
            self.select_key(SessionKey { plan: owned(next.name.as_str()), role });
        }
        dropped
    }

    /// Opens a repository: every session entry goes, the root and branch
    /// are recorded, and with no scoping plan on disk a pending session is
    /// reserved and selected without touching disk.
    pub fn open_repo(&mut self, repo_root: &str, branch: &str, scoping_names: &Vec<String>, now: &str)
        requires
            old(self).wf(),
            scoping_names@.len() + 1 < u64::MAX,
        ensures
            final(self).wf(),
            final(self).sessions@.len() == 0,
            final(self).repo_root matches Some(r) && r@ == repo_root@,
            final(self).branch@ == branch@,
            scoping_names@.len() > 0 ==> final(self).current is None && final(self).pending_scoping is None,
            scoping_names@.len() == 0 ==> (final(self).pending_scoping matches Some(p) && picks_unique(now@, Seq::empty(), p@)
                && (final(self).current matches Some(c) && c.plan@ == p@ && c.role == SessionRole::Scoping)),
    {
        self.clear_sessions();
        self.repo_root = Some(owned(repo_root));
        self.branch = owned(branch);
        if scoping_names.len() == 0 {
            let name = reserve_scoping_name(scoping_names, None, now);
            assert(names_of(scoping_names@) + Seq::<Seq<char>>::empty() =~= Seq::<Seq<char>>::empty());
            self.current = Some(SessionKey { plan: owned(name.as_str()), role: SessionRole::Scoping });
            self.pending_scoping = Some(name);
        }
    }

    /// Reserves a fresh scoping session without touching disk; reuses the
    /// pending one while the selection is still on it and it is empty
    /// (`pending_has_plan_md` is the check of its `plan.md`). Returns
    /// whether it reused.
    pub fn create_plan(&mut self, scoping_names: &Vec<String>, now: &str, pending_has_plan_md: bool) -> (reused: Result<bool, AgentError>)
        requires
            old(self).wf(),
            scoping_names@.len() + 1 < u64::MAX,
        ensures
            final(self).wf(),
            old(self).repo_root is None ==> ((reused matches Err(AgentError::NoSession { raw }) && raw@ == "open a repository first"@)
                && final(self).current == old(self).current && final(self).pending_scoping == old(self).pending_scoping),
            reused == Ok::<bool, AgentError>(true) ==> final(self).current == old(self).current
                && final(self).pending_scoping == old(self).pending_scoping,
            reused == Ok::<bool, AgentError>(false) ==> (final(self).pending_scoping matches Some(p)
                && (final(self).current matches Some(c) && c.plan@ == p@ && c.role == SessionRole::Scoping)
                && !names_of(scoping_names@).contains(p@)
                && picks_unique(now@, names_of(scoping_names@) + match old(self).pending_scoping {
                    Some(q) => seq![q@],
                    None => Seq::empty(),
                }, p@)
                && (old(self).pending_scoping matches Some(q) ==> p@ != q@)),
            reused matches Ok(true) <==> (old(self).repo_root is Some && (old(self).current matches Some(c) && c.role == SessionRole::Scoping
                && (old(self).pending_scoping matches Some(q) && q@ == c.plan@)) && empty_scoping(*old(self), old(self).pending_scoping->0@, pending_has_plan_md)),
            old(self).repo_root is Some && !((old(self).current matches Some(c) && c.role == SessionRole::Scoping
                && (old(self).pending_scoping matches Some(q) && q@ == c.plan@)) && empty_scoping(*old(self), old(self).pending_scoping->0@, pending_has_plan_md))
                ==> reused == Ok::<bool, AgentError>(false),
            final(self).sessions == old(self).sessions,
            final(self).activity == old(self).activity,
            final(self).repo_root == old(self).repo_root,
    {
        self.require_repo()?;
        let reuse = match (&self.current, &self.pending_scoping) {
            (Some(current), Some(pending)) => current.role == SessionRole::Scoping && str_eq(current.plan.as_str(), pending.as_str())
                && self.is_empty_scoping(pending.as_str(), pending_has_plan_md),
            _ => false,
        };
        if reuse {
            return Ok(true);
        }
        let name = match &self.pending_scoping {
            Some(p) => reserve_scoping_name(scoping_names, Some(p.as_str()), now),
            None => reserve_scoping_name(scoping_names, None, now),
        };
        self.current = Some(SessionKey { plan: owned(name.as_str()), role: SessionRole::Scoping });
        self.pending_scoping = Some(name);
        Ok(false)
    }

    /// Selects one session, discarding a previously selected empty scoping
    /// session the way abandon does. `target_dir_exists` checks the target's
    /// plan directory; `prev_has_plan_md` the previous selection's
    /// `plan.md`. Returns the discarded plan name, whose directory the edge
    /// removes.
    pub fn select_plan(&mut self, key: SessionKey, target_dir_exists: bool, prev_has_plan_md: bool) -> (vanished: Result<Option<String>, AgentError>)
        requires
            old(self).wf(),
        ensures
            final(self).wf(),
            old(self).repo_root is None ==> (vanished matches Err(AgentError::NoSession { raw }) && raw@ == "open a repository first"@),
            old(self).repo_root is Some && !(old(self).is_pending_spec(key) || target_dir_exists) ==> (vanished matches Err(AgentError::NoSession { raw }) && raw@ == "plan is gone"@),
            vanished is Err ==> final(self).current == old(self).current && final(self).sessions == old(self).sessions,
            vanished is Ok ==> (final(self).current matches Some(c) && kv(c) == kv(key)),
            old(self).repo_root is Some && (old(self).is_pending_spec(key) || target_dir_exists) ==> vanished is Ok,
            vanished matches Ok(Some(name)) ==> ((old(self).current matches Some(prev) && prev.plan@ == name@ && kv(prev) != kv(key)
                && prev.role == SessionRole::Scoping && empty_scoping(*old(self), prev.plan@, prev_has_plan_md)
) && !has_session(final(self).sessions@, (name@, SessionRole::Scoping))),
            vanished == Ok::<Option<String>, AgentError>(None) ==> final(self).sessions == old(self).sessions,
    {
        self.require_repo()?;
        if !(self.is_pending(&key) || target_dir_exists) {
            return Err(AgentError::NoSession { raw: owned("plan is gone") });
        }
        let mut vanished: Option<String> = None;
        let discard = match &self.current {
            Some(prev) => !key_eq(prev, &key) && prev.role == SessionRole::Scoping
                && self.is_empty_scoping(prev.plan.as_str(), prev_has_plan_md),
            None => false,
        };
        if discard {
            let name = match &self.current {
                Some(prev) => owned(prev.plan.as_str()),
                None => String::new(),
            };
            self.vanish_scoping(name.as_str());
            vanished = Some(name);
        }
        self.current = Some(key);
        Ok(vanished)
    }
}

/// How an abandon goes on.
#[derive(Debug)]
pub enum AbandonStep {
    /// The empty scoping session vanished from the state; its directory
    /// goes at the edge, and `select_after_vanish` picks the selection.
    Vanished(String),
    /// The plan moves to `cancelled/`.
    Move(PlanRef),
}

impl State {
    /// Drops a scoping plan. An empty session vanishes without a
    /// `cancelled/` trace; otherwise the plan moves to `cancelled/`.
    pub fn abandon_plan(&mut self, key: &SessionKey, has_plan_md: bool, dir_exists: bool) -> (step: Result<AbandonStep, AgentError>)
        requires
            old(self).wf(),
        ensures
            final(self).wf(),
            (exists|i: int| has_session_at(old(self).sessions@, kv(*key), i) && old(self).sessions@[i].working)
                ==> (step matches Err(AgentError::RequestFailed { raw }) && raw@ == "a turn is already running"@),
            step matches Ok(AbandonStep::Vanished(name)) ==> name@ == key.plan@ && key.role == SessionRole::Scoping
                && empty_scoping(*old(self), key.plan@, has_plan_md) && !has_session(final(self).sessions@, kv(*key))
                && key_removed(old(self).sessions@, final(self).sessions@, kv(*key))
                && activity_map(final(self).activity@) == activity_map(old(self).activity@).remove(key.plan@)
                && ((old(self).pending_scoping matches Some(p) && p@ == key.plan@) ==> final(self).pending_scoping is None)
                && (!(old(self).pending_scoping matches Some(p) && p@ == key.plan@) ==> final(self).pending_scoping == old(self).pending_scoping)
                && final(self).current == old(self).current && final(self).repo_root == old(self).repo_root,
            !(step matches Ok(AbandonStep::Vanished(_))) ==> *final(self) == *old(self),
            step matches Ok(AbandonStep::Move(p)) ==> p.name@ == key.plan@ && p.phase == Phase::Scoping
                && !(key.role == SessionRole::Scoping && empty_scoping(*old(self), key.plan@, has_plan_md))
                && key.role == SessionRole::Scoping && dir_exists && final(self).sessions == old(self).sessions,
            step is Err ==> final(self).sessions == old(self).sessions,
            old(self).repo_root is Some && !(exists|i: int| has_session_at(old(self).sessions@, kv(*key), i) && old(self).sessions@[i].working)
                && !(key.role == SessionRole::Scoping && empty_scoping(*old(self), key.plan@, has_plan_md))
                && (key.role != SessionRole::Scoping || !dir_exists) ==> (step matches Err(AgentError::RequestFailed { raw }) && raw@ == "no active plan to abandon"@),
            old(self).repo_root is Some && !(exists|i: int| has_session_at(old(self).sessions@, kv(*key), i) && old(self).sessions@[i].working)
                && key.role == SessionRole::Scoping && empty_scoping(*old(self), key.plan@, has_plan_md) ==> (step matches Ok(AbandonStep::Vanished(_))),
            old(self).repo_root is Some && !(exists|i: int| has_session_at(old(self).sessions@, kv(*key), i) && old(self).sessions@[i].working)
                && key.role == SessionRole::Scoping && !empty_scoping(*old(self), key.plan@, has_plan_md) && dir_exists
                ==> (step matches Ok(AbandonStep::Move(p)) && p.name@ == key.plan@ && p.phase == Phase::Scoping),
    {
        self.ensure_idle(key)?;
        self.require_repo()?;
        if key.role == SessionRole::Scoping && self.is_empty_scoping(key.plan.as_str(), has_plan_md) {
            self.vanish_scoping(key.plan.as_str());
            return Ok(AbandonStep::Vanished(owned(key.plan.as_str())));
        }
        if key.role != SessionRole::Scoping || !dir_exists {
            return Err(AgentError::RequestFailed { raw: owned("no active plan to abandon") });
        }
        Ok(AbandonStep::Move(PlanRef { name: owned(key.plan.as_str()), phase: Phase::Scoping }))
    }

    /// After a non-empty scoping plan moved from `from` to `next` in
    /// `cancelled/`: its session goes, its recency follows the rename, and
    /// the selection moves to the cancelled plan's scoping session.
    pub fn finish_abandon(&mut self, key: &SessionKey, from: &PlanRef, next: &PlanRef) -> (dropped: DroppedSession)
        requires
            old(self).wf(),
        ensures
            final(self).wf(),
            !has_session(final(self).sessions@, kv(*key)),
            dropped.hold_awake == crate::agent::any_working(final(self).sessions@),
            activity_map(old(self).activity@).contains_key(from.name@) ==> activity_map(final(self).activity@)
                == activity_map(old(self).activity@).remove(from.name@).insert(next.name@, activity_map(old(self).activity@)[from.name@]),
            !activity_map(old(self).activity@).contains_key(from.name@) ==> activity_map(final(self).activity@)
                == activity_map(old(self).activity@),
            final(self).current matches Some(c) && c.plan@ == next.name@ && c.role == SessionRole::Scoping,
            final(self).pending_scoping == old(self).pending_scoping,
            final(self).repo_root == old(self).repo_root,
    {
        self.finish_transition(key, from, next, Some(SessionRole::Scoping))
    }

    /// The selection after an empty session vanished: the most recent
    /// session of the rebuilt list, or, with nothing left, a freshly
    /// reserved pending session.
    pub fn select_after_vanish(&mut self, most_recent: Option<SessionKey>, scoping_names: &Vec<String>, now: &str)
        requires
            old(self).wf(),
            scoping_names@.len() + 1 < u64::MAX,
        ensures
            final(self).wf(),
            final(self).sessions == old(self).sessions,
            final(self).activity == old(self).activity,
            most_recent matches Some(k) ==> final(self).current == Some(k) && final(self).pending_scoping == old(self).pending_scoping,
            most_recent is None ==> (final(self).pending_scoping matches Some(p) && (final(self).current matches Some(c)
                && c.plan@ == p@ && c.role == SessionRole::Scoping) && !names_of(scoping_names@).contains(p@)),
    {
        match most_recent {
            Some(k) => {
                self.current = Some(k);
            },
            None => {
                let name = match &self.pending_scoping {
                    Some(p) => reserve_scoping_name(scoping_names, Some(p.as_str()), now),
                    None => reserve_scoping_name(scoping_names, None, now),
                };
                self.current = Some(SessionKey { plan: owned(name.as_str()), role: SessionRole::Scoping });
                self.pending_scoping = Some(name);
            },
        }
    }
}

impl State {
    /// Records the branch of the open repo; returns whether it moved.
    pub fn set_branch(&mut self, branch: &str) -> (moved: bool)
        ensures
            moved == (old(self).branch@ != branch@),
            final(self).branch@ == branch@,
            !moved ==> final(self).branch == old(self).branch,
            final(self).sessions == old(self).sessions,
            final(self).activity == old(self).activity,
            final(self).current == old(self).current,
            final(self).pending_scoping == old(self).pending_scoping,
            final(self).repo_root == old(self).repo_root,
            final(self).warming == old(self).warming,
    {
        if str_eq(self.branch.as_str(), branch) {
            return false;
        }
        self.branch = owned(branch);
        true
    }

    /// A branch change the HEAD watcher of `repo_root` saw: recorded only
    /// while that repo is still the open one and the branch really moved.
    pub fn watched_branch(&mut self, repo_root: &str, branch: &str) -> (moved: bool)
        ensures
            moved == ((old(self).repo_root matches Some(r) && r@ == repo_root@) && old(self).branch@ != branch@),
            moved ==> final(self).branch@ == branch@,
            !moved ==> final(self).branch == old(self).branch,
            final(self).sessions == old(self).sessions,
            final(self).activity == old(self).activity,
            final(self).current == old(self).current,
            final(self).pending_scoping == old(self).pending_scoping,
            final(self).repo_root == old(self).repo_root,
            final(self).warming == old(self).warming,
    {
        let same_repo = match &self.repo_root {
            Some(r) => str_eq(r.as_str(), repo_root),
            None => false,
        };
        if !same_repo {
            return false;
        }
        self.set_branch(branch)
    }

    /// Stops a running turn: refused without a live connection and
    /// session; otherwise every open card closes (answered cancelled at the
    /// edge) and the session goes idle. Returns the ACP session to cancel,
    /// the closed cards and whether the sleep guard stays held.
    pub fn cancel_turn(&mut self, key: &SessionKey) -> (cancelled: Result<(String, Vec<String>, bool), AgentError>)
        requires
            old(self).wf(),
        ensures
            final(self).wf(),
            same_but_sessions(*final(self), *old(self)),
            !(exists|i: int| has_session_at(old(self).sessions@, kv(*key), i) && old(self).sessions@[i].connected && old(self).sessions@[i].session_id is Some)
                ==> (cancelled matches Err(AgentError::NoSession { raw }) && raw@ == "no active turn"@) && final(self).sessions@ == old(self).sessions@,
            forall|i: int| #[trigger] has_session_at(old(self).sessions@, kv(*key), i) && old(self).sessions@[i].connected && old(self).sessions@[i].session_id is Some
                ==> (cancelled matches Ok((id, cards, hold)) && Some(id@) == crate::repo_state::opt_view(old(self).sessions@[i].session_id)
                    && cards@.map_values(|t: String| t@) == old(self).sessions@[i].pending@.map_values(|t: String| t@)
                    && hold == crate::agent::any_working(final(self).sessions@)
                    && !final(self).sessions@[i].working && final(self).sessions@[i].pending@.len() == 0),
    {
        let id = match self.find(key) {
            Some(i) => {
                proof {
                    lemma_unique_index(self.sessions@, kv(*key), i as int);
                }
                if !self.sessions[i].connected {
                    return Err(AgentError::NoSession { raw: owned("no active turn") });
                }
                match &self.sessions[i].session_id {
                    Some(id) => owned(id.as_str()),
                    None => {
                        return Err(AgentError::NoSession { raw: owned("no active turn") });
                    },
                }
            },
            None => {
                return Err(AgentError::NoSession { raw: owned("no active turn") });
            },
        };
        let ghost start = self.sessions@;
        let cards = self.cancel_pending(key);
        let ghost mid = self.sessions@;
        let hold = self.set_working(key, false);
        proof {
            assert forall|i: int| #[trigger] has_session_at(start, kv(*key), i) implies !self.sessions@[i].working && self.sessions@[i].pending@.len() == 0 by {
                assert(has_session_at(mid, kv(*key), i));
                assert(self.sessions@[i] == crate::agent::with_flag(mid[i], crate::agent::Flag::Working, false));
            }
        }
        Ok((id, cards, hold))
    }

    /// Re-syncs a session's stored roles from the full option list after a
    /// choice: returns the roles whose value moved, in reapply order, which
    /// the edge saves as the repo-wide default.
    pub fn record_roles(&mut self, key: &SessionKey, roles: RepoState) -> (moved: Vec<ConfigRole>)
        requires
            old(self).wf(),
        ensures
            final(self).wf(),
            same_but_sessions(*final(self), *old(self)),
            final(self).sessions@.len() == old(self).sessions@.len(),
            forall|i: int| #[trigger] has_session_at(old(self).sessions@, kv(*key), i) ==> final(self).sessions@ == old(self).sessions@.update(i, LiveSession { last_roles: roles, ..old(self).sessions@[i] })
                && moved@ == moved_roles(old(self).sessions@[i].last_roles, roles),
            !has_session(old(self).sessions@, kv(*key)) ==> final(self).sessions@ == old(self).sessions@
                && moved@ == moved_roles(RepoState { model: None, effort: None }, roles),
    {
        match self.find(key) {
            Some(i) => {
                proof {
                    lemma_unique_index(self.sessions@, kv(*key), i as int);
                }
                let moved = roles_moved(&self.sessions[i].last_roles, &roles);
                let ghost before = self.sessions@;
                let mut s = self.sessions.remove(i);
                s.last_roles = roles;
                self.sessions.insert(i, s);
                assert(self.sessions@ =~= before.update(i as int, self.sessions@[i as int]));
                proof {
                    lemma_update_keeps_keys(before, i as int, self.sessions@[i as int]);
                }
                moved
            },
            None => roles_moved(&RepoState::empty(), &roles),
        }
    }
}

/// The roles whose stored value differs, model first.
pub open spec fn moved_roles(old: RepoState, new: RepoState) -> Seq<ConfigRole> {
    let m = if role_value(old, ConfigRole::Model) != role_value(new, ConfigRole::Model) {
        seq![ConfigRole::Model]
    } else {
        Seq::empty()
    };
    if role_value(old, ConfigRole::Effort) != role_value(new, ConfigRole::Effort) {
        m.push(ConfigRole::Effort)
    } else {
        m
    }
}

fn same_value(a: &Option<String>, b: &Option<String>) -> (same: bool)
    ensures
        same == (opt_view(*a) == opt_view(*b)),
{
    match (a, b) {
        (Some(x), Some(y)) => str_eq(x.as_str(), y.as_str()),
        (None, None) => true,
        _ => false,
    }
}

pub fn roles_moved(old: &RepoState, new: &RepoState) -> (moved: Vec<ConfigRole>)
    ensures
        moved@ == moved_roles(*old, *new),
{
    let mut moved: Vec<ConfigRole> = Vec::new();
    if !same_value(&old.model, &new.model) {
        moved.push(ConfigRole::Model);
    }
    if !same_value(&old.effort, &new.effort) {
        moved.push(ConfigRole::Effort);
    }
    assert(moved@ =~= moved_roles(*old, *new));
    moved
}

} // verus!
