//! Permissions: routing an agent's permission request to a per-session
//! card, and answering it.
use vstd::prelude::*;

use crate::agent::{
    LiveSession, State, has_session, has_session_at, kv, lemma_unique_index, lemma_update_keeps_keys,
    same_but_sessions,
};
use crate::permissions::{card_options, option_views, rule_hint, rule_hint_of, to_view};
use crate::prefs::without;
use crate::protocol::PermissionRequest;
use crate::text::{concat2, owned, str_eq};
use crate::types::{AgentError, PermissionView, SessionKey};
use crate::updates::{kind_label, kind_label_of};

verus! {

/// The user's decision on one permission card.
#[derive(Debug, Clone, PartialEq, Eq)]
pub enum PermissionDecision {
    Selected(String),
    Cancelled,
}

/// The tool call ids of open cards.
pub open spec fn ids(pending: Seq<String>) -> Seq<Seq<char>> {
    pending.map_values(|t: String| t@)
}

/// `list` without `id`, and whether it held it.
pub fn remove_id(list: Vec<String>, id: &str) -> (out: (Vec<String>, bool))
    ensures
        ids(out.0@) == without(ids(list@), id@),
        out.1 == ids(list@).contains(id@),
{
    let mut kept: Vec<String> = Vec::new();
    let mut found = false;
    let mut i: usize = 0;
    while i < list.len()
        invariant
            i <= list.len(),
            ids(kept@) == without(ids(list@).take(i as int), id@),
            found == ids(list@).take(i as int).contains(id@),
        decreases list.len() - i,
    {
        let ghost before = kept@;
        assert(ids(list@).take(i + 1).drop_last() == ids(list@).take(i as int));
        assert(ids(list@).take(i + 1).last() == list@[i as int]@);
        if str_eq(list[i].as_str(), id) {
            found = true;
            assert(ids(list@).take(i + 1)[i as int] == id@);
        } else {
            kept.push(owned(list[i].as_str()));
            assert(ids(kept@) =~= ids(before).push(list@[i as int]@));
            assert(ids(list@).take(i + 1).contains(id@) == ids(list@).take(i as int).contains(id@)) by {
                if ids(list@).take(i + 1).contains(id@) {
                    let k = choose|k: int| 0 <= k < i + 1 && #[trigger] ids(list@).take(i + 1)[k] == id@;
                    assert(k != i);
                    assert(ids(list@).take(i as int)[k] == id@);
                }
            }
        }
        if found {
            assert(ids(list@).take(i + 1).contains(id@)) by {
                if ids(list@).take(i as int).contains(id@) {
                    let k = choose|k: int| 0 <= k < i && #[trigger] ids(list@).take(i as int)[k] == id@;
                    assert(ids(list@).take(i + 1)[k] == id@);
                }
            }
        }
        i = i + 1;
    }
    assert(ids(list@).take(list.len() as int) == ids(list@));
    (kept, found)
}

impl State {
    /// Answers one permission card: `Some` selects the allow-once or reject
    /// option, `None` answers cancelled. The card closes; answering a card
    /// that is not open is an error.
    pub fn answer_permission(&mut self, key: &SessionKey, tool_call_id: &str, option_id: Option<String>) -> (decision: Result<PermissionDecision, AgentError>)
        requires
            old(self).wf(),
        ensures
            final(self).wf(),
            same_but_sessions(*final(self), *old(self)),
            final(self).sessions@.len() == old(self).sessions@.len(),
            (exists|i: int| has_session_at(old(self).sessions@, kv(*key), i) && ids(old(self).sessions@[i].pending@).contains(tool_call_id@)) ==> (
                decision == Ok::<PermissionDecision, AgentError>(match option_id {
                    Some(id) => PermissionDecision::Selected(id),
                    None => PermissionDecision::Cancelled,
                })
                && forall|i: int| #[trigger] has_session_at(old(self).sessions@, kv(*key), i) ==> ids(final(self).sessions@[i].pending@) == without(ids(old(self).sessions@[i].pending@), tool_call_id@)),
            !(exists|i: int| has_session_at(old(self).sessions@, kv(*key), i) && ids(old(self).sessions@[i].pending@).contains(tool_call_id@)) ==> (
                decision matches Err(AgentError::RequestFailed { raw }) && raw@ == "no pending permission for "@ + tool_call_id@),
    {
        let found = match self.find(key) {
            Some(i) => {
                proof {
                    lemma_unique_index(self.sessions@, kv(*key), i as int);
                }
                let ghost before = self.sessions@;
                let mut s = self.sessions.remove(i);
                let mut pending: Vec<String> = Vec::new();
                std::mem::swap(&mut pending, &mut s.pending);
                let (kept, found) = remove_id(pending, tool_call_id);
                s.pending = kept;
                self.sessions.insert(i, s);
                assert(self.sessions@ =~= before.update(i as int, self.sessions@[i as int]));
                proof {
                    lemma_update_keeps_keys(before, i as int, self.sessions@[i as int]);
                }
                found
            },
            None => false,
        };
        if found {
            Ok(match option_id {
                Some(id) => PermissionDecision::Selected(id),
                None => PermissionDecision::Cancelled,
            })
        } else {
            Err(AgentError::RequestFailed { raw: concat2("no pending permission for ", tool_call_id) })
        }
    }

    /// Closes every open card of a session; they are answered cancelled at
    /// the edge. Returns their tool call ids.
    pub fn cancel_pending(&mut self, key: &SessionKey) -> (cancelled: Vec<String>)
        requires
            old(self).wf(),
        ensures
            final(self).wf(),
            same_but_sessions(*final(self), *old(self)),
            final(self).sessions@.len() == old(self).sessions@.len(),
            !has_session(old(self).sessions@, kv(*key)) ==> cancelled@.len() == 0 && final(self).sessions@ == old(self).sessions@,
            forall|i: int| #[trigger] has_session_at(old(self).sessions@, kv(*key), i) ==> ids(cancelled@) == ids(old(self).sessions@[i].pending@)
                && final(self).sessions@ == old(self).sessions@.update(i, LiveSession { pending: final(self).sessions@[i].pending, ..old(self).sessions@[i] })
                && final(self).sessions@[i].pending@.len() == 0,
    {
        match self.find(key) {
            Some(i) => {
                proof {
                    lemma_unique_index(self.sessions@, kv(*key), i as int);
                }
                let ghost before = self.sessions@;
                let mut s = self.sessions.remove(i);
                let mut pending: Vec<String> = Vec::new();
                std::mem::swap(&mut pending, &mut s.pending);
                self.sessions.insert(i, s);
                assert(self.sessions@ =~= before.update(i as int, self.sessions@[i as int]));
                proof {
                    lemma_update_keeps_keys(before, i as int, self.sessions@[i as int]);
                }
                pending
            },
            None => Vec::new(),
        }
    }
}

/// The card a request shows: its tool call, title (`run this action?`
/// without one), kind label, one-shot options and rule hint.
pub open spec fn card_of(request: PermissionRequest, view: PermissionView) -> bool {
    &&& view.tool_call_id@ == request.tool_call_id@
    &&& view.title@ == match request.title {
        Some(t) => t@,
        None => "run this action?"@,
    }
    &&& view.kind@ == kind_label_of(request.kind)
    &&& option_views(view.options@) == card_options(request.options@)
    &&& view.rule_hint@ == rule_hint_of(match request.name {
        Some(n) => Some(n@),
        None => None,
    })
}

impl State {
    /// Routes an agent's permission request to a card on the session with
    /// `key`. The request is declined (answered cancelled, `None`) when it
    /// belongs to an older ACP session, offers no one-shot option, or the
    /// session is gone; otherwise its card opens and the session shows the
    /// approval state.
    pub fn ask_permission(&mut self, key: &SessionKey, request: &PermissionRequest) -> (card: Option<PermissionView>)
        requires
            old(self).wf(),
        ensures
            final(self).wf(),
            same_but_sessions(*final(self), *old(self)),
            final(self).sessions@.len() == old(self).sessions@.len(),
            card is None ==> final(self).sessions@ == old(self).sessions@,
            (exists|i: int| has_session_at(old(self).sessions@, kv(*key), i)
                && (old(self).sessions@[i].session_id matches Some(id) && id@ != request.session_id@)) ==> card is None,
            card_options(request.options@).len() == 0 ==> card is None,
            !has_session(old(self).sessions@, kv(*key)) ==> card is None,
            forall|i: int| #[trigger] has_session_at(old(self).sessions@, kv(*key), i) ==> (
                !(old(self).sessions@[i].session_id matches Some(id) && id@ != request.session_id@)
                && card_options(request.options@).len() > 0 ==> (card matches Some(v) && card_of(*request, v)
                    && final(self).sessions@[i].approval
                    && ids(final(self).sessions@[i].pending@) == without(ids(old(self).sessions@[i].pending@), request.tool_call_id@).push(request.tool_call_id@)
                    && final(self).sessions@ == old(self).sessions@.update(i, LiveSession {
                        approval: true,
                        pending: final(self).sessions@[i].pending,
                        ..old(self).sessions@[i]
                    }))),
    {
        let i = match self.find(key) {
            Some(i) => i,
            None => {
                return None;
            },
        };
        proof {
            lemma_unique_index(self.sessions@, kv(*key), i as int);
        }
        let stale = match &self.sessions[i].session_id {
            Some(id) => !str_eq(id.as_str(), request.session_id.as_str()),
            None => false,
        };
        if stale {
            return None;
        }
        let options = to_view(request.options.as_slice());
        if options.len() == 0 {
            return None;
        }
        let title = match &request.title {
            Some(t) => owned(t.as_str()),
            None => owned("run this action?"),
        };
        let hint = match &request.name {
            Some(n) => rule_hint(Some(n.as_str())),
            None => rule_hint(None),
        };
        let view = PermissionView {
            tool_call_id: owned(request.tool_call_id.as_str()),
            title,
            kind: owned(kind_label(request.kind)),
            options,
            rule_hint: hint,
        };
        let ghost before = self.sessions@;
        let mut s = self.sessions.remove(i);
        let mut pending: Vec<String> = Vec::new();
                std::mem::swap(&mut pending, &mut s.pending);
        let (mut kept, _) = remove_id(pending, request.tool_call_id.as_str());
        let ghost k0 = kept@;
        kept.push(owned(request.tool_call_id.as_str()));
        assert(ids(kept@) =~= ids(k0).push(request.tool_call_id@));
        s.pending = kept;
        s.approval = true;
        self.sessions.insert(i, s);
        assert(self.sessions@ =~= before.update(i as int, self.sessions@[i as int]));
        proof {
            lemma_update_keeps_keys(before, i as int, self.sessions@[i as int]);
        }
        Some(view)
    }

    /// A card was answered (or its channel dropped, `None`): the card
    /// closes, the approval state clears, and the decision goes back to the
    /// agent, cancelled when none came.
    pub fn resolve_permission(&mut self, key: &SessionKey, tool_call_id: &str, decision: Option<PermissionDecision>) -> (answer: PermissionDecision)
        requires
            old(self).wf(),
        ensures
            final(self).wf(),
            same_but_sessions(*final(self), *old(self)),
            final(self).sessions@.len() == old(self).sessions@.len(),
            answer == match decision {
                Some(d) => d,
                None => PermissionDecision::Cancelled,
            },
            !has_session(old(self).sessions@, kv(*key)) ==> final(self).sessions@ == old(self).sessions@,
            forall|i: int| #[trigger] has_session_at(old(self).sessions@, kv(*key), i) ==>
                !final(self).sessions@[i].approval
                && ids(final(self).sessions@[i].pending@) == without(ids(old(self).sessions@[i].pending@), tool_call_id@)
                && final(self).sessions@ == old(self).sessions@.update(i, LiveSession {
                    approval: false,
                    pending: final(self).sessions@[i].pending,
                    ..old(self).sessions@[i]
                }),
    {
        if let Some(i) = self.find(key) {
            proof {
                lemma_unique_index(self.sessions@, kv(*key), i as int);
            }
            let ghost before = self.sessions@;
            let mut s = self.sessions.remove(i);
            let mut pending: Vec<String> = Vec::new();
                std::mem::swap(&mut pending, &mut s.pending);
            let (kept, _) = remove_id(pending, tool_call_id);
            s.pending = kept;
            s.approval = false;
            self.sessions.insert(i, s);
            assert(self.sessions@ =~= before.update(i as int, self.sessions@[i as int]));
            proof {
                lemma_update_keeps_keys(before, i as int, self.sessions@[i as int]);
            }
        }
        match decision {
            Some(d) => d,
            None => PermissionDecision::Cancelled,
        }
    }
}

} // verus!
