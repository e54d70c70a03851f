//! Background warm: an eager spawn so the model and effort pickers turn
//! interactive before the first prompt. Single-flight per session key.
use vstd::prelude::*;

use crate::agent::{State, copy_key, key_eq, kv};
use crate::types::{SessionKey, SessionRole};

verus! {

/// The keys being warmed, as plain values.
pub open spec fn warm_keys(warming: Seq<SessionKey>) -> Seq<(Seq<char>, SessionRole)> {
    warming.map_values(|k: SessionKey| kv(k))
}

/// The keys without one key.
pub open spec fn drop_key(keys: Seq<(Seq<char>, SessionRole)>, key: (Seq<char>, SessionRole)) -> Seq<(Seq<char>, SessionRole)>
    decreases keys.len(),
{
    if keys.len() == 0 {
        Seq::empty()
    } else if keys.last() == key {
        drop_key(keys.drop_last(), key)
    } else {
        drop_key(keys.drop_last(), key).push(keys.last())
    }
}

proof fn lemma_drop_key_excludes(keys: Seq<(Seq<char>, SessionRole)>, key: (Seq<char>, SessionRole))
    ensures
        !drop_key(keys, key).contains(key),
    decreases keys.len(),
{
    if keys.len() > 0 {
        lemma_drop_key_excludes(keys.drop_last(), key);
        if keys.last() != key {
            let d = drop_key(keys.drop_last(), key);
            if d.push(keys.last()).contains(key) {
                let k = choose|k: int| 0 <= k < d.push(keys.last()).len() && d.push(keys.last())[k] == key;
                if k < d.len() {
                    assert(d[k] == key);
                }
            }
        }
    }
}

fn contains_key(warming: &Vec<SessionKey>, key: &SessionKey) -> (found: bool)
    ensures
        found == warm_keys(warming@).contains(kv(*key)),
{
    let mut i: usize = 0;
    while i < warming.len()
        invariant
            i <= warming.len(),
            forall|k: int| 0 <= k < i ==> kv(warming@[k]) != kv(*key),
        decreases warming.len() - i,
    {
        if key_eq(&warming[i], key) {
            assert(warm_keys(warming@)[i as int] == kv(*key));
            return true;
        }
        i = i + 1;
    }
    assert forall|k: int| 0 <= k < warm_keys(warming@).len() implies warm_keys(warming@)[k] != kv(*key) by {
        assert(warm_keys(warming@)[k] == kv(warming@[k]));
    }
    false
}

/// Claims the warm slot: true when this caller owns the warm, false when
/// another warm is already in flight.
pub fn try_claim_warm(warming: &mut Vec<SessionKey>, key: &SessionKey) -> (claimed: bool)
    ensures
        claimed == !warm_keys(old(warming)@).contains(kv(*key)),
        claimed ==> warm_keys(final(warming)@) == warm_keys(old(warming)@).push(kv(*key)),
        !claimed ==> final(warming)@ == old(warming)@,
{
    if contains_key(warming, key) {
        return false;
    }
    let ghost before = warming@;
    warming.push(copy_key(key));
    assert(warm_keys(warming@) =~= warm_keys(before).push(kv(*key)));
    true
}

/// Releases the warm slot.
pub fn release_warm(warming: &mut Vec<SessionKey>, key: &SessionKey)
    ensures
        warm_keys(final(warming)@) == drop_key(warm_keys(old(warming)@), kv(*key)),
{
    let mut kept: Vec<SessionKey> = Vec::new();
    let mut i: usize = 0;
    while i < warming.len()
        invariant
            i <= warming.len(),
            warm_keys(kept@) == drop_key(warm_keys(warming@).take(i as int), kv(*key)),
        decreases warming.len() - i,
    {
        assert(warm_keys(warming@).take(i + 1).drop_last() == warm_keys(warming@).take(i as int));
        assert(warm_keys(warming@).take(i + 1).last() == kv(warming@[i as int]));
        if !key_eq(&warming[i], key) {
            let ghost before = kept@;
            kept.push(copy_key(&warming[i]));
            assert(warm_keys(kept@) =~= warm_keys(before).push(kv(warming@[i as int])));
        }
        i = i + 1;
    }
    assert(warm_keys(warming@).take(warming.len() as int) == warm_keys(warming@));
    *warming = kept;
}

/// Law: claiming is single-flight. A second claim of a key already claimed
/// fails, and a claim after release succeeds.
pub proof fn lemma_claim_single_flight(keys: Seq<(Seq<char>, SessionRole)>, key: (Seq<char>, SessionRole))
    ensures
        keys.push(key).contains(key),
        !drop_key(keys.push(key), key).contains(key),
{
    assert(keys.push(key)[keys.len() as int] == key);
    lemma_drop_key_excludes(keys.push(key), key);
}

/// Finished plans never warm: their completed or cancelled directory holds
/// the name.
pub fn is_finished(completed_dir_exists: bool, cancelled_dir_exists: bool) -> (finished: bool)
    ensures
        finished == (completed_dir_exists || cancelled_dir_exists),
{
    completed_dir_exists || cancelled_dir_exists
}

impl State {
    /// Starts a background warm of one session when there is something to
    /// warm: a repo is open, the plan is not finished, the session is not
    /// already live, and no other warm holds the key. Returns whether this
    /// caller now owns the warm (and must release it).
    pub fn begin_warm(&mut self, key: &SessionKey, finished: bool, live: bool) -> (claimed: bool)
        ensures
            claimed == (old(self).repo_root is Some && !finished && !live && !warm_keys(old(self).warming@).contains(kv(*key))),
            claimed ==> warm_keys(final(self).warming@) == warm_keys(old(self).warming@).push(kv(*key)),
            !claimed ==> final(self).warming@ == old(self).warming@,
            final(self).sessions == old(self).sessions,
            final(self).activity == old(self).activity,
            final(self).current == old(self).current,
            final(self).pending_scoping == old(self).pending_scoping,
            final(self).repo_root == old(self).repo_root,
    {
        if self.repo_root.is_none() || finished || live {
            return false;
        }
        try_claim_warm(&mut self.warming, key)
    }

    /// Releases a warm this caller owns.
    pub fn end_warm(&mut self, key: &SessionKey)
        ensures
            warm_keys(final(self).warming@) == drop_key(warm_keys(old(self).warming@), kv(*key)),
            final(self).sessions == old(self).sessions,
            final(self).activity == old(self).activity,
            final(self).current == old(self).current,
            final(self).pending_scoping == old(self).pending_scoping,
            final(self).repo_root == old(self).repo_root,
    {
        release_warm(&mut self.warming, key);
    }

    /// Whether a warm of the key is in flight.
    pub fn is_warming(&self, key: &SessionKey) -> (warming: bool)
        ensures
            warming == warm_keys(self.warming@).contains(kv(*key)),
    {
        contains_key(&self.warming, key)
    }
}

} // verus!
