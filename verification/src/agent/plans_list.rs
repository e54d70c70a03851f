//! Plans list: ordering, per-session statuses, and the selection shown
//! after every transition, activity, or title change.
use vstd::prelude::*;

use crate::agent::{LiveSession, State, has_session, has_session_at, kv, lemma_unique_index};
use crate::agent::lifecycle::activity_map;
use crate::plans::{Phase, PlanRef, phase_rank, phase_rank_of};
use crate::text::{chars_of, owned, str_eq};
use crate::types::{PlanEntry, SessionKey, SessionRole, SessionStatusView};

verus! {

/// What the edge read of one plan directory: the plan, its title, whether
/// `plan.md` exists, the session roles it owns (see `roles_for`), and the
/// modification time used for ordering before any activity.
#[derive(Debug)]
pub struct ScannedPlan {
    pub plan: PlanRef,
    pub title: String,
    pub has_plan_md: bool,
    pub roles: Vec<SessionRole>,
    pub mtime: Option<u64>,
}

/// `a` sorts before `b` in descending name order (`a` is the greater
/// name, lexicographically by character).
pub open spec fn lex_less(a: Seq<char>, b: Seq<char>) -> bool
    decreases a.len(),
{
    if a.len() == 0 {
        b.len() > 0
    } else if b.len() == 0 {
        false
    } else if a[0] != b[0] {
        a[0] < b[0]
    } else {
        lex_less(a.skip(1), b.skip(1))
    }
}

proof fn lemma_lex_irreflexive(a: Seq<char>)
    ensures
        !lex_less(a, a),
    decreases a.len(),
{
    if a.len() > 0 {
        lemma_lex_irreflexive(a.skip(1));
    }
}

proof fn lemma_lex_transitive(a: Seq<char>, b: Seq<char>, c: Seq<char>)
    requires
        lex_less(a, b),
        lex_less(b, c),
    ensures
        lex_less(a, c),
    decreases a.len(),
{
    if a.len() > 0 && b.len() > 0 && c.len() > 0 && a[0] == b[0] && b[0] == c[0] {
        lemma_lex_transitive(a.skip(1), b.skip(1), c.skip(1));
    }
}

proof fn lemma_lex_total(a: Seq<char>, b: Seq<char>)
    requires
        a != b,
    ensures
        lex_less(a, b) || lex_less(b, a),
    decreases a.len(),
{
    if a.len() > 0 && b.len() > 0 && a[0] == b[0] {
        if a.skip(1) == b.skip(1) {
            assert(a == seq![a[0]] + a.skip(1));
            assert(b == seq![b[0]] + b.skip(1));
        }
        lemma_lex_total(a.skip(1), b.skip(1));
    } else if a.len() == 0 && b.len() == 0 {
        assert(a == b);
    }
}

fn lex_less_exec(a: &Vec<char>, b: &Vec<char>) -> (less: bool)
    ensures
        less == lex_less(a@, b@),
{
    let mut i: usize = 0;
    assert(a@.skip(0) == a@);
    assert(b@.skip(0) == b@);
    while i < a.len() && i < b.len() && a[i] == b[i]
        invariant
            i <= a.len(),
            i <= b.len(),
            lex_less(a@, b@) == lex_less(a@.skip(i as int), b@.skip(i as int)),
        decreases a.len() - i,
    {
        assert(a@.skip(i as int).skip(1) == a@.skip(i + 1));
        assert(b@.skip(i as int).skip(1) == b@.skip(i + 1));
        i = i + 1;
    }
    if i == a.len() {
        return i < b.len();
    }
    if i == b.len() {
        return false;
    }
    a[i] < b[i]
}

/// The ordering facts of one row: its phase rank, its recency stamp, its
/// modification time, its name and its position in scan order.
pub struct RowKey {
    pub rank: int,
    pub activity: Option<u64>,
    pub mtime: Option<u64>,
    pub name: Seq<char>,
    pub position: int,
}

/// Rows sort by phase, then most recent activity first, active rows
/// before idle ones; idle rows by modification time, newest first and rows
/// without one last, then by name, newest first; remaining ties keep scan
/// order.
pub open spec fn row_before(a: RowKey, b: RowKey) -> bool {
    if a.rank != b.rank {
        a.rank < b.rank
    } else {
        match (a.activity, b.activity) {
            (Some(x), Some(y)) => if x != y {
                x > y
            } else {
                a.position < b.position
            },
            (Some(_), None) => true,
            (None, Some(_)) => false,
            (None, None) => match (a.mtime, b.mtime) {
                (Some(x), Some(y)) if x != y => x > y,
                (Some(_), None) => true,
                (None, Some(_)) => false,
                _ => if a.name != b.name {
                    lex_less(b.name, a.name)
                } else {
                    a.position < b.position
                },
            },
        }
    }
}

proof fn lemma_row_order(a: RowKey, b: RowKey, c: RowKey)
    ensures
        a.position != b.position ==> (row_before(a, b) || row_before(b, a)),
        !(row_before(a, b) && row_before(b, a)),
        !row_before(a, a),
        row_before(a, b) && row_before(b, c) ==> row_before(a, c),
{
    lemma_lex_irreflexive(a.name);
    lemma_lex_irreflexive(b.name);
    if a.name != b.name {
        lemma_lex_total(a.name, b.name);
    }
    if lex_less(a.name, b.name) && lex_less(b.name, a.name) {
        lemma_lex_transitive(a.name, b.name, a.name);
    }
    if row_before(a, b) && row_before(b, c) {
        if lex_less(b.name, a.name) && lex_less(c.name, b.name) {
            lemma_lex_transitive(c.name, b.name, a.name);
        }
        if a.name == c.name && lex_less(b.name, a.name) && lex_less(c.name, b.name) {
            lemma_lex_transitive(c.name, b.name, a.name);
            lemma_lex_irreflexive(a.name);
        }
        if lex_less(b.name, a.name) && b.name == c.name {
        }
        if a.name == b.name && lex_less(c.name, b.name) {
        }
    }
}

/// The rows a list shows: the scanned plans, plus the reserved pending
/// name as an untitled bare scoping plan unless a scoping plan of that
/// name is already on disk.
pub open spec fn pending_listed(scanned: Seq<ScannedPlan>, pending: Option<String>) -> bool {
    match pending {
        Some(p) => !exists|i: int| 0 <= i < scanned.len() && scanned[i].plan.phase == Phase::Scoping && #[trigger] scanned[i].plan.name@ == p@,
        None => false,
    }
}

/// The ordering facts of row `i`.
pub open spec fn row_key(rows: Seq<ScannedPlan>, activity: Map<Seq<char>, u64>, i: int) -> RowKey {
    RowKey {
        rank: phase_rank_of(rows[i].plan.phase) as int,
        activity: if activity.contains_key(rows[i].plan.name@) {
            Some(activity[rows[i].plan.name@])
        } else {
            None
        },
        mtime: rows[i].mtime,
        name: rows[i].plan.name@,
        position: i,
    }
}

/// `order` lists every row index once, sorted.
pub open spec fn sorted_order(rows: Seq<ScannedPlan>, activity: Map<Seq<char>, u64>, order: Seq<int>) -> bool {
    &&& order.len() == rows.len()
    &&& order.no_duplicates()
    &&& forall|k: int| 0 <= k < order.len() ==> 0 <= #[trigger] order[k] < rows.len()
    &&& forall|a: int, b: int| 0 <= a < b < order.len() ==> row_before(row_key(rows, activity, #[trigger] order[a]), row_key(rows, activity, #[trigger] order[b]))
}

/// Law: among plans of one phase that both saw user activity, the one
/// prompted more recently is listed first.
pub proof fn lemma_recent_activity_first(rows: Seq<ScannedPlan>, activity: Map<Seq<char>, u64>, order: Seq<int>, a: int, b: int)
    requires
        sorted_order(rows, activity, order),
        0 <= a < order.len(),
        0 <= b < order.len(),
        rows[order[a]].plan.phase == rows[order[b]].plan.phase,
        activity.contains_key(rows[order[a]].plan.name@),
        activity.contains_key(rows[order[b]].plan.name@),
        activity[rows[order[a]].plan.name@] > activity[rows[order[b]].plan.name@],
    ensures
        a < b,
{
    if b < a {
        assert(row_before(row_key(rows, activity, order[b]), row_key(rows, activity, order[a])));
    }
}

fn row_before_exec(rows: &Vec<ScannedPlan>, stamps: &Vec<Option<u64>>, i: usize, j: usize) -> (before: bool)
    requires
        i < rows.len(),
        j < rows.len(),
        stamps.len() == rows.len(),
    ensures
        before == row_before(
            RowKey { rank: phase_rank_of(rows@[i as int].plan.phase) as int, activity: stamps@[i as int], mtime: rows@[i as int].mtime, name: rows@[i as int].plan.name@, position: i as int },
            RowKey { rank: phase_rank_of(rows@[j as int].plan.phase) as int, activity: stamps@[j as int], mtime: rows@[j as int].mtime, name: rows@[j as int].plan.name@, position: j as int },
        ),
{
    let ra = phase_rank(rows[i].plan.phase);
    let rb = phase_rank(rows[j].plan.phase);
    if ra != rb {
        return ra < rb;
    }
    match (stamps[i], stamps[j]) {
        (Some(x), Some(y)) => if x != y {
            x > y
        } else {
            i < j
        },
        (Some(_), None) => true,
        (None, Some(_)) => false,
        (None, None) => match (rows[i].mtime, rows[j].mtime) {
            (Some(x), Some(y)) if x != y => x > y,
            (Some(_), None) => true,
            (None, Some(_)) => false,
            _ => {
                let na = chars_of(rows[i].plan.name.as_str());
                let nb = chars_of(rows[j].plan.name.as_str());
                if !crate::text::seq_eq(&na, &nb) {
                    lex_less_exec(&nb, &na)
                } else {
                    i < j
                }
            },
        },
    }
}

/// Sorts the rows: the positions of `rows` in list order.
pub fn sort_rows(rows: &Vec<ScannedPlan>, stamps: &Vec<Option<u64>>, activity: Ghost<Map<Seq<char>, u64>>) -> (order: Vec<usize>)
    requires
        stamps.len() == rows.len(),
        forall|i: int| 0 <= i < rows.len() ==> #[trigger] stamps@[i] == row_key(rows@, activity@, i).activity,
    ensures
        sorted_order(rows@, activity@, order@.map_values(|k: usize| k as int)),
{
    let mut order: Vec<usize> = Vec::new();
    let mut n: usize = 0;
    while n < rows.len()
        invariant
            n <= rows.len(),
            stamps.len() == rows.len(),
            forall|i: int| 0 <= i < rows.len() ==> #[trigger] stamps@[i] == row_key(rows@, activity@, i).activity,
            order.len() == n,
            order@.no_duplicates(),
            forall|k: int| 0 <= k < order.len() ==> #[trigger] order@[k] < n,
            forall|a: int, b: int| 0 <= a < b < order.len() ==> row_before(row_key(rows@, activity@, #[trigger] order@[a] as int), row_key(rows@, activity@, #[trigger] order@[b] as int)),
        decreases rows.len() - n,
    {
        let mut pos: usize = 0;
        while pos < order.len() && !row_before_exec(rows, stamps, n, order[pos])
            invariant
                pos <= order.len(),
                n < rows.len(),
                stamps.len() == rows.len(),
                forall|i: int| 0 <= i < rows.len() ==> #[trigger] stamps@[i] == row_key(rows@, activity@, i).activity,
                forall|k: int| 0 <= k < order.len() ==> #[trigger] order@[k] < n,
                forall|k: int| 0 <= k < pos ==> !row_before(row_key(rows@, activity@, n as int), row_key(rows@, activity@, #[trigger] order@[k] as int)),
            decreases order.len() - pos,
        {
            proof {
                assert(row_key(rows@, activity@, n as int).activity == stamps@[n as int]);
                assert(row_key(rows@, activity@, order@[pos as int] as int).activity == stamps@[order@[pos as int] as int]);
            }
            pos = pos + 1;
        }
        proof {
            if pos < order.len() {
                assert(row_key(rows@, activity@, n as int).activity == stamps@[n as int]);
                assert(row_key(rows@, activity@, order@[pos as int] as int).activity == stamps@[order@[pos as int] as int]);
                assert(row_before(row_key(rows@, activity@, n as int), row_key(rows@, activity@, order@[pos as int] as int)));
            }
        }
        let ghost before = order@;
        order.insert(pos, n);
        proof {
            let x = row_key(rows@, activity@, n as int);
            assert forall|k: int| 0 <= k < pos implies row_before(row_key(rows@, activity@, before[k] as int), x) by {
                let y = row_key(rows@, activity@, before[k] as int);
                lemma_row_order(x, y, x);
                assert(!row_before(x, y));
                assert(before[k] < n);
            }
            assert forall|k: int| pos <= k < before.len() implies row_before(x, row_key(rows@, activity@, before[k] as int)) by {
                let p = row_key(rows@, activity@, before[pos as int] as int);
                let y = row_key(rows@, activity@, before[k] as int);
                if k > pos {
                    lemma_row_order(x, p, y);
                }
            }
            assert forall|a: int, b: int| 0 <= a < b < order.len() implies row_before(row_key(rows@, activity@, #[trigger] order@[a] as int), row_key(rows@, activity@, #[trigger] order@[b] as int)) by {
                if a < pos && b < pos {
                    assert(order@[a] == before[a] && order@[b] == before[b]);
                } else if a < pos && b == pos {
                    assert(order@[a] == before[a]);
                } else if a < pos {
                    assert(order@[a] == before[a] && order@[b] == before[b - 1]);
                    let p = row_key(rows@, activity@, before[a] as int);
                    lemma_row_order(p, x, row_key(rows@, activity@, before[b - 1] as int));
                } else if a == pos {
                    assert(order@[b] == before[b - 1]);
                } else {
                    assert(order@[a] == before[a - 1] && order@[b] == before[b - 1]);
                }
            }
            assert(order@.no_duplicates()) by {
                assert forall|a: int, b: int| 0 <= a < order@.len() && 0 <= b < order@.len() && a != b implies order@[a] != order@[b] by {
                    if a == pos {
                        if b < pos { assert(order@[b] == before[b]); } else { assert(order@[b] == before[b - 1]); }
                    } else if b == pos {
                        if a < pos { assert(order@[a] == before[a]); } else { assert(order@[a] == before[a - 1]); }
                    } else {
                        let oa = if a < pos { a } else { a - 1 };
                        let ob = if b < pos { b } else { b - 1 };
                        assert(order@[a] == before[oa] && order@[b] == before[ob]);
                    }
                }
            }
            assert forall|k: int| 0 <= k < order.len() implies #[trigger] order@[k] < n + 1 by {
                if k < pos { assert(order@[k] == before[k]); } else if k > pos { assert(order@[k] == before[k - 1]); }
            }
        }
        n = n + 1;
    }
    proof {
        let o = order@.map_values(|k: usize| k as int);
        assert forall|a: int, b: int| 0 <= a < o.len() && 0 <= b < o.len() && a != b implies o[a] != o[b] by {
            assert(order@[a] != order@[b]);
        }
        assert forall|a: int, b: int| 0 <= a < b < o.len() implies row_before(row_key(rows@, activity@, #[trigger] o[a]), row_key(rows@, activity@, #[trigger] o[b])) by {
            assert(o[a] == order@[a] as int && o[b] == order@[b] as int);
        }
    }
    order
}

/// What a session shows on its row: working, approval, failed and live,
/// all off without an entry. `transport_open[i]` is the edge's reading of
/// the `i`-th session's transport.
pub open spec fn status_of(sessions: Seq<LiveSession>, transport_open: Seq<bool>, name: Seq<char>, role: SessionRole) -> (bool, bool, bool, bool) {
    if has_session(sessions, (name, role)) {
        let i = choose|i: int| has_session_at(sessions, (name, role), i);
        (
            sessions[i].working,
            sessions[i].approval,
            sessions[i].failed,
            sessions[i].session_id is Some && sessions[i].connected && transport_open[i],
        )
    } else {
        (false, false, false, false)
    }
}

pub open spec fn status_view(s: SessionStatusView) -> (SessionRole, (bool, bool, bool, bool)) {
    (s.role, (s.working, s.approval, s.failed, s.live))
}

/// The statuses of a plan's sessions, one per role it owns, in role order.
pub open spec fn statuses_of(sessions: Seq<LiveSession>, transport_open: Seq<bool>, name: Seq<char>, roles: Seq<SessionRole>) -> Seq<(SessionRole, (bool, bool, bool, bool))> {
    roles.map_values(|r: SessionRole| (r, status_of(sessions, transport_open, name, r)))
}

impl State {
    /// One status row per session a plan owns.
    pub fn session_statuses(&self, name: &str, roles: &Vec<SessionRole>, transport_open: &Vec<bool>) -> (statuses: Vec<SessionStatusView>)
        requires
            self.wf(),
            transport_open@.len() == self.sessions@.len(),
        ensures
            statuses@.map_values(|s: SessionStatusView| status_view(s)) == statuses_of(self.sessions@, transport_open@, name@, roles@),
    {
        let mut out: Vec<SessionStatusView> = Vec::new();
        let mut k: usize = 0;
        while k < roles.len()
            invariant
                k <= roles.len(),
                self.wf(),
                transport_open@.len() == self.sessions@.len(),
                out@.map_values(|s: SessionStatusView| status_view(s)) == statuses_of(self.sessions@, transport_open@, name@, roles@.take(k as int)),
            decreases roles.len() - k,
        {
            let role = roles[k];
            let key = SessionKey { plan: owned(name), role };
            let status = match self.find(&key) {
                Some(i) => {
                    proof {
                        lemma_unique_index(self.sessions@, kv(key), i as int);
                        let c = choose|c: int| has_session_at(self.sessions@, (name@, role), c);
                        assert(c == i);
                    }
                    let s = &self.sessions[i];
                    SessionStatusView {
                        role,
                        working: s.working,
                        approval: s.approval,
                        failed: s.failed,
                        live: s.session_id.is_some() && s.connected && transport_open[i],
                    }
                },
                None => SessionStatusView { role, working: false, approval: false, failed: false, live: false },
            };
            let ghost before = out@;
            out.push(status);
            assert(out@.map_values(|s: SessionStatusView| status_view(s)) =~= before.map_values(|s: SessionStatusView| status_view(s)).push(status_view(status)));
            assert(roles@.take(k + 1) =~= roles@.take(k as int).push(role));
            assert(statuses_of(self.sessions@, transport_open@, name@, roles@.take(k + 1)) =~= statuses_of(self.sessions@, transport_open@, name@, roles@.take(k as int)).push((role, status_of(self.sessions@, transport_open@, name@, role))));
            k = k + 1;
        }
        assert(roles@.take(roles.len() as int) == roles@);
        out
    }
}

/// A list row: name, phase, title, `plan.md` presence and statuses.
pub open spec fn entry_view(e: PlanEntry) -> (Seq<char>, Phase, Seq<char>, bool, Seq<(SessionRole, (bool, bool, bool, bool))>) {
    (e.name@, e.phase, e.title@, e.has_plan_md, e.sessions@.map_values(|s: SessionStatusView| status_view(s)))
}

/// The row a scanned plan shows.
pub open spec fn row_entry(row: ScannedPlan, sessions: Seq<LiveSession>, transport_open: Seq<bool>) -> (Seq<char>, Phase, Seq<char>, bool, Seq<(SessionRole, (bool, bool, bool, bool))>) {
    (row.plan.name@, row.plan.phase, row.title@, row.has_plan_md, statuses_of(sessions, transport_open, row.plan.name@, row.roles@))
}

/// The rows of a list: the scanned plans, then the pending one when it is
/// listed (see `pending_listed`).
pub open spec fn listed_rows(scanned: Seq<ScannedPlan>, rows: Seq<ScannedPlan>, pending: Option<String>) -> bool {
    if pending_listed(scanned, pending) {
        &&& rows.len() == scanned.len() + 1
        &&& rows.drop_last() == scanned
        &&& rows.last().plan.name@ == pending->0@ && rows.last().plan.phase == Phase::Scoping
        &&& rows.last().title@ == "Untitled"@ && !rows.last().has_plan_md
        &&& rows.last().roles@ == seq![SessionRole::Scoping] && rows.last().mtime is None
    } else {
        rows == scanned
    }
}

fn pending_on_disk(scanned: &Vec<ScannedPlan>, name: &str) -> (found: bool)
    ensures
        found == exists|i: int| 0 <= i < scanned@.len() && scanned@[i].plan.phase == Phase::Scoping && #[trigger] scanned@[i].plan.name@ == name@,
{
    let mut i: usize = 0;
    while i < scanned.len()
        invariant
            i <= scanned.len(),
            forall|k: int| 0 <= k < i ==> !(scanned@[k].plan.phase == Phase::Scoping && #[trigger] scanned@[k].plan.name@ == name@),
        decreases scanned.len() - i,
    {
        if scanned[i].plan.phase == Phase::Scoping && str_eq(scanned[i].plan.name.as_str(), name) {
            return true;
        }
        i = i + 1;
    }
    false
}

impl State {
    /// The plans list: the scanned plans plus the pending one, ordered by
    /// `row_before`, each with its session statuses.
    pub fn sorted_entries(&self, scanned: Vec<ScannedPlan>, transport_open: &Vec<bool>) -> (entries: Vec<PlanEntry>)
        requires
            self.wf(),
            transport_open@.len() == self.sessions@.len(),
        ensures
            exists|rows: Seq<ScannedPlan>, order: Seq<int>| #[trigger] listed_rows(scanned@, rows, self.pending_scoping) && #[trigger] sorted_order(rows, activity_map(self.activity@), order)
                && entries@.len() == order.len()
                && forall|k: int| 0 <= k < order.len() ==> entry_view(#[trigger] entries@[k]) == row_entry(rows[order[k]], self.sessions@, transport_open@),
            forall|a: int, b: int| 0 <= a < entries@.len() && 0 <= b < entries@.len() && #[trigger] entries@[a].phase == #[trigger] entries@[b].phase
                && activity_map(self.activity@).contains_key(entries@[a].name@) && activity_map(self.activity@).contains_key(entries@[b].name@)
                && activity_map(self.activity@)[entries@[a].name@] > activity_map(self.activity@)[entries@[b].name@] ==> a < b,
    {
        let ghost given = scanned@;
        let mut rows = scanned;
        let extra = match &self.pending_scoping {
            Some(p) => !pending_on_disk(&rows, p.as_str()),
            None => false,
        };
        if extra {
            let name = match &self.pending_scoping {
                Some(p) => owned(p.as_str()),
                None => String::new(),
            };
            let mut roles: Vec<SessionRole> = Vec::new();
            roles.push(SessionRole::Scoping);
            assert(roles@ =~= seq![SessionRole::Scoping]);
            rows.push(ScannedPlan {
                plan: PlanRef { name, phase: Phase::Scoping },
                title: owned("Untitled"),
                has_plan_md: false,
                roles,
                mtime: None,
            });
            assert(rows@.drop_last() == given);
        }
        assert(listed_rows(given, rows@, self.pending_scoping));
        let mut stamps: Vec<Option<u64>> = Vec::new();
        let mut i: usize = 0;
        while i < rows.len()
            invariant
                i <= rows.len(),
                self.wf(),
                stamps.len() == i,
                forall|k: int| 0 <= k < i ==> #[trigger] stamps@[k] == row_key(rows@, activity_map(self.activity@), k).activity,
            decreases rows.len() - i,
        {
            let stamp = self.activity_of(rows[i].plan.name.as_str());
            stamps.push(stamp);
            i = i + 1;
        }
        let order = sort_rows(&rows, &stamps, Ghost(activity_map(self.activity@)));
        let ghost o = order@.map_values(|k: usize| k as int);
        let mut entries: Vec<PlanEntry> = Vec::new();
        let mut k: usize = 0;
        while k < order.len()
            invariant
                k <= order.len(),
                self.wf(),
                transport_open@.len() == self.sessions@.len(),
                o == order@.map_values(|k: usize| k as int),
                sorted_order(rows@, activity_map(self.activity@), o),
                entries@.len() == k,
                forall|j: int| 0 <= j < k ==> entry_view(#[trigger] entries@[j]) == row_entry(rows@[o[j]], self.sessions@, transport_open@),
            decreases order.len() - k,
        {
            let r = order[k];
            assert(o[k as int] == r as int);
            let row = &rows[r];
            let statuses = self.session_statuses(row.plan.name.as_str(), &row.roles, transport_open);
            entries.push(PlanEntry {
                name: owned(row.plan.name.as_str()),
                phase: row.plan.phase,
                title: owned(row.title.as_str()),
                has_plan_md: row.has_plan_md,
                sessions: statuses,
            });
            k = k + 1;
        }
        proof {
            assert forall|a: int, b: int| 0 <= a < entries@.len() && 0 <= b < entries@.len() && #[trigger] entries@[a].phase == #[trigger] entries@[b].phase
                && activity_map(self.activity@).contains_key(entries@[a].name@) && activity_map(self.activity@).contains_key(entries@[b].name@)
                && activity_map(self.activity@)[entries@[a].name@] > activity_map(self.activity@)[entries@[b].name@] implies a < b by {
                assert(entry_view(entries@[a]) == row_entry(rows@[o[a]], self.sessions@, transport_open@));
                assert(entry_view(entries@[b]) == row_entry(rows@[o[b]], self.sessions@, transport_open@));
                lemma_recent_activity_first(rows@, activity_map(self.activity@), o, a, b);
            }
        }
        entries
    }
}

/// The most recent session across the sorted plans: the first plan's
/// execution session when it owns one, else its scoping session.
pub open spec fn most_recent_of(plans: Seq<PlanEntry>) -> Option<(Seq<char>, SessionRole)> {
    if plans.len() == 0 {
        None
    } else if exists|i: int| 0 <= i < plans[0].sessions@.len() && #[trigger] plans[0].sessions@[i].role == SessionRole::Executing {
        Some((plans[0].name@, SessionRole::Executing))
    } else {
        Some((plans[0].name@, SessionRole::Scoping))
    }
}

pub fn most_recent_key(plans: &[PlanEntry]) -> (key: Option<SessionKey>)
    ensures
        match key {
            Some(k) => most_recent_of(plans@) == Some(kv(k)),
            None => most_recent_of(plans@) is None,
        },
{
    if plans.len() == 0 {
        return None;
    }
    let first = &plans[0];
    let mut executing = false;
    let mut i: usize = 0;
    while i < first.sessions.len()
        invariant
            i <= first.sessions.len(),
            executing == exists|j: int| 0 <= j < i && #[trigger] first.sessions@[j].role == SessionRole::Executing,
        decreases first.sessions.len() - i,
    {
        if first.sessions[i].role == SessionRole::Executing {
            executing = true;
        }
        i = i + 1;
    }
    let role = if executing {
        SessionRole::Executing
    } else {
        SessionRole::Scoping
    };
    Some(SessionKey { plan: owned(first.name.as_str()), role })
}

/// The fallback selection: the most recent session, else the scoping
/// session of the first plan (or of no name, with no plans).
pub open spec fn fallback_selection(plans: Seq<PlanEntry>) -> (Seq<char>, SessionRole) {
    match most_recent_of(plans) {
        Some(k) => k,
        None => (if plans.len() > 0 {
            plans[0].name@
        } else {
            Seq::empty()
        }, SessionRole::Scoping),
    }
}

pub fn fallback_key(plans: &[PlanEntry]) -> (key: SessionKey)
    ensures
        kv(key) == fallback_selection(plans@),
{
    match most_recent_key(plans) {
        Some(k) => k,
        None => {
            proof {
                reveal_strlit("");
            }
            SessionKey { plan: owned(""), role: SessionRole::Scoping }
        },
    }
}

impl State {
    /// The selection a plans update shows: the current session, else the
    /// fallback.
    pub fn selected_key(&self, plans: &[PlanEntry]) -> (key: SessionKey)
        ensures
            match self.current {
                Some(c) => kv(key) == kv(c),
                None => kv(key) == fallback_selection(plans@),
            },
    {
        match &self.current {
            Some(c) => crate::agent::copy_key(c),
            None => fallback_key(plans),
        }
    }

    /// The selection a rebuilt list pushes: the current session, else the
    /// most recent one, if any.
    pub fn pushed_selection(&self, plans: &[PlanEntry]) -> (key: Option<SessionKey>)
        ensures
            match self.current {
                Some(c) => key matches Some(k) && kv(k) == kv(c),
                None => match key {
                    Some(k) => most_recent_of(plans@) == Some(kv(k)),
                    None => most_recent_of(plans@) is None,
                },
            },
    {
        match &self.current {
            Some(c) => Some(crate::agent::copy_key(c)),
            None => most_recent_key(plans),
        }
    }
}

} // verus!
