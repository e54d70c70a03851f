//! Local state: recent repo paths, persisted as JSON under the OS app-data
//! directory. What a load yields and what an open records are decided here;
//! reading, decoding and writing the file happen at the edge.
use vstd::prelude::*;

use crate::repo_state::StoredText;
use crate::text::{chars_of, owned, str_eq, trim_chars};
use crate::types::{Prefs, RecentRepo};

verus! {

pub const STATE_FILE: &'static str = "state.json";

pub const LEGACY_FILE: &'static str = "samokod-prefs.json";

/// How many recent repos the picker keeps.
pub const MAX_RECENT: usize = 10;

/// The recent paths, most recent first.
pub open spec fn recent_paths(recent: Seq<RecentRepo>) -> Seq<Seq<char>> {
    recent.map_values(|r: RecentRepo| r.path@)
}

/// `paths` without `path`, in order.
pub open spec fn without(paths: Seq<Seq<char>>, path: Seq<char>) -> Seq<Seq<char>>
    decreases paths.len(),
{
    if paths.len() == 0 {
        Seq::empty()
    } else if paths.last() == path {
        without(paths.drop_last(), path)
    } else {
        without(paths.drop_last(), path).push(paths.last())
    }
}

/// The list after opening `path`: it moves to the front, any older entry
/// for it goes, and the list keeps at most `MAX_RECENT` entries.
pub open spec fn recorded(paths: Seq<Seq<char>>, path: Seq<char>) -> Seq<Seq<char>> {
    let moved = seq![path] + without(paths, path);
    if moved.len() > MAX_RECENT {
        moved.take(MAX_RECENT as int)
    } else {
        moved
    }
}

/// Records a repo open: moves it to the front and caps the list.
pub fn record_open(prefs: &mut Prefs, path: &str)
    ensures
        recent_paths(final(prefs).recent@) == recorded(recent_paths(old(prefs).recent@), path@),
{
    let mut recent: Vec<RecentRepo> = Vec::new();
    recent.push(RecentRepo { path: owned(path) });
    let ghost paths = recent_paths(prefs.recent@);
    let mut i: usize = 0;
    while i < prefs.recent.len()
        invariant
            i <= prefs.recent.len(),
            paths == recent_paths(prefs.recent@),
            1 <= recent.len() <= MAX_RECENT,
            recent.len() < MAX_RECENT ==> recent_paths(recent@) == seq![path@] + without(
                paths.take(i as int),
                path@,
            ),
            recent.len() == MAX_RECENT ==> recent_paths(recent@) == (seq![path@] + without(
                paths.take(i as int),
                path@,
            )).take(MAX_RECENT as int),
            (seq![path@] + without(paths.take(i as int), path@)).len() >= recent.len(),
        decreases prefs.recent.len() - i,
    {
        let ghost before = recent@;
        assert(paths.take(i + 1).drop_last() == paths.take(i as int));
        assert(paths.take(i + 1).last() == paths[i as int]);
        if !str_eq(prefs.recent[i].path.as_str(), path) && recent.len() < MAX_RECENT {
            recent.push(RecentRepo { path: owned(prefs.recent[i].path.as_str()) });
            assert(recent_paths(recent@) =~= recent_paths(before).push(paths[i as int]));
            assert((seq![path@] + without(paths.take(i + 1), path@)) =~= (seq![path@] + without(
                paths.take(i as int),
                path@,
            )).push(paths[i as int]));
        } else if !str_eq(prefs.recent[i].path.as_str(), path) {
            assert((seq![path@] + without(paths.take(i + 1), path@)) =~= (seq![path@] + without(
                paths.take(i as int),
                path@,
            )).push(paths[i as int]));
            assert((seq![path@] + without(paths.take(i + 1), path@)).take(MAX_RECENT as int) =~= (
            seq![path@] + without(paths.take(i as int), path@)).take(MAX_RECENT as int));
        }
        i = i + 1;
    }
    assert(paths.take(prefs.recent.len() as int) == paths);
    prefs.recent = recent;
}

proof fn lemma_without_excludes(paths: Seq<Seq<char>>, path: Seq<char>)
    ensures
        forall|k: int| 0 <= k < without(paths, path).len() ==> #[trigger] without(paths, path)[k] != path,
        without(paths, path).len() <= paths.len(),
        forall|k: int| 0 <= k < without(paths, path).len() ==> paths.contains(#[trigger] without(paths, path)[k]),
    decreases paths.len(),
{
    if paths.len() > 0 {
        lemma_without_excludes(paths.drop_last(), path);
        let w = without(paths.drop_last(), path);
        assert forall|k: int| 0 <= k < without(paths, path).len() implies paths.contains(
            #[trigger] without(paths, path)[k],
        ) by {
            if k < w.len() {
                let x = w[k];
                assert(paths.drop_last().contains(x));
                let j = choose|j: int| 0 <= j < paths.drop_last().len() && paths.drop_last()[j] == x;
                assert(paths[j] == x);
            } else {
                assert(paths[paths.len() - 1] == paths.last());
            }
        }
    }
}

proof fn lemma_without_unique(paths: Seq<Seq<char>>, path: Seq<char>)
    requires
        paths.no_duplicates(),
    ensures
        without(paths, path).no_duplicates(),
    decreases paths.len(),
{
    if paths.len() > 0 {
        let d = paths.drop_last();
        assert(d.no_duplicates()) by {
            assert forall|i: int, j: int| 0 <= i < d.len() && 0 <= j < d.len() && i != j implies d[i]
                != d[j] by {
                assert(d[i] == paths[i] && d[j] == paths[j]);
            }
        }
        lemma_without_unique(d, path);
        lemma_without_excludes(d, path);
        let w = without(d, path);
        if paths.last() != path {
            assert forall|k: int| 0 <= k < w.len() implies #[trigger] w[k] != paths.last() by {
                assert(d.contains(w[k]));
                let j = choose|j: int| 0 <= j < d.len() && d[j] == w[k];
                assert(paths[j] == d[j]);
                assert(j != paths.len() - 1);
            }
            let r = w.push(paths.last());
            assert forall|i: int, j: int| 0 <= i < r.len() && 0 <= j < r.len() && i != j implies r[i]
                != r[j] by {
                if i < w.len() && j < w.len() {
                } else if i < w.len() {
                    assert(r[j] == paths.last());
                } else {
                    assert(r[i] == paths.last());
                }
            }
        }
    }
}

proof fn lemma_without_len_drop(paths: Seq<Seq<char>>, path: Seq<char>)
    requires
        paths.no_duplicates(),
        paths.contains(path),
    ensures
        without(paths, path).len() == paths.len() - 1,
    decreases paths.len(),
{
    let d = paths.drop_last();
    if paths.last() == path {
        lemma_without_keeps_all(d, path);
        assert forall|k: int| 0 <= k < d.len() implies #[trigger] d[k] != path by {
            assert(d[k] == paths[k]);
            assert(k != paths.len() - 1);
        }
        lemma_without_keeps_all(d, path);
    } else {
        let j = choose|j: int| 0 <= j < paths.len() && paths[j] == path;
        assert(j < paths.len() - 1);
        assert(d[j] == path);
        assert(d.no_duplicates()) by {
            assert forall|a: int, b: int| 0 <= a < d.len() && 0 <= b < d.len() && a != b implies d[a]
                != d[b] by {
                assert(d[a] == paths[a] && d[b] == paths[b]);
            }
        }
        lemma_without_len_drop(d, path);
    }
}

proof fn lemma_without_keeps_all(paths: Seq<Seq<char>>, path: Seq<char>)
    ensures
        (forall|k: int| 0 <= k < paths.len() ==> #[trigger] paths[k] != path) ==> without(paths, path)
            == paths,
    decreases paths.len(),
{
    if paths.len() > 0 {
        lemma_without_keeps_all(paths.drop_last(), path);
        if forall|k: int| 0 <= k < paths.len() ==> #[trigger] paths[k] != path {
            assert(paths.last() == paths[paths.len() - 1]);
            assert forall|k: int| 0 <= k < paths.drop_last().len() implies #[trigger] paths.drop_last()[k]
                != path by {
                assert(paths.drop_last()[k] == paths[k]);
            }
            assert(paths.drop_last().push(paths.last()) == paths);
        }
    }
}

/// Law: after an open, the opened path comes first, no path appears
/// twice (given none did before), and the list never exceeds
/// `MAX_RECENT`.
pub proof fn lemma_record_open_shape(paths: Seq<Seq<char>>, path: Seq<char>)
    requires
        paths.no_duplicates(),
    ensures
        recorded(paths, path)[0] == path,
        recorded(paths, path).no_duplicates(),
        recorded(paths, path).len() <= MAX_RECENT,
        recorded(paths, path).len() >= 1,
{
    lemma_without_excludes(paths, path);
    lemma_without_unique(paths, path);
    let w = without(paths, path);
    let moved = seq![path] + w;
    assert(moved.no_duplicates()) by {
        assert forall|i: int, j: int| 0 <= i < moved.len() && 0 <= j < moved.len() && i != j implies moved[i]
            != moved[j] by {
            if i == 0 {
                assert(moved[j] == w[j - 1]);
            } else if j == 0 {
                assert(moved[i] == w[i - 1]);
            } else {
                assert(moved[i] == w[i - 1] && moved[j] == w[j - 1]);
            }
        }
    }
    if moved.len() > MAX_RECENT {
        let t = moved.take(MAX_RECENT as int);
        assert forall|i: int, j: int| 0 <= i < t.len() && 0 <= j < t.len() && i != j implies t[i] != t[j] by {
            assert(t[i] == moved[i] && t[j] == moved[j]);
        }
    }
}

/// Law: reopening a listed repo only reorders the list; it neither grows
/// nor drops an entry.
pub proof fn lemma_reopen_keeps_length(paths: Seq<Seq<char>>, path: Seq<char>)
    requires
        paths.no_duplicates(),
        paths.contains(path),
        paths.len() <= MAX_RECENT,
    ensures
        recorded(paths, path).len() == paths.len(),
{
    lemma_without_len_drop(paths, path);
}

/// What one prefs file gives: `None` when it is missing, defaults when it
/// is unreadable, blank or undecodable (`parsed` is the JSON decoding of
/// its text, when it decoded), else the decoded prefs.
pub fn read_prefs(text: &StoredText, parsed: Option<Prefs>) -> (prefs: Option<Prefs>)
    ensures
        (*text is Missing) ==> prefs is None,
        (*text is Unreadable) ==> (prefs matches Some(p) && p.recent@.len() == 0),
        (text matches StoredText::Text(t) && parsed is Some && crate::text::trim_seq(t@).len() > 0)
            ==> prefs == Some(parsed->0),
        (text matches StoredText::Text(t) && (parsed is None || crate::text::trim_seq(t@).len() == 0))
            ==> (prefs matches Some(p) && p.recent@.len() == 0),
{
    match text {
        StoredText::Missing => None,
        StoredText::Unreadable => Some(Prefs::new()),
        StoredText::Text(t) => {
            let v = chars_of(t.as_str());
            if trim_chars(&v).len() == 0 {
                return Some(Prefs::new());
            }
            match parsed {
                Some(p) => Some(p),
                None => Some(Prefs::new()),
            }
        },
    }
}

/// What one prefs file gives: `None` when it is missing, `Some(None)` for
/// defaults (unreadable, blank or undecodable), `Some(Some(p))` for the
/// decoded prefs.
pub open spec fn read_outcome(text: StoredText, parsed: Option<Prefs>) -> Option<Option<Prefs>> {
    match text {
        StoredText::Missing => None,
        StoredText::Unreadable => Some(None),
        StoredText::Text(t) => if crate::text::trim_seq(t@).len() > 0 && parsed is Some {
            Some(parsed)
        } else {
            Some(None)
        },
    }
}

/// Whether `prefs` is what a file read gave.
pub open spec fn gives(outcome: Option<Prefs>, prefs: Prefs) -> bool {
    match outcome {
        Some(p) => prefs == p,
        None => prefs.recent@.len() == 0,
    }
}

/// Whether `prefs` is what loading gives: `state.json` when it exists,
/// else the legacy file when it exists, else defaults.
pub open spec fn loads(
    state_text: StoredText,
    state_parsed: Option<Prefs>,
    legacy_text: StoredText,
    legacy_parsed: Option<Prefs>,
    prefs: Prefs,
) -> bool {
    (read_outcome(state_text, state_parsed) matches Some(o) && gives(o, prefs)) || (read_outcome(
        state_text,
        state_parsed,
    ) is None && ((read_outcome(legacy_text, legacy_parsed) matches Some(o) && gives(o, prefs)) || (
    read_outcome(legacy_text, legacy_parsed) is None && prefs.recent@.len() == 0)))
}

/// Loads state: prefers `state.json`, falls back to the legacy
/// `samokod-prefs.json` only while `state.json` is missing. Unknown old
/// keys are dropped by the decoding.
pub fn load_prefs(
    state_text: &StoredText,
    state_parsed: Option<Prefs>,
    legacy_text: &StoredText,
    legacy_parsed: Option<Prefs>,
) -> (prefs: Prefs)
    ensures
        loads(*state_text, state_parsed, *legacy_text, legacy_parsed, prefs),
{
    if let Some(p) = read_prefs(state_text, state_parsed) {
        return p;
    }
    if let Some(p) = read_prefs(legacy_text, legacy_parsed) {
        return p;
    }
    Prefs::new()
}

/// Law: saved prefs load back. When `state.json` holds non-blank text that
/// decodes to `saved`, loading gives exactly `saved`, whatever the legacy
/// file holds.
pub proof fn lemma_saved_prefs_load_back(
    text: String,
    saved: Prefs,
    legacy_text: StoredText,
    legacy_parsed: Option<Prefs>,
    loaded: Prefs,
)
    requires
        crate::text::trim_seq(text@).len() > 0,
        loads(StoredText::Text(text), Some(saved), legacy_text, legacy_parsed, loaded),
    ensures
        loaded == saved,
{
}

} // verus!
