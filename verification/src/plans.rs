//! Plan directory lifecycle under `.samokod/plans/`: phases, the
//! transitions between them, and plan naming (slugs, titles, collision-proof
//! names). The filesystem moves themselves happen at the application edge;
//! this module decides what each transition yields.
use vstd::prelude::*;

use crate::paths::{join_path, join_seq};
use crate::text::{decimal, decimal_chars, lemma_decimal_injective, alphanumeric, is_ascii_seq, chars_of, concat2, extend_chars, is_alphanumeric, lowercase, owned, slice_chars, string_of, to_lowercase, trim_bounds, trim_seq};
use crate::types::SessionRole;

verus! {

/// Lifecycle phase. One directory per phase under `.samokod/plans/`.
#[derive(Debug, Clone, Copy, PartialEq, Eq, Hash, Structural)]
pub enum Phase {
    Scoping,
    Executing,
    Merging,
    Completed,
    Cancelled,
}

/// Directory name of a phase.
pub open spec fn phase_dir_name(phase: Phase) -> Seq<char> {
    match phase {
        Phase::Scoping => "scoping"@,
        Phase::Executing => "executing"@,
        Phase::Merging => "merging"@,
        Phase::Completed => "completed"@,
        Phase::Cancelled => "cancelled"@,
    }
}

/// Phases with a live chat.
pub open spec fn phase_is_active(phase: Phase) -> bool {
    phase == Phase::Scoping || phase == Phase::Executing || phase == Phase::Merging
}

/// Sort rank: scoping, executing, merging, completed, cancelled.
pub open spec fn phase_rank_of(phase: Phase) -> u8 {
    match phase {
        Phase::Scoping => 0,
        Phase::Executing => 1,
        Phase::Merging => 2,
        Phase::Completed => 3,
        Phase::Cancelled => 4,
    }
}

impl Phase {
    pub fn dir_name(self) -> (name: &'static str)
        ensures
            name@ == phase_dir_name(self),
    {
        match self {
            Phase::Scoping => "scoping",
            Phase::Executing => "executing",
            Phase::Merging => "merging",
            Phase::Completed => "completed",
            Phase::Cancelled => "cancelled",
        }
    }

    /// Phases with a live chat. Only these auto-abandon on chat switch.
    pub fn is_active(self) -> (active: bool)
        ensures
            active == phase_is_active(self),
    {
        match self {
            Phase::Scoping | Phase::Executing | Phase::Merging => true,
            _ => false,
        }
    }
}

/// Sort rank for the plans list: scoping, executing, merging, completed,
/// cancelled.
pub fn phase_rank(phase: Phase) -> (rank: u8)
    ensures
        rank == phase_rank_of(phase),
{
    match phase {
        Phase::Scoping => 0,
        Phase::Executing => 1,
        Phase::Merging => 2,
        Phase::Completed => 3,
        Phase::Cancelled => 4,
    }
}

/// A plan directory inside a phase. `name` starts with the creation
/// timestamp and gains a slug on execute.
#[derive(Debug, Clone, PartialEq, Eq)]
pub struct PlanRef {
    pub name: String,
    pub phase: Phase,
}

/// `<repo>/.samokod`.
pub open spec fn samokod_dir_of(repo_root: Seq<char>) -> Seq<char> {
    join_seq(repo_root, ".samokod"@)
}

/// `<repo>/.samokod/plans`.
pub open spec fn plans_root_of(repo_root: Seq<char>) -> Seq<char> {
    join_seq(samokod_dir_of(repo_root), "plans"@)
}

/// `<repo>/.samokod/plans/<phase>`.
pub open spec fn phase_dir_of(repo_root: Seq<char>, phase: Phase) -> Seq<char> {
    join_seq(plans_root_of(repo_root), phase_dir_name(phase))
}

/// `<repo>/.samokod/plans/<phase>/<name>`.
pub open spec fn plan_path_of(repo_root: Seq<char>, name: Seq<char>, phase: Phase) -> Seq<char> {
    join_seq(phase_dir_of(repo_root, phase), name)
}

/// Repo-relative edit scope of a plan directory.
pub open spec fn scope_glob_of(name: Seq<char>, phase: Phase) -> Seq<char> {
    ".samokod/plans/"@ + phase_dir_name(phase) + "/"@ + name + "/**"@
}

impl PlanRef {
    /// Repo-relative edit scope for one plan dir, as OpenCode's `edit`
    /// tool sees it.
    pub fn scope_glob(&self) -> (glob: String)
        ensures
            glob@ == scope_glob_of(self.name@, self.phase),
    {
        let mut v = chars_of(".samokod/plans/");
        extend_chars(&mut v, self.phase.dir_name());
        extend_chars(&mut v, "/");
        extend_chars(&mut v, self.name.as_str());
        extend_chars(&mut v, "/**");
        string_of(&v)
    }

    pub fn path(&self, repo_root: &str) -> (path: String)
        ensures
            path@ == plan_path_of(repo_root@, self.name@, self.phase),
    {
        let dir = phase_dir(repo_root, self.phase);
        join_path(dir.as_str(), self.name.as_str())
    }

    pub fn plan_md(&self, repo_root: &str) -> (path: String)
        ensures
            path@ == join_seq(plan_path_of(repo_root@, self.name@, self.phase), "plan.md"@),
    {
        let dir = self.path(repo_root);
        join_path(dir.as_str(), "plan.md")
    }
}

pub fn samokod_dir(repo_root: &str) -> (dir: String)
    ensures
        dir@ == samokod_dir_of(repo_root@),
{
    join_path(repo_root, ".samokod")
}

pub fn plans_root(repo_root: &str) -> (dir: String)
    ensures
        dir@ == plans_root_of(repo_root@),
{
    let base = samokod_dir(repo_root);
    join_path(base.as_str(), "plans")
}

pub fn phase_dir(repo_root: &str, phase: Phase) -> (dir: String)
    ensures
        dir@ == phase_dir_of(repo_root@, phase),
{
    let base = plans_root(repo_root);
    join_path(base.as_str(), phase.dir_name())
}

/// The five phase directories, in lifecycle order, that a repository's
/// plan storage holds; the self-ignoring `.gitignore` sits in
/// `samokod_dir`.
pub fn structure_dirs(repo_root: &str) -> (dirs: Vec<String>)
    ensures
        dirs@.len() == 5,
        dirs@[0]@ == phase_dir_of(repo_root@, Phase::Scoping),
        dirs@[1]@ == phase_dir_of(repo_root@, Phase::Executing),
        dirs@[2]@ == phase_dir_of(repo_root@, Phase::Merging),
        dirs@[3]@ == phase_dir_of(repo_root@, Phase::Completed),
        dirs@[4]@ == phase_dir_of(repo_root@, Phase::Cancelled),
{
    let mut dirs: Vec<String> = Vec::new();
    dirs.push(phase_dir(repo_root, Phase::Scoping));
    dirs.push(phase_dir(repo_root, Phase::Executing));
    dirs.push(phase_dir(repo_root, Phase::Merging));
    dirs.push(phase_dir(repo_root, Phase::Completed));
    dirs.push(phase_dir(repo_root, Phase::Cancelled));
    dirs
}

/// What `.samokod/.gitignore` holds: the whole directory is ignored.
pub const GITIGNORE_TEXT: &'static str = "*\n";

/// Marker left inside a plan directory once its scoping chat was approved;
/// it travels with the directory, so a rescan still knows the plan owns an
/// execution session.
pub const EXECUTED_MARKER: &'static str = ".executed";

/// Marker left once a diverged plan entered merging; it travels with the
/// directory, so finished plans still know they own a merging session.
pub const MERGING_MARKER: &'static str = ".merging";

/// `<repo>/.samokod/.gitignore`.
pub fn gitignore_path(repo_root: &str) -> (path: String)
    ensures
        path@ == join_seq(samokod_dir_of(repo_root@), ".gitignore"@),
{
    let dir = samokod_dir(repo_root);
    join_path(dir.as_str(), ".gitignore")
}

/// A marker file inside a plan directory.
pub fn marker_path(plan: &PlanRef, repo_root: &str, marker: &str) -> (path: String)
    ensures
        path@ == join_seq(plan_path_of(repo_root@, plan.name@, plan.phase), marker@),
{
    let dir = plan.path(repo_root);
    join_path(dir.as_str(), marker)
}

/// The scoping plan a pending name becomes once its directory exists.
pub fn materialize_scoping(name: &str) -> (plan: PlanRef)
    ensures
        plan.name@ == name@,
        plan.phase == Phase::Scoping,
{
    PlanRef { name: owned(name), phase: Phase::Scoping }
}

/// Why a plan transition was refused.
#[derive(Debug, Clone, PartialEq, Eq)]
pub enum PlanError {
    /// `plan.md` has no top heading to name the plan.
    Untitled,
    /// The plan sits in another phase than the transition needs.
    WrongPhase { expected: String, actual: String },
    /// The plan storage could not be read or moved.
    Io(String),
}

/// The message a plan error renders as.
pub open spec fn plan_error_message(error: PlanError) -> Seq<char> {
    match error {
        PlanError::Untitled => "plan.md has no top heading to name the plan"@,
        PlanError::WrongPhase { expected, actual } => "plan is not "@ + expected@ + ", it is "@
            + actual@,
        PlanError::Io(raw) => "plan storage failed: "@ + raw@,
    }
}

impl PlanError {
    pub fn to_string(&self) -> (message: String)
        ensures
            message@ == plan_error_message(*self),
    {
        match self {
            PlanError::Untitled => owned("plan.md has no top heading to name the plan"),
            PlanError::WrongPhase { expected, actual } => {
                let mut v = chars_of("plan is not ");
                extend_chars(&mut v, expected.as_str());
                extend_chars(&mut v, ", it is ");
                extend_chars(&mut v, actual.as_str());
                string_of(&v)
            },
            PlanError::Io(raw) => concat2("plan storage failed: ", raw.as_str()),
        }
    }
}

/// The error a transition expecting `expected` reports for a plan in
/// `actual`.
pub open spec fn is_wrong_phase(error: PlanError, expected: Seq<char>, actual: Phase) -> bool {
    error matches PlanError::WrongPhase { expected: e, actual: a } && e@ == expected && a@
        == phase_dir_name(actual)
}

/// Refuses a plan outside the expected phase.
pub fn require_phase(plan: &PlanRef, expected: Phase) -> (r: Result<(), PlanError>)
    ensures
        r is Ok <==> plan.phase == expected,
        r matches Err(error) ==> is_wrong_phase(error, phase_dir_name(expected), plan.phase),
{
    if plan.phase != expected {
        return Err(
            PlanError::WrongPhase {
                expected: owned(expected.dir_name()),
                actual: owned(plan.phase.dir_name()),
            },
        );
    }
    Ok(())
}

// ---------------------------------------------------------------------------
// Titles: first markdown heading of `plan.md`.
// ---------------------------------------------------------------------------

/// Index of the first `'\n'` at or after `i`, or `s.len()`.
pub open spec fn line_end(s: Seq<char>, i: int) -> int
    decreases s.len() - i,
{
    if i >= s.len() || s[i] == '\n' {
        i
    } else {
        line_end(s, i + 1)
    }
}

/// One line as `str::lines` yields it: the `'\r'` of a `"\r\n"` ending is
/// dropped.
pub open spec fn line_text(s: Seq<char>, start: int, end: int) -> Seq<char> {
    if end < s.len() && end > start && s[end - 1] == '\r' {
        s.subrange(start, end - 1)
    } else {
        s.subrange(start, end)
    }
}

/// Number of leading `'#'` characters from `i` on.
pub open spec fn hash_run(s: Seq<char>, i: int) -> int
    decreases s.len() - i,
{
    if i >= s.len() || s[i] != '#' {
        0
    } else {
        1 + hash_run(s, i + 1)
    }
}

/// Title of one line: the trimmed line must start with one to six `'#'`,
/// then a space or tab, then a non-blank title, which is returned trimmed.
pub open spec fn heading_title(line: Seq<char>) -> Option<Seq<char>> {
    let t = trim_seq(line);
    let hashes = hash_run(t, 0);
    if hashes == 0 || hashes > 6 {
        None
    } else if hashes >= t.len() || !(t[hashes] == ' ' || t[hashes] == '\t') {
        None
    } else {
        let title = trim_seq(t.skip(hashes + 1));
        if title.len() == 0 {
            None
        } else {
            Some(title)
        }
    }
}

/// First heading title among the lines starting at `start`.
pub open spec fn first_title_from(s: Seq<char>, start: int) -> Option<Seq<char>>
    decreases s.len() - start,
{
    if start >= s.len() {
        None
    } else {
        let end = line_end(s, start);
        match heading_title(line_text(s, start, end)) {
            Some(title) => Some(title),
            None => if end < s.len() && end >= start {
                first_title_from(s, end + 1)
            } else {
                None
            },
        }
    }
}

/// First markdown heading of a whole text.
pub open spec fn title_of(text: Seq<char>) -> Option<Seq<char>> {
    first_title_from(text, 0)
}

proof fn lemma_line_end_bounds(s: Seq<char>, i: int)
    requires
        0 <= i <= s.len(),
    ensures
        i <= line_end(s, i) <= s.len(),
        line_end(s, i) < s.len() ==> s[line_end(s, i)] == '\n',
    decreases s.len() - i,
{
    if i < s.len() && s[i] != '\n' {
        lemma_line_end_bounds(s, i + 1);
    }
}

proof fn lemma_hash_run_bounds(s: Seq<char>, i: int)
    requires
        0 <= i <= s.len(),
    ensures
        0 <= hash_run(s, i) <= s.len() - i,
        forall|k: int| i <= k < i + hash_run(s, i) ==> s[k] == '#',
        i + hash_run(s, i) < s.len() ==> s[i + hash_run(s, i)] != '#',
    decreases s.len() - i,
{
    if i < s.len() && s[i] == '#' {
        lemma_hash_run_bounds(s, i + 1);
    }
}

/// Title of one line given as characters `[start, end)` of `v`.
fn heading_title_exec(v: &Vec<char>, start: usize, end: usize) -> (title: Option<Vec<char>>)
    requires
        start <= end <= v.len(),
    ensures
        title matches Some(t) ==> heading_title(line_text(v@, start as int, end as int)) == Some(
            t@,
        ),
        title is None ==> heading_title(line_text(v@, start as int, end as int)) is None,
{
    let stop = if end < v.len() && end > start && v[end - 1] == '\r' {
        end - 1
    } else {
        end
    };
    let ghost line = v@.subrange(start as int, stop as int);
    assert(line == line_text(v@, start as int, end as int));
    let (a, b) = trim_bounds(v, start, stop);
    let ghost t = v@.subrange(a as int, b as int);
    assert(t == trim_seq(line));
    let mut h: usize = a;
    proof {
        lemma_hash_run_bounds(t, 0);
    }
    while h < b && v[h] == '#'
        invariant
            a <= h <= b <= v.len(),
            t == v@.subrange(a as int, b as int),
            hash_run(t, 0) == (h - a) + hash_run(t, h - a),
            forall|k: int| a <= k < h ==> v@[k] == '#',
        decreases b - h,
    {
        proof {
            assert(t[h - a] == v@[h as int]);
        }
        h = h + 1;
    }
    proof {
        if h < b {
            assert(t[h - a] == v@[h as int]);
        }
        assert(hash_run(t, h - a) == 0);
    }
    let hashes = h - a;
    if hashes == 0 || hashes > 6 {
        return None;
    }
    if hashes >= b - a || !(v[h] == ' ' || v[h] == '\t') {
        proof {
            if hashes < b - a {
                assert(t[hashes as int] == v@[h as int]);
            }
        }
        return None;
    }
    assert(t[hashes as int] == v@[h as int]);
    let (c, d) = trim_bounds(v, h + 1, b);
    assert(v@.subrange(h + 1, b as int) == t.skip(hashes + 1));
    if c == d {
        return None;
    }
    Some(slice_chars(v, c, d))
}

/// First markdown heading: first line whose trimmed text starts with one
/// to six `#` plus a space or tab and carries a non-blank title.
pub fn extract_title(plan_md: &str) -> (title: Option<String>)
    ensures
        title matches Some(t) ==> title_of(plan_md@) == Some(t@),
        title is None ==> title_of(plan_md@) is None,
{
    let v = chars_of(plan_md);
    let mut start: usize = 0;
    while start < v.len()
        invariant
            start <= v.len(),
            v@ == plan_md@,
            title_of(v@) == first_title_from(v@, start as int),
        decreases v.len() - start,
    {
        let mut end: usize = start;
        while end < v.len() && v[end] != '\n'
            invariant
                start <= end <= v.len(),
                line_end(v@, start as int) == line_end(v@, end as int),
            decreases v.len() - end,
        {
            end = end + 1;
        }
        if let Some(t) = heading_title_exec(&v, start, end) {
            return Some(string_of(&t));
        }
        if end >= v.len() {
            return None;
        }
        start = end + 1;
    }
    None
}

// ---------------------------------------------------------------------------
// Slugs.
// ---------------------------------------------------------------------------

/// The slug loop over lowercase characters: alphanumerics are kept, and a
/// run of anything else becomes one hyphen once the slug is non-empty. The
/// flag records whether the slug ends with such a hyphen.
pub open spec fn slug_state(lower: Seq<char>) -> (Seq<char>, bool)
    decreases lower.len(),
{
    if lower.len() == 0 {
        (Seq::<char>::empty(), false)
    } else {
        let (slug, dash) = slug_state(lower.drop_last());
        let ch = lower.last();
        if alphanumeric(ch) {
            (slug.push(ch), false)
        } else if !dash && slug.len() > 0 {
            (slug.push('-'), true)
        } else {
            (slug, dash)
        }
    }
}

/// Index of the first character from `i` on that is not `'-'`.
pub open spec fn dash_start(s: Seq<char>, i: int) -> int
    decreases s.len() - i,
{
    if i >= s.len() || s[i] != '-' {
        i
    } else {
        dash_start(s, i + 1)
    }
}

/// One past the last character of `s[lo..j]` that is not `'-'`.
pub open spec fn dash_end(s: Seq<char>, lo: int, j: int) -> int
    decreases j - lo,
{
    if j <= lo || s[j - 1] != '-' {
        j
    } else {
        dash_end(s, lo, j - 1)
    }
}

/// `str::trim_matches('-')`.
pub open spec fn trim_dashes(s: Seq<char>) -> Seq<char> {
    let lo = dash_start(s, 0);
    s.subrange(lo, dash_end(s, lo, s.len() as int))
}

/// Slug of lowercased text: join alphanumeric runs with single hyphens,
/// trim hyphens, keep at most 60 characters.
pub open spec fn slug_from_lowered(lower: Seq<char>) -> Seq<char> {
    let trimmed = trim_dashes(slug_state(lower).0);
    if trimmed.len() <= 60 {
        trimmed
    } else {
        trimmed.take(60)
    }
}

/// Slug of a title: the slug of its lowercase.
pub open spec fn slug_of(title: Seq<char>) -> Seq<char> {
    slug_from_lowered(lowercase(title))
}

proof fn lemma_dash_start_bounds(s: Seq<char>, i: int)
    requires
        0 <= i <= s.len(),
    ensures
        i <= dash_start(s, i) <= s.len(),
        dash_start(s, i) < s.len() ==> s[dash_start(s, i)] != '-',
    decreases s.len() - i,
{
    if i < s.len() && s[i] == '-' {
        lemma_dash_start_bounds(s, i + 1);
    }
}

proof fn lemma_dash_end_bounds(s: Seq<char>, lo: int, j: int)
    requires
        0 <= lo <= j <= s.len(),
    ensures
        lo <= dash_end(s, lo, j) <= j,
        dash_end(s, lo, j) > lo ==> s[dash_end(s, lo, j) - 1] != '-',
    decreases j - lo,
{
    if j > lo && s[j - 1] == '-' {
        lemma_dash_end_bounds(s, lo, j - 1);
    }
}

/// Lowercase slug: runs of alphanumerics joined by single hyphens,
/// capped at 60 chars.
pub fn slugify(title: &str) -> (slug: String)
    ensures
        slug@ == slug_of(title@),
{
    let lowered = to_lowercase(title);
    slug_of_lowered(lowered.as_str())
}

/// The slug of already lowercased text (what `slugify` does after
/// lowercasing).
pub fn slug_of_lowered(lowered: &str) -> (slug: String)
    ensures
        slug@ == slug_from_lowered(lowered@),
{
    let lower = chars_of(lowered);
    let mut slug: Vec<char> = Vec::new();
    let mut dash = false;
    let mut i: usize = 0;
    while i < lower.len()
        invariant
            i <= lower.len(),
            lower@ == lowered@,
            (slug@, dash) == slug_state(lower@.take(i as int)),
        decreases lower.len() - i,
    {
        let ch = lower[i];
        assert(lower@.take(i + 1).drop_last() == lower@.take(i as int));
        if is_alphanumeric(ch) {
            slug.push(ch);
            dash = false;
        } else if !dash && slug.len() > 0 {
            slug.push('-');
            dash = true;
        }
        i = i + 1;
    }
    assert(lower@.take(lower.len() as int) == lower@);
    let ghost raw = slug@;
    let mut lo: usize = 0;
    while lo < slug.len() && slug[lo] == '-'
        invariant
            lo <= slug.len(),
            raw == slug@,
            dash_start(raw, 0) == dash_start(raw, lo as int),
        decreases slug.len() - lo,
    {
        lo = lo + 1;
    }
    let mut hi: usize = slug.len();
    while hi > lo && slug[hi - 1] == '-'
        invariant
            lo <= hi <= slug.len(),
            raw == slug@,
            dash_start(raw, 0) == lo,
            dash_end(raw, lo as int, raw.len() as int) == dash_end(raw, lo as int, hi as int),
        decreases hi - lo,
    {
        hi = hi - 1;
    }
    let stop = if hi - lo <= 60 {
        hi
    } else {
        lo + 60
    };
    let out = slice_chars(&slug, lo, stop);
    assert(out@ == slug_from_lowered(lowered@)) by {
        let trimmed = raw.subrange(lo as int, hi as int);
        assert(trimmed == trim_dashes(raw));
        if trimmed.len() > 60 {
            assert(trimmed.take(60) == raw.subrange(lo as int, lo + 60));
        }
    }
    string_of(&out)
}

proof fn lemma_slug_state_shape(lower: Seq<char>)
    ensures
        ({
            let (slug, dash) = slug_state(lower);
            &&& forall|k: int|
                0 <= k < slug.len() ==> alphanumeric(#[trigger] slug[k]) || slug[k] == '-'
            &&& forall|k: int|
                0 <= k < slug.len() - 1 ==> !(#[trigger] slug[k] == '-' && slug[k + 1] == '-')
            &&& slug.len() > 0 ==> slug[0] != '-'
            &&& dash == (slug.len() > 0 && slug.last() == '-')
        }),
    decreases lower.len(),
{
    assert(!alphanumeric('-'));
    if lower.len() > 0 {
        lemma_slug_state_shape(lower.drop_last());
        let (slug, dash) = slug_state(lower.drop_last());
        let ch = lower.last();
        if alphanumeric(ch) {
            let s2 = slug.push(ch);
            assert forall|k: int| 0 <= k < s2.len() - 1 implies !(#[trigger] s2[k] == '-' && s2[k
                + 1] == '-') by {
                if k < slug.len() - 1 {
                    assert(s2[k] == slug[k] && s2[k + 1] == slug[k + 1]);
                }
            }
            assert forall|k: int| 0 <= k < s2.len() implies alphanumeric(#[trigger] s2[k]) || s2[k]
                == '-' by {
                if k < slug.len() {
                    assert(s2[k] == slug[k]);
                }
            }
        } else if !dash && slug.len() > 0 {
            let s2 = slug.push('-');
            assert forall|k: int| 0 <= k < s2.len() - 1 implies !(#[trigger] s2[k] == '-' && s2[k
                + 1] == '-') by {
                if k < slug.len() - 1 {
                    assert(s2[k] == slug[k] && s2[k + 1] == slug[k + 1]);
                }
            }
            assert forall|k: int| 0 <= k < s2.len() implies alphanumeric(#[trigger] s2[k]) || s2[k]
                == '-' by {
                if k < slug.len() {
                    assert(s2[k] == slug[k]);
                }
            }
        }
    }
}

/// Law: a slug holds only alphanumerics and hyphens, never starts with a
/// hyphen, never holds two hyphens in a row, and has at most 60
/// characters.
pub proof fn lemma_slug_shape(title: Seq<char>)
    ensures
        slug_of(title).len() <= 60,
        forall|k: int|
            0 <= k < slug_of(title).len() ==> alphanumeric(#[trigger] slug_of(title)[k])
                || slug_of(title)[k] == '-',
        forall|k: int|
            0 <= k < slug_of(title).len() - 1 ==> !(#[trigger] slug_of(title)[k] == '-'
                && slug_of(title)[k + 1] == '-'),
        slug_of(title).len() > 0 ==> slug_of(title)[0] != '-',
{
    let raw = slug_state(lowercase(title)).0;
    lemma_slug_state_shape(lowercase(title));
    let lo = dash_start(raw, 0);
    lemma_dash_start_bounds(raw, 0);
    let hi = dash_end(raw, lo, raw.len() as int);
    lemma_dash_end_bounds(raw, lo, raw.len() as int);
    let trimmed = raw.subrange(lo, hi);
    let out = slug_of(title);
    assert(trimmed == trim_dashes(raw));
    let n = out.len();
    assert(forall|k: int| 0 <= k < n ==> out[k] == raw[lo + k]);
    assert forall|k: int| 0 <= k < n - 1 implies !(#[trigger] out[k] == '-' && out[k + 1]
        == '-') by {
        assert(out[k] == raw[lo + k] && out[k + 1] == raw[lo + k + 1]);
    }
    assert forall|k: int| 0 <= k < n implies alphanumeric(#[trigger] out[k]) || out[k] == '-' by {
        assert(out[k] == raw[lo + k]);
    }
}

// ---------------------------------------------------------------------------
// Timestamp names.
// ---------------------------------------------------------------------------

/// The ASCII digit for `d` in `0..10`.
pub open spec fn digit_of(d: int) -> char {
    if d == 0 {
        '0'
    } else if d == 1 {
        '1'
    } else if d == 2 {
        '2'
    } else if d == 3 {
        '3'
    } else if d == 4 {
        '4'
    } else if d == 5 {
        '5'
    } else if d == 6 {
        '6'
    } else if d == 7 {
        '7'
    } else if d == 8 {
        '8'
    } else {
        '9'
    }
}

/// The last `width` decimal digits of `n`, zero-padded.
pub open spec fn padded(n: nat, width: nat) -> Seq<char>
    decreases width,
{
    if width == 0 {
        Seq::empty()
    } else {
        padded(n / 10, (width - 1) as nat).push(digit_of((n % 10) as int))
    }
}

/// The base name of a plan created at a local date and time:
/// `YYYY-MM-DD.HH-MM-SS`.
pub open spec fn timestamp_of(year: nat, month: nat, day: nat, hour: nat, minute: nat, second: nat) -> Seq<char> {
    padded(year, 4) + "-"@ + padded(month, 2) + "-"@ + padded(day, 2) + "."@ + padded(hour, 2) + "-"@
        + padded(minute, 2) + "-"@ + padded(second, 2)
}

proof fn lemma_padded_shape(n: nat, width: nat)
    ensures
        padded(n, width).len() == width,
        is_ascii_seq(padded(n, width)),
    decreases width,
{
    if width > 0 {
        lemma_padded_shape(n / 10, (width - 1) as nat);
    }
}

fn digit(d: u32) -> (c: char)
    requires
        d < 10,
    ensures
        c == digit_of(d as int),
{
    if d == 0 {
        '0'
    } else if d == 1 {
        '1'
    } else if d == 2 {
        '2'
    } else if d == 3 {
        '3'
    } else if d == 4 {
        '4'
    } else if d == 5 {
        '5'
    } else if d == 6 {
        '6'
    } else if d == 7 {
        '7'
    } else if d == 8 {
        '8'
    } else {
        '9'
    }
}

fn push_padded(out: &mut Vec<char>, n: u32, width: u32)
    ensures
        final(out)@ == old(out)@ + padded(n as nat, width as nat),
    decreases width,
{
    if width > 0 {
        push_padded(out, n / 10, width - 1);
        out.push(digit(n % 10));
    } else {
        assert(old(out)@ + padded(n as nat, 0) =~= old(out)@);
    }
}

/// The base name of a plan created at a local date and time, such as
/// `2026-09-25.10-54-59`: a four-digit year, then two-digit month, day,
/// hour, minute and second. It is 19 ASCII characters long.
pub fn timestamp_name(year: u16, month: u8, day: u8, hour: u8, minute: u8, second: u8) -> (name: String)
    requires
        year <= 9999,
        month < 100,
        day < 100,
        hour < 100,
        minute < 100,
        second < 100,
    ensures
        name@ == timestamp_of(year as nat, month as nat, day as nat, hour as nat, minute as nat, second as nat),
        name@.len() == 19,
        is_ascii_seq(name@),
{
    let mut v: Vec<char> = Vec::new();
    push_padded(&mut v, year as u32, 4);
    v.push('-');
    push_padded(&mut v, month as u32, 2);
    v.push('-');
    push_padded(&mut v, day as u32, 2);
    v.push('.');
    push_padded(&mut v, hour as u32, 2);
    v.push('-');
    push_padded(&mut v, minute as u32, 2);
    v.push('-');
    push_padded(&mut v, second as u32, 2);
    proof {
        reveal_strlit("-");
        reveal_strlit(".");
        lemma_padded_shape(year as nat, 4);
        lemma_padded_shape(month as nat, 2);
        lemma_padded_shape(day as nat, 2);
        lemma_padded_shape(hour as nat, 2);
        lemma_padded_shape(minute as nat, 2);
        lemma_padded_shape(second as nat, 2);
        assert(v@ =~= timestamp_of(year as nat, month as nat, day as nat, hour as nat, minute as nat, second as nat));
    }
    string_of(&v)
}

// ---------------------------------------------------------------------------
// Transitions.
// ---------------------------------------------------------------------------

/// Name of an executed scoping plan: its name, a dot, and the slug of its
/// title.
pub open spec fn executed_name(name: Seq<char>, title: Seq<char>) -> Seq<char> {
    name + "."@ + slug_of(title)
}

/// The plan a slug-bearing rename yields.
fn slugged(plan: &PlanRef, title: &str) -> (name: String)
    ensures
        name@ == executed_name(plan.name@, title@),
{
    let slug = slugify(title);
    let mut v = chars_of(plan.name.as_str());
    extend_chars(&mut v, ".");
    extend_chars(&mut v, slug.as_str());
    string_of(&v)
}

/// Approve a scoping plan: slugify the first heading of its `plan.md`
/// text and move it to executing. Fails on another phase or without a
/// heading.
pub fn execute(plan: &PlanRef, plan_md: &str) -> (next: Result<PlanRef, PlanError>)
    ensures
        plan.phase != Phase::Scoping ==> (next matches Err(error) && is_wrong_phase(
            error,
            "scoping"@,
            plan.phase,
        )),
        plan.phase == Phase::Scoping && title_of(plan_md@) is None ==> next == Err::<
            PlanRef,
            PlanError,
        >(PlanError::Untitled),
        plan.phase == Phase::Scoping && title_of(plan_md@) is Some ==> (next matches Ok(n) && n.phase
            == Phase::Executing && n.name@ == executed_name(
            plan.name@,
            title_of(plan_md@)->0,
        )),
{
    require_phase(plan, Phase::Scoping)?;
    match extract_title(plan_md) {
        None => Err(PlanError::Untitled),
        Some(title) => Ok(PlanRef { name: slugged(plan, title.as_str()), phase: Phase::Executing }),
    }
}

/// A name-keeping move from `from` to `to`.
fn move_phase(plan: &PlanRef, from: Phase, to: Phase) -> (next: Result<PlanRef, PlanError>)
    ensures
        plan.phase == from ==> (next matches Ok(n) && n.name@ == plan.name@ && n.phase == to),
        plan.phase != from ==> (next matches Err(error) && is_wrong_phase(
            error,
            phase_dir_name(from),
            plan.phase,
        )),
{
    require_phase(plan, from)?;
    Ok(PlanRef { name: plan.name.clone(), phase: to })
}

/// Finish an executing plan. Name travels unchanged.
pub fn complete(plan: &PlanRef) -> (next: Result<PlanRef, PlanError>)
    ensures
        plan.phase == Phase::Executing ==> (next matches Ok(n) && n.name@ == plan.name@ && n.phase
            == Phase::Completed),
        plan.phase != Phase::Executing ==> (next matches Err(error) && is_wrong_phase(
            error,
            "executing"@,
            plan.phase,
        )),
{
    move_phase(plan, Phase::Executing, Phase::Completed)
}

/// Move a diverged executing plan to merging without renaming.
pub fn begin_merge(plan: &PlanRef) -> (next: Result<PlanRef, PlanError>)
    ensures
        plan.phase == Phase::Executing ==> (next matches Ok(n) && n.name@ == plan.name@ && n.phase
            == Phase::Merging),
        plan.phase != Phase::Executing ==> (next matches Err(error) && is_wrong_phase(
            error,
            "executing"@,
            plan.phase,
        )),
{
    move_phase(plan, Phase::Executing, Phase::Merging)
}

/// Finish a rebased merging plan. Name travels unchanged.
pub fn finish_merge(plan: &PlanRef) -> (next: Result<PlanRef, PlanError>)
    ensures
        plan.phase == Phase::Merging ==> (next matches Ok(n) && n.name@ == plan.name@ && n.phase
            == Phase::Completed),
        plan.phase != Phase::Merging ==> (next matches Err(error) && is_wrong_phase(
            error,
            "merging"@,
            plan.phase,
        )),
{
    move_phase(plan, Phase::Merging, Phase::Completed)
}

/// Name a dropped plan takes: a scoping plan whose `plan.md` text (when
/// readable) has a heading gains its slug; anything else keeps its name.
pub open spec fn abandoned_name(plan: PlanRef, plan_md: Option<Seq<char>>) -> Seq<char> {
    if plan.phase == Phase::Scoping && plan_md is Some && title_of(plan_md->0) is Some {
        executed_name(plan.name@, title_of(plan_md->0)->0)
    } else {
        plan.name@
    }
}

/// Law: abandoning keeps a plan's name, except that a scoping plan whose
/// `plan.md` has a heading gains a dot and that heading's slug; an
/// executing or merging plan keeps its name whatever `plan.md` says.
pub proof fn lemma_abandoned_names(plan: PlanRef, plan_md: Option<Seq<char>>)
    ensures
        plan.phase != Phase::Scoping ==> abandoned_name(plan, plan_md) == plan.name@,
        plan_md is None ==> abandoned_name(plan, plan_md) == plan.name@,
        plan.phase == Phase::Scoping && plan_md is Some && title_of(plan_md->0) is Some
            ==> abandoned_name(plan, plan_md) == plan.name@ + "."@ + slug_of(title_of(plan_md->0)->0),
        abandoned_name(plan, plan_md).take(plan.name@.len() as int) == plan.name@,
{
    if plan.phase == Phase::Scoping && plan_md is Some && title_of(plan_md->0) is Some {
        let t = title_of(plan_md->0)->0;
        assert((plan.name@ + "."@ + slug_of(t)).take(plan.name@.len() as int) =~= plan.name@);
    }
    assert(plan.name@.take(plan.name@.len() as int) =~= plan.name@);
}

/// Drop an active plan into cancelled. `plan_md` is the text of its
/// `plan.md` when it could be read.
pub fn abandon(plan: &PlanRef, plan_md: Option<&str>) -> (next: Result<PlanRef, PlanError>)
    ensures
        !phase_is_active(plan.phase) ==> (next matches Err(error) && is_wrong_phase(
            error,
            "an active plan"@,
            plan.phase,
        )),
        phase_is_active(plan.phase) ==> (next matches Ok(n) && n.phase == Phase::Cancelled
            && n.name@ == abandoned_name(
            *plan,
            match plan_md {
                Some(text) => Some(text@),
                None => None,
            },
        )),
        phase_is_active(plan.phase) && plan.phase != Phase::Scoping ==> (next matches Ok(n)
            && n.phase == Phase::Cancelled && n.name@ == plan.name@),
{
    if !plan.phase.is_active() {
        return Err(
            PlanError::WrongPhase {
                expected: owned("an active plan"),
                actual: owned(plan.phase.dir_name()),
            },
        );
    }
    let name = match plan.phase {
        Phase::Scoping => slugged_name(plan, plan_md),
        _ => plan.name.clone(),
    };
    Ok(PlanRef { name, phase: Phase::Cancelled })
}

/// Slugged abandon name for a scoping plan with a titled `plan.md`, or the
/// bare name.
fn slugged_name(plan: &PlanRef, plan_md: Option<&str>) -> (name: String)
    requires
        plan.phase == Phase::Scoping,
    ensures
        name@ == abandoned_name(
            *plan,
            match plan_md {
                Some(text) => Some(text@),
                None => None,
            },
        ),
{
    match plan_md {
        Some(text) => match extract_title(text) {
            Some(title) => slugged(plan, title.as_str()),
            None => plan.name.clone(),
        },
        None => plan.name.clone(),
    }
}

/// Session roles one plan owns, given which markers its directory holds.
pub open spec fn roles_of(phase: Phase, executed_marker: bool, merging_marker: bool) -> Seq<
    SessionRole,
> {
    match phase {
        Phase::Scoping => seq![SessionRole::Scoping],
        Phase::Executing => seq![SessionRole::Scoping, SessionRole::Executing],
        Phase::Merging => seq![SessionRole::Scoping, SessionRole::Executing, SessionRole::Merging],
        _ => if merging_marker {
            seq![SessionRole::Scoping, SessionRole::Executing, SessionRole::Merging]
        } else if executed_marker {
            seq![SessionRole::Scoping, SessionRole::Executing]
        } else {
            seq![SessionRole::Scoping]
        },
    }
}

/// Session roles one plan owns: scoping always runs, executing joins once
/// approved, merging joins on the conflict path. Finished plans keep their
/// rows as history, read off the `.merging` and `.executed` markers.
pub fn roles_for(plan: &PlanRef, executed_marker: bool, merging_marker: bool) -> (roles: Vec<
    SessionRole,
>)
    ensures
        roles@ == roles_of(plan.phase, executed_marker, merging_marker),
{
    let mut roles: Vec<SessionRole> = Vec::new();
    roles.push(SessionRole::Scoping);
    match plan.phase {
        Phase::Scoping => {},
        Phase::Executing => {
            roles.push(SessionRole::Executing);
        },
        Phase::Merging => {
            roles.push(SessionRole::Executing);
            roles.push(SessionRole::Merging);
        },
        _ => {
            let merging = merging_marker;
            let executed = merging || executed_marker;
            if executed {
                roles.push(SessionRole::Executing);
            }
            if merging {
                roles.push(SessionRole::Merging);
            }
        },
    }
    assert(roles@ == roles_of(plan.phase, executed_marker, merging_marker));
    roles
}

/// Law: every plan owns its scoping session first, and a merging session
/// only alongside an executing one.
pub proof fn lemma_roles_shape(phase: Phase, executed_marker: bool, merging_marker: bool)
    ensures
        roles_of(phase, executed_marker, merging_marker).len() >= 1,
        roles_of(phase, executed_marker, merging_marker)[0] == SessionRole::Scoping,
        roles_of(phase, executed_marker, merging_marker).contains(SessionRole::Merging)
            ==> roles_of(phase, executed_marker, merging_marker).contains(SessionRole::Executing),
        phase_is_active(phase) ==> roles_of(phase, executed_marker, merging_marker) == roles_of(
            phase,
            false,
            false,
        ),
{
    let r = roles_of(phase, executed_marker, merging_marker);
    if r.contains(SessionRole::Merging) {
        assert(r[1] == SessionRole::Executing);
    }
}

/// Display title: the first heading of `plan.md`, `Untitled` without one
/// or when the file could not be read.
pub fn plan_title(plan_md: Option<&str>) -> (title: String)
    ensures
        title@ == match plan_md {
            Some(text) => match title_of(text@) {
                Some(t) => t,
                None => "Untitled"@,
            },
            None => "Untitled"@,
        },
{
    match plan_md {
        Some(text) => match extract_title(text) {
            Some(t) => t,
            None => owned("Untitled"),
        },
        None => owned("Untitled"),
    }
}

// ---------------------------------------------------------------------------
// Collision-proof names.
// ---------------------------------------------------------------------------

/// `base-k`.
pub open spec fn candidate_name(base: Seq<char>, k: nat) -> Seq<char> {
    base + "-"@ + decimal(k)
}

/// The character contents of a list of names.
pub open spec fn names_of(taken: Seq<String>) -> Seq<Seq<char>> {
    taken.map_values(|s: String| s@)
}

/// The name `unique_name` picks: `base` when free, else the first free
/// `base-k` with `k >= 1`.
pub open spec fn picks_unique(base: Seq<char>, taken: Seq<Seq<char>>, name: Seq<char>) -> bool {
    if !taken.contains(base) {
        name == base
    } else {
        exists|k: nat|
            #![trigger candidate_name(base, k)]
            k >= 1 && name == candidate_name(base, k) && !taken.contains(name) && forall|j: nat|
                #![trigger candidate_name(base, j)]
                1 <= j < k ==> taken.contains(candidate_name(base, j))
    }
}

fn name_taken(taken: &Vec<String>, name: &String) -> (found: bool)
    ensures
        found == names_of(taken@).contains(name@),
{
    let mut i: usize = 0;
    while i < taken.len()
        invariant
            i <= taken.len(),
            forall|k: int| 0 <= k < i ==> taken@[k]@ != name@,
        decreases taken.len() - i,
    {
        if taken[i] == *name {
            assert(names_of(taken@)[i as int] == name@);
            return true;
        }
        i = i + 1;
    }
    assert forall|k: int| 0 <= k < names_of(taken@).len() implies names_of(taken@)[k] != name@ by {
        assert(names_of(taken@)[k] == taken@[k]@);
    }
    false
}

fn candidate(base: &str, k: u64) -> (name: String)
    ensures
        name@ == candidate_name(base@, k as nat),
{
    let mut v = chars_of(base);
    extend_chars(&mut v, "-");
    let digits = decimal_chars(k);
    let ghost mid = v@;
    let mut i: usize = 0;
    while i < digits.len()
        invariant
            i <= digits.len(),
            v@ == mid + digits@.take(i as int),
        decreases digits.len() - i,
    {
        v.push(digits[i]);
        i = i + 1;
        assert(digits@.take(i as int) == digits@.take(i - 1).push(digits@[i - 1]));
    }
    assert(digits@.take(digits.len() as int) == digits@);
    string_of(&v)
}

proof fn lemma_candidate_injective(base: Seq<char>, a: nat, b: nat)
    requires
        candidate_name(base, a) == candidate_name(base, b),
    ensures
        a == b,
{
    reveal_strlit("-");
    let n = base.len() + 1int;
    assert(candidate_name(base, a).skip(n) =~= decimal(a));
    assert(candidate_name(base, b).skip(n) =~= decimal(b));
    lemma_decimal_injective(a, b);
}

/// Collision-proof name: `base`, then `base-1`, `base-2` while taken.
pub fn unique_name(base: &str, taken: &Vec<String>) -> (name: String)
    requires
        taken@.len() < u64::MAX,
    ensures
        picks_unique(base@, names_of(taken@), name@),
        !names_of(taken@).contains(name@),
{
    let first = owned(base);
    if !name_taken(taken, &first) {
        return first;
    }
    let ghost names = names_of(taken@);
    let ghost mut seen: Set<Seq<char>> = Set::empty();
    proof {
        names.lemma_cardinality_of_set();
    }
    let mut counter: u64 = 1;
    loop
        invariant
            names == names_of(taken@),
            names.contains(base@),
            taken@.len() < u64::MAX,
            1 <= counter,
            counter - 1 <= taken@.len(),
            seen.finite(),
            seen.len() == counter - 1,
            seen.subset_of(names.to_set()),
            names.to_set().len() <= names.len(),
            forall|x: Seq<char>| #[trigger]
                seen.contains(x) <==> exists|j: nat|
                    #![trigger candidate_name(base@, j)]
                    1 <= j < counter && x == candidate_name(base@, j),
        decreases taken@.len() + 1 - counter,
    {
        let name = candidate(base, counter);
        if !name_taken(taken, &name) {
            assert forall|j: nat| 1 <= j < counter implies names.contains(
                #[trigger] candidate_name(base@, j),
            ) by {
                assert(seen.contains(candidate_name(base@, j)));
            }
            assert(picks_unique(base@, names, name@));
            return name;
        }
        proof {
            if seen.contains(name@) {
                let j = choose|j: nat| 1 <= j < counter && name@ == candidate_name(base@, j);
                lemma_candidate_injective(base@, j, counter as nat);
            }
            let next = seen.insert(name@);
            vstd::set_lib::lemma_len_subset(next, names.to_set());
            assert forall|x: Seq<char>| #[trigger]
                next.contains(x) <==> exists|j: nat|
                    #![trigger candidate_name(base@, j)]
                    1 <= j < counter + 1 && x == candidate_name(base@, j) by {
                if next.contains(x) && x == name@ {
                    assert(candidate_name(base@, counter as nat) == x);
                }
                if exists|j: nat| 1 <= j < counter + 1 && x == candidate_name(base@, j) {
                    let j = choose|j: nat| 1 <= j < counter + 1 && x == candidate_name(base@, j);
                    if j < counter {
                        assert(seen.contains(x));
                    }
                }
            }
            seen = next;
        }
        counter = counter + 1;
    }
}

} // verus!
