//! Worktree rules: one isolated checkout per executing plan. Naming is
//! decided here, and so is every git invocation and how its outcome reads;
//! the application edge runs the commands and hands the outcomes back.
use vstd::prelude::*;

use crate::paths::{join_path, join_seq};
use crate::text::{
    chars_of, concat2, contains_seq, contains_str, extend_chars, is_ascii_seq, owned, slice_chars, str_eq,
    string_of, trim_chars, trim_seq,
};

verus! {

/// One plan checkout: where it lives and which branches it spans.
#[derive(Debug, Clone, PartialEq, Eq)]
pub struct WorktreeRecord {
    pub path: String,
    pub branch: String,
    pub base: String,
    pub main_branch: String,
}

#[derive(Debug, Clone, PartialEq, Eq)]
pub enum WorktreeError {
    Git { args: String, stderr: String },
    NotAncestor { main_branch: String, branch: String },
    Io(String),
}

/// The message a worktree error renders as.
pub open spec fn worktree_error_message(error: WorktreeError) -> Seq<char> {
    match error {
        WorktreeError::Git { args, stderr } => "git "@ + args@ + " failed: "@ + stderr@,
        WorktreeError::NotAncestor { main_branch, branch } => branch@
            + " is not a fast-forward of "@ + main_branch@,
        WorktreeError::Io(raw) => "worktree io failed: "@ + raw@,
    }
}

impl WorktreeError {
    pub fn to_string(&self) -> (message: String)
        ensures
            message@ == worktree_error_message(*self),
    {
        match self {
            WorktreeError::Git { args, stderr } => {
                let mut v = chars_of("git ");
                extend_chars(&mut v, args.as_str());
                extend_chars(&mut v, " failed: ");
                extend_chars(&mut v, stderr.as_str());
                string_of(&v)
            },
            WorktreeError::NotAncestor { main_branch, branch } => {
                let mut v = chars_of(branch.as_str());
                extend_chars(&mut v, " is not a fast-forward of ");
                extend_chars(&mut v, main_branch.as_str());
                string_of(&v)
            },
            WorktreeError::Io(raw) => concat2("worktree io failed: ", raw.as_str()),
        }
    }
}

// ---------------------------------------------------------------------------
// Naming.
// ---------------------------------------------------------------------------

/// Bytes a character takes in UTF-8.
pub open spec fn utf8_width(c: char) -> nat {
    if (c as u32) < 0x80 {
        1
    } else if (c as u32) < 0x800 {
        2
    } else if (c as u32) < 0x10000 {
        3
    } else {
        4
    }
}

/// Byte length of a character sequence in UTF-8.
pub open spec fn utf8_len(s: Seq<char>) -> nat
    decreases s.len(),
{
    if s.len() == 0 {
        0
    } else {
        utf8_width(s[0]) + utf8_len(s.skip(1))
    }
}

/// The character index at which byte offset `bytes` falls on a character
/// boundary, if it does.
pub open spec fn char_index_at_byte(s: Seq<char>, bytes: int) -> Option<int>
    decreases s.len(),
{
    if bytes == 0 {
        Some(0)
    } else if s.len() == 0 || utf8_width(s[0]) > bytes {
        None
    } else {
        match char_index_at_byte(s.skip(1), bytes - utf8_width(s[0])) {
            Some(k) => Some(k + 1),
            None => None,
        }
    }
}

/// A plan name `plan_slug` can cut: at most 19 bytes long, or with byte 19
/// on a character boundary (slicing elsewhere would panic).
pub open spec fn sliceable_plan_name(name: Seq<char>) -> bool {
    utf8_len(name) <= 19 || char_index_at_byte(name, 19) is Some
}

/// Number of leading ASCII digits of `s`.
pub open spec fn digit_run(s: Seq<char>) -> nat
    decreases s.len(),
{
    if s.len() > 0 && '0' <= s[0] && s[0] <= '9' {
        1 + digit_run(s.skip(1))
    } else {
        0
    }
}

/// What follows the timestamp once an optional `-N` collision suffix is
/// dropped.
pub open spec fn after_collision_suffix(rest: Seq<char>) -> Seq<char> {
    if rest.len() > 0 && rest[0] == '-' && digit_run(rest.skip(1)) > 0 {
        rest.skip(1).skip(digit_run(rest.skip(1)) as int)
    } else {
        rest
    }
}

/// Slug after the timestamp prefix (plus an optional `-N` collision
/// suffix); bare timestamps and names without a `.slug` yield the whole
/// name.
pub open spec fn plan_slug_of(name: Seq<char>) -> Seq<char> {
    if utf8_len(name) <= 19 {
        name
    } else {
        let rest = after_collision_suffix(name.skip(char_index_at_byte(name, 19)->0));
        if rest.len() > 1 && rest[0] == '.' {
            rest.skip(1)
        } else {
            name
        }
    }
}

proof fn lemma_char_index_bounds(s: Seq<char>, bytes: int)
    requires
        bytes >= 0,
        char_index_at_byte(s, bytes) is Some,
    ensures
        0 <= char_index_at_byte(s, bytes)->0 <= s.len(),
        utf8_len(s.take(char_index_at_byte(s, bytes)->0)) == bytes,
    decreases s.len(),
{
    if bytes != 0 {
        lemma_char_index_bounds(s.skip(1), bytes - utf8_width(s[0]));
        let k = char_index_at_byte(s, bytes)->0;
        assert(s.take(k).skip(1) == s.skip(1).take(k - 1));
    } else {
        assert(s.take(0).len() == 0);
    }
}

/// Walks the name byte-wise: returns the character index of byte 19 when
/// the name is longer than 19 bytes, `None` when it is not.
fn timestamp_cut(v: &Vec<char>) -> (cut: Option<usize>)
    requires
        sliceable_plan_name(v@),
    ensures
        cut is None <==> utf8_len(v@) <= 19,
        cut matches Some(k) ==> char_index_at_byte(v@, 19) == Some(k as int) && k
            <= v@.len(),
{
    let mut i: usize = 0;
    let mut bytes: u64 = 0;
    assert(v@.skip(0) == v@);
    assert(v@.take(0).len() == 0);
    while i < v.len() && bytes < 19
        invariant
            i <= v.len(),
            bytes <= 19,
            sliceable_plan_name(v@),
            bytes == utf8_len(v@.take(i as int)),
            utf8_len(v@) == bytes + utf8_len(v@.skip(i as int)),
            char_index_at_byte(v@, 19) == match char_index_at_byte(v@.skip(i as int), 19 - bytes) {
                Some(k) => Some(k + i),
                None => None,
            },
        decreases v.len() - i,
    {
        let c = v[i];
        let w: u64 = if (c as u32) < 0x80 {
            1
        } else if (c as u32) < 0x800 {
            2
        } else if (c as u32) < 0x10000 {
            3
        } else {
            4
        };
        proof {
            let t = v@.skip(i as int);
            assert(t[0] == c);
            assert(w == utf8_width(c));
            assert(t.skip(1) == v@.skip(i + 1));
            assert(utf8_len(t) == utf8_width(t[0]) + utf8_len(t.skip(1)));
            lemma_take_len_step(v@, i as int);
        }
        if bytes + w > 19 {
            // Byte 19 falls inside this character: only possible when the
            // name does not split there, which the precondition rules out.
            assert(char_index_at_byte(v@.skip(i as int), 19 - bytes) is None);
            assert(false);
        }
        bytes = bytes + w;
        i = i + 1;
    }
    if bytes < 19 {
        assert(v@.skip(i as int).len() == 0);
        return None;
    }
    if i == v.len() {
        assert(v@.skip(i as int).len() == 0);
        return None;
    }
    proof {
        lemma_utf8_len_skip_pos(v@, i as int);
    }
    Some(i)
}

proof fn lemma_take_len_step(s: Seq<char>, i: int)
    requires
        0 <= i < s.len(),
    ensures
        utf8_len(s.take(i + 1)) == utf8_len(s.take(i)) + utf8_width(s[i]),
    decreases i,
{
    let a = s.take(i + 1);
    assert(a[0] == s[0]);
    assert(utf8_len(a) == utf8_width(a[0]) + utf8_len(a.skip(1)));
    if i > 0 {
        let b = s.take(i);
        assert(b[0] == s[0]);
        assert(utf8_len(b) == utf8_width(b[0]) + utf8_len(b.skip(1)));
        assert(a.skip(1) == s.skip(1).take(i));
        assert(b.skip(1) == s.skip(1).take(i - 1));
        assert(s.skip(1)[i - 1] == s[i]);
        lemma_take_len_step(s.skip(1), i - 1);
    } else {
        assert(a.skip(1).len() == 0);
        assert(s.take(0).len() == 0);
    }
}

proof fn lemma_utf8_len_skip_pos(s: Seq<char>, i: int)
    requires
        0 <= i < s.len(),
    ensures
        utf8_len(s.skip(i)) >= 1,
{
    assert(s.skip(i)[0] == s[i]);
}

/// Slug after the `YYYY-MM-DD.HH-MM-SS` timestamp prefix (plus an optional
/// `-N` collision suffix). Bare timestamps yield the whole name.
pub fn plan_slug(plan_name: &str) -> (slug: String)
    requires
        sliceable_plan_name(plan_name@),
    ensures
        slug@ == plan_slug_of(plan_name@),
{
    let v = chars_of(plan_name);
    let k = match timestamp_cut(&v) {
        None => {
            return owned(plan_name);
        },
        Some(k) => k,
    };
    let mut r: usize = k;
    if r < v.len() && v[r] == '-' {
        let mut d: usize = r + 1;
        while d < v.len() && '0' <= v[d] && v[d] <= '9'
            invariant
                k < r + 1 <= d <= v.len(),
                r == k,
                digit_run(v@.skip(r + 1)) == (d - r - 1) + digit_run(v@.skip(d as int)),
            decreases v.len() - d,
        {
            assert(v@.skip(d as int).skip(1) == v@.skip(d + 1));
            d = d + 1;
        }
        if d > r + 1 {
            assert(v@.skip(r + 1).skip(d - r - 1) == v@.skip(d as int));
            r = d;
        }
    }
    assert(v@.skip(r as int) == after_collision_suffix(v@.skip(k as int))) by {
        let rest = v@.skip(k as int);
        if rest.len() > 0 && rest[0] == '-' {
            assert(rest.skip(1) == v@.skip(k + 1));
        }
    }
    if v.len() - r > 1 && v[r] == '.' {
        let out = slice_chars(&v, r + 1, v.len());
        assert(out@ == v@.skip(r as int).skip(1));
        return string_of(&out);
    }
    owned(plan_name)
}

/// Plan branch: `samokod/<slug>`.
pub fn branch_name(plan_name: &str) -> (branch: String)
    requires
        sliceable_plan_name(plan_name@),
    ensures
        branch@ == "samokod/"@ + plan_slug_of(plan_name@),
{
    let slug = plan_slug(plan_name);
    concat2("samokod/", slug.as_str())
}

/// Worktree checkout for one plan: `<repo>/.samokod/worktrees/<plan-name>`.
pub open spec fn worktree_path_of(repo_root: Seq<char>, plan_name: Seq<char>) -> Seq<char> {
    join_seq(join_seq(join_seq(repo_root, ".samokod"@), "worktrees"@), plan_name)
}

pub fn worktree_path(repo_root: &str, plan_name: &str) -> (path: String)
    ensures
        path@ == worktree_path_of(repo_root@, plan_name@),
{
    let a = join_path(repo_root, ".samokod");
    let b = join_path(a.as_str(), "worktrees");
    join_path(b.as_str(), plan_name)
}

proof fn lemma_ascii_prefix_index(s: Seq<char>, b: int)
    requires
        0 <= b <= s.len(),
        forall|k: int| 0 <= k < b ==> (s[k] as u32) < 0x80,
    ensures
        char_index_at_byte(s, b) == Some(b),
    decreases b,
{
    if b > 0 {
        assert forall|k: int| 0 <= k < b - 1 implies (s.skip(1)[k] as u32) < 0x80 by {
            assert(s.skip(1)[k] == s[k + 1]);
        }
        lemma_ascii_prefix_index(s.skip(1), b - 1);
    }
}

proof fn lemma_utf8_len_ge(s: Seq<char>)
    ensures
        utf8_len(s) >= s.len(),
    decreases s.len(),
{
    if s.len() > 0 {
        lemma_utf8_len_ge(s.skip(1));
    }
}

proof fn lemma_digit_run_concat(d: Seq<char>, t: Seq<char>)
    requires
        forall|k: int| 0 <= k < d.len() ==> '0' <= #[trigger] d[k] && d[k] <= '9',
        t.len() == 0 || !('0' <= t[0] && t[0] <= '9'),
    ensures
        digit_run(d + t) == d.len(),
    decreases d.len(),
{
    if d.len() > 0 {
        assert((d + t).skip(1) == d.skip(1) + t);
        assert forall|k: int| 0 <= k < d.skip(1).len() implies '0' <= #[trigger] d.skip(1)[k]
            && d.skip(1)[k] <= '9' by {
            assert(d.skip(1)[k] == d[k + 1]);
        }
        lemma_digit_run_concat(d.skip(1), t);
    } else {
        assert(d + t == t);
    }
}

/// Law: every plan name that starts with a timestamp name (19 ASCII
/// characters, as `timestamp_name` builds it) is one `plan_slug` can cut.
pub proof fn lemma_timestamped_names_are_sliceable(stamp: Seq<char>, rest: Seq<char>)
    requires
        stamp.len() == 19,
        is_ascii_seq(stamp),
    ensures
        sliceable_plan_name(stamp + rest),
{
    let s = stamp + rest;
    assert forall|i: int| 0 <= i < 19 implies (s[i] as u32) < 0x80 by {
        assert(s[i] == stamp[i]);
        assert(crate::text::is_ascii_char(stamp[i]));
    }
    lemma_ascii_prefix_index(s, 19);
}

/// Law: a plan named `<timestamp>.<slug>` or `<timestamp>-<N>.<slug>`, as
/// `execute` and `unique_name` build it, checks out on branch
/// `samokod/<slug>`.
pub proof fn lemma_branch_follows_slug(
    timestamp: Seq<char>,
    collision: Option<nat>,
    slug: Seq<char>,
)
    requires
        timestamp.len() == 19,
        forall|k: int| 0 <= k < 19 ==> (timestamp[k] as u32) < 0x80,
        slug.len() > 0,
    ensures
        ({
            let name = match collision {
                Some(n) => timestamp + "-"@ + crate::text::decimal(n) + "."@ + slug,
                None => timestamp + "."@ + slug,
            };
            sliceable_plan_name(name) && plan_slug_of(name) == slug
        }),
{
    reveal_strlit("-");
    reveal_strlit(".");
    let tail = match collision {
        Some(n) => "-"@ + crate::text::decimal(n) + "."@ + slug,
        None => "."@ + slug,
    };
    let name = match collision {
        Some(n) => timestamp + "-"@ + crate::text::decimal(n) + "."@ + slug,
        None => timestamp + "."@ + slug,
    };
    assert(name == timestamp + tail);
    lemma_ascii_prefix_index(name, 19);
    lemma_char_index_bounds(name, 19);
    assert(name.take(19) == timestamp);
    assert(name.skip(19) == tail);
    lemma_utf8_len_ge(tail);
    lemma_utf8_len_split(name, 19);
    let dotted = "."@ + slug;
    assert(dotted.skip(1) == slug);
    match collision {
        Some(n) => {
            let d = crate::text::decimal(n);
            crate::text::lemma_decimal_digits(n);
            assert(tail.skip(1) == d + dotted);
            lemma_digit_run_concat(d, dotted);
            crate::text::lemma_decimal_nonempty(n);
            assert(tail.skip(1).skip(d.len() as int) == dotted);
        },
        None => {},
    }
}

proof fn lemma_utf8_len_split(s: Seq<char>, k: int)
    requires
        0 <= k <= s.len(),
    ensures
        utf8_len(s) == utf8_len(s.take(k)) + utf8_len(s.skip(k)),
    decreases k,
{
    if k > 0 {
        assert(s.take(k).skip(1) == s.skip(1).take(k - 1));
        assert(s.skip(k) == s.skip(1).skip(k - 1));
        lemma_utf8_len_split(s.skip(1), k - 1);
    } else {
        assert(s.skip(0) == s);
    }
}

// ---------------------------------------------------------------------------
// Git invocations and their outcomes.
// ---------------------------------------------------------------------------

/// Words joined by single spaces, as `[&str]::join(" ")` renders them.
pub open spec fn joined(words: Seq<Seq<char>>) -> Seq<char>
    decreases words.len(),
{
    if words.len() == 0 {
        Seq::empty()
    } else if words.len() == 1 {
        words[0]
    } else {
        joined(words.drop_last()) + " "@ + words.last()
    }
}

/// The character contents of argument strings.
pub open spec fn words_of(args: Seq<String>) -> Seq<Seq<char>> {
    args.map_values(|a: String| a@)
}

fn join_words(args: &Vec<String>) -> (line: String)
    ensures
        line@ == joined(words_of(args@)),
{
    let mut v: Vec<char> = Vec::new();
    let mut i: usize = 0;
    while i < args.len()
        invariant
            i <= args.len(),
            v@ == joined(words_of(args@).take(i as int)),
        decreases args.len() - i,
    {
        assert(words_of(args@).take(i + 1).drop_last() == words_of(args@).take(i as int));
        if i > 0 {
            extend_chars(&mut v, " ");
        } else {
            assert(joined(words_of(args@).take(0)) == Seq::<char>::empty());
        }
        extend_chars(&mut v, args[i].as_str());
        i = i + 1;
    }
    assert(words_of(args@).take(args.len() as int) == words_of(args@));
    string_of(&v)
}

/// Outcome of one git run: `stdout` is `None` when git printed non-UTF-8
/// output. Failures keep git's stderr, trimmed.
pub fn run_git(args: &Vec<String>, success: bool, stdout: Option<String>, stderr: &str) -> (out:
    Result<String, WorktreeError>)
    ensures
        !success ==> (out matches Err(WorktreeError::Git { args: a, stderr: e }) && a@ == joined(
            words_of(args@),
        ) && e@ == trim_seq(stderr@)),
        success && stdout is None ==> (out matches Err(WorktreeError::Git { args: a, stderr: e })
            && a@ == joined(words_of(args@)) && e@ == "git output was not utf-8"@),
        success && stdout is Some ==> out == Ok::<String, WorktreeError>(stdout->0),
{
    if !success {
        let e = chars_of(stderr);
        let t = trim_chars(&e);
        return Err(WorktreeError::Git { args: join_words(args), stderr: string_of(&t) });
    }
    match stdout {
        Some(text) => Ok(text),
        None => Err(
            WorktreeError::Git {
                args: join_words(args),
                stderr: owned("git output was not utf-8"),
            },
        ),
    }
}

/// Tip commit from `git rev-parse HEAD` output.
pub fn head_commit(rev_parse_output: &str) -> (commit: String)
    ensures
        commit@ == trim_seq(rev_parse_output@),
{
    let v = chars_of(rev_parse_output);
    let t = trim_chars(&v);
    string_of(&t)
}

/// Whether `git status --porcelain` output reports uncommitted changes.
/// A worktree with uncommitted changes never merges.
pub fn is_dirty(status_output: &str) -> (dirty: bool)
    ensures
        dirty == (trim_seq(status_output@).len() > 0),
{
    let v = chars_of(status_output);
    let t = trim_chars(&v);
    t.len() > 0
}

/// Whether `main_branch` is an ancestor of `branch`, from the exit code of
/// `git merge-base --is-ancestor`: 0 means ancestor, 1 means diverged,
/// anything else (or no code) is a loud failure.
pub fn is_ffable(exit_code: Option<i32>, main_branch: &str, branch: &str, stderr: &str) -> (out:
    Result<bool, WorktreeError>)
    ensures
        exit_code == Some(0i32) ==> out == Ok::<bool, WorktreeError>(true),
        exit_code == Some(1i32) ==> out == Ok::<bool, WorktreeError>(false),
        exit_code != Some(0i32) && exit_code != Some(1i32) ==> (out matches Err(
            WorktreeError::Git { args: a, stderr: e },
        ) && a@ == "merge-base --is-ancestor "@ + main_branch@ + " "@ + branch@ && e@ == trim_seq(
            stderr@,
        )),
{
    match exit_code {
        Some(0) => Ok(true),
        Some(1) => Ok(false),
        _ => {
            let mut a = chars_of("merge-base --is-ancestor ");
            extend_chars(&mut a, main_branch);
            extend_chars(&mut a, " ");
            extend_chars(&mut a, branch);
            let e = chars_of(stderr);
            let t = trim_chars(&e);
            Err(WorktreeError::Git { args: string_of(&a), stderr: string_of(&t) })
        },
    }
}

/// Appends one argument to a git argument list.
pub fn push_word(args: &mut Vec<String>, word: &str)
    ensures
        words_of(final(args)@) == words_of(old(args)@).push(word@),
{
    args.push(owned(word));
    assert(words_of(args@) == words_of(old(args)@).push(word@));
}

/// An argument list from literal words.
fn words(list: &[&str]) -> (args: Vec<String>)
    ensures
        words_of(args@) == list@.map_values(|w: &str| w@),
{
    let mut args: Vec<String> = Vec::new();
    let mut i: usize = 0;
    while i < list.len()
        invariant
            i <= list.len(),
            words_of(args@) == list@.take(i as int).map_values(|w: &str| w@),
        decreases list.len() - i,
    {
        push_word(&mut args, list[i]);
        assert(list@.take(i + 1) == list@.take(i as int).push(list@[i as int]));
        i = i + 1;
    }
    assert(list@.take(list.len() as int) == list@);
    args
}

/// `git rev-parse HEAD`: reads the tip commit (see `head_commit`).
pub fn head_commit_args() -> (args: Vec<String>)
    ensures
        words_of(args@) == seq!["rev-parse"@, "HEAD"@],
{
    let mut args: Vec<String> = Vec::new();
    push_word(&mut args, "rev-parse");
    push_word(&mut args, "HEAD");
    args
}

/// `git status --porcelain`: reads uncommitted changes (see `is_dirty`).
pub fn status_args() -> (args: Vec<String>)
    ensures
        words_of(args@) == seq!["status"@, "--porcelain"@],
{
    let mut args: Vec<String> = Vec::new();
    push_word(&mut args, "status");
    push_word(&mut args, "--porcelain");
    args
}

/// `git merge-base --is-ancestor <main> <branch>` (see `is_ffable`).
pub fn is_ffable_args(main_branch: &str, branch: &str) -> (args: Vec<String>)
    ensures
        words_of(args@) == seq![
            "merge-base"@,
            "--is-ancestor"@,
            main_branch@,
            branch@,
        ],
{
    let mut args: Vec<String> = Vec::new();
    push_word(&mut args, "merge-base");
    push_word(&mut args, "--is-ancestor");
    push_word(&mut args, main_branch);
    push_word(&mut args, branch);
    args
}

/// The record of a plan checkout about to be created on a fresh branch at
/// `base`.
pub fn create(repo_root: &str, plan_name: &str, base: &str, main_branch: &str) -> (record:
    WorktreeRecord)
    requires
        sliceable_plan_name(plan_name@),
    ensures
        record.path@ == worktree_path_of(repo_root@, plan_name@),
        record.branch@ == "samokod/"@ + plan_slug_of(plan_name@),
        record.base@ == base@,
        record.main_branch@ == main_branch@,
{
    WorktreeRecord {
        path: worktree_path(repo_root, plan_name),
        branch: branch_name(plan_name),
        base: owned(base),
        main_branch: owned(main_branch),
    }
}

/// `git worktree add -b <branch> <path> <base>` for a record from `create`.
pub fn worktree_add_args(record: &WorktreeRecord) -> (args: Vec<String>)
    ensures
        words_of(args@) == seq![
            "worktree"@,
            "add"@,
            "-b"@,
            record.branch@,
            record.path@,
            record.base@,
        ],
{
    let mut args: Vec<String> = Vec::new();
    push_word(&mut args, "worktree");
    push_word(&mut args, "add");
    push_word(&mut args, "-b");
    push_word(&mut args, record.branch.as_str());
    push_word(&mut args, record.path.as_str());
    push_word(&mut args, record.base.as_str());
    args
}

/// The empty `.samokod/` a fresh checkout holds, so agents never mistake it
/// for the main checkout's plan storage.
pub fn worktree_samokod_dir(record: &WorktreeRecord) -> (dir: String)
    ensures
        dir@ == join_seq(record.path@, ".samokod"@),
{
    join_path(record.path.as_str(), ".samokod")
}

/// `git worktree prune`: reconciles worktree metadata after crashes and
/// never deletes branches.
pub fn prune() -> (args: Vec<String>)
    ensures
        words_of(args@) == seq!["worktree"@, "prune"@],
{
    let mut args: Vec<String> = Vec::new();
    push_word(&mut args, "worktree");
    push_word(&mut args, "prune");
    args
}

/// What a failed git step means for the operation that runs it.
#[derive(Debug, Clone, Copy, PartialEq, Eq)]
pub enum FailurePolicy {
    /// The operation fails with the step's error.
    Abort,
    /// As `Abort`, except that a git failure whose stderr says `not found`
    /// is quiet.
    AbortUnlessNotFound,
    /// The failure is dropped.
    Ignore,
}

/// One git invocation of a multi-step operation.
#[derive(Debug, Clone, PartialEq, Eq)]
pub struct GitStep {
    pub args: Vec<String>,
    pub on_failure: FailurePolicy,
}

/// A step as words plus policy.
pub open spec fn step_view(step: GitStep) -> (Seq<Seq<char>>, FailurePolicy) {
    (words_of(step.args@), step.on_failure)
}

/// The steps of `remove`: with the checkout present, remove it (forced
/// only on explicit user action) and then delete its branch; with it gone,
/// still delete the branch, quietly when the branch is gone too. A prune
/// always follows and its failure is dropped.
pub open spec fn remove_plan(path_exists: bool, path: Seq<char>, branch: Seq<char>, force: bool) -> Seq<
    (Seq<Seq<char>>, FailurePolicy),
> {
    let delete_branch = seq!["branch"@, "-D"@, branch];
    let prune_step = (seq!["worktree"@, "prune"@], FailurePolicy::Ignore);
    if path_exists {
        let remove_args = if force {
            seq!["worktree"@, "remove"@, "--force"@, path]
        } else {
            seq!["worktree"@, "remove"@, path]
        };
        seq![
            (remove_args, FailurePolicy::Abort),
            (delete_branch, FailurePolicy::Abort),
            prune_step,
        ]
    } else {
        seq![(delete_branch, FailurePolicy::AbortUnlessNotFound), prune_step]
    }
}

/// Deletes the worktree and then its branch, as a list of git steps run in
/// order. `path_exists` is whether the checkout is on disk.
pub fn remove(path_exists: bool, path: &str, branch: &str, force: bool) -> (steps: Vec<GitStep>)
    ensures
        steps@.map_values(|s: GitStep| step_view(s)) == remove_plan(
            path_exists,
            path@,
            branch@,
            force,
        ),
{
    let mut steps: Vec<GitStep> = Vec::new();
    let mut delete_branch: Vec<String> = Vec::new();
    push_word(&mut delete_branch, "branch");
    push_word(&mut delete_branch, "-D");
    push_word(&mut delete_branch, branch);
    if path_exists {
        let mut remove_args: Vec<String> = Vec::new();
        push_word(&mut remove_args, "worktree");
        push_word(&mut remove_args, "remove");
        if force {
            push_word(&mut remove_args, "--force");
        }
        push_word(&mut remove_args, path);
        steps.push(GitStep { args: remove_args, on_failure: FailurePolicy::Abort });
        steps.push(GitStep { args: delete_branch, on_failure: FailurePolicy::Abort });
    } else {
        steps.push(GitStep { args: delete_branch, on_failure: FailurePolicy::AbortUnlessNotFound });
    }
    steps.push(GitStep { args: prune(), on_failure: FailurePolicy::Ignore });
    let ghost plan = remove_plan(path_exists, path@, branch@, force);
    assert(steps@.len() == plan.len());
    assert forall|i: int| 0 <= i < plan.len() implies step_view(steps@[i]) == plan[i] by {}
    assert(steps@.map_values(|s: GitStep| step_view(s)) =~= remove_plan(
        path_exists,
        path@,
        branch@,
        force,
    ));
    steps
}

/// Whether a step's failure stops its operation, and with which error.
pub open spec fn failure_stops(policy: FailurePolicy, error: WorktreeError) -> bool {
    match policy {
        FailurePolicy::Abort => true,
        FailurePolicy::AbortUnlessNotFound => !(error matches WorktreeError::Git { stderr, .. }
            && contains_seq(stderr@, "not found"@)),
        FailurePolicy::Ignore => false,
    }
}

/// Reads one step's outcome: `Some(error)` when the operation must stop
/// with that error, `None` when it goes on.
pub fn settle_step(policy: FailurePolicy, outcome: Result<String, WorktreeError>) -> (stop: Option<
    WorktreeError,
>)
    ensures
        outcome is Ok ==> stop is None,
        outcome matches Err(e) ==> (failure_stops(policy, e) ==> stop == Some(e)) && (
        !failure_stops(policy, e) ==> stop is None),
{
    match outcome {
        Ok(_) => None,
        Err(error) => match policy {
            FailurePolicy::Abort => Some(error),
            FailurePolicy::Ignore => None,
            FailurePolicy::AbortUnlessNotFound => {
                let quiet = match &error {
                    WorktreeError::Git { stderr, .. } => {
                        let v = chars_of(stderr.as_str());
                        contains_str(&v, "not found")
                    },
                    _ => false,
                };
                if quiet {
                    None
                } else {
                    Some(error)
                }
            },
        },
    }
}

/// How `fast_forward` moves the main branch.
#[derive(Debug, Clone, PartialEq, Eq)]
pub enum FastForward {
    /// The branch has diverged from main: refused loud.
    Refused(WorktreeError),
    /// The main checkout sits on the main branch: merge there with these
    /// arguments so the working tree follows.
    MergeFfOnly(Vec<String>),
    /// Otherwise the ref moves with `update-ref`, guarded by its old value
    /// (see `update_ref_args`).
    MoveRef,
}

/// Fast-forwards `main_branch` to `branch`, given whether `main_branch` is
/// an ancestor of `branch` and the branch the main checkout is on (`None`
/// reads as a detached `HEAD`).
pub fn fast_forward(ffable: bool, current_branch: Option<&str>, main_branch: &str, branch: &str) -> (ff:
    FastForward)
    ensures
        !ffable ==> (ff matches FastForward::Refused(WorktreeError::NotAncestor { main_branch: m, branch: b })
            && m@ == main_branch@ && b@ == branch@),
        ffable && (match current_branch {
            Some(c) => c@ == main_branch@,
            None => "HEAD"@ == main_branch@,
        }) ==> (ff matches FastForward::MergeFfOnly(args) && words_of(args@) == seq![
            "merge"@,
            "--ff-only"@,
            branch@,
        ]),
        ffable && !(match current_branch {
            Some(c) => c@ == main_branch@,
            None => "HEAD"@ == main_branch@,
        }) ==> ff is MoveRef,
{
    if !ffable {
        return FastForward::Refused(
            WorktreeError::NotAncestor { main_branch: owned(main_branch), branch: owned(branch) },
        );
    }
    let on_main = match current_branch {
        Some(c) => str_eq(c, main_branch),
        None => str_eq("HEAD", main_branch),
    };
    if on_main {
        let mut args: Vec<String> = Vec::new();
        push_word(&mut args, "merge");
        push_word(&mut args, "--ff-only");
        push_word(&mut args, branch);
        FastForward::MergeFfOnly(args)
    } else {
        FastForward::MoveRef
    }
}

/// `git rev-parse --verify <refname>`: resolves a ref for `update-ref`.
pub fn rev_parse_args(refname: &str) -> (args: Vec<String>)
    ensures
        words_of(args@) == seq!["rev-parse"@, "--verify"@, refname@],
{
    let mut args: Vec<String> = Vec::new();
    push_word(&mut args, "rev-parse");
    push_word(&mut args, "--verify");
    push_word(&mut args, refname);
    args
}

/// `git update-ref` moving `refs/heads/<main>` to the resolved branch tip,
/// guarded by the resolved old main tip so a racing finish fails instead of
/// clobbering. Takes the raw `rev-parse` outputs.
pub fn update_ref_args(main_branch: &str, new_output: &str, old_output: &str) -> (args: Vec<String>)
    ensures
        words_of(args@) == seq![
            "update-ref"@,
            "-m"@,
            "samokod: fast-forward on plan finish"@,
            "refs/heads/"@ + main_branch@,
            trim_seq(new_output@),
            trim_seq(old_output@),
        ],
{
    let mut args: Vec<String> = Vec::new();
    push_word(&mut args, "update-ref");
    push_word(&mut args, "-m");
    push_word(&mut args, "samokod: fast-forward on plan finish");
    let r = concat2("refs/heads/", main_branch);
    push_word(&mut args, r.as_str());
    let new_tip = head_commit(new_output);
    push_word(&mut args, new_tip.as_str());
    let old_tip = head_commit(old_output);
    push_word(&mut args, old_tip.as_str());
    args
}

} // verus!
