//! Locating the `opencode` binary: the directories searched, in order, and
//! which candidate wins. Restores the shell PATH when the app is launched
//! with a minimal system PATH. A missing binary is a typed error with
//! install guidance and never enters retry logic.
use vstd::prelude::*;

use crate::paths::{join_path, join_seq};
use crate::text::{chars_of, contains_seq, occurs_at, occurs_at_exec, owned, seq_eq, slice_chars, string_of, str_eq, trim_chars, trim_seq};
use crate::types::AgentError;

verus! {

/// `s` split at every `sep`, keeping empty pieces.
pub open spec fn split_on(s: Seq<char>, sep: char) -> Seq<Seq<char>>
    decreases s.len(),
{
    if s.len() == 0 {
        seq![Seq::empty()]
    } else {
        let pieces = split_on(s.drop_last(), sep);
        if s.last() == sep {
            pieces.push(Seq::empty())
        } else {
            pieces.update(pieces.len() - 1, pieces.last().push(s.last()))
        }
    }
}

proof fn lemma_split_nonempty(s: Seq<char>, sep: char)
    ensures
        split_on(s, sep).len() >= 1,
    decreases s.len(),
{
    if s.len() > 0 {
        lemma_split_nonempty(s.drop_last(), sep);
    }
}

pub open spec fn strings_view(v: Seq<String>) -> Seq<Seq<char>> {
    v.map_values(|s: String| s@)
}

/// The directories of a PATH value: none when it is blank, else its
/// trimmed text split at `:`.
pub open spec fn path_dirs_of(value: Seq<char>) -> Seq<Seq<char>> {
    let trimmed = trim_seq(value);
    if trimmed.len() == 0 {
        Seq::empty()
    } else {
        split_on(trimmed, ':')
    }
}

/// Splits a PATH value into directories.
pub fn split_path_value(value: &str) -> (dirs: Vec<String>)
    ensures
        strings_view(dirs@) == path_dirs_of(value@),
{
    let v = chars_of(value);
    let t = trim_chars(&v);
    let mut dirs: Vec<String> = Vec::new();
    if t.len() == 0 {
        assert(strings_view(dirs@) =~= Seq::<Seq<char>>::empty());
        return dirs;
    }
    let mut cur: Vec<char> = Vec::new();
    let mut i: usize = 0;
    assert(t@.take(0) =~= Seq::<char>::empty());
    assert(strings_view(dirs@).push(cur@) =~= split_on(t@.take(0), ':'));
    while i < t.len()
        invariant
            i <= t.len(),
            strings_view(dirs@).push(cur@) == split_on(t@.take(i as int), ':'),
        decreases t.len() - i,
    {
        let c = t[i];
        let ghost prev = t@.take(i as int);
        assert(t@.take(i + 1).drop_last() == prev);
        assert(t@.take(i + 1).last() == c);
        proof {
            lemma_split_nonempty(prev, ':');
        }
        if c == ':' {
            let piece = string_of(&cur);
            let ghost before = dirs@;
            dirs.push(piece);
            assert(strings_view(dirs@) =~= strings_view(before).push(cur@));
            cur = Vec::new();
            assert(strings_view(dirs@).push(cur@) =~= split_on(prev, ':').push(Seq::empty()));
        } else {
            let ghost before = cur@;
            cur.push(c);
            assert(strings_view(dirs@).push(cur@) =~= split_on(prev, ':').update(
                split_on(prev, ':').len() - 1,
                split_on(prev, ':').last().push(c),
            ));
        }
        i = i + 1;
    }
    assert(t@.take(t.len() as int) == t@);
    let ghost before = dirs@;
    dirs.push(string_of(&cur));
    assert(strings_view(dirs@) =~= strings_view(before).push(cur@));
    dirs
}

/// The first position at which `needle` occurs in `hay`, if any.
#[verifier::opaque]
pub open spec fn first_occurrence(hay: Seq<char>, needle: Seq<char>) -> Option<int> {
    if contains_seq(hay, needle) {
        Some(choose|i: int| occurs_at(hay, needle, i) && forall|j: int| 0 <= j < i ==> !occurs_at(hay, needle, j))
    } else {
        None
    }
}

/// The characters before the first `c`, or all of them.
pub open spec fn until_char(s: Seq<char>, c: char) -> Seq<char>
    decreases s.len(),
{
    if s.len() == 0 || s[0] == c {
        Seq::empty()
    } else {
        seq![s[0]] + until_char(s.skip(1), c)
    }
}

/// The quoted PATH value in `path_helper -s` output: the piece after the
/// first `PATH="` (up to a second `PATH="`, if any), up to its first `"`;
/// empty when there is none.
pub open spec fn helper_value(output: Seq<char>) -> Seq<char> {
    match first_occurrence(output, "PATH=\""@) {
        Some(i) => {
            let rest = output.skip(i + 6);
            let piece = match first_occurrence(rest, "PATH=\""@) {
                Some(j) => rest.take(j),
                None => rest,
            };
            until_char(piece, '"')
        },
        None => Seq::empty(),
    }
}

/// The first position at which `needle` occurs in `hay`.
fn find_first(hay: &Vec<char>, needle: &Vec<char>) -> (found: Option<usize>)
    requires
        needle.len() > 0,
    ensures
        match found {
            Some(i) => first_occurrence(hay@, needle@) == Some(i as int) && occurs_at(hay@, needle@, i as int),
            None => first_occurrence(hay@, needle@) is None,
        },
{
    reveal(first_occurrence);
    let mut i: usize = 0;
    while i < hay.len()
        invariant
            i <= hay.len(),
            needle.len() > 0,
            forall|k: int| 0 <= k < i ==> !occurs_at(hay@, needle@, k),
        decreases hay.len() - i,
    {
        if occurs_at_exec(hay, needle, i) {
            assert(contains_seq(hay@, needle@));
            proof {
                let w = choose|w: int| occurs_at(hay@, needle@, w) && forall|j: int| 0 <= j < w ==> !occurs_at(hay@, needle@, j);
                assert(occurs_at(hay@, needle@, i as int) && forall|j: int| 0 <= j < i ==> !occurs_at(hay@, needle@, j));
                assert(occurs_at(hay@, needle@, w) && forall|j: int| 0 <= j < w ==> !occurs_at(hay@, needle@, j));
                if w < i {
                    assert(!occurs_at(hay@, needle@, w));
                } else if w > i {
                    assert(!occurs_at(hay@, needle@, i as int));
                }
                assert(w == i);
                reveal(first_occurrence);
                assert(first_occurrence(hay@, needle@) == Some(i as int));
            }
            return Some(i);
        }
        i = i + 1;
    }
    assert forall|k: int| !occurs_at(hay@, needle@, k) by {
        if 0 <= k < hay.len() {
        }
    }
    None
}

fn until_quote(v: &Vec<char>, from: usize) -> (out: Vec<char>)
    requires
        from <= v.len(),
    ensures
        out@ == until_char(v@.skip(from as int), '"'),
{
    let mut j: usize = from;
    assert(v@.skip(from as int).skip(0) == v@.skip(from as int));
    while j < v.len() && v[j] != '"'
        invariant
            from <= j <= v.len(),
            until_char(v@.skip(from as int), '"') == v@.subrange(from as int, j as int) + until_char(
                v@.skip(j as int),
                '"',
            ),
        decreases v.len() - j,
    {
        assert(v@.skip(j as int)[0] == v@[j as int]);
        assert(v@.skip(j as int).skip(1) == v@.skip(j + 1));
        assert(v@.subrange(from as int, j + 1) == v@.subrange(from as int, j as int) + seq![v@[j as int]]);
        j = j + 1;
    }
    assert(until_char(v@.skip(j as int), '"') == Seq::<char>::empty());
    slice_chars(v, from, j)
}

/// The piece of `v` after its first `needle`, up to a second one.
fn piece_after(v: &Vec<char>, needle: &Vec<char>) -> (piece: Option<Vec<char>>)
    requires
        needle.len() > 0,
    ensures
        match first_occurrence(v@, needle@) {
            Some(i) => piece matches Some(p) && p@ == ({
                let rest = v@.skip(i + needle@.len());
                match first_occurrence(rest, needle@) {
                    Some(j) => rest.take(j),
                    None => rest,
                }
            }),
            None => piece is None,
        },
{
    match find_first(v, needle) {
        None => None,
        Some(i) => {
            let n = needle.len();
            assert(occurs_at(v@, needle@, i as int));
            assert(i + n <= v.len());
            let rest = slice_chars(v, i + n, v.len());
            let ghost r = v@.skip(i + needle@.len());
            assert(rest@ =~= r);
            match find_first(&rest, needle) {
                Some(j) => {
                    let p = slice_chars(&rest, 0, j);
                    assert(p@ =~= r.take(j as int));
                    Some(p)
                },
                None => Some(rest),
            }
        },
    }
}

/// The directories `/usr/libexec/path_helper -s` reports.
pub fn parse_path_helper(output: &str) -> (dirs: Vec<String>)
    ensures
        strings_view(dirs@) == path_dirs_of(helper_value(output@)),
{
    proof {
        reveal_strlit("PATH=\"");
        reveal_strlit("");
    }
    let v = chars_of(output);
    let needle = chars_of("PATH=\"");
    assert(needle@.len() == 6);
    match piece_after(&v, &needle) {
        None => split_path_value(""),
        Some(piece) => {
            assert(piece@.skip(0) == piece@);
            let value = until_quote(&piece, 0);
            let s = string_of(&value);
            split_path_value(s.as_str())
        },
    }
}

/// The candidate directories in search order: the process PATH, then the
/// `path_helper` PATH, then the login shell's PATH.
pub fn candidate_dirs(process: &Vec<String>, helper: &Vec<String>, shell: &Vec<String>) -> (dirs: Vec<String>)
    ensures
        strings_view(dirs@) == strings_view(process@) + strings_view(helper@) + strings_view(shell@),
{
    let mut dirs: Vec<String> = Vec::new();
    let mut k: usize = 0;
    while k < 3
        invariant
            k <= 3,
            strings_view(dirs@) == if k == 0 {
                Seq::empty()
            } else if k == 1 {
                strings_view(process@)
            } else if k == 2 {
                strings_view(process@) + strings_view(helper@)
            } else {
                strings_view(process@) + strings_view(helper@) + strings_view(shell@)
            },
        decreases 3 - k,
    {
        let part = if k == 0 {
            process
        } else if k == 1 {
            helper
        } else {
            shell
        };
        let ghost start = strings_view(dirs@);
        let mut i: usize = 0;
        while i < part.len()
            invariant
                i <= part.len(),
                strings_view(dirs@) == start + strings_view(part@).take(i as int),
            decreases part.len() - i,
        {
            let ghost before = dirs@;
            dirs.push(owned(part[i].as_str()));
            assert(strings_view(dirs@) =~= strings_view(before).push(part@[i as int]@));
            assert(strings_view(part@).take(i + 1) =~= strings_view(part@).take(i as int).push(part@[i as int]@));
            i = i + 1;
        }
        assert(strings_view(part@).take(part.len() as int) == strings_view(part@));
        k = k + 1;
    }
    dirs
}

/// Search order with blank entries and repeats dropped: each directory at
/// its first position only.
pub open spec fn searched_dirs(dirs: Seq<Seq<char>>) -> Seq<Seq<char>>
    decreases dirs.len(),
{
    if dirs.len() == 0 {
        Seq::empty()
    } else {
        let earlier = searched_dirs(dirs.drop_last());
        if dirs.last().len() == 0 || earlier.contains(dirs.last()) {
            earlier
        } else {
            earlier.push(dirs.last())
        }
    }
}

/// The binary paths to probe, in order: `<dir>/opencode` for each searched
/// directory.
pub open spec fn binary_candidates_of(dirs: Seq<Seq<char>>) -> Seq<Seq<char>> {
    searched_dirs(dirs).map_values(|d: Seq<char>| join_seq(d, "opencode"@))
}

fn contains_string(list: &Vec<String>, item: &str) -> (found: bool)
    ensures
        found == strings_view(list@).contains(item@),
{
    let mut i: usize = 0;
    while i < list.len()
        invariant
            i <= list.len(),
            forall|k: int| 0 <= k < i ==> list@[k]@ != item@,
        decreases list.len() - i,
    {
        if str_eq(list[i].as_str(), item) {
            assert(strings_view(list@)[i as int] == item@);
            return true;
        }
        i = i + 1;
    }
    assert forall|k: int| 0 <= k < strings_view(list@).len() implies strings_view(list@)[k] != item@ by {
        assert(strings_view(list@)[k] == list@[k]@);
    }
    false
}

/// The binary paths to probe for the given directories, in order.
pub fn binary_candidates(dirs: &Vec<String>) -> (candidates: Vec<String>)
    ensures
        strings_view(candidates@) == binary_candidates_of(strings_view(dirs@)),
{
    let mut seen: Vec<String> = Vec::new();
    let mut i: usize = 0;
    while i < dirs.len()
        invariant
            i <= dirs.len(),
            strings_view(seen@) == searched_dirs(strings_view(dirs@).take(i as int)),
        decreases dirs.len() - i,
    {
        let d = dirs[i].as_str();
        assert(strings_view(dirs@).take(i + 1).drop_last() == strings_view(dirs@).take(i as int));
        assert(strings_view(dirs@).take(i + 1).last() == dirs@[i as int]@);
        let blank = chars_of(d).len() == 0;
        if !blank && !contains_string(&seen, d) {
            let ghost before = seen@;
            seen.push(owned(d));
            assert(strings_view(seen@) =~= strings_view(before).push(d@));
        }
        i = i + 1;
    }
    assert(strings_view(dirs@).take(dirs.len() as int) == strings_view(dirs@));
    let mut out: Vec<String> = Vec::new();
    let mut k: usize = 0;
    while k < seen.len()
        invariant
            k <= seen.len(),
            strings_view(out@) == strings_view(seen@).take(k as int).map_values(|d: Seq<char>| join_seq(d, "opencode"@)),
        decreases seen.len() - k,
    {
        let ghost before = out@;
        out.push(join_path(seen[k].as_str(), "opencode"));
        assert(strings_view(out@) =~= strings_view(before).push(join_seq(seen@[k as int]@, "opencode"@)));
        assert(strings_view(seen@).take(k + 1).map_values(|d: Seq<char>| join_seq(d, "opencode"@)) =~= strings_view(seen@).take(k as int).map_values(|d: Seq<char>| join_seq(d, "opencode"@)).push(join_seq(seen@[k as int]@, "opencode"@)));
        k = k + 1;
    }
    assert(strings_view(seen@).take(seen.len() as int) == strings_view(seen@));
    out
}

/// The first candidate marked executable.
pub open spec fn first_executable(candidates: Seq<Seq<char>>, executable: Seq<bool>) -> Option<Seq<char>>
    decreases candidates.len(),
{
    if candidates.len() == 0 || executable.len() == 0 {
        None
    } else if executable[0] {
        Some(candidates[0])
    } else {
        first_executable(candidates.skip(1), executable.skip(1))
    }
}

/// Picks the binary among the candidates of `binary_candidates(dirs)`:
/// `executable[i]` says whether the `i`-th is an executable file. The
/// first one wins; none is the typed missing-binary error.
pub fn resolve_in_dirs(dirs: &Vec<String>, executable: &Vec<bool>) -> (binary: Result<String, AgentError>)
    requires
        executable@.len() == binary_candidates_of(strings_view(dirs@)).len(),
    ensures
        match binary {
            Ok(b) => first_executable(binary_candidates_of(strings_view(dirs@)), executable@) == Some(b@),
            Err(e) => e == AgentError::MissingBinary && first_executable(
                binary_candidates_of(strings_view(dirs@)),
                executable@,
            ) is None,
        },
{
    let candidates = binary_candidates(dirs);
    let ghost cs = strings_view(candidates@);
    let mut i: usize = 0;
    assert(cs.skip(0) == cs);
    assert(executable@.skip(0) == executable@);
    while i < candidates.len()
        invariant
            i <= candidates.len(),
            candidates.len() == executable.len(),
            cs == strings_view(candidates@),
            cs == binary_candidates_of(strings_view(dirs@)),
            first_executable(cs, executable@) == first_executable(cs.skip(i as int), executable@.skip(i as int)),
        decreases candidates.len() - i,
    {
        assert(cs.skip(i as int)[0] == candidates@[i as int]@);
        assert(executable@.skip(i as int)[0] == executable@[i as int]);
        assert(cs.skip(i as int).skip(1) == cs.skip(i + 1));
        assert(executable@.skip(i as int).skip(1) == executable@.skip(i + 1));
        if executable[i] {
            return Ok(owned(candidates[i].as_str()));
        }
        i = i + 1;
    }
    Err(AgentError::MissingBinary)
}

/// Locates the `opencode` binary across the process, `path_helper` and
/// login-shell PATHs; `executable` probes the candidates of the joined
/// directories, as `resolve_in_dirs` reads them.
pub fn resolve_opencode_binary(
    process: &Vec<String>,
    helper: &Vec<String>,
    shell: &Vec<String>,
    executable: &Vec<bool>,
) -> (binary: Result<String, AgentError>)
    requires
        executable@.len() == binary_candidates_of(
            strings_view(process@) + strings_view(helper@) + strings_view(shell@),
        ).len(),
    ensures
        match binary {
            Ok(b) => first_executable(
                binary_candidates_of(strings_view(process@) + strings_view(helper@) + strings_view(shell@)),
                executable@,
            ) == Some(b@),
            Err(e) => e == AgentError::MissingBinary && first_executable(
                binary_candidates_of(strings_view(process@) + strings_view(helper@) + strings_view(shell@)),
                executable@,
            ) is None,
        },
{
    let dirs = candidate_dirs(process, helper, shell);
    resolve_in_dirs(&dirs, executable)
}

/// The shells asked for a login PATH, in order and without repeats:
/// `$SHELL` when set and non-empty, then `/bin/sh`.
pub fn login_shells(shell_env: Option<&str>) -> (shells: Vec<String>)
    ensures
        strings_view(shells@) == match shell_env {
            Some(s) if s@.len() > 0 && s@ != "/bin/sh"@ => seq![s@, "/bin/sh"@],
            _ => seq!["/bin/sh"@],
        },
{
    let mut shells: Vec<String> = Vec::new();
    if let Some(s) = shell_env {
        if chars_of(s).len() > 0 && !str_eq(s, "/bin/sh") {
            shells.push(owned(s));
        }
    }
    shells.push(owned("/bin/sh"));
    assert(strings_view(shells@) =~= match shell_env {
        Some(s) if s@.len() > 0 && s@ != "/bin/sh"@ => seq![s@, "/bin/sh"@],
        _ => seq!["/bin/sh"@],
    });
    shells
}

/// The arguments that make a login shell print its PATH.
pub fn login_shell_args() -> (args: Vec<String>)
    ensures
        strings_view(args@) == seq!["-lic"@, "echo $PATH"@],
{
    let mut args: Vec<String> = Vec::new();
    args.push(owned("-lic"));
    args.push(owned("echo $PATH"));
    assert(strings_view(args@) =~= seq!["-lic"@, "echo $PATH"@]);
    args
}

} // verus!
