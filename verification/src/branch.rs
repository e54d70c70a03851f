//! Live branch tracking: where a repository's HEAD file lives (following
//! the `gitdir:` pointer of linked worktrees) and what `rev-parse` output
//! says the branch is.
use vstd::prelude::*;

use crate::paths::{join_path, join_seq};
use crate::text::{chars_of, owned, slice_chars, str_eq, string_of, trim_chars, trim_seq};

verus! {

/// What `<root>/.git` is on disk.
#[derive(Debug, Clone, PartialEq, Eq)]
pub enum DotGit {
    /// A directory: a plain repository.
    Dir,
    /// A file (a linked worktree's pointer), with its text when readable.
    File(Option<String>),
    /// Neither.
    Missing,
}

/// The HEAD file a `.git` entry leads to.
pub open spec fn head_path_of(repo_root: Seq<char>, dot_git: DotGit) -> Option<Seq<char>> {
    match dot_git {
        DotGit::Dir => Some(join_seq(join_seq(repo_root, ".git"@), "HEAD"@)),
        DotGit::File(Some(text)) => if text@.len() >= 7 && text@.take(7) == "gitdir:"@ {
            let pointer = trim_seq(text@.skip(7));
            let gitdir = if pointer.len() > 0 && pointer[0] == '/' {
                pointer
            } else {
                join_seq(repo_root, pointer)
            };
            Some(join_seq(gitdir, "HEAD"@))
        } else {
            None
        },
        _ => None,
    }
}

/// Resolves the HEAD file for a repo root. Follows the `gitdir:` pointer in
/// `.git` for linked worktrees; otherwise `<root>/.git/HEAD`.
pub fn head_path(repo_root: &str, dot_git: &DotGit) -> (head: Option<String>)
    ensures
        match head {
            Some(h) => head_path_of(repo_root@, *dot_git) == Some(h@),
            None => head_path_of(repo_root@, *dot_git) is None,
        },
{
    match dot_git {
        DotGit::Dir => {
            let g = join_path(repo_root, ".git");
            Some(join_path(g.as_str(), "HEAD"))
        },
        DotGit::File(Some(text)) => {
            let v = chars_of(text.as_str());
            proof {
                reveal_strlit("gitdir:");
            }
            if v.len() < 7 {
                return None;
            }
            let prefix = slice_chars(&v, 0, 7);
            let p = string_of(&prefix);
            if !str_eq(p.as_str(), "gitdir:") {
                assert(v@.take(7) == prefix@);
                return None;
            }
            assert(v@.take(7) == prefix@);
            let rest = slice_chars(&v, 7, v.len());
            assert(rest@ == v@.skip(7));
            let pointer = trim_chars(&rest);
            let pointer_s = string_of(&pointer);
            let gitdir = if pointer.len() > 0 && pointer[0] == '/' {
                pointer_s
            } else {
                join_path(repo_root, pointer_s.as_str())
            };
            Some(join_path(gitdir.as_str(), "HEAD"))
        },
        _ => None,
    }
}

/// `git rev-parse --abbrev-ref HEAD`.
pub fn current_branch_args() -> (args: Vec<String>)
    ensures
        args@.map_values(|a: String| a@) == seq!["rev-parse"@, "--abbrev-ref"@, "HEAD"@],
{
    let mut args: Vec<String> = Vec::new();
    args.push(owned("rev-parse"));
    args.push(owned("--abbrev-ref"));
    args.push(owned("HEAD"));
    assert(args@.map_values(|a: String| a@) =~= seq!["rev-parse"@, "--abbrev-ref"@, "HEAD"@]);
    args
}

/// The current branch from a `rev-parse` run: `None` when it could not run
/// or failed, else its trimmed output. A detached HEAD reads `HEAD`.
pub fn current_branch(run: Option<(bool, String)>) -> (branch: Option<String>)
    ensures
        match run {
            Some((true, out)) => branch matches Some(b) && b@ == trim_seq(out@),
            _ => branch is None,
        },
{
    match run {
        Some((true, out)) => {
            let v = chars_of(out.as_str());
            let t = trim_chars(&v);
            Some(string_of(&t))
        },
        _ => None,
    }
}

/// Whether a watcher event touched the HEAD file.
pub fn is_head_event(paths: &Vec<String>, head: &str) -> (hit: bool)
    ensures
        hit == exists|i: int| 0 <= i < paths@.len() && #[trigger] paths@[i]@ == head@,
{
    let mut i: usize = 0;
    while i < paths.len()
        invariant
            i <= paths.len(),
            forall|k: int| 0 <= k < i ==> #[trigger] paths@[k]@ != head@,
        decreases paths.len() - i,
    {
        if str_eq(paths[i].as_str(), head) {
            return true;
        }
        i = i + 1;
    }
    false
}

/// The branch a HEAD change reports, if any: a fresh non-empty branch.
pub fn reported_branch(branch: Option<String>) -> (report: Option<String>)
    ensures
        match branch {
            Some(b) if b@.len() > 0 => report == Some(b),
            _ => report is None,
        },
{
    match branch {
        Some(b) => {
            let v = chars_of(b.as_str());
            if v.len() > 0 {
                Some(b)
            } else {
                None
            }
        },
        None => None,
    }
}

} // verus!
