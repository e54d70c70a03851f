//! The single-session desktop shell: one agent process shared by every
//! session, recent repos remembered with their branch, and the last model
//! chosen per repo.
use vstd::prelude::*;

use crate::acp::{binary_candidates_of, first_executable, path_dirs_of, resolve_in_dirs, split_path_value, strings_view};
use crate::json::{Json, json_get};
use crate::prefs::{MAX_RECENT, recorded, without};
use crate::protocol::ConfigOption;
use crate::repo_state::StoredText;
use crate::session_config::{current_and_values, select_values, value_views};
use crate::text::{chars_of, contains_seq, contains_str, lowercase, owned, str_eq, to_lowercase, trim_chars, trim_seq, string_of, concat2};
use crate::todos::{parsed_todos, todos_view};
use crate::types::{ConfigOptionValueView, TodoView};

verus! {

/// Failures of the shared agent.
#[derive(Debug, Clone, PartialEq, Eq)]
pub enum AgentError {
    MissingBinary,
    AgentExited { raw: String },
    RequestFailed { raw: String },
    NoSession { raw: String },
}

pub open spec fn agent_error_message(error: AgentError) -> Seq<char> {
    match error {
        AgentError::MissingBinary => "opencode binary not found. Install it with: npm install -g opencode-ai"@,
        AgentError::AgentExited { raw } => "agent exited: "@ + raw@,
        AgentError::RequestFailed { raw } => "request failed: "@ + raw@,
        AgentError::NoSession { raw } => "no session: "@ + raw@,
    }
}

impl AgentError {
    pub fn to_string(&self) -> (message: String)
        ensures
            message@ == agent_error_message(*self),
    {
        match self {
            AgentError::MissingBinary => owned("opencode binary not found. Install it with: npm install -g opencode-ai"),
            AgentError::AgentExited { raw } => concat2("agent exited: ", raw.as_str()),
            AgentError::RequestFailed { raw } => concat2("request failed: ", raw.as_str()),
            AgentError::NoSession { raw } => concat2("no session: ", raw.as_str()),
        }
    }
}

/// Spawn failures arrive as text, so missing binaries are classified by
/// matching the process output.
pub fn map_startup_error(raw: &str) -> (error: AgentError)
    ensures
        crate::agent::session::says_missing_binary(lowercase(raw@)) ==> error == AgentError::MissingBinary,
        !crate::agent::session::says_missing_binary(lowercase(raw@)) ==> (error matches AgentError::AgentExited { raw: r } && r@ == raw@),
{
    let lowered = to_lowercase(raw);
    startup_error_from(raw, lowered.as_str())
}

/// The startup error for raw output given its lowercase (what
/// `map_startup_error` does after lowercasing).
pub fn startup_error_from(raw: &str, lowered: &str) -> (error: AgentError)
    ensures
        crate::agent::session::says_missing_binary(lowered@) ==> error == AgentError::MissingBinary,
        !crate::agent::session::says_missing_binary(lowered@) ==> (error matches AgentError::AgentExited { raw: r } && r@ == raw@),
{
    if crate::agent::session::missing_binary_in(lowered) {
        return AgentError::MissingBinary;
    }
    AgentError::AgentExited { raw: owned(raw) }
}

/// Recent repo row for the picker: its path and last branch.
#[derive(Debug, Clone, PartialEq, Eq)]
pub struct RecentRepo {
    pub path: String,
    pub branch: String,
}

/// Local preferences: recent repos, the last opened repo and the model
/// chosen per repo.
#[derive(Debug, Clone, PartialEq, Eq)]
pub struct Prefs {
    pub recent: Vec<RecentRepo>,
    pub last_repo: Option<String>,
    /// Repo root and model id, one entry per repo.
    pub models: Vec<(String, String)>,
}

impl Prefs {
    pub fn new() -> (prefs: Prefs)
        ensures
            prefs.recent@.len() == 0,
            prefs.last_repo is None,
            prefs.models@.len() == 0,
    {
        Prefs { recent: Vec::new(), last_repo: None, models: Vec::new() }
    }
}

pub open spec fn recent_paths(recent: Seq<RecentRepo>) -> Seq<Seq<char>> {
    recent.map_values(|r: RecentRepo| r.path@)
}

/// The recent rows as `(path, branch)`.
pub open spec fn recent_rows(recent: Seq<RecentRepo>) -> Seq<(Seq<char>, Seq<char>)> {
    recent.map_values(|r: RecentRepo| (r.path@, r.branch@))
}

/// `rows` without the rows for `path`, in order.
pub open spec fn rows_without(rows: Seq<(Seq<char>, Seq<char>)>, path: Seq<char>) -> Seq<(Seq<char>, Seq<char>)>
    decreases rows.len(),
{
    if rows.len() == 0 {
        Seq::empty()
    } else if rows.last().0 == path {
        rows_without(rows.drop_last(), path)
    } else {
        rows_without(rows.drop_last(), path).push(rows.last())
    }
}

/// The rows after opening `path` on `branch`: it moves to the front with
/// that branch, its older row goes, the others keep their branches, and at
/// most `MAX_RECENT` rows stay.
pub open spec fn recorded_rows(rows: Seq<(Seq<char>, Seq<char>)>, path: Seq<char>, branch: Seq<char>) -> Seq<(Seq<char>, Seq<char>)> {
    let moved = seq![(path, branch)] + rows_without(rows, path);
    if moved.len() > MAX_RECENT {
        moved.take(MAX_RECENT as int)
    } else {
        moved
    }
}

/// Records a repo open: moves it to the front with its current branch,
/// caps the list, and stores it as the last repo.
pub fn record_open(prefs: &mut Prefs, path: &str, branch: &str)
    ensures
        recent_rows(final(prefs).recent@) == recorded_rows(recent_rows(old(prefs).recent@), path@, branch@),
        recent_paths(final(prefs).recent@) == recorded(recent_paths(old(prefs).recent@), path@),
        final(prefs).last_repo matches Some(l) && l@ == path@,
        final(prefs).models == old(prefs).models,
{
    let mut recent: Vec<RecentRepo> = Vec::new();
    recent.push(RecentRepo { path: owned(path), branch: owned(branch) });
    let ghost paths = recent_paths(prefs.recent@);
    let ghost rows = recent_rows(prefs.recent@);
    let ghost first = seq![(path@, branch@)];
    let mut i: usize = 0;
    assert(recent_rows(recent@) =~= first);
    assert(recent_paths(recent@) =~= seq![path@]);
    while i < prefs.recent.len()
        invariant
            i <= prefs.recent.len(),
            paths == recent_paths(prefs.recent@),
            rows == recent_rows(prefs.recent@),
            first == seq![(path@, branch@)],
            1 <= recent.len() <= MAX_RECENT,
            recent.len() < MAX_RECENT ==> recent_paths(recent@) == seq![path@] + without(paths.take(i as int), path@),
            recent.len() == MAX_RECENT ==> recent_paths(recent@) == (seq![path@] + without(paths.take(i as int), path@)).take(MAX_RECENT as int),
            (seq![path@] + without(paths.take(i as int), path@)).len() >= recent.len(),
            recent.len() < MAX_RECENT ==> recent_rows(recent@) == first + rows_without(rows.take(i as int), path@),
            recent.len() == MAX_RECENT ==> recent_rows(recent@) == (first + rows_without(rows.take(i as int), path@)).take(MAX_RECENT as int),
            (first + rows_without(rows.take(i as int), path@)).len() >= recent.len(),
        decreases prefs.recent.len() - i,
    {
        let ghost before = recent@;
        assert(paths.take(i + 1).drop_last() == paths.take(i as int));
        assert(paths.take(i + 1).last() == paths[i as int]);
        assert(rows.take(i + 1).drop_last() == rows.take(i as int));
        assert(rows.take(i + 1).last() == rows[i as int]);
        let same = str_eq(prefs.recent[i].path.as_str(), path);
        if !same && recent.len() < MAX_RECENT {
            recent.push(RecentRepo { path: owned(prefs.recent[i].path.as_str()), branch: owned(prefs.recent[i].branch.as_str()) });
            assert(recent_paths(recent@) =~= recent_paths(before).push(paths[i as int]));
            assert((seq![path@] + without(paths.take(i + 1), path@)) =~= (seq![path@] + without(paths.take(i as int), path@)).push(paths[i as int]));
            assert(recent_rows(recent@) =~= recent_rows(before).push(rows[i as int]));
            assert((first + rows_without(rows.take(i + 1), path@)) =~= (first + rows_without(rows.take(i as int), path@)).push(rows[i as int]));
        } else if !same {
            assert((seq![path@] + without(paths.take(i + 1), path@)) =~= (seq![path@] + without(paths.take(i as int), path@)).push(paths[i as int]));
            assert((seq![path@] + without(paths.take(i + 1), path@)).take(MAX_RECENT as int) =~= (seq![path@] + without(paths.take(i as int), path@)).take(MAX_RECENT as int));
            assert((first + rows_without(rows.take(i + 1), path@)) =~= (first + rows_without(rows.take(i as int), path@)).push(rows[i as int]));
            assert((first + rows_without(rows.take(i + 1), path@)).take(MAX_RECENT as int) =~= (first + rows_without(rows.take(i as int), path@)).take(MAX_RECENT as int));
        }
        i = i + 1;
    }
    assert(paths.take(prefs.recent.len() as int) == paths);
    assert(rows.take(prefs.recent.len() as int) == rows);
    prefs.recent = recent;
    prefs.last_repo = Some(owned(path));
}

/// The model stored for a repo.
pub open spec fn model_for(models: Seq<(String, String)>, repo: Seq<char>) -> Option<Seq<char>>
    decreases models.len(),
{
    if models.len() == 0 {
        None
    } else if models.last().0@ == repo {
        Some(models.last().1@)
    } else {
        model_for(models.drop_last(), repo)
    }
}

/// The model last chosen for a repo, if any.
pub fn stored_model(prefs: &Prefs, repo: &str) -> (model: Option<String>)
    ensures
        match model {
            Some(m) => model_for(prefs.models@, repo@) == Some(m@),
            None => model_for(prefs.models@, repo@) is None,
        },
{
    let mut i: usize = prefs.models.len();
    assert(prefs.models@.take(i as int) == prefs.models@);
    while i > 0
        invariant
            i <= prefs.models.len(),
            model_for(prefs.models@, repo@) == model_for(prefs.models@.take(i as int), repo@),
        decreases i,
    {
        assert(prefs.models@.take(i as int).drop_last() == prefs.models@.take(i - 1));
        assert(prefs.models@.take(i as int).last() == prefs.models@[i - 1]);
        if str_eq(prefs.models[i - 1].0.as_str(), repo) {
            return Some(owned(prefs.models[i - 1].1.as_str()));
        }
        i = i - 1;
    }
    assert(prefs.models@.take(0).len() == 0);
    None
}

/// Remembers the model chosen for a repo: later reads of that repo give it.
pub fn record_model(prefs: &mut Prefs, repo: &str, model: &str)
    ensures
        model_for(final(prefs).models@, repo@) == Some(model@),
        forall|other: Seq<char>| other != repo@ ==> model_for(final(prefs).models@, other) == model_for(old(prefs).models@, other),
        final(prefs).recent == old(prefs).recent,
        final(prefs).last_repo == old(prefs).last_repo,
{
    let ghost before = prefs.models@;
    prefs.models.push((owned(repo), owned(model)));
    assert(prefs.models@.drop_last() == before);
}

/// Case-insensitive `todowrite` match on the programmatic tool name, ASCII
/// letters only.
pub open spec fn ascii_lower(c: char) -> char {
    if 'A' <= c && c <= 'Z' {
        ((c as u32) + 32) as char
    } else {
        c
    }
}

pub open spec fn is_todowrite_name(name: Seq<char>) -> bool {
    name.len() == 9 && forall|i: int| 0 <= i < 9 ==> ascii_lower(#[trigger] name[i]) == "todowrite"@[i]
}

fn lower_ascii(c: char) -> (l: char)
    ensures
        l == ascii_lower(c),
{
    if 'A' <= c && c <= 'Z' {
        ((c as u8) + 32) as char
    } else {
        c
    }
}

pub fn is_todowrite(name: Option<&str>) -> (matches_: bool)
    ensures
        matches_ == match name {
            Some(n) => is_todowrite_name(n@),
            None => false,
        },
{
    proof {
        reveal_strlit("todowrite");
    }
    match name {
        Some(n) => {
            let v = chars_of(n);
            let target = chars_of("todowrite");
            if v.len() != 9 {
                return false;
            }
            let mut i: usize = 0;
            while i < 9
                invariant
                    i <= 9,
                    v.len() == 9,
                    v@ == n@,
                    name == Some(n),
                    target@ == "todowrite"@,
                    "todowrite"@.len() == 9,
                    forall|k: int| 0 <= k < i ==> ascii_lower(v@[k]) == "todowrite"@[k],
                decreases 9 - i,
            {
                if lower_ascii(v[i]) != target[i] {
                    assert(ascii_lower(n@[i as int]) != "todowrite"@[i as int]);
                    return false;
                }
                i = i + 1;
            }
            true
        },
        None => false,
    }
}

/// Parses a todo list from a raw tool payload; no list parses to none.
pub fn parse_todos(payload: &Json) -> (todos: Vec<TodoView>)
    ensures
        match parsed_todos(*payload) {
            Some(list) => todos_view(todos@) == list,
            None => todos@.len() == 0,
        },
{
    match crate::todos::parse_todos(payload) {
        Some(list) => list,
        None => Vec::new(),
    }
}

/// Running token sums for one session. End-turn usage covers the latest
/// turn only, so the app accumulates; turns lost to failure stay missing.
#[derive(Debug, Clone, Copy, PartialEq, Eq, Structural)]
pub struct TokenSums {
    pub input: u64,
    pub output: u64,
}

/// One turn's token usage.
#[derive(Debug, Clone, Copy, PartialEq, Eq, Structural)]
pub struct Usage {
    pub total_tokens: u64,
    pub input_tokens: u64,
    pub output_tokens: u64,
}

impl TokenSums {
    pub fn new() -> (sums: TokenSums)
        ensures
            sums.input == 0 && sums.output == 0,
    {
        TokenSums { input: 0, output: 0 }
    }
}

/// Adds one turn's usage to the running sums.
pub fn add_usage(sums: &mut TokenSums, usage: &Usage)
    requires
        old(sums).input + usage.input_tokens <= u64::MAX,
        old(sums).output + usage.output_tokens <= u64::MAX,
    ensures
        final(sums).input == old(sums).input + usage.input_tokens,
        final(sums).output == old(sums).output + usage.output_tokens,
{
    sums.input = sums.input + usage.input_tokens;
    sums.output = sums.output + usage.output_tokens;
}

/// Root and branch of a validated repository.
#[derive(Debug, Clone, PartialEq, Eq)]
pub struct RepoInfo {
    pub root: String,
    pub branch: String,
}

/// How one git run in a repo went.
#[derive(Debug, Clone, PartialEq, Eq)]
pub enum GitRun {
    /// git could not be started, with the reason.
    NotStarted(String),
    /// git ran: whether it succeeded, and its output when it was UTF-8.
    Ran { success: bool, stdout: Option<String> },
}

/// The output of one git run, or the error the picker shows for `path`.
pub open spec fn git_output_of(path: Seq<char>, run: GitRun) -> Result<Seq<char>, Seq<char>> {
    match run {
        GitRun::NotStarted(e) => Err("git failed: "@ + e@),
        GitRun::Ran { success, stdout } => if !success {
            Err(path + " - not a git repository"@)
        } else {
            match stdout {
                Some(out) => Ok(out@),
                None => Err("git output was not utf-8"@),
            }
        },
    }
}

fn git_output(path: &str, run: &GitRun) -> (out: Result<String, String>)
    ensures
        match out {
            Ok(o) => git_output_of(path@, *run) == Ok::<Seq<char>, Seq<char>>(o@),
            Err(e) => git_output_of(path@, *run) == Err::<Seq<char>, Seq<char>>(e@),
        },
{
    match run {
        GitRun::NotStarted(e) => Err(concat2("git failed: ", e.as_str())),
        GitRun::Ran { success, stdout } => {
            if !*success {
                return Err(concat2(path, " - not a git repository"));
            }
            match stdout {
                Some(out) => Ok(owned(out.as_str())),
                None => Err(owned("git output was not utf-8")),
            }
        },
    }
}

/// Validates that a path is inside a git work tree, from the runs of `git
/// rev-parse --show-toplevel` and `git rev-parse --abbrev-ref HEAD` in it:
/// the trimmed root, and the trimmed branch (`HEAD` when the second run
/// failed).
pub fn validate_repo(path: &str, toplevel: &GitRun, abbrev_ref: &GitRun) -> (info: Result<RepoInfo, String>)
    ensures
        match git_output_of(path@, *toplevel) {
            Err(e) => info matches Err(x) && x@ == e,
            Ok(root) => info matches Ok(i) && i.root@ == trim_seq(root) && i.branch@ == match git_output_of(path@, *abbrev_ref) {
                Ok(b) => trim_seq(b),
                Err(_) => "HEAD"@,
            },
        },
{
    let root = git_output(path, toplevel)?;
    let rv = chars_of(root.as_str());
    let root_trimmed = string_of(&trim_chars(&rv));
    let branch = match git_output(path, abbrev_ref) {
        Ok(out) => {
            let bv = chars_of(out.as_str());
            string_of(&trim_chars(&bv))
        },
        Err(_) => owned("HEAD"),
    };
    Ok(RepoInfo { root: root_trimmed, branch })
}

/// A config option as the shared session shows it: id, name, current value
/// and values, without category.
#[derive(Debug, Clone, PartialEq, Eq)]
pub struct ConfigOptionView {
    pub id: String,
    pub name: String,
    pub current: String,
    pub options: Vec<ConfigOptionValueView>,
}

pub open spec fn view_of(view: ConfigOptionView) -> (Seq<char>, Seq<char>, Seq<char>, Seq<(Seq<char>, Seq<char>)>) {
    (view.id@, view.name@, view.current@, value_views(view.options@))
}

pub open spec fn option_view_of(option: ConfigOption) -> (Seq<char>, Seq<char>, Seq<char>, Seq<(Seq<char>, Seq<char>)>) {
    (option.id@, option.name@, current_and_values(option.kind).0, current_and_values(option.kind).1)
}

/// Converts wire config options to views, keeping the agent's order.
pub fn config_views(options: &[ConfigOption]) -> (views: Vec<ConfigOptionView>)
    ensures
        views@.map_values(|v: ConfigOptionView| view_of(v)) == options@.map_values(|o: ConfigOption| option_view_of(o)),
{
    let full = crate::session_config::config_views(options);
    assert(full@.len() == options@.len()) by {
        assert(full@.map_values(|v: crate::types::ConfigOptionView| crate::session_config::view_of(v)).len() == full@.len());
    }
    let mut views: Vec<ConfigOptionView> = Vec::new();
    let mut i: usize = 0;
    while i < full.len()
        invariant
            i <= full.len(),
            full@.len() == options@.len(),
            full@.map_values(|v: crate::types::ConfigOptionView| crate::session_config::view_of(v)) == options@.map_values(|o: ConfigOption| crate::session_config::option_view_of(o)),
            views@.map_values(|v: ConfigOptionView| view_of(v)) == options@.take(i as int).map_values(|o: ConfigOption| option_view_of(o)),
        decreases full.len() - i,
    {
        let f = &full[i];
        assert(full@.map_values(|v: crate::types::ConfigOptionView| crate::session_config::view_of(v))[i as int] == crate::session_config::view_of(full@[i as int]));
        assert(options@.map_values(|o: ConfigOption| crate::session_config::option_view_of(o))[i as int] == crate::session_config::option_view_of(options@[i as int]));
        assert(crate::session_config::view_of(full@[i as int]) == crate::session_config::option_view_of(options@[i as int]));
        let mut values: Vec<ConfigOptionValueView> = Vec::new();
        let mut k: usize = 0;
        while k < f.options.len()
            invariant
                k <= f.options.len(),
                value_views(values@) == value_views(f.options@).take(k as int),
            decreases f.options.len() - k,
        {
            let ghost before = values@;
            values.push(ConfigOptionValueView { value: owned(f.options[k].value.as_str()), name: owned(f.options[k].name.as_str()) });
            assert(value_views(values@) =~= value_views(before).push((f.options@[k as int].value@, f.options@[k as int].name@)));
            assert(value_views(f.options@).take(k + 1) =~= value_views(f.options@).take(k as int).push((f.options@[k as int].value@, f.options@[k as int].name@)));
            k = k + 1;
        }
        assert(value_views(f.options@).take(f.options.len() as int) == value_views(f.options@));
        let ghost before = views@;
        views.push(ConfigOptionView { id: owned(f.id.as_str()), name: owned(f.name.as_str()), current: owned(f.current_value.as_str()), options: values });
        assert(views@.map_values(|v: ConfigOptionView| view_of(v)) =~= before.map_values(|v: ConfigOptionView| view_of(v)).push(option_view_of(options@[i as int])));
        assert(options@.take(i + 1).map_values(|o: ConfigOption| option_view_of(o)) =~= options@.take(i as int).map_values(|o: ConfigOption| option_view_of(o)).push(option_view_of(options@[i as int])));
        i = i + 1;
    }
    assert(options@.take(options.len() as int) == options@);
    views
}

/// Locates the `opencode` binary on the process PATH (`None` when unset):
/// `executable[i]` says whether the `i`-th candidate is an executable file.
pub fn resolve_in_path(path_var: Option<&str>, executable: &Vec<bool>) -> (binary: Result<String, AgentError>)
    requires
        match path_var {
            Some(p) => executable@.len() == binary_candidates_of(path_dirs_of(p@)).len(),
            None => true,
        },
    ensures
        match path_var {
            None => binary == Err::<String, AgentError>(AgentError::MissingBinary),
            Some(p) => match binary {
                Ok(b) => first_executable(binary_candidates_of(path_dirs_of(p@)), executable@) == Some(b@),
                Err(e) => e == AgentError::MissingBinary && first_executable(binary_candidates_of(path_dirs_of(p@)), executable@) is None,
            },
        },
{
    match path_var {
        None => Err(AgentError::MissingBinary),
        Some(p) => {
            let dirs = split_path_value(p);
            match resolve_in_dirs(&dirs, executable) {
                Ok(b) => Ok(b),
                Err(_) => Err(AgentError::MissingBinary),
            }
        },
    }
}

/// Locates the `opencode` binary on PATH.
pub fn resolve_opencode_binary(path_var: Option<&str>, executable: &Vec<bool>) -> (binary: Result<String, AgentError>)
    requires
        match path_var {
            Some(p) => executable@.len() == binary_candidates_of(path_dirs_of(p@)).len(),
            None => true,
        },
    ensures
        match path_var {
            None => binary == Err::<String, AgentError>(AgentError::MissingBinary),
            Some(p) => match binary {
                Ok(b) => first_executable(binary_candidates_of(path_dirs_of(p@)), executable@) == Some(b@),
                Err(e) => e == AgentError::MissingBinary && first_executable(binary_candidates_of(path_dirs_of(p@)), executable@) is None,
            },
        },
{
    resolve_in_path(path_var, executable)
}

} // verus!
