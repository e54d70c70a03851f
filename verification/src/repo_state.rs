//! Per-repo samokod state under `.samokod/state.json`: model and effort
//! choices, stored by our own role names. Created lazily on first change;
//! a missing file means agent defaults.
use vstd::prelude::*;

use crate::paths::{join_path, join_seq};
use crate::session_config::{first_with_role, role_value_in};
use crate::text::{chars_of, owned, str_eq, trim_chars, trim_seq};
use crate::types::ConfigOptionView;

verus! {

/// Where the state file lives, relative to the repo root.
pub const STATE_PATH: &'static str = ".samokod/state.json";

/// Stored roles. Field names are ours, never agent-advertised ids.
#[derive(Debug, Clone, PartialEq, Eq)]
pub struct RepoState {
    pub model: Option<String>,
    pub effort: Option<String>,
}

pub open spec fn opt_view(value: Option<String>) -> Option<Seq<char>> {
    match value {
        Some(v) => Some(v@),
        None => None,
    }
}

impl RepoState {
    /// Agent defaults: no stored role.
    pub fn empty() -> (state: RepoState)
        ensures
            state.model is None,
            state.effort is None,
    {
        RepoState { model: None, effort: None }
    }
}

impl Default for RepoState {
    fn default() -> (state: RepoState)
        ensures
            state.model is None,
            state.effort is None,
    {
        RepoState::empty()
    }
}

/// Our storage role for one agent-advertised option.
#[derive(Debug, Clone, Copy, PartialEq, Eq, Structural)]
pub enum ConfigRole {
    Model,
    Effort,
}

impl ConfigRole {
    /// Both roles in reapply order: model first, then effort, since a model
    /// switch can reshape the effort options.
    pub fn all() -> (roles: [ConfigRole; 2])
        ensures
            roles@ == seq![ConfigRole::Model, ConfigRole::Effort],
    {
        [ConfigRole::Model, ConfigRole::Effort]
    }

    /// The role's name in logs.
    pub fn name(self) -> (name: &'static str)
        ensures
            name@ == match self {
                ConfigRole::Model => "model"@,
                ConfigRole::Effort => "effort"@,
            },
    {
        match self {
            ConfigRole::Model => "model",
            ConfigRole::Effort => "effort",
        }
    }
}

/// The stored value of a role.
pub open spec fn role_value(state: RepoState, role: ConfigRole) -> Option<Seq<char>> {
    match role {
        ConfigRole::Model => opt_view(state.model),
        ConfigRole::Effort => opt_view(state.effort),
    }
}

/// Reads one role.
pub fn get_role(state: &RepoState, role: ConfigRole) -> (value: Option<String>)
    ensures
        opt_view(value) == role_value(*state, role),
{
    let v = match role {
        ConfigRole::Model => &state.model,
        ConfigRole::Effort => &state.effort,
    };
    match v {
        Some(s) => Some(owned(s.as_str())),
        None => None,
    }
}

/// Sets or clears one role, keeping the other.
pub fn set_role(state: &mut RepoState, role: ConfigRole, value: Option<&str>)
    ensures
        role_value(*final(state), role) == match value {
            Some(v) => Some(v@),
            None => None,
        },
        forall|other: ConfigRole| other != role ==> role_value(*final(state), other) == role_value(*old(state), other),
{
    let v = match value {
        Some(s) => Some(owned(s)),
        None => None,
    };
    match role {
        ConfigRole::Model => state.model = v,
        ConfigRole::Effort => state.effort = v,
    }
}

/// The role an option fills: model by category, effort by the
/// `thought_level` category or the `effort` id; the id stands in for an
/// absent category.
pub open spec fn role_of(option: ConfigOptionView) -> Option<ConfigRole> {
    let category = match option.category {
        Some(c) => c@,
        None => option.id@,
    };
    if category == "model"@ {
        Some(ConfigRole::Model)
    } else if category == "thought_level"@ || option.id@ == "effort"@ {
        Some(ConfigRole::Effort)
    } else {
        None
    }
}

/// Classifies an agent-advertised option into our roles.
pub fn classify_option(option: &ConfigOptionView) -> (role: Option<ConfigRole>)
    ensures
        role == role_of(*option),
{
    let category = match &option.category {
        Some(c) => c.as_str(),
        None => option.id.as_str(),
    };
    if str_eq(category, "model") {
        return Some(ConfigRole::Model);
    }
    if str_eq(category, "thought_level") || str_eq(option.id.as_str(), "effort") {
        return Some(ConfigRole::Effort);
    }
    None
}

/// Both roles as the option list reports them: each the current value of
/// the first option filling it.
pub open spec fn roles_in(options: Seq<ConfigOptionView>) -> (Option<Seq<char>>, Option<Seq<char>>) {
    (
        match first_with_role(options, ConfigRole::Model) {
            Some(o) => Some(o.current_value@),
            None => None,
        },
        match first_with_role(options, ConfigRole::Effort) {
            Some(o) => Some(o.current_value@),
            None => None,
        },
    )
}

/// Re-syncs both roles from a full option list: an option that vanished
/// clears its role.
pub fn roles_from_options(options: &[ConfigOptionView]) -> (state: RepoState)
    ensures
        (opt_view(state.model), opt_view(state.effort)) == roles_in(options@),
{
    RepoState {
        model: role_value_in(options, ConfigRole::Model),
        effort: role_value_in(options, ConfigRole::Effort),
    }
}

/// What reading the state file gave.
#[derive(Debug, Clone, PartialEq, Eq)]
pub enum StoredText {
    /// No file.
    Missing,
    /// The file exists but could not be read.
    Unreadable,
    /// The file's text.
    Text(String),
}

/// Whether stored text is blank.
pub open spec fn is_blank(text: StoredText) -> bool {
    text matches StoredText::Text(t) && trim_seq(t@).len() == 0
}

/// Whether stored text holds something to parse.
pub fn has_content(text: &StoredText) -> (content: bool)
    ensures
        content == (text is Text && !is_blank(*text)),
{
    match text {
        StoredText::Text(t) => {
            let v = chars_of(t.as_str());
            trim_chars(&v).len() > 0
        },
        _ => false,
    }
}

/// Loads the repo state from what reading and parsing the file gave:
/// `parsed` is the JSON decoding of the text, when it decoded. A missing,
/// unreadable, blank or undecodable file means agent defaults.
pub fn load_repo_state(text: &StoredText, parsed: Option<RepoState>) -> (state: RepoState)
    ensures
        has_content_spec(*text) && parsed is Some ==> state == parsed->0,
        !(has_content_spec(*text) && parsed is Some) ==> state.model is None && state.effort is None,
{
    if has_content(text) {
        if let Some(state) = parsed {
            return state;
        }
    }
    RepoState::empty()
}

pub open spec fn has_content_spec(text: StoredText) -> bool {
    text is Text && !is_blank(text)
}

/// The state file of a repo.
pub fn state_path(repo_root: &str) -> (path: String)
    ensures
        path@ == join_seq(repo_root@, STATE_PATH@),
{
    join_path(repo_root, STATE_PATH)
}

/// The state `save_role` writes: the loaded state with one role set.
pub fn save_role(loaded: RepoState, role: ConfigRole, value: &str) -> (state: RepoState)
    ensures
        role_value(state, role) == Some(value@),
        forall|other: ConfigRole| other != role ==> role_value(state, other) == role_value(loaded, other),
{
    let mut state = loaded;
    set_role(&mut state, role, Some(value));
    state
}

} // verus!
