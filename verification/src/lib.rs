//! Plan lifecycle, naming and agent-session rules for a desktop coding
//! assistant, with their contracts proved by Verus.
pub mod acp;
pub mod agent;
pub mod branch;
pub mod desktop;
pub mod error_hint;
pub mod json;
pub mod opencode;
pub mod paths;
pub mod permissions;
pub mod plans;
pub mod prefs;
pub mod protocol;
pub mod repo_state;
pub mod session_config;
pub mod text;
pub mod todos;
pub mod types;
pub mod updates;
pub mod worktrees;
