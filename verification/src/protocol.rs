//! ACP wire payloads as plain values: the parts of session updates, tool
//! calls, permission requests and config options that the rules read. The
//! application edge converts the SDK's types into these.
use vstd::prelude::*;

use crate::json::Json;

verus! {

/// Tool kinds, as the protocol names them.
#[derive(Debug, Clone, Copy, PartialEq, Eq, Structural)]
pub enum ToolKind {
    Read,
    Edit,
    Delete,
    Move,
    Search,
    Execute,
    Think,
    Fetch,
    SwitchMode,
    Other,
}

/// Execution status of a tool call.
#[derive(Debug, Clone, Copy, PartialEq, Eq, Structural)]
pub enum ToolCallStatus {
    Pending,
    InProgress,
    Completed,
    Failed,
}

/// A tool call as first announced.
#[derive(Debug)]
pub struct ToolCall {
    pub tool_call_id: String,
    pub title: String,
    pub kind: ToolKind,
    pub status: ToolCallStatus,
    pub raw_input: Option<Json>,
}

/// A later update of a tool call; absent fields did not change.
#[derive(Debug)]
pub struct ToolCallUpdate {
    pub tool_call_id: String,
    pub title: Option<String>,
    pub kind: Option<ToolKind>,
    pub status: Option<ToolCallStatus>,
    pub name: Option<String>,
    pub raw_input: Option<Json>,
    pub raw_output: Option<Json>,
}

/// A content block: text, or anything else.
#[derive(Debug, Clone, PartialEq, Eq)]
pub enum ContentBlock {
    Text(String),
    Other,
}

/// One option of a select config option.
#[derive(Debug, Clone, PartialEq, Eq)]
pub struct SelectOption {
    pub value: String,
    pub name: String,
}

/// The values a select config option offers.
#[derive(Debug, Clone, PartialEq, Eq)]
pub enum SelectOptions {
    Ungrouped(Vec<SelectOption>),
    /// Groups of options under headers; each inner list is one group.
    Grouped(Vec<Vec<SelectOption>>),
    /// A shape newer than the rules know.
    Other,
}

/// The type-specific part of a config option.
#[derive(Debug, Clone, PartialEq, Eq)]
pub enum ConfigKind {
    Select { current_value: String, options: SelectOptions },
    Boolean { current_value: bool },
    Other,
}

/// Semantic category of a config option.
#[derive(Debug, Clone, PartialEq, Eq)]
pub enum ConfigCategory {
    Mode,
    Model,
    ModelConfig,
    ThoughtLevel,
    Other(String),
    /// A category newer than the rules know.
    Unknown,
}

/// A session config option advertised by the agent.
#[derive(Debug, Clone, PartialEq, Eq)]
pub struct ConfigOption {
    pub id: String,
    pub name: String,
    pub kind: ConfigKind,
    pub category: Option<ConfigCategory>,
}

/// The kind of a permission option.
#[derive(Debug, Clone, Copy, PartialEq, Eq, Structural)]
pub enum PermissionOptionKind {
    AllowOnce,
    AllowAlways,
    RejectOnce,
    RejectAlways,
}

/// One option of a permission request.
#[derive(Debug, Clone, PartialEq, Eq)]
pub struct PermissionOption {
    pub option_id: String,
    pub name: String,
    pub kind: PermissionOptionKind,
}

/// A permission request: the session, the tool call and its options.
#[derive(Debug, Clone, PartialEq, Eq)]
pub struct PermissionRequest {
    pub session_id: String,
    pub tool_call_id: String,
    pub title: Option<String>,
    pub kind: Option<ToolKind>,
    pub name: Option<String>,
    pub options: Vec<PermissionOption>,
}

/// One session update, as far as the rules tell updates apart.
#[derive(Debug)]
pub enum SessionUpdate {
    AgentMessageChunk(ContentBlock),
    ToolCall(ToolCall),
    ToolCallUpdate(ToolCallUpdate),
    /// Context window and cost figures; their arithmetic stays at the edge.
    UsageUpdate,
    ConfigOptionUpdate(Vec<ConfigOption>),
    /// Any other update, by its wire name.
    Other(String),
}

} // verus!
