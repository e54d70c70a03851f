//! Mapping from ACP session updates to transcript rows. Every tool
//! execution becomes one `▸` status line regardless of kind.
use vstd::prelude::*;

use crate::protocol::{ContentBlock, SessionUpdate, ToolCall, ToolCallStatus, ToolCallUpdate, ToolKind};
use crate::text::{chars_of, extend_chars, owned, string_of};
use crate::types::ToolLineView;

verus! {

/// Streamed agent text carried by an update, if any.
pub open spec fn agent_text_spec(update: SessionUpdate) -> Option<Seq<char>> {
    match update {
        SessionUpdate::AgentMessageChunk(ContentBlock::Text(text)) => Some(text@),
        _ => None,
    }
}

/// Extracts streamed agent text from an update, if any.
pub fn agent_text_of(update: &SessionUpdate) -> (chunk: Option<String>)
    ensures
        match chunk {
            Some(c) => agent_text_spec(*update) == Some(c@),
            None => agent_text_spec(*update) is None,
        },
{
    match update {
        SessionUpdate::AgentMessageChunk(ContentBlock::Text(text)) => Some(owned(text.as_str())),
        _ => None,
    }
}

/// A tool status as the transcript shows it: its name, lowercased.
pub open spec fn status_label_of(status: ToolCallStatus) -> Seq<char> {
    match status {
        ToolCallStatus::Pending => "pending"@,
        ToolCallStatus::InProgress => "inprogress"@,
        ToolCallStatus::Completed => "completed"@,
        ToolCallStatus::Failed => "failed"@,
    }
}

pub fn status_label(status: ToolCallStatus) -> (label: &'static str)
    ensures
        label@ == status_label_of(status),
{
    match status {
        ToolCallStatus::Pending => "pending",
        ToolCallStatus::InProgress => "inprogress",
        ToolCallStatus::Completed => "completed",
        ToolCallStatus::Failed => "failed",
    }
}

/// Human label for a tool kind in permission cards.
pub open spec fn kind_label_of(kind: Option<ToolKind>) -> Seq<char> {
    match kind {
        Some(ToolKind::Read) => "read"@,
        Some(ToolKind::Edit) => "edit"@,
        Some(ToolKind::Delete) => "delete"@,
        Some(ToolKind::Move) => "move"@,
        Some(ToolKind::Search) => "search"@,
        Some(ToolKind::Execute) => "bash"@,
        Some(ToolKind::Think) => "think"@,
        Some(ToolKind::Fetch) => "fetch"@,
        Some(ToolKind::SwitchMode) => "mode"@,
        _ => "tool"@,
    }
}

pub fn kind_label(kind: Option<ToolKind>) -> (label: &'static str)
    ensures
        label@ == kind_label_of(kind),
{
    match kind {
        Some(ToolKind::Read) => "read",
        Some(ToolKind::Edit) => "edit",
        Some(ToolKind::Delete) => "delete",
        Some(ToolKind::Move) => "move",
        Some(ToolKind::Search) => "search",
        Some(ToolKind::Execute) => "bash",
        Some(ToolKind::Think) => "think",
        Some(ToolKind::Fetch) => "fetch",
        Some(ToolKind::SwitchMode) => "mode",
        _ => "tool",
    }
}

/// Past-tense verb for a tool line.
pub open spec fn tool_verb_of(kind: Option<ToolKind>) -> Seq<char> {
    match kind {
        Some(ToolKind::Read) => "read"@,
        Some(ToolKind::Edit) => "edited"@,
        Some(ToolKind::Delete) => "deleted"@,
        Some(ToolKind::Move) => "moved"@,
        Some(ToolKind::Search) => "searched"@,
        Some(ToolKind::Execute) => "ran"@,
        Some(ToolKind::Think) => "thought"@,
        Some(ToolKind::Fetch) => "fetched"@,
        Some(ToolKind::SwitchMode) => "switched mode"@,
        _ => "ran"@,
    }
}

/// Law: every named tool kind gets its own past-tense verb, so two lines of
/// different kinds never read alike; a delete reads `deleted` and an edit
/// `edited`.
pub proof fn lemma_tool_verbs_distinct(a: ToolKind, b: ToolKind)
    requires
        a != b,
        a != ToolKind::Other,
        b != ToolKind::Other,
    ensures
        tool_verb_of(Some(a)) != tool_verb_of(Some(b)),
        tool_verb_of(Some(ToolKind::Delete)) == "deleted"@,
        tool_verb_of(Some(ToolKind::Edit)) == "edited"@,
{
    reveal_strlit("read");
    reveal_strlit("edited");
    reveal_strlit("deleted");
    reveal_strlit("moved");
    reveal_strlit("searched");
    reveal_strlit("ran");
    reveal_strlit("thought");
    reveal_strlit("fetched");
    reveal_strlit("switched mode");
    let va = tool_verb_of(Some(a));
    let vb = tool_verb_of(Some(b));
    if va == vb {
        assert(va.len() == vb.len());
        assert(va[0] == vb[0]);
        if va.len() > 1 {
            assert(va[1] == vb[1]);
        }
    }
}

/// Law: the line of a delete call reads `deleted`, then its title when it
/// has one; in general a tool line starts with its kind's verb.
pub proof fn lemma_delete_line(kind: ToolKind, title: Seq<char>)
    ensures
        kind == ToolKind::Delete && title.len() == 0 ==> tool_text_of(kind, title) == "deleted"@,
        kind == ToolKind::Delete && title.len() > 0 ==> tool_text_of(kind, title) == "deleted "@ + title,
        tool_text_of(kind, title).take(tool_verb_of(Some(kind)).len() as int) == tool_verb_of(Some(kind)),
{
    reveal_strlit("deleted");
    reveal_strlit(" ");
    reveal_strlit("deleted ");
    let v = tool_verb_of(Some(kind));
    assert(v.take(v.len() as int) =~= v);
    assert((v + " "@ + title).take(v.len() as int) =~= v);
    if kind == ToolKind::Delete && title.len() > 0 {
        assert("deleted"@ + " "@ + title =~= "deleted "@ + title);
    }
}

pub fn tool_verb(kind: Option<ToolKind>) -> (verb: &'static str)
    ensures
        verb@ == tool_verb_of(kind),
{
    match kind {
        Some(ToolKind::Read) => "read",
        Some(ToolKind::Edit) => "edited",
        Some(ToolKind::Delete) => "deleted",
        Some(ToolKind::Move) => "moved",
        Some(ToolKind::Search) => "searched",
        Some(ToolKind::Execute) => "ran",
        Some(ToolKind::Think) => "thought",
        Some(ToolKind::Fetch) => "fetched",
        Some(ToolKind::SwitchMode) => "switched mode",
        _ => "ran",
    }
}

/// The text of a tool line: the verb, then the title when there is one.
pub open spec fn tool_text_of(kind: ToolKind, title: Seq<char>) -> Seq<char> {
    if title.len() == 0 {
        tool_verb_of(Some(kind))
    } else {
        tool_verb_of(Some(kind)) + " "@ + title
    }
}

pub fn tool_text(call: &ToolCall) -> (text: String)
    ensures
        text@ == tool_text_of(call.kind, call.title@),
{
    let verb = tool_verb(Some(call.kind));
    let title = chars_of(call.title.as_str());
    if title.len() == 0 {
        return owned(verb);
    }
    let mut v = chars_of(verb);
    extend_chars(&mut v, " ");
    extend_chars(&mut v, call.title.as_str());
    string_of(&v)
}

/// Formats one tool line. Rows stay single-line; the hover tooltip reads
/// the same text.
pub fn format_tool_line(call: &ToolCall) -> (line: ToolLineView)
    ensures
        line.id@ == call.tool_call_id@,
        line.text@ == tool_text_of(call.kind, call.title@),
        line.status@ == status_label_of(call.status),
{
    ToolLineView {
        id: owned(call.tool_call_id.as_str()),
        text: tool_text(call),
        status: owned(status_label(call.status)),
    }
}

/// The line of a tool update: its verb and title (`running tool` when the
/// update carries none), and its status (`pending` when it carries none).
pub open spec fn update_line_of(update: ToolCallUpdate) -> (Seq<char>, Seq<char>, Seq<char>) {
    let title = match update.title {
        Some(t) => t@,
        None => "running tool"@,
    };
    let status = match update.status {
        Some(s) => status_label_of(s),
        None => "pending"@,
    };
    (update.tool_call_id@, tool_verb_of(update.kind) + " "@ + title, status)
}

/// Formats a tool update line, merging the update title when present.
pub fn format_tool_update(update: &ToolCallUpdate) -> (line: ToolLineView)
    ensures
        (line.id@, line.text@, line.status@) == update_line_of(*update),
{
    let mut text = chars_of(tool_verb(update.kind));
    extend_chars(&mut text, " ");
    match &update.title {
        Some(t) => extend_chars(&mut text, t.as_str()),
        None => extend_chars(&mut text, "running tool"),
    }
    let status = match update.status {
        Some(s) => owned(status_label(s)),
        None => owned("pending"),
    };
    ToolLineView { id: owned(update.tool_call_id.as_str()), text: string_of(&text), status }
}

} // verus!
