//! Todo lists read off tool payloads by shape, and what changed between two
//! lists.
use vstd::prelude::*;

use crate::json::{Json, get, json_get, json_str};
use crate::text::{owned, str_eq};
use crate::types::{TodoChangeView, TodoView};

verus! {

/// A todo row as `(content, status, priority)`.
pub open spec fn todo_view(t: TodoView) -> (Seq<char>, Seq<char>, Seq<char>) {
    (t.content@, t.status@, t.priority@)
}

pub open spec fn todos_view(list: Seq<TodoView>) -> Seq<(Seq<char>, Seq<char>, Seq<char>)> {
    list.map_values(|t: TodoView| todo_view(t))
}

/// One row of a payload list: all three fields must be strings.
pub open spec fn todo_row(item: Json) -> Option<(Seq<char>, Seq<char>, Seq<char>)> {
    match (json_get(item, "content"@), json_get(item, "status"@), json_get(item, "priority"@)) {
        (Some(c), Some(s), Some(p)) => match (json_str(c), json_str(s), json_str(p)) {
            (Some(c), Some(s), Some(p)) => Some((c, s, p)),
            _ => None,
        },
        _ => None,
    }
}

/// The rows of a payload list, skipping rows missing a field.
pub open spec fn todo_rows(items: Seq<Json>) -> Seq<(Seq<char>, Seq<char>, Seq<char>)>
    decreases items.len(),
{
    if items.len() == 0 {
        Seq::empty()
    } else {
        let rest = todo_rows(items.drop_last());
        match todo_row(items.last()) {
            Some(row) => rest.push(row),
            None => rest,
        }
    }
}

/// The list a payload carries: `todos` (the call input shape) or else
/// `metadata.todos` (the completed output shape); it must be an array.
pub open spec fn todo_list(payload: Json) -> Option<Seq<Json>> {
    let list = match json_get(payload, "todos"@) {
        Some(v) => Some(v),
        None => match json_get(payload, "metadata"@) {
            Some(meta) => json_get(meta, "todos"@),
            None => None,
        },
    };
    match list {
        Some(Json::Array(items)) => Some(items@),
        _ => None,
    }
}

/// The todo list of a payload, `None` when it carries none.
pub open spec fn parsed_todos(payload: Json) -> Option<Seq<(Seq<char>, Seq<char>, Seq<char>)>> {
    match todo_list(payload) {
        Some(items) => Some(todo_rows(items)),
        None => None,
    }
}

fn string_field(item: &Json, key: &str) -> (s: Option<String>)
    ensures
        match s {
            Some(v) => json_get(*item, key@) matches Some(m) && json_str(m) == Some(v@),
            None => !(json_get(*item, key@) matches Some(m) && json_str(m) is Some),
        },
{
    match get(item, key) {
        Some(Json::Str(text)) => Some(owned(text.as_str())),
        _ => None,
    }
}

/// Parses a todo list from a raw tool payload. Both shapes are accepted:
/// the call input (`{todos: [...]}`) and the completed output (`{metadata:
/// {todos: [...]}}`). Returns `None` when no list is present, so callers
/// can tell "not a todo payload" apart from "cleared list". Rows missing a
/// field are skipped.
pub fn parse_todos(payload: &Json) -> (todos: Option<Vec<TodoView>>)
    ensures
        match todos {
            Some(list) => parsed_todos(*payload) == Some(todos_view(list@)),
            None => parsed_todos(*payload) is None,
        },
{
    let list = match get(payload, "todos") {
        Some(v) => v,
        None => match get(payload, "metadata") {
            Some(meta) => match get(meta, "todos") {
                Some(v) => v,
                None => {
                    return None;
                },
            },
            None => {
                return None;
            },
        },
    };
    let items = match list {
        Json::Array(items) => items,
        _ => {
            return None;
        },
    };
    let mut out: Vec<TodoView> = Vec::new();
    let mut i: usize = 0;
    while i < items.len()
        invariant
            i <= items.len(),
            todo_list(*payload) == Some(items@),
            todos_view(out@) == todo_rows(items@.take(i as int)),
        decreases items.len() - i,
    {
        let item = &items[i];
        assert(items@.take(i + 1).drop_last() == items@.take(i as int));
        assert(items@.take(i + 1).last() == items@[i as int]);
        let ghost before = out@;
        let content = string_field(item, "content");
        let status = string_field(item, "status");
        let priority = string_field(item, "priority");
        match (content, status, priority) {
            (Some(content), Some(status), Some(priority)) => {
                out.push(TodoView { content, status, priority });
                assert(todos_view(out@) =~= todos_view(before).push(todo_view(out@.last())));
            },
            _ => {},
        }
        i = i + 1;
    }
    assert(items@.take(items.len() as int) == items@);
    Some(out)
}

/// Extracts a todo list from a `tool_call` raw input, if it carries one.
pub fn todos_from_call(raw_input: Option<&Json>) -> (todos: Option<Vec<TodoView>>)
    ensures
        match raw_input {
            Some(input) => match todos {
                Some(list) => parsed_todos(*input) == Some(todos_view(list@)),
                None => parsed_todos(*input) is None,
            },
            None => todos is None,
        },
{
    match raw_input {
        Some(input) => parse_todos(input),
        None => None,
    }
}

/// The list a tool update carries: the raw output's, else the raw input's.
pub open spec fn update_todos_spec(raw_input: Option<Json>, raw_output: Option<Json>) -> Option<
    Seq<(Seq<char>, Seq<char>, Seq<char>)>,
> {
    let from_output = match raw_output {
        Some(o) => parsed_todos(o),
        None => None,
    };
    match from_output {
        Some(list) => Some(list),
        None => match raw_input {
            Some(i) => parsed_todos(i),
            None => None,
        },
    }
}

/// Extracts a todo list from a `tool_call_update`, preferring the raw
/// output over the raw input, if either carries one.
pub fn todos_from_update(raw_input: Option<&Json>, raw_output: Option<&Json>) -> (todos: Option<
    Vec<TodoView>,
>)
    ensures
        match todos {
            Some(list) => update_todos_spec(
                match raw_input {
                    Some(i) => Some(*i),
                    None => None,
                },
                match raw_output {
                    Some(o) => Some(*o),
                    None => None,
                },
            ) == Some(todos_view(list@)),
            None => update_todos_spec(
                match raw_input {
                    Some(i) => Some(*i),
                    None => None,
                },
                match raw_output {
                    Some(o) => Some(*o),
                    None => None,
                },
            ) is None,
        },
{
    if let Some(output) = raw_output {
        if let Some(list) = parse_todos(output) {
            return Some(list);
        }
    }
    match raw_input {
        Some(input) => parse_todos(input),
        None => None,
    }
}

/// The status of the first row of `old` with the given content.
pub open spec fn status_in(old: Seq<TodoView>, content: Seq<char>) -> Option<Seq<char>>
    decreases old.len(),
{
    if old.len() == 0 {
        None
    } else if old[0].content@ == content {
        Some(old[0].status@)
    } else {
        status_in(old.skip(1), content)
    }
}

/// A fresh row is a change when no old row has its content, or the first
/// such row has another status.
pub open spec fn is_change(old: Seq<TodoView>, item: TodoView) -> bool {
    match status_in(old, item.content@) {
        Some(status) => status != item.status@,
        None => true,
    }
}

/// The changes of `new` against `old`, in the order of `new`, as
/// `(content, status)`.
pub open spec fn changes_of(old: Seq<TodoView>, new: Seq<TodoView>) -> Seq<(Seq<char>, Seq<char>)>
    decreases new.len(),
{
    if new.len() == 0 {
        Seq::empty()
    } else {
        let rest = changes_of(old, new.drop_last());
        if is_change(old, new.last()) {
            rest.push((new.last().content@, new.last().status@))
        } else {
            rest
        }
    }
}

pub open spec fn change_views(changes: Seq<TodoChangeView>) -> Seq<(Seq<char>, Seq<char>)> {
    changes.map_values(|c: TodoChangeView| (c.content@, c.status@))
}

fn status_of_content(old: &[TodoView], content: &str) -> (status: Option<String>)
    ensures
        match status {
            Some(s) => status_in(old@, content@) == Some(s@),
            None => status_in(old@, content@) is None,
        },
{
    let mut i: usize = 0;
    assert(old@.skip(0) == old@);
    while i < old.len()
        invariant
            i <= old.len(),
            status_in(old@, content@) == status_in(old@.skip(i as int), content@),
        decreases old.len() - i,
    {
        assert(old@.skip(i as int)[0] == old@[i as int]);
        assert(old@.skip(i as int).skip(1) == old@.skip(i + 1));
        if str_eq(old[i].content.as_str(), content) {
            return Some(owned(old[i].status.as_str()));
        }
        i = i + 1;
    }
    None
}

/// Diffs a fresh list against the previous one: added rows plus rows whose
/// status changed, matched by content. Removed rows never surface.
pub fn diff_todos(old: &[TodoView], new: &[TodoView]) -> (changes: Vec<TodoChangeView>)
    ensures
        change_views(changes@) == changes_of(old@, new@),
{
    let mut changes: Vec<TodoChangeView> = Vec::new();
    let mut i: usize = 0;
    while i < new.len()
        invariant
            i <= new.len(),
            change_views(changes@) == changes_of(old@, new@.take(i as int)),
        decreases new.len() - i,
    {
        let item = &new[i];
        assert(new@.take(i + 1).drop_last() == new@.take(i as int));
        assert(new@.take(i + 1).last() == new@[i as int]);
        let ghost before = changes@;
        let changed = match status_of_content(old, item.content.as_str()) {
            Some(status) => !str_eq(status.as_str(), item.status.as_str()),
            None => true,
        };
        if changed {
            changes.push(
                TodoChangeView {
                    content: owned(item.content.as_str()),
                    status: owned(item.status.as_str()),
                },
            );
            assert(change_views(changes@) =~= change_views(before).push(
                (item.content@, item.status@),
            ));
        }
        i = i + 1;
    }
    assert(new@.take(new.len() as int) == new@);
    changes
}

/// Law: a list with distinct contents has no changes against itself.
pub proof fn lemma_identical_lists_have_no_changes(list: Seq<TodoView>)
    requires
        forall|i: int, j: int|
            0 <= i < j < list.len() ==> #[trigger] list[i].content@ != #[trigger] list[j].content@,
    ensures
        changes_of(list, list).len() == 0,
{
    lemma_no_changes_prefix(list, list.len() as int);
    assert(list.take(list.len() as int) == list);
}

proof fn lemma_no_changes_prefix(list: Seq<TodoView>, n: int)
    requires
        0 <= n <= list.len(),
        forall|i: int, j: int|
            0 <= i < j < list.len() ==> #[trigger] list[i].content@ != #[trigger] list[j].content@,
    ensures
        changes_of(list, list.take(n)).len() == 0,
    decreases n,
{
    if n > 0 {
        assert(list.take(n).drop_last() == list.take(n - 1));
        assert(list.take(n).last() == list[n - 1]);
        lemma_no_changes_prefix(list, n - 1);
        lemma_status_in_own(list, n - 1);
    }
}

/// In a list with distinct contents, each row's own status is found.
proof fn lemma_status_in_own(list: Seq<TodoView>, k: int)
    requires
        0 <= k < list.len(),
        forall|i: int, j: int|
            0 <= i < j < list.len() ==> #[trigger] list[i].content@ != #[trigger] list[j].content@,
    ensures
        status_in(list, list[k].content@) == Some(list[k].status@),
    decreases k,
{
    if k > 0 {
        let t = list.skip(1);
        assert forall|i: int, j: int| 0 <= i < j < t.len() implies #[trigger] t[i].content@
            != #[trigger] t[j].content@ by {
            assert(t[i] == list[i + 1]);
            assert(t[j] == list[j + 1]);
        }
        assert(t[k - 1] == list[k]);
        assert(list[0].content@ != list[k].content@);
        lemma_status_in_own(t, k - 1);
    }
}

} // verus!
