//! Permission card content. Only one-shot options reach the frontend so
//! every session stays explicit.
use vstd::prelude::*;

use crate::protocol::{PermissionOption, PermissionOptionKind};
use crate::text::{chars_of, extend_chars, owned, string_of};
use crate::types::PermissionOptionView;

verus! {

/// The card label of a one-shot option; `always` variants have none.
pub open spec fn one_shot_label(kind: PermissionOptionKind) -> Option<Seq<char>> {
    match kind {
        PermissionOptionKind::AllowOnce => Some("allow"@),
        PermissionOptionKind::RejectOnce => Some("reject"@),
        _ => None,
    }
}

/// The card options for wire options: the one-shot ones, in order, as
/// `(id, label)`.
pub open spec fn card_options(options: Seq<PermissionOption>) -> Seq<(Seq<char>, Seq<char>)>
    decreases options.len(),
{
    if options.len() == 0 {
        Seq::empty()
    } else {
        let rest = card_options(options.drop_last());
        match one_shot_label(options.last().kind) {
            Some(label) => rest.push((options.last().option_id@, label)),
            None => rest,
        }
    }
}

pub open spec fn option_views(views: Seq<PermissionOptionView>) -> Seq<(Seq<char>, Seq<char>)> {
    views.map_values(|v: PermissionOptionView| (v.id@, v.kind@))
}

/// Converts wire options to the frontend view, dropping `always` variants.
pub fn to_view(options: &[PermissionOption]) -> (views: Vec<PermissionOptionView>)
    ensures
        option_views(views@) == card_options(options@),
{
    let mut views: Vec<PermissionOptionView> = Vec::new();
    let mut i: usize = 0;
    while i < options.len()
        invariant
            i <= options.len(),
            option_views(views@) == card_options(options@.take(i as int)),
        decreases options.len() - i,
    {
        let option = &options[i];
        assert(options@.take(i + 1).drop_last() == options@.take(i as int));
        let ghost before = views@;
        let label = match option.kind {
            PermissionOptionKind::AllowOnce => Some("allow"),
            PermissionOptionKind::RejectOnce => Some("reject"),
            _ => None,
        };
        if let Some(kind) = label {
            views.push(PermissionOptionView { id: owned(option.option_id.as_str()), kind: owned(kind) });
            assert(option_views(views@) =~= option_views(before).push((option.option_id@, kind@)));
        }
        i = i + 1;
    }
    assert(options@.take(options.len() as int) == options@);
    views
}

/// The effective-rule copy: states the rule only, never the config file it
/// came from, because ACP does not carry that information.
pub open spec fn rule_hint_of(tool_name: Option<Seq<char>>) -> Seq<char> {
    match tool_name {
        Some(name) if name.len() > 0 => name + " - asked because your OpenCode config sets "@ + name
            + " to ask"@,
        _ => "asked because your OpenCode config sets this tool to ask"@,
    }
}

pub fn rule_hint(tool_name: Option<&str>) -> (hint: String)
    ensures
        hint@ == rule_hint_of(
            match tool_name {
                Some(n) => Some(n@),
                None => None,
            },
        ),
{
    match tool_name {
        Some(name) => {
            let v = chars_of(name);
            if v.len() > 0 {
                let mut out = chars_of(name);
                extend_chars(&mut out, " - asked because your OpenCode config sets ");
                extend_chars(&mut out, name);
                extend_chars(&mut out, " to ask");
                string_of(&out)
            } else {
                owned("asked because your OpenCode config sets this tool to ask")
            }
        },
        None => owned("asked because your OpenCode config sets this tool to ask"),
    }
}

} // verus!
