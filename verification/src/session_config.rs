//! Session config options: the views the pickers show, and which option
//! fills each stored role.
use vstd::prelude::*;

use crate::protocol::{ConfigCategory, ConfigKind, ConfigOption, SelectOption, SelectOptions};
use crate::repo_state::{ConfigRole, classify_option, role_of};
use crate::text::owned;
use crate::types::{ConfigOptionValueView, ConfigOptionView};

verus! {

pub open spec fn select_option_view(o: SelectOption) -> (Seq<char>, Seq<char>) {
    (o.value@, o.name@)
}

/// The options of groups, group after group.
pub open spec fn flatten_groups(groups: Seq<Vec<SelectOption>>) -> Seq<(Seq<char>, Seq<char>)>
    decreases groups.len(),
{
    if groups.len() == 0 {
        Seq::empty()
    } else {
        flatten_groups(groups.drop_last()) + groups.last()@.map_values(
            |o: SelectOption| select_option_view(o),
        )
    }
}

/// The values a select option offers, flattened across groups.
pub open spec fn select_values_of(options: SelectOptions) -> Seq<(Seq<char>, Seq<char>)> {
    match options {
        SelectOptions::Ungrouped(values) => values@.map_values(|o: SelectOption| select_option_view(o)),
        SelectOptions::Grouped(groups) => flatten_groups(groups@),
        SelectOptions::Other => Seq::empty(),
    }
}

pub open spec fn value_views(values: Seq<ConfigOptionValueView>) -> Seq<(Seq<char>, Seq<char>)> {
    values.map_values(|v: ConfigOptionValueView| (v.value@, v.name@))
}

fn push_values(out: &mut Vec<ConfigOptionValueView>, values: &Vec<SelectOption>)
    ensures
        value_views(final(out)@) == value_views(old(out)@) + values@.map_values(
            |o: SelectOption| select_option_view(o),
        ),
{
    let ghost start = out@;
    let mut i: usize = 0;
    while i < values.len()
        invariant
            i <= values.len(),
            value_views(out@) == value_views(start) + values@.take(i as int).map_values(
                |o: SelectOption| select_option_view(o),
            ),
        decreases values.len() - i,
    {
        let ghost before = out@;
        out.push(
            ConfigOptionValueView {
                value: owned(values[i].value.as_str()),
                name: owned(values[i].name.as_str()),
            },
        );
        assert(value_views(out@) =~= value_views(before).push(select_option_view(values@[i as int])));
        assert(values@.take(i + 1).map_values(|o: SelectOption| select_option_view(o))
            =~= values@.take(i as int).map_values(|o: SelectOption| select_option_view(o)).push(
            select_option_view(values@[i as int]),
        ));
        i = i + 1;
    }
    assert(values@.take(values.len() as int) == values@);
}

/// The values a select option offers, flattened across groups; unknown
/// shapes offer none.
pub fn select_values(options: &SelectOptions) -> (values: Vec<ConfigOptionValueView>)
    ensures
        value_views(values@) == select_values_of(*options),
{
    let mut out: Vec<ConfigOptionValueView> = Vec::new();
    match options {
        SelectOptions::Ungrouped(values) => {
            push_values(&mut out, values);
        },
        SelectOptions::Grouped(groups) => {
            let mut g: usize = 0;
            while g < groups.len()
                invariant
                    g <= groups.len(),
                    value_views(out@) == flatten_groups(groups@.take(g as int)),
                decreases groups.len() - g,
            {
                assert(groups@.take(g + 1).drop_last() == groups@.take(g as int));
                assert(groups@.take(g + 1).last() == groups@[g as int]);
                push_values(&mut out, &groups[g]);
                g = g + 1;
            }
            assert(groups@.take(groups.len() as int) == groups@);
        },
        SelectOptions::Other => {},
    }
    out
}

/// The category as a plain string, absent when the agent omits it or
/// sends one the rules do not know.
pub open spec fn category_of(category: Option<ConfigCategory>) -> Option<Seq<char>> {
    match category {
        None => None,
        Some(ConfigCategory::Mode) => Some("mode"@),
        Some(ConfigCategory::Model) => Some("model"@),
        Some(ConfigCategory::ModelConfig) => Some("model_config"@),
        Some(ConfigCategory::ThoughtLevel) => Some("thought_level"@),
        Some(ConfigCategory::Other(name)) => Some(name@),
        Some(ConfigCategory::Unknown) => None,
    }
}

pub fn option_category(category: &Option<ConfigCategory>) -> (name: Option<String>)
    ensures
        match name {
            Some(n) => category_of(*category) == Some(n@),
            None => category_of(*category) is None,
        },
{
    match category {
        None => None,
        Some(ConfigCategory::Mode) => Some(owned("mode")),
        Some(ConfigCategory::Model) => Some(owned("model")),
        Some(ConfigCategory::ModelConfig) => Some(owned("model_config")),
        Some(ConfigCategory::ThoughtLevel) => Some(owned("thought_level")),
        Some(ConfigCategory::Other(name)) => Some(owned(name.as_str())),
        Some(ConfigCategory::Unknown) => None,
    }
}

/// The current value and offered values of one option: a select's own, a
/// boolean's `true`/`false`, nothing for other kinds.
pub open spec fn current_and_values(kind: ConfigKind) -> (Seq<char>, Seq<(Seq<char>, Seq<char>)>) {
    match kind {
        ConfigKind::Select { current_value, options } => (current_value@, select_values_of(options)),
        ConfigKind::Boolean { current_value } => (
            if current_value {
                "true"@
            } else {
                "false"@
            },
            seq![("true"@, "true"@), ("false"@, "false"@)],
        ),
        ConfigKind::Other => (Seq::empty(), Seq::empty()),
    }
}

/// The view of one option as `(id, name, current, values, category)`.
pub open spec fn option_view_of(option: ConfigOption) -> (
    Seq<char>,
    Seq<char>,
    Seq<char>,
    Seq<(Seq<char>, Seq<char>)>,
    Option<Seq<char>>,
) {
    let (current, values) = current_and_values(option.kind);
    (option.id@, option.name@, current, values, category_of(option.category))
}

pub open spec fn view_of(view: ConfigOptionView) -> (
    Seq<char>,
    Seq<char>,
    Seq<char>,
    Seq<(Seq<char>, Seq<char>)>,
    Option<Seq<char>>,
) {
    (
        view.id@,
        view.name@,
        view.current_value@,
        value_views(view.options@),
        match view.category {
            Some(c) => Some(c@),
            None => None,
        },
    )
}

fn option_view(option: &ConfigOption) -> (view: ConfigOptionView)
    ensures
        view_of(view) == option_view_of(*option),
{
    let (current_value, options) = match &option.kind {
        ConfigKind::Select { current_value, options } => (
            owned(current_value.as_str()),
            select_values(options),
        ),
        ConfigKind::Boolean { current_value } => {
            let mut values: Vec<ConfigOptionValueView> = Vec::new();
            values.push(ConfigOptionValueView { value: owned("true"), name: owned("true") });
            values.push(ConfigOptionValueView { value: owned("false"), name: owned("false") });
            assert(value_views(values@) =~= seq![("true"@, "true"@), ("false"@, "false"@)]);
            let current = if *current_value {
                owned("true")
            } else {
                owned("false")
            };
            (current, values)
        },
        ConfigKind::Other => {
            let values: Vec<ConfigOptionValueView> = Vec::new();
            assert(value_views(values@) =~= Seq::empty());
            proof {
                reveal_strlit("");
            }
            (owned(""), values)
        },
    };
    assert((current_value@, value_views(options@)) == current_and_values(option.kind));
    let category = option_category(&option.category);
    let view = ConfigOptionView {
        id: owned(option.id.as_str()),
        name: owned(option.name.as_str()),
        current_value,
        options,
        category,
    };
    assert(view_of(view).4 == option_view_of(*option).4);
    view
}

/// Converts wire session config options to views, keeping the agent's
/// order.
pub fn config_views(options: &[ConfigOption]) -> (views: Vec<ConfigOptionView>)
    ensures
        views@.map_values(|v: ConfigOptionView| view_of(v)) == options@.map_values(
            |o: ConfigOption| option_view_of(o),
        ),
{
    let mut views: Vec<ConfigOptionView> = Vec::new();
    let mut i: usize = 0;
    while i < options.len()
        invariant
            i <= options.len(),
            views@.map_values(|v: ConfigOptionView| view_of(v)) == options@.take(i as int).map_values(
                |o: ConfigOption| option_view_of(o),
            ),
        decreases options.len() - i,
    {
        let ghost before = views@;
        views.push(option_view(&options[i]));
        assert(views@.map_values(|v: ConfigOptionView| view_of(v)) =~= before.map_values(
            |v: ConfigOptionView| view_of(v),
        ).push(option_view_of(options@[i as int])));
        assert(options@.take(i + 1).map_values(|o: ConfigOption| option_view_of(o))
            =~= options@.take(i as int).map_values(|o: ConfigOption| option_view_of(o)).push(
            option_view_of(options@[i as int]),
        ));
        i = i + 1;
    }
    assert(options@.take(options.len() as int) == options@);
    views
}

/// The first option of the list that fills a role.
pub open spec fn first_with_role(options: Seq<ConfigOptionView>, role: ConfigRole) -> Option<
    ConfigOptionView,
>
    decreases options.len(),
{
    if options.len() == 0 {
        None
    } else if role_of(options[0]) == Some(role) {
        Some(options[0])
    } else {
        first_with_role(options.skip(1), role)
    }
}

fn find_role(options: &[ConfigOptionView], role: ConfigRole) -> (found: Option<usize>)
    ensures
        match found {
            Some(i) => i < options.len() && first_with_role(options@, role) == Some(
                options@[i as int],
            ),
            None => first_with_role(options@, role) is None,
        },
{
    let mut i: usize = 0;
    assert(options@.skip(0) == options@);
    while i < options.len()
        invariant
            i <= options.len(),
            first_with_role(options@, role) == first_with_role(options@.skip(i as int), role),
        decreases options.len() - i,
    {
        assert(options@.skip(i as int)[0] == options@[i as int]);
        assert(options@.skip(i as int).skip(1) == options@.skip(i + 1));
        if classify_option(&options[i]) == Some(role) {
            return Some(i);
        }
        i = i + 1;
    }
    None
}

/// Agent-advertised option id currently filling a storage role.
pub fn option_id_for_role(options: &[ConfigOptionView], role: ConfigRole) -> (id: Option<String>)
    ensures
        match id {
            Some(i) => first_with_role(options@, role) matches Some(o) && o.id@ == i@,
            None => first_with_role(options@, role) is None,
        },
{
    match find_role(options, role) {
        Some(i) => Some(owned(options[i].id.as_str())),
        None => None,
    }
}

/// The current value of the option filling a role, if any.
pub fn role_value_in(options: &[ConfigOptionView], role: ConfigRole) -> (value: Option<String>)
    ensures
        match value {
            Some(v) => first_with_role(options@, role) matches Some(o) && o.current_value@ == v@,
            None => first_with_role(options@, role) is None,
        },
{
    match find_role(options, role) {
        Some(i) => Some(owned(options[i].current_value.as_str())),
        None => None,
    }
}

/// Log value for a role, marking cleared roles.
pub fn role_label(value: Option<&str>) -> (label: &str)
    ensures
        label@ == match value {
            Some(v) => v@,
            None => "<cleared>"@,
        },
{
    match value {
        Some(v) => v,
        None => "<cleared>",
    }
}

} // verus!
