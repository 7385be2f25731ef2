//! The values that migrations are given: upstream outputs and declared defaults, as settings of the
//! transaction.

use vstd::prelude::*;
use vstd::utf8::valid_utf8;

use crate::context::InputSlot;
use crate::context::InputSlotView;
use crate::context::Migration;
use crate::context::MigrationView;
use crate::json::canonical;
use crate::json::json_bytes;
use crate::json::json_of;
use crate::json::json_parsed;
use crate::json::property_of;
use crate::json::JsonView;
use crate::slice::UpstreamOutput;
use crate::slice::UpstreamOutputView;
use crate::target::Statement;
use crate::target::StatementView;
use crate::text::text_of;
use crate::text::Plus as _;

verus! {

broadcast use crate::model::group_model;

// ---------------------------------------------------------------------------
// Values
// ---------------------------------------------------------------------------

/// The value of an input, given the object that its producer publishes: the output property, or
/// else the default.
pub open spec fn input_value(
    published: Option<JsonView>,
    slot: InputSlotView,
) -> Option<JsonView> {
    match published {
        Some(tree) => match property_of(tree, slot.output) {
            Some(value) => Some(value),
            None => slot.default,
        },
        None => slot.default,
    }
}

/// A value as the text of a setting: a text is itself, any other value its compact JSON.
pub open spec fn setting_text(value: JsonView) -> Seq<char> {
    match value {
        JsonView::Text(text) => text,
        _ => text_of(json_bytes(value)),
    }
}

/// The text of an input's value, given the object that its producer publishes.
pub open spec fn input_text(published: Option<JsonView>, slot: InputSlotView) -> Option<Seq<char>> {
    match input_value(published, slot) {
        Some(value) => Some(setting_text(value)),
        None => None,
    }
}

/// The tree that a value holds, if there is one.
pub open spec fn tree_of(value: Option<&serde_json::Value>) -> Option<JsonView> {
    match value {
        Some(value) => Some(json_of(*value)),
        None => None,
    }
}

fn write_setting(value: &serde_json::Value) -> (r: String)
    ensures
        r@ == setting_text(json_of(*value)),
{
    match crate::json::plain_text(value) {
        Some(text) => text.to_owned(),
        None => match crate::text::read_text(&crate::json::to_bytes(value)) {
            Ok(text) => text,
            Err(_) => vstd::pervasive::unreached(),
        },
    }
}

/// The text of an input's value, given the object that its producer publishes: the output property,
/// or else the default. There is none if the input has neither.
pub fn value_text(published: Option<&serde_json::Value>, slot: &InputSlot) -> (r: Option<String>)
    ensures
        r.deep_view() == input_text(tree_of(published), slot@),
{
    match published {
        Some(object) => match crate::json::property(object, slot.output.as_str()) {
            Some(value) => {
                return Some(write_setting(value));
            },
            None => {},
        },
        None => {},
    }
    match &slot.default {
        Some(value) => Some(write_setting(value)),
        None => None,
    }
}

// ---------------------------------------------------------------------------
// Settings
// ---------------------------------------------------------------------------

/// The statement that makes a setting until the transaction ends.
pub open spec fn setting_sql() -> Seq<char> {
    "select set_config($1, $2, true)"@
}

/// The setting under which a migration finds an input.
pub open spec fn setting_name(slot: InputSlotView) -> Seq<char> {
    "henosis.input."@ + slot.name
}

/// Gives an input its value.
pub open spec fn setting(slot: InputSlotView, text: Seq<char>) -> StatementView {
    StatementView::Execute { sql: setting_sql(), parameters: seq![setting_name(slot), text] }
}

/// The statement that gives an input its value, given the object that its producer publishes. An
/// input without a value is left unset.
pub open spec fn setting_with(
    published: Option<JsonView>,
    slot: InputSlotView,
) -> Option<StatementView> {
    match input_text(published, slot) {
        Some(text) => Some(setting(slot, text)),
        None => None,
    }
}

/// The statement that gives an input its value, given the object that its producer publishes. An
/// input without a value is left unset.
pub fn input_setting(published: Option<&serde_json::Value>, slot: &InputSlot) -> (r: Option<
    Statement,
>)
    ensures
        r.deep_view() == setting_with(tree_of(published), slot@),
{
    match value_text(published, slot) {
        Some(text) => {
            let parameters = vec!["henosis.input.".to_owned().plus(slot.name.as_str()), text];
            assert(parameters.deep_view() =~= seq![setting_name(slot@), text@]);
            Some(
                Statement::Execute {
                    sql: "select set_config($1, $2, true)".to_owned(),
                    parameters,
                },
            )
        },
        None => None,
    }
}

// ---------------------------------------------------------------------------
// Upstream outputs
// ---------------------------------------------------------------------------

/// The bytes that a producer publishes.
pub open spec fn published_by(outputs: Seq<UpstreamOutputView>, producer: Seq<u8>) -> Option<
    Seq<u8>,
>
    decreases outputs.len(),
{
    if outputs.len() == 0 {
        None
    } else if outputs[0].component_spec_hash == producer {
        Some(outputs[0].values_json)
    } else {
        published_by(outputs.drop_first(), producer)
    }
}

/// The tree of published bytes, with the members of every object in the order of their names.
/// Bytes that are no JSON publish nothing.
pub open spec fn read_values(bytes: Seq<u8>) -> Option<JsonView> {
    if valid_utf8(bytes) {
        match json_parsed(text_of(bytes)) {
            Ok(tree) => Some(canonical(tree)),
            Err(_) => None,
        }
    } else {
        None
    }
}

/// What the producer of an input publishes.
pub open spec fn producer_values(
    outputs: Seq<UpstreamOutputView>,
    slot: InputSlotView,
) -> Option<JsonView> {
    match published_by(outputs, slot.producer_component_spec_hash) {
        Some(bytes) => read_values(bytes),
        None => None,
    }
}

/// The text of the value that the upstream outputs, or else the default, give an input.
pub open spec fn supplied_text(
    outputs: Seq<UpstreamOutputView>,
    slot: InputSlotView,
) -> Option<Seq<char>> {
    input_text(producer_values(outputs, slot), slot)
}

/// The settings of the first inputs of a migration that have a value, in order.
pub open spec fn settings_up_to(
    outputs: Seq<UpstreamOutputView>,
    migration: MigrationView,
    count: int,
) -> Seq<StatementView>
    decreases count,
{
    if count <= 0 {
        seq![]
    } else {
        let before = settings_up_to(outputs, migration, count - 1);
        let slot = migration.inputs[count - 1];
        match supplied_text(outputs, slot) {
            Some(text) => before.push(setting(slot, text)),
            None => before,
        }
    }
}

/// The settings of a migration's inputs that have a value, in order.
pub open spec fn settings_of(
    outputs: Seq<UpstreamOutputView>,
    migration: MigrationView,
) -> Seq<StatementView> {
    settings_up_to(outputs, migration, migration.inputs.len() as int)
}

fn find_output<'a>(outputs: &Vec<&'a UpstreamOutput>, producer: &[u8; 32]) -> (r: Option<
    &'a UpstreamOutput,
>)
    ensures
        match r {
            Some(output) => published_by(outputs.deep_view(), producer@) == Some(
                output@.values_json,
            ),
            None => published_by(outputs.deep_view(), producer@) is None,
        },
{
    let ghost all = outputs.deep_view();
    let mut i: usize = 0;
    assert(all.skip(0) =~= all);
    while i < outputs.len()
        invariant
            i <= outputs@.len(),
            all == outputs.deep_view(),
            published_by(all, producer@) == published_by(all.skip(i as int), producer@),
        decreases outputs.len() - i,
    {
        assert(all.skip(i as int)[0] == outputs@[i as int]@);
        if crate::hashing::same_hash(&outputs[i].component_spec_hash, producer) {
            return Some(outputs[i]);
        }
        assert(all.skip(i as int).drop_first() =~= all.skip(i + 1));
        i += 1;
    }
    None
}

fn parse_values(bytes: &Vec<u8>) -> (r: Option<serde_json::Value>)
    ensures
        match r {
            Some(value) => read_values(bytes@) == Some(json_of(value)),
            None => read_values(bytes@) is None,
        },
{
    match crate::text::read_text(bytes) {
        Ok(text) => match crate::json::parse(text.as_str()) {
            Ok(value) => {
                let mut value = value;
                crate::json::sort_members(&mut value);
                Some(value)
            },
            Err(_) => None,
        },
        Err(_) => None,
    }
}

/// The settings of a migration's inputs that have a value, in order.
pub(crate) fn settings(outputs: &Vec<&UpstreamOutput>, migration: &Migration) -> (r: Vec<
    Statement,
>)
    ensures
        r.deep_view() == settings_of(outputs.deep_view(), migration@),
{
    let ghost all = outputs.deep_view();
    let mut statements: Vec<Statement> = Vec::new();
    let mut i: usize = 0;
    assert(statements.deep_view() =~= Seq::<StatementView>::empty());
    while i < migration.inputs.len()
        invariant
            i <= migration.inputs@.len(),
            all == outputs.deep_view(),
            settings_up_to(all, migration@, i as int) == statements.deep_view(),
        decreases migration.inputs.len() - i,
    {
        let slot = &migration.inputs[i];
        assert(migration@.inputs[i as int] == slot@);
        let published = match find_output(outputs, &slot.producer_component_spec_hash) {
            Some(output) => parse_values(&output.values_json),
            None => None,
        };
        let statement = match &published {
            Some(value) => input_setting(Some(value), slot),
            None => input_setting(None, slot),
        };
        match statement {
            Some(statement) => {
                statements.push(statement);
            },
            None => {},
        }
        i += 1;
    }
    statements
}

// ---------------------------------------------------------------------------
// Laws
// ---------------------------------------------------------------------------

/// What a producer publishes is found under its hash.
pub proof fn producers_are_found(outputs: Seq<UpstreamOutputView>, i: int)
    requires
        0 <= i < outputs.len(),
        forall|j: int|
            0 <= j < i ==> (#[trigger] outputs[j]).component_spec_hash
                != outputs[i].component_spec_hash,
    ensures
        published_by(outputs, outputs[i].component_spec_hash) == Some(outputs[i].values_json),
    decreases i,
{
    if i > 0 {
        let rest = outputs.drop_first();
        assert(outputs[0].component_spec_hash != outputs[i].component_spec_hash);
        assert forall|j: int| 0 <= j < i - 1 implies (#[trigger] rest[j]).component_spec_hash
            != rest[i - 1].component_spec_hash by {
            assert(rest[j] == outputs[j + 1]);
        }
        producers_are_found(rest, i - 1);
    }
}

/// An input has what its producer publishes under its output, whatever the default. The default
/// stands in where nothing is published.
pub proof fn published_values_come_first(outputs: Seq<UpstreamOutputView>, slot: InputSlotView)
    ensures
        match producer_values(outputs, slot) {
            Some(tree) => match property_of(tree, slot.output) {
                Some(value) => supplied_text(outputs, slot) == Some(setting_text(value)),
                None => supplied_text(outputs, slot) == default_text(slot),
            },
            None => supplied_text(outputs, slot) == default_text(slot),
        },
{
}

/// The text of an input's default.
pub open spec fn default_text(slot: InputSlotView) -> Option<Seq<char>> {
    match slot.default {
        Some(value) => Some(setting_text(value)),
        None => None,
    }
}

/// What a setting of the transaction holds after the statements: the value that was set last.
pub open spec fn held_setting(statements: Seq<StatementView>, name: Seq<char>) -> Option<Seq<char>>
    decreases statements.len(),
{
    if statements.len() == 0 {
        None
    } else {
        match statements.last() {
            StatementView::Execute { sql, parameters } => if sql == setting_sql()
                && parameters.len() == 2 && parameters[0] == name {
                Some(parameters[1])
            } else {
                held_setting(statements.drop_last(), name)
            },
            _ => held_setting(statements.drop_last(), name),
        }
    }
}

/// No two inputs of the migration share a name.
pub open spec fn distinct_inputs(migration: MigrationView) -> bool {
    forall|i: int, j: int|
        0 <= i < j < migration.inputs.len() ==> (#[trigger] migration.inputs[i]).name != (
        #[trigger] migration.inputs[j]).name
}

/// Settings leave a name unset that is not among the inputs.
proof fn other_settings_stay(
    outputs: Seq<UpstreamOutputView>,
    migration: MigrationView,
    count: int,
    slot: InputSlotView,
)
    requires
        0 <= count <= migration.inputs.len(),
        forall|i: int| 0 <= i < count ==> (#[trigger] migration.inputs[i]).name != slot.name,
    ensures
        held_setting(settings_up_to(outputs, migration, count), setting_name(slot)) is None,
    decreases count,
{
    if count > 0 {
        other_settings_stay(outputs, migration, count - 1, slot);
        let last = migration.inputs[count - 1];
        names_tell_apart(last, slot);
        let before = settings_up_to(outputs, migration, count - 1);
        match supplied_text(outputs, last) {
            Some(text) => {
                assert(before.push(setting(last, text)).drop_last() =~= before);
            },
            None => {},
        }
    }
}

proof fn names_tell_apart(a: InputSlotView, b: InputSlotView)
    requires
        a.name != b.name,
    ensures
        setting_name(a) != setting_name(b),
{
    let size = "henosis.input."@.len() as int;
    assert(a.name =~= setting_name(a).skip(size));
    assert(b.name =~= setting_name(b).skip(size));
}

/// After its settings, every input of a migration is found under its name with exactly its value,
/// and one without a value is unset.
pub(crate) proof fn settings_hold_values(
    outputs: Seq<UpstreamOutputView>,
    migration: MigrationView,
    count: int,
    i: int,
)
    requires
        0 <= i < count <= migration.inputs.len(),
        distinct_inputs(migration),
    ensures
        held_setting(
            settings_up_to(outputs, migration, count),
            setting_name(migration.inputs[i]),
        ) == supplied_text(outputs, migration.inputs[i]),
    decreases count,
{
    let slot = migration.inputs[i];
    let last = migration.inputs[count - 1];
    let before = settings_up_to(outputs, migration, count - 1);
    if i < count - 1 {
        settings_hold_values(outputs, migration, count - 1, i);
        names_tell_apart(last, slot);
    } else {
        other_settings_stay(outputs, migration, count - 1, slot);
    }
    match supplied_text(outputs, last) {
        Some(text) => {
            assert(before.push(setting(last, text)).drop_last() =~= before);
        },
        None => {},
    }
}

/// A batch before the settings sets nothing.
pub(crate) proof fn batches_set_nothing(
    sql: Seq<char>,
    settings: Seq<StatementView>,
    name: Seq<char>,
)
    ensures
        held_setting(seq![StatementView::Batch(sql)] + settings, name) == held_setting(
            settings,
            name,
        ),
    decreases settings.len(),
{
    let first = seq![StatementView::Batch(sql)];
    if settings.len() == 0 {
        assert((first + settings).drop_last() =~= settings);
    } else {
        assert((first + settings).drop_last() =~= first + settings.drop_last());
        batches_set_nothing(sql, settings.drop_last(), name);
    }
}

}
