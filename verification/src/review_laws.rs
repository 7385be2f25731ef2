//! What a review shows of a plan.

use vstd::prelude::*;

use crate::json::json_pretty;
use crate::json::object_of;
use crate::json::text_array;
use crate::json::JsonView;
use crate::plan::Action;
use crate::plan::ExecutablePlanView;
use crate::plan::ExecutionClass;
use crate::plan::PlannedOperationView;
use crate::review::markdown_with;
use crate::review::review_of;
use crate::review::rows_text;

verus! {

/// The texts one after the other.
pub open spec fn concatenated(texts: Seq<Seq<char>>) -> Seq<char>
    decreases texts.len(),
{
    if texts.len() == 0 {
        seq![]
    } else {
        texts[0] + concatenated(texts.drop_first())
    }
}

proof fn concatenation_grows(texts: Seq<Seq<char>>, last: Seq<char>)
    ensures
        concatenated(texts.push(last)) == concatenated(texts) + last,
    decreases texts.len(),
{
    if texts.len() == 0 {
        assert(texts.push(last).drop_first() =~= Seq::<Seq<char>>::empty());
        reveal_with_fuel(concatenated, 2);
        assert(concatenated(texts.push(last)) =~= concatenated(texts) + last);
    } else {
        concatenation_grows(texts.drop_first(), last);
        assert(texts.push(last).drop_first() =~= texts.drop_first().push(last));
        assert(concatenated(texts.push(last)) =~= concatenated(texts) + last);
    }
}

/// The row tells the operation's action, its class, its address and its safety.
pub open spec fn tells_operation(row: Seq<char>, operation: PlannedOperationView) -> bool {
    let action = match operation.action {
        Action::Create => "Create"@,
        Action::Update => "Update"@,
        Action::Bind => "Bind"@,
        Action::Transition => "Transition"@,
    };
    let class = match operation.execution_class {
        ExecutionClass::ReconciledObject => "ReconciledObject"@,
        ExecutionClass::OrderedTransition => "OrderedTransition"@,
    };
    row == "| `"@ + action + "` | `"@ + class + "` | `"@ + operation.address + "` | `"@
        + "NonDestructive"@ + "` |\n"@
}

proof fn rows_are_concatenated(operations: Seq<PlannedOperationView>) -> (rows: Seq<Seq<char>>)
    ensures
        rows.len() == operations.len(),
        forall|i: int|
            0 <= i < rows.len() ==> tells_operation(#[trigger] rows[i], operations[i]),
        rows_text(operations) == concatenated(rows),
    decreases operations.len(),
{
    if operations.len() == 0 {
        seq![]
    } else {
        let before = rows_are_concatenated(operations.drop_last());
        let last = crate::review::row_text(operations.last());
        concatenation_grows(before, last);
        let rows = before.push(last);
        assert forall|i: int| 0 <= i < rows.len() implies tells_operation(
            #[trigger] rows[i],
            operations[i],
        ) by {
            if i < before.len() {
                assert(before[i] == rows[i]);
                assert(operations.drop_last()[i] == operations[i]);
            }
        }
        rows
    }
}

/// The human view names the plan, the level, the target, what it was made from and its fence. Then
/// it has one row for every operation, in the plan's order, and then the planned outputs.
pub proof fn human_views_show_every_operation(plan: ExecutablePlanView, outputs: Seq<char>)
    ensures
        exists|rows: Seq<Seq<char>>|
            {
                &&& rows.len() == plan.operations.len()
                &&& forall|i: int|
                    0 <= i < rows.len() ==> tells_operation(#[trigger] rows[i], plan.operations[i])
                &&& markdown_with(plan, outputs) == "# Supabase plan\n\n- Plan: `"@ + plan.plan_id
                    + "`\n- Graph: `"@ + plan.graph_id + "` generation `"@ + plan.generation
                    + "` / slice `"@ + plan.slice_sequence + "`\n- Target: `"@ + plan.target
                    + "`\n- Desired: `"@ + plan.desired_digest + "`\n- Observed: `"@
                    + plan.observed_digest + "`\n- Journal tail fence: `"@ + plan.journal_tail
                    + "`\n\n| Action | Class | Address | Safety |\n|---|---|---|---|\n"@
                    + #[trigger] concatenated(rows) + "\n## Planned outputs\n\n```json\n"@ + outputs
                    + "\n```\n"@
            },
{
    let rows = rows_are_concatenated(plan.operations);
}

/// The document shows everything of the operation but what is executed.
pub open spec fn shows_operation(document: JsonView, operation: PlannedOperationView) -> bool {
    let action = match operation.action {
        Action::Create => "create"@,
        Action::Update => "update"@,
        Action::Bind => "bind"@,
        Action::Transition => "transition"@,
    };
    let class = match operation.execution_class {
        ExecutionClass::ReconciledObject => "reconciled-object"@,
        ExecutionClass::OrderedTransition => "ordered-transition"@,
    };
    document == object_of(
        seq![
            ("action"@, JsonView::Text(action)),
            ("address"@, JsonView::Text(operation.address)),
            ("after"@, operation.after),
            ("before"@, operation.before),
            ("componentScopes"@, text_array(operation.component_scopes)),
            ("dependencies"@, text_array(operation.dependencies)),
            ("destructiveLevel"@, JsonView::Text("non-destructive"@)),
            ("executionClass"@, JsonView::Text(class)),
            ("id"@, JsonView::Text(operation.id)),
            ("preconditions"@, text_array(operation.preconditions)),
        ],
    )
}

/// The review shows the operations and the planned outputs by these documents, and everything that
/// the plan names, and it carries the identity of the executable plan. The human view shows the same
/// outputs.
pub open spec fn shows_plan(
    plan: ExecutablePlanView,
    operations: Seq<JsonView>,
    outputs: Seq<JsonView>,
) -> bool {
    &&& operations.len() == plan.operations.len()
    &&& forall|i: int|
        0 <= i < operations.len() ==> shows_operation(
            #[trigger] operations[i],
            plan.operations[i],
        )
    &&& outputs.len() == plan.planned_outputs.len()
    &&& forall|i: int|
        0 <= i < outputs.len() ==> #[trigger] outputs[i] == object_of(
            seq![
                ("componentSpecHash"@, JsonView::Text(plan.planned_outputs[i].component_spec_hash)),
                ("values"@, plan.planned_outputs[i].values),
            ],
        )
    &&& review_of(plan).json == object_of(
        seq![
            ("apiVersion"@, JsonView::Text(plan.api_version)),
            ("connector"@, JsonView::Text(plan.connector)),
            ("connectorBuild"@, JsonView::Text(plan.connector_build)),
            ("desiredDigest"@, JsonView::Text(plan.desired_digest)),
            ("executableDigest"@, JsonView::Text(plan.plan_id)),
            ("generation"@, JsonView::Text(plan.generation)),
            ("graphId"@, JsonView::Text(plan.graph_id)),
            ("journalTail"@, JsonView::Text(plan.journal_tail)),
            ("observedDigest"@, JsonView::Text(plan.observed_digest)),
            ("operations"@, JsonView::Array(operations)),
            ("planId"@, JsonView::Text(plan.plan_id)),
            ("plannedOutputs"@, JsonView::Array(outputs)),
            ("policyVersion"@, JsonView::Text(plan.policy_version)),
            ("sliceSequence"@, JsonView::Text(plan.slice_sequence)),
            ("target"@, JsonView::Text(plan.target)),
        ],
    )
    &&& review_of(plan).markdown == markdown_with(plan, json_pretty(JsonView::Array(outputs)))
}

/// The machine view shows every operation of the plan, in the plan's order, every planned output,
/// and everything that the plan names.
pub proof fn machine_views_show_every_operation(plan: ExecutablePlanView)
    ensures
        exists|operations: Seq<JsonView>, outputs: Seq<JsonView>| #[trigger]
            shows_plan(plan, operations, outputs),
{
    let operations = crate::review::review_list(plan.operations)->Array_0;
    let outputs = crate::plan::output_list(plan.planned_outputs)->Array_0;
    assert forall|i: int| 0 <= i < operations.len() implies shows_operation(
        #[trigger] operations[i],
        plan.operations[i],
    ) by {
        assert(operations[i] == object_of(crate::review::review_members(plan.operations[i])));
    }
    assert forall|i: int| 0 <= i < outputs.len() implies #[trigger] outputs[i] == object_of(
        seq![
            ("componentSpecHash"@, JsonView::Text(plan.planned_outputs[i].component_spec_hash)),
            ("values"@, plan.planned_outputs[i].values),
        ],
    ) by {
        assert(outputs[i] == plan.planned_outputs[i].document());
    }
    assert(shows_plan(plan, operations, outputs));
}

}
