//! Redacted review projection of a private plan.

use vstd::prelude::*;

use crate::json::json_of;
use crate::json::json_pretty;
use crate::json::object_of;
use crate::json::text_array;
use crate::json::JsonView;
use crate::json::Members;
use crate::plan::output_list;
use crate::plan::ExecutablePlan;
use crate::plan::ExecutablePlanView;
use crate::plan::PlannedOperation;
use crate::plan::PlannedOperationView;
use crate::text::Plus as _;

verus! {

broadcast use crate::model::group_model;

/// Safe machine and human views of a plan.
#[derive(Debug, PartialEq, Eq)]
pub struct ReviewProjection {
    /// The machine view.
    pub json: serde_json::Value,
    /// The human view.
    pub markdown: String,
}

/// What a [`ReviewProjection`] holds.
#[verifier::ext_equal]
pub struct ReviewProjectionView {
    pub json: JsonView,
    pub markdown: Seq<char>,
}

impl DeepView for ReviewProjection {
    type V = ReviewProjectionView;

    open spec fn deep_view(&self) -> ReviewProjectionView {
        ReviewProjectionView {
            json: json_of(self.json),
            markdown: self.markdown@,
        }
    }
}

impl View for ReviewProjection {
    type V = ReviewProjectionView;

    open spec fn view(&self) -> ReviewProjectionView {
        self.deep_view()
    }
}

// ---------------------------------------------------------------------------
// Machine view
// ---------------------------------------------------------------------------

/// What a review shows of an operation: everything but the private executable operation.
pub open spec fn review_members(operation: PlannedOperationView) -> Seq<(Seq<char>, JsonView)> {
    seq![
        ("action"@, JsonView::Text(operation.action.name())),
        ("address"@, JsonView::Text(operation.address)),
        ("after"@, operation.after),
        ("before"@, operation.before),
        ("componentScopes"@, text_array(operation.component_scopes)),
        ("dependencies"@, text_array(operation.dependencies)),
        ("destructiveLevel"@, JsonView::Text(operation.destructive_level.name())),
        ("executionClass"@, JsonView::Text(operation.execution_class.name())),
        ("id"@, JsonView::Text(operation.id)),
        ("preconditions"@, text_array(operation.preconditions)),
    ]
}

/// What a review shows of the operations.
pub open spec fn review_list(operations: Seq<PlannedOperationView>) -> JsonView {
    JsonView::Array(
        Seq::new(operations.len(), |i: int| object_of(review_members(operations[i]))),
    )
}

/// What a review shows of a plan. Its identity stands for the executable payload.
pub open spec fn machine_members(plan: ExecutablePlanView) -> Seq<(Seq<char>, JsonView)> {
    seq![
        ("apiVersion"@, JsonView::Text(plan.api_version)),
        ("connector"@, JsonView::Text(plan.connector)),
        ("connectorBuild"@, JsonView::Text(plan.connector_build)),
        ("desiredDigest"@, JsonView::Text(plan.desired_digest)),
        ("executableDigest"@, JsonView::Text(plan.plan_id)),
        ("generation"@, JsonView::Text(plan.generation)),
        ("graphId"@, JsonView::Text(plan.graph_id)),
        ("journalTail"@, JsonView::Text(plan.journal_tail)),
        ("observedDigest"@, JsonView::Text(plan.observed_digest)),
        ("operations"@, review_list(plan.operations)),
        ("planId"@, JsonView::Text(plan.plan_id)),
        ("plannedOutputs"@, output_list(plan.planned_outputs)),
        ("policyVersion"@, JsonView::Text(plan.policy_version)),
        ("sliceSequence"@, JsonView::Text(plan.slice_sequence)),
        ("target"@, JsonView::Text(plan.target)),
    ]
}

fn review_operation(operation: &PlannedOperation) -> (r: serde_json::Value)
    ensures
        json_of(r) == object_of(review_members(operation@)),
{
    let members = Members::new().with_text("action", operation.action.text()).with_text(
        "address",
        operation.address.as_str(),
    ).with("after", operation.after.clone()).with("before", operation.before.clone()).with(
        "componentScopes",
        crate::json::texts(&operation.component_scopes),
    ).with("dependencies", crate::json::texts(&operation.dependencies)).with_text(
        "destructiveLevel",
        operation.destructive_level.text(),
    ).with_text("executionClass", operation.execution_class.text()).with_text(
        "id",
        operation.id.as_str(),
    ).with("preconditions", crate::json::texts(&operation.preconditions));
    assert(members@ =~= review_members(operation@));
    members.finish()
}

fn machine(plan: &ExecutablePlan) -> (r: serde_json::Value)
    ensures
        json_of(r) == object_of(machine_members(plan@)),
{
    let ghost all = plan@.operations;
    let mut operations: Vec<serde_json::Value> = Vec::new();
    let mut i: usize = 0;
    while i < plan.operations.len()
        invariant
            i <= plan.operations@.len(),
            all == plan.operations.deep_view(),
            operations@.len() == i,
            forall|j: int|
                0 <= j < i ==> json_of(#[trigger] operations@[j]) == object_of(
                    review_members(all[j]),
                ),
        decreases plan.operations.len() - i,
    {
        assert(all[i as int] == plan.operations@[i as int]@);
        operations.push(review_operation(&plan.operations[i]));
        i += 1;
    }
    assert(crate::json::json_all(operations@) =~= Seq::new(
        all.len(),
        |i: int| object_of(review_members(all[i])),
    ));
    let members = Members::new().with_text("apiVersion", plan.api_version.as_str()).with_text(
        "connector",
        plan.connector.as_str(),
    ).with_text("connectorBuild", plan.connector_build.as_str()).with_text(
        "desiredDigest",
        plan.desired_digest.as_str(),
    ).with_text("executableDigest", plan.plan_id.as_str()).with_text(
        "generation",
        plan.generation.as_str(),
    ).with_text("graphId", plan.graph_id.as_str()).with_text(
        "journalTail",
        plan.journal_tail.as_str(),
    ).with_text("observedDigest", plan.observed_digest.as_str()).with(
        "operations",
        crate::json::array(operations),
    ).with_text("planId", plan.plan_id.as_str()).with(
        "plannedOutputs",
        crate::plan::output_documents(&plan.planned_outputs),
    ).with_text("policyVersion", plan.policy_version.as_str()).with_text(
        "sliceSequence",
        plan.slice_sequence.as_str(),
    ).with_text("target", plan.target.as_str());
    assert(members@ =~= machine_members(plan@));
    members.finish()
}

// ---------------------------------------------------------------------------
// Human view
// ---------------------------------------------------------------------------

/// The head of the human view.
pub open spec fn head_text(plan: ExecutablePlanView) -> Seq<char> {
    "# Supabase plan\n\n- Plan: `"@ + plan.plan_id + "`\n- Graph: `"@ + plan.graph_id
        + "` generation `"@ + plan.generation + "` / slice `"@ + plan.slice_sequence
        + "`\n- Target: `"@ + plan.target + "`\n- Desired: `"@ + plan.desired_digest
        + "`\n- Observed: `"@ + plan.observed_digest + "`\n- Journal tail fence: `"@
        + plan.journal_tail
        + "`\n\n| Action | Class | Address | Safety |\n|---|---|---|---|\n"@
}

/// One row of the human view.
pub open spec fn row_text(operation: PlannedOperationView) -> Seq<char> {
    "| `"@ + operation.action.title() + "` | `"@ + operation.execution_class.title() + "` | `"@
        + operation.address + "` | `"@ + operation.destructive_level.title() + "` |\n"@
}

/// The rows of the human view.
pub open spec fn rows_text(operations: Seq<PlannedOperationView>) -> Seq<char>
    decreases operations.len(),
{
    if operations.len() == 0 {
        seq![]
    } else {
        rows_text(operations.drop_last()) + row_text(operations.last())
    }
}

/// The human view, given the indented text of the planned outputs.
pub open spec fn markdown_with(plan: ExecutablePlanView, outputs: Seq<char>) -> Seq<char> {
    head_text(plan) + rows_text(plan.operations) + "\n## Planned outputs\n\n```json\n"@ + outputs
        + "\n```\n"@
}

/// The human view.
pub open spec fn markdown_text(plan: ExecutablePlanView) -> Seq<char> {
    markdown_with(plan, json_pretty(output_list(plan.planned_outputs)))
}

fn row(operation: &PlannedOperation) -> (r: String)
    ensures
        r@ == row_text(operation@),
{
    "| `".to_owned().plus(operation.action.heading()).plus("` | `").plus(
        operation.execution_class.heading(),
    ).plus("` | `").plus(operation.address.as_str()).plus("` | `").plus(
        operation.destructive_level.heading(),
    ).plus("` |\n")
}

/// Renders the human view of a plan, given the indented text of its planned outputs.
pub fn markdown(plan: &ExecutablePlan, outputs: &str) -> (r: String)
    ensures
        r@ == markdown_with(plan@, outputs@),
{
    let mut document = "# Supabase plan\n\n- Plan: `".to_owned().plus(plan.plan_id.as_str()).plus(
        "`\n- Graph: `",
    ).plus(plan.graph_id.as_str()).plus("` generation `").plus(plan.generation.as_str()).plus(
        "` / slice `",
    ).plus(plan.slice_sequence.as_str()).plus("`\n- Target: `").plus(plan.target.as_str()).plus(
        "`\n- Desired: `",
    ).plus(plan.desired_digest.as_str()).plus("`\n- Observed: `").plus(
        plan.observed_digest.as_str(),
    ).plus("`\n- Journal tail fence: `").plus(plan.journal_tail.as_str()).plus(
        "`\n\n| Action | Class | Address | Safety |\n|---|---|---|---|\n",
    );
    let ghost head = document@;
    let ghost all = plan@.operations;
    assert(head == head_text(plan@));
    let mut i: usize = 0;
    assert(document@ =~= head + rows_text(all.take(0)));
    while i < plan.operations.len()
        invariant
            i <= plan.operations@.len(),
            all == plan.operations.deep_view(),
            document@ == head + rows_text(all.take(i as int)),
        decreases plan.operations.len() - i,
    {
        assert(all.take(i + 1).drop_last() == all.take(i as int));
        assert(all[i as int] == plan.operations@[i as int]@);
        document.push_str(row(&plan.operations[i]).as_str());
        assert(document@ =~= head + rows_text(all.take(i + 1)));
        i += 1;
    }
    assert(all.take(all.len() as int) == all);
    document.plus("\n## Planned outputs\n\n```json\n").plus(outputs).plus("\n```\n")
}

/// Builds the safe machine and human views of a plan.
pub fn project(plan: &ExecutablePlan) -> (r: ReviewProjection)
    ensures
        r@ == review_of(plan@),
{
    let outputs = crate::json::to_pretty(&crate::plan::output_documents(&plan.planned_outputs));
    ReviewProjection { json: machine(plan), markdown: markdown(plan, outputs.as_str()) }
}

/// The safe views of a plan.
pub open spec fn review_of(plan: ExecutablePlanView) -> ReviewProjectionView {
    ReviewProjectionView {
        json: object_of(machine_members(plan)),
        markdown: markdown_text(plan),
    }
}

// ---------------------------------------------------------------------------
// Redaction
// ---------------------------------------------------------------------------

/// The operations agree on all that a review shows.
pub open spec fn look_alike(a: PlannedOperationView, b: PlannedOperationView) -> bool {
    a == (PlannedOperationView { operation: a.operation, ..b })
}

/// The executable operations are private: plans that differ in nothing else have the same review.
pub proof fn reviews_hide_executable_operations(a: ExecutablePlanView, b: ExecutablePlanView)
    requires
        a == (ExecutablePlanView { operations: a.operations, ..b }),
        a.operations.len() == b.operations.len(),
        forall|i: int|
            0 <= i < a.operations.len() ==> look_alike(
                #[trigger] a.operations[i],
                b.operations[i],
            ),
    ensures
        review_of(a) == review_of(b),
{
    assert forall|i: int| 0 <= i < a.operations.len() implies object_of(
        review_members(#[trigger] a.operations[i]),
    ) == object_of(review_members(b.operations[i])) by {
        assert(look_alike(a.operations[i], b.operations[i]));
        assert(review_members(a.operations[i]) =~= review_members(b.operations[i]));
    }
    assert(Seq::new(a.operations.len(), |i: int| object_of(review_members(a.operations[i])))
        =~= Seq::new(b.operations.len(), |i: int| object_of(review_members(b.operations[i]))));
    assert(machine_members(a) =~= machine_members(b));
    same_rows(a.operations, b.operations);
}

proof fn same_rows(a: Seq<PlannedOperationView>, b: Seq<PlannedOperationView>)
    requires
        a.len() == b.len(),
        forall|i: int| 0 <= i < a.len() ==> look_alike(#[trigger] a[i], b[i]),
    ensures
        rows_text(a) == rows_text(b),
    decreases a.len(),
{
    if a.len() > 0 {
        assert forall|i: int| 0 <= i < a.drop_last().len() implies look_alike(
            #[trigger] a.drop_last()[i],
            b.drop_last()[i],
        ) by {
            assert(look_alike(a[i], b[i]));
        }
        same_rows(a.drop_last(), b.drop_last());
        assert(look_alike(a[a.len() - 1], b[b.len() - 1]));
    }
}

/// A review carries the identity of the executable payload.
pub proof fn reviews_carry_executable_digest(plan: ExecutablePlanView)
    requires
        plan.plan_id == plan.payload_id(),
    ensures
        machine_members(plan).contains(
            ("executableDigest"@, JsonView::Text(plan.payload_id())),
        ),
        machine_members(plan).contains(("planId"@, JsonView::Text(plan.payload_id()))),
{
    assert(machine_members(plan)[4] == ("executableDigest"@, JsonView::Text(plan.payload_id())));
    assert(machine_members(plan)[10] == ("planId"@, JsonView::Text(plan.payload_id())));
}

}
