//! What digests fix: a plan's identity all that is carried out, an observation's digest all that was
//! observed.

use vstd::prelude::*;

use crate::context::InputSlotView;
use crate::context::MigrationView;
use crate::hashing::hex_tells_apart;
use crate::hashing::hex_text;
use crate::hashing::sha256_of;
use crate::journal::BindingView;
use crate::json::byte_array;
use crate::json::json_bytes;
use crate::json::objects_tell_members_apart;
use crate::json::text_array;
use crate::json::JsonView;
use crate::order::ascending;
use crate::order::keys;
use crate::order::precedes;
use crate::plan::operation_list;
use crate::plan::output_list;
use crate::plan::Action;
use crate::plan::ApiPolicyView;
use crate::plan::ExecutablePlanView;
use crate::plan::ExecutionClass;
use crate::plan::OperationView;
use crate::plan::PlanDiagnosticView;
use crate::plan::PlannedOperationView;
use crate::plan::PlannedOutputView;
use crate::plan::Planning;
use crate::slice::UpstreamOutputView;
use crate::target::decision_of;
use crate::target::flag_members;
use crate::target::flags_document;
use crate::target::statements_of;
use crate::target::DatabaseIdentityView;
use crate::target::ObservedMigrationView;
use crate::target::ObservedTargetView;
use crate::text::decimal_text;
use crate::text::decimal_tells_apart;

verus! {

// ---------------------------------------------------------------------------
// Names of members
// ---------------------------------------------------------------------------

proof fn payload_names_differ(plan: ExecutablePlanView)
    ensures
        keys(plan.payload_members()).no_duplicates(),
{
    reveal_strlit("apiVersion");
    reveal_strlit("connector");
    reveal_strlit("connectorBuild");
    reveal_strlit("policyVersion");
    reveal_strlit("graphId");
    reveal_strlit("generation");
    reveal_strlit("sliceSequence");
    reveal_strlit("target");
    reveal_strlit("desiredDigest");
    reveal_strlit("observedDigest");
    reveal_strlit("journalTail");
    reveal_strlit("operations");
    reveal_strlit("plannedOutputs");
    let names = keys(plan.payload_members());
    assert forall|i: int, j: int|
        0 <= i < names.len() && 0 <= j < names.len() && i != j implies names[i] != names[j] by {
        assert(names[i].len() != names[j].len() || names[i][0] != names[j][0]);
    }
}

proof fn planned_names_differ(operation: PlannedOperationView)
    ensures
        keys(operation.members()).no_duplicates(),
{
    reveal_strlit("id");
    reveal_strlit("address");
    reveal_strlit("componentScopes");
    reveal_strlit("executionClass");
    reveal_strlit("action");
    reveal_strlit("before");
    reveal_strlit("after");
    reveal_strlit("destructiveLevel");
    reveal_strlit("dependencies");
    reveal_strlit("preconditions");
    reveal_strlit("operation");
    let names = keys(operation.members());
    assert forall|i: int, j: int|
        0 <= i < names.len() && 0 <= j < names.len() && i != j implies names[i] != names[j] by {
        assert(names[i].len() != names[j].len() || names[i][0] != names[j][0]);
    }
}

proof fn operation_names_differ(operation: OperationView)
    ensures
        keys(operation.members()).no_duplicates(),
{
    reveal_strlit("kind");
    reveal_strlit("binding");
    reveal_strlit("resource_id");
    reveal_strlit("schema");
    reveal_strlit("migration");
    reveal_strlit("exposed_schemas");
    reveal_strlit("policies");
    let names = keys(operation.members());
    assert forall|i: int, j: int|
        0 <= i < names.len() && 0 <= j < names.len() && i != j implies names[i] != names[j] by {
        assert(names[i].len() != names[j].len() || names[i][0] != names[j][0]);
    }
}

proof fn slot_names_differ(slot: InputSlotView)
    ensures
        keys(slot.members()).no_duplicates(),
{
    reveal_strlit("name");
    reveal_strlit("producerComponentSpecHash");
    reveal_strlit("output");
    reveal_strlit("default");
    let names = keys(slot.members());
    assert forall|i: int, j: int|
        0 <= i < names.len() && 0 <= j < names.len() && i != j implies names[i] != names[j] by {
        assert(names[i].len() != names[j].len());
    }
}

proof fn migration_names_differ(migration: MigrationView)
    ensures
        keys(migration.members()).no_duplicates(),
{
    reveal_strlit("id");
    reveal_strlit("checksum");
    reveal_strlit("sql");
    reveal_strlit("inputs");
    let names = keys(migration.members());
    assert forall|i: int, j: int|
        0 <= i < names.len() && 0 <= j < names.len() && i != j implies names[i] != names[j] by {
        assert(names[i].len() != names[j].len());
    }
}

proof fn binding_names_differ(binding: BindingView)
    ensures
        keys(binding.members()).no_duplicates(),
{
    reveal_strlit("graphId");
    reveal_strlit("resourceId");
    reveal_strlit("project");
    reveal_strlit("database");
    reveal_strlit("schema");
    let names = keys(binding.members());
    assert forall|i: int, j: int|
        0 <= i < names.len() && 0 <= j < names.len() && i != j implies names[i] != names[j] by {
        assert(names[i].len() != names[j].len() || names[i][0] != names[j][0]);
    }
}

proof fn policy_names_differ(policy: ApiPolicyView)
    ensures
        keys(policy.members()).no_duplicates(),
{
    reveal_strlit("schema");
    reveal_strlit("expose");
    reveal_strlit("anonAccess");
    let names = keys(policy.members());
    assert forall|i: int, j: int|
        0 <= i < names.len() && 0 <= j < names.len() && i != j implies names[i] != names[j] by {
        assert(names[i].len() != names[j].len() || names[i][0] != names[j][0]);
    }
}

proof fn output_names_differ(output: PlannedOutputView)
    ensures
        keys(output.members()).no_duplicates(),
{
    reveal_strlit("componentSpecHash");
    reveal_strlit("values");
    let names = keys(output.members());
    assert forall|i: int, j: int|
        0 <= i < names.len() && 0 <= j < names.len() && i != j implies names[i] != names[j] by {
        assert(names[i].len() != names[j].len());
    }
}

proof fn identity_names_differ(identity: DatabaseIdentityView)
    ensures
        keys(identity.members()).no_duplicates(),
{
    reveal_strlit("database");
    reveal_strlit("databaseOid");
    reveal_strlit("serverVersion");
    let names = keys(identity.members());
    assert forall|i: int, j: int|
        0 <= i < names.len() && 0 <= j < names.len() && i != j implies names[i] != names[j] by {
        assert(names[i].len() != names[j].len());
    }
}

proof fn receipt_names_differ(receipt: ObservedMigrationView)
    ensures
        keys(receipt.members()).no_duplicates(),
{
    reveal_strlit("resourceId");
    reveal_strlit("migrationId");
    reveal_strlit("checksum");
    let names = keys(receipt.members());
    assert forall|i: int, j: int|
        0 <= i < names.len() && 0 <= j < names.len() && i != j implies names[i] != names[j] by {
        assert(names[i].len() != names[j].len());
    }
}

proof fn observed_names_differ(observed: ObservedTargetView)
    ensures
        keys(observed.members()).no_duplicates(),
{
    reveal_strlit("identity");
    reveal_strlit("metadataExists");
    reveal_strlit("schemas");
    reveal_strlit("migrations");
    reveal_strlit("exposedSchemas");
    reveal_strlit("anonRead");
    let names = keys(observed.members());
    assert forall|i: int, j: int|
        0 <= i < names.len() && 0 <= j < names.len() && i != j implies names[i] != names[j] by {
        assert(names[i].len() != names[j].len() || names[i][0] != names[j][0]);
    }
}

// ---------------------------------------------------------------------------
// Documents
// ---------------------------------------------------------------------------

proof fn text_arrays_tell_apart(a: Seq<Seq<char>>, b: Seq<Seq<char>>)
    requires
        text_array(a) == text_array(b),
    ensures
        a == b,
{
    let left = text_array(a)->Array_0;
    let right = text_array(b)->Array_0;
    assert(left.len() == a.len() && right.len() == b.len());
    assert forall|i: int| 0 <= i < a.len() implies a[i] == b[i] by {
        assert(left[i] == right[i]);
        assert(left[i] == JsonView::Text(a[i]));
        assert(right[i] == JsonView::Text(b[i]));
    }
    assert(a =~= b);
}

proof fn bindings_tell_apart(a: BindingView, b: BindingView)
    requires
        a.document() == b.document(),
    ensures
        a == b,
{
    binding_names_differ(a);
    binding_names_differ(b);
    objects_tell_members_apart(a.members(), b.members());
    let left = a.members();
    let right = b.members();
    assert(left[0] == right[0] && left[1] == right[1] && left[2] == right[2]);
    assert(left[3] == right[3] && left[4] == right[4]);
}

proof fn policies_tell_apart(a: ApiPolicyView, b: ApiPolicyView)
    requires
        a.document() == b.document(),
    ensures
        a == b,
{
    policy_names_differ(a);
    policy_names_differ(b);
    objects_tell_members_apart(a.members(), b.members());
    let left = a.members();
    let right = b.members();
    assert(left[0] == right[0] && left[1] == right[1] && left[2] == right[2]);
    reveal_strlit("none");
    reveal_strlit("read");
    assert("none"@[0] != "read"@[0]);
}

pub(crate) proof fn byte_arrays_tell_apart(a: Seq<u8>, b: Seq<u8>)
    requires
        byte_array(a) == byte_array(b),
    ensures
        a == b,
{
    let left = byte_array(a)->Array_0;
    let right = byte_array(b)->Array_0;
    assert(left.len() == a.len() && right.len() == b.len());
    assert forall|i: int| 0 <= i < a.len() implies a[i] == b[i] by {
        assert(left[i] == right[i]);
        assert(left[i] == JsonView::Number(decimal_text(a[i] as nat)));
        assert(right[i] == JsonView::Number(decimal_text(b[i] as nat)));
        decimal_tells_apart(a[i] as nat, b[i] as nat);
    }
    assert(a =~= b);
}

/// The declaration as its document tells it: a default of null counts as none.
pub open spec fn written_slot(slot: InputSlotView) -> InputSlotView {
    if slot.default == Some(JsonView::Null) {
        InputSlotView { default: None, ..slot }
    } else {
        slot
    }
}

/// The migration as its document tells it.
pub open spec fn written_migration(migration: MigrationView) -> MigrationView {
    MigrationView {
        inputs: Seq::new(migration.inputs.len(), |i: int| written_slot(migration.inputs[i])),
        ..migration
    }
}

/// The operation as its document tells it.
pub open spec fn written_operation(operation: OperationView) -> OperationView {
    match operation {
        OperationView::ApplyMigration { resource_id, schema, migration } => {
            OperationView::ApplyMigration {
                resource_id,
                schema,
                migration: written_migration(migration),
            }
        },
        _ => operation,
    }
}

/// The planned operation as its document tells it.
pub open spec fn written_proposal(planned: PlannedOperationView) -> PlannedOperationView {
    PlannedOperationView { operation: written_operation(planned.operation), ..planned }
}

/// The plan as its document tells it.
pub open spec fn written_plan(plan: ExecutablePlanView) -> ExecutablePlanView {
    ExecutablePlanView {
        operations: Seq::new(
            plan.operations.len(),
            |i: int| written_proposal(plan.operations[i]),
        ),
        ..plan
    }
}

/// No input of the operation declares a default of null. An operation that is read from a document
/// declares none.
pub open spec fn plain_defaults(planned: PlannedOperationView) -> bool {
    match planned.operation {
        OperationView::ApplyMigration { migration, .. } => forall|i: int|
            0 <= i < migration.inputs.len() ==> (#[trigger] migration.inputs[i]).default != Some(
                JsonView::Null,
            ),
        _ => true,
    }
}

proof fn plain_operations_are_written(planned: PlannedOperationView)
    requires
        plain_defaults(planned),
    ensures
        written_proposal(planned) == planned,
{
    match planned.operation {
        OperationView::ApplyMigration { migration, .. } => {
            assert(written_migration(migration).inputs =~= migration.inputs);
        },
        _ => {},
    }
}

proof fn slots_tell_apart(a: InputSlotView, b: InputSlotView)
    requires
        a.document() == b.document(),
    ensures
        written_slot(a) == written_slot(b),
{
    slot_names_differ(a);
    slot_names_differ(b);
    objects_tell_members_apart(a.members(), b.members());
    let left = a.members();
    let right = b.members();
    assert(left[0] == right[0] && left[1] == right[1] && left[2] == right[2]);
    assert(left[3] == right[3]);
    byte_arrays_tell_apart(a.producer_component_spec_hash, b.producer_component_spec_hash);
}

proof fn migrations_tell_apart(a: MigrationView, b: MigrationView)
    requires
        a.document() == b.document(),
    ensures
        written_migration(a) == written_migration(b),
{
    migration_names_differ(a);
    migration_names_differ(b);
    objects_tell_members_apart(a.members(), b.members());
    let left = a.members();
    let right = b.members();
    assert(left[0] == right[0] && left[1] == right[1] && left[2] == right[2]);
    assert(left[3] == right[3]);
    let slots = left[3].1->Array_0;
    let others = right[3].1->Array_0;
    assert(slots.len() == a.inputs.len() && others.len() == b.inputs.len());
    assert forall|i: int| 0 <= i < a.inputs.len() implies written_slot(a.inputs[i])
        == written_slot(b.inputs[i]) by {
        assert(slots[i] == a.inputs[i].document());
        assert(others[i] == b.inputs[i].document());
        slots_tell_apart(a.inputs[i], b.inputs[i]);
    }
    assert(written_migration(a).inputs =~= written_migration(b).inputs);
}

/// The names of the kinds of operations.
spec fn kind_of(operation: OperationView) -> Seq<char> {
    match operation {
        OperationView::EstablishBinding { .. } => "establishBinding"@,
        OperationView::EnsureMetadata => "ensureMetadata"@,
        OperationView::EnsureSchema { .. } => "ensureSchema"@,
        OperationView::ApplyMigration { .. } => "applyMigration"@,
        OperationView::ConfigureApi { .. } => "configureApi"@,
    }
}

proof fn kinds_tell_apart(a: OperationView, b: OperationView)
    requires
        kind_of(a) == kind_of(b),
    ensures
        a is EstablishBinding <==> b is EstablishBinding,
        a is EnsureMetadata <==> b is EnsureMetadata,
        a is EnsureSchema <==> b is EnsureSchema,
        a is ApplyMigration <==> b is ApplyMigration,
        a is ConfigureApi <==> b is ConfigureApi,
{
    reveal_strlit("establishBinding");
    reveal_strlit("ensureMetadata");
    reveal_strlit("ensureSchema");
    reveal_strlit("applyMigration");
    reveal_strlit("configureApi");
    assert("establishBinding"@.len() == 16);
    assert("ensureMetadata"@.len() == 14 && "ensureMetadata"@[0] == 'e');
    assert("ensureSchema"@.len() == 12 && "ensureSchema"@[0] == 'e');
    assert("applyMigration"@.len() == 14 && "applyMigration"@[0] == 'a');
    assert("configureApi"@.len() == 12 && "configureApi"@[0] == 'c');
}

proof fn operations_tell_apart(a: OperationView, b: OperationView)
    requires
        a.document() == b.document(),
    ensures
        written_operation(a) == written_operation(b),
{
    operation_names_differ(a);
    operation_names_differ(b);
    objects_tell_members_apart(a.members(), b.members());
    let left = a.members();
    let right = b.members();
    assert(left[0] == ("kind"@, JsonView::Text(kind_of(a))));
    assert(right[0] == ("kind"@, JsonView::Text(kind_of(b))));
    kinds_tell_apart(a, b);
    match (a, b) {
        (
            OperationView::EstablishBinding { binding },
            OperationView::EstablishBinding { binding: other },
        ) => {
            assert(left[1] == right[1]);
            bindings_tell_apart(binding, other);
        },
        (OperationView::EnsureSchema { .. }, OperationView::EnsureSchema { .. }) => {
            assert(left[1] == right[1] && left[2] == right[2]);
        },
        (
            OperationView::ApplyMigration { migration, .. },
            OperationView::ApplyMigration { migration: other, .. },
        ) => {
            assert(left[1] == right[1] && left[2] == right[2] && left[3] == right[3]);
            migrations_tell_apart(migration, other);
        },
        (
            OperationView::ConfigureApi { exposed_schemas, policies },
            OperationView::ConfigureApi { exposed_schemas: other_schemas, policies: others },
        ) => {
            assert(left[1] == right[1] && left[2] == right[2]);
            text_arrays_tell_apart(exposed_schemas, other_schemas);
            let documents = left[2].1->Array_0;
            let other_documents = right[2].1->Array_0;
            assert(documents.len() == policies.len() && other_documents.len() == others.len());
            assert forall|i: int| 0 <= i < policies.len() implies policies[i] == others[i] by {
                assert(documents[i] == policies[i].document());
                assert(other_documents[i] == others[i].document());
                policies_tell_apart(policies[i], others[i]);
            }
            assert(policies =~= others);
        },
        _ => {},
    }
}

proof fn classes_tell_apart(a: ExecutionClass, b: ExecutionClass)
    requires
        a.name() == b.name(),
    ensures
        a == b,
{
    reveal_strlit("reconciled-object");
    reveal_strlit("ordered-transition");
    assert("reconciled-object"@.len() != "ordered-transition"@.len());
}

proof fn actions_tell_apart(a: Action, b: Action)
    requires
        a.name() == b.name(),
    ensures
        a == b,
{
    reveal_strlit("create");
    reveal_strlit("update");
    reveal_strlit("bind");
    reveal_strlit("transition");
    assert("create"@.len() == 6 && "create"@[0] == 'c');
    assert("update"@.len() == 6 && "update"@[0] == 'u');
    assert("bind"@.len() == 4 && "transition"@.len() == 10);
}

proof fn planned_operations_tell_apart(a: PlannedOperationView, b: PlannedOperationView)
    requires
        a.document() == b.document(),
    ensures
        written_proposal(a) == written_proposal(b),
{
    planned_names_differ(a);
    planned_names_differ(b);
    objects_tell_members_apart(a.members(), b.members());
    let left = a.members();
    let right = b.members();
    assert(left[0] == right[0] && left[1] == right[1] && left[2] == right[2]);
    assert(left[3] == right[3] && left[4] == right[4] && left[5] == right[5]);
    assert(left[6] == right[6] && left[7] == right[7] && left[8] == right[8]);
    assert(left[9] == right[9] && left[10] == right[10]);
    classes_tell_apart(a.execution_class, b.execution_class);
    actions_tell_apart(a.action, b.action);
    assert(a.destructive_level == b.destructive_level);
    text_arrays_tell_apart(a.component_scopes, b.component_scopes);
    text_arrays_tell_apart(a.dependencies, b.dependencies);
    text_arrays_tell_apart(a.preconditions, b.preconditions);
    operations_tell_apart(a.operation, b.operation);
}

proof fn outputs_tell_apart(a: PlannedOutputView, b: PlannedOutputView)
    requires
        a.document() == b.document(),
    ensures
        a == b,
{
    output_names_differ(a);
    output_names_differ(b);
    objects_tell_members_apart(a.members(), b.members());
    let left = a.members();
    let right = b.members();
    assert(left[0] == right[0] && left[1] == right[1]);
}

// ---------------------------------------------------------------------------
// Plans
// ---------------------------------------------------------------------------

/// A payload fixes every field of its plan but the plan's own identity. Only a default of null and
/// an absent default are written alike.
pub proof fn payloads_fix_their_plans(a: ExecutablePlanView, b: ExecutablePlanView)
    requires
        a.payload() == b.payload(),
    ensures
        (ExecutablePlanView { plan_id: b.plan_id, ..written_plan(a) }) == written_plan(b),
        a.operations.len() == b.operations.len(),
        forall|i: int|
            0 <= i < a.operations.len() && plain_defaults(a.operations[i]) && plain_defaults(
                b.operations[i],
            ) ==> #[trigger] a.operations[i] == b.operations[i],
        (forall|i: int| 0 <= i < a.operations.len() ==> plain_defaults(#[trigger] a.operations[i]))
            && (forall|i: int|
            0 <= i < b.operations.len() ==> plain_defaults(#[trigger] b.operations[i])) ==> (
        ExecutablePlanView { plan_id: b.plan_id, ..a }) == b,
{
    payload_names_differ(a);
    payload_names_differ(b);
    objects_tell_members_apart(a.payload_members(), b.payload_members());
    let left = a.payload_members();
    let right = b.payload_members();
    assert(left[0] == right[0] && left[1] == right[1]);
    assert(left[2] == right[2] && left[3] == right[3] && left[4] == right[4]);
    assert(left[5] == right[5] && left[6] == right[6] && left[7] == right[7]);
    assert(left[8] == right[8] && left[9] == right[9] && left[10] == right[10]);
    assert(left[11] == right[11] && left[12] == right[12]);
    let operations = operation_list(a.operations)->Array_0;
    let other_operations = operation_list(b.operations)->Array_0;
    assert(operations.len() == other_operations.len());
    assert forall|i: int| 0 <= i < a.operations.len() implies written_proposal(a.operations[i])
        == written_proposal(b.operations[i]) by {
        assert(operations[i] == other_operations[i]);
        planned_operations_tell_apart(a.operations[i], b.operations[i]);
    }
    assert(written_plan(a).operations =~= written_plan(b).operations);
    assert forall|i: int|
        0 <= i < a.operations.len() && plain_defaults(a.operations[i]) && plain_defaults(
            b.operations[i],
        ) implies #[trigger] a.operations[i] == b.operations[i] by {
        assert(written_proposal(a.operations[i]) == written_proposal(b.operations[i]));
        plain_operations_are_written(a.operations[i]);
        plain_operations_are_written(b.operations[i]);
    }
    let outputs = output_list(a.planned_outputs)->Array_0;
    let other_outputs = output_list(b.planned_outputs)->Array_0;
    assert(outputs.len() == other_outputs.len());
    assert forall|i: int| 0 <= i < a.planned_outputs.len() implies a.planned_outputs[i]
        == b.planned_outputs[i] by {
        assert(outputs[i] == other_outputs[i]);
        outputs_tell_apart(a.planned_outputs[i], b.planned_outputs[i]);
    }
    assert(a.planned_outputs =~= b.planned_outputs);
    if (forall|i: int| 0 <= i < a.operations.len() ==> plain_defaults(#[trigger] a.operations[i]))
        && (forall|i: int|
        0 <= i < b.operations.len() ==> plain_defaults(#[trigger] b.operations[i])) {
        assert(a.operations =~= b.operations);
    }
}

/// SHA-256 tells the documents apart, if they differ.
pub open spec fn told_apart(a: JsonView, b: JsonView) -> bool {
    sha256_of(json_bytes(a)) == sha256_of(json_bytes(b)) ==> a == b
}

proof fn labelled_digests_tell_apart(label: Seq<char>, a: Seq<u8>, b: Seq<u8>)
    requires
        label + hex_text(a) == label + hex_text(b),
    ensures
        a == b,
{
    assert(hex_text(a) =~= (label + hex_text(a)).skip(label.len() as int));
    assert(hex_text(b) =~= (label + hex_text(b)).skip(label.len() as int));
    hex_tells_apart(a, b);
}

/// Nothing can be substituted under a reviewed identity: plans that verify under one identity are
/// the same plan, and each of their operations carries out the same statements on one level, unless
/// SHA-256 does not tell their payloads apart. Only a default of null and an absent default are
/// written alike.
pub proof fn reviewed_plans_cannot_be_substituted(
    reviewed: ExecutablePlanView,
    applied: ExecutablePlanView,
)
    requires
        reviewed.plan_id == reviewed.payload_id(),
        applied.plan_id == applied.payload_id(),
        applied.plan_id == reviewed.plan_id,
        told_apart(reviewed.payload(), applied.payload()),
    ensures
        written_plan(reviewed) == written_plan(applied),
        reviewed.operations.len() == applied.operations.len(),
        forall|outputs: Seq<UpstreamOutputView>, i: int|
            0 <= i < reviewed.operations.len() && plain_defaults(reviewed.operations[i])
                && plain_defaults(applied.operations[i]) ==> #[trigger] statements_of(
                outputs,
                reviewed.plan_id,
                reviewed.operations[i],
            ) == statements_of(outputs, applied.plan_id, applied.operations[i]),
        (forall|i: int|
            0 <= i < reviewed.operations.len() ==> plain_defaults(
                #[trigger] reviewed.operations[i],
            )) && (forall|i: int|
            0 <= i < applied.operations.len() ==> plain_defaults(#[trigger] applied.operations[i]))
            ==> reviewed == applied,
{
    labelled_digests_tell_apart(
        "sha256:"@,
        sha256_of(json_bytes(reviewed.payload())),
        sha256_of(json_bytes(applied.payload())),
    );
    payloads_fix_their_plans(reviewed, applied);
}

// ---------------------------------------------------------------------------
// Observations
// ---------------------------------------------------------------------------

proof fn identities_tell_apart(a: DatabaseIdentityView, b: DatabaseIdentityView)
    requires
        a.document() == b.document(),
    ensures
        a == b,
{
    identity_names_differ(a);
    identity_names_differ(b);
    objects_tell_members_apart(a.members(), b.members());
    let left = a.members();
    let right = b.members();
    assert(left[0] == right[0] && left[1] == right[1] && left[2] == right[2]);
}

proof fn receipts_tell_apart(a: ObservedMigrationView, b: ObservedMigrationView)
    requires
        a.document() == b.document(),
    ensures
        a == b,
{
    receipt_names_differ(a);
    receipt_names_differ(b);
    objects_tell_members_apart(a.members(), b.members());
    let left = a.members();
    let right = b.members();
    assert(left[0] == right[0] && left[1] == right[1] && left[2] == right[2]);
}

proof fn flag_names_differ(flags: Seq<(Seq<char>, bool)>)
    requires
        ascending(keys(flags)),
    ensures
        keys(flag_members(flags)).no_duplicates(),
{
    let names = keys(flag_members(flags));
    assert(names =~= keys(flags));
    assert forall|i: int, j: int|
        0 <= i < names.len() && 0 <= j < names.len() && i != j implies names[i] != names[j] by {
        crate::order::precedes_irreflexive(names[i]);
        if i < j {
            assert(precedes(keys(flags)[i], keys(flags)[j]));
        } else {
            assert(precedes(keys(flags)[j], keys(flags)[i]));
        }
    }
}

proof fn flags_tell_apart(a: Seq<(Seq<char>, bool)>, b: Seq<(Seq<char>, bool)>)
    requires
        ascending(keys(a)),
        ascending(keys(b)),
        flags_document(a) == flags_document(b),
    ensures
        a == b,
{
    flag_names_differ(a);
    flag_names_differ(b);
    objects_tell_members_apart(flag_members(a), flag_members(b));
    let left = flag_members(a);
    let right = flag_members(b);
    assert(left.len() == a.len() && right.len() == b.len());
    assert forall|i: int| 0 <= i < a.len() implies a[i] == b[i] by {
        assert(left[i] == right[i]);
    }
    assert(a =~= b);
}

/// The document of an observation fixes everything that was observed.
pub proof fn observations_fix_their_facts(a: ObservedTargetView, b: ObservedTargetView)
    requires
        ascending(keys(a.anon_read)),
        ascending(keys(b.anon_read)),
        a.document() == b.document(),
    ensures
        a == b,
{
    observed_names_differ(a);
    observed_names_differ(b);
    objects_tell_members_apart(a.members(), b.members());
    let left = a.members();
    let right = b.members();
    assert(left[0] == right[0] && left[1] == right[1] && left[2] == right[2]);
    assert(left[3] == right[3] && left[4] == right[4] && left[5] == right[5]);
    identities_tell_apart(a.identity, b.identity);
    text_arrays_tell_apart(a.schemas, b.schemas);
    text_arrays_tell_apart(a.exposed_schemas, b.exposed_schemas);
    flags_tell_apart(a.anon_read, b.anon_read);
    let receipts = left[3].1->Array_0;
    let other_receipts = right[3].1->Array_0;
    assert(receipts.len() == a.migrations.len() && other_receipts.len() == b.migrations.len());
    assert forall|i: int| 0 <= i < a.migrations.len() implies a.migrations[i]
        == b.migrations[i] by {
        assert(receipts[i] == a.migrations[i].document());
        assert(other_receipts[i] == b.migrations[i].document());
        receipts_tell_apart(a.migrations[i], b.migrations[i]);
    }
    assert(a.migrations =~= b.migrations);
}

/// A plan is carried out only on the target that it was made from: an apply transaction that
/// commits has observed, under the lock, exactly what the plan was built on, unless BLAKE3 does not
/// tell the two observations apart.
pub proof fn plans_apply_to_what_they_were_built_on(
    planning: Planning,
    plan: ExecutablePlanView,
    observed: ObservedTargetView,
    outputs: Seq<UpstreamOutputView>,
    operation: PlannedOperationView,
)
    requires
        planning.result() == Ok::<ExecutablePlanView, Seq<PlanDiagnosticView>>(plan),
        decision_of(observed, outputs, plan, plan.plan_id, operation) is Commit,
        ascending(keys(planning.observed.anon_read)),
        ascending(keys(observed.anon_read)),
        planning.observed.digest() == observed.digest() ==> planning.observed.document()
            == observed.document(),
    ensures
        observed == planning.observed,
{
    labelled_digests_tell_apart("blake3:"@, planning.observed.digest(), observed.digest());
    observations_fix_their_facts(planning.observed, observed);
}

}
