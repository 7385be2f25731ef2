//! How plans, contexts and observations are written down.

use vstd::prelude::*;

use crate::context::AnonAccess;
use crate::context::ComponentContextView;
use crate::context::InputSlotView;
use crate::context::MigrationView;
use crate::json::object_of;
use crate::json::property_of;
use crate::json::text_array;
use crate::json::JsonView;
use crate::order::held;
use crate::order::keys;
use crate::plan::Action;
use crate::plan::ApiPolicyView;
use crate::plan::ExecutablePlanView;
use crate::plan::ExecutionClass;
use crate::plan::OperationView;
use crate::plan::PlannedOperationView;
use crate::plan::PlannedOutputView;
use crate::target::ObservedTargetView;
use crate::text::decimal_text;

verus! {

/// The items are written as an array, one after the other.
pub open spec fn written_as(array: JsonView, items: Seq<JsonView>) -> bool {
    array == JsonView::Array(items)
}

/// Texts are written as an array, one after the other.
pub proof fn texts_are_written_in_order(texts: Seq<Seq<char>>)
    ensures
        exists|items: Seq<JsonView>| #[trigger]
            written_as(text_array(texts), items) && items.len() == texts.len() && forall|i: int|
                0 <= i < items.len() ==> #[trigger] items[i] == JsonView::Text(texts[i]),
{
    let items = text_array(texts)->Array_0;
    assert(written_as(text_array(texts), items));
}

/// Bytes are written as an array of their numbers, one after the other.
pub proof fn bytes_are_written_in_order(bytes: Seq<u8>)
    ensures
        exists|items: Seq<JsonView>| #[trigger]
            written_as(crate::json::byte_array(bytes), items) && items.len() == bytes.len()
                && forall|i: int|
                0 <= i < items.len() ==> #[trigger] items[i] == JsonView::Number(
                    decimal_text(bytes[i] as nat),
                ),
{
    let items = crate::json::byte_array(bytes)->Array_0;
    assert(written_as(crate::json::byte_array(bytes), items));
}

/// A name that stands once among members is found in their object.
pub proof fn members_are_found(members: Seq<(Seq<char>, JsonView)>, at: int)
    requires
        keys(members).no_duplicates(),
        0 <= at < members.len(),
    ensures
        property_of(object_of(members), members[at].0) == Some(members[at].1),
{
    crate::json::distinct_members_stay(members);
    first_members_are_held(members, at);
}

proof fn first_members_are_held(members: Seq<(Seq<char>, JsonView)>, at: int)
    requires
        keys(members).no_duplicates(),
        0 <= at < members.len(),
    ensures
        held(members, members[at].0) == Some(members[at].1),
    decreases members.len(),
{
    if at > 0 {
        let rest = members.drop_first();
        assert(keys(members)[0] != keys(members)[at]);
        assert forall|i: int, j: int|
            0 <= i < keys(rest).len() && 0 <= j < keys(rest).len() && i != j implies keys(rest)[i]
            != keys(rest)[j] by {
            assert(keys(rest)[i] == keys(members)[i + 1]);
            assert(keys(rest)[j] == keys(members)[j + 1]);
        }
        first_members_are_held(rest, at - 1);
        assert(rest[at - 1] == members[at]);
    }
}

/// The name of an access policy.
pub open spec fn access_word(access: AnonAccess) -> Seq<char> {
    match access {
        AnonAccess::NoAccess => "none"@,
        AnonAccess::Read => "read"@,
    }
}

/// An input is written with its name, its producer, its output and its default, which is null where
/// there is none.
pub proof fn inputs_are_written_whole(slot: InputSlotView)
    ensures
        slot.document() == object_of(
            seq![
                ("name"@, JsonView::Text(slot.name)),
                (
                    "producerComponentSpecHash"@,
                    crate::json::byte_array(slot.producer_component_spec_hash),
                ),
                ("output"@, JsonView::Text(slot.output)),
                (
                    "default"@,
                    if slot.default is Some {
                        slot.default->0
                    } else {
                        JsonView::Null
                    },
                ),
            ],
        ),
{
    let default = if slot.default is Some {
        slot.default->0
    } else {
        JsonView::Null
    };
    assert(slot.members() =~= seq![
        ("name"@, JsonView::Text(slot.name)),
        ("producerComponentSpecHash"@, crate::json::byte_array(slot.producer_component_spec_hash)),
        ("output"@, JsonView::Text(slot.output)),
        ("default"@, default),
    ]);
}

/// The inputs are written in order.
pub open spec fn inputs_written(migration: MigrationView, items: Seq<JsonView>) -> bool {
    &&& items.len() == migration.inputs.len()
    &&& forall|i: int|
        0 <= i < items.len() ==> #[trigger] items[i] == migration.inputs[i].document()
}

/// A migration is written with its identity, its checksum, its SQL and all of its inputs in order.
pub proof fn migrations_are_written_whole(migration: MigrationView)
    ensures
        exists|inputs: Seq<JsonView>|
            {
                &&& #[trigger] inputs_written(migration, inputs)
                &&& migration.document() == object_of(
                    seq![
                        ("id"@, JsonView::Text(migration.id)),
                        ("checksum"@, JsonView::Text(migration.checksum)),
                        ("sql"@, JsonView::Text(migration.sql)),
                        ("inputs"@, JsonView::Array(inputs)),
                    ],
                )
            },
{
    let inputs = migration.members()[3].1->Array_0;
    assert(inputs_written(migration, inputs));
    assert(migration.document() == object_of(
        seq![
            ("id"@, JsonView::Text(migration.id)),
            ("checksum"@, JsonView::Text(migration.checksum)),
            ("sql"@, JsonView::Text(migration.sql)),
            ("inputs"@, JsonView::Array(inputs)),
        ],
    ));
}

/// The migrations are written in order.
pub open spec fn migrations_written(context: ComponentContextView, items: Seq<JsonView>) -> bool {
    &&& items.len() == context.migrations.len()
    &&& forall|i: int|
        0 <= i < items.len() ==> #[trigger] items[i] == context.migrations[i].document()
}

/// A context is written with its version, its resource, its target, all of its migrations in order and
/// its policy.
pub proof fn contexts_are_written_whole(context: ComponentContextView)
    ensures
        exists|migrations: Seq<JsonView>|
            {
                &&& #[trigger] migrations_written(context, migrations)
                &&& context.document() == object_of(
                    seq![
                        ("apiVersion"@, JsonView::Text(context.api_version)),
                        ("resourceId"@, JsonView::Text(context.resource_id)),
                        (
                            "target"@,
                            object_of(
                                seq![
                                    ("stack"@, JsonView::Text(context.target.stack)),
                                    ("project"@, JsonView::Text(context.target.project)),
                                    ("database"@, JsonView::Text(context.target.database)),
                                    ("schema"@, JsonView::Text(context.target.schema)),
                                ],
                            ),
                        ),
                        ("migrations"@, JsonView::Array(migrations)),
                        (
                            "api"@,
                            object_of(
                                seq![
                                    ("expose"@, JsonView::Bool(context.api.expose)),
                                    (
                                        "anonAccess"@,
                                        JsonView::Text(access_word(context.api.anon_access)),
                                    ),
                                ],
                            ),
                        ),
                    ],
                )
            },
{
    let migrations = context.members()[3].1->Array_0;
    assert(migrations_written(context, migrations));
    assert(context.document() == object_of(
        seq![
            ("apiVersion"@, JsonView::Text(context.api_version)),
            ("resourceId"@, JsonView::Text(context.resource_id)),
            (
                "target"@,
                object_of(
                    seq![
                        ("stack"@, JsonView::Text(context.target.stack)),
                        ("project"@, JsonView::Text(context.target.project)),
                        ("database"@, JsonView::Text(context.target.database)),
                        ("schema"@, JsonView::Text(context.target.schema)),
                    ],
                ),
            ),
            ("migrations"@, JsonView::Array(migrations)),
            (
                "api"@,
                object_of(
                    seq![
                        ("expose"@, JsonView::Bool(context.api.expose)),
                        ("anonAccess"@, JsonView::Text(access_word(context.api.anon_access))),
                    ],
                ),
            ),
        ],
    ));
}

/// The policies are written in order.
pub open spec fn policies_written(policies: Seq<ApiPolicyView>, items: Seq<JsonView>) -> bool {
    &&& items.len() == policies.len()
    &&& forall|i: int|
        0 <= i < items.len() ==> #[trigger] items[i] == object_of(
            seq![
                ("schema"@, JsonView::Text(policies[i].schema)),
                ("expose"@, JsonView::Bool(policies[i].expose)),
                ("anonAccess"@, JsonView::Text(access_word(policies[i].anon_access))),
            ],
        )
}

/// An operation is written under its kind, with everything that it does.
pub proof fn operations_are_written_whole(operation: OperationView)
    ensures
        match operation {
            OperationView::EstablishBinding { binding } => operation.document() == object_of(
                seq![
                    ("kind"@, JsonView::Text("establishBinding"@)),
                    (
                        "binding"@,
                        object_of(
                            seq![
                                ("graphId"@, JsonView::Text(binding.graph_id)),
                                ("resourceId"@, JsonView::Text(binding.resource_id)),
                                ("project"@, JsonView::Text(binding.project)),
                                ("database"@, JsonView::Text(binding.database)),
                                ("schema"@, JsonView::Text(binding.schema)),
                            ],
                        ),
                    ),
                ],
            ),
            OperationView::EnsureMetadata => operation.document() == object_of(
                seq![("kind"@, JsonView::Text("ensureMetadata"@))],
            ),
            OperationView::EnsureSchema { resource_id, schema } => operation.document()
                == object_of(
                seq![
                    ("kind"@, JsonView::Text("ensureSchema"@)),
                    ("resource_id"@, JsonView::Text(resource_id)),
                    ("schema"@, JsonView::Text(schema)),
                ],
            ),
            OperationView::ApplyMigration { resource_id, schema, migration } =>
                operation.document() == object_of(
                seq![
                    ("kind"@, JsonView::Text("applyMigration"@)),
                    ("resource_id"@, JsonView::Text(resource_id)),
                    ("schema"@, JsonView::Text(schema)),
                    ("migration"@, migration.document()),
                ],
            ),
            OperationView::ConfigureApi { exposed_schemas, policies } => exists|
                items: Seq<JsonView>,
            | #[trigger]
                policies_written(policies, items) && operation.document() == object_of(
                    seq![
                        ("kind"@, JsonView::Text("configureApi"@)),
                        ("exposed_schemas"@, text_array(exposed_schemas)),
                        ("policies"@, JsonView::Array(items)),
                    ],
                ),
        },
{
    match operation {
        OperationView::ConfigureApi { exposed_schemas, policies } => {
            let items = operation.members()[2].1->Array_0;
            assert forall|i: int| 0 <= i < items.len() implies #[trigger] items[i] == object_of(
                seq![
                    ("schema"@, JsonView::Text(policies[i].schema)),
                    ("expose"@, JsonView::Bool(policies[i].expose)),
                    ("anonAccess"@, JsonView::Text(access_word(policies[i].anon_access))),
                ],
            ) by {
                assert(items[i] == policies[i].document());
            }
            assert(policies_written(policies, items));
        },
        _ => {},
    }
}

/// The planned operation is written with everything that it says and does.
pub open spec fn proposal_written(planned: PlannedOperationView, document: JsonView) -> bool {
    document == object_of(
        seq![
            ("id"@, JsonView::Text(planned.id)),
            ("address"@, JsonView::Text(planned.address)),
            ("componentScopes"@, text_array(planned.component_scopes)),
            (
                "executionClass"@,
                JsonView::Text(
                    match planned.execution_class {
                        ExecutionClass::ReconciledObject => "reconciled-object"@,
                        ExecutionClass::OrderedTransition => "ordered-transition"@,
                    },
                ),
            ),
            (
                "action"@,
                JsonView::Text(
                    match planned.action {
                        Action::Create => "create"@,
                        Action::Update => "update"@,
                        Action::Bind => "bind"@,
                        Action::Transition => "transition"@,
                    },
                ),
            ),
            ("before"@, planned.before),
            ("after"@, planned.after),
            ("destructiveLevel"@, JsonView::Text("non-destructive"@)),
            ("dependencies"@, text_array(planned.dependencies)),
            ("preconditions"@, text_array(planned.preconditions)),
            ("operation"@, planned.operation.document()),
        ],
    )
}

/// The planned output is written with its producer and its values.
pub open spec fn output_written(output: PlannedOutputView, document: JsonView) -> bool {
    document == object_of(
        seq![
            ("componentSpecHash"@, JsonView::Text(output.component_spec_hash)),
            ("values"@, output.values),
        ],
    )
}

/// The members of a plan's payload, with its operations and outputs written by these documents.
pub open spec fn payload_written(
    plan: ExecutablePlanView,
    operations: Seq<JsonView>,
    outputs: Seq<JsonView>,
) -> Seq<(Seq<char>, JsonView)> {
    seq![
        ("apiVersion"@, JsonView::Text(plan.api_version)),
        ("connector"@, JsonView::Text(plan.connector)),
        ("connectorBuild"@, JsonView::Text(plan.connector_build)),
        ("policyVersion"@, JsonView::Text(plan.policy_version)),
        ("graphId"@, JsonView::Text(plan.graph_id)),
        ("generation"@, JsonView::Text(plan.generation)),
        ("sliceSequence"@, JsonView::Text(plan.slice_sequence)),
        ("target"@, JsonView::Text(plan.target)),
        ("desiredDigest"@, JsonView::Text(plan.desired_digest)),
        ("observedDigest"@, JsonView::Text(plan.observed_digest)),
        ("journalTail"@, JsonView::Text(plan.journal_tail)),
        ("operations"@, JsonView::Array(operations)),
        ("plannedOutputs"@, JsonView::Array(outputs)),
    ]
}

/// A plan's payload is everything of the plan but its identity, with all of its operations and
/// outputs in order. The plan is written as its identity and its payload.
pub proof fn plans_are_written_whole(plan: ExecutablePlanView)
    ensures
        exists|operations: Seq<JsonView>, outputs: Seq<JsonView>|
            {
                &&& operations.len() == plan.operations.len()
                &&& forall|i: int|
                    0 <= i < operations.len() ==> proposal_written(
                        plan.operations[i],
                        #[trigger] operations[i],
                    )
                &&& outputs.len() == plan.planned_outputs.len()
                &&& forall|i: int|
                    0 <= i < outputs.len() ==> output_written(
                        plan.planned_outputs[i],
                        #[trigger] outputs[i],
                    )
                &&& plan.payload() == object_of(
                    #[trigger] payload_written(plan, operations, outputs),
                )
                &&& plan.document() == object_of(
                    seq![("planId"@, JsonView::Text(plan.plan_id))] + payload_written(
                        plan,
                        operations,
                        outputs,
                    ),
                )
            },
{
    let operations = crate::plan::operation_list(plan.operations)->Array_0;
    let outputs = crate::plan::output_list(plan.planned_outputs)->Array_0;
    assert forall|i: int| 0 <= i < operations.len() implies proposal_written(
        plan.operations[i],
        #[trigger] operations[i],
    ) by {
        assert(operations[i] == plan.operations[i].document());
    }
    assert forall|i: int| 0 <= i < outputs.len() implies output_written(
        plan.planned_outputs[i],
        #[trigger] outputs[i],
    ) by {
        assert(outputs[i] == plan.planned_outputs[i].document());
    }
    assert(plan.payload_members() =~= payload_written(plan, operations, outputs));
}

/// The receipts are written in order.
pub open spec fn receipts_written(observed: ObservedTargetView, items: Seq<JsonView>) -> bool {
    &&& items.len() == observed.migrations.len()
    &&& forall|i: int|
        0 <= i < items.len() ==> #[trigger] items[i] == object_of(
            seq![
                ("resourceId"@, JsonView::Text(observed.migrations[i].resource_id)),
                ("migrationId"@, JsonView::Text(observed.migrations[i].migration_id)),
                ("checksum"@, JsonView::Text(observed.migrations[i].checksum)),
            ],
        )
}

/// An observation is written with every fact: the identity, the ledger, the schemas, every receipt in
/// order, the exposed schemas, and the access to every schema.
pub proof fn observations_are_written_whole(observed: ObservedTargetView)
    ensures
        exists|receipts: Seq<JsonView>, access: Seq<(Seq<char>, JsonView)>|
            {
                &&& #[trigger] receipts_written(observed, receipts)
                &&& access.len() == observed.anon_read.len()
                &&& forall|i: int|
                    0 <= i < access.len() ==> #[trigger] access[i] == (
                        observed.anon_read[i].0,
                        JsonView::Bool(observed.anon_read[i].1),
                    )
                &&& observed.document() == object_of(
                    seq![
                        (
                            "identity"@,
                            object_of(
                                seq![
                                    ("database"@, JsonView::Text(observed.identity.database)),
                                    ("databaseOid"@, JsonView::Text(observed.identity.database_oid)),
                                    (
                                        "serverVersion"@,
                                        JsonView::Text(observed.identity.server_version),
                                    ),
                                ],
                            ),
                        ),
                        ("metadataExists"@, JsonView::Bool(observed.metadata_exists)),
                        ("schemas"@, text_array(observed.schemas)),
                        ("migrations"@, JsonView::Array(receipts)),
                        ("exposedSchemas"@, text_array(observed.exposed_schemas)),
                        ("anonRead"@, #[trigger] object_of(access)),
                    ],
                )
            },
{
    let receipts = observed.members()[3].1->Array_0;
    let access = crate::target::flag_members(observed.anon_read);
    assert forall|i: int| 0 <= i < receipts.len() implies #[trigger] receipts[i] == object_of(
        seq![
            ("resourceId"@, JsonView::Text(observed.migrations[i].resource_id)),
            ("migrationId"@, JsonView::Text(observed.migrations[i].migration_id)),
            ("checksum"@, JsonView::Text(observed.migrations[i].checksum)),
        ],
    ) by {
        assert(receipts[i] == observed.migrations[i].document());
    }
    assert(receipts_written(observed, receipts));
    assert(object_of(access) == crate::target::flags_document(observed.anon_read));
}

}
