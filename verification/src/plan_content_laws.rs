//! What stands in a plan, and in which order.

use vstd::prelude::*;
use vstd::utf8::encode_utf8;

use crate::context::AnonAccess;
use crate::context::MigrationView;
use crate::hashing::blake3_of;
use crate::hashing::hex_text;
use crate::hashing::sha256_of;
use crate::journal::BindingView;
use crate::json::json_bytes;
use crate::json::object_of;
use crate::json::text_array;
use crate::json::JsonView;
use crate::order::ascending;
use crate::order::held;
use crate::order::keys;
use crate::plan::position_of;
use crate::plan::unclaimed;
use crate::plan::with_exposed;
use crate::plan::Action;
use crate::plan::ApiPolicyView;
use crate::plan::DestructiveLevel;
use crate::plan::DraftView;
use crate::plan::ExecutionClass;
use crate::plan::OperationView;
use crate::plan::PlanDiagnosticView;
use crate::plan::PlannedOperationView;
use crate::plan::Planning;
use crate::slice::ComponentPinView;
use crate::target::receipt_checksum;
use crate::target::ObservedMigrationView;
use crate::text::debug_text;
use crate::text::decimal_text;
use crate::text::numeral;
use crate::text::trim_end_mark;

verus! {

// ---------------------------------------------------------------------------
// Facts
// ---------------------------------------------------------------------------

/// No binding of the journal is of the resource.
pub open spec fn unbound(planning: Planning, resource_id: Seq<char>) -> bool {
    forall|i: int|
        0 <= i < planning.journal.bindings.len() ==> (#[trigger] planning.journal.bindings[i]).0
            != resource_id
}

/// No receipt of the target is for the migration of the resource.
pub open spec fn unapplied(
    planning: Planning,
    resource_id: Seq<char>,
    migration_id: Seq<char>,
) -> bool {
    forall|i: int|
        0 <= i < planning.observed.migrations.len() ==> !((
        #[trigger] planning.observed.migrations[i]).resource_id == resource_id
            && planning.observed.migrations[i].migration_id == migration_id)
}

/// The schema is to be exposed: it is the public one, some component of the level with that schema
/// asks for exposure, whatever its anonymous access, or it is exposed now and no binding of the
/// journal claims it.
pub open spec fn to_expose(planning: Planning, schema: Seq<char>) -> bool {
    ||| schema == "public"@
    ||| exists|i: int|
        0 <= i < planning.desired.components.len() && (
        #[trigger] planning.desired.components[i]).context.target.schema == schema
            && planning.desired.components[i].context.api.expose
    ||| planning.observed.exposed_schemas.contains(schema) && forall|i: int|
        0 <= i < planning.journal.bindings.len() ==> (
        #[trigger] planning.journal.bindings[i]).1.schema != schema
}

/// The anonymous role has read access to the component's schema exactly if the component exposes
/// it for reading.
pub open spec fn granted_as_wanted(planning: Planning, pin: ComponentPinView) -> bool {
    planning.observed.anon_read.contains(
        (
            pin.context.target.schema,
            pin.context.api.expose && pin.context.api.anon_access == AnonAccess::Read,
        ),
    )
}

/// The exposed schemas and the grants of every component are as desired.
pub open spec fn api_in_place(planning: Planning) -> bool {
    &&& forall|schema: Seq<char>| #[trigger]
        to_expose(planning, schema) <==> planning.observed.exposed_schemas.contains(schema)
    &&& forall|i: int|
        0 <= i < planning.desired.components.len() ==> granted_as_wanted(
            planning,
            #[trigger] planning.desired.components[i],
        )
}

/// The observed schemas and flags are in order, as the target's facts always are.
pub open spec fn observed_in_order(planning: Planning) -> bool {
    ascending(planning.observed.exposed_schemas) && ascending(keys(planning.observed.anon_read))
}

proof fn unbound_holds_nothing(planning: Planning, resource_id: Seq<char>)
    ensures
        unbound(planning, resource_id) <==> held(planning.journal.bindings, resource_id) is None,
{
    let bindings = planning.journal.bindings;
    crate::order::held_iff_key(bindings, resource_id);
    if held(bindings, resource_id) is Some {
        let i = keys(bindings).index_of(resource_id);
        assert(bindings[i].0 == resource_id);
    } else {
        assert forall|i: int| 0 <= i < bindings.len() implies (#[trigger] bindings[i]).0
            != resource_id by {
            assert(keys(bindings)[i] == bindings[i].0);
        }
    }
}

pub(crate) proof fn unapplied_has_no_receipt(
    receipts: Seq<ObservedMigrationView>,
    resource_id: Seq<char>,
    migration_id: Seq<char>,
)
    ensures
        receipt_checksum(receipts, resource_id, migration_id) is None <==> forall|i: int|
            0 <= i < receipts.len() ==> !((#[trigger] receipts[i]).resource_id == resource_id
                && receipts[i].migration_id == migration_id),
    decreases receipts.len(),
{
    if receipts.len() > 0 {
        let rest = receipts.drop_first();
        unapplied_has_no_receipt(rest, resource_id, migration_id);
        if receipt_checksum(receipts, resource_id, migration_id) is None {
            assert forall|i: int| 0 <= i < receipts.len() implies !((
            #[trigger] receipts[i]).resource_id == resource_id && receipts[i].migration_id
                == migration_id) by {
                if i > 0 {
                    assert(rest[i - 1] == receipts[i]);
                }
            }
        } else if !(receipts[0].resource_id == resource_id && receipts[0].migration_id
            == migration_id) {
            let i = choose|i: int|
                0 <= i < rest.len() && (#[trigger] rest[i]).resource_id == resource_id
                    && rest[i].migration_id == migration_id;
            assert(receipts[i + 1] == rest[i]);
        }
    }
}

proof fn kept_are_unclaimed(planning: Planning, count: int)
    requires
        0 <= count <= planning.observed.exposed_schemas.len(),
    ensures
        ascending(unclaimed(planning.journal, planning.observed.exposed_schemas, count)),
        forall|schema: Seq<char>| #[trigger]
            unclaimed(planning.journal, planning.observed.exposed_schemas, count).contains(schema)
                <==> planning.observed.exposed_schemas.take(count).contains(schema) && forall|i: int|
                0 <= i < planning.journal.bindings.len() ==> (
                #[trigger] planning.journal.bindings[i]).1.schema != schema,
    decreases count,
{
    let schemas = planning.observed.exposed_schemas;
    if count > 0 {
        kept_are_unclaimed(planning, count - 1);
        let before = unclaimed(planning.journal, schemas, count - 1);
        crate::order::placed_keeps_order(before, schemas[count - 1]);
        assert(schemas.take(count) =~= schemas.take(count - 1).push(schemas[count - 1]));
        assert forall|schema: Seq<char>| #[trigger]
            unclaimed(planning.journal, schemas, count).contains(schema) <==> schemas.take(
            count,
        ).contains(schema) && forall|i: int|
            0 <= i < planning.journal.bindings.len() ==> (
            #[trigger] planning.journal.bindings[i]).1.schema != schema by {
            let shorter = schemas.take(count - 1);
            if schemas.take(count).contains(schema) && schema != schemas[count - 1] {
                let k = schemas.take(count).index_of(schema);
                assert(shorter[k] == schema);
            }
            if shorter.contains(schema) {
                let k = shorter.index_of(schema);
                assert(schemas.take(count)[k] == schema);
            }
            assert(schemas.take(count)[count - 1] == schemas[count - 1]);
            assert(before.contains(schema) || !before.contains(schema));
        }
    } else {
        assert(schemas.take(0) =~= Seq::<Seq<char>>::empty());
    }
}

proof fn asked_are_exposed(schemas: Seq<Seq<char>>, pins: Seq<ComponentPinView>, count: int)
    requires
        ascending(schemas),
        0 <= count <= pins.len(),
    ensures
        ascending(with_exposed(schemas, pins, count)),
        forall|schema: Seq<char>| #[trigger]
            with_exposed(schemas, pins, count).contains(schema) <==> schemas.contains(schema)
                || exists|i: int|
                0 <= i < count && (#[trigger] pins[i]).context.target.schema == schema
                    && pins[i].context.api.expose,
    decreases count,
{
    if count > 0 {
        asked_are_exposed(schemas, pins, count - 1);
        let before = with_exposed(schemas, pins, count - 1);
        let last = pins[count - 1];
        crate::order::placed_keeps_order(before, last.context.target.schema);
        assert forall|schema: Seq<char>| #[trigger]
            with_exposed(schemas, pins, count).contains(schema) <==> schemas.contains(schema)
                || exists|i: int|
                0 <= i < count && (#[trigger] pins[i]).context.target.schema == schema
                    && pins[i].context.api.expose by {
            assert(before.contains(schema) || !before.contains(schema));
            if exists|i: int|
                0 <= i < count && (#[trigger] pins[i]).context.target.schema == schema
                    && pins[i].context.api.expose {
                let i = choose|i: int|
                    0 <= i < count && (#[trigger] pins[i]).context.target.schema == schema
                        && pins[i].context.api.expose;
                assert(i == count - 1 || i < count - 1);
            }
        }
    }
}

proof fn exposed_as_wanted(planning: Planning)
    ensures
        ascending(planning.exposed()),
        forall|schema: Seq<char>| #[trigger]
            to_expose(planning, schema) <==> planning.exposed().contains(schema),
{
    let now = planning.observed.exposed_schemas;
    let kept = unclaimed(planning.journal, now, now.len() as int);
    kept_are_unclaimed(planning, now.len() as int);
    assert(now.take(now.len() as int) =~= now);
    crate::order::placed_keeps_order(kept, "public"@);
    asked_are_exposed(
        crate::order::placed(kept, "public"@),
        planning.desired.components,
        planning.desired.components.len() as int,
    );
    assert forall|schema: Seq<char>| #[trigger]
        to_expose(planning, schema) <==> planning.exposed().contains(schema) by {
        let first = crate::order::placed(kept, "public"@);
        assert(first.contains(schema) <==> schema == "public"@ || kept.contains(schema));
    }
}

proof fn api_is_settled_in_place(planning: Planning)
    requires
        observed_in_order(planning),
    ensures
        planning.api_settled() <==> api_in_place(planning),
{
    let now = planning.observed.exposed_schemas;
    exposed_as_wanted(planning);
    if forall|schema: Seq<char>| #[trigger]
        to_expose(planning, schema) <==> now.contains(schema) {
        assert forall|schema: Seq<char>| #[trigger]
            planning.exposed().contains(schema) <==> now.contains(schema) by {
            assert(to_expose(planning, schema) <==> now.contains(schema));
        }
        crate::order::ascending_is_canonical(planning.exposed(), now);
    }
    let pins = planning.desired.components;
    let policies = planning.policies();
    let flags = planning.observed.anon_read;
    assert forall|i: int| 0 <= i < pins.len() implies (planning.observed.grants_policy(policies[i])
        <==> granted_as_wanted(planning, #[trigger] pins[i])) by {
        let wanted = pins[i].context.api.expose && pins[i].context.api.anon_access
            == AnonAccess::Read;
        entries_are_held(flags, pins[i].context.target.schema, wanted);
    }
    if planning.observed.grants_policies(policies) {
        assert forall|i: int| 0 <= i < pins.len() implies granted_as_wanted(
            planning,
            #[trigger] pins[i],
        ) by {
            assert(planning.observed.grants_policy(policies[i]));
        }
    }
    if forall|i: int| 0 <= i < pins.len() ==> granted_as_wanted(planning, #[trigger] pins[i]) {
        assert forall|i: int| 0 <= i < policies.len() implies planning.observed.grants_policy(
            #[trigger] policies[i],
        ) by {
            assert(granted_as_wanted(planning, pins[i]));
        }
    }
}

pub(crate) proof fn entries_are_held(flags: Seq<(Seq<char>, bool)>, name: Seq<char>, flag: bool)
    requires
        ascending(keys(flags)),
    ensures
        held(flags, name) == Some(flag) <==> flags.contains((name, flag)),
    decreases flags.len(),
{
    if flags.len() > 0 {
        let rest = flags.drop_first();
        assert forall|i: int, j: int| 0 <= i < j < keys(rest).len() implies crate::order::precedes(
            #[trigger] keys(rest)[i],
            #[trigger] keys(rest)[j],
        ) by {
            assert(keys(rest)[i] == keys(flags)[i + 1] && keys(rest)[j] == keys(flags)[j + 1]);
        }
        entries_are_held(rest, name, flag);
        if rest.contains((name, flag)) {
            let k = rest.index_of((name, flag));
            assert(flags[k + 1] == (name, flag));
            if flags[0].0 == name {
                assert(crate::order::precedes(keys(flags)[0], keys(flags)[k + 1]));
                crate::order::precedes_irreflexive(name);
            }
        }
        if flags.contains((name, flag)) {
            let k = flags.index_of((name, flag));
            if k > 0 {
                assert(rest[k - 1] == (name, flag));
            }
        }
        if flags[0] == (name, flag) {
            assert(flags.contains((name, flag)));
        }
    }
}

// ---------------------------------------------------------------------------
// Places
// ---------------------------------------------------------------------------

/// Where an operation stands in a plan. The bindings of the components are the first stage, the
/// receipt ledger is the second, what the components hold is the third, and the API is the last. Of
/// what a component holds, the schema is the first item, and the migrations are the items after it.
pub struct Place {
    pub stage: int,
    pub component: int,
    pub item: int,
}

/// The place comes before the other: an earlier stage, or an earlier component of the stage, or an
/// earlier item of the component.
pub open spec fn earlier(a: Place, b: Place) -> bool {
    ||| a.stage < b.stage
    ||| a.stage == b.stage && a.component < b.component
    ||| a.stage == b.stage && a.component == b.component && a.item < b.item
}

/// Something has to be done at the place.
pub open spec fn due_at(planning: Planning, place: Place) -> bool {
    let pins = planning.desired.components;
    let pin = pins[place.component];
    if place.stage == 0 {
        &&& 0 <= place.component < pins.len()
        &&& place.item == 0
        &&& unbound(planning, pin.context.resource_id)
    } else if place.stage == 1 {
        place.component == 0 && place.item == 0 && !planning.observed.metadata_exists
    } else if place.stage == 2 {
        &&& 0 <= place.component < pins.len()
        &&& 0 <= place.item <= pin.context.migrations.len()
        &&& if place.item == 0 {
            !planning.observed.schemas.contains(pin.context.target.schema)
        } else {
            unapplied(
                planning,
                pin.context.resource_id,
                pin.context.migrations[place.item - 1].id,
            )
        }
    } else {
        place.stage == 3 && place.component == 0 && place.item == 0 && !api_in_place(planning)
    }
}

/// The operation is the work of the place.
pub open spec fn works_at(planning: Planning, place: Place, operation: OperationView) -> bool {
    let pins = planning.desired.components;
    let context = pins[place.component].context;
    if place.stage == 0 {
        operation == (OperationView::EstablishBinding {
            binding: BindingView {
                graph_id: hex_text(planning.desired.graph_id),
                resource_id: context.resource_id,
                project: context.target.project,
                database: context.target.database,
                schema: context.target.schema,
            },
        })
    } else if place.stage == 1 {
        operation == OperationView::EnsureMetadata
    } else if place.stage == 2 && place.item == 0 {
        operation == (OperationView::EnsureSchema {
            resource_id: context.resource_id,
            schema: context.target.schema,
        })
    } else if place.stage == 2 {
        operation == (OperationView::ApplyMigration {
            resource_id: context.resource_id,
            schema: context.target.schema,
            migration: context.migrations[place.item - 1],
        })
    } else {
        operation matches OperationView::ConfigureApi { exposed_schemas, policies } && {
            &&& ascending(exposed_schemas)
            &&& forall|schema: Seq<char>| #[trigger]
                to_expose(planning, schema) <==> exposed_schemas.contains(schema)
            &&& policies.len() == pins.len()
            &&& forall|i: int|
                0 <= i < pins.len() ==> #[trigger] policies[i] == (ApiPolicyView {
                    schema: pins[i].context.target.schema,
                    expose: pins[i].context.api.expose,
                    anon_access: pins[i].context.api.anon_access,
                })
        }
    }
}

/// The operation is presented as what it is: under its address, for the components that it is of,
/// with its class, its action, what is there before and after it, and what it presupposes.
pub open spec fn presented_at(planning: Planning, place: Place, planned: PlannedOperationView) -> bool {
    let pins = planning.desired.components;
    let pin = pins[place.component];
    let context = pin.context;
    let everyone = Seq::new(pins.len(), |i: int| hex_text(pins[i].spec_hash));
    &&& planned.id == "sha256:"@ + hex_text(
        sha256_of(
            encode_utf8("henosis.dev/supabase-operation/v1\0"@) + encode_utf8(
                "blake3:"@ + hex_text(planning.desired.digest()),
            ) + json_bytes(planned.operation.document()),
        ),
    )
    &&& planned.destructive_level == DestructiveLevel::NonDestructive
    &&& planned.component_scopes == if place.stage == 0 || place.stage == 2 {
        seq![hex_text(pin.spec_hash)]
    } else {
        everyone
    }
    &&& planned.execution_class == if place.stage == 2 && place.item > 0 {
        ExecutionClass::OrderedTransition
    } else {
        ExecutionClass::ReconciledObject
    }
    &&& place.stage != 3 ==> planned.before == JsonView::Null
    &&& if place.stage == 0 {
        &&& planned.address == "binding."@ + context.resource_id
        &&& planned.action == Action::Bind
        &&& planned.after == object_of(
            seq![
                ("database"@, JsonView::Text(context.target.database)),
                ("graphId"@, JsonView::Text(hex_text(planning.desired.graph_id))),
                ("project"@, JsonView::Text(context.target.project)),
                ("resourceId"@, JsonView::Text(context.resource_id)),
                ("schema"@, JsonView::Text(context.target.schema)),
            ],
        )
        &&& planned.preconditions == seq!["resourceId is unbound"@]
    } else if place.stage == 1 {
        &&& planned.address == "database.henosis_connector.migration_receipts"@
        &&& planned.action == Action::Create
        &&& planned.after == object_of(
            seq![
                ("schema"@, JsonView::Text("henosis_connector"@)),
                ("table"@, JsonView::Text("migration_receipts"@)),
            ],
        )
        &&& planned.preconditions == seq!["receipt ledger does not exist"@]
    } else if place.stage == 2 && place.item == 0 {
        &&& planned.address == "schema."@ + context.target.schema
        &&& planned.action == Action::Create
        &&& planned.after == object_of(
            seq![("schema"@, JsonView::Text(context.target.schema))],
        )
        &&& planned.preconditions == seq!["schema does not exist"@]
    } else if place.stage == 2 {
        let migration = context.migrations[place.item - 1];
        &&& planned.address == "schema."@ + context.target.schema + ".migration."@ + migration.id
        &&& planned.action == Action::Transition
        &&& planned.after == object_of(
            seq![
                ("checksum"@, JsonView::Text(migration.checksum)),
                ("migrationId"@, JsonView::Text(migration.id)),
            ],
        )
        &&& planned.preconditions == seq![
            "migration receipt "@ + debug_text(migration.id) + " is absent"@,
        ]
    } else {
        &&& planned.address == "postgrest.exposed-schemas"@
        &&& planned.action == Action::Update
        &&& planned.before == object_of(
            seq![
                (
                    "anonRead"@,
                    object_of(
                        Seq::new(
                            planning.observed.anon_read.len(),
                            |i: int|
                                (
                                    planning.observed.anon_read[i].0,
                                    JsonView::Bool(planning.observed.anon_read[i].1),
                                ),
                        ),
                    ),
                ),
                ("exposedSchemas"@, text_array(planning.observed.exposed_schemas)),
            ],
        )
        &&& planned.preconditions == seq!["PostgREST configuration matches observed digest"@]
        &&& exists|schemas: Seq<Seq<char>>|
            {
                &&& #[trigger] ascending(schemas)
                &&& forall|schema: Seq<char>| #[trigger]
                    schemas.contains(schema) <==> exists|i: int|
                        0 <= i < pins.len() && (#[trigger] pins[i]).context.target.schema == schema
                &&& planned.after == object_of(
                    seq![
                        ("anonReadSchemas"@, text_array(schemas)),
                        (
                            "exposedSchemas"@,
                            text_array(planned.operation->ConfigureApi_exposed_schemas),
                        ),
                    ],
                )
            }
    }
}

/// The operations are the work of the places, one for each. The places come one before the other,
/// and they are all those before the end at which something has to be done.
pub open spec fn laid_out(
    planning: Planning,
    operations: Seq<PlannedOperationView>,
    places: Seq<Place>,
    end: Place,
) -> bool {
    &&& places.len() == operations.len()
    &&& forall|i: int, j: int|
        0 <= i < j < places.len() ==> earlier(#[trigger] places[i], #[trigger] places[j])
    &&& forall|i: int|
        0 <= i < places.len() ==> {
            &&& earlier(#[trigger] places[i], end)
            &&& due_at(planning, places[i])
            &&& works_at(planning, places[i], operations[i].operation)
            &&& presented_at(planning, places[i], operations[i])
        }
    &&& forall|place: Place| #[trigger]
        due_at(planning, place) && earlier(place, end) ==> places.contains(place)
}

/// The end of every plan.
pub open spec fn plan_end() -> Place {
    Place { stage: 4, component: 0, item: 0 }
}

proof fn lay(
    planning: Planning,
    operations: Seq<PlannedOperationView>,
    places: Seq<Place>,
    at: Place,
    end: Place,
    step: PlannedOperationView,
)
    requires
        laid_out(planning, operations, places, at),
        earlier(at, end),
        forall|place: Place| #[trigger]
            due_at(planning, place) && earlier(place, end) && !earlier(place, at) ==> place == at,
    ensures
        due_at(planning, at) && works_at(planning, at, step.operation) && presented_at(
            planning,
            at,
            step,
        ) ==> laid_out(planning, operations.push(step), places.push(at), end),
        !due_at(planning, at) ==> laid_out(planning, operations, places, end),
{
    if due_at(planning, at) && works_at(planning, at, step.operation) && presented_at(
        planning,
        at,
        step,
    ) {
        let more = places.push(at);
        assert forall|place: Place| #[trigger]
            due_at(planning, place) && earlier(place, end) implies more.contains(place) by {
            if earlier(place, at) {
                let k = places.index_of(place);
                assert(more[k] == place);
            } else {
                assert(more[places.len() as int] == place);
            }
        }
    }
}

proof fn bindings_laid_out(planning: Planning, count: int) -> (places: Seq<Place>)
    requires
        0 <= count <= planning.desired.components.len(),
    ensures
        laid_out(
            planning,
            planning.after_bindings(count).operations,
            places,
            Place { stage: 0, component: count, item: 0 },
        ),
    decreases count,
{
    if count == 0 {
        seq![]
    } else {
        let before = bindings_laid_out(planning, count - 1);
        let at = Place { stage: 0, component: count - 1, item: 0 };
        let pin = planning.desired.components[count - 1];
        let step = planning.binding_step(pin);
        unbound_holds_nothing(planning, pin.context.resource_id);
        lay(
            planning,
            planning.after_bindings(count - 1).operations,
            before,
            at,
            Place { stage: 0, component: count, item: 0 },
            step,
        );
        if due_at(planning, at) {
            assert(step.after == object_of(
                seq![
                    ("database"@, JsonView::Text(pin.context.target.database)),
                    ("graphId"@, JsonView::Text(hex_text(planning.desired.graph_id))),
                    ("project"@, JsonView::Text(pin.context.target.project)),
                    ("resourceId"@, JsonView::Text(pin.context.resource_id)),
                    ("schema"@, JsonView::Text(pin.context.target.schema)),
                ],
            ));
            assert(presented_at(planning, at, step));
            before.push(at)
        } else {
            before
        }
    }
}

proof fn metadata_laid_out(planning: Planning) -> (places: Seq<Place>)
    ensures
        laid_out(
            planning,
            planning.after_metadata().operations,
            places,
            Place { stage: 2, component: 0, item: 0 },
        ),
{
    let total = planning.desired.components.len() as int;
    let draft = planning.after_bindings(total);
    let bindings = bindings_laid_out(planning, total);
    let at = Place { stage: 1, component: 0, item: 0 };
    let step = planning.metadata_step(draft);
    lay(
        planning,
        draft.operations,
        bindings,
        Place { stage: 0, component: total, item: 0 },
        at,
        step,
    );
    lay(
        planning,
        draft.operations,
        bindings,
        at,
        Place { stage: 2, component: 0, item: 0 },
        step,
    );
    if planning.observed.metadata_exists {
        bindings
    } else {
        assert(step.component_scopes =~= Seq::new(
            total as nat,
            |i: int| hex_text(planning.desired.components[i].spec_hash),
        ));
        assert(presented_at(planning, at, step));
        bindings.push(at)
    }
}

proof fn migrations_laid_out(
    planning: Planning,
    draft: DraftView,
    places: Seq<Place>,
    component: int,
    count: int,
) -> (all: Seq<Place>)
    requires
        0 <= component < planning.desired.components.len(),
        0 <= count <= planning.desired.components[component].context.migrations.len(),
        laid_out(planning, draft.operations, places, Place { stage: 2, component, item: 1 }),
    ensures
        laid_out(
            planning,
            planning.after_migrations(
                draft,
                planning.desired.components[component],
                count,
            ).operations,
            all,
            Place { stage: 2, component, item: count + 1 },
        ),
    decreases count,
{
    if count == 0 {
        places
    } else {
        let pin = planning.desired.components[component];
        let before = migrations_laid_out(planning, draft, places, component, count - 1);
        let sofar = planning.after_migrations(draft, pin, count - 1);
        let migration = pin.context.migrations[count - 1];
        let at = Place { stage: 2, component, item: count };
        let step = planning.migration_step(pin, migration, sofar);
        unapplied_has_no_receipt(
            planning.observed.migrations,
            pin.context.resource_id,
            migration.id,
        );
        lay(
            planning,
            sofar.operations,
            before,
            at,
            Place { stage: 2, component, item: count + 1 },
            step,
        );
        if due_at(planning, at) {
            assert(presented_at(planning, at, step));
            before.push(at)
        } else {
            before
        }
    }
}

proof fn components_laid_out(planning: Planning, count: int) -> (places: Seq<Place>)
    requires
        0 <= count <= planning.desired.components.len(),
    ensures
        laid_out(
            planning,
            planning.after_components(count).operations,
            places,
            Place { stage: 2, component: count, item: 0 },
        ),
    decreases count,
{
    if count == 0 {
        metadata_laid_out(planning)
    } else {
        let component = count - 1;
        let before = components_laid_out(planning, component);
        let draft = planning.after_components(component);
        let pin = planning.desired.components[component];
        let at = Place { stage: 2, component, item: 0 };
        let step = planning.schema_step(pin, draft);
        lay(
            planning,
            draft.operations,
            before,
            at,
            Place { stage: 2, component, item: 1 },
            step,
        );
        let with_schema = if due_at(planning, at) {
            assert(presented_at(planning, at, step));
            before.push(at)
        } else {
            before
        };
        let total = pin.context.migrations.len() as int;
        let all = migrations_laid_out(
            planning,
            planning.after_schema(draft, pin),
            with_schema,
            component,
            total,
        );
        lay(
            planning,
            planning.after_components(count).operations,
            all,
            Place { stage: 2, component, item: total + 1 },
            Place { stage: 2, component: count, item: 0 },
            step,
        );
        all
    }
}

proof fn api_laid_out(planning: Planning) -> (places: Seq<Place>)
    requires
        observed_in_order(planning),
    ensures
        laid_out(planning, planning.draft().operations, places, plan_end()),
{
    let total = planning.desired.components.len() as int;
    let draft = planning.after_components(total);
    let before = components_laid_out(planning, total);
    let at = Place { stage: 3, component: 0, item: 0 };
    let step = planning.api_step(draft);
    lay(
        planning,
        draft.operations,
        before,
        Place { stage: 2, component: total, item: 0 },
        at,
        step,
    );
    lay(planning, draft.operations, before, at, plan_end(), step);
    api_is_settled_in_place(planning);
    exposed_as_wanted(planning);
    if planning.api_settled() {
        before
    } else {
        api_is_presented(planning, step);
        assert(works_at(planning, at, step.operation));
        before.push(at)
    }
}

proof fn api_is_presented(planning: Planning, step: PlannedOperationView)
    requires
        exists|draft: DraftView| step == #[trigger] planning.api_step(draft),
    ensures
        presented_at(planning, Place { stage: 3, component: 0, item: 0 }, step),
{
    let pins = planning.desired.components;
    let schemas = crate::target::set_of(crate::target::schemas_of(pins));
    crate::plan_laws::set_of_ascends(crate::target::schemas_of(pins));
    assert forall|schema: Seq<char>| #[trigger] schemas.contains(schema) <==> exists|i: int|
        0 <= i < pins.len() && (#[trigger] pins[i]).context.target.schema == schema by {
        let listed = crate::target::schemas_of(pins);
        assert(schemas.contains(schema) <==> listed.contains(schema));
        if listed.contains(schema) {
            let i = listed.index_of(schema);
            assert(pins[i].context.target.schema == schema);
        }
        if exists|i: int| 0 <= i < pins.len() && (#[trigger] pins[i]).context.target.schema
            == schema {
            let i = choose|i: int|
                0 <= i < pins.len() && (#[trigger] pins[i]).context.target.schema == schema;
            assert(listed[i] == schema);
        }
    }
    assert(ascending(schemas));
    assert(step.component_scopes =~= Seq::new(
        pins.len(),
        |i: int| hex_text(pins[i].spec_hash),
    ));
    assert(crate::target::flag_members(planning.observed.anon_read) =~= Seq::new(
        planning.observed.anon_read.len(),
        |i: int|
            (
                planning.observed.anon_read[i].0,
                JsonView::Bool(planning.observed.anon_read[i].1),
            ),
    ));
}

/// A plan holds exactly what has to be done, once and in order. First come the bindings of the
/// unbound components, then the receipt ledger if it is missing, then for one component after the
/// other its missing schema and its unapplied migrations, oldest first, and the API at the end if it
/// is not as desired.
pub proof fn plans_hold_exactly_what_is_due(planning: Planning)
    requires
        observed_in_order(planning),
    ensures
        planning.result() matches Ok(plan) ==> exists|places: Seq<Place>| #[trigger]
            laid_out(planning, plan.operations, places, plan_end()),
{
    let places = api_laid_out(planning);
    if planning.result() is Ok {
        assert(laid_out(planning, planning.result()->Ok_0.operations, places, plan_end()));
    }
}

// ---------------------------------------------------------------------------
// Dependencies
// ---------------------------------------------------------------------------

/// The operation is work on the resource. The receipt ledger is work on that of every component.
pub open spec fn concerns(
    planning: Planning,
    operation: OperationView,
    resource_id: Seq<char>,
) -> bool {
    match operation {
        OperationView::EstablishBinding { binding } => binding.resource_id == resource_id,
        OperationView::EnsureMetadata => exists|i: int|
            0 <= i < planning.desired.components.len() && (
            #[trigger] planning.desired.components[i]).context.resource_id == resource_id,
        OperationView::EnsureSchema { resource_id: other, .. } => other == resource_id,
        OperationView::ApplyMigration { resource_id: other, .. } => other == resource_id,
        OperationView::ConfigureApi { .. } => false,
    }
}

/// The operation at the position is the last work on the resource among the first operations.
pub open spec fn last_work(
    planning: Planning,
    operations: Seq<PlannedOperationView>,
    count: int,
    at: int,
    resource_id: Seq<char>,
) -> bool {
    &&& 0 <= at < count
    &&& concerns(planning, operations[at].operation, resource_id)
    &&& forall|i: int|
        at < i < count ==> !concerns(planning, (#[trigger] operations[i]).operation, resource_id)
}

/// The first operations hold no work on the resource.
pub open spec fn no_work(
    planning: Planning,
    operations: Seq<PlannedOperationView>,
    count: int,
    resource_id: Seq<char>,
) -> bool {
    forall|i: int|
        0 <= i < count ==> !concerns(planning, (#[trigger] operations[i]).operation, resource_id)
}

/// The work on a resource waits for the last work on it before, and for nothing else.
pub open spec fn waits_for_resource(
    planning: Planning,
    operations: Seq<PlannedOperationView>,
    at: int,
    resource_id: Seq<char>,
) -> bool {
    ||| no_work(planning, operations, at, resource_id) && operations[at].dependencies.len() == 0
    ||| exists|m: int| #[trigger]
        last_work(planning, operations, at, m, resource_id) && operations[at].dependencies == seq![
            operations[m].id,
        ]
}

/// The identity is that of the last work on the resource among the first operations.
pub open spec fn names_last_work(
    planning: Planning,
    operations: Seq<PlannedOperationView>,
    count: int,
    resource_id: Seq<char>,
    id: Seq<char>,
) -> bool {
    exists|m: int| #[trigger]
        last_work(planning, operations, count, m, resource_id) && operations[m].id == id
}

/// The resources are all those that were worked on before the position, and the operation there
/// waits for the last work on each of them.
pub open spec fn waits_for_resources(
    planning: Planning,
    operations: Seq<PlannedOperationView>,
    at: int,
    resources: Seq<Seq<char>>,
) -> bool {
    &&& ascending(resources)
    &&& resources.len() == operations[at].dependencies.len()
    &&& forall|resource_id: Seq<char>| #[trigger]
        resources.contains(resource_id) <==> !no_work(planning, operations, at, resource_id)
    &&& forall|k: int|
        0 <= k < resources.len() ==> names_last_work(
            planning,
            operations,
            at,
            #[trigger] resources[k],
            operations[at].dependencies[k],
        )
}

/// The operation waits for the last work on every resource that was worked on, in the order of the
/// resources.
pub open spec fn waits_for_everything(
    planning: Planning,
    operations: Seq<PlannedOperationView>,
    at: int,
) -> bool {
    exists|resources: Seq<Seq<char>>| #[trigger]
        waits_for_resources(planning, operations, at, resources)
}

/// The operation at the position waits for what it needs, and for nothing else: a binding for
/// nothing, the receipt ledger for every operation before it, a schema or a migration for the last
/// work on its resource, and the API for the last work on every resource.
pub open spec fn waits_rightly(
    planning: Planning,
    operations: Seq<PlannedOperationView>,
    at: int,
) -> bool {
    match operations[at].operation {
        OperationView::EstablishBinding { .. } => operations[at].dependencies.len() == 0,
        OperationView::EnsureMetadata => operations[at].dependencies == Seq::new(
            at as nat,
            |k: int| operations[k].id,
        ),
        OperationView::EnsureSchema { resource_id, .. } => waits_for_resource(
            planning,
            operations,
            at,
            resource_id,
        ),
        OperationView::ApplyMigration { resource_id, .. } => waits_for_resource(
            planning,
            operations,
            at,
            resource_id,
        ),
        OperationView::ConfigureApi { .. } => waits_for_everything(planning, operations, at),
    }
}

/// Every operation waits for what it needs, and for nothing else.
pub open spec fn linked(planning: Planning, operations: Seq<PlannedOperationView>) -> bool {
    forall|i: int| 0 <= i < operations.len() ==> #[trigger] waits_rightly(planning, operations, i)
}

/// The draft knows the last work on every resource.
spec fn well_known(planning: Planning, draft: DraftView) -> bool {
    &&& ascending(keys(draft.last_by_resource))
    &&& forall|resource_id: Seq<char>|
        match #[trigger] held(draft.last_by_resource, resource_id) {
            Some(id) => names_last_work(
                planning,
                draft.operations,
                draft.operations.len() as int,
                resource_id,
                id,
            ),
            None => no_work(
                planning,
                draft.operations,
                draft.operations.len() as int,
                resource_id,
            ),
        }
}

proof fn work_stays(
    planning: Planning,
    operations: Seq<PlannedOperationView>,
    step: PlannedOperationView,
    count: int,
)
    requires
        0 <= count <= operations.len(),
    ensures
        forall|m: int, resource_id: Seq<char>| #[trigger]
            last_work(planning, operations.push(step), count, m, resource_id) <==> last_work(
                planning,
                operations,
                count,
                m,
                resource_id,
            ),
        forall|resource_id: Seq<char>| #[trigger]
            no_work(planning, operations.push(step), count, resource_id) <==> no_work(
                planning,
                operations,
                count,
                resource_id,
            ),
        forall|resource_id: Seq<char>, id: Seq<char>| #[trigger]
            names_last_work(planning, operations, count, resource_id, id) ==> names_last_work(
                planning,
                operations.push(step),
                count,
                resource_id,
                id,
            ),
{
    let more = operations.push(step);
    assert forall|m: int, resource_id: Seq<char>| #[trigger]
        last_work(planning, more, count, m, resource_id) <==> last_work(
        planning,
        operations,
        count,
        m,
        resource_id,
    ) by {
        if 0 <= m < count {
            assert(more[m] == operations[m]);
        }
        if last_work(planning, more, count, m, resource_id) {
            assert forall|i: int| m < i < count implies !concerns(
                planning,
                (#[trigger] operations[i]).operation,
                resource_id,
            ) by {
                assert(more[i] == operations[i]);
            }
        }
    }
    assert forall|resource_id: Seq<char>| #[trigger]
        no_work(planning, more, count, resource_id) <==> no_work(
        planning,
        operations,
        count,
        resource_id,
    ) by {
        if no_work(planning, more, count, resource_id) {
            assert forall|i: int| 0 <= i < count implies !concerns(
                planning,
                (#[trigger] operations[i]).operation,
                resource_id,
            ) by {
                assert(more[i] == operations[i]);
            }
        }
    }
    assert forall|resource_id: Seq<char>, id: Seq<char>| #[trigger]
        names_last_work(planning, operations, count, resource_id, id) implies names_last_work(
        planning,
        more,
        count,
        resource_id,
        id,
    ) by {
        let m = choose|m: int| #[trigger]
            last_work(planning, operations, count, m, resource_id) && operations[m].id == id;
        assert(last_work(planning, more, count, m, resource_id));
        assert(more[m] == operations[m]);
    }
}

proof fn waiting_stays(
    planning: Planning,
    operations: Seq<PlannedOperationView>,
    step: PlannedOperationView,
    at: int,
)
    requires
        0 <= at < operations.len(),
        waits_rightly(planning, operations, at),
    ensures
        waits_rightly(planning, operations.push(step), at),
{
    let more = operations.push(step);
    assert(more[at] == operations[at]);
    work_stays(planning, operations, step, at);
    match operations[at].operation {
        OperationView::EnsureMetadata => {
            assert(Seq::new(at as nat, |k: int| more[k].id) =~= Seq::new(
                at as nat,
                |k: int| operations[k].id,
            ));
        },
        OperationView::EnsureSchema { resource_id, .. } => {
            resource_waiting_stays(planning, operations, step, at, resource_id);
        },
        OperationView::ApplyMigration { resource_id, .. } => {
            resource_waiting_stays(planning, operations, step, at, resource_id);
        },
        OperationView::ConfigureApi { .. } => {
            let resources = choose|resources: Seq<Seq<char>>| #[trigger]
                waits_for_resources(planning, operations, at, resources);
            assert(waits_for_resources(planning, more, at, resources));
        },
        _ => {},
    }
}

proof fn resource_waiting_stays(
    planning: Planning,
    operations: Seq<PlannedOperationView>,
    step: PlannedOperationView,
    at: int,
    resource_id: Seq<char>,
)
    requires
        0 <= at < operations.len(),
        waits_for_resource(planning, operations, at, resource_id),
    ensures
        waits_for_resource(planning, operations.push(step), at, resource_id),
{
    let more = operations.push(step);
    work_stays(planning, operations, step, at);
    if !(no_work(planning, operations, at, resource_id) && operations[at].dependencies.len()
        == 0) {
        let m = choose|m: int| #[trigger]
            last_work(planning, operations, at, m, resource_id) && operations[at].dependencies
                == seq![operations[m].id];
        assert(last_work(planning, more, at, m, resource_id));
        assert(more[m] == operations[m]);
    }
}

proof fn link(
    planning: Planning,
    operations: Seq<PlannedOperationView>,
    step: PlannedOperationView,
)
    requires
        linked(planning, operations),
        waits_rightly(planning, operations.push(step), operations.len() as int),
    ensures
        linked(planning, operations.push(step)),
{
    let more = operations.push(step);
    assert forall|i: int| 0 <= i < more.len() implies #[trigger] waits_rightly(planning, more, i) by {
        if i < operations.len() {
            assert(waits_rightly(planning, operations, i));
            waiting_stays(planning, operations, step, i);
        }
    }
}

/// The step is the last work on the resource then, and changes nothing for others.
proof fn step_is_known(
    planning: Planning,
    draft: DraftView,
    resource_id: Seq<char>,
    step: PlannedOperationView,
)
    requires
        well_known(planning, draft),
        forall|other: Seq<char>| #[trigger]
            concerns(planning, step.operation, other) <==> other == resource_id,
    ensures
        well_known(planning, draft.with_step(resource_id, step)),
{
    let next = draft.with_step(resource_id, step);
    let size = draft.operations.len() as int;
    crate::order::put_holds(draft.last_by_resource, resource_id, step.id);
    work_stays(planning, draft.operations, step, size);
    assert(concerns(planning, step.operation, resource_id));
    assert forall|other: Seq<char>| (match #[trigger] held(next.last_by_resource, other) {
        Some(id) => names_last_work(planning, next.operations, size + 1, other, id),
        None => no_work(planning, next.operations, size + 1, other),
    }) by {
        assert(next.operations[size] == step);
        if other == resource_id {
            assert(last_work(planning, next.operations, size + 1, size, other));
        } else {
            assert(!concerns(planning, step.operation, other));
            assert(held(next.last_by_resource, other) == held(draft.last_by_resource, other));
            last_work_grows(planning, draft.operations, step, other);
            if held(draft.last_by_resource, other) is Some {
                let m = choose|m: int| #[trigger]
                    last_work(planning, draft.operations, size, m, other)
                        && draft.operations[m].id == held(draft.last_by_resource, other)->0;
                assert(last_work(planning, next.operations, size + 1, m, other));
                assert(next.operations[m] == draft.operations[m]);
            }
        }
    }
}

proof fn last_work_grows(
    planning: Planning,
    operations: Seq<PlannedOperationView>,
    step: PlannedOperationView,
    resource_id: Seq<char>,
)
    requires
        !concerns(planning, step.operation, resource_id),
    ensures
        forall|m: int| #[trigger]
            last_work(planning, operations, operations.len() as int, m, resource_id) ==> last_work(
                planning,
                operations.push(step),
                operations.len() as int + 1,
                m,
                resource_id,
            ),
        no_work(planning, operations, operations.len() as int, resource_id) ==> no_work(
            planning,
            operations.push(step),
            operations.len() as int + 1,
            resource_id,
        ),
{
    let more = operations.push(step);
    let size = operations.len() as int;
    assert forall|m: int| #[trigger]
        last_work(planning, operations, size, m, resource_id) implies last_work(
        planning,
        more,
        size + 1,
        m,
        resource_id,
    ) by {
        assert(more[m] == operations[m]);
        assert forall|i: int| m < i < size + 1 implies !concerns(
            planning,
            (#[trigger] more[i]).operation,
            resource_id,
        ) by {
            if i < size {
                assert(more[i] == operations[i]);
            }
        }
    }
    if no_work(planning, operations, size, resource_id) {
        assert forall|i: int| 0 <= i < size + 1 implies !concerns(
            planning,
            (#[trigger] more[i]).operation,
            resource_id,
        ) by {
            if i < size {
                assert(more[i] == operations[i]);
            }
        }
    }
}

/// A step that follows its resource's last work waits rightly.
proof fn follower_waits_rightly(
    planning: Planning,
    draft: DraftView,
    resource_id: Seq<char>,
    step: PlannedOperationView,
)
    requires
        well_known(planning, draft),
        step.dependencies == draft.predecessor(resource_id),
    ensures
        waits_for_resource(
            planning,
            draft.operations.push(step),
            draft.operations.len() as int,
            resource_id,
        ),
{
    let more = draft.operations.push(step);
    let size = draft.operations.len() as int;
    work_stays(planning, draft.operations, step, size);
    if held(draft.last_by_resource, resource_id) is Some {
        let m = choose|m: int| #[trigger]
            last_work(planning, draft.operations, size, m, resource_id) && draft.operations[m].id
                == held(draft.last_by_resource, resource_id)->0;
        assert(last_work(planning, more, size, m, resource_id));
        assert(more[m] == draft.operations[m]);
        assert(more[size].dependencies =~= seq![more[m].id]);
    }
}

proof fn bindings_linked(planning: Planning, count: int)
    requires
        0 <= count <= planning.desired.components.len(),
    ensures
        linked(planning, planning.after_bindings(count).operations),
        well_known(planning, planning.after_bindings(count)),
        forall|i: int|
            0 <= i < planning.after_bindings(count).operations.len() ==> (
            #[trigger] planning.after_bindings(count).operations[i]).operation is EstablishBinding,
    decreases count,
{
    if count > 0 {
        bindings_linked(planning, count - 1);
        let draft = planning.after_bindings(count - 1);
        let pin = planning.desired.components[count - 1];
        let step = planning.binding_step(pin);
        if held(planning.journal.bindings, pin.context.resource_id) is None {
            link(planning, draft.operations, step);
            step_is_known(planning, draft, pin.context.resource_id, step);
        }
    } else {
        assert(keys(planning.after_bindings(0).last_by_resource) =~= Seq::<Seq<char>>::empty());
    }
}

proof fn followers_are_known(
    planning: Planning,
    last_by_resource: Seq<(Seq<char>, Seq<char>)>,
    id: Seq<char>,
    count: int,
)
    requires
        ascending(keys(last_by_resource)),
        0 <= count <= planning.desired.components.len(),
    ensures
        ({
            let pins = planning.desired.components;
            let all = crate::plan::followed_by(last_by_resource, pins, id, count);
            &&& ascending(keys(all))
            &&& forall|resource_id: Seq<char>| #[trigger]
                held(all, resource_id) == if exists|i: int|
                    0 <= i < count && (#[trigger] pins[i]).context.resource_id == resource_id {
                    Some(id)
                } else {
                    held(last_by_resource, resource_id)
                }
        }),
    decreases count,
{
    if count > 0 {
        followers_are_known(planning, last_by_resource, id, count - 1);
        let pins = planning.desired.components;
        let before = crate::plan::followed_by(last_by_resource, pins, id, count - 1);
        let all = crate::plan::followed_by(last_by_resource, pins, id, count);
        crate::order::put_holds(before, pins[count - 1].context.resource_id, id);
        assert forall|resource_id: Seq<char>| #[trigger]
            held(all, resource_id) == if exists|i: int|
                0 <= i < count && (#[trigger] pins[i]).context.resource_id == resource_id {
                Some(id)
            } else {
                held(last_by_resource, resource_id)
            } by {
            if resource_id == pins[count - 1].context.resource_id {
            } else {
                assert(held(all, resource_id) == held(before, resource_id));
                if exists|i: int|
                    0 <= i < count && (#[trigger] pins[i]).context.resource_id == resource_id {
                    let i = choose|i: int|
                        0 <= i < count && (#[trigger] pins[i]).context.resource_id == resource_id;
                    assert(i < count - 1);
                }
            }
        }
    }
}

proof fn all_bindings_are_waited_for(operations: Seq<PlannedOperationView>)
    requires
        forall|i: int|
            0 <= i < operations.len() ==> (
            #[trigger] operations[i]).operation is EstablishBinding,
    ensures
        crate::plan::binding_ids(operations) == Seq::new(
            operations.len(),
            |k: int| operations[k].id,
        ),
    decreases operations.len(),
{
    if operations.len() > 0 {
        let rest = operations.drop_last();
        assert forall|i: int| 0 <= i < rest.len() implies (
        #[trigger] rest[i]).operation is EstablishBinding by {
            assert(rest[i] == operations[i]);
        }
        all_bindings_are_waited_for(rest);
        assert(operations[operations.len() - 1].operation is EstablishBinding);
    }
    assert(crate::plan::binding_ids(operations) =~= Seq::new(
        operations.len(),
        |k: int| operations[k].id,
    ));
}

proof fn metadata_linked(planning: Planning)
    ensures
        linked(planning, planning.after_metadata().operations),
        well_known(planning, planning.after_metadata()),
{
    let pins = planning.desired.components;
    let total = pins.len() as int;
    let draft = planning.after_bindings(total);
    bindings_linked(planning, total);
    if !planning.observed.metadata_exists {
        let step = planning.metadata_step(draft);
        let size = draft.operations.len() as int;
        let next = planning.after_metadata();
        all_bindings_are_waited_for(draft.operations);
        assert(Seq::new(size as nat, |k: int| next.operations[k].id) =~= Seq::new(
            size as nat,
            |k: int| draft.operations[k].id,
        ));
        link(planning, draft.operations, step);
        followers_are_known(planning, draft.last_by_resource, step.id, total);
        work_stays(planning, draft.operations, step, size);
        assert forall|other: Seq<char>| (match #[trigger] held(next.last_by_resource, other) {
            Some(id) => names_last_work(planning, next.operations, size + 1, other, id),
            None => no_work(planning, next.operations, size + 1, other),
        }) by {
            assert(next.operations[size] == step);
            if concerns(planning, step.operation, other) {
                assert(last_work(planning, next.operations, size + 1, size, other));
            } else {
                assert(held(next.last_by_resource, other) == held(draft.last_by_resource, other));
                last_work_grows(planning, draft.operations, step, other);
                if held(draft.last_by_resource, other) is Some {
                    let m = choose|m: int| #[trigger]
                        last_work(planning, draft.operations, size, m, other)
                            && draft.operations[m].id == held(draft.last_by_resource, other)->0;
                    assert(last_work(planning, next.operations, size + 1, m, other));
                    assert(next.operations[m] == draft.operations[m]);
                }
            }
        }
    }
}

proof fn migrations_linked(
    planning: Planning,
    draft: DraftView,
    pin: ComponentPinView,
    count: int,
)
    requires
        0 <= count <= pin.context.migrations.len(),
        linked(planning, draft.operations),
        well_known(planning, draft),
    ensures
        linked(planning, planning.after_migrations(draft, pin, count).operations),
        well_known(planning, planning.after_migrations(draft, pin, count)),
    decreases count,
{
    if count > 0 {
        migrations_linked(planning, draft, pin, count - 1);
        let before = planning.after_migrations(draft, pin, count - 1);
        let step = planning.migration_step(pin, pin.context.migrations[count - 1], before);
        follower_waits_rightly(planning, before, pin.context.resource_id, step);
        link(planning, before.operations, step);
        step_is_known(planning, before, pin.context.resource_id, step);
    }
}

proof fn components_linked(planning: Planning, count: int)
    requires
        0 <= count <= planning.desired.components.len(),
    ensures
        linked(planning, planning.after_components(count).operations),
        well_known(planning, planning.after_components(count)),
    decreases count,
{
    if count == 0 {
        metadata_linked(planning);
    } else {
        components_linked(planning, count - 1);
        let draft = planning.after_components(count - 1);
        let pin = planning.desired.components[count - 1];
        let step = planning.schema_step(pin, draft);
        follower_waits_rightly(planning, draft, pin.context.resource_id, step);
        link(planning, draft.operations, step);
        step_is_known(planning, draft, pin.context.resource_id, step);
        migrations_linked(
            planning,
            planning.after_schema(draft, pin),
            pin,
            pin.context.migrations.len() as int,
        );
    }
}

/// Every operation of a plan waits for what it needs, and for nothing else: a binding for nothing,
/// the receipt ledger for every binding, a schema or a migration for the work on its resource just
/// before it, and the API for the last work on every resource.
pub proof fn plans_wait_for_what_they_need(planning: Planning)
    ensures
        planning.result() matches Ok(plan) ==> linked(planning, plan.operations),
{
    let total = planning.desired.components.len() as int;
    let draft = planning.after_components(total);
    components_linked(planning, total);
    if !planning.api_settled() {
        let step = planning.api_step(draft);
        let size = draft.operations.len() as int;
        let more = draft.operations.push(step);
        let resources = keys(draft.last_by_resource);
        work_stays(planning, draft.operations, step, size);
        assert forall|resource_id: Seq<char>| #[trigger]
            resources.contains(resource_id) <==> !no_work(planning, more, size, resource_id) by {
            crate::order::held_iff_key(draft.last_by_resource, resource_id);
            if held(draft.last_by_resource, resource_id) is Some {
                let m = choose|m: int| #[trigger]
                    last_work(planning, draft.operations, size, m, resource_id);
                assert(concerns(planning, draft.operations[m].operation, resource_id));
            }
        }
        assert forall|k: int| 0 <= k < resources.len() implies names_last_work(
            planning,
            more,
            size,
            #[trigger] resources[k],
            more[size].dependencies[k],
        ) by {
            crate::order::entries_are_found(draft.last_by_resource, k);
            assert(draft.last_by_resource[k].0 == resources[k]);
            assert(more[size].dependencies[k] == draft.last_by_resource[k].1);
        }
        assert(waits_for_resources(planning, more, size, resources));
        link(planning, draft.operations, step);
    }
}

/// The operation at the one position depends on that at the other, directly or through others
/// between them.
pub open spec fn leads_back(
    operations: Seq<PlannedOperationView>,
    from: int,
    to: int,
) -> bool
    decreases from,
{
    from == to || exists|m: int|
        0 <= m < from && #[trigger] operations[from].dependencies.contains(operations[m].id)
            && leads_back(operations, m, to)
}

proof fn work_leads_back(
    planning: Planning,
    operations: Seq<PlannedOperationView>,
    places: Seq<Place>,
    from: int,
    to: int,
    resource_id: Seq<char>,
)
    requires
        laid_out(planning, operations, places, plan_end()),
        linked(planning, operations),
        0 <= to <= from < operations.len(),
        places[to].stage == 2,
        concerns(planning, operations[to].operation, resource_id),
        concerns(planning, operations[from].operation, resource_id),
    ensures
        leads_back(operations, from, to),
    decreases from,
{
    if to < from {
        assert(earlier(places[to], places[from]));
        assert(works_at(planning, places[from], operations[from].operation));
        assert(due_at(planning, places[from]));
        assert(waits_rightly(planning, operations, from));
        assert(waits_for_resource(planning, operations, from, resource_id));
        let m = choose|m: int| #[trigger]
            last_work(planning, operations, from, m, resource_id) && operations[from].dependencies
                == seq![operations[m].id];
        assert(m >= to);
        work_leads_back(planning, operations, places, m, to, resource_id);
        assert(operations[from].dependencies[0] == operations[m].id);
        assert(operations[from].dependencies.contains(operations[m].id));
    }
}

/// The migrations of a component are planned oldest first: of two that are both unapplied, the older
/// one comes before the newer one, which depends on it, directly or through others.
pub proof fn migrations_run_oldest_first(planning: Planning, component: int, older: int, newer: int)
    requires
        observed_in_order(planning),
        0 <= component < planning.desired.components.len(),
        0 <= older < newer < planning.desired.components[component].context.migrations.len(),
        ({
            let context = planning.desired.components[component].context;
            &&& unapplied(planning, context.resource_id, context.migrations[older].id)
            &&& unapplied(planning, context.resource_id, context.migrations[newer].id)
        }),
    ensures
        planning.result() matches Ok(plan) ==> exists|a: int, b: int|
            {
                let context = planning.desired.components[component].context;
                &&& 0 <= a < b < plan.operations.len()
                &&& #[trigger] plan.operations[a].operation == (OperationView::ApplyMigration {
                    resource_id: context.resource_id,
                    schema: context.target.schema,
                    migration: context.migrations[older],
                })
                &&& #[trigger] plan.operations[b].operation == (OperationView::ApplyMigration {
                    resource_id: context.resource_id,
                    schema: context.target.schema,
                    migration: context.migrations[newer],
                })
                &&& leads_back(plan.operations, b, a)
            },
{
    if planning.result() is Ok {
        let operations = planning.result()->Ok_0.operations;
        let context = planning.desired.components[component].context;
        plans_hold_exactly_what_is_due(planning);
        plans_wait_for_what_they_need(planning);
        let places = choose|places: Seq<Place>| #[trigger]
            laid_out(planning, operations, places, plan_end());
        let first = Place { stage: 2, component, item: older + 1 };
        let second = Place { stage: 2, component, item: newer + 1 };
        assert(due_at(planning, first) && due_at(planning, second));
        let a = places.index_of(first);
        let b = places.index_of(second);
        assert(places[a] == first && places[b] == second);
        if b < a {
            assert(earlier(places[b], places[a]));
        }
        assert(works_at(planning, places[a], operations[a].operation));
        assert(works_at(planning, places[b], operations[b].operation));
        work_leads_back(planning, operations, places, b, a, context.resource_id);
        assert(0 <= a < b < operations.len());
    }
}

/// An API that a plan configures exposes a schema exactly if it is the public one, some component
/// with that schema asks for exposure, whatever its anonymous access, or it is exposed now and no
/// binding claims it. An API that a plan leaves alone does so already.
pub proof fn schemas_are_exposed_as_asked(planning: Planning, schema: Seq<char>)
    requires
        observed_in_order(planning),
    ensures
        planning.result() matches Ok(plan) ==> {
            let asked = to_expose(planning, schema);
            &&& forall|i: int|
                0 <= i < plan.operations.len() && (
                #[trigger] plan.operations[i]).operation is ConfigureApi ==> (asked
                    <==> plan.operations[i].operation->ConfigureApi_exposed_schemas.contains(
                    schema,
                ))
            &&& (forall|i: int|
                0 <= i < plan.operations.len() ==> !((
                #[trigger] plan.operations[i]).operation is ConfigureApi)) ==> (asked
                <==> planning.observed.exposed_schemas.contains(schema))
        },
{
    if planning.result() is Ok {
        let operations = planning.result()->Ok_0.operations;
        plans_hold_exactly_what_is_due(planning);
        let places = choose|places: Seq<Place>| #[trigger]
            laid_out(planning, operations, places, plan_end());
        let at = Place { stage: 3, component: 0, item: 0 };
        assert(to_expose(planning, schema) || !to_expose(planning, schema));
        assert forall|i: int|
            0 <= i < operations.len() && (
            #[trigger] operations[i]).operation is ConfigureApi implies (to_expose(planning, schema)
            <==> operations[i].operation->ConfigureApi_exposed_schemas.contains(schema)) by {
            assert(due_at(planning, places[i]));
            assert(works_at(planning, places[i], operations[i].operation));
        }
        if forall|i: int|
            0 <= i < operations.len() ==> !((
            #[trigger] operations[i]).operation is ConfigureApi) {
            if due_at(planning, at) {
                let k = places.index_of(at);
                assert(works_at(planning, places[k], operations[k].operation));
                assert(operations[k].operation is ConfigureApi);
            }
            assert(api_in_place(planning));
        }
    }
}

// ---------------------------------------------------------------------------
// Identities and outputs
// ---------------------------------------------------------------------------

/// A plan names exactly what it was made from: the level, the observation, the fence and the
/// connector's build. Its identity is the digest of all the rest.
pub proof fn plans_name_what_they_were_made_from(planning: Planning)
    ensures
        planning.result() matches Ok(plan) ==> {
            &&& plan.plan_id == "sha256:"@ + hex_text(sha256_of(json_bytes(plan.payload())))
            &&& plan.api_version == "henosis.dev/supabase-review-plan/v1"@
            &&& plan.connector == "supabase"@
            &&& plan.connector_build == planning.context.connector_build
            &&& plan.policy_version == "supabase-local-v1"@
            &&& plan.graph_id == hex_text(planning.desired.graph_id)
            &&& numeral(plan.generation) == Some(planning.desired.generation as nat)
            &&& numeral(plan.slice_sequence) == Some(planning.desired.sequence as nat)
            &&& plan.target == "local/henosis-local/postgres"@
            &&& plan.desired_digest == "blake3:"@ + hex_text(planning.desired.digest())
            &&& plan.observed_digest == "blake3:"@ + hex_text(
                blake3_of(json_bytes(planning.observed.document())),
            )
            &&& numeral(plan.journal_tail) == Some(
                planning.context.journal_tail_after_plan as nat,
            )
        },
{
    crate::text::decimal_reads_back(planning.desired.generation as nat);
    crate::text::decimal_reads_back(planning.desired.sequence as nat);
    crate::text::decimal_reads_back(planning.context.journal_tail_after_plan as nat);
}

/// The origin is the address without the slashes at its end.
pub open spec fn origin_of(address: Seq<char>, origin: Seq<char>) -> bool {
    &&& origin.len() <= address.len()
    &&& address.take(origin.len() as int) == origin
    &&& forall|i: int| origin.len() <= i < address.len() ==> #[trigger] address[i] == '/'
    &&& origin.len() > 0 ==> origin.last() != '/'
}

proof fn origins_have_no_slashes(address: Seq<char>)
    ensures
        origin_of(address, trim_end_mark(address, '/')),
    decreases address.len(),
{
    if address.len() > 0 && address.last() == '/' {
        let shorter = address.drop_last();
        let origin = trim_end_mark(shorter, '/');
        origins_have_no_slashes(shorter);
        assert(address.take(origin.len() as int) =~= shorter.take(origin.len() as int));
        assert forall|i: int| origin.len() <= i < address.len() implies #[trigger] address[i]
            == '/' by {
            if i < shorter.len() {
                assert(shorter[i] == address[i]);
            }
        }
    } else {
        assert(address.take(address.len() as int) =~= address);
    }
}

/// A plan has one output for every component, in their order. It tells where the component's schema
/// is and refers to the secrets by name, and the REST address is below the API's origin.
pub proof fn plans_output_every_component(planning: Planning)
    ensures
        planning.result() matches Ok(plan) ==> {
            let pins = planning.desired.components;
            &&& plan.planned_outputs.len() == pins.len()
            &&& exists|origin: Seq<char>| #[trigger]
                origin_of(planning.context.api_url, origin) && forall|i: int|
                    0 <= i < pins.len() ==> (
                    #[trigger] plan.planned_outputs[i]).component_spec_hash == hex_text(
                        pins[i].spec_hash,
                    ) && plan.planned_outputs[i].values == object_of(
                        seq![
                            ("anonKeyRef"@, JsonView::Text(planning.context.anon_key_ref)),
                            ("apiUrl"@, JsonView::Text(origin)),
                            ("database"@, JsonView::Text(pins[i].context.target.database)),
                            ("databaseUrlRef"@, JsonView::Text(planning.context.database_url_ref)),
                            ("project"@, JsonView::Text(pins[i].context.target.project)),
                            ("restUrl"@, JsonView::Text(origin + "/rest/v1"@)),
                            ("schema"@, JsonView::Text(pins[i].context.target.schema)),
                        ],
                    )
        },
{
    origins_have_no_slashes(planning.context.api_url);
    if planning.result() is Ok {
        let plan = planning.result()->Ok_0;
        assert(plan.planned_outputs == planning.outputs());
        let origin = trim_end_mark(planning.context.api_url, '/');
        assert(origin_of(planning.context.api_url, origin));
    }
}

// ---------------------------------------------------------------------------
// Complaints
// ---------------------------------------------------------------------------

/// The receipt is the first one for the migration of the resource.
pub open spec fn first_receipt(
    receipts: Seq<ObservedMigrationView>,
    at: int,
    resource_id: Seq<char>,
    migration_id: Seq<char>,
) -> bool {
    &&& 0 <= at < receipts.len()
    &&& receipts[at].resource_id == resource_id
    &&& receipts[at].migration_id == migration_id
    &&& forall|i: int|
        0 <= i < at ==> !((#[trigger] receipts[i]).resource_id == resource_id
            && receipts[i].migration_id == migration_id)
}

/// The migration at the place was applied with another checksum than it has now.
pub open spec fn edited_at(planning: Planning, place: Place) -> bool {
    let pins = planning.desired.components;
    let context = pins[place.component].context;
    let migration = context.migrations[place.item - 1];
    &&& place.stage == 2
    &&& 0 <= place.component < pins.len()
    &&& 0 < place.item <= context.migrations.len()
    &&& exists|at: int| #[trigger]
        first_receipt(
            planning.observed.migrations,
            at,
            context.resource_id,
            migration.id,
        ) && planning.observed.migrations[at].checksum != migration.checksum
}

/// The complaint names the component, the place of the migration in its context and both checksums.
pub open spec fn complains_at(
    planning: Planning,
    place: Place,
    diagnostic: PlanDiagnosticView,
) -> bool {
    let pin = planning.desired.components[place.component];
    let migrations = pin.context.migrations;
    let migration = migrations[place.item - 1];
    &&& diagnostic.component_spec_hash == pin.spec_hash
    &&& diagnostic.code == "supabase.plan.migration-mutated"@
    &&& diagnostic.help
        == "Never edit an applied migration ID; append a new corrective migration."@
    &&& exists|at: int| #[trigger]
        first_receipt(
            planning.observed.migrations,
            at,
            pin.context.resource_id,
            migration.id,
        ) && diagnostic.message == "migration "@ + debug_text(migration.id)
            + " was applied with checksum "@ + debug_text(planning.observed.migrations[at].checksum)
            + ", but desired declares "@ + debug_text(migration.checksum)
    &&& exists|index: int|
        {
            &&& 0 <= index < place.item
            &&& (#[trigger] migrations[index]).id == migration.id
            &&& forall|i: int| 0 <= i < index ==> (#[trigger] migrations[i]).id != migration.id
            &&& diagnostic.pointer == "/migrations/"@ + decimal_text(index as nat) + "/checksum"@
        }
}

/// The complaints are of the places, one for each. The places come one before the other, and they
/// are all those before the end whose migration was edited.
pub open spec fn complained(
    planning: Planning,
    diagnostics: Seq<PlanDiagnosticView>,
    places: Seq<Place>,
    end: Place,
) -> bool {
    &&& places.len() == diagnostics.len()
    &&& forall|i: int, j: int|
        0 <= i < j < places.len() ==> earlier(#[trigger] places[i], #[trigger] places[j])
    &&& forall|i: int|
        0 <= i < places.len() ==> {
            &&& earlier(#[trigger] places[i], end)
            &&& edited_at(planning, places[i])
            &&& complains_at(planning, places[i], diagnostics[i])
        }
    &&& forall|place: Place| #[trigger]
        edited_at(planning, place) && earlier(place, end) ==> places.contains(place)
}

pub(crate) proof fn receipts_are_first(
    receipts: Seq<ObservedMigrationView>,
    resource_id: Seq<char>,
    migration_id: Seq<char>,
)
    ensures
        receipt_checksum(receipts, resource_id, migration_id) matches Some(checksum) ==> exists|
            at: int,
        | #[trigger]
            first_receipt(receipts, at, resource_id, migration_id) && receipts[at].checksum
                == checksum,
    decreases receipts.len(),
{
    if receipts.len() > 0 {
        if receipts[0].resource_id == resource_id && receipts[0].migration_id == migration_id {
            assert(first_receipt(receipts, 0, resource_id, migration_id));
        } else {
            let rest = receipts.drop_first();
            receipts_are_first(rest, resource_id, migration_id);
            if receipt_checksum(rest, resource_id, migration_id) is Some {
                let at = choose|at: int| #[trigger]
                    first_receipt(rest, at, resource_id, migration_id) && rest[at].checksum
                        == receipt_checksum(rest, resource_id, migration_id)->0;
                assert(rest[at] == receipts[at + 1]);
                assert forall|i: int| 0 <= i < at + 1 implies !((
                #[trigger] receipts[i]).resource_id == resource_id && receipts[i].migration_id
                    == migration_id) by {
                    if i > 0 {
                        assert(rest[i - 1] == receipts[i]);
                    }
                }
                assert(first_receipt(receipts, at + 1, resource_id, migration_id));
            }
        }
    }
}

pub(crate) proof fn first_receipt_is_one(
    receipts: Seq<ObservedMigrationView>,
    a: int,
    b: int,
    resource_id: Seq<char>,
    migration_id: Seq<char>,
)
    requires
        first_receipt(receipts, a, resource_id, migration_id),
        first_receipt(receipts, b, resource_id, migration_id),
    ensures
        a == b,
{
}

proof fn positions_are_first(migrations: Seq<MigrationView>, at: int)
    requires
        0 <= at < migrations.len(),
    ensures
        ({
            let index = position_of(migrations, migrations[at].id);
            &&& 0 <= index <= at
            &&& migrations[index].id == migrations[at].id
            &&& forall|i: int|
                0 <= i < index ==> (#[trigger] migrations[i]).id != migrations[at].id
        }),
    decreases migrations.len(),
{
    if migrations[0].id != migrations[at].id {
        let rest = migrations.drop_first();
        positions_are_first(rest, at - 1);
        let index = position_of(migrations, migrations[at].id);
        assert(migrations[index] == rest[index - 1]);
        assert forall|i: int| 0 <= i < index implies (#[trigger] migrations[i]).id
            != migrations[at].id by {
            if i > 0 {
                assert(rest[i - 1] == migrations[i]);
            }
        }
    }
}

proof fn edits_are_known(planning: Planning, place: Place)
    requires
        place.stage == 2,
        0 <= place.component < planning.desired.components.len(),
        0 < place.item <= planning.desired.components[place.component].context.migrations.len(),
    ensures
        ({
            let pin = planning.desired.components[place.component];
            let migration = pin.context.migrations[place.item - 1];
            match planning.observed.checksum(pin.context.resource_id, migration.id) {
                Some(checksum) => {
                    &&& edited_at(planning, place) <==> checksum != migration.checksum
                    &&& complains_at(planning, place, planning.mutation(pin, migration, checksum))
                },
                None => !edited_at(planning, place),
            }
        }),
{
    let pin = planning.desired.components[place.component];
    let migration = pin.context.migrations[place.item - 1];
    let receipts = planning.observed.migrations;
    receipts_are_first(receipts, pin.context.resource_id, migration.id);
    unapplied_has_no_receipt(receipts, pin.context.resource_id, migration.id);
    positions_are_first(pin.context.migrations, place.item - 1);
    match planning.observed.checksum(pin.context.resource_id, migration.id) {
        Some(checksum) => {
            let at = choose|at: int| #[trigger]
                first_receipt(receipts, at, pin.context.resource_id, migration.id)
                    && receipts[at].checksum == checksum;
            if edited_at(planning, place) {
                let other = choose|other: int| #[trigger]
                    first_receipt(receipts, other, pin.context.resource_id, migration.id)
                        && receipts[other].checksum != migration.checksum;
                first_receipt_is_one(
                    receipts,
                    at,
                    other,
                    pin.context.resource_id,
                    migration.id,
                );
            }
            let index = position_of(pin.context.migrations, migration.id);
            assert(pin.context.migrations[index].id == migration.id);
            assert(first_receipt(receipts, at, pin.context.resource_id, migration.id));
        },
        None => {},
    }
}

proof fn complain(
    planning: Planning,
    diagnostics: Seq<PlanDiagnosticView>,
    places: Seq<Place>,
    at: Place,
    end: Place,
    diagnostic: PlanDiagnosticView,
)
    requires
        complained(planning, diagnostics, places, at),
        earlier(at, end),
        forall|place: Place| #[trigger]
            edited_at(planning, place) && earlier(place, end) && !earlier(place, at) ==> place
                == at,
    ensures
        edited_at(planning, at) && complains_at(planning, at, diagnostic) ==> complained(
            planning,
            diagnostics.push(diagnostic),
            places.push(at),
            end,
        ),
        !edited_at(planning, at) ==> complained(planning, diagnostics, places, end),
{
    if edited_at(planning, at) && complains_at(planning, at, diagnostic) {
        let more = places.push(at);
        assert forall|place: Place| #[trigger]
            edited_at(planning, place) && earlier(place, end) implies more.contains(place) by {
            if earlier(place, at) {
                let k = places.index_of(place);
                assert(more[k] == place);
            } else {
                assert(more[places.len() as int] == place);
            }
        }
    }
}

proof fn bindings_complain_of_nothing(planning: Planning, count: int)
    ensures
        planning.after_bindings(count).diagnostics.len() == 0,
    decreases count,
{
    if count > 0 {
        bindings_complain_of_nothing(planning, count - 1);
    }
}

proof fn migrations_complained(
    planning: Planning,
    draft: DraftView,
    places: Seq<Place>,
    component: int,
    count: int,
) -> (all: Seq<Place>)
    requires
        0 <= component < planning.desired.components.len(),
        0 <= count <= planning.desired.components[component].context.migrations.len(),
        complained(planning, draft.diagnostics, places, Place { stage: 2, component, item: 1 }),
    ensures
        complained(
            planning,
            planning.after_migrations(
                draft,
                planning.desired.components[component],
                count,
            ).diagnostics,
            all,
            Place { stage: 2, component, item: count + 1 },
        ),
    decreases count,
{
    if count == 0 {
        places
    } else {
        let pin = planning.desired.components[component];
        let before = migrations_complained(planning, draft, places, component, count - 1);
        let sofar = planning.after_migrations(draft, pin, count - 1);
        let migration = pin.context.migrations[count - 1];
        let at = Place { stage: 2, component, item: count };
        edits_are_known(planning, at);
        let checksum = planning.observed.checksum(pin.context.resource_id, migration.id);
        complain(
            planning,
            sofar.diagnostics,
            before,
            at,
            Place { stage: 2, component, item: count + 1 },
            planning.mutation(pin, migration, checksum->0),
        );
        if edited_at(planning, at) {
            before.push(at)
        } else {
            before
        }
    }
}

proof fn components_complained(planning: Planning, count: int) -> (places: Seq<Place>)
    requires
        0 <= count <= planning.desired.components.len(),
    ensures
        complained(
            planning,
            planning.after_components(count).diagnostics,
            places,
            Place { stage: 2, component: count, item: 0 },
        ),
    decreases count,
{
    if count == 0 {
        bindings_complain_of_nothing(planning, planning.desired.components.len() as int);
        seq![]
    } else {
        let component = count - 1;
        let before = components_complained(planning, component);
        let draft = planning.after_components(component);
        let pin = planning.desired.components[component];
        let total = pin.context.migrations.len() as int;
        let nothing = planning.mutation(pin, pin.context.migrations[0], seq![]);
        complain(
            planning,
            draft.diagnostics,
            before,
            Place { stage: 2, component, item: 0 },
            Place { stage: 2, component, item: 1 },
            nothing,
        );
        let all = migrations_complained(
            planning,
            planning.after_schema(draft, pin),
            before,
            component,
            total,
        );
        complain(
            planning,
            planning.after_components(count).diagnostics,
            all,
            Place { stage: 2, component, item: total + 1 },
            Place { stage: 2, component: count, item: 0 },
            nothing,
        );
        all
    }
}

/// Planning fails exactly if some applied migration was edited. It then complains of every edited
/// migration, once and in order, with the component, the place and both checksums.
pub proof fn refusals_name_every_edited_migration(planning: Planning)
    ensures
        planning.result() is Err <==> exists|place: Place| #[trigger] edited_at(planning, place),
        planning.result() matches Err(diagnostics) ==> exists|places: Seq<Place>| #[trigger]
            complained(planning, diagnostics, places, plan_end()),
{
    let total = planning.desired.components.len() as int;
    let places = components_complained(planning, total);
    let diagnostics = planning.draft().diagnostics;
    let end = Place { stage: 2, component: total, item: 0 };
    assert(complained(planning, diagnostics, places, end));
    assert forall|place: Place| #[trigger] edited_at(planning, place) implies earlier(
        place,
        end,
    ) by {}
    assert forall|i: int| 0 <= i < places.len() implies earlier(#[trigger] places[i], plan_end()) by {
        assert(earlier(places[i], end));
    }
    assert(complained(planning, diagnostics, places, plan_end()));
    if diagnostics.len() > 0 {
        assert(edited_at(planning, places[0]));
        assert(complained(planning, planning.result()->Err_0, places, plan_end()));
    } else if exists|place: Place| #[trigger] edited_at(planning, place) {
        let place = choose|place: Place| #[trigger] edited_at(planning, place);
        assert(places.contains(place));
    }
}

}
