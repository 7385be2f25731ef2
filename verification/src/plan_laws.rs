//! What holds of every plan.

use vstd::prelude::*;

use crate::context::MigrationView;
use crate::order::ascending;
use crate::order::held;
use crate::order::placed;
use crate::order::put;
use crate::plan::followed_by;
use crate::plan::unclaimed;
use crate::plan::values_of;
use crate::plan::with_exposed;
use crate::plan::DraftView;
use crate::plan::OperationView;
use crate::plan::PlannedOperationView;
use crate::plan::Planning;
use crate::slice::ComponentPinView;
use crate::target::set_of;

verus! {

// ---------------------------------------------------------------------------
// Dependencies
// ---------------------------------------------------------------------------

/// Some operation before the position has the identity.
pub open spec fn planned_before(
    operations: Seq<PlannedOperationView>,
    count: int,
    id: Seq<char>,
) -> bool {
    exists|j: int| 0 <= j < count && (#[trigger] operations[j]).id == id
}

/// Every operation depends only on operations before it.
pub open spec fn ordered(operations: Seq<PlannedOperationView>) -> bool {
    forall|i: int, k: int|
        0 <= i < operations.len() && 0 <= k < operations[i].dependencies.len()
            ==> planned_before(operations, i, #[trigger] operations[i].dependencies[k])
}

/// Operations depend only on operations before them, and resources follow operations of the draft.
spec fn closed_under_order(draft: DraftView) -> bool {
    &&& ordered(draft.operations)
    &&& forall|i: int|
        0 <= i < draft.last_by_resource.len() ==> planned_before(
            draft.operations,
            draft.operations.len() as int,
            (#[trigger] draft.last_by_resource[i]).1,
        )
}

proof fn put_adds_value(
    entries: Seq<(Seq<char>, Seq<char>)>,
    key: Seq<char>,
    value: Seq<char>,
    at: int,
)
    requires
        0 <= at < put(entries, key, value).len(),
    ensures
        put(entries, key, value)[at].1 == value || exists|i: int|
            0 <= i < entries.len() && (#[trigger] entries[i]).1 == put(entries, key, value)[at].1,
    decreases entries.len(),
{
    let all = put(entries, key, value);
    if entries.len() > 0 {
        if entries[0].0 == key {
            if at > 0 {
                assert(all[at] == entries[at]);
            }
        } else if crate::order::precedes(key, entries[0].0) {
            if at > 0 {
                assert(all[at] == entries[at - 1]);
            }
        } else if at == 0 {
            assert(all[0] == entries[0]);
        } else {
            let rest = entries.drop_first();
            put_adds_value(rest, key, value, at - 1);
            assert(all[at] == put(rest, key, value)[at - 1]);
            if put(rest, key, value)[at - 1].1 != value {
                let i = choose|i: int|
                    0 <= i < rest.len() && (#[trigger] rest[i]).1 == put(rest, key, value)[at
                        - 1].1;
                assert(entries[i + 1] == rest[i]);
            }
        }
    }
}

proof fn held_is_entry(entries: Seq<(Seq<char>, Seq<char>)>, key: Seq<char>)
    ensures
        held(entries, key) matches Some(value) ==> exists|i: int|
            0 <= i < entries.len() && (#[trigger] entries[i]).1 == value,
    decreases entries.len(),
{
    if entries.len() > 0 {
        if entries[0].0 == key {
            assert(entries[0].1 == held(entries, key)->0);
        } else {
            let rest = entries.drop_first();
            held_is_entry(rest, key);
            if held(rest, key) is Some {
                let i = choose|i: int|
                    0 <= i < rest.len() && (#[trigger] rest[i]).1 == held(rest, key)->0;
                assert(entries[i + 1] == rest[i]);
            }
        }
    }
}

/// Adding an operation whose dependencies are there keeps the order.
proof fn step_keeps_order(
    operations: Seq<PlannedOperationView>,
    step: PlannedOperationView,
)
    requires
        ordered(operations),
        forall|k: int|
            0 <= k < step.dependencies.len() ==> planned_before(
                operations,
                operations.len() as int,
                #[trigger] step.dependencies[k],
            ),
    ensures
        ordered(operations.push(step)),
        planned_before(operations.push(step), operations.len() as int + 1, step.id),
        forall|id: Seq<char>| #[trigger]
            planned_before(operations, operations.len() as int, id) ==> planned_before(
                operations.push(step),
                operations.len() as int + 1,
                id,
            ),
{
    let all = operations.push(step);
    assert forall|i: int, k: int|
        0 <= i < all.len() && 0 <= k < all[i].dependencies.len() implies planned_before(
        all,
        i,
        #[trigger] all[i].dependencies[k],
    ) by {
        let id = all[i].dependencies[k];
        if i < operations.len() {
            assert(all[i] == operations[i]);
            assert(planned_before(operations, i, operations[i].dependencies[k]));
            let j = choose|j: int| 0 <= j < i && (#[trigger] operations[j]).id == id;
            assert(all[j].id == id);
        } else {
            assert(planned_before(operations, operations.len() as int, step.dependencies[k]));
            let j = choose|j: int|
                0 <= j < operations.len() && (#[trigger] operations[j]).id == id;
            assert(all[j].id == id);
        }
    }
    assert(all[operations.len() as int].id == step.id);
    assert forall|id: Seq<char>| #[trigger]
        planned_before(operations, operations.len() as int, id) implies planned_before(
        all,
        operations.len() as int + 1,
        id,
    ) by {
        let j = choose|j: int| 0 <= j < operations.len() && (#[trigger] operations[j]).id == id;
        assert(all[j].id == id);
    }
}

proof fn with_step_keeps_order(
    draft: DraftView,
    resource_id: Seq<char>,
    step: PlannedOperationView,
)
    requires
        closed_under_order(draft),
        step.dependencies == draft.predecessor(resource_id) || step.dependencies.len() == 0,
    ensures
        closed_under_order(draft.with_step(resource_id, step)),
{
    held_is_entry(draft.last_by_resource, resource_id);
    step_keeps_order(draft.operations, step);
    let next = draft.with_step(resource_id, step);
    assert forall|i: int| 0 <= i < next.last_by_resource.len() implies planned_before(
        next.operations,
        next.operations.len() as int,
        (#[trigger] next.last_by_resource[i]).1,
    ) by {
        put_adds_value(draft.last_by_resource, resource_id, step.id, i);
        if next.last_by_resource[i].1 != step.id {
            let k = choose|k: int|
                0 <= k < draft.last_by_resource.len() && (#[trigger] draft.last_by_resource[k]).1
                    == next.last_by_resource[i].1;
            assert(planned_before(
                draft.operations,
                draft.operations.len() as int,
                draft.last_by_resource[k].1,
            ));
        }
    }
}

proof fn bindings_keep_order(planning: Planning, count: int)
    ensures
        closed_under_order(planning.after_bindings(count)),
    decreases count,
{
    if count > 0 {
        bindings_keep_order(planning, count - 1);
        let draft = planning.after_bindings(count - 1);
        let pin = planning.pins()[count - 1];
        if held(planning.journal.bindings, pin.context.resource_id) is None {
            with_step_keeps_order(draft, pin.context.resource_id, planning.binding_step(pin));
        }
    }
}

proof fn binding_ids_are_planned(operations: Seq<PlannedOperationView>, at: int)
    requires
        0 <= at < crate::plan::binding_ids(operations).len(),
    ensures
        planned_before(
            operations,
            operations.len() as int,
            crate::plan::binding_ids(operations)[at],
        ),
    decreases operations.len(),
{
    if operations.len() > 0 {
        let rest = operations.drop_last();
        let id = crate::plan::binding_ids(operations)[at];
        if at < crate::plan::binding_ids(rest).len() {
            binding_ids_are_planned(rest, at);
            let j = choose|j: int| 0 <= j < rest.len() && (#[trigger] rest[j]).id == id;
            assert(operations[j].id == id);
        } else {
            assert(operations[operations.len() - 1].id == id);
        }
    }
}

proof fn followers_are_planned(
    last_by_resource: Seq<(Seq<char>, Seq<char>)>,
    pins: Seq<ComponentPinView>,
    id: Seq<char>,
    count: int,
    at: int,
)
    requires
        0 <= at < followed_by(last_by_resource, pins, id, count).len(),
    ensures
        followed_by(last_by_resource, pins, id, count)[at].1 == id || exists|i: int|
            0 <= i < last_by_resource.len() && (#[trigger] last_by_resource[i]).1 == followed_by(
                last_by_resource,
                pins,
                id,
                count,
            )[at].1,
    decreases count,
{
    if count > 0 {
        let before = followed_by(last_by_resource, pins, id, count - 1);
        put_adds_value(before, pins[count - 1].context.resource_id, id, at);
        let value = followed_by(last_by_resource, pins, id, count)[at].1;
        if value != id {
            let k = choose|k: int| 0 <= k < before.len() && (#[trigger] before[k]).1 == value;
            followers_are_planned(last_by_resource, pins, id, count - 1, k);
        }
    } else {
        assert(last_by_resource[at].1 == followed_by(last_by_resource, pins, id, count)[at].1);
    }
}

proof fn metadata_keeps_order(planning: Planning)
    ensures
        closed_under_order(planning.after_metadata()),
{
    let total = planning.pins().len() as int;
    let draft = planning.after_bindings(total);
    bindings_keep_order(planning, total);
    if !planning.observed.metadata_exists {
        let step = planning.metadata_step(draft);
        assert forall|k: int| 0 <= k < step.dependencies.len() implies planned_before(
            draft.operations,
            draft.operations.len() as int,
            #[trigger] step.dependencies[k],
        ) by {
            binding_ids_are_planned(draft.operations, k);
        }
        step_keeps_order(draft.operations, step);
        let next = planning.after_metadata();
        assert forall|i: int| 0 <= i < next.last_by_resource.len() implies planned_before(
            next.operations,
            next.operations.len() as int,
            (#[trigger] next.last_by_resource[i]).1,
        ) by {
            followers_are_planned(draft.last_by_resource, planning.pins(), step.id, total, i);
            if next.last_by_resource[i].1 != step.id {
                let k = choose|k: int|
                    0 <= k < draft.last_by_resource.len() && (
                    #[trigger] draft.last_by_resource[k]).1 == next.last_by_resource[i].1;
                assert(planned_before(
                    draft.operations,
                    draft.operations.len() as int,
                    draft.last_by_resource[k].1,
                ));
            }
        }
    }
}

proof fn migrations_keep_order(planning: Planning, draft: DraftView, pin: ComponentPinView, count: int)
    requires
        closed_under_order(draft),
    ensures
        closed_under_order(planning.after_migrations(draft, pin, count)),
    decreases count,
{
    if count > 0 {
        migrations_keep_order(planning, draft, pin, count - 1);
        let before = planning.after_migrations(draft, pin, count - 1);
        let migration = pin.context.migrations[count - 1];
        with_step_keeps_order(
            before,
            pin.context.resource_id,
            planning.migration_step(pin, migration, before),
        );
    }
}

proof fn components_keep_order(planning: Planning, count: int)
    ensures
        closed_under_order(planning.after_components(count)),
    decreases count,
{
    if count <= 0 {
        metadata_keeps_order(planning);
    } else {
        components_keep_order(planning, count - 1);
        let pin = planning.pins()[count - 1];
        let draft = planning.after_components(count - 1);
        with_step_keeps_order(
            draft,
            pin.context.resource_id,
            planning.schema_step(pin, draft),
        );
        migrations_keep_order(
            planning,
            planning.after_schema(draft, pin),
            pin,
            pin.context.migrations.len() as int,
        );
    }
}

/// Every operation of a plan depends only on operations that come before it.
pub proof fn dependencies_come_first(planning: Planning)
    ensures
        planning.result() matches Ok(plan) ==> ordered(plan.operations),
{
    let total = planning.pins().len() as int;
    components_keep_order(planning, total);
    let draft = planning.after_components(total);
    if !planning.api_settled() {
        let step = planning.api_step(draft);
        assert forall|k: int| 0 <= k < step.dependencies.len() implies planned_before(
            draft.operations,
            draft.operations.len() as int,
            #[trigger] step.dependencies[k],
        ) by {
            assert(step.dependencies[k] == draft.last_by_resource[k].1);
        }
        step_keeps_order(draft.operations, step);
    }
}

// ---------------------------------------------------------------------------
// Necessity
// ---------------------------------------------------------------------------

/// The operation has something to do: its resource is unbound, or the target does not satisfy it.
pub open spec fn due(planning: Planning, operation: OperationView) -> bool {
    match operation {
        OperationView::EstablishBinding { binding } => held(
            planning.journal.bindings,
            binding.resource_id,
        ) is None,
        _ => !planning.observed.satisfies(operation),
    }
}

/// Every operation has something to do.
pub open spec fn all_due(planning: Planning, operations: Seq<PlannedOperationView>) -> bool {
    forall|i: int| 0 <= i < operations.len() ==> due(planning, (#[trigger] operations[i]).operation)
}

proof fn all_due_after_push(
    planning: Planning,
    operations: Seq<PlannedOperationView>,
    step: PlannedOperationView,
)
    requires
        all_due(planning, operations),
        due(planning, step.operation),
    ensures
        all_due(planning, operations.push(step)),
{
    let all = operations.push(step);
    assert forall|i: int| 0 <= i < all.len() implies due(
        planning,
        (#[trigger] all[i]).operation,
    ) by {
        if i < operations.len() {
            assert(all[i] == operations[i]);
        }
    }
}

proof fn bindings_are_due(planning: Planning, count: int)
    ensures
        all_due(planning, planning.after_bindings(count).operations),
    decreases count,
{
    if count > 0 {
        bindings_are_due(planning, count - 1);
        let pin = planning.pins()[count - 1];
        if held(planning.journal.bindings, pin.context.resource_id) is None {
            all_due_after_push(
                planning,
                planning.after_bindings(count - 1).operations,
                planning.binding_step(pin),
            );
        }
    }
}

proof fn migrations_are_due(
    planning: Planning,
    draft: DraftView,
    pin: ComponentPinView,
    count: int,
)
    requires
        all_due(planning, draft.operations),
    ensures
        all_due(planning, planning.after_migrations(draft, pin, count).operations),
    decreases count,
{
    if count > 0 {
        migrations_are_due(planning, draft, pin, count - 1);
        let before = planning.after_migrations(draft, pin, count - 1);
        let migration = pin.context.migrations[count - 1];
        if planning.observed.checksum(pin.context.resource_id, migration.id) is None {
            all_due_after_push(
                planning,
                before.operations,
                planning.migration_step(pin, migration, before),
            );
        }
    }
}

proof fn components_are_due(planning: Planning, count: int)
    ensures
        all_due(planning, planning.after_components(count).operations),
    decreases count,
{
    if count <= 0 {
        let total = planning.pins().len() as int;
        bindings_are_due(planning, total);
        if !planning.observed.metadata_exists {
            let draft = planning.after_bindings(total);
            all_due_after_push(planning, draft.operations, planning.metadata_step(draft));
        }
    } else {
        components_are_due(planning, count - 1);
        let pin = planning.pins()[count - 1];
        let draft = planning.after_components(count - 1);
        if !planning.observed.schemas.contains(pin.context.target.schema) {
            all_due_after_push(planning, draft.operations, planning.schema_step(pin, draft));
        }
        migrations_are_due(
            planning,
            planning.after_schema(draft, pin),
            pin,
            pin.context.migrations.len() as int,
        );
    }
}

pub(crate) proof fn set_of_ascends(texts: Seq<Seq<char>>)
    ensures
        ascending(set_of(texts)),
        forall|text: Seq<char>| #[trigger] set_of(texts).contains(text) <==> texts.contains(text),
    decreases texts.len(),
{
    if texts.len() > 0 {
        let before = texts.drop_last();
        set_of_ascends(before);
        crate::order::placed_keeps_order(set_of(before), texts.last());
        assert forall|text: Seq<char>| #[trigger]
            set_of(texts).contains(text) <==> texts.contains(text) by {
            if set_of(texts).contains(text) {
                if text == texts.last() {
                    assert(texts[texts.len() - 1] == text);
                } else {
                    assert(set_of(before).contains(text));
                    let k = before.index_of(text);
                    assert(texts[k] == text);
                }
            }
            if texts.contains(text) {
                let k = texts.index_of(text);
                if k < texts.len() - 1 {
                    assert(before[k] == text);
                    assert(set_of(before).contains(text));
                }
            }
        }
    }
}

/// Texts in ascending order are their own set.
pub proof fn ascending_texts_are_a_set(texts: Seq<Seq<char>>)
    requires
        ascending(texts),
    ensures
        set_of(texts) == texts,
{
    set_of_ascends(texts);
    crate::order::ascending_is_canonical(set_of(texts), texts);
}

proof fn unclaimed_ascends(planning: Planning, count: int)
    ensures
        ascending(unclaimed(planning.journal, planning.observed.exposed_schemas, count)),
    decreases count,
{
    if count > 0 {
        unclaimed_ascends(planning, count - 1);
        crate::order::placed_keeps_order(
            unclaimed(planning.journal, planning.observed.exposed_schemas, count - 1),
            planning.observed.exposed_schemas[count - 1],
        );
    }
}

proof fn exposed_ascends_from(
    schemas: Seq<Seq<char>>,
    pins: Seq<ComponentPinView>,
    count: int,
)
    requires
        ascending(schemas),
    ensures
        ascending(with_exposed(schemas, pins, count)),
    decreases count,
{
    if count > 0 {
        exposed_ascends_from(schemas, pins, count - 1);
        crate::order::placed_keeps_order(
            with_exposed(schemas, pins, count - 1),
            pins[count - 1].context.target.schema,
        );
    }
}

/// The schemas to expose are in ascending order, without repetition.
pub proof fn exposed_schemas_ascend(planning: Planning)
    ensures
        ascending(planning.exposed()),
        set_of(planning.exposed()) == planning.exposed(),
{
    let kept = unclaimed(
        planning.journal,
        planning.observed.exposed_schemas,
        planning.observed.exposed_schemas.len() as int,
    );
    unclaimed_ascends(planning, planning.observed.exposed_schemas.len() as int);
    crate::order::placed_keeps_order(kept, "public"@);
    exposed_ascends_from(placed(kept, "public"@), planning.pins(), planning.pins().len() as int);
    ascending_texts_are_a_set(planning.exposed());
}

/// A plan proposes nothing that is done already: each binding is of an unbound resource, and the
/// observed target satisfies no other operation of the plan.
pub proof fn plans_propose_only_what_is_due(planning: Planning)
    ensures
        planning.result() matches Ok(plan) ==> all_due(planning, plan.operations),
{
    let total = planning.pins().len() as int;
    components_are_due(planning, total);
    if !planning.api_settled() {
        exposed_schemas_ascend(planning);
        let draft = planning.after_components(total);
        all_due_after_push(planning, draft.operations, planning.api_step(draft));
    }
}

// ---------------------------------------------------------------------------
// Convergence
// ---------------------------------------------------------------------------

/// The component's migration is applied with the desired checksum.
pub open spec fn migration_settled(
    planning: Planning,
    pin: ComponentPinView,
    migration: MigrationView,
) -> bool {
    planning.observed.checksum(pin.context.resource_id, migration.id) == Some(migration.checksum)
}

/// The component's resource is bound, its schema exists and its migrations are applied.
pub open spec fn component_settled(planning: Planning, pin: ComponentPinView) -> bool {
    &&& held(planning.journal.bindings, pin.context.resource_id) is Some
    &&& planning.observed.schemas.contains(pin.context.target.schema)
    &&& forall|k: int|
        0 <= k < pin.context.migrations.len() ==> migration_settled(
            planning,
            pin,
            #[trigger] pin.context.migrations[k],
        )
}

/// The target is as desired.
pub open spec fn converged(planning: Planning) -> bool {
    &&& planning.observed.metadata_exists
    &&& forall|i: int|
        0 <= i < planning.pins().len() ==> component_settled(
            planning,
            #[trigger] planning.pins()[i],
        )
    &&& planning.api_settled()
}

/// Nothing was planned and nothing stands in the way.
spec fn is_blank(draft: DraftView) -> bool {
    draft.operations.len() == 0 && draft.diagnostics.len() == 0
}

proof fn blank_after_bindings(planning: Planning, count: int)
    requires
        0 <= count <= planning.pins().len(),
    ensures
        is_blank(planning.after_bindings(count)) <==> forall|i: int|
            0 <= i < count ==> held(
                planning.journal.bindings,
                (#[trigger] planning.pins()[i]).context.resource_id,
            ) is Some,
        planning.after_bindings(count).diagnostics.len() == 0,
    decreases count,
{
    if count > 0 {
        blank_after_bindings(planning, count - 1);
        let pin = planning.pins()[count - 1];
        if held(planning.journal.bindings, pin.context.resource_id) is Some {
            assert(planning.after_bindings(count) == planning.after_bindings(count - 1));
        }
    }
}

proof fn blank_after_migrations(
    planning: Planning,
    draft: DraftView,
    pin: ComponentPinView,
    count: int,
)
    requires
        0 <= count <= pin.context.migrations.len(),
    ensures
        is_blank(planning.after_migrations(draft, pin, count)) <==> is_blank(draft) && forall|k: int|
            0 <= k < count ==> migration_settled(
                planning,
                pin,
                #[trigger] pin.context.migrations[k],
            ),
    decreases count,
{
    if count > 0 {
        blank_after_migrations(planning, draft, pin, count - 1);
        let migration = pin.context.migrations[count - 1];
        if migration_settled(planning, pin, migration) {
            assert(planning.after_migrations(draft, pin, count) == planning.after_migrations(
                draft,
                pin,
                count - 1,
            ));
        }
    }
}

spec fn bound_pins(planning: Planning) -> bool {
    forall|i: int|
        0 <= i < planning.pins().len() ==> held(
            planning.journal.bindings,
            (#[trigger] planning.pins()[i]).context.resource_id,
        ) is Some
}

spec fn content_settled(planning: Planning, pin: ComponentPinView) -> bool {
    &&& planning.observed.schemas.contains(pin.context.target.schema)
    &&& forall|k: int|
        0 <= k < pin.context.migrations.len() ==> migration_settled(
            planning,
            pin,
            #[trigger] pin.context.migrations[k],
        )
}

proof fn blank_after_components(planning: Planning, count: int)
    requires
        0 <= count <= planning.pins().len(),
    ensures
        is_blank(planning.after_components(count)) <==> bound_pins(planning)
            && planning.observed.metadata_exists && forall|i: int|
            0 <= i < count ==> content_settled(planning, #[trigger] planning.pins()[i]),
    decreases count,
{
    if count <= 0 {
        blank_after_bindings(planning, planning.pins().len() as int);
    } else {
        blank_after_components(planning, count - 1);
        let pin = planning.pins()[count - 1];
        let draft = planning.after_components(count - 1);
        blank_after_migrations(
            planning,
            planning.after_schema(draft, pin),
            pin,
            pin.context.migrations.len() as int,
        );
        assert(is_blank(planning.after_schema(draft, pin)) <==> is_blank(draft)
            && planning.observed.schemas.contains(pin.context.target.schema));
        assert(is_blank(planning.after_components(count)) <==> is_blank(draft) && content_settled(
            planning,
            pin,
        ));
    }
}

/// A plan is empty exactly if the target is as desired: the ledger exists, every component is
/// bound with its schema and its migrations in place, and the API is configured.
pub proof fn plans_are_empty_iff_converged(planning: Planning)
    ensures
        (planning.result() matches Ok(plan) && plan.operations.len() == 0) <==> converged(planning),
{
    let total = planning.pins().len() as int;
    blank_after_components(planning, total);
    if converged(planning) {
        assert forall|i: int| 0 <= i < total implies held(
            planning.journal.bindings,
            (#[trigger] planning.pins()[i]).context.resource_id,
        ) is Some by {
            assert(component_settled(planning, planning.pins()[i]));
        }
        assert forall|i: int| 0 <= i < total implies content_settled(
            planning,
            #[trigger] planning.pins()[i],
        ) by {
            assert(component_settled(planning, planning.pins()[i]));
        }
    }
    if is_blank(planning.after_components(total)) {
        assert forall|i: int| 0 <= i < total implies component_settled(
            planning,
            #[trigger] planning.pins()[i],
        ) by {
            assert(content_settled(planning, planning.pins()[i]));
        }
    }
}

// ---------------------------------------------------------------------------
// Refusal
// ---------------------------------------------------------------------------

/// Some applied migration was edited.
pub open spec fn some_migration_mutated(planning: Planning) -> bool {
    exists|i: int, k: int|
        #![trigger planning.pins()[i].context.migrations[k]]
        0 <= i < planning.pins().len() && 0 <= k < planning.pins()[i].context.migrations.len()
            && mutated(planning, planning.pins()[i], planning.pins()[i].context.migrations[k])
}

/// The migration is applied with another checksum than the desired one.
pub open spec fn mutated(
    planning: Planning,
    pin: ComponentPinView,
    migration: MigrationView,
) -> bool {
    planning.observed.checksum(pin.context.resource_id, migration.id) matches Some(checksum)
        && checksum != migration.checksum
}

proof fn complaints_after_bindings(planning: Planning, count: int)
    ensures
        planning.after_bindings(count).diagnostics.len() == 0,
    decreases count,
{
    if count > 0 {
        complaints_after_bindings(planning, count - 1);
    }
}

proof fn complaints_after_migrations(
    planning: Planning,
    draft: DraftView,
    pin: ComponentPinView,
    count: int,
)
    requires
        0 <= count <= pin.context.migrations.len(),
    ensures
        planning.after_migrations(draft, pin, count).diagnostics.len() == 0 <==>
            draft.diagnostics.len() == 0 && forall|k: int|
            0 <= k < count ==> !mutated(planning, pin, #[trigger] pin.context.migrations[k]),
    decreases count,
{
    if count > 0 {
        complaints_after_migrations(planning, draft, pin, count - 1);
    }
}

proof fn complaints_after_components(planning: Planning, count: int)
    requires
        0 <= count <= planning.pins().len(),
    ensures
        planning.after_components(count).diagnostics.len() == 0 <==> forall|i: int, k: int|
            #![trigger planning.pins()[i].context.migrations[k]]
            0 <= i < count && 0 <= k < planning.pins()[i].context.migrations.len() ==> !mutated(
                planning,
                planning.pins()[i],
                planning.pins()[i].context.migrations[k],
            ),
    decreases count,
{
    if count <= 0 {
        complaints_after_bindings(planning, planning.pins().len() as int);
    } else {
        complaints_after_components(planning, count - 1);
        let pin = planning.pins()[count - 1];
        let draft = planning.after_components(count - 1);
        complaints_after_migrations(
            planning,
            planning.after_schema(draft, pin),
            pin,
            pin.context.migrations.len() as int,
        );
    }
}

/// A plan is refused exactly if some applied migration was edited.
pub proof fn plans_are_refused_iff_a_migration_mutated(planning: Planning)
    ensures
        planning.result() is Err <==> some_migration_mutated(planning),
{
    complaints_after_components(planning, planning.pins().len() as int);
}

}
