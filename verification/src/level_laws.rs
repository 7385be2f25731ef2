//! What becomes of the levels that a graph asks for: how they are decoded, accepted, validated,
//! published and released.

use vstd::prelude::*;

use crate::context::ContextErrorView;
use crate::hashing::hex_text;
use crate::hashing::uuid_v5_of;
use crate::journal::BindingView;
use crate::journal::JournalEventView;
use crate::journal::JournalSnapshotView;
use crate::json::byte_array;
use crate::json::json_bytes;
use crate::json::JsonView;
use crate::order::ascending;
use crate::order::held;
use crate::plan::desired_diagnostics;
use crate::plan::foreign_binding;
use crate::plan::pin_diagnostics;
use crate::plan::pins_diagnostics;
use crate::plan::PlanDiagnosticView;
use crate::reconciler::acceptance_with;
use crate::reconciler::retirement_of;
use crate::reconciler::AcceptanceView;
use crate::reconciler::CheckpointView;
use crate::reconciler::ReconcileErrorView;
use crate::reconciler::RetirementView;
use crate::report::publication_identity;
use crate::report::ComponentOutputsView;
use crate::slice::hashes;
use crate::slice::ComponentPinView;
use crate::slice::DesiredSliceView;
use crate::slice::SliceComponentView;
use crate::slice::TargetSliceView;
use crate::slice::UpstreamOutputView;
use crate::text::debug_text;
use crate::text::decimal_text;

verus! {

// ---------------------------------------------------------------------------
// Decoding
// ---------------------------------------------------------------------------

/// The context was read and is inside the boundary.
pub open spec fn usable(component: SliceComponentView) -> bool {
    component.context is Ok && component.context->Ok_0.boundary_complaint() is None
}

/// The components have nothing in common that belongs to one of them alone, and select one target.
pub open spec fn go_together(a: SliceComponentView, b: SliceComponentView) -> bool {
    let left = a.context->Ok_0;
    let right = b.context->Ok_0;
    &&& a.name != b.name
    &&& a.spec_hash != b.spec_hash
    &&& left.resource_id != right.resource_id
    &&& left.target.schema != right.target.schema
    &&& left.target.stack == right.target.stack
    &&& left.target.project == right.target.project
    &&& left.target.database == right.target.database
}

/// Every component is usable, any two go together, and no two upstream outputs come from one
/// producer.
pub open spec fn sound_slice(slice: TargetSliceView) -> bool {
    &&& forall|i: int| 0 <= i < slice.components.len() ==> usable(#[trigger] slice.components[i])
    &&& forall|i: int, j: int|
        0 <= i < j < slice.components.len() ==> go_together(
            #[trigger] slice.components[i],
            #[trigger] slice.components[j],
        )
    &&& forall|i: int, j: int|
        0 <= i < j < slice.upstream_outputs.len() ==> (
        #[trigger] slice.upstream_outputs[i]).component_spec_hash != (
        #[trigger] slice.upstream_outputs[j]).component_spec_hash
}

proof fn sound_slices_raise_no_complaint(slice: TargetSliceView, count: int)
    requires
        sound_slice(slice),
        0 <= count <= slice.components.len(),
    ensures
        slice.complaint_up_to(count) is None,
    decreases count,
{
    if count > 0 {
        sound_slices_raise_no_complaint(slice, count - 1);
        let index = count - 1;
        assert(usable(slice.components[index]));
        assert forall|i: int| 0 <= i < index implies go_together(
            #[trigger] slice.components[i],
            slice.components[index],
        ) by {}
        if index > 0 {
            assert(go_together(slice.components[index - 1], slice.components[index]));
        }
        assert(slice.component_complaint(index) is None);
    }
}

proof fn outputs_are_all_there(slice: TargetSliceView, count: int)
    requires
        0 <= count <= slice.upstream_outputs.len(),
        forall|i: int, j: int|
            0 <= i < j < slice.upstream_outputs.len() ==> (
            #[trigger] slice.upstream_outputs[i]).component_spec_hash != (
            #[trigger] slice.upstream_outputs[j]).component_spec_hash,
    ensures
        slice.outputs_up_to(count).len() == count,
        ascending(hashes(slice.outputs_up_to(count))),
        forall|output: UpstreamOutputView| #[trigger]
            slice.outputs_up_to(count).contains(output) <==> slice.upstream_outputs.take(
                count,
            ).contains(output),
    decreases count,
{
    let all = slice.upstream_outputs;
    if count > 0 {
        outputs_are_all_there(slice, count - 1);
        crate::slice::outputs_have_hashes(slice, count - 1);
        let before = slice.outputs_up_to(count - 1);
        let added = all[count - 1];
        if hashes(before).contains(added.component_spec_hash) {
            let i = choose|i: int|
                0 <= i < count - 1 && (#[trigger] all[i]).component_spec_hash
                    == added.component_spec_hash;
            assert(all[i].component_spec_hash != all[count - 1].component_spec_hash);
        }
        crate::slice::inserted_adds(before, added);
        crate::slice::inserted_keeps_order(before, added);
        assert(all.take(count) =~= all.take(count - 1).push(added));
        assert forall|output: UpstreamOutputView| #[trigger]
            slice.outputs_up_to(count).contains(output) <==> all.take(count).contains(output) by {
            assert(before.contains(output) <==> all.take(count - 1).contains(output));
            if all.take(count - 1).contains(output) {
                let k = all.take(count - 1).index_of(output);
                assert(all.take(count)[k] == output);
            }
            if all.take(count).contains(output) {
                let k = all.take(count).index_of(output);
                if k < count - 1 {
                    assert(all.take(count - 1)[k] == output);
                }
            }
            assert(all.take(count)[count - 1] == added);
        }
    } else {
        assert(all.take(0) =~= Seq::<UpstreamOutputView>::empty());
        assert(hashes(slice.outputs_up_to(0)) =~= Seq::<Seq<u8>>::empty());
    }
}

/// A slice is decoded exactly if it is sound. Its level then has the slice's graph, generation and
/// sequence, and all of the slice's components and upstream outputs, in the order of their hashes.
pub proof fn sound_slices_are_decoded_whole(slice: TargetSliceView)
    ensures
        slice.decoded() is Ok <==> sound_slice(slice),
        slice.decoded() matches Ok(level) ==> {
            &&& level.graph_id == slice.graph_id
            &&& level.generation == slice.generation
            &&& level.sequence == slice.sequence
            &&& ascending(hashes(level.components))
            &&& level.components.len() == slice.components.len()
            &&& forall|i: int|
                0 <= i < slice.components.len() ==> level.components.contains(
                    ComponentPinView {
                        spec_hash: (#[trigger] slice.components[i]).spec_hash,
                        name: slice.components[i].name,
                        context: slice.components[i].context->Ok_0,
                    },
                )
            &&& ascending(hashes(level.upstream_outputs))
            &&& level.upstream_outputs.len() == slice.upstream_outputs.len()
            &&& forall|output: UpstreamOutputView| #[trigger]
                level.upstream_outputs.contains(output) <==> slice.upstream_outputs.contains(output)
        },
{
    let total = slice.components.len() as int;
    let outputs = slice.upstream_outputs;
    if slice.decoded() is Ok {
        let level = slice.decoded()->Ok_0;
        crate::slice::decoded_slices_are_sound(slice);
        assert forall|i: int| 0 <= i < total implies usable(#[trigger] slice.components[i]) by {
            crate::slice::sound_so_far(slice, total, i);
        }
        assert forall|i: int, j: int| 0 <= i < j < total implies go_together(
            #[trigger] slice.components[i],
            #[trigger] slice.components[j],
        ) by {
            assert(slice.components[i].coordinates() == slice.components[j].coordinates());
        }
        assert forall|i: int, j: int| 0 <= i < j < outputs.len() implies (
        #[trigger] outputs[i]).component_spec_hash != (
        #[trigger] outputs[j]).component_spec_hash by {
            assert(hashes(outputs)[i] != hashes(outputs)[j]);
        }
        outputs_are_all_there(slice, outputs.len() as int);
        assert(outputs.take(outputs.len() as int) =~= outputs);
        assert forall|i: int| 0 <= i < total implies level.components.contains(
            ComponentPinView {
                spec_hash: (#[trigger] slice.components[i]).spec_hash,
                name: slice.components[i].name,
                context: slice.components[i].context->Ok_0,
            },
        ) by {
            assert(level.components.contains(slice.components[i].pin()));
        }
    }
    if sound_slice(slice) {
        sound_slices_raise_no_complaint(slice, total);
        assert forall|i: int, j: int|
            0 <= i < hashes(outputs).len() && 0 <= j < hashes(outputs).len() && i
                != j implies hashes(outputs)[i] != hashes(outputs)[j] by {
            if i < j {
                assert(outputs[i].component_spec_hash != outputs[j].component_spec_hash);
            } else {
                assert(outputs[j].component_spec_hash != outputs[i].component_spec_hash);
            }
        }
    }
}

/// The message says what keeps the component at the position from going with those before it.
pub open spec fn tells_misfit(slice: TargetSliceView, at: int, message: Seq<char>) -> bool {
    let component = slice.components[at];
    let context = component.context->Ok_0;
    match component.context {
        Err(detail) => message == "component "@ + debug_text(component.name) + ": "@ + (
        "invalid "@ + "henosis.dev/supabase-component-context/v1"@ + " JSON: "@ + detail),
        Ok(_) => {
            ||| context.boundary_complaint() matches Some(complaint) && message == "component "@
                + debug_text(component.name) + ": "@ + ("invalid "@
                + "henosis.dev/supabase-component-context/v1"@ + ": "@ + complaint)
            ||| message == "component name "@ + debug_text(component.name) + " is duplicated"@ && (
            exists|i: int| 0 <= i < at && (#[trigger] slice.components[i]).name == component.name)
            ||| message == "resourceId "@ + debug_text(context.resource_id) + " is duplicated"@ && (
            exists|i: int|
                0 <= i < at && (#[trigger] slice.components[i]).context->Ok_0.resource_id
                    == context.resource_id)
            ||| message == "target schema "@ + debug_text(context.target.schema)
                + " is duplicated"@ && (exists|i: int|
                0 <= i < at && (#[trigger] slice.components[i]).context->Ok_0.target.schema
                    == context.target.schema)
            ||| message
                == "every component in a Supabase slice must select the same stack/project/database"@
                && at > 0
            ||| message == "component hash is duplicated"@ && (exists|i: int|
                0 <= i < at && (#[trigger] slice.components[i]).spec_hash == component.spec_hash)
        },
    }
}

proof fn first_misfits_are_told(slice: TargetSliceView, count: int)
    requires
        0 <= count <= slice.components.len(),
        slice.complaint_up_to(count) is Some,
    ensures
        exists|at: int|
            0 <= at < count && #[trigger] tells_misfit(
                slice,
                at,
                slice.complaint_up_to(count)->0,
            ) && slice.complaint_up_to(at) is None,
    decreases count,
{
    if slice.complaint_up_to(count - 1) is Some {
        first_misfits_are_told(slice, count - 1);
        let at = choose|at: int|
            0 <= at < count - 1 && #[trigger] tells_misfit(
                slice,
                at,
                slice.complaint_up_to(count - 1)->0,
            ) && slice.complaint_up_to(at) is None;
        assert(tells_misfit(slice, at, slice.complaint_up_to(count)->0));
    } else {
        let at = count - 1;
        let message = slice.complaint_up_to(count)->0;
        let component = slice.components[at];
        assert(slice.component_complaint(at) == Some(message));
        if component.context_error() is Some {
        } else if slice.name_taken(at) {
        } else if slice.resource_taken(at) {
            let i = choose|i: int|
                0 <= i < at && (#[trigger] slice.components[i]).pin().context.resource_id
                    == component.pin().context.resource_id;
            assert(slice.components[i].context->Ok_0.resource_id
                == component.context->Ok_0.resource_id);
        } else if slice.schema_taken(at) {
            let i = choose|i: int|
                0 <= i < at && (#[trigger] slice.components[i]).pin().context.target.schema
                    == component.pin().context.target.schema;
            assert(slice.components[i].context->Ok_0.target.schema
                == component.context->Ok_0.target.schema);
        } else {
        }
        assert(tells_misfit(slice, at, message));
    }
}

/// A slice that is not decoded names the first component that does not fit, or else the outputs.
pub proof fn misfits_are_named(slice: TargetSliceView)
    ensures
        slice.decoded() matches Err(error) ==> error.message
            == "upstream output hash is duplicated"@ || exists|at: int|
            0 <= at < slice.components.len() && #[trigger] tells_misfit(slice, at, error.message),
{
    let total = slice.components.len() as int;
    if slice.complaint_up_to(total) is Some {
        first_misfits_are_told(slice, total);
        let at = choose|at: int|
            0 <= at < total && #[trigger] tells_misfit(
                slice,
                at,
                slice.complaint_up_to(total)->0,
            ) && slice.complaint_up_to(at) is None;
        assert(tells_misfit(slice, at, slice.decoded()->Err_0.message));
    }
}

// ---------------------------------------------------------------------------
// Accepting and retiring
// ---------------------------------------------------------------------------

/// The first level of a graph is accepted. After it a level is accepted exactly if the graph is not
/// retired, the sequence is a later one and the generation is no earlier one. A level at the retained
/// sequence is retained if it is the same and conflicts if it is not, and one at an earlier sequence
/// is superseded.
pub proof fn levels_are_accepted_in_sequence(
    desired: DesiredSliceView,
    digest: Seq<u8>,
    current: Option<CheckpointView>,
)
    ensures
        match acceptance_with(desired, digest, current) {
            AcceptanceView::Accepted(next) => {
                &&& next.graph_id == desired.graph_id
                &&& next.generation == desired.generation
                &&& next.sequence == desired.sequence
                &&& next.desired_digest == digest
                &&& next.current_plan is None
                &&& next.last_report is None
                &&& !next.retired
                &&& current matches Some(checkpoint) ==> !checkpoint.retired && desired.sequence
                    > checkpoint.sequence && desired.generation >= checkpoint.generation
            },
            AcceptanceView::Retained(sequence) => current is Some && !current->0.retired
                && desired.sequence == current->0.sequence && digest == current->0.desired_digest
                && sequence == current->0.sequence,
            AcceptanceView::Superseded(sequence) => current is Some && !current->0.retired
                && desired.sequence < current->0.sequence && sequence == current->0.sequence,
            AcceptanceView::Refused(error) => current is Some && match error {
                ReconcileErrorView::Retired => current->0.retired,
                ReconcileErrorView::SequenceConflict(sequence) => !current->0.retired
                    && desired.sequence == current->0.sequence && digest
                    != current->0.desired_digest && sequence == desired.sequence,
                ReconcileErrorView::State(detail) => !current->0.retired && desired.sequence
                    > current->0.sequence && desired.generation < current->0.generation && detail
                    == "slice generation "@ + decimal_text(desired.generation as nat)
                    + " precedes retained generation "@ + decimal_text(
                    current->0.generation as nat,
                ),
                _ => false,
            },
        },
{
}

/// A graph is released exactly if it is retained at the generation, at this sequence or an earlier
/// one, and was not released before. What is kept of it is its level, without its plan and report.
pub proof fn graphs_are_released_once(
    graph_id: Seq<u8>,
    current: Option<CheckpointView>,
    generation: u64,
    sequence: u64,
)
    ensures
        ({
            let known = current is Some && current->0.generation == generation
                && current->0.sequence <= sequence;
            match retirement_of(graph_id, current, generation, sequence) {
                RetirementView::Release { event, checkpoint } => {
                    &&& known
                    &&& !current->0.retired
                    &&& event == (JournalEventView::GraphReleased { graph_id: hex_text(graph_id) })
                    &&& checkpoint.retired
                    &&& checkpoint.current_plan is None
                    &&& checkpoint.last_report is None
                    &&& checkpoint.graph_id == current->0.graph_id
                    &&& checkpoint.generation == current->0.generation
                    &&& checkpoint.sequence == current->0.sequence
                    &&& checkpoint.desired_digest == current->0.desired_digest
                },
                RetirementView::Done(answer) => known && current->0.retired && answer == generation,
                RetirementView::Refused(error) => !known && error == if current is None {
                    ReconcileErrorView::State("cannot retire unknown graph"@)
                } else {
                    ReconcileErrorView::State("retire identity does not match retained level"@)
                },
            }
        }),
{
}

// ---------------------------------------------------------------------------
// Validating
// ---------------------------------------------------------------------------

/// The binding is the first of another graph.
pub open spec fn first_foreign(
    bindings: Seq<(Seq<char>, BindingView)>,
    graph: Seq<char>,
    at: int,
) -> bool {
    &&& 0 <= at < bindings.len()
    &&& bindings[at].1.graph_id != graph
    &&& forall|i: int| 0 <= i < at ==> (#[trigger] bindings[i]).1.graph_id == graph
}

/// The complaint names the graph that owns the target, and the resource through which it does.
pub open spec fn tells_owner(
    desired: DesiredSliceView,
    binding: BindingView,
    complaint: PlanDiagnosticView,
) -> bool {
    &&& complaint.code == "supabase.plan.target-owned"@
    &&& complaint.message == "local Supabase target is already owned by graph "@
        + binding.graph_id + " through resource "@ + debug_text(binding.resource_id)
    &&& complaint.pointer == "/target"@
    &&& complaint.help
        == "Retire/release the owning graph before assigning the exclusive v1 local target to another graph."@
    &&& if desired.components.len() > 0 {
        complaint.component_spec_hash == desired.components[0].spec_hash
    } else {
        complaint.component_spec_hash.len() == 32 && forall|i: int|
            0 <= i < 32 ==> #[trigger] complaint.component_spec_hash[i] == 0u8
    }
}

/// The resource of the component is bound, but not as the component wants it.
pub open spec fn bound_otherwise(
    journal: JournalSnapshotView,
    graph: Seq<char>,
    pin: ComponentPinView,
) -> bool {
    match held(journal.bindings, pin.context.resource_id) {
        Some(binding) => !(binding.graph_id == graph && binding.project
            == pin.context.target.project && binding.database == pin.context.target.database
            && binding.schema == pin.context.target.schema),
        None => false,
    }
}

/// The complaint names what the resource is bound to.
pub open spec fn tells_conflict(
    binding: BindingView,
    pin: ComponentPinView,
    complaint: PlanDiagnosticView,
) -> bool {
    &&& complaint.component_spec_hash == pin.spec_hash
    &&& complaint.code == "supabase.plan.binding-conflict"@
    &&& complaint.message == "resourceId "@ + debug_text(binding.resource_id)
        + " is already bound to "@ + binding.project + "/"@ + binding.database + "/"@
        + binding.schema + " for graph "@ + binding.graph_id
    &&& complaint.pointer == "/resourceId"@
    &&& complaint.help
        == "Keep resourceId and target schema stable across revisions; ownership moves require an explicit future handover operation."@
}

/// The complaints are the issues of the component's context under its hash, and then its conflict, if
/// its resource is bound otherwise.
pub open spec fn tells_component(
    journal: JournalSnapshotView,
    graph: Seq<char>,
    pin: ComponentPinView,
    complaints: Seq<PlanDiagnosticView>,
) -> bool {
    let issues = pin.context.issues();
    let conflict = bound_otherwise(journal, graph, pin);
    &&& complaints.len() == issues.len() + if conflict {
        1int
    } else {
        0int
    }
    &&& forall|i: int|
        0 <= i < issues.len() ==> #[trigger] complaints[i] == (PlanDiagnosticView {
            component_spec_hash: pin.spec_hash,
            code: issues[i].code,
            message: issues[i].message,
            pointer: issues[i].pointer,
            help: issues[i].help,
        })
    &&& conflict ==> tells_conflict(
        held(journal.bindings, pin.context.resource_id)->0,
        pin,
        complaints.last(),
    )
}

/// The complaints one after the other.
pub open spec fn all_of(groups: Seq<Seq<PlanDiagnosticView>>) -> Seq<PlanDiagnosticView>
    decreases groups.len(),
{
    if groups.len() == 0 {
        seq![]
    } else {
        all_of(groups.drop_last()) + groups.last()
    }
}

proof fn foreign_bindings_are_first(bindings: Seq<(Seq<char>, BindingView)>, graph: Seq<char>)
    ensures
        match foreign_binding(bindings, graph) {
            Some(binding) => exists|at: int| #[trigger]
                first_foreign(bindings, graph, at) && bindings[at].1 == binding,
            None => forall|i: int|
                0 <= i < bindings.len() ==> (#[trigger] bindings[i]).1.graph_id == graph,
        },
    decreases bindings.len(),
{
    if bindings.len() > 0 {
        let rest = bindings.drop_first();
        foreign_bindings_are_first(rest, graph);
        if bindings[0].1.graph_id != graph {
            assert(first_foreign(bindings, graph, 0));
        } else {
            match foreign_binding(rest, graph) {
                Some(binding) => {
                    let at = choose|at: int| #[trigger]
                        first_foreign(rest, graph, at) && rest[at].1 == binding;
                    assert(bindings[at + 1] == rest[at]);
                    assert forall|i: int| 0 <= i < at + 1 implies (
                    #[trigger] bindings[i]).1.graph_id == graph by {
                        if i > 0 {
                            assert(rest[i - 1] == bindings[i]);
                        }
                    }
                    assert(first_foreign(bindings, graph, at + 1));
                },
                None => {
                    assert forall|i: int| 0 <= i < bindings.len() implies (
                    #[trigger] bindings[i]).1.graph_id == graph by {
                        if i > 0 {
                            assert(rest[i - 1] == bindings[i]);
                        }
                    }
                },
            }
        }
    }
}

proof fn components_are_told(
    desired: DesiredSliceView,
    journal: JournalSnapshotView,
    graph: Seq<char>,
    count: int,
) -> (groups: Seq<Seq<PlanDiagnosticView>>)
    requires
        0 <= count <= desired.components.len(),
    ensures
        groups.len() == count,
        pins_diagnostics(desired.components, journal, graph, count) == all_of(groups),
        forall|i: int|
            0 <= i < count ==> tells_component(
                journal,
                graph,
                desired.components[i],
                #[trigger] groups[i],
            ),
    decreases count,
{
    if count == 0 {
        seq![]
    } else {
        let before = components_are_told(desired, journal, graph, count - 1);
        let pin = desired.components[count - 1];
        let group = pin_diagnostics(pin, journal, graph);
        let groups = before.push(group);
        assert(groups.drop_last() =~= before);
        assert(tells_component(journal, graph, pin, group));
        groups
    }
}

/// A level is refused with the owner of the target, if another graph owns it, and then, component by
/// component, with every issue of the context and with the conflict of its binding.
pub proof fn validation_names_every_problem(desired: DesiredSliceView, journal: JournalSnapshotView)
    ensures
        exists|owner: Seq<PlanDiagnosticView>, groups: Seq<Seq<PlanDiagnosticView>>|
            {
                let graph = hex_text(desired.graph_id);
                &&& desired_diagnostics(desired, journal) == owner + #[trigger] all_of(groups)
                &&& groups.len() == desired.components.len()
                &&& forall|i: int|
                    0 <= i < groups.len() ==> tells_component(
                        journal,
                        graph,
                        desired.components[i],
                        #[trigger] groups[i],
                    )
                &&& #[trigger] owner.len() <= 1
                &&& owner.len() == 0 <==> forall|i: int|
                    0 <= i < journal.bindings.len() ==> (
                    #[trigger] journal.bindings[i]).1.graph_id == graph
                &&& owner.len() == 1 ==> exists|at: int| #[trigger]
                    first_foreign(journal.bindings, graph, at) && tells_owner(
                        desired,
                        journal.bindings[at].1,
                        owner[0],
                    )
            },
{
    let graph = hex_text(desired.graph_id);
    let groups = components_are_told(desired, journal, graph, desired.components.len() as int);
    foreign_bindings_are_first(journal.bindings, graph);
    let owner = match foreign_binding(journal.bindings, graph) {
        Some(binding) => seq![crate::plan::owned_diagnostic(desired, binding)],
        None => seq![],
    };
    assert(desired_diagnostics(desired, journal) == owner + all_of(groups));
    match foreign_binding(journal.bindings, graph) {
        Some(binding) => {
            let at = choose|at: int| #[trigger]
                first_foreign(journal.bindings, graph, at) && journal.bindings[at].1 == binding;
            assert(tells_owner(desired, journal.bindings[at].1, owner[0]));
            assert(journal.bindings[at].1.graph_id != graph);
        },
        None => {},
    }
    assert(owner.len() <= 1);
}

// ---------------------------------------------------------------------------
// Publishing
// ---------------------------------------------------------------------------

/// Published outputs have an identity exactly if there are any. It is the name-based identity of
/// every producer's hash and values, in order.
pub proof fn publications_are_identified_by_their_outputs(outputs: Seq<ComponentOutputsView>)
    ensures
        publication_identity(outputs) is None <==> outputs.len() == 0,
        outputs.len() > 0 ==> exists|items: Seq<JsonView>|
            {
                &&& items.len() == outputs.len()
                &&& forall|i: int|
                    0 <= i < items.len() ==> #[trigger] items[i] == JsonView::Array(
                        seq![
                            byte_array(outputs[i].component_spec_hash),
                            byte_array(outputs[i].values_json),
                        ],
                    )
                &&& publication_identity(outputs) == Some(
                    uuid_v5_of(
                        seq![
                            0xbcu8,
                            0xd8,
                            0x7a,
                            0x63,
                            0xca,
                            0xd4,
                            0x56,
                            0x14,
                            0x88,
                            0x26,
                            0x38,
                            0xdb,
                            0x23,
                            0x78,
                            0xe9,
                            0x27,
                        ],
                        #[trigger] json_bytes(JsonView::Array(items)),
                    ),
                )
            },
{
    let items = crate::report::publication_document(outputs)->Array_0;
    assert(JsonView::Array(items) == crate::report::publication_document(outputs));
    assert(json_bytes(JsonView::Array(items)) == json_bytes(
        crate::report::publication_document(outputs),
    ));
    assert(items.len() == outputs.len());
}

/// Different outputs are published under different documents.
pub proof fn publications_tell_outputs_apart(
    a: Seq<ComponentOutputsView>,
    b: Seq<ComponentOutputsView>,
)
    requires
        crate::report::publication_document(a) == crate::report::publication_document(b),
    ensures
        a == b,
{
    let left = crate::report::publication_document(a)->Array_0;
    let right = crate::report::publication_document(b)->Array_0;
    assert(left.len() == a.len() && right.len() == b.len());
    assert forall|i: int| 0 <= i < a.len() implies a[i] == b[i] by {
        assert(left[i] == right[i]);
        let ours = left[i]->Array_0;
        let theirs = right[i]->Array_0;
        assert(ours == seq![
            byte_array(a[i].component_spec_hash),
            byte_array(a[i].values_json),
        ]);
        assert(theirs == seq![
            byte_array(b[i].component_spec_hash),
            byte_array(b[i].values_json),
        ]);
        assert(ours[0] == theirs[0] && ours[1] == theirs[1]);
        crate::identity_laws::byte_arrays_tell_apart(
            a[i].component_spec_hash,
            b[i].component_spec_hash,
        );
        crate::identity_laws::byte_arrays_tell_apart(a[i].values_json, b[i].values_json);
    }
    assert(a =~= b);
}

/// Why a context is refused, in words.
pub proof fn refused_contexts_say_why(detail: Seq<char>)
    ensures
        ContextErrorView::Json(detail).message() == "invalid "@
            + "henosis.dev/supabase-component-context/v1"@ + " JSON: "@ + detail,
        ContextErrorView::Invalid(detail).message() == "invalid "@
            + "henosis.dev/supabase-component-context/v1"@ + ": "@ + detail,
{
}

/// Failures at the service's boundary, in words.
pub proof fn failures_are_told_in_words(error: ReconcileErrorView)
    ensures
        error.message() == match error {
            ReconcileErrorView::Invalid(invalid) => "invalid slice: "@ + invalid.message,
            ReconcileErrorView::Retired => "graph is retired"@,
            ReconcileErrorView::SequenceConflict(sequence) => "slice sequence "@ + decimal_text(
                sequence as nat,
            ) + " was already accepted with different contents"@,
            ReconcileErrorView::State(detail) => "connector state failure: "@ + detail,
            ReconcileErrorView::Report(report) => "core callback failed: "@ + report.detail,
        },
{
}

}
