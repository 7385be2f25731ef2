//! What a journal says of operations and bindings, and how its events are stored.

use vstd::prelude::*;

use crate::journal::envelope_of;
use crate::journal::BindingView;
use crate::journal::JournalEventView;
use crate::journal::JournalFaultView;
use crate::journal::JournalReaderView;
use crate::journal::JournalRecordView;
use crate::journal::JournalSnapshotView;
use crate::journal::OperationStateView;
use crate::json::object_of;
use crate::json::JsonView;
use crate::order::held;
use crate::text::debug_text;
use crate::text::decimal_text;

verus! {

// ---------------------------------------------------------------------------
// Receipts
// ---------------------------------------------------------------------------

/// The event is a receipt of the operation, which leaves it in the state.
pub open spec fn leaves(
    event: JournalEventView,
    operation_id: Seq<char>,
    state: OperationStateView,
) -> bool {
    match event {
        JournalEventView::OperationStarted { plan_id, operation_id: id, .. } => id == operation_id
            && state == (OperationStateView::Started { plan_id }),
        JournalEventView::OperationSucceeded { plan_id, operation_id: id, observed_digest, .. } =>
            id == operation_id && state == (OperationStateView::Succeeded {
                plan_id,
                observed_digest,
            }),
        JournalEventView::OperationFailed { plan_id, operation_id: id, code, detail } => id
            == operation_id && state == (OperationStateView::Failed { plan_id, code, detail }),
        _ => false,
    }
}

/// The event is no receipt of the operation.
pub open spec fn ignores(event: JournalEventView, operation_id: Seq<char>) -> bool {
    forall|state: OperationStateView| !#[trigger] leaves(event, operation_id, state)
}

/// The journal after the events.
pub open spec fn journal_of(tail: u64, events: Seq<JournalEventView>) -> JournalSnapshotView {
    JournalSnapshotView::at(tail).after_all(events)
}

proof fn receipts_are_put(
    tail: u64,
    events: Seq<JournalEventView>,
    operation_id: Seq<char>,
)
    requires
        events.len() > 0,
    ensures
        forall|state: OperationStateView| #[trigger]
            leaves(events.last(), operation_id, state) ==> held(
                journal_of(tail, events).operations,
                operation_id,
            ) == Some(state),
        ignores(events.last(), operation_id) ==> held(
            journal_of(tail, events).operations,
            operation_id,
        ) == held(journal_of(tail, events.drop_last()).operations, operation_id),
        journal_of(tail, events).tail == journal_of(tail, events.drop_last()).tail,
{
    let facts = journal_of(tail, events.drop_last());
    crate::journal::journals_are_well_formed(tail, events.drop_last());
    match events.last() {
        JournalEventView::OperationStarted { plan_id, operation_id: id, .. } => {
            let state = OperationStateView::Started { plan_id };
            crate::order::put_holds(facts.operations, id, state);
            assert(leaves(events.last(), id, state));
        },
        JournalEventView::OperationSucceeded { plan_id, operation_id: id, observed_digest, .. } => {
            let state = OperationStateView::Succeeded { plan_id, observed_digest };
            crate::order::put_holds(facts.operations, id, state);
            assert(leaves(events.last(), id, state));
        },
        JournalEventView::OperationFailed { plan_id, operation_id: id, code, detail } => {
            let state = OperationStateView::Failed { plan_id, code, detail };
            crate::order::put_holds(facts.operations, id, state);
            assert(leaves(events.last(), id, state));
        },
        _ => {},
    }
}

/// The last receipt of an operation decides what the journal says of it, whatever came before it and
/// whatever came after it for other operations.
pub proof fn the_last_receipt_decides(
    tail: u64,
    events: Seq<JournalEventView>,
    operation_id: Seq<char>,
    at: int,
    state: OperationStateView,
)
    requires
        0 <= at < events.len(),
        leaves(events[at], operation_id, state),
        forall|i: int| at < i < events.len() ==> ignores(#[trigger] events[i], operation_id),
    ensures
        held(journal_of(tail, events).operations, operation_id) == Some(state),
    decreases events.len(),
{
    receipts_are_put(tail, events, operation_id);
    if at < events.len() - 1 {
        let before = events.drop_last();
        assert(ignores(events[events.len() - 1], operation_id));
        assert forall|i: int| at < i < before.len() implies ignores(
            #[trigger] before[i],
            operation_id,
        ) by {
            assert(before[i] == events[i]);
        }
        the_last_receipt_decides(tail, before, operation_id, at, state);
    }
}

/// A journal without a receipt of an operation knows nothing of it.
pub proof fn operations_without_receipts_are_unknown(
    tail: u64,
    events: Seq<JournalEventView>,
    operation_id: Seq<char>,
)
    requires
        forall|i: int| 0 <= i < events.len() ==> ignores(#[trigger] events[i], operation_id),
    ensures
        held(journal_of(tail, events).operations, operation_id) is None,
        journal_of(tail, events).tail == tail,
    decreases events.len(),
{
    if events.len() > 0 {
        let before = events.drop_last();
        receipts_are_put(tail, events, operation_id);
        assert(ignores(events[events.len() - 1], operation_id));
        assert forall|i: int| 0 <= i < before.len() implies ignores(
            #[trigger] before[i],
            operation_id,
        ) by {
            assert(before[i] == events[i]);
        }
        operations_without_receipts_are_unknown(tail, before, operation_id);
    }
}

/// Folding events leaves the tail alone.
pub proof fn folding_keeps_the_tail(tail: u64, events: Seq<JournalEventView>)
    ensures
        journal_of(tail, events).tail == tail,
    decreases events.len(),
{
    if events.len() > 0 {
        folding_keeps_the_tail(tail, events.drop_last());
    }
}

// ---------------------------------------------------------------------------
// Bindings
// ---------------------------------------------------------------------------

/// The event binds the resource.
pub open spec fn binds(event: JournalEventView, resource_id: Seq<char>) -> bool {
    match event {
        JournalEventView::BindingEstablished { binding } => binding.resource_id == resource_id,
        _ => false,
    }
}

proof fn bindings_are_put(tail: u64, events: Seq<JournalEventView>, resource_id: Seq<char>)
    requires
        events.len() > 0,
    ensures
        held(journal_of(tail, events).bindings, resource_id) == match events.last() {
            JournalEventView::BindingEstablished { binding } => if binding.resource_id
                == resource_id {
                Some(binding)
            } else {
                held(journal_of(tail, events.drop_last()).bindings, resource_id)
            },
            JournalEventView::GraphReleased { graph_id } => match held(
                journal_of(tail, events.drop_last()).bindings,
                resource_id,
            ) {
                Some(binding) => if binding.graph_id == graph_id {
                    None
                } else {
                    Some(binding)
                },
                None => None,
            },
            _ => held(journal_of(tail, events.drop_last()).bindings, resource_id),
        },
{
    crate::journal::journal_holds_last_binding(tail, events, resource_id);
    crate::journal::journal_holds_last_binding(tail, events.drop_last(), resource_id);
}

/// A resource is bound as it was bound last, unless that binding's graph was released afterwards.
pub proof fn the_last_binding_decides(
    tail: u64,
    events: Seq<JournalEventView>,
    binding: BindingView,
    at: int,
)
    requires
        0 <= at < events.len(),
        events[at] == (JournalEventView::BindingEstablished { binding }),
        forall|i: int| at < i < events.len() ==> !binds(#[trigger] events[i], binding.resource_id),
    ensures
        held(journal_of(tail, events).bindings, binding.resource_id) == if exists|i: int|
            at < i < events.len() && #[trigger] events[i] == (JournalEventView::GraphReleased {
                graph_id: binding.graph_id,
            }) {
            None
        } else {
            Some(binding)
        },
    decreases events.len(),
{
    bindings_are_put(tail, events, binding.resource_id);
    if at < events.len() - 1 {
        let before = events.drop_last();
        let last = events.len() - 1;
        assert(!binds(events[last], binding.resource_id));
        assert forall|i: int| at < i < before.len() implies !binds(
            #[trigger] before[i],
            binding.resource_id,
        ) by {
            assert(before[i] == events[i]);
        }
        the_last_binding_decides(tail, before, binding, at);
        let released = JournalEventView::GraphReleased { graph_id: binding.graph_id };
        if exists|i: int| at < i < before.len() && #[trigger] before[i] == released {
            let i = choose|i: int| at < i < before.len() && #[trigger] before[i] == released;
            assert(events[i] == released);
        } else if exists|i: int| at < i < events.len() && #[trigger] events[i] == released {
            let i = choose|i: int| at < i < events.len() && #[trigger] events[i] == released;
            if i < last {
                assert(before[i] == released);
            }
        }
    }
}

/// A resource that was never bound is not bound.
pub proof fn resources_without_bindings_are_unbound(
    tail: u64,
    events: Seq<JournalEventView>,
    resource_id: Seq<char>,
)
    requires
        forall|i: int| 0 <= i < events.len() ==> !binds(#[trigger] events[i], resource_id),
    ensures
        held(journal_of(tail, events).bindings, resource_id) is None,
    decreases events.len(),
{
    if events.len() > 0 {
        let before = events.drop_last();
        bindings_are_put(tail, events, resource_id);
        assert(!binds(events[events.len() - 1], resource_id));
        assert forall|i: int| 0 <= i < before.len() implies !binds(
            #[trigger] before[i],
            resource_id,
        ) by {
            assert(before[i] == events[i]);
        }
        resources_without_bindings_are_unbound(tail, before, resource_id);
    }
}

// ---------------------------------------------------------------------------
// Reading
// ---------------------------------------------------------------------------

/// The record holds the event in an envelope of the current version.
pub open spec fn holds(record: JournalRecordView, event: JournalEventView) -> bool {
    record.envelope is Ok && record.envelope->Ok_0.api_version
        == "henosis.dev/supabase-operation-journal/v1"@ && record.envelope->Ok_0.event == event
}

/// The record holds no event that can be read.
pub open spec fn unreadable(record: JournalRecordView) -> bool {
    forall|event: JournalEventView| !#[trigger] holds(record, event)
}

proof fn records_are_read(reader: JournalReaderView, record: JournalRecordView)
    ensures
        reader.after_record(record) is Ok <==> !unreadable(record),
        forall|event: JournalEventView| #[trigger]
            holds(record, event) ==> reader.after_record(record) is Ok && reader.after_record(
                record,
            )->Ok_0.snapshot == reader.snapshot.after(event),
        reader.after_record(record) matches Ok(next) ==> next.next == if record.seq_num
            == u64::MAX {
            u64::MAX
        } else {
            (record.seq_num + 1) as u64
        },
        reader.after_record(record) matches Err(message) ==> message == match record.envelope {
            Err(error) => "invalid operation journal record at "@ + decimal_text(
                record.seq_num as nat,
            ) + ": "@ + error,
            Ok(envelope) => "unsupported operation journal apiVersion "@ + debug_text(
                envelope.api_version,
            ) + " at "@ + decimal_text(record.seq_num as nat),
        },
{
    if record.envelope is Ok {
        let event = record.envelope->Ok_0.event;
        assert(reader.after_record(record) is Ok ==> holds(record, event));
    }
}

/// Reading stops at the first record that cannot be read, and names it. Otherwise every event is
/// folded, and reading goes on behind the last record.
pub proof fn reading_stops_at_the_first_unreadable_record(
    tail: u64,
    next: u64,
    records: Seq<JournalRecordView>,
)
    ensures
        ({
            let reader = JournalReaderView { snapshot: JournalSnapshotView::at(tail), next };
            match reader.after_records(records) {
                Ok(done) => {
                    &&& forall|i: int|
                        0 <= i < records.len() ==> !unreadable(#[trigger] records[i])
                    &&& done.snapshot == journal_of(
                        tail,
                        Seq::new(records.len(), |i: int| records[i].envelope->Ok_0.event),
                    )
                    &&& records.len() > 0 && records.last().seq_num < u64::MAX ==> done.next
                        == records.last().seq_num + 1
                    &&& records.len() == 0 ==> done.next == next
                },
                Err(message) => exists|at: int|
                    {
                        &&& 0 <= at < records.len()
                        &&& unreadable(#[trigger] records[at])
                        &&& forall|i: int| 0 <= i < at ==> !unreadable(#[trigger] records[i])
                        &&& message == match records[at].envelope {
                            Err(error) => "invalid operation journal record at "@ + decimal_text(
                                records[at].seq_num as nat,
                            ) + ": "@ + error,
                            Ok(envelope) => "unsupported operation journal apiVersion "@
                                + debug_text(envelope.api_version) + " at "@ + decimal_text(
                                records[at].seq_num as nat,
                            ),
                        }
                    },
            }
        }),
    decreases records.len(),
{
    let reader = JournalReaderView { snapshot: JournalSnapshotView::at(tail), next };
    let events = Seq::new(records.len(), |i: int| records[i].envelope->Ok_0.event);
    if records.len() == 0 {
        assert(events =~= Seq::<JournalEventView>::empty());
    } else {
        let before = records.drop_last();
        let last = records.len() - 1;
        reading_stops_at_the_first_unreadable_record(tail, next, before);
        match reader.after_records(before) {
            Ok(done) => {
                records_are_read(done, records.last());
                assert(events.drop_last() =~= Seq::new(
                    before.len(),
                    |i: int| before[i].envelope->Ok_0.event,
                ));
                assert forall|i: int| 0 <= i < last implies !unreadable(#[trigger] records[i]) by {
                    assert(before[i] == records[i]);
                }
                assert(records[last] == records.last());
                if reader.after_records(records) is Ok {
                    let event = records.last().envelope->Ok_0.event;
                    assert(holds(records.last(), event));
                }
            },
            Err(message) => {
                let at = choose|at: int|
                    {
                        &&& 0 <= at < before.len()
                        &&& unreadable(#[trigger] before[at])
                        &&& forall|i: int| 0 <= i < at ==> !unreadable(#[trigger] before[i])
                        &&& message == match before[at].envelope {
                            Err(error) => "invalid operation journal record at "@ + decimal_text(
                                before[at].seq_num as nat,
                            ) + ": "@ + error,
                            Ok(envelope) => "unsupported operation journal apiVersion "@
                                + debug_text(envelope.api_version) + " at "@ + decimal_text(
                                before[at].seq_num as nat,
                            ),
                        }
                    };
                assert(records[at] == before[at]);
                assert forall|i: int| 0 <= i < at implies !unreadable(#[trigger] records[i]) by {
                    assert(before[i] == records[i]);
                }
            },
        }
    }
}

/// A batch before the tail that holds nothing is an error; any other batch is read record by record.
pub proof fn empty_batches_are_errors(reader: JournalReaderView, batch: Seq<JournalRecordView>)
    ensures
        reader.after_batch(batch) == if batch.len() == 0 {
            Err::<JournalReaderView, Seq<char>>(
                "empty S2 journal batch before tail "@ + decimal_text(reader.snapshot.tail as nat)
                    + " at "@ + decimal_text(reader.next as nat),
            )
        } else {
            reader.after_records(batch)
        },
{
}

// ---------------------------------------------------------------------------
// Storing
// ---------------------------------------------------------------------------

/// An event is stored whole, under its kind, in an envelope of the current version with the event's
/// identity.
pub proof fn events_are_stored_whole(event_id: Seq<char>, event: JournalEventView)
    ensures
        envelope_of(event_id, event).document() == object_of(
            seq![
                ("apiVersion"@, JsonView::Text("henosis.dev/supabase-operation-journal/v1"@)),
                ("eventId"@, JsonView::Text(event_id)),
                ("event"@, event.document()),
            ],
        ),
        event.document() == object_of(
            match event {
                JournalEventView::PlanCreated {
                    plan_id,
                    graph_id,
                    generation,
                    slice_sequence,
                    desired_digest,
                    observed_digest,
                } => seq![
                    ("kind"@, JsonView::Text("planCreated"@)),
                    ("plan_id"@, JsonView::Text(plan_id)),
                    ("graph_id"@, JsonView::Text(graph_id)),
                    ("generation"@, JsonView::Text(generation)),
                    ("slice_sequence"@, JsonView::Text(slice_sequence)),
                    ("desired_digest"@, JsonView::Text(desired_digest)),
                    ("observed_digest"@, JsonView::Text(observed_digest)),
                ],
                JournalEventView::PlanStale { plan_id, reason } => seq![
                    ("kind"@, JsonView::Text("planStale"@)),
                    ("plan_id"@, JsonView::Text(plan_id)),
                    ("reason"@, JsonView::Text(reason)),
                ],
                JournalEventView::BindingEstablished { binding } => seq![
                    ("kind"@, JsonView::Text("bindingEstablished"@)),
                    (
                        "binding"@,
                        object_of(
                            seq![
                                ("graphId"@, JsonView::Text(binding.graph_id)),
                                ("resourceId"@, JsonView::Text(binding.resource_id)),
                                ("project"@, JsonView::Text(binding.project)),
                                ("database"@, JsonView::Text(binding.database)),
                                ("schema"@, JsonView::Text(binding.schema)),
                            ],
                        ),
                    ),
                ],
                JournalEventView::OperationStarted {
                    plan_id,
                    operation_id,
                    idempotency_key,
                } => seq![
                    ("kind"@, JsonView::Text("operationStarted"@)),
                    ("plan_id"@, JsonView::Text(plan_id)),
                    ("operation_id"@, JsonView::Text(operation_id)),
                    ("idempotency_key"@, JsonView::Text(idempotency_key)),
                ],
                JournalEventView::OperationSucceeded {
                    plan_id,
                    operation_id,
                    observed_digest,
                    recovered,
                } => seq![
                    ("kind"@, JsonView::Text("operationSucceeded"@)),
                    ("plan_id"@, JsonView::Text(plan_id)),
                    ("operation_id"@, JsonView::Text(operation_id)),
                    ("observed_digest"@, JsonView::Text(observed_digest)),
                    ("recovered"@, JsonView::Bool(recovered)),
                ],
                JournalEventView::OperationFailed { plan_id, operation_id, code, detail } => seq![
                    ("kind"@, JsonView::Text("operationFailed"@)),
                    ("plan_id"@, JsonView::Text(plan_id)),
                    ("operation_id"@, JsonView::Text(operation_id)),
                    ("code"@, JsonView::Text(code)),
                    ("detail"@, JsonView::Text(detail)),
                ],
                JournalEventView::GraphReleased { graph_id } => seq![
                    ("kind"@, JsonView::Text("graphReleased"@)),
                    ("graph_id"@, JsonView::Text(graph_id)),
                ],
            },
        ),
{
}

/// A failure of the journal says what it asks of the caller.
pub proof fn journal_failures_say_their_kind(fault: JournalFaultView)
    ensures
        fault.message() == match fault {
            JournalFaultView::Domain(crate::journal::JournalError::CasConflict { current_tail }) =>
                "Terminal error: "@ + ("operation journal advanced to tail "@ + decimal_text(
                    current_tail as nat,
                )),
            JournalFaultView::Transient(detail) => "Transient failure: "@ + detail,
            JournalFaultView::Invariant(detail) => "Invariant violation: "@ + detail,
        },
{
}

}
