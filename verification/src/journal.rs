//! Minimal identity bindings and operation journal.

use vstd::prelude::*;

use crate::json::json_bytes;
use crate::json::json_of;
use crate::json::object_of;
use crate::json::JsonView;
use crate::json::Members;
use crate::model::outcome;
use crate::order::ascending;
use crate::order::held;
use crate::order::kept;
use crate::order::keys;
use crate::order::put;
use crate::order::TextMap;
use crate::text::debug;
use crate::text::debug_text;
use crate::text::decimal;
use crate::text::decimal_text;
use crate::text::first_of;
use crate::text::lower_text;
use crate::text::Plus as _;

verus! {

broadcast use crate::model::group_model;

/// Current durable envelope discriminator.
pub const API_VERSION: &'static str = "henosis.dev/supabase-operation-journal/v1";

/// The largest sequence number.
pub const LAST_SEQUENCE: u64 = 0xffff_ffff_ffff_ffff;

/// Configured journal coordinates.
#[derive(Clone, Debug)]
pub struct JournalConfig {
    /// Bearer token.
    pub access_token: String,
    /// Account endpoint.
    pub account_endpoint: String,
    /// Basin endpoint.
    pub basin_endpoint: String,
    /// Existing basin name.
    pub basin: String,
    /// Connector-owned target stream.
    pub stream: String,
}

/// The journal's place: one stream of one basin.
#[derive(Clone, Debug)]
pub struct OperationJournal {
    basin_name: String,
    stream_name: String,
}

/// The URI of a journal position.
pub open spec fn evidence_text(basin: Seq<char>, stream: Seq<char>, tail: u64) -> Seq<char> {
    "s2://"@ + basin + "/"@ + stream + "@"@ + decimal_text(tail as nat)
}

impl OperationJournal {
    /// The basin of the journal.
    pub closed spec fn basin(self) -> Seq<char> {
        self.basin_name@
    }

    /// The stream of the journal.
    pub closed spec fn stream(self) -> Seq<char> {
        self.stream_name@
    }

    /// The journal at the configured coordinates.
    pub fn new(config: &JournalConfig) -> (r: Self)
        ensures
            r.basin() == config.basin@,
            r.stream() == config.stream@,
    {
        OperationJournal { basin_name: config.basin.clone(), stream_name: config.stream.clone() }
    }

    /// Immutable evidence URI for an exact next-tail fence.
    pub fn evidence_uri(&self, tail: u64) -> (r: String)
        ensures
            r@ == evidence_text(self.basin(), self.stream(), tail),
    {
        "s2://".to_owned().plus(self.basin_name.as_str()).plus("/").plus(
            self.stream_name.as_str(),
        ).plus("@").plus(decimal(tail).as_str())
    }
}

/// Folded minimal operational state.
#[derive(Debug, PartialEq, Eq)]
pub struct JournalSnapshot {
    /// Next journal sequence number.
    pub tail: u64,
    /// Active resource identity bindings.
    pub bindings: TextMap<Binding>,
    /// Operation terminal state by operation ID.
    pub operations: TextMap<OperationState>,
}

/// What a [`JournalSnapshot`] holds.
#[verifier::ext_equal]
pub struct JournalSnapshotView {
    pub tail: u64,
    pub bindings: Seq<(Seq<char>, BindingView)>,
    pub operations: Seq<(Seq<char>, OperationStateView)>,
}

impl DeepView for JournalSnapshot {
    type V = JournalSnapshotView;

    open spec fn deep_view(&self) -> JournalSnapshotView {
        JournalSnapshotView {
            tail: self.tail,
            bindings: self.bindings@,
            operations: self.operations@,
        }
    }
}

impl View for JournalSnapshot {
    type V = JournalSnapshotView;

    open spec fn view(&self) -> JournalSnapshotView {
        self.deep_view()
    }
}

impl Clone for JournalSnapshot {
    fn clone(&self) -> (r: Self)
        ensures
            r@ == self@,
    {
        JournalSnapshot {
            tail: self.tail,
            bindings: self.bindings.clone(),
            operations: self.operations.clone(),
        }
    }
}

/// Stable logical-to-native identity binding.
#[derive(Debug, PartialEq, Eq)]
pub struct Binding {
    /// Owning graph UUID as lowercase hexadecimal.
    pub graph_id: String,
    /// Stable author-owned identity.
    pub resource_id: String,
    /// Self-hosted project identity.
    pub project: String,
    /// `PostgreSQL` database.
    pub database: String,
    /// Owned schema remote identity.
    pub schema: String,
}

/// What a [`Binding`] holds.
#[verifier::ext_equal]
pub struct BindingView {
    pub graph_id: Seq<char>,
    pub resource_id: Seq<char>,
    pub project: Seq<char>,
    pub database: Seq<char>,
    pub schema: Seq<char>,
}

impl DeepView for Binding {
    type V = BindingView;

    open spec fn deep_view(&self) -> BindingView {
        BindingView {
            graph_id: self.graph_id@,
            resource_id: self.resource_id@,
            project: self.project@,
            database: self.database@,
            schema: self.schema@,
        }
    }
}

impl View for Binding {
    type V = BindingView;

    open spec fn view(&self) -> BindingView {
        self.deep_view()
    }
}

impl Clone for Binding {
    fn clone(&self) -> (r: Self)
        ensures
            r@ == self@,
    {
        Binding {
            graph_id: self.graph_id.clone(),
            resource_id: self.resource_id.clone(),
            project: self.project.clone(),
            database: self.database.clone(),
            schema: self.schema.clone(),
        }
    }
}

/// Folded operation state used for crash recovery.
#[derive(Debug, PartialEq, Eq)]
pub enum OperationState {
    /// A durable started receipt exists without a terminal receipt.
    Started {
        /// Plan that authorized the operation.
        plan_id: String,
    },
    /// The postcondition was observed and receipted.
    Succeeded {
        /// Plan that authorized the operation.
        plan_id: String,
        /// Target digest after completion.
        observed_digest: String,
    },
    /// The target rejected the operation with canonical evidence.
    Failed {
        /// Plan that authorized the operation.
        plan_id: String,
        /// Stable diagnostic code.
        code: String,
        /// Verbatim safe provider detail.
        detail: String,
    },
}

/// What an [`OperationState`] holds.
#[verifier::ext_equal]
pub enum OperationStateView {
    Started { plan_id: Seq<char> },
    Succeeded { plan_id: Seq<char>, observed_digest: Seq<char> },
    Failed { plan_id: Seq<char>, code: Seq<char>, detail: Seq<char> },
}

impl DeepView for OperationState {
    type V = OperationStateView;

    open spec fn deep_view(&self) -> OperationStateView {
        match self {
            OperationState::Started { plan_id } => OperationStateView::Started {
                plan_id: plan_id@,
            },
            OperationState::Succeeded { plan_id, observed_digest } => OperationStateView::Succeeded {
                plan_id: plan_id@,
                observed_digest: observed_digest@,
            },
            OperationState::Failed { plan_id, code, detail } => OperationStateView::Failed {
                plan_id: plan_id@,
                code: code@,
                detail: detail@,
            },
        }
    }
}

impl View for OperationState {
    type V = OperationStateView;

    open spec fn view(&self) -> OperationStateView {
        self.deep_view()
    }
}

impl Clone for OperationState {
    fn clone(&self) -> (r: Self)
        ensures
            r@ == self@,
    {
        match self {
            OperationState::Started { plan_id } => {
                OperationState::Started {
                    plan_id: plan_id.clone(),
                }
            },
            OperationState::Succeeded { plan_id, observed_digest } => {
                OperationState::Succeeded {
                    plan_id: plan_id.clone(),
                    observed_digest: observed_digest.clone(),
                }
            },
            OperationState::Failed { plan_id, code, detail } => {
                OperationState::Failed {
                    plan_id: plan_id.clone(),
                    code: code.clone(),
                    detail: detail.clone(),
                }
            },
        }
    }
}

/// One versioned append-only journal envelope.
#[derive(Debug, PartialEq, Eq)]
pub struct JournalEnvelope {
    /// Version discriminator.
    pub api_version: String,
    /// Stable event identity for retry deduplication.
    pub event_id: String,
    /// Event payload.
    pub event: JournalEvent,
}

/// What a [`JournalEnvelope`] holds.
#[verifier::ext_equal]
pub struct JournalEnvelopeView {
    pub api_version: Seq<char>,
    pub event_id: Seq<char>,
    pub event: JournalEventView,
}

impl DeepView for JournalEnvelope {
    type V = JournalEnvelopeView;

    open spec fn deep_view(&self) -> JournalEnvelopeView {
        JournalEnvelopeView {
            api_version: self.api_version@,
            event_id: self.event_id@,
            event: self.event@,
        }
    }
}

impl View for JournalEnvelope {
    type V = JournalEnvelopeView;

    open spec fn view(&self) -> JournalEnvelopeView {
        self.deep_view()
    }
}

impl Clone for JournalEnvelope {
    fn clone(&self) -> (r: Self)
        ensures
            r@ == self@,
    {
        JournalEnvelope {
            api_version: self.api_version.clone(),
            event_id: self.event_id.clone(),
            event: self.event.clone(),
        }
    }
}

/// Minimal durable operation evidence.
#[derive(Debug, PartialEq, Eq)]
pub enum JournalEvent {
    /// A plan was persisted for review.
    PlanCreated {
        plan_id: String,
        graph_id: String,
        generation: String,
        slice_sequence: String,
        desired_digest: String,
        observed_digest: String,
    },
    /// A reviewed plan was found out of date.
    PlanStale {
        plan_id: String,
        reason: String,
    },
    /// A stable remote identity was claimed.
    BindingEstablished {
        /// Complete binding.
        binding: Binding,
    },
    /// One exact operation is about to cross the target boundary.
    OperationStarted {
        /// Authorizing plan.
        plan_id: String,
        /// Stable operation identity.
        operation_id: String,
        /// Stable retry identity.
        idempotency_key: String,
    },
    /// The operation postcondition was re-observed.
    OperationSucceeded {
        /// Authorizing plan.
        plan_id: String,
        /// Stable operation identity.
        operation_id: String,
        /// Target digest after completion.
        observed_digest: String,
        /// Whether completion was recovered after an interrupted attempt.
        recovered: bool,
    },
    /// The target returned a canonical failure.
    OperationFailed {
        /// Authorizing plan.
        plan_id: String,
        /// Stable operation identity.
        operation_id: String,
        /// Stable diagnostic code.
        code: String,
        /// Verbatim safe provider detail.
        detail: String,
    },
    /// A graph released its exclusive local target ownership.
    GraphReleased {
        /// Graph UUID as lowercase hexadecimal.
        graph_id: String,
    },
}

/// What a [`JournalEvent`] holds.
#[verifier::ext_equal]
pub enum JournalEventView {
    PlanCreated { plan_id: Seq<char>, graph_id: Seq<char>, generation: Seq<char>, slice_sequence: Seq<char>, desired_digest: Seq<char>, observed_digest: Seq<char> },
    PlanStale { plan_id: Seq<char>, reason: Seq<char> },
    BindingEstablished { binding: BindingView },
    OperationStarted { plan_id: Seq<char>, operation_id: Seq<char>, idempotency_key: Seq<char> },
    OperationSucceeded { plan_id: Seq<char>, operation_id: Seq<char>, observed_digest: Seq<char>, recovered: bool },
    OperationFailed { plan_id: Seq<char>, operation_id: Seq<char>, code: Seq<char>, detail: Seq<char> },
    GraphReleased { graph_id: Seq<char> },
}

impl DeepView for JournalEvent {
    type V = JournalEventView;

    open spec fn deep_view(&self) -> JournalEventView {
        match self {
            JournalEvent::PlanCreated { plan_id, graph_id, generation, slice_sequence, desired_digest, observed_digest } => JournalEventView::PlanCreated {
                plan_id: plan_id@,
                graph_id: graph_id@,
                generation: generation@,
                slice_sequence: slice_sequence@,
                desired_digest: desired_digest@,
                observed_digest: observed_digest@,
            },
            JournalEvent::PlanStale { plan_id, reason } => JournalEventView::PlanStale {
                plan_id: plan_id@,
                reason: reason@,
            },
            JournalEvent::BindingEstablished { binding } => JournalEventView::BindingEstablished {
                binding: binding@,
            },
            JournalEvent::OperationStarted { plan_id, operation_id, idempotency_key } => JournalEventView::OperationStarted {
                plan_id: plan_id@,
                operation_id: operation_id@,
                idempotency_key: idempotency_key@,
            },
            JournalEvent::OperationSucceeded { plan_id, operation_id, observed_digest, recovered } => JournalEventView::OperationSucceeded {
                plan_id: plan_id@,
                operation_id: operation_id@,
                observed_digest: observed_digest@,
                recovered: *recovered,
            },
            JournalEvent::OperationFailed { plan_id, operation_id, code, detail } => JournalEventView::OperationFailed {
                plan_id: plan_id@,
                operation_id: operation_id@,
                code: code@,
                detail: detail@,
            },
            JournalEvent::GraphReleased { graph_id } => JournalEventView::GraphReleased {
                graph_id: graph_id@,
            },
        }
    }
}

impl View for JournalEvent {
    type V = JournalEventView;

    open spec fn view(&self) -> JournalEventView {
        self.deep_view()
    }
}

impl Clone for JournalEvent {
    fn clone(&self) -> (r: Self)
        ensures
            r@ == self@,
    {
        match self {
            JournalEvent::PlanCreated { plan_id, graph_id, generation, slice_sequence, desired_digest, observed_digest } => {
                JournalEvent::PlanCreated {
                    plan_id: plan_id.clone(),
                    graph_id: graph_id.clone(),
                    generation: generation.clone(),
                    slice_sequence: slice_sequence.clone(),
                    desired_digest: desired_digest.clone(),
                    observed_digest: observed_digest.clone(),
                }
            },
            JournalEvent::PlanStale { plan_id, reason } => {
                JournalEvent::PlanStale {
                    plan_id: plan_id.clone(),
                    reason: reason.clone(),
                }
            },
            JournalEvent::BindingEstablished { binding } => {
                JournalEvent::BindingEstablished {
                    binding: binding.clone(),
                }
            },
            JournalEvent::OperationStarted { plan_id, operation_id, idempotency_key } => {
                JournalEvent::OperationStarted {
                    plan_id: plan_id.clone(),
                    operation_id: operation_id.clone(),
                    idempotency_key: idempotency_key.clone(),
                }
            },
            JournalEvent::OperationSucceeded { plan_id, operation_id, observed_digest, recovered } => {
                JournalEvent::OperationSucceeded {
                    plan_id: plan_id.clone(),
                    operation_id: operation_id.clone(),
                    observed_digest: observed_digest.clone(),
                    recovered: *recovered,
                }
            },
            JournalEvent::OperationFailed { plan_id, operation_id, code, detail } => {
                JournalEvent::OperationFailed {
                    plan_id: plan_id.clone(),
                    operation_id: operation_id.clone(),
                    code: code.clone(),
                    detail: detail.clone(),
                }
            },
            JournalEvent::GraphReleased { graph_id } => {
                JournalEvent::GraphReleased {
                    graph_id: graph_id.clone(),
                }
            },
        }
    }
}

/// Journal domain failure.
#[derive(Clone, Copy, Debug, PartialEq, Eq, Structural)]
pub enum JournalError {
    /// Another writer advanced the stream.
    CasConflict {
        /// Current remote tail.
        current_tail: u64,
    },
}

impl JournalError {
    /// The failure in words.
    pub open spec fn words(self) -> Seq<char> {
        match self {
            JournalError::CasConflict { current_tail } => "operation journal advanced to tail "@
                + decimal_text(current_tail as nat),
        }
    }

    /// The failure in words.
    pub fn message(&self) -> (r: String)
        ensures
            r@ == self.words(),
    {
        match self {
            JournalError::CasConflict { current_tail } => "operation journal advanced to tail ".to_owned().plus(
                decimal(*current_tail).as_str(),
            ),
        }
    }
}

// ---------------------------------------------------------------------------
// Folding
// ---------------------------------------------------------------------------

impl Default for JournalSnapshot {
    /// The journal before its first record.
    fn default() -> (r: Self)
        ensures
            r@ == JournalSnapshotView::at(0),
    {
        JournalSnapshot { tail: 0, bindings: TextMap::new(), operations: TextMap::new() }
    }
}

impl JournalSnapshotView {
    /// No facts, and the given tail.
    pub open spec fn at(tail: u64) -> Self {
        JournalSnapshotView { tail, bindings: seq![], operations: seq![] }
    }

    /// Bindings and operations are maps, in ascending order of their keys.
    pub open spec fn well_formed(self) -> bool {
        ascending(keys(self.bindings)) && ascending(keys(self.operations))
    }

    /// The facts with a receipt for the operation.
    pub open spec fn with_receipt(
        self,
        operation_id: Seq<char>,
        state: OperationStateView,
    ) -> Self {
        JournalSnapshotView { operations: put(self.operations, operation_id, state), ..self }
    }

    /// The facts without the bindings of the graph.
    pub open spec fn released(self, graph_id: Seq<char>) -> Self {
        JournalSnapshotView {
            bindings: kept(self.bindings, |binding: BindingView| binding.graph_id != graph_id),
            ..self
        }
    }

    /// The facts after one more event.
    pub open spec fn after(self, event: JournalEventView) -> Self {
        match event {
            JournalEventView::PlanCreated { .. } | JournalEventView::PlanStale { .. } => self,
            JournalEventView::BindingEstablished { binding } => JournalSnapshotView {
                bindings: put(self.bindings, binding.resource_id, binding),
                ..self
            },
            JournalEventView::OperationStarted { plan_id, operation_id, .. } => self.with_receipt(
                operation_id,
                OperationStateView::Started { plan_id },
            ),
            JournalEventView::OperationSucceeded { plan_id, operation_id, observed_digest, .. } =>
                self.with_receipt(
                    operation_id,
                    OperationStateView::Succeeded { plan_id, observed_digest },
                ),
            JournalEventView::OperationFailed { plan_id, operation_id, code, detail } =>
                self.with_receipt(
                    operation_id,
                    OperationStateView::Failed { plan_id, code, detail },
                ),
            JournalEventView::GraphReleased { graph_id } => self.released(graph_id),
        }
    }

    /// The facts after a run of events.
    pub open spec fn after_all(self, events: Seq<JournalEventView>) -> Self
        decreases events.len(),
    {
        if events.len() == 0 {
            self
        } else {
            self.after_all(events.drop_last()).after(events.last())
        }
    }
}

impl JournalSnapshot {
    fn release(&mut self, graph_id: &str)
        ensures
            final(self)@ == old(self)@.released(graph_id@),
    {
        let ghost test = |binding: BindingView| binding.graph_id != graph_id@;
        let ghost all = self.bindings@;
        let mut entries: Vec<(String, Binding)> = Vec::new();
        let held_entries = self.bindings.entries();
        let mut i: usize = 0;
        assert(entries.deep_view() =~= kept(all.take(0), test));
        while i < held_entries.len()
            invariant
                i <= held_entries@.len(),
                held_entries.deep_view() == all,
                test == (|binding: BindingView| binding.graph_id != graph_id@),
                entries.deep_view() == kept(all.take(i as int), test),
            decreases held_entries.len() - i,
        {
            let entry = &held_entries[i];
            assert(all.take(i + 1).drop_last() == all.take(i as int));
            assert(all[i as int] == (entry.0@, entry.1@));
            if !crate::text::same_text(entry.1.graph_id.as_str(), graph_id) {
                entries.push((entry.0.clone(), entry.1.clone()));
            }
            i += 1;
        }
        assert(all.take(all.len() as int) == all);
        proof {
            crate::order::kept_holds(all, test);
        }
        self.bindings = TextMap::from_entries(entries);
    }

    /// Folds one event into the facts.
    pub fn apply(&mut self, event: JournalEvent)
        ensures
            final(self)@ == old(self)@.after(event@),
    {
        match event {
            JournalEvent::PlanCreated { .. } => {},
            JournalEvent::PlanStale { .. } => {},
            JournalEvent::BindingEstablished { binding } => {
                self.bindings.insert(binding.resource_id.clone(), binding);
            },
            JournalEvent::OperationStarted { plan_id, operation_id, idempotency_key: _ } => {
                self.operations.insert(operation_id, OperationState::Started { plan_id });
            },
            JournalEvent::OperationSucceeded {
                plan_id,
                operation_id,
                observed_digest,
                recovered: _,
            } => {
                self.operations.insert(
                    operation_id,
                    OperationState::Succeeded { plan_id, observed_digest },
                );
            },
            JournalEvent::OperationFailed { plan_id, operation_id, code, detail } => {
                self.operations.insert(
                    operation_id,
                    OperationState::Failed { plan_id, code, detail },
                );
            },
            JournalEvent::GraphReleased { graph_id } => {
                self.release(graph_id.as_str());
            },
        }
    }
}

/// Events keep the facts well formed.
pub proof fn events_keep_facts_well_formed(facts: JournalSnapshotView, event: JournalEventView)
    requires
        facts.well_formed(),
    ensures
        facts.after(event).well_formed(),
        facts.after(event).tail == facts.tail,
{
    match event {
        JournalEventView::BindingEstablished { binding } => {
            crate::order::put_holds(facts.bindings, binding.resource_id, binding);
        },
        JournalEventView::OperationStarted { plan_id, operation_id, .. } => {
            crate::order::put_holds(
                facts.operations,
                operation_id,
                OperationStateView::Started { plan_id },
            );
        },
        JournalEventView::OperationSucceeded { plan_id, operation_id, observed_digest, .. } => {
            crate::order::put_holds(
                facts.operations,
                operation_id,
                OperationStateView::Succeeded { plan_id, observed_digest },
            );
        },
        JournalEventView::OperationFailed { plan_id, operation_id, code, detail } => {
            crate::order::put_holds(
                facts.operations,
                operation_id,
                OperationStateView::Failed { plan_id, code, detail },
            );
        },
        JournalEventView::GraphReleased { graph_id } => {
            crate::order::kept_holds(
                facts.bindings,
                |binding: BindingView| binding.graph_id != graph_id,
            );
        },
        _ => {},
    }
}

/// Every journal folds to well-formed facts.
pub proof fn journals_are_well_formed(tail: u64, events: Seq<JournalEventView>)
    ensures
        JournalSnapshotView::at(tail).after_all(events).well_formed(),
        JournalSnapshotView::at(tail).after_all(events).tail == tail,
    decreases events.len(),
{
    if events.len() > 0 {
        journals_are_well_formed(tail, events.drop_last());
        events_keep_facts_well_formed(
            JournalSnapshotView::at(tail).after_all(events.drop_last()),
            events.last(),
        );
    }
}

/// The operation that a receipt is about, and the state that it records.
pub open spec fn receipt_of(event: JournalEventView) -> Option<(Seq<char>, OperationStateView)> {
    match event {
        JournalEventView::OperationStarted { plan_id, operation_id, .. } => Some(
            (operation_id, OperationStateView::Started { plan_id }),
        ),
        JournalEventView::OperationSucceeded { plan_id, operation_id, observed_digest, .. } => Some(
            (operation_id, OperationStateView::Succeeded { plan_id, observed_digest }),
        ),
        JournalEventView::OperationFailed { plan_id, operation_id, code, detail } => Some(
            (operation_id, OperationStateView::Failed { plan_id, code, detail }),
        ),
        _ => None,
    }
}

/// The last receipt of an operation decides its state; a journal without one knows nothing of it.
pub open spec fn last_receipt(events: Seq<JournalEventView>, operation_id: Seq<char>) -> Option<
    OperationStateView,
>
    decreases events.len(),
{
    if events.len() == 0 {
        None
    } else {
        match receipt_of(events.last()) {
            Some((id, state)) => if id == operation_id {
                Some(state)
            } else {
                last_receipt(events.drop_last(), operation_id)
            },
            None => last_receipt(events.drop_last(), operation_id),
        }
    }
}

/// The binding of a resource: the last one established that its graph has not released since.
pub open spec fn last_binding(events: Seq<JournalEventView>, resource_id: Seq<char>) -> Option<
    BindingView,
>
    decreases events.len(),
{
    if events.len() == 0 {
        None
    } else {
        let before = last_binding(events.drop_last(), resource_id);
        match events.last() {
            JournalEventView::BindingEstablished { binding } => if binding.resource_id
                == resource_id {
                Some(binding)
            } else {
                before
            },
            JournalEventView::GraphReleased { graph_id } => match before {
                Some(binding) => if binding.graph_id == graph_id {
                    None
                } else {
                    before
                },
                None => None,
            },
            _ => before,
        }
    }
}

/// What a journal says of an operation is its last receipt.
pub proof fn journal_holds_last_receipt(
    tail: u64,
    events: Seq<JournalEventView>,
    operation_id: Seq<char>,
)
    ensures
        held(JournalSnapshotView::at(tail).after_all(events).operations, operation_id)
            == last_receipt(events, operation_id),
    decreases events.len(),
{
    if events.len() > 0 {
        let facts = JournalSnapshotView::at(tail).after_all(events.drop_last());
        journal_holds_last_receipt(tail, events.drop_last(), operation_id);
        journals_are_well_formed(tail, events.drop_last());
        match receipt_of(events.last()) {
            Some((id, state)) => {
                crate::order::put_holds(facts.operations, id, state);
                assert(held(put(facts.operations, id, state), operation_id)
                    == if operation_id == id {
                    Some(state)
                } else {
                    held(facts.operations, operation_id)
                });
            },
            None => {},
        }
    }
}

/// What a journal says of a resource is its last binding that is not released.
pub proof fn journal_holds_last_binding(
    tail: u64,
    events: Seq<JournalEventView>,
    resource_id: Seq<char>,
)
    ensures
        held(JournalSnapshotView::at(tail).after_all(events).bindings, resource_id)
            == last_binding(events, resource_id),
    decreases events.len(),
{
    if events.len() > 0 {
        let facts = JournalSnapshotView::at(tail).after_all(events.drop_last());
        journal_holds_last_binding(tail, events.drop_last(), resource_id);
        journals_are_well_formed(tail, events.drop_last());
        match events.last() {
            JournalEventView::BindingEstablished { binding } => {
                crate::order::put_holds(facts.bindings, binding.resource_id, binding);
                assert(held(put(facts.bindings, binding.resource_id, binding), resource_id)
                    == if resource_id == binding.resource_id {
                    Some(binding)
                } else {
                    held(facts.bindings, resource_id)
                });
            },
            JournalEventView::GraphReleased { graph_id } => {
                let test = |binding: BindingView| binding.graph_id != graph_id;
                crate::order::kept_holds(facts.bindings, test);
                assert(held(kept(facts.bindings, test), resource_id) == match held(
                    facts.bindings,
                    resource_id,
                ) {
                    Some(value) => if test(value) {
                        Some(value)
                    } else {
                        None
                    },
                    None => None,
                });
            },
            _ => {},
        }
    }
}

/// A released graph has no binding left.
pub proof fn release_leaves_no_binding(
    facts: JournalSnapshotView,
    graph_id: Seq<char>,
    resource_id: Seq<char>,
)
    requires
        facts.well_formed(),
    ensures
        held(
            facts.after(JournalEventView::GraphReleased { graph_id }).bindings,
            resource_id,
        ) matches Some(binding) ==> binding.graph_id != graph_id && held(
            facts.bindings,
            resource_id,
        ) == Some(binding),
        facts.after(JournalEventView::GraphReleased { graph_id }).operations == facts.operations,
{
    crate::order::kept_holds(
        facts.bindings,
        |binding: BindingView| binding.graph_id != graph_id,
    );
}

/// Receipts leave the bindings alone, and bindings and releases leave the receipts alone.
pub proof fn receipts_and_bindings_are_separate(
    facts: JournalSnapshotView,
    event: JournalEventView,
)
    ensures
        receipt_of(event) is Some ==> facts.after(event).bindings == facts.bindings,
        receipt_of(event) is None ==> facts.after(event).operations == facts.operations,
{
}

// ---------------------------------------------------------------------------
// Reading
// ---------------------------------------------------------------------------

/// One stored record: its place, and its body decoded as strict JSON.
#[derive(Debug, PartialEq, Eq)]
pub struct JournalRecord {
    /// Sequence number of the record.
    pub seq_num: u64,
    /// The decoded envelope, or why the body is no envelope.
    pub envelope: Result<JournalEnvelope, String>,
}

/// What a [`JournalRecord`] holds.
#[verifier::ext_equal]
pub struct JournalRecordView {
    pub seq_num: u64,
    pub envelope: Result<JournalEnvelopeView, Seq<char>>,
}

impl DeepView for JournalRecord {
    type V = JournalRecordView;

    open spec fn deep_view(&self) -> JournalRecordView {
        JournalRecordView {
            seq_num: self.seq_num,
            envelope: match self.envelope {
                Ok(value) => Ok(value@),
                Err(error) => Err(error@),
            },
        }
    }
}

impl View for JournalRecord {
    type V = JournalRecordView;

    open spec fn view(&self) -> JournalRecordView {
        self.deep_view()
    }
}

/// A journal that is being read up to its tail.
#[derive(Debug, PartialEq, Eq)]
pub struct JournalReader {
    /// The facts folded so far.
    pub snapshot: JournalSnapshot,
    /// The sequence number to read next.
    pub next: u64,
}

/// What a [`JournalReader`] holds.
#[verifier::ext_equal]
pub struct JournalReaderView {
    pub snapshot: JournalSnapshotView,
    pub next: u64,
}

impl DeepView for JournalReader {
    type V = JournalReaderView;

    open spec fn deep_view(&self) -> JournalReaderView {
        JournalReaderView {
            snapshot: self.snapshot@,
            next: self.next,
        }
    }
}

impl View for JournalReader {
    type V = JournalReaderView;

    open spec fn view(&self) -> JournalReaderView {
        self.deep_view()
    }
}

/// The successor of a sequence number, which the last one does not have.
pub open spec fn next_sequence(seq_num: u64) -> u64 {
    if seq_num == LAST_SEQUENCE {
        LAST_SEQUENCE
    } else {
        (seq_num + 1) as u64
    }
}

/// The successor of a sequence number.
pub fn following(seq_num: u64) -> (r: u64)
    ensures
        r == next_sequence(seq_num),
{
    if seq_num == LAST_SEQUENCE {
        LAST_SEQUENCE
    } else {
        seq_num + 1
    }
}

impl JournalReaderView {
    /// The reader after one more record, or why the record cannot be read.
    pub open spec fn after_record(self, record: JournalRecordView) -> Result<Self, Seq<char>> {
        match record.envelope {
            Err(error) => Err(
                "invalid operation journal record at "@ + decimal_text(record.seq_num as nat)
                    + ": "@ + error,
            ),
            Ok(envelope) => if envelope.api_version != API_VERSION@ {
                Err(
                    "unsupported operation journal apiVersion "@ + debug_text(envelope.api_version)
                        + " at "@ + decimal_text(record.seq_num as nat),
                )
            } else {
                Ok(
                    JournalReaderView {
                        snapshot: self.snapshot.after(envelope.event),
                        next: next_sequence(record.seq_num),
                    },
                )
            },
        }
    }

    /// The reader after the records in order, up to the first that cannot be read.
    pub open spec fn after_records(self, records: Seq<JournalRecordView>) -> Result<
        Self,
        Seq<char>,
    >
        decreases records.len(),
    {
        if records.len() == 0 {
            Ok(self)
        } else {
            match self.after_records(records.drop_last()) {
                Err(error) => Err(error),
                Ok(reader) => reader.after_record(records.last()),
            }
        }
    }

    /// The reader after one batch. No batch before the tail is empty.
    pub open spec fn after_batch(self, batch: Seq<JournalRecordView>) -> Result<Self, Seq<char>> {
        if batch.len() == 0 {
            Err(
                "empty S2 journal batch before tail "@ + decimal_text(self.snapshot.tail as nat)
                    + " at "@ + decimal_text(self.next as nat),
            )
        } else {
            self.after_records(batch)
        }
    }
}

impl JournalReader {
    /// Starts reading a journal with the given tail.
    pub fn new(tail: u64) -> (r: Self)
        ensures
            r@ == (JournalReaderView { snapshot: JournalSnapshotView::at(tail), next: 0 }),
    {
        let mut snapshot = JournalSnapshot::default();
        snapshot.tail = tail;
        JournalReader { snapshot, next: 0 }
    }

    /// Where to read the next batch, unless the tail is reached.
    pub fn wanted(&self) -> (r: Option<u64>)
        ensures
            r == if self@.next < self@.snapshot.tail {
                Some(self@.next)
            } else {
                None
            },
    {
        if self.next < self.snapshot.tail {
            Some(self.next)
        } else {
            None
        }
    }

    fn take_record(&mut self, record: &JournalRecord) -> (r: Result<(), String>)
        ensures
            match r {
                Ok(_) => old(self)@.after_record(record@) == Ok::<JournalReaderView, Seq<char>>(
                    final(self)@,
                ),
                Err(error) => old(self)@.after_record(record@) == Err::<
                    JournalReaderView,
                    Seq<char>,
                >(error@),
            },
    {
        match &record.envelope {
            Err(error) => Err(
                "invalid operation journal record at ".to_owned().plus(
                    decimal(record.seq_num).as_str(),
                ).plus(": ").plus(error.as_str()),
            ),
            Ok(envelope) => {
                if !crate::text::same_text(envelope.api_version.as_str(), API_VERSION) {
                    return Err(
                        "unsupported operation journal apiVersion ".to_owned().plus(
                            debug(envelope.api_version.as_str()).as_str(),
                        ).plus(" at ").plus(decimal(record.seq_num).as_str()),
                    );
                }
                self.snapshot.apply(envelope.event.clone());
                self.next = following(record.seq_num);
                Ok(())
            },
        }
    }

    /// Folds one batch of records. A batch that contradicts the journal's contract is an invariant
    /// violation.
    pub fn take(self, batch: Vec<JournalRecord>) -> (r: Result<JournalReader, JournalFault>)
        ensures
            outcome(r) == match self@.after_batch(batch.deep_view()) {
                Ok(reader) => Ok(reader),
                Err(detail) => Err(JournalFaultView::Invariant(detail)),
            },
    {
        if batch.len() == 0 {
            return Err(
                JournalFault::Invariant(
                    "empty S2 journal batch before tail ".to_owned().plus(
                        decimal(self.snapshot.tail).as_str(),
                    ).plus(" at ").plus(decimal(self.next).as_str()),
                ),
            );
        }
        let ghost start = self@;
        let ghost all = batch.deep_view();
        let mut reader = self;
        let mut i: usize = 0;
        while i < batch.len()
            invariant
                i <= batch@.len(),
                batch@.len() > 0,
                all == batch.deep_view(),
                start == self@,
                start.after_records(all.take(i as int)) == Ok::<JournalReaderView, Seq<char>>(
                    reader@,
                ),
            decreases batch.len() - i,
        {
            assert(all.take(i + 1).drop_last() == all.take(i as int));
            assert(all[i as int] == batch@[i as int]@);
            match reader.take_record(&batch[i]) {
                Ok(_) => {},
                Err(error) => {
                    proof {
                        unreadable_stays_unreadable(start, all, i + 1);
                    }
                    return Err(JournalFault::Invariant(error));
                },
            }
            i += 1;
        }
        assert(all.take(all.len() as int) == all);
        Ok(reader)
    }

    /// The folded facts.
    pub fn finish(self) -> (r: JournalSnapshot)
        ensures
            r@ == self@.snapshot,
    {
        self.snapshot
    }
}

/// Reading stops at the first record that cannot be read.
proof fn unreadable_stays_unreadable(
    reader: JournalReaderView,
    records: Seq<JournalRecordView>,
    count: int,
)
    requires
        0 <= count <= records.len(),
        reader.after_records(records.take(count)) is Err,
    ensures
        reader.after_records(records) == reader.after_records(records.take(count)),
    decreases records.len(),
{
    if count == records.len() {
        assert(records.take(count) =~= records);
    } else {
        let before = records.drop_last();
        assert(before.take(count) =~= records.take(count));
        unreadable_stays_unreadable(reader, before, count);
    }
}

/// A journal that can be read folds to the facts of its events in order.
pub proof fn reading_folds_every_event(
    tail: u64,
    records: Seq<JournalRecordView>,
    events: Seq<JournalEventView>,
)
    requires
        records.len() == events.len(),
        forall|i: int|
            0 <= i < records.len() ==> ((#[trigger] records[i]).envelope matches Ok(envelope)
                && envelope.api_version == API_VERSION@ && envelope.event == events[i]),
    ensures
        (JournalReaderView { snapshot: JournalSnapshotView::at(tail), next: 0 }).after_records(
            records,
        ) matches Ok(reader) && reader.snapshot == JournalSnapshotView::at(tail).after_all(events),
    decreases records.len(),
{
    if records.len() > 0 {
        assert forall|i: int| 0 <= i < records.drop_last().len() implies ((
        #[trigger] records.drop_last()[i]).envelope matches Ok(envelope) && envelope.api_version
            == API_VERSION@ && envelope.event == events.drop_last()[i]) by {
            assert(records.drop_last()[i] == records[i]);
        }
        reading_folds_every_event(tail, records.drop_last(), events.drop_last());
        assert(records[records.len() - 1] == records.last());
    }
}

/// The pattern stands somewhere in the text.
pub open spec fn mentions(text: Seq<char>, pattern: Seq<char>) -> bool {
    first_of(text, pattern) is Some
}

/// Whether an error on asking for the tail says that there is no stream yet, which counts as an
/// empty journal.
pub fn stream_is_missing(code: &str, message: &str) -> (r: bool)
    ensures
        r == (mentions(lower_text(code@), "not_found"@) || mentions(
            lower_text(message@),
            "not found"@,
        )),
{
    let code = crate::text::to_lower(&crate::text::chars(code));
    let message = crate::text::to_lower(&crate::text::chars(message));
    crate::text::split_once(&code, "not_found").is_some() || crate::text::split_once(
        &message,
        "not found",
    ).is_some()
}

// ---------------------------------------------------------------------------
// Appending
// ---------------------------------------------------------------------------

/// Why a compare-and-append did not happen.
#[derive(Debug, PartialEq, Eq)]
pub enum AppendFailure {
    /// The stream's tail is not the expected one.
    SeqNumMismatch(u64),
    /// Anything else.
    Other(String),
}

/// What an [`AppendFailure`] holds.
#[verifier::ext_equal]
pub enum AppendFailureView {
    SeqNumMismatch(u64),
    Other(Seq<char>),
}

impl DeepView for AppendFailure {
    type V = AppendFailureView;

    open spec fn deep_view(&self) -> AppendFailureView {
        match self {
            AppendFailure::SeqNumMismatch(value) => AppendFailureView::SeqNumMismatch(*value),
            AppendFailure::Other(value) => AppendFailureView::Other(value@),
        }
    }
}

impl View for AppendFailure {
    type V = AppendFailureView;

    open spec fn view(&self) -> AppendFailureView {
        self.deep_view()
    }
}

/// A journal failure, by what it asks of the caller.
#[derive(Debug, PartialEq, Eq)]
pub enum JournalFault {
    /// The append was refused.
    Domain(JournalError),
    /// Trying again may help.
    Transient(String),
    /// The stored journal contradicts its contract.
    Invariant(String),
}

/// What a [`JournalFault`] holds.
#[verifier::ext_equal]
pub enum JournalFaultView {
    Domain(JournalError),
    Transient(Seq<char>),
    Invariant(Seq<char>),
}

impl DeepView for JournalFault {
    type V = JournalFaultView;

    open spec fn deep_view(&self) -> JournalFaultView {
        match self {
            JournalFault::Domain(value) => JournalFaultView::Domain(*value),
            JournalFault::Transient(value) => JournalFaultView::Transient(value@),
            JournalFault::Invariant(value) => JournalFaultView::Invariant(value@),
        }
    }
}

impl View for JournalFault {
    type V = JournalFaultView;

    open spec fn view(&self) -> JournalFaultView {
        self.deep_view()
    }
}

impl JournalFaultView {
    /// The failure in words.
    pub open spec fn message(self) -> Seq<char> {
        match self {
            JournalFaultView::Domain(error) => "Terminal error: "@ + error.words(),
            JournalFaultView::Transient(detail) => "Transient failure: "@ + detail,
            JournalFaultView::Invariant(detail) => "Invariant violation: "@ + detail,
        }
    }
}

impl JournalFault {
    /// The failure in words.
    pub fn message(&self) -> (r: String)
        ensures
            r@ == self@.message(),
    {
        match self {
            JournalFault::Domain(error) => "Terminal error: ".to_owned().plus(
                error.message().as_str(),
            ),
            JournalFault::Transient(detail) => "Transient failure: ".to_owned().plus(
                detail.as_str(),
            ),
            JournalFault::Invariant(detail) => "Invariant violation: ".to_owned().plus(
                detail.as_str(),
            ),
        }
    }
}

/// The envelope of an event under its identity.
pub open spec fn envelope_of(event_id: Seq<char>, event: JournalEventView) -> JournalEnvelopeView {
    JournalEnvelopeView { api_version: API_VERSION@, event_id, event }
}

/// Wraps an event in the current envelope.
pub fn envelope(event_id: String, event: JournalEvent) -> (r: JournalEnvelope)
    ensures
        r@ == envelope_of(event_id@, event@),
{
    JournalEnvelope { api_version: API_VERSION.to_owned(), event_id, event }
}

/// The new tail after an append whose record starts at the acknowledged number, or its failure.
pub fn append_outcome(acknowledged: Result<u64, AppendFailure>) -> (r: Result<u64, JournalFault>)
    ensures
        match acknowledged {
            Ok(start) => r == Ok::<u64, JournalFault>(next_sequence(start)),
            Err(failure) => r matches Err(fault) && fault@ == match failure@ {
                AppendFailureView::SeqNumMismatch(current_tail) => JournalFaultView::Domain(
                    JournalError::CasConflict { current_tail },
                ),
                AppendFailureView::Other(detail) => JournalFaultView::Transient(detail),
            },
        },
{
    match acknowledged {
        Ok(start) => Ok(following(start)),
        Err(AppendFailure::SeqNumMismatch(current_tail)) => Err(
            JournalFault::Domain(JournalError::CasConflict { current_tail }),
        ),
        Err(AppendFailure::Other(detail)) => Err(JournalFault::Transient(detail)),
    }
}

// ---------------------------------------------------------------------------
// Documents
// ---------------------------------------------------------------------------

impl BindingView {
    /// The members of the document.
    pub open spec fn members(self) -> Seq<(Seq<char>, JsonView)> {
        seq![
            ("graphId"@, JsonView::Text(self.graph_id)),
            ("resourceId"@, JsonView::Text(self.resource_id)),
            ("project"@, JsonView::Text(self.project)),
            ("database"@, JsonView::Text(self.database)),
            ("schema"@, JsonView::Text(self.schema)),
        ]
    }

    /// The binding as a document.
    pub open spec fn document(self) -> JsonView {
        object_of(self.members())
    }

    /// The members of the review value, in ascending order of their names.
    pub open spec fn review_members(self) -> Seq<(Seq<char>, JsonView)> {
        seq![
            ("database"@, JsonView::Text(self.database)),
            ("graphId"@, JsonView::Text(self.graph_id)),
            ("project"@, JsonView::Text(self.project)),
            ("resourceId"@, JsonView::Text(self.resource_id)),
            ("schema"@, JsonView::Text(self.schema)),
        ]
    }

    /// The binding as a review value.
    pub open spec fn review_value(self) -> JsonView {
        object_of(self.review_members())
    }
}

impl Binding {
    /// The binding as a document.
    pub fn document(&self) -> (r: serde_json::Value)
        ensures
            json_of(r) == self@.document(),
    {
        let members = Members::new().with_text("graphId", self.graph_id.as_str()).with_text(
            "resourceId",
            self.resource_id.as_str(),
        ).with_text("project", self.project.as_str()).with_text(
            "database",
            self.database.as_str(),
        ).with_text("schema", self.schema.as_str());
        assert(members@ =~= self@.members());
        members.finish()
    }

    /// The binding as a review value.
    pub fn review_value(&self) -> (r: serde_json::Value)
        ensures
            json_of(r) == self@.review_value(),
    {
        let members = Members::new().with_text("database", self.database.as_str()).with_text(
            "graphId",
            self.graph_id.as_str(),
        ).with_text("project", self.project.as_str()).with_text(
            "resourceId",
            self.resource_id.as_str(),
        ).with_text("schema", self.schema.as_str());
        assert(members@ =~= self@.review_members());
        members.finish()
    }
}

impl JournalEventView {
    /// The members of the document.
    pub open spec fn members(self) -> Seq<(Seq<char>, JsonView)> {
        match self {
            JournalEventView::PlanCreated {
                plan_id,
                graph_id,
                generation,
                slice_sequence,
                desired_digest,
                observed_digest,
            } => seq![
                ("kind"@, JsonView::Text("planCreated"@)),
                ("plan_id"@, JsonView::Text(plan_id)),
                ("graph_id"@, JsonView::Text(graph_id)),
                ("generation"@, JsonView::Text(generation)),
                ("slice_sequence"@, JsonView::Text(slice_sequence)),
                ("desired_digest"@, JsonView::Text(desired_digest)),
                ("observed_digest"@, JsonView::Text(observed_digest)),
            ],
            JournalEventView::PlanStale { plan_id, reason } => seq![
                ("kind"@, JsonView::Text("planStale"@)),
                ("plan_id"@, JsonView::Text(plan_id)),
                ("reason"@, JsonView::Text(reason)),
            ],
            JournalEventView::BindingEstablished { binding } => seq![
                ("kind"@, JsonView::Text("bindingEstablished"@)),
                ("binding"@, binding.document()),
            ],
            JournalEventView::OperationStarted { plan_id, operation_id, idempotency_key } => seq![
                ("kind"@, JsonView::Text("operationStarted"@)),
                ("plan_id"@, JsonView::Text(plan_id)),
                ("operation_id"@, JsonView::Text(operation_id)),
                ("idempotency_key"@, JsonView::Text(idempotency_key)),
            ],
            JournalEventView::OperationSucceeded {
                plan_id,
                operation_id,
                observed_digest,
                recovered,
            } => seq![
                ("kind"@, JsonView::Text("operationSucceeded"@)),
                ("plan_id"@, JsonView::Text(plan_id)),
                ("operation_id"@, JsonView::Text(operation_id)),
                ("observed_digest"@, JsonView::Text(observed_digest)),
                ("recovered"@, JsonView::Bool(recovered)),
            ],
            JournalEventView::OperationFailed { plan_id, operation_id, code, detail } => seq![
                ("kind"@, JsonView::Text("operationFailed"@)),
                ("plan_id"@, JsonView::Text(plan_id)),
                ("operation_id"@, JsonView::Text(operation_id)),
                ("code"@, JsonView::Text(code)),
                ("detail"@, JsonView::Text(detail)),
            ],
            JournalEventView::GraphReleased { graph_id } => seq![
                ("kind"@, JsonView::Text("graphReleased"@)),
                ("graph_id"@, JsonView::Text(graph_id)),
            ],
        }
    }

    /// The event as a document.
    pub open spec fn document(self) -> JsonView {
        object_of(self.members())
    }
}

impl JournalEvent {
    /// The event as a document.
    pub fn document(&self) -> (r: serde_json::Value)
        ensures
            json_of(r) == self@.document(),
    {
        let members = match self {
            JournalEvent::PlanCreated {
                plan_id,
                graph_id,
                generation,
                slice_sequence,
                desired_digest,
                observed_digest,
            } => Members::new().with_text("kind", "planCreated").with_text(
                "plan_id",
                plan_id.as_str(),
            ).with_text("graph_id", graph_id.as_str()).with_text(
                "generation",
                generation.as_str(),
            ).with_text("slice_sequence", slice_sequence.as_str()).with_text(
                "desired_digest",
                desired_digest.as_str(),
            ).with_text("observed_digest", observed_digest.as_str()),
            JournalEvent::PlanStale { plan_id, reason } => Members::new().with_text(
                "kind",
                "planStale",
            ).with_text("plan_id", plan_id.as_str()).with_text("reason", reason.as_str()),
            JournalEvent::BindingEstablished { binding } => Members::new().with_text(
                "kind",
                "bindingEstablished",
            ).with("binding", binding.document()),
            JournalEvent::OperationStarted { plan_id, operation_id, idempotency_key } =>
                Members::new().with_text("kind", "operationStarted").with_text(
                "plan_id",
                plan_id.as_str(),
            ).with_text("operation_id", operation_id.as_str()).with_text(
                "idempotency_key",
                idempotency_key.as_str(),
            ),
            JournalEvent::OperationSucceeded {
                plan_id,
                operation_id,
                observed_digest,
                recovered,
            } => Members::new().with_text("kind", "operationSucceeded").with_text(
                "plan_id",
                plan_id.as_str(),
            ).with_text("operation_id", operation_id.as_str()).with_text(
                "observed_digest",
                observed_digest.as_str(),
            ).with("recovered", crate::json::boolean(*recovered)),
            JournalEvent::OperationFailed { plan_id, operation_id, code, detail } =>
                Members::new().with_text("kind", "operationFailed").with_text(
                "plan_id",
                plan_id.as_str(),
            ).with_text("operation_id", operation_id.as_str()).with_text(
                "code",
                code.as_str(),
            ).with_text("detail", detail.as_str()),
            JournalEvent::GraphReleased { graph_id } => Members::new().with_text(
                "kind",
                "graphReleased",
            ).with_text("graph_id", graph_id.as_str()),
        };
        assert(members@ =~= self@.members());
        members.finish()
    }
}

impl JournalEnvelopeView {
    /// The members of the document.
    pub open spec fn members(self) -> Seq<(Seq<char>, JsonView)> {
        seq![
            ("apiVersion"@, JsonView::Text(self.api_version)),
            ("eventId"@, JsonView::Text(self.event_id)),
            ("event"@, self.event.document()),
        ]
    }

    /// The envelope as a document.
    pub open spec fn document(self) -> JsonView {
        object_of(self.members())
    }
}

impl JournalEnvelope {
    /// The bytes of the record that stores the envelope.
    pub fn body(&self) -> (r: Vec<u8>)
        ensures
            r@ == json_bytes(self@.document()),
    {
        let members = Members::new().with_text("apiVersion", self.api_version.as_str()).with_text(
            "eventId",
            self.event_id.as_str(),
        ).with("event", self.event.document());
        assert(members@ =~= self@.members());
        crate::json::to_bytes(&members.finish())
    }
}

}
