//! One reconcile pass: what it asks for next, given what came of what it asked for.

use vstd::prelude::*;
use vstd::utf8::encode_utf8;

use crate::hashing::hex_bytes;
use crate::hashing::is_hex;
use crate::journal::evidence_text;
use crate::journal::next_sequence;
use crate::journal::JournalEvent;
use crate::journal::JournalEventView;
use crate::journal::JournalFault;
use crate::journal::JournalFaultView;
use crate::journal::JournalSnapshot;
use crate::journal::JournalSnapshotView;
use crate::journal::OperationJournal;
use crate::journal::OperationState;
use crate::journal::OperationStateView;
use crate::model::optional;
use crate::model::outcome;
use crate::order::held;
use crate::plan::build_plan;
use crate::plan::desired_diagnostics;
use crate::plan::validate_desired;
use crate::plan::ExecutablePlan;
use crate::plan::ExecutablePlanView;
use crate::plan::Operation;
use crate::plan::OperationView;
use crate::plan::PlanContext;
use crate::plan::PlanContextView;
use crate::plan::PlannedOperation;
use crate::plan::PlannedOperationView;
use crate::plan::Planning;
use crate::reconciler::describes;
use crate::reconciler::state_failure;
use crate::reconciler::target_state;
use crate::reconciler::validate_plan_identity;
use crate::reconciler::Checkpoint;
use crate::reconciler::CheckpointView;
use crate::reconciler::ReconcileError;
use crate::reconciler::ReconcileErrorView;
use crate::reconciler::ReportError;
use crate::reconciler::ReportErrorView;
use crate::report::diagnostic;
use crate::report::failed_level;
use crate::report::failed_report;
use crate::report::finding;
use crate::report::operation_level;
use crate::report::operation_report;
use crate::report::plan_diagnostics;
use crate::report::plan_findings;
use crate::report::publication_identity;
use crate::report::ready_level;
use crate::report::ready_report;
use crate::report::reconciling_level;
use crate::report::reconciling_report;
use crate::report::stable_publication_id;
use crate::report::Diagnostic;
use crate::report::DiagnosticSeverity;
use crate::report::PublicationEvidence;
use crate::report::PublicationEvidenceView;
use crate::report::ReportSnapshot;
use crate::report::ReportSnapshotView;
use crate::report::SliceReport;
use crate::report::SliceReportView;
use crate::slice::DesiredSlice;
use crate::slice::DesiredSliceView;
use crate::target::ApplyResult;
use crate::target::ApplyResultView;
use crate::target::ObservedTarget;
use crate::target::ObservedTargetView;
use crate::target::ProviderDiagnostic;
use crate::target::ProviderDiagnosticView;
use crate::target::Target;
use crate::target::TargetError;
use crate::target::TargetErrorView;
use crate::text::decimal;
use crate::text::decimal_text;
use crate::text::number_error;
use crate::text::numeral;
use crate::text::Plus as _;

verus! {

broadcast use crate::model::group_model;

/// What one reconcile pass works with.
#[derive(Clone, Copy, Debug)]
pub struct PassContext<'a> {
    /// The desired level.
    pub desired: &'a DesiredSlice,
    /// The target.
    pub target: &'a Target,
    /// The operation journal.
    pub journal: &'a OperationJournal,
    /// Connector build identity bound into plans.
    pub connector_build: &'a str,
}

/// What a [`PassContext`] holds.
#[verifier::ext_equal]
pub struct PassContextView {
    pub desired: DesiredSliceView,
    pub api_url: Seq<char>,
    pub database_url_ref: Seq<char>,
    pub anon_key_ref: Seq<char>,
    pub basin: Seq<char>,
    pub stream: Seq<char>,
    pub connector_build: Seq<char>,
}

impl<'a> View for PassContext<'a> {
    type V = PassContextView;

    open spec fn view(&self) -> PassContextView {
        PassContextView {
            desired: self.desired@,
            api_url: self.target.configured().api_url@,
            database_url_ref: self.target.configured().database_url_ref@,
            anon_key_ref: self.target.configured().anon_key_ref@,
            basin: self.journal.basin(),
            stream: self.journal.stream(),
            connector_build: self.connector_build@,
        }
    }
}

/// Where a plan under review is kept.
#[derive(Debug, PartialEq, Eq)]
pub struct Artifacts {
    /// Path of the private executable plan.
    pub plan_path: String,
    /// Path of the machine review, for display.
    pub json_path: String,
}

/// What an [`Artifacts`] holds.
#[verifier::ext_equal]
pub struct ArtifactsView {
    pub plan_path: Seq<char>,
    pub json_path: Seq<char>,
}

impl DeepView for Artifacts {
    type V = ArtifactsView;

    open spec fn deep_view(&self) -> ArtifactsView {
        ArtifactsView {
            plan_path: self.plan_path@,
            json_path: self.json_path@,
        }
    }
}

impl View for Artifacts {
    type V = ArtifactsView;

    open spec fn view(&self) -> ArtifactsView {
        self.deep_view()
    }
}

/// Why an apply transaction changed nothing.
#[derive(Debug, PartialEq, Eq)]
pub enum Rejection {
    /// The target was not as the plan had observed it.
    TargetChanged {
        /// Fresh target digest.
        observed_digest: String,
    },
    /// The target refused the operation.
    Refused(ProviderDiagnostic),
}

/// What a [`Rejection`] holds.
#[verifier::ext_equal]
pub enum RejectionView {
    TargetChanged { observed_digest: Seq<char> },
    Refused(ProviderDiagnosticView),
}

impl DeepView for Rejection {
    type V = RejectionView;

    open spec fn deep_view(&self) -> RejectionView {
        match self {
            Rejection::TargetChanged { observed_digest } => RejectionView::TargetChanged {
                observed_digest: observed_digest@,
            },
            Rejection::Refused(value) => RejectionView::Refused(value@),
        }
    }
}

impl View for Rejection {
    type V = RejectionView;

    open spec fn view(&self) -> RejectionView {
        self.deep_view()
    }
}

/// What a pass waits for.
#[derive(Debug, PartialEq, Eq)]
pub enum Step {
    /// The journal's facts.
    Journal,
    /// The private plan under review.
    Plan {
        /// The journal's facts.
        journal: JournalSnapshot,
    },
    /// The target's facts, for an operation that is due.
    Observation {
        /// The plan under review.
        plan: ExecutablePlan,
        /// The journal's tail.
        tail: u64,
        /// Whether the journal knows the operation.
        attempted: bool,
        /// Whether the operation was started for this plan and has no terminal receipt.
        interrupted: bool,
    },
    /// The started receipt of an operation.
    Started {
        /// The plan under review.
        plan: ExecutablePlan,
    },
    /// The outcome of the apply transaction.
    Applied {
        /// The plan under review.
        plan: ExecutablePlan,
        /// The journal's tail.
        tail: u64,
        /// Whether the journal knew the operation before this pass.
        attempted: bool,
    },
    /// The journal's facts, after an apply transaction that changed nothing.
    Reload {
        /// The plan under review.
        plan: ExecutablePlan,
        /// Why nothing changed.
        rejection: Rejection,
    },
    /// A receipt; more receipts may follow before the report.
    Receipts {
        /// The receipts that follow.
        rest: Vec<JournalEvent>,
        /// The report after the last receipt.
        report: SliceReport,
        /// When to run the next pass, in seconds.
        retry: Option<u64>,
    },
    /// The target's facts, for a new plan.
    Fresh {
        /// The journal's facts.
        journal: JournalSnapshot,
    },
    /// The places of a new plan's artifacts.
    Persisted {
        /// The new plan.
        plan: ExecutablePlan,
        /// The journal's tail.
        tail: u64,
    },
    /// The creation receipt of a new plan.
    Created {
        /// The new plan.
        plan: ExecutablePlan,
        /// The places of its artifacts.
        artifacts: Artifacts,
    },
    /// The saved checkpoint.
    Saved {
        /// The report to deliver.
        snapshot: ReportSnapshot,
        /// When to run the next pass, in seconds.
        retry: Option<u64>,
    },
    /// The delivered report.
    Reported {
        /// When to run the next pass, in seconds.
        retry: Option<u64>,
    },
    /// Nothing.
    Finished,
}

/// What a [`Step`] holds.
#[verifier::ext_equal]
pub enum StepView {
    Journal,
    Plan { journal: JournalSnapshotView },
    Observation { plan: ExecutablePlanView, tail: u64, attempted: bool, interrupted: bool },
    Started { plan: ExecutablePlanView },
    Applied { plan: ExecutablePlanView, tail: u64, attempted: bool },
    Reload { plan: ExecutablePlanView, rejection: RejectionView },
    Receipts { rest: Seq<JournalEventView>, report: SliceReportView, retry: Option<u64> },
    Fresh { journal: JournalSnapshotView },
    Persisted { plan: ExecutablePlanView, tail: u64 },
    Created { plan: ExecutablePlanView, artifacts: ArtifactsView },
    Saved { snapshot: ReportSnapshotView, retry: Option<u64> },
    Reported { retry: Option<u64> },
    Finished,
}

impl DeepView for Step {
    type V = StepView;

    open spec fn deep_view(&self) -> StepView {
        match self {
            Step::Journal => StepView::Journal,
            Step::Plan { journal } => StepView::Plan {
                journal: journal@,
            },
            Step::Observation { plan, tail, attempted, interrupted } => StepView::Observation {
                plan: plan@,
                tail: *tail,
                attempted: *attempted,
                interrupted: *interrupted,
            },
            Step::Started { plan } => StepView::Started {
                plan: plan@,
            },
            Step::Applied { plan, tail, attempted } => StepView::Applied {
                plan: plan@,
                tail: *tail,
                attempted: *attempted,
            },
            Step::Reload { plan, rejection } => StepView::Reload {
                plan: plan@,
                rejection: rejection@,
            },
            Step::Receipts { rest, report, retry } => StepView::Receipts {
                rest: rest.deep_view(),
                report: report@,
                retry: *retry,
            },
            Step::Fresh { journal } => StepView::Fresh {
                journal: journal@,
            },
            Step::Persisted { plan, tail } => StepView::Persisted {
                plan: plan@,
                tail: *tail,
            },
            Step::Created { plan, artifacts } => StepView::Created {
                plan: plan@,
                artifacts: artifacts@,
            },
            Step::Saved { snapshot, retry } => StepView::Saved {
                snapshot: snapshot@,
                retry: *retry,
            },
            Step::Reported { retry } => StepView::Reported {
                retry: *retry,
            },
            Step::Finished => StepView::Finished,
        }
    }
}

impl View for Step {
    type V = StepView;

    open spec fn view(&self) -> StepView {
        self.deep_view()
    }
}

/// What a pass asks for.
#[derive(Debug, PartialEq, Eq)]
pub enum Effect {
    /// Load and fold the journal.
    LoadJournal,
    /// Load the private plan.
    LoadPlan {
        /// Its path.
        path: String,
    },
    /// Observe the target.
    Observe,
    /// Append an event to the journal at an exact tail.
    Append {
        /// The expected tail.
        tail: u64,
        /// The event.
        event: JournalEvent,
    },
    /// Apply the plan's first operation after a locked freshness check.
    Apply {
        /// The plan.
        plan: ExecutablePlan,
    },
    /// Persist the private plan and its review.
    Persist {
        /// The plan.
        plan: ExecutablePlan,
    },
    /// Save the checkpoint.
    Save {
        /// The checkpoint.
        checkpoint: Checkpoint,
    },
    /// Deliver the report.
    Report {
        /// The report.
        snapshot: ReportSnapshot,
    },
    /// End the pass, and run the next one after the given seconds, if any are given.
    Finish {
        /// How the pass ended.
        result: Result<(), ReconcileError>,
        /// When to run the next pass, in seconds.
        retry: Option<u64>,
    },
}

/// What an [`Effect`] holds.
#[verifier::ext_equal]
pub enum EffectView {
    LoadJournal,
    LoadPlan { path: Seq<char> },
    Observe,
    Append { tail: u64, event: JournalEventView },
    Apply { plan: ExecutablePlanView },
    Persist { plan: ExecutablePlanView },
    Save { checkpoint: CheckpointView },
    Report { snapshot: ReportSnapshotView },
    Finish { result: Result<(), ReconcileErrorView>, retry: Option<u64> },
}

impl DeepView for Effect {
    type V = EffectView;

    open spec fn deep_view(&self) -> EffectView {
        match self {
            Effect::LoadJournal => EffectView::LoadJournal,
            Effect::LoadPlan { path } => EffectView::LoadPlan {
                path: path@,
            },
            Effect::Observe => EffectView::Observe,
            Effect::Append { tail, event } => EffectView::Append {
                tail: *tail,
                event: event@,
            },
            Effect::Apply { plan } => EffectView::Apply {
                plan: plan@,
            },
            Effect::Persist { plan } => EffectView::Persist {
                plan: plan@,
            },
            Effect::Save { checkpoint } => EffectView::Save {
                checkpoint: checkpoint@,
            },
            Effect::Report { snapshot } => EffectView::Report {
                snapshot: snapshot@,
            },
            Effect::Finish { result, retry } => EffectView::Finish {
                result: match result {
                    Ok(value) => Ok(()),
                    Err(error) => Err(error@),
                },
                retry: *retry,
            },
        }
    }
}

impl View for Effect {
    type V = EffectView;

    open spec fn view(&self) -> EffectView {
        self.deep_view()
    }
}

/// What an effect came to.
#[derive(Debug, PartialEq, Eq)]
pub enum Event {
    /// The journal's facts.
    Journal(Result<JournalSnapshot, JournalFault>),
    /// The private plan.
    Plan(Result<ExecutablePlan, String>),
    /// The target's facts.
    Observed(Result<ObservedTarget, TargetError>),
    /// The journal's new tail.
    Appended(Result<u64, JournalFault>),
    /// The outcome of the apply transaction.
    Applied(Result<ApplyResult, TargetError>),
    /// The places of the artifacts.
    Persisted(Result<Artifacts, String>),
    /// Whether the checkpoint was saved.
    Saved(Result<(), String>),
    /// Whether the report was delivered.
    Reported(Result<(), ReportError>),
}

/// What an [`Event`] holds.
#[verifier::ext_equal]
pub enum EventView {
    Journal(Result<JournalSnapshotView, JournalFaultView>),
    Plan(Result<ExecutablePlanView, Seq<char>>),
    Observed(Result<ObservedTargetView, TargetErrorView>),
    Appended(Result<u64, JournalFaultView>),
    Applied(Result<ApplyResultView, TargetErrorView>),
    Persisted(Result<ArtifactsView, Seq<char>>),
    Saved(Result<(), Seq<char>>),
    Reported(Result<(), ReportErrorView>),
}

impl DeepView for Event {
    type V = EventView;

    open spec fn deep_view(&self) -> EventView {
        match self {
            Event::Journal(value) => EventView::Journal(match value {
                    Ok(value) => Ok(value@),
                    Err(error) => Err(error@),
            }),
            Event::Plan(value) => EventView::Plan(match value {
                    Ok(value) => Ok(value@),
                    Err(error) => Err(error@),
            }),
            Event::Observed(value) => EventView::Observed(match value {
                    Ok(value) => Ok(value@),
                    Err(error) => Err(error@),
            }),
            Event::Appended(value) => EventView::Appended(match value {
                    Ok(value) => Ok(*value),
                    Err(error) => Err(error@),
            }),
            Event::Applied(value) => EventView::Applied(match value {
                    Ok(value) => Ok(value@),
                    Err(error) => Err(error@),
            }),
            Event::Persisted(value) => EventView::Persisted(match value {
                    Ok(value) => Ok(value@),
                    Err(error) => Err(error@),
            }),
            Event::Saved(value) => EventView::Saved(match value {
                    Ok(value) => Ok(()),
                    Err(error) => Err(error@),
            }),
            Event::Reported(value) => EventView::Reported(match value {
                    Ok(value) => Ok(()),
                    Err(error) => Err(error@),
            }),
        }
    }
}

impl View for Event {
    type V = EventView;

    open spec fn view(&self) -> EventView {
        self.deep_view()
    }
}

/// One reconcile pass that is under way.
#[derive(Debug, PartialEq, Eq)]
pub struct Pass {
    /// Delivery identity of the pass's report.
    pub request_id: Vec<u8>,
    /// What is retained of the graph.
    pub checkpoint: Checkpoint,
    /// What the pass waits for.
    pub step: Step,
}

/// What a [`Pass`] holds.
#[verifier::ext_equal]
pub struct PassView {
    pub request_id: Seq<u8>,
    pub checkpoint: CheckpointView,
    pub step: StepView,
}

impl DeepView for Pass {
    type V = PassView;

    open spec fn deep_view(&self) -> PassView {
        PassView {
            request_id: self.request_id@,
            checkpoint: self.checkpoint@,
            step: self.step@,
        }
    }
}

impl View for Pass {
    type V = PassView;

    open spec fn view(&self) -> PassView {
        self.deep_view()
    }
}

// ---------------------------------------------------------------------------
// Beginning
// ---------------------------------------------------------------------------

/// What beginning a pass comes to.
#[derive(Debug, PartialEq, Eq)]
pub enum Opening {
    /// There is nothing to do, or something is missing.
    Stop(Result<(), ReconcileError>),
    /// The pass is under way, and asks for the journal.
    Go(Pass),
}

/// What an [`Opening`] holds.
#[verifier::ext_equal]
pub enum OpeningView {
    Stop(Result<(), ReconcileErrorView>),
    Go(PassView),
}

impl DeepView for Opening {
    type V = OpeningView;

    open spec fn deep_view(&self) -> OpeningView {
        match self {
            Opening::Stop(value) => OpeningView::Stop(match value {
                    Ok(value) => Ok(()),
                    Err(error) => Err(error@),
            }),
            Opening::Go(value) => OpeningView::Go(value@),
        }
    }
}

impl View for Opening {
    type V = OpeningView;

    open spec fn view(&self) -> OpeningView {
        self.deep_view()
    }
}

/// What beginning a pass comes to.
pub open spec fn opening_of(
    checkpoint: Option<CheckpointView>,
    expected_sequence: u64,
    desired_is_loaded: bool,
    request_id: Seq<u8>,
) -> OpeningView {
    match checkpoint {
        None => OpeningView::Stop(
            Err(state_failure("accepted graph checkpoint is missing"@)),
        ),
        Some(checkpoint) => if checkpoint.retired || checkpoint.sequence != expected_sequence {
            OpeningView::Stop(Ok(()))
        } else if !desired_is_loaded {
            OpeningView::Stop(Err(state_failure("accepted desired slice is not loaded"@)))
        } else {
            OpeningView::Go(PassView { request_id, checkpoint, step: StepView::Journal })
        },
    }
}

/// Begins a pass for the sequence that it was scheduled for.
pub fn open_pass(
    checkpoint: Option<Checkpoint>,
    expected_sequence: u64,
    desired_is_loaded: bool,
    request_id: Vec<u8>,
) -> (r: Opening)
    ensures
        r@ == opening_of(
            match checkpoint {
                Some(value) => Some(value@),
                None => None,
            },
            expected_sequence,
            desired_is_loaded,
            request_id@,
        ),
{
    match checkpoint {
        None => Opening::Stop(
            Err(ReconcileError::State("accepted graph checkpoint is missing".to_owned())),
        ),
        Some(checkpoint) => {
            if checkpoint.retired || checkpoint.sequence != expected_sequence {
                return Opening::Stop(Ok(()));
            }
            if !desired_is_loaded {
                return Opening::Stop(
                    Err(ReconcileError::State("accepted desired slice is not loaded".to_owned())),
                );
            }
            Opening::Go(Pass { request_id, checkpoint, step: Step::Journal })
        },
    }
}

// ---------------------------------------------------------------------------
// Turns
// ---------------------------------------------------------------------------

/// The started receipt of a planned operation.
pub open spec fn started_receipt(
    plan: ExecutablePlanView,
    operation: PlannedOperationView,
) -> JournalEventView {
    JournalEventView::OperationStarted {
        plan_id: plan.plan_id,
        operation_id: operation.id,
        idempotency_key: operation.id,
    }
}

/// The success receipt of a planned operation.
pub open spec fn succeeded_receipt(
    plan: ExecutablePlanView,
    operation: PlannedOperationView,
    observed_digest: Seq<char>,
    recovered: bool,
) -> JournalEventView {
    JournalEventView::OperationSucceeded {
        plan_id: plan.plan_id,
        operation_id: operation.id,
        observed_digest,
        recovered,
    }
}

/// The creation receipt of a plan.
pub open spec fn created_receipt(plan: ExecutablePlanView) -> JournalEventView {
    JournalEventView::PlanCreated {
        plan_id: plan.plan_id,
        graph_id: plan.graph_id,
        generation: plan.generation,
        slice_sequence: plan.slice_sequence,
        desired_digest: plan.desired_digest,
        observed_digest: plan.observed_digest,
    }
}

/// The report that a plan is out of date because the journal advanced.
pub open spec fn fence_report(desired: DesiredSliceView) -> SliceReportView {
    reconciling_level(
        desired,
        "supabase.plan.stale"@,
        "operation journal advanced after this plan was reviewed; a fresh plan is required"@,
        "No target mutation was attempted."@,
    )
}

/// The report that a plan is out of date because the target changed.
pub open spec fn changed_report(desired: DesiredSliceView) -> SliceReportView {
    reconciling_level(
        desired,
        "supabase.plan.stale"@,
        "target observation changed before apply; the exact reviewed plan was rejected"@,
        "A new plan will be derived from current target truth."@,
    )
}

/// The report that the target refused an operation.
pub open spec fn refused_report(
    desired: DesiredSliceView,
    operation: PlannedOperationView,
    provider: ProviderDiagnosticView,
) -> SliceReportView {
    failed_level(
        desired,
        seq![
            finding(
                DiagnosticSeverity::Error,
                provider.code,
                provider.detail,
                first_scope(operation),
                provider.help,
                None,
            ),
        ],
    )
}

/// The first component that an operation affects, if its hash decodes.
pub open spec fn first_scope(operation: PlannedOperationView) -> Option<Seq<u8>> {
    if operation.component_scopes.len() > 0 && is_hex(operation.component_scopes[0]) {
        Some(hex_bytes(encode_utf8(operation.component_scopes[0])))
    } else {
        None
    }
}

/// The report that a plan is ready for review.
pub open spec fn planned_report(
    desired: DesiredSliceView,
    plan: ExecutablePlanView,
    json_path: Seq<char>,
) -> SliceReportView {
    reconciling_level(
        desired,
        "supabase.plan.ready"@,
        "reviewable plan "@ + plan.plan_id + " is ready at "@ + json_path,
        "The next level-triggered pass applies at most one exact planned operation."@,
    )
}

impl PassContextView {
    /// What a new plan is made from.
    pub open spec fn planning(
        self,
        journal: JournalSnapshotView,
        observed: ObservedTargetView,
    ) -> Planning {
        Planning {
            desired: self.desired,
            journal,
            observed,
            context: PlanContextView {
                journal_tail_after_plan: next_sequence(journal.tail),
                connector_build: self.connector_build,
                api_url: self.api_url,
                database_url_ref: self.database_url_ref,
                anon_key_ref: self.anon_key_ref,
            },
        }
    }
}

impl PassView {
    /// The pass ends with a failure.
    pub open spec fn fail(self, error: ReconcileErrorView) -> (PassView, EffectView) {
        (
            PassView { step: StepView::Finished, ..self },
            EffectView::Finish { result: Err(error), retry: None },
        )
    }

    /// The report is kept with the checkpoint, then delivered.
    pub open spec fn publish(
        self,
        report: SliceReportView,
        publication_id: Option<Seq<u8>>,
        retry: Option<u64>,
    ) -> (PassView, EffectView) {
        let snapshot = ReportSnapshotView { request_id: self.request_id, publication_id, report };
        let checkpoint = CheckpointView { last_report: Some(snapshot), ..self.checkpoint };
        (
            PassView { checkpoint, step: StepView::Saved { snapshot, retry }, ..self },
            EffectView::Save { checkpoint },
        )
    }

    /// The pass without a plan under review.
    pub open spec fn without_plan(self) -> PassView {
        PassView {
            checkpoint: CheckpointView { current_plan: None, ..self.checkpoint },
            ..self
        }
    }

    /// The receipts are appended one after the other, then the report is published.
    pub open spec fn receipt(
        self,
        tail: u64,
        events: Seq<JournalEventView>,
        report: SliceReportView,
        retry: Option<u64>,
    ) -> (PassView, EffectView) {
        (
            PassView {
                step: StepView::Receipts { rest: events.drop_first(), report, retry },
                ..self
            },
            EffectView::Append { tail, event: events[0] },
        )
    }

    /// The turn once the journal is known.
    pub open spec fn on_journal(
        self,
        context: PassContextView,
        journal: JournalSnapshotView,
    ) -> (PassView, EffectView) {
        let diagnostics = desired_diagnostics(context.desired, journal);
        if diagnostics.len() > 0 {
            self.without_plan().publish(
                failed_level(context.desired, plan_findings(diagnostics)),
                None,
                None,
            )
        } else {
            match self.checkpoint.current_plan {
                Some(path) => (
                    PassView { step: StepView::Plan { journal }, ..self },
                    EffectView::LoadPlan { path },
                ),
                None => (
                    PassView { step: StepView::Fresh { journal }, ..self },
                    EffectView::Observe,
                ),
            }
        }
    }

    /// The turn once the plan under review and the journal's view of its first operation are
    /// known.
    pub open spec fn on_operation(
        self,
        context: PassContextView,
        journal: JournalSnapshotView,
        plan: ExecutablePlanView,
        expected_tail: nat,
    ) -> (PassView, EffectView) {
        let operation = plan.operations[0];
        let state = held(journal.operations, operation.id);
        let attempted = state is Some;
        let interrupted = state == Some(OperationStateView::Started { plan_id: plan.plan_id });
        if journal.tail != expected_tail && !interrupted {
            self.without_plan().receipt(
                journal.tail,
                seq![
                    JournalEventView::PlanStale {
                        plan_id: plan.plan_id,
                        reason: "journal-fence-changed"@,
                    },
                ],
                fence_report(context.desired),
                Some(0),
            )
        } else {
            match operation.operation {
                OperationView::EstablishBinding { binding } => self.without_plan().receipt(
                    journal.tail,
                    optional(!attempted, started_receipt(plan, operation)) + seq![
                        JournalEventView::BindingEstablished { binding },
                        succeeded_receipt(plan, operation, plan.observed_digest, attempted),
                    ],
                    operation_level(context.desired, operation, plan),
                    Some(0),
                ),
                _ => (
                    PassView {
                        step: StepView::Observation {
                            plan,
                            tail: journal.tail,
                            attempted,
                            interrupted,
                        },
                        ..self
                    },
                    EffectView::Observe,
                ),
            }
        }
    }

    /// The turn once the plan under review is known.
    pub open spec fn on_plan(
        self,
        context: PassContextView,
        journal: JournalSnapshotView,
        plan: ExecutablePlanView,
    ) -> (PassView, EffectView) {
        if plan.plan_id != plan.payload_id() {
            self.fail(state_failure("persisted executable plan does not match its digest"@))
        } else if !describes(plan, context.desired) {
            self.fail(
                state_failure(
                    "persisted executable plan does not describe current desired level"@,
                ),
            )
        } else if plan.operations.len() == 0 {
            self.fail(state_failure("persisted plan has no operation"@))
        } else {
            match numeral(plan.journal_tail) {
                Some(expected_tail) => if expected_tail <= u64::MAX {
                    self.on_operation(context, journal, plan, expected_tail)
                } else {
                    self.fail(state_failure(number_error(plan.journal_tail)))
                },
                None => self.fail(state_failure(number_error(plan.journal_tail))),
            }
        }
    }

    /// The turn once the target is observed for an operation that is due.
    pub open spec fn on_observation(
        self,
        context: PassContextView,
        plan: ExecutablePlanView,
        tail: u64,
        attempted: bool,
        interrupted: bool,
        current: ObservedTargetView,
    ) -> (PassView, EffectView) {
        let operation = plan.operations[0];
        if interrupted && current.satisfies(operation.operation) {
            self.without_plan().receipt(
                tail,
                seq![succeeded_receipt(plan, operation, current.digest_text(), true)],
                operation_level(context.desired, operation, plan),
                Some(0),
            )
        } else if !attempted {
            (
                PassView { step: StepView::Started { plan }, ..self },
                EffectView::Append { tail, event: started_receipt(plan, operation) },
            )
        } else {
            self.apply(plan, tail, attempted)
        }
    }

    /// The plan's first operation is applied.
    pub open spec fn apply(
        self,
        plan: ExecutablePlanView,
        tail: u64,
        attempted: bool,
    ) -> (PassView, EffectView) {
        (
            PassView { step: StepView::Applied { plan, tail, attempted }, ..self },
            EffectView::Apply { plan },
        )
    }

    /// The turn once the apply transaction has ended.
    pub open spec fn on_applied(
        self,
        context: PassContextView,
        plan: ExecutablePlanView,
        tail: u64,
        attempted: bool,
        applied: Result<ApplyResultView, TargetErrorView>,
    ) -> (PassView, EffectView) {
        let operation = plan.operations[0];
        match applied {
            Ok(ApplyResultView::Applied { observed_digest }) => self.without_plan().receipt(
                tail,
                seq![succeeded_receipt(plan, operation, observed_digest, attempted)],
                operation_level(context.desired, operation, plan),
                Some(0),
            ),
            Ok(ApplyResultView::Stale { observed_digest }) => (
                PassView {
                    step: StepView::Reload {
                        plan,
                        rejection: RejectionView::TargetChanged { observed_digest },
                    },
                    ..self
                },
                EffectView::LoadJournal,
            ),
            Err(TargetErrorView::Provider(provider)) => (
                PassView {
                    step: StepView::Reload { plan, rejection: RejectionView::Refused(provider) },
                    ..self
                },
                EffectView::LoadJournal,
            ),
            Err(TargetErrorView::Unavailable(detail)) => self.publish(
                reconciling_level(
                    context.desired,
                    "supabase.target.unavailable"@,
                    detail,
                    "The connector will retry from current target truth."@,
                ),
                None,
                Some(2),
            ),
        }
    }

    /// The turn once the journal is known again after an apply transaction that changed nothing.
    pub open spec fn on_reload(
        self,
        context: PassContextView,
        plan: ExecutablePlanView,
        rejection: RejectionView,
        journal: JournalSnapshotView,
    ) -> (PassView, EffectView) {
        let operation = plan.operations[0];
        match rejection {
            RejectionView::TargetChanged { observed_digest } => self.without_plan().receipt(
                journal.tail,
                seq![
                    JournalEventView::PlanStale {
                        plan_id: plan.plan_id,
                        reason: "target-changed:"@ + observed_digest,
                    },
                ],
                changed_report(context.desired),
                Some(0),
            ),
            RejectionView::Refused(provider) => self.without_plan().receipt(
                journal.tail,
                seq![
                    JournalEventView::OperationFailed {
                        plan_id: plan.plan_id,
                        operation_id: operation.id,
                        code: provider.code,
                        detail: provider.detail,
                    },
                ],
                refused_report(context.desired, operation, provider),
                None,
            ),
        }
    }

    /// The turn once the target is observed for a new plan.
    pub open spec fn on_fresh(
        self,
        context: PassContextView,
        journal: JournalSnapshotView,
        observed: Result<ObservedTargetView, TargetErrorView>,
    ) -> (PassView, EffectView) {
        match observed {
            Err(error) => self.publish(
                reconciling_level(
                    context.desired,
                    "supabase.target.observe"@,
                    error.message(),
                    "The connector will retry observation without applying anything."@,
                ),
                None,
                Some(2),
            ),
            Ok(observed) => match context.planning(journal, observed).result() {
                Err(diagnostics) => self.publish(
                    failed_level(context.desired, plan_findings(diagnostics)),
                    None,
                    None,
                ),
                Ok(plan) => if plan.operations.len() == 0 {
                    self.publish(
                        ready_level(
                            context.desired,
                            plan.published(),
                            PublicationEvidenceView {
                                revision: plan.observed_digest,
                                uri: evidence_text(context.basin, context.stream, journal.tail),
                            },
                        ),
                        publication_identity(plan.published()),
                        None,
                    )
                } else {
                    (
                        PassView { step: StepView::Persisted { plan, tail: journal.tail }, ..self },
                        EffectView::Persist { plan },
                    )
                },
            },
        }
    }

    /// The turn once a new plan's creation is receipted.
    pub open spec fn on_created(
        self,
        context: PassContextView,
        plan: ExecutablePlanView,
        artifacts: ArtifactsView,
        tail: u64,
    ) -> (PassView, EffectView) {
        if decimal_text(tail as nat) != plan.journal_tail {
            self.fail(state_failure("PlanCreated tail differs from executable freshness fence"@))
        } else {
            (PassView {
                checkpoint: CheckpointView {
                    current_plan: Some(artifacts.plan_path),
                    ..self.checkpoint
                },
                ..self
            }).publish(
                planned_report(context.desired, plan, artifacts.json_path),
                None,
                Some(0),
            )
        }
    }

    /// The event is of the kind that the pass waits for.
    pub open spec fn awaits(self, event: EventView) -> bool {
        match self.step {
            StepView::Journal => event is Journal,
            StepView::Plan { .. } => event is Plan,
            StepView::Observation { plan, .. } => event is Observed,
            StepView::Started { plan } => event is Appended,
            StepView::Applied { plan, .. } => event is Applied,
            StepView::Reload { plan, .. } => event is Journal,
            StepView::Receipts { .. } => event is Appended,
            StepView::Fresh { .. } => event is Observed,
            StepView::Persisted { .. } => event is Persisted,
            StepView::Created { .. } => event is Appended,
            StepView::Saved { .. } => event is Saved,
            StepView::Reported { .. } => event is Reported,
            StepView::Finished => false,
        }
    }

    /// The plan under review, where the pass has one, holds an operation.
    pub open spec fn well_formed(self) -> bool {
        match self.step {
            StepView::Observation { plan, .. } => plan.operations.len() > 0,
            StepView::Started { plan } => plan.operations.len() > 0,
            StepView::Applied { plan, .. } => plan.operations.len() > 0,
            StepView::Reload { plan, .. } => plan.operations.len() > 0,
            _ => true,
        }
    }

    /// The turn after an event.
    pub open spec fn after(self, context: PassContextView, event: EventView) -> (
        PassView,
        EffectView,
    ) {
        match (self.step, event) {
            (StepView::Journal, EventView::Journal(Ok(journal))) => self.on_journal(
                context,
                journal,
            ),
            (StepView::Plan { journal }, EventView::Plan(Ok(plan))) => self.on_plan(
                context,
                journal,
                plan,
            ),
            (
                StepView::Observation { plan, tail, attempted, interrupted },
                EventView::Observed(Ok(current)),
            ) => self.on_observation(context, plan, tail, attempted, interrupted, current),
            (StepView::Started { plan }, EventView::Appended(Ok(tail))) => self.apply(
                plan,
                tail,
                false,
            ),
            (StepView::Applied { plan, tail, attempted }, EventView::Applied(applied)) =>
                self.on_applied(context, plan, tail, attempted, applied),
            (StepView::Reload { plan, rejection }, EventView::Journal(Ok(journal))) =>
                self.on_reload(context, plan, rejection, journal),
            (StepView::Receipts { rest, report, retry }, EventView::Appended(Ok(tail))) => if rest.len()
                == 0 {
                self.publish(report, None, retry)
            } else {
                self.receipt(tail, rest, report, retry)
            },
            (StepView::Fresh { journal }, EventView::Observed(observed)) => self.on_fresh(
                context,
                journal,
                observed,
            ),
            (StepView::Persisted { plan, tail }, EventView::Persisted(Ok(artifacts))) => (
                PassView { step: StepView::Created { plan, artifacts }, ..self },
                EffectView::Append { tail, event: created_receipt(plan) },
            ),
            (StepView::Created { plan, artifacts }, EventView::Appended(Ok(tail))) =>
                self.on_created(context, plan, artifacts, tail),
            (StepView::Saved { snapshot, retry }, EventView::Saved(Ok(_))) => (
                PassView { step: StepView::Reported { retry }, ..self },
                EffectView::Report { snapshot },
            ),
            (StepView::Reported { retry }, EventView::Reported(Ok(_))) => (
                PassView { step: StepView::Finished, ..self },
                EffectView::Finish { result: Ok(()), retry },
            ),
            (_, EventView::Journal(Err(fault))) => self.fail(state_failure(fault.message())),
            (_, EventView::Appended(Err(fault))) => self.fail(state_failure(fault.message())),
            (_, EventView::Plan(Err(detail))) => self.fail(state_failure(detail)),
            (_, EventView::Observed(Err(error))) => self.fail(state_failure(error.message())),
            (_, EventView::Persisted(Err(detail))) => self.fail(state_failure(detail)),
            (_, EventView::Saved(Err(detail))) => self.fail(state_failure(detail)),
            (_, EventView::Reported(Err(error))) => self.fail(ReconcileErrorView::Report(error)),
            _ => self.fail(state_failure("unexpected event"@)),
        }
    }
}

fn started(plan: &ExecutablePlan, operation: &PlannedOperation) -> (r: JournalEvent)
    ensures
        r@ == started_receipt(plan@, operation@),
{
    JournalEvent::OperationStarted {
        plan_id: plan.plan_id.clone(),
        operation_id: operation.id.clone(),
        idempotency_key: operation.id.clone(),
    }
}

fn succeeded(
    plan: &ExecutablePlan,
    operation: &PlannedOperation,
    observed_digest: String,
    recovered: bool,
) -> (r: JournalEvent)
    ensures
        r@ == succeeded_receipt(plan@, operation@, observed_digest@, recovered),
{
    JournalEvent::OperationSucceeded {
        plan_id: plan.plan_id.clone(),
        operation_id: operation.id.clone(),
        observed_digest,
        recovered,
    }
}

fn created(plan: &ExecutablePlan) -> (r: JournalEvent)
    ensures
        r@ == created_receipt(plan@),
{
    JournalEvent::PlanCreated {
        plan_id: plan.plan_id.clone(),
        graph_id: plan.graph_id.clone(),
        generation: plan.generation.clone(),
        slice_sequence: plan.slice_sequence.clone(),
        desired_digest: plan.desired_digest.clone(),
        observed_digest: plan.observed_digest.clone(),
    }
}

fn only(event: JournalEvent) -> (r: Vec<JournalEvent>)
    ensures
        r.deep_view() == seq![event@],
        r@.len() == 1,
{
    let mut events: Vec<JournalEvent> = Vec::new();
    events.push(event);
    assert(events.deep_view() =~= seq![event@]);
    events
}

fn scope_hash(operation: &PlannedOperation) -> (r: Option<Vec<u8>>)
    ensures
        match r {
            Some(hash) => first_scope(operation@) == Some(hash@),
            None => first_scope(operation@) is None,
        },
{
    if operation.component_scopes.len() == 0 {
        return None;
    }
    assert(operation@.component_scopes[0] == operation.component_scopes@[0]@);
    match crate::hashing::decode(operation.component_scopes[0].as_str()) {
        Ok(bytes) => Some(bytes),
        Err(_) => None,
    }
}

fn report_refusal(
    desired: &DesiredSlice,
    operation: &PlannedOperation,
    provider: &ProviderDiagnostic,
) -> (r: SliceReport)
    ensures
        r@ == refused_report(desired@, operation@, provider@),
{
    let help = match &provider.help {
        Some(text) => Some(text.as_str()),
        None => None,
    };
    let mut diagnostics: Vec<Diagnostic> = Vec::new();
    diagnostics.push(
        diagnostic(
            provider.code.as_str(),
            provider.detail.as_str(),
            scope_hash(operation),
            help,
            None,
        ),
    );
    assert(diagnostics.deep_view() =~= seq![
        finding(
            DiagnosticSeverity::Error,
            provider@.code,
            provider@.detail,
            first_scope(operation@),
            provider@.help,
            None,
        ),
    ]);
    failed_report(desired, diagnostics)
}

/// A pass and what it asks for next.
#[derive(Debug, PartialEq, Eq)]
pub struct Turn {
    /// The pass.
    pub pass: Pass,
    /// What it asks for.
    pub effect: Effect,
}

impl Turn {
    /// The pass and what it asks for.
    pub open spec fn both(self) -> (PassView, EffectView) {
        (self.pass@, self.effect@)
    }
}

impl Pass {
    fn fail(self, error: ReconcileError) -> (r: Turn)
        ensures
            r.both() == self@.fail(error@),
    {
        Turn {
            pass: Pass {
                request_id: self.request_id,
                checkpoint: self.checkpoint,
                step: Step::Finished,
            },
            effect: Effect::Finish { result: Err(error), retry: None },
        }
    }

    fn publish(
        self,
        report: SliceReport,
        publication_id: Option<Vec<u8>>,
        retry: Option<u64>,
    ) -> (r: Turn)
        ensures
            r.both() == self@.publish(
                report@,
                match publication_id {
                    Some(id) => Some(id@),
                    None => None,
                },
                retry,
            ),
    {
        let snapshot = ReportSnapshot {
            request_id: crate::model::copy_bytes(&self.request_id),
            publication_id,
            report,
        };
        let mut checkpoint = self.checkpoint;
        checkpoint.last_report = Some(snapshot.clone());
        let effect = Effect::Save { checkpoint: checkpoint.clone() };
        Turn {
            pass: Pass {
                request_id: self.request_id,
                checkpoint,
                step: Step::Saved { snapshot, retry },
            },
            effect,
        }
    }

    fn without_plan(self) -> (r: Pass)
        ensures
            r@ == self@.without_plan(),
    {
        let mut pass = self;
        pass.checkpoint.current_plan = None;
        pass
    }

    fn at(self, step: Step) -> (r: Pass)
        ensures
            r@ == (PassView { step: step@, ..self@ }),
    {
        Pass { request_id: self.request_id, checkpoint: self.checkpoint, step }
    }

    fn receipt(
        self,
        tail: u64,
        events: Vec<JournalEvent>,
        report: SliceReport,
        retry: Option<u64>,
    ) -> (r: Turn)
        requires
            events@.len() > 0,
        ensures
            r.both() == self@.receipt(tail, events.deep_view(), report@, retry),
    {
        let ghost all = events.deep_view();
        let mut rest = events;
        let event = rest.remove(0);
        assert(event@ == all[0]);
        assert(rest.deep_view() =~= all.drop_first());
        Turn {
            pass: self.at(Step::Receipts { rest, report, retry }),
            effect: Effect::Append { tail, event },
        }
    }

    fn apply(self, plan: ExecutablePlan, tail: u64, attempted: bool) -> (r: Turn)
        ensures
            r.both() == self@.apply(plan@, tail, attempted),
    {
        let effect = Effect::Apply { plan: plan.clone() };
        Turn { pass: self.at(Step::Applied { plan, tail, attempted }), effect }
    }

    fn on_journal(self, context: PassContext<'_>, journal: JournalSnapshot) -> (r: Turn)
        ensures
            r.both() == self@.on_journal(context@, journal@),
    {
        let diagnostics = validate_desired(context.desired, &journal);
        if diagnostics.len() > 0 {
            let report = failed_report(context.desired, plan_diagnostics(&diagnostics));
            return self.without_plan().publish(report, None, None);
        }
        let path = match &self.checkpoint.current_plan {
            Some(path) => Some(path.clone()),
            None => None,
        };
        match path {
            Some(path) => Turn {
                pass: self.at(Step::Plan { journal }),
                effect: Effect::LoadPlan { path },
            },
            None => Turn { pass: self.at(Step::Fresh { journal }), effect: Effect::Observe },
        }
    }

    fn on_operation(
        self,
        context: PassContext<'_>,
        journal: JournalSnapshot,
        plan: ExecutablePlan,
        expected_tail: u64,
    ) -> (r: Turn)
        requires
            plan@.operations.len() > 0,
        ensures
            r.both() == self@.on_operation(context@, journal@, plan@, expected_tail as nat),
    {
        assert(plan@.operations[0] == plan.operations@[0]@);
        let operation = &plan.operations[0];
        let state = journal.operations.get(operation.id.as_str());
        let attempted = state.is_some();
        let interrupted = match state {
            Some(OperationState::Started { plan_id }) => *plan_id == plan.plan_id,
            _ => false,
        };
        let tail: u64 = journal.tail;
        if tail != expected_tail && !interrupted {
            let event = JournalEvent::PlanStale {
                plan_id: plan.plan_id.clone(),
                reason: "journal-fence-changed".to_owned(),
            };
            let report = reconciling_report(
                context.desired,
                "supabase.plan.stale",
                "operation journal advanced after this plan was reviewed; a fresh plan is required",
                "No target mutation was attempted.",
            );
            return self.without_plan().receipt(tail, only(event), report, Some(0));
        }
        match &operation.operation {
            Operation::EstablishBinding { binding } => {
                let mut events: Vec<JournalEvent> = Vec::new();
                if !attempted {
                    events.push(started(&plan, operation));
                }
                events.push(JournalEvent::BindingEstablished { binding: binding.clone() });
                events.push(
                    succeeded(&plan, operation, plan.observed_digest.clone(), attempted),
                );
                assert(events.deep_view() =~= optional(
                    !attempted,
                    started_receipt(plan@, operation@),
                ) + seq![
                    JournalEventView::BindingEstablished { binding: binding@ },
                    succeeded_receipt(plan@, operation@, plan@.observed_digest, attempted),
                ]);
                let report = operation_report(context.desired, operation, &plan);
                self.without_plan().receipt(tail, events, report, Some(0))
            },
            _ => Turn {
                pass: self.at(Step::Observation { plan, tail, attempted, interrupted }),
                effect: Effect::Observe,
            },
        }
    }

    fn on_plan(
        self,
        context: PassContext<'_>,
        journal: JournalSnapshot,
        plan: ExecutablePlan,
    ) -> (r: Turn)
        ensures
            r.both() == self@.on_plan(context@, journal@, plan@),
    {
        if !plan.verify_digest() {
            return self.fail(
                ReconcileError::State(
                    "persisted executable plan does not match its digest".to_owned(),
                ),
            );
        }
        match validate_plan_identity(&plan, context.desired) {
            Err(error) => {
                return self.fail(error);
            },
            Ok(_) => {},
        }
        if plan.operations.len() == 0 {
            return self.fail(ReconcileError::State("persisted plan has no operation".to_owned()));
        }
        match crate::text::parse_number(plan.journal_tail.as_str()) {
            Err(detail) => self.fail(ReconcileError::State(detail)),
            Ok(expected_tail) => self.on_operation(context, journal, plan, expected_tail),
        }
    }

    fn on_observation(
        self,
        context: PassContext<'_>,
        plan: ExecutablePlan,
        tail: u64,
        attempted: bool,
        interrupted: bool,
        current: ObservedTarget,
    ) -> (r: Turn)
        requires
            plan@.operations.len() > 0,
        ensures
            r.both() == self@.on_observation(
                context@,
                plan@,
                tail,
                attempted,
                interrupted,
                current@,
            ),
    {
        assert(plan@.operations[0] == plan.operations@[0]@);
        let operation = &plan.operations[0];
        if interrupted && context.target.operation_satisfied(&operation.operation, &current) {
            let event = succeeded(&plan, operation, current.digest_label(), true);
            let report = operation_report(context.desired, operation, &plan);
            return self.without_plan().receipt(tail, only(event), report, Some(0));
        }
        if !attempted {
            let event = started(&plan, operation);
            return Turn {
                pass: self.at(Step::Started { plan }),
                effect: Effect::Append { tail, event },
            };
        }
        self.apply(plan, tail, attempted)
    }

    fn on_applied(
        self,
        context: PassContext<'_>,
        plan: ExecutablePlan,
        tail: u64,
        attempted: bool,
        applied: Result<ApplyResult, TargetError>,
    ) -> (r: Turn)
        requires
            plan@.operations.len() > 0,
        ensures
            r.both() == self@.on_applied(context@, plan@, tail, attempted, outcome(applied)),
    {
        assert(plan@.operations[0] == plan.operations@[0]@);
        match applied {
            Ok(ApplyResult::Applied { observed_digest }) => {
                let operation = &plan.operations[0];
                let event = succeeded(&plan, operation, observed_digest, attempted);
                let report = operation_report(context.desired, operation, &plan);
                self.without_plan().receipt(tail, only(event), report, Some(0))
            },
            Ok(ApplyResult::Stale { observed_digest }) => Turn {
                pass: self.at(
                    Step::Reload { plan, rejection: Rejection::TargetChanged { observed_digest } },
                ),
                effect: Effect::LoadJournal,
            },
            Err(TargetError::Provider(provider)) => Turn {
                pass: self.at(Step::Reload { plan, rejection: Rejection::Refused(provider) }),
                effect: Effect::LoadJournal,
            },
            Err(TargetError::Unavailable(detail)) => {
                let report = reconciling_report(
                    context.desired,
                    "supabase.target.unavailable",
                    detail.as_str(),
                    "The connector will retry from current target truth.",
                );
                self.publish(report, None, Some(2))
            },
        }
    }

    fn on_reload(
        self,
        context: PassContext<'_>,
        plan: ExecutablePlan,
        rejection: Rejection,
        journal: JournalSnapshot,
    ) -> (r: Turn)
        requires
            plan@.operations.len() > 0,
        ensures
            r.both() == self@.on_reload(context@, plan@, rejection@, journal@),
    {
        assert(plan@.operations[0] == plan.operations@[0]@);
        match rejection {
            Rejection::TargetChanged { observed_digest } => {
                let event = JournalEvent::PlanStale {
                    plan_id: plan.plan_id.clone(),
                    reason: "target-changed:".to_owned().plus(observed_digest.as_str()),
                };
                let report = reconciling_report(
                    context.desired,
                    "supabase.plan.stale",
                    "target observation changed before apply; the exact reviewed plan was rejected",
                    "A new plan will be derived from current target truth.",
                );
                self.without_plan().receipt(journal.tail, only(event), report, Some(0))
            },
            Rejection::Refused(provider) => {
                let operation = &plan.operations[0];
                let event = JournalEvent::OperationFailed {
                    plan_id: plan.plan_id.clone(),
                    operation_id: operation.id.clone(),
                    code: provider.code.clone(),
                    detail: provider.detail.clone(),
                };
                let report = report_refusal(context.desired, operation, &provider);
                self.without_plan().receipt(journal.tail, only(event), report, None)
            },
        }
    }

    fn on_fresh(
        self,
        context: PassContext<'_>,
        journal: JournalSnapshot,
        observed: Result<ObservedTarget, TargetError>,
    ) -> (r: Turn)
        ensures
            r.both() == self@.on_fresh(context@, journal@, outcome(observed)),
    {
        let observed = match observed {
            Ok(observed) => observed,
            Err(error) => {
                let report = reconciling_report(
                    context.desired,
                    "supabase.target.observe",
                    error.message().as_str(),
                    "The connector will retry observation without applying anything.",
                );
                return self.publish(report, None, Some(2));
            },
        };
        let facts = PlanContext {
            journal_tail_after_plan: crate::journal::following(journal.tail),
            connector_build: context.connector_build,
            api_url: context.target.api_url(),
            database_url_ref: context.target.database_url_ref(),
            anon_key_ref: context.target.anon_key_ref(),
        };
        let ghost planning = context@.planning(journal@, observed@);
        assert(facts@ == planning.context);
        match build_plan(context.desired, &journal, &observed, facts) {
            Err(diagnostics) => {
                let report = failed_report(context.desired, plan_diagnostics(&diagnostics));
                self.publish(report, None, None)
            },
            Ok(plan) => {
                let tail: u64 = journal.tail;
                if plan.operations.len() == 0 {
                    proof {
                        crate::plan::built_plans_publish_every_component(planning);
                    }
                    let evidence = PublicationEvidence {
                        revision: plan.observed_digest.clone(),
                        uri: context.journal.evidence_uri(tail),
                    };
                    let report = ready_report(
                        context.desired,
                        plan.contract_outputs(),
                        evidence,
                    );
                    let publication_id = stable_publication_id(&report);
                    self.publish(report, publication_id, None)
                } else {
                    let effect = Effect::Persist { plan: plan.clone() };
                    Turn { pass: self.at(Step::Persisted { plan, tail }), effect }
                }
            },
        }
    }

    fn on_created(
        self,
        context: PassContext<'_>,
        plan: ExecutablePlan,
        artifacts: Artifacts,
        tail: u64,
    ) -> (r: Turn)
        ensures
            r.both() == self@.on_created(context@, plan@, artifacts@, tail),
    {
        if decimal(tail) != plan.journal_tail {
            return self.fail(
                ReconcileError::State(
                    "PlanCreated tail differs from executable freshness fence".to_owned(),
                ),
            );
        }
        let message = "reviewable plan ".to_owned().plus(plan.plan_id.as_str()).plus(
            " is ready at ",
        ).plus(artifacts.json_path.as_str());
        let report = reconciling_report(
            context.desired,
            "supabase.plan.ready",
            message.as_str(),
            "The next level-triggered pass applies at most one exact planned operation.",
        );
        let mut pass = self;
        pass.checkpoint.current_plan = Some(artifacts.plan_path);
        pass.publish(report, None, Some(0))
    }

    /// Takes what came of what the pass asked for, and says what it asks for next.
    pub fn advance(self, context: PassContext<'_>, event: Event) -> (r: Turn)
        requires
            self@.well_formed(),
        ensures
            r.both() == self@.after(context@, event@),
            r.pass@.well_formed(),
    {
        let ghost start = self@;
        let Pass { request_id, checkpoint, step } = self;
        match (step, event) {
            (Step::Journal, Event::Journal(Ok(journal))) => {
                let pass = Pass { request_id, checkpoint, step: Step::Journal };
                assert(pass@ == start);
                pass.on_journal(context, journal)
            },
            (Step::Plan { journal }, Event::Plan(Ok(plan))) => {
                let pass = Pass { request_id, checkpoint, step: Step::Finished };
                pass.on_plan(context, journal, plan)
            },
            (
                Step::Observation { plan, tail, attempted, interrupted },
                Event::Observed(Ok(current)),
            ) => {
                let pass = Pass { request_id, checkpoint, step: Step::Finished };
                pass.on_observation(context, plan, tail, attempted, interrupted, current)
            },
            (Step::Started { plan }, Event::Appended(Ok(tail))) => {
                let pass = Pass { request_id, checkpoint, step: Step::Finished };
                pass.apply(plan, tail, false)
            },
            (Step::Applied { plan, tail, attempted }, Event::Applied(applied)) => {
                let pass = Pass { request_id, checkpoint, step: Step::Finished };
                pass.on_applied(context, plan, tail, attempted, applied)
            },
            (Step::Reload { plan, rejection }, Event::Journal(Ok(journal))) => {
                let pass = Pass { request_id, checkpoint, step: Step::Finished };
                pass.on_reload(context, plan, rejection, journal)
            },
            (Step::Receipts { rest, report, retry }, Event::Appended(Ok(tail))) => {
                let pass = Pass { request_id, checkpoint, step: Step::Finished };
                if rest.len() == 0 {
                    pass.publish(report, None, retry)
                } else {
                    pass.receipt(tail, rest, report, retry)
                }
            },
            (Step::Fresh { journal }, Event::Observed(observed)) => {
                let pass = Pass { request_id, checkpoint, step: Step::Finished };
                pass.on_fresh(context, journal, observed)
            },
            (Step::Persisted { plan, tail }, Event::Persisted(Ok(artifacts))) => {
                let event = created(&plan);
                Turn {
                    pass: Pass { request_id, checkpoint, step: Step::Created { plan, artifacts } },
                    effect: Effect::Append { tail, event },
                }
            },
            (Step::Created { plan, artifacts }, Event::Appended(Ok(tail))) => {
                let pass = Pass { request_id, checkpoint, step: Step::Finished };
                pass.on_created(context, plan, artifacts, tail)
            },
            (Step::Saved { snapshot, retry }, Event::Saved(Ok(_))) => Turn {
                pass: Pass { request_id, checkpoint, step: Step::Reported { retry } },
                effect: Effect::Report { snapshot },
            },
            (Step::Reported { retry }, Event::Reported(Ok(_))) => Turn {
                pass: Pass { request_id, checkpoint, step: Step::Finished },
                effect: Effect::Finish { result: Ok(()), retry },
            },
            (_, event) => {
                let error = match event {
                    Event::Journal(Err(fault)) => ReconcileError::State(fault.message()),
                    Event::Appended(Err(fault)) => ReconcileError::State(fault.message()),
                    Event::Plan(Err(detail)) => ReconcileError::State(detail),
                    Event::Observed(Err(error)) => target_state(&error),
                    Event::Persisted(Err(detail)) => ReconcileError::State(detail),
                    Event::Saved(Err(detail)) => ReconcileError::State(detail),
                    Event::Reported(Err(error)) => ReconcileError::Report(error),
                    _ => ReconcileError::State("unexpected event".to_owned()),
                };
                Pass { request_id, checkpoint, step: Step::Finished }.fail(error)
            },
        }
    }
}

}
