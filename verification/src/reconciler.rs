//! Durable acceptance, retirement and plan identity.

use vstd::prelude::*;

use crate::hashing::blake3_text;
use crate::hashing::hex_text;
use crate::hashing::label_blake3;
use crate::journal::JournalEvent;
use crate::journal::JournalEventView;
use crate::journal::JournalFault;
use crate::journal::JournalSnapshot;
use crate::plan::ExecutablePlan;
use crate::plan::ExecutablePlanView;
use crate::report::ReportSnapshot;
use crate::report::ReportSnapshotView;
use crate::slice::DesiredSlice;
use crate::slice::DesiredSliceView;
use crate::slice::SliceError;
use crate::slice::SliceErrorView;
use crate::target::TargetError;
use crate::text::decimal;
use crate::text::decimal_text;
use crate::text::fields;
use crate::text::Plus as _;
use crate::text::Separator;

verus! {

broadcast use crate::model::group_model;

/// Persistent checkpoint and review-artifact layout.
#[derive(Clone, Debug)]
pub struct ReconcilerConfig {
    /// Connector state root.
    pub state_dir: String,
    /// Connector build identity bound into plans.
    pub connector_build: String,
}

/// Core callback transport failure.
#[derive(Debug, PartialEq, Eq)]
pub struct ReportError {
    /// Transport detail.
    pub detail: String,
}

/// What a [`ReportError`] holds.
#[verifier::ext_equal]
pub struct ReportErrorView {
    pub detail: Seq<char>,
}

impl DeepView for ReportError {
    type V = ReportErrorView;

    open spec fn deep_view(&self) -> ReportErrorView {
        ReportErrorView {
            detail: self.detail@,
        }
    }
}

impl View for ReportError {
    type V = ReportErrorView;

    open spec fn view(&self) -> ReportErrorView {
        self.deep_view()
    }
}

impl Clone for ReportError {
    fn clone(&self) -> (r: Self)
        ensures
            r@ == self@,
    {
        ReportError {
            detail: self.detail.clone(),
        }
    }
}

impl ReportErrorView {
    /// The failure in words.
    pub open spec fn message(self) -> Seq<char> {
        "core callback failed: "@ + self.detail
    }
}

impl ReportError {
    /// The failure in words.
    pub fn message(&self) -> (r: String)
        ensures
            r@ == self@.message(),
    {
        "core callback failed: ".to_owned().plus(self.detail.as_str())
    }
}

/// Acceptance/reconciliation failure at the service boundary.
#[derive(Debug, PartialEq, Eq)]
pub enum ReconcileError {
    /// Caller supplied an invalid shared slice/context.
    Invalid(SliceError),
    /// Graph was terminally retired.
    Retired,
    /// Equal sequence was reused for different desired contents.
    SequenceConflict(u64),
    /// Durable local or journal operation state failed.
    State(String),
    /// Core callback failed.
    Report(ReportError),
}

/// What a [`ReconcileError`] holds.
#[verifier::ext_equal]
pub enum ReconcileErrorView {
    Invalid(SliceErrorView),
    Retired,
    SequenceConflict(u64),
    State(Seq<char>),
    Report(ReportErrorView),
}

impl DeepView for ReconcileError {
    type V = ReconcileErrorView;

    open spec fn deep_view(&self) -> ReconcileErrorView {
        match self {
            ReconcileError::Invalid(value) => ReconcileErrorView::Invalid(value@),
            ReconcileError::Retired => ReconcileErrorView::Retired,
            ReconcileError::SequenceConflict(value) => ReconcileErrorView::SequenceConflict(*value),
            ReconcileError::State(value) => ReconcileErrorView::State(value@),
            ReconcileError::Report(value) => ReconcileErrorView::Report(value@),
        }
    }
}

impl View for ReconcileError {
    type V = ReconcileErrorView;

    open spec fn view(&self) -> ReconcileErrorView {
        self.deep_view()
    }
}

impl Clone for ReconcileError {
    fn clone(&self) -> (r: Self)
        ensures
            r@ == self@,
    {
        match self {
            ReconcileError::Invalid(value) => ReconcileError::Invalid(value.clone()),
            ReconcileError::Retired => ReconcileError::Retired,
            ReconcileError::SequenceConflict(value) => ReconcileError::SequenceConflict(*value),
            ReconcileError::State(value) => ReconcileError::State(value.clone()),
            ReconcileError::Report(value) => ReconcileError::Report(value.clone()),
        }
    }
}

impl ReconcileErrorView {
    /// The failure in words.
    pub open spec fn message(self) -> Seq<char> {
        match self {
            ReconcileErrorView::Invalid(error) => "invalid slice: "@ + error.message,
            ReconcileErrorView::Retired => "graph is retired"@,
            ReconcileErrorView::SequenceConflict(sequence) => "slice sequence "@ + decimal_text(
                sequence as nat,
            ) + " was already accepted with different contents"@,
            ReconcileErrorView::State(detail) => "connector state failure: "@ + detail,
            ReconcileErrorView::Report(error) => error.message(),
        }
    }
}

impl ReconcileError {
    /// The failure in words.
    pub fn message(&self) -> (r: String)
        ensures
            r@ == self@.message(),
    {
        match self {
            ReconcileError::Invalid(error) => "invalid slice: ".to_owned().plus(
                error.message.as_str(),
            ),
            ReconcileError::Retired => "graph is retired".to_owned(),
            ReconcileError::SequenceConflict(sequence) => "slice sequence ".to_owned().plus(
                decimal(*sequence).as_str(),
            ).plus(" was already accepted with different contents"),
            ReconcileError::State(detail) => "connector state failure: ".to_owned().plus(
                detail.as_str(),
            ),
            ReconcileError::Report(error) => error.message(),
        }
    }
}

/// What is retained of one graph.
#[derive(Debug, PartialEq, Eq)]
pub struct Checkpoint {
    /// Raw graph UUID bytes.
    pub graph_id: [u8; 16],
    /// Generation of the accepted level.
    pub generation: u64,
    /// Sequence of the accepted level.
    pub sequence: u64,
    /// Digest of the accepted level.
    pub desired_digest: [u8; 32],
    /// Path of the private plan under review.
    pub current_plan: Option<String>,
    /// The last report.
    pub last_report: Option<ReportSnapshot>,
    /// Whether the graph is retired.
    pub retired: bool,
}

/// What a [`Checkpoint`] holds.
#[verifier::ext_equal]
pub struct CheckpointView {
    pub graph_id: Seq<u8>,
    pub generation: u64,
    pub sequence: u64,
    pub desired_digest: Seq<u8>,
    pub current_plan: Option<Seq<char>>,
    pub last_report: Option<ReportSnapshotView>,
    pub retired: bool,
}

impl DeepView for Checkpoint {
    type V = CheckpointView;

    open spec fn deep_view(&self) -> CheckpointView {
        CheckpointView {
            graph_id: self.graph_id@,
            generation: self.generation,
            sequence: self.sequence,
            desired_digest: self.desired_digest@,
            current_plan: match self.current_plan {
                Some(value) => Some(value@),
                None => None,
            },
            last_report: match self.last_report {
                Some(value) => Some(value@),
                None => None,
            },
            retired: self.retired,
        }
    }
}

impl View for Checkpoint {
    type V = CheckpointView;

    open spec fn view(&self) -> CheckpointView {
        self.deep_view()
    }
}

impl Clone for Checkpoint {
    fn clone(&self) -> (r: Self)
        ensures
            r@ == self@,
    {
        Checkpoint {
            graph_id: self.graph_id,
            generation: self.generation,
            sequence: self.sequence,
            desired_digest: self.desired_digest,
            current_plan: match &self.current_plan {
                Some(value) => Some(value.clone()),
                None => None,
            },
            last_report: match &self.last_report {
                Some(value) => Some(value.clone()),
                None => None,
            },
            retired: self.retired,
        }
    }
}

// ---------------------------------------------------------------------------
// Failures of the journal and the target
// ---------------------------------------------------------------------------

/// A state failure.
pub open spec fn state_failure(detail: Seq<char>) -> ReconcileErrorView {
    ReconcileErrorView::State(detail)
}

/// The journal's facts, or its failure as a state failure.
pub fn journal_snapshot(loaded: Result<JournalSnapshot, JournalFault>) -> (r: Result<
    JournalSnapshot,
    ReconcileError,
>)
    ensures
        match loaded {
            Ok(snapshot) => r matches Ok(facts) && facts@ == snapshot@,
            Err(fault) => r matches Err(error) && error@ == state_failure(fault@.message()),
        },
{
    match loaded {
        Ok(snapshot) => Ok(snapshot),
        Err(fault) => Err(ReconcileError::State(fault.message())),
    }
}

/// The journal's new tail, or its failure as a state failure.
pub fn journal_append(appended: Result<u64, JournalFault>) -> (r: Result<u64, ReconcileError>)
    ensures
        match appended {
            Ok(tail) => r matches Ok(new_tail) && new_tail == tail,
            Err(fault) => r matches Err(error) && error@ == state_failure(fault@.message()),
        },
{
    match appended {
        Ok(tail) => Ok(tail),
        Err(fault) => Err(ReconcileError::State(fault.message())),
    }
}

/// The target's failure as a state failure.
pub fn target_state(error: &TargetError) -> (r: ReconcileError)
    ensures
        r@ == state_failure(error@.message()),
{
    ReconcileError::State(error.message())
}

/// Whether some component of a path, separated by slashes, is the directory of private plans.
pub fn _path_is_private_plan(path: &str) -> (r: bool)
    ensures
        r == fields(path@, Separator::Mark('/')).contains("plans"@),
{
    let pieces = crate::text::split(&crate::text::chars(path), Separator::Mark('/'));
    let ghost all = pieces.deep_view();
    let mut i: usize = 0;
    while i < pieces.len()
        invariant
            i <= pieces@.len(),
            all == pieces.deep_view(),
            all == fields(path@, Separator::Mark('/')),
            forall|j: int| 0 <= j < i ==> #[trigger] all[j] != "plans"@,
        decreases pieces.len() - i,
    {
        assert(all[i as int] == pieces@[i as int]@);
        if crate::text::same_text(crate::text::from_chars(&pieces[i]).as_str(), "plans") {
            return true;
        }
        i += 1;
    }
    false
}

// ---------------------------------------------------------------------------
// Acceptance
// ---------------------------------------------------------------------------

/// What accepting a desired level comes to.
#[derive(Debug, PartialEq, Eq)]
pub enum Acceptance {
    /// The level is refused.
    Refused(ReconcileError),
    /// A later level is retained: nothing changes, and its sequence is answered.
    Superseded(u64),
    /// The level is retained already: it is scheduled again, and its sequence is answered.
    Retained(u64),
    /// The level is new: the checkpoint is saved, the level is scheduled, and its sequence is
    /// answered.
    Accepted(Checkpoint),
}

/// What an [`Acceptance`] holds.
#[verifier::ext_equal]
pub enum AcceptanceView {
    Refused(ReconcileErrorView),
    Superseded(u64),
    Retained(u64),
    Accepted(CheckpointView),
}

impl DeepView for Acceptance {
    type V = AcceptanceView;

    open spec fn deep_view(&self) -> AcceptanceView {
        match self {
            Acceptance::Refused(value) => AcceptanceView::Refused(value@),
            Acceptance::Superseded(value) => AcceptanceView::Superseded(*value),
            Acceptance::Retained(value) => AcceptanceView::Retained(*value),
            Acceptance::Accepted(value) => AcceptanceView::Accepted(value@),
        }
    }
}

impl View for Acceptance {
    type V = AcceptanceView;

    open spec fn view(&self) -> AcceptanceView {
        self.deep_view()
    }
}

/// The checkpoint of a level with the digest that was just accepted.
pub open spec fn fresh_checkpoint(desired: DesiredSliceView, digest: Seq<u8>) -> CheckpointView {
    CheckpointView {
        graph_id: desired.graph_id,
        generation: desired.generation,
        sequence: desired.sequence,
        desired_digest: digest,
        current_plan: None,
        last_report: None,
        retired: false,
    }
}

/// What accepting a level with the digest comes to, given what is retained of its graph.
pub open spec fn acceptance_with(
    desired: DesiredSliceView,
    digest: Seq<u8>,
    current: Option<CheckpointView>,
) -> AcceptanceView {
    match current {
        None => AcceptanceView::Accepted(fresh_checkpoint(desired, digest)),
        Some(checkpoint) => if checkpoint.retired {
            AcceptanceView::Refused(ReconcileErrorView::Retired)
        } else if desired.sequence < checkpoint.sequence {
            AcceptanceView::Superseded(checkpoint.sequence)
        } else if desired.sequence == checkpoint.sequence {
            if digest != checkpoint.desired_digest {
                AcceptanceView::Refused(ReconcileErrorView::SequenceConflict(desired.sequence))
            } else {
                AcceptanceView::Retained(desired.sequence)
            }
        } else if desired.generation < checkpoint.generation {
            AcceptanceView::Refused(
                state_failure(
                    "slice generation "@ + decimal_text(desired.generation as nat)
                        + " precedes retained generation "@ + decimal_text(
                        checkpoint.generation as nat,
                    ),
                ),
            )
        } else {
            AcceptanceView::Accepted(fresh_checkpoint(desired, digest))
        },
    }
}

/// What accepting a level comes to, given what is retained of its graph.
pub open spec fn acceptance_of(
    desired: DesiredSliceView,
    current: Option<CheckpointView>,
) -> AcceptanceView {
    acceptance_with(desired, desired.digest(), current)
}

fn new_checkpoint(desired: &DesiredSlice, digest: &[u8; 32]) -> (r: Checkpoint)
    ensures
        r@ == fresh_checkpoint(desired@, digest@),
{
    Checkpoint {
        graph_id: desired.graph_id,
        generation: desired.generation,
        sequence: desired.sequence,
        desired_digest: *digest,
        current_plan: None,
        last_report: None,
        retired: false,
    }
}

/// Decides what accepting a complete desired level with the digest comes to.
pub fn accept_with_digest(
    desired: &DesiredSlice,
    digest: &[u8; 32],
    current: Option<&Checkpoint>,
) -> (r: Acceptance)
    ensures
        r@ == acceptance_with(desired@, digest@, current.deep_view()),
{
    match current {
        None => Acceptance::Accepted(new_checkpoint(desired, digest)),
        Some(checkpoint) => {
            if checkpoint.retired {
                return Acceptance::Refused(ReconcileError::Retired);
            }
            if desired.sequence < checkpoint.sequence {
                return Acceptance::Superseded(checkpoint.sequence);
            }
            if desired.sequence == checkpoint.sequence {
                if !crate::hashing::same_hash(digest, &checkpoint.desired_digest) {
                    return Acceptance::Refused(
                        ReconcileError::SequenceConflict(desired.sequence),
                    );
                }
                return Acceptance::Retained(desired.sequence);
            }
            if desired.generation < checkpoint.generation {
                return Acceptance::Refused(
                    ReconcileError::State(
                        "slice generation ".to_owned().plus(
                            decimal(desired.generation).as_str(),
                        ).plus(" precedes retained generation ").plus(
                            decimal(checkpoint.generation).as_str(),
                        ),
                    ),
                );
            }
            Acceptance::Accepted(new_checkpoint(desired, digest))
        },
    }
}

/// Decides what accepting a complete desired level comes to.
pub fn accept(desired: &DesiredSlice, current: Option<&Checkpoint>) -> (r: Acceptance)
    ensures
        r@ == acceptance_of(desired@, current.deep_view()),
{
    accept_with_digest(desired, &desired.desired_digest(), current)
}

/// Decides whether a recovered level with the digest is the retained one.
pub fn resume_with_digest(checkpoint: &Checkpoint, digest: &[u8; 32]) -> (r: Result<
    (),
    ReconcileError,
>)
    ensures
        r is Ok <==> digest@ == checkpoint@.desired_digest,
        r matches Err(error) ==> error@ == ReconcileErrorView::SequenceConflict(
            checkpoint@.sequence,
        ),
{
    if crate::hashing::same_hash(digest, &checkpoint.desired_digest) {
        Ok(())
    } else {
        Err(ReconcileError::SequenceConflict(checkpoint.sequence))
    }
}

/// Decides whether a recovered level is the retained one. A retired graph is not recovered.
pub fn resume(checkpoint: &Checkpoint, recovered: &DesiredSlice) -> (r: Result<(), ReconcileError>)
    ensures
        r is Ok <==> recovered@.digest() == checkpoint@.desired_digest,
        r matches Err(error) ==> error@ == ReconcileErrorView::SequenceConflict(
            checkpoint@.sequence,
        ),
{
    resume_with_digest(checkpoint, &recovered.desired_digest())
}

/// What retiring a graph comes to.
#[derive(Debug, PartialEq, Eq)]
pub enum Retirement {
    /// The request is refused.
    Refused(ReconcileError),
    /// The graph is retired already, and its generation is answered.
    Done(u64),
    /// The release is appended to the journal, the checkpoint is saved, and the generation is
    /// answered.
    Release {
        /// The release.
        event: JournalEvent,
        /// The checkpoint after it.
        checkpoint: Checkpoint,
    },
}

/// What a [`Retirement`] holds.
#[verifier::ext_equal]
pub enum RetirementView {
    Refused(ReconcileErrorView),
    Done(u64),
    Release { event: JournalEventView, checkpoint: CheckpointView },
}

impl DeepView for Retirement {
    type V = RetirementView;

    open spec fn deep_view(&self) -> RetirementView {
        match self {
            Retirement::Refused(value) => RetirementView::Refused(value@),
            Retirement::Done(value) => RetirementView::Done(*value),
            Retirement::Release { event, checkpoint } => RetirementView::Release {
                event: event@,
                checkpoint: checkpoint@,
            },
        }
    }
}

impl View for Retirement {
    type V = RetirementView;

    open spec fn view(&self) -> RetirementView {
        self.deep_view()
    }
}

/// What retiring a graph comes to, given what is retained of it.
pub open spec fn retirement_of(
    graph_id: Seq<u8>,
    current: Option<CheckpointView>,
    generation: u64,
    sequence: u64,
) -> RetirementView {
    match current {
        None => RetirementView::Refused(state_failure("cannot retire unknown graph"@)),
        Some(checkpoint) => if checkpoint.generation != generation || sequence
            < checkpoint.sequence {
            RetirementView::Refused(
                state_failure("retire identity does not match retained level"@),
            )
        } else if checkpoint.retired {
            RetirementView::Done(generation)
        } else {
            RetirementView::Release {
                event: JournalEventView::GraphReleased { graph_id: hex_text(graph_id) },
                checkpoint: CheckpointView {
                    retired: true,
                    current_plan: None,
                    last_report: None,
                    ..checkpoint
                },
            }
        },
    }
}

/// Decides what retiring a graph comes to. Ownership is released; database objects stay.
pub fn retire(
    graph_id: &[u8; 16],
    current: Option<&Checkpoint>,
    generation: u64,
    sequence: u64,
) -> (r: Retirement)
    ensures
        r@ == retirement_of(graph_id@, current.deep_view(), generation, sequence),
{
    match current {
        None => Retirement::Refused(
            ReconcileError::State("cannot retire unknown graph".to_owned()),
        ),
        Some(checkpoint) => {
            if checkpoint.generation != generation || sequence < checkpoint.sequence {
                return Retirement::Refused(
                    ReconcileError::State(
                        "retire identity does not match retained level".to_owned(),
                    ),
                );
            }
            if checkpoint.retired {
                return Retirement::Done(generation);
            }
            Retirement::Release {
                event: JournalEvent::GraphReleased {
                    graph_id: crate::hashing::encode(graph_id),
                },
                checkpoint: Checkpoint {
                    graph_id: checkpoint.graph_id,
                    generation: checkpoint.generation,
                    sequence: checkpoint.sequence,
                    desired_digest: checkpoint.desired_digest,
                    current_plan: None,
                    last_report: None,
                    retired: true,
                },
            }
        },
    }
}

/// The file name of a graph's checkpoint.
pub fn checkpoint_file(graph_id: &[u8; 16]) -> (r: String)
    ensures
        r@ == hex_text(graph_id@) + ".json"@,
{
    crate::hashing::encode(graph_id).plus(".json")
}

/// The sequence that is retained of a graph never falls, whatever is offered; a level that is
/// accepted is retained at its own sequence.
pub proof fn acceptance_is_monotone(desired: DesiredSliceView, checkpoint: CheckpointView)
    ensures
        match acceptance_of(desired, Some(checkpoint)) {
            AcceptanceView::Accepted(next) => next.sequence > checkpoint.sequence && next.sequence
                == desired.sequence && next.generation >= checkpoint.generation,
            AcceptanceView::Retained(sequence) => sequence == checkpoint.sequence
                && desired.digest() == checkpoint.desired_digest,
            AcceptanceView::Superseded(sequence) => sequence == checkpoint.sequence
                && desired.sequence < checkpoint.sequence,
            AcceptanceView::Refused(_) => true,
        },
{
}

/// Offering a level again after it was accepted changes nothing.
pub proof fn acceptance_is_idempotent(desired: DesiredSliceView)
    ensures
        acceptance_of(desired, Some(fresh_checkpoint(desired, desired.digest())))
            == AcceptanceView::Retained(desired.sequence),
{
}

/// A retired graph accepts no level, and a retirement can be repeated.
pub proof fn retirement_is_terminal(
    graph_id: Seq<u8>,
    checkpoint: CheckpointView,
    generation: u64,
    sequence: u64,
    desired: DesiredSliceView,
)
    ensures
        retirement_of(graph_id, Some(checkpoint), generation, sequence) matches RetirementView::Release {
            checkpoint: retired,
            ..
        } ==> {
            &&& acceptance_of(desired, Some(retired)) == AcceptanceView::Refused(
                ReconcileErrorView::Retired,
            )
            &&& retirement_of(graph_id, Some(retired), generation, sequence) == RetirementView::Done(
                generation,
            )
        },
{
}

// ---------------------------------------------------------------------------
// Plan identity
// ---------------------------------------------------------------------------

/// The plan is for the desired level, which has the digest.
pub open spec fn describes_with(
    plan: ExecutablePlanView,
    desired: DesiredSliceView,
    digest: Seq<u8>,
) -> bool {
    &&& plan.graph_id == hex_text(desired.graph_id)
    &&& plan.generation == decimal_text(desired.generation as nat)
    &&& plan.slice_sequence == decimal_text(desired.sequence as nat)
    &&& plan.desired_digest == blake3_text(digest)
}

/// The plan is for the desired level.
pub open spec fn describes(plan: ExecutablePlanView, desired: DesiredSliceView) -> bool {
    describes_with(plan, desired, desired.digest())
}

/// Accepts exactly the plans for the desired level, which has the digest.
pub fn validate_identity_with_digest(
    plan: &ExecutablePlan,
    desired: &DesiredSlice,
    digest: &[u8; 32],
) -> (r: Result<(), ReconcileError>)
    ensures
        r is Ok <==> describes_with(plan@, desired@, digest@),
        r matches Err(error) ==> error@ == state_failure(
            "persisted executable plan does not describe current desired level"@,
        ),
{
    if plan.graph_id != crate::hashing::encode(&desired.graph_id) || plan.generation != decimal(
        desired.generation,
    ) || plan.slice_sequence != decimal(desired.sequence) || plan.desired_digest != label_blake3(
        digest,
    ) {
        Err(
            ReconcileError::State(
                "persisted executable plan does not describe current desired level".to_owned(),
            ),
        )
    } else {
        Ok(())
    }
}

/// Accepts exactly the plans for the desired level.
pub fn validate_plan_identity(plan: &ExecutablePlan, desired: &DesiredSlice) -> (r: Result<
    (),
    ReconcileError,
>)
    ensures
        r is Ok <==> describes(plan@, desired@),
        r matches Err(error) ==> error@ == state_failure(
            "persisted executable plan does not describe current desired level"@,
        ),
{
    validate_identity_with_digest(plan, desired, &desired.desired_digest())
}

}
