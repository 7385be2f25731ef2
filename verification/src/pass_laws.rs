//! What holds of every reconcile pass.

use vstd::prelude::*;

use crate::context::forbidden_verb;
use crate::context::repeats_name;
use crate::context::sound_migration;
use crate::inputs::distinct_inputs;
use crate::journal::next_sequence;
use crate::journal::JournalEventView;
use crate::journal::JournalSnapshotView;
use crate::journal::OperationStateView;
use crate::order::held;
use crate::pass::started_receipt;
use crate::pass::succeeded_receipt;
use crate::pass::ArtifactsView;
use crate::pass::EffectView;
use crate::pass::EventView;
use crate::pass::PassContextView;
use crate::pass::PassView;
use crate::pass::StepView;
use crate::plan::ExecutablePlanView;
use crate::plan_laws::converged;
use crate::reconciler::describes;
use crate::report::SliceReportView;
use crate::slice::DesiredSliceView;
use crate::target::ApplyResultView;
use crate::target::ObservedTargetView;
use crate::text::numeral;

verus! {

/// What a pass asks for, one thing after the other, as the events come in.
pub open spec fn run(
    pass: PassView,
    context: PassContextView,
    events: Seq<EventView>,
) -> Seq<EffectView>
    decreases events.len(),
{
    if events.len() == 0 {
        seq![]
    } else {
        let turn = pass.after(context, events[0]);
        seq![turn.1] + run(turn.0, context, events.drop_first())
    }
}

/// How often something is applied.
pub open spec fn applications(effects: Seq<EffectView>) -> nat
    decreases effects.len(),
{
    if effects.len() == 0 {
        0
    } else if effects[0] is Apply {
        1 + applications(effects.drop_first())
    } else {
        applications(effects.drop_first())
    }
}

// ---------------------------------------------------------------------------
// Ending
// ---------------------------------------------------------------------------

/// An upper bound on the turns that are left.
pub open spec fn turns_left(pass: PassView) -> nat {
    match pass.step {
        StepView::Journal => 10,
        StepView::Plan { .. } => 9,
        StepView::Observation { .. } => 8,
        StepView::Started { .. } => 7,
        StepView::Applied { .. } => 6,
        StepView::Reload { .. } => 5,
        StepView::Fresh { .. } => 5,
        StepView::Persisted { .. } => 4,
        StepView::Receipts { rest, .. } => 3 + rest.len(),
        StepView::Created { .. } => 3,
        StepView::Saved { .. } => 2,
        StepView::Reported { .. } => 1,
        StepView::Finished => 0,
    }
}

/// Every turn brings a pass nearer to its end, whatever comes of what it asks for.
pub proof fn passes_end(pass: PassView, context: PassContextView, event: EventView)
    requires
        !(pass.step is Finished),
    ensures
        turns_left(pass.after(context, event).0) < turns_left(pass),
        pass.after(context, event).0.step is Finished <==> pass.after(context, event).1 is Finish,
{
}

// ---------------------------------------------------------------------------
// One operation for each pass
// ---------------------------------------------------------------------------

/// Whether something may still be applied.
pub open spec fn may_apply(pass: PassView) -> bool {
    match pass.step {
        StepView::Journal => true,
        StepView::Plan { .. } => true,
        StepView::Observation { .. } => true,
        StepView::Started { .. } => true,
        _ => false,
    }
}

proof fn applying_is_final(pass: PassView, context: PassContextView, event: EventView)
    ensures
        pass.after(context, event).1 is Apply ==> may_apply(pass) && !may_apply(
            pass.after(context, event).0,
        ),
        may_apply(pass.after(context, event).0) ==> may_apply(pass),
{
}

/// A pass that may no longer apply anything applies nothing.
pub proof fn spent_passes_apply_nothing(
    pass: PassView,
    context: PassContextView,
    events: Seq<EventView>,
)
    requires
        !may_apply(pass),
    ensures
        applications(run(pass, context, events)) == 0,
    decreases events.len(),
{
    if events.len() > 0 {
        let turn = pass.after(context, events[0]);
        applying_is_final(pass, context, events[0]);
        spent_passes_apply_nothing(turn.0, context, events.drop_first());
        assert(run(pass, context, events).drop_first() =~= run(
            turn.0,
            context,
            events.drop_first(),
        ));
    }
}

/// One pass applies at most one operation, whatever comes of what it asks for.
pub proof fn passes_apply_at_most_once(
    pass: PassView,
    context: PassContextView,
    events: Seq<EventView>,
)
    ensures
        applications(run(pass, context, events)) <= 1,
    decreases events.len(),
{
    if events.len() > 0 {
        let turn = pass.after(context, events[0]);
        applying_is_final(pass, context, events[0]);
        assert(run(pass, context, events).drop_first() =~= run(
            turn.0,
            context,
            events.drop_first(),
        ));
        if turn.1 is Apply {
            spent_passes_apply_nothing(turn.0, context, events.drop_first());
        } else {
            passes_apply_at_most_once(turn.0, context, events.drop_first());
        }
    }
}

// ---------------------------------------------------------------------------
// What a pass knows
// ---------------------------------------------------------------------------

/// The report publishes nothing.
pub open spec fn unpublished(report: SliceReportView) -> bool {
    report.outputs.len() == 0 && report.publication is None
}

/// The report is of the complete desired level: every component stands in it, all of them alike.
pub open spec fn complete(report: SliceReportView, desired: DesiredSliceView) -> bool {
    &&& report.graph_id == desired.graph_id
    &&& report.generation == desired.generation
    &&& report.sequence == desired.sequence
    &&& report.connector == crate::CONNECTOR_NAME@
    &&& report.dispositions.len() == desired.components.len()
    &&& forall|i: int|
        0 <= i < report.dispositions.len() ==> (
        #[trigger] report.dispositions[i]).component_spec_hash == desired.components[i].spec_hash
            && report.dispositions[i].kind == report.dispositions[0].kind
}

/// The plan is the exact payload that its identity stands for, is for the desired level and has an
/// operation.
pub open spec fn current(plan: ExecutablePlanView, context: PassContextView) -> bool {
    &&& plan.plan_id == plan.payload_id()
    &&& describes(plan, context.desired)
    &&& plan.operations.len() > 0
}

/// What holds of a pass at every step.
pub open spec fn sound(pass: PassView, context: PassContextView) -> bool {
    match pass.step {
        StepView::Observation { plan, tail, attempted, interrupted } => {
            &&& current(plan, context)
            &&& numeral(plan.journal_tail) == Some(tail as nat) || interrupted
            &&& interrupted ==> attempted
            &&& !(plan.operations[0].operation is EstablishBinding)
        },
        StepView::Started { plan } => current(plan, context)
            && !(plan.operations[0].operation is EstablishBinding),
        StepView::Applied { plan, .. } => current(plan, context),
        StepView::Reload { plan, .. } => current(plan, context),
        StepView::Receipts { report, .. } => unpublished(report) && complete(
            report,
            context.desired,
        ),
        StepView::Saved { snapshot, .. } => pass.checkpoint.last_report == Some(snapshot)
            && complete(snapshot.report, context.desired),
        _ => true,
    }
}

/// A pass begins sound and stays sound.
pub proof fn passes_stay_sound(pass: PassView, context: PassContextView, event: EventView)
    ensures
        pass.step is Journal ==> sound(pass, context),
        sound(pass, context) ==> sound(pass.after(context, event).0, context),
        sound(pass, context) ==> pass.well_formed(),
{
}

/// Only the first operation of a plan is applied, and never a binding. The plan is for the desired
/// level, and is the exact payload that its reviewed identity stands for. The operation has a
/// durable receipt by then: it was started just before, or the journal knew it.
pub proof fn applications_are_receipted(
    pass: PassView,
    context: PassContextView,
    event: EventView,
)
    requires
        sound(pass, context),
    ensures
        pass.after(context, event).1 matches EffectView::Apply { plan } ==> {
            &&& current(plan, context)
            &&& !(plan.operations[0].operation is EstablishBinding)
            &&& (pass.step is Started && event matches EventView::Appended(Ok(tail))) || (
            pass.step matches StepView::Observation { attempted, .. } && attempted)
        },
{
}

// ---------------------------------------------------------------------------
// Freshness
// ---------------------------------------------------------------------------

/// The operation was started for the plan and has no terminal receipt.
pub open spec fn was_interrupted(journal: JournalSnapshotView, plan: ExecutablePlanView) -> bool {
    held(journal.operations, plan.operations[0].id) == Some(
        OperationStateView::Started { plan_id: plan.plan_id },
    )
}

/// A plan whose journal fence was passed by others is receipted as stale, and the pass applies
/// nothing of it.
pub proof fn stale_plans_apply_nothing(
    pass: PassView,
    context: PassContextView,
    journal: JournalSnapshotView,
    plan: ExecutablePlanView,
    events: Seq<EventView>,
)
    requires
        pass.step == (StepView::Plan { journal }),
        current(plan, context),
        numeral(plan.journal_tail) matches Some(fence) && fence <= u64::MAX && fence
            != journal.tail,
        !was_interrupted(journal, plan),
    ensures
        ({
            let turn = pass.after(context, EventView::Plan(Ok(plan)));
            &&& turn.1 == (EffectView::Append {
                tail: journal.tail,
                event: JournalEventView::PlanStale {
                    plan_id: plan.plan_id,
                    reason: "journal-fence-changed"@,
                },
            })
            &&& turn.0.checkpoint.current_plan is None
            &&& applications(run(turn.0, context, events)) == 0
        }),
{
    let turn = pass.after(context, EventView::Plan(Ok(plan)));
    assert(turn == pass.on_operation(
        context,
        journal,
        plan,
        numeral(plan.journal_tail)->0,
    ));
    spent_passes_apply_nothing(turn.0, context, events);
}

/// A plan that is kept for the next pass meets its own fence at the tail after its creation.
pub proof fn new_plans_meet_their_fence(
    pass: PassView,
    context: PassContextView,
    plan: ExecutablePlanView,
    artifacts: ArtifactsView,
    tail: u64,
)
    requires
        pass.step == (StepView::Created { plan, artifacts }),
        !(pass.after(context, EventView::Appended(Ok(tail))).1 is Finish),
    ensures
        numeral(plan.journal_tail) == Some(tail as nat),
        pass.after(context, EventView::Appended(Ok(tail))).0.checkpoint.current_plan == Some(
            artifacts.plan_path,
        ),
{
    crate::text::decimal_reads_back(tail as nat);
}

/// A new plan's fence is the tail that the append of its creation leaves.
pub proof fn new_plans_expect_their_creation(
    context: PassContextView,
    journal: JournalSnapshotView,
    observed: ObservedTargetView,
)
    ensures
        context.planning(journal, observed).result() matches Ok(plan) ==> numeral(
            plan.journal_tail,
        ) == Some(next_sequence(journal.tail) as nat) && describes(plan, context.desired),
{
    crate::text::decimal_reads_back(next_sequence(journal.tail) as nat);
}

// ---------------------------------------------------------------------------
// Recovery
// ---------------------------------------------------------------------------

/// An interrupted operation whose postcondition holds is receipted as recovered, and the pass
/// applies nothing.
pub proof fn interrupted_operations_are_recovered(
    pass: PassView,
    context: PassContextView,
    plan: ExecutablePlanView,
    tail: u64,
    observed: ObservedTargetView,
    events: Seq<EventView>,
)
    requires
        pass.step == (StepView::Observation { plan, tail, attempted: true, interrupted: true }),
        observed.satisfies(plan.operations[0].operation),
    ensures
        ({
            let turn = pass.after(context, EventView::Observed(Ok(observed)));
            &&& turn.1 == (EffectView::Append {
                tail,
                event: succeeded_receipt(
                    plan,
                    plan.operations[0],
                    observed.digest_text(),
                    true,
                ),
            })
            &&& applications(run(turn.0, context, events)) == 0
        }),
{
    let turn = pass.after(context, EventView::Observed(Ok(observed)));
    spent_passes_apply_nothing(turn.0, context, events);
}

/// An interrupted operation whose postcondition does not hold is applied again, under its old
/// started receipt.
pub proof fn interrupted_operations_are_retried(
    pass: PassView,
    context: PassContextView,
    plan: ExecutablePlanView,
    tail: u64,
    observed: ObservedTargetView,
)
    requires
        pass.step == (StepView::Observation { plan, tail, attempted: true, interrupted: true }),
        !observed.satisfies(plan.operations[0].operation),
    ensures
        pass.after(context, EventView::Observed(Ok(observed))).1 == (EffectView::Apply { plan }),
{
}

/// An operation that was never tried is started in the journal before anything is applied.
pub proof fn new_operations_start_in_the_journal(
    pass: PassView,
    context: PassContextView,
    plan: ExecutablePlanView,
    tail: u64,
    observed: ObservedTargetView,
)
    requires
        pass.step == (StepView::Observation { plan, tail, attempted: false, interrupted: false }),
    ensures
        pass.after(context, EventView::Observed(Ok(observed))).1 == (EffectView::Append {
            tail,
            event: started_receipt(plan, plan.operations[0]),
        }),
{
}

/// An operation that was applied is receipted, its plan is dropped, and the rest of the level is
/// planned again at once.
pub proof fn applied_operations_are_replanned(
    pass: PassView,
    context: PassContextView,
    plan: ExecutablePlanView,
    tail: u64,
    attempted: bool,
    observed_digest: Seq<char>,
    new_tail: u64,
)
    requires
        pass.step == (StepView::Applied { plan, tail, attempted }),
    ensures
        ({
            let applied = ApplyResultView::Applied { observed_digest };
            let receipted = pass.after(context, EventView::Applied(Ok(applied)));
            let saved = receipted.0.after(context, EventView::Appended(Ok(new_tail)));
            let reported = saved.0.after(context, EventView::Saved(Ok(())));
            let finished = reported.0.after(context, EventView::Reported(Ok(())));
            &&& receipted.1 == (EffectView::Append {
                tail,
                event: succeeded_receipt(plan, plan.operations[0], observed_digest, attempted),
            })
            &&& saved.1 matches EffectView::Save { checkpoint } && checkpoint.current_plan is None
            &&& reported.1 is Report
            &&& finished.1 == (EffectView::Finish { result: Ok(()), retry: Some(0) })
        }),
{
}

/// A level without a plan is planned from fresh target truth: the target is observed first.
pub proof fn plans_begin_with_an_observation(
    pass: PassView,
    context: PassContextView,
    journal: JournalSnapshotView,
)
    requires
        pass.step is Journal,
        pass.checkpoint.current_plan is None,
        crate::plan::desired_diagnostics(context.desired, journal).len() == 0,
    ensures
        pass.after(context, EventView::Journal(Ok(journal))).1 is Observe,
{
}

// ---------------------------------------------------------------------------
// Publication
// ---------------------------------------------------------------------------

/// Outputs are published only from a fresh observation that shows the target as desired: the
/// journal is known, the target was just observed, and the plan for them is empty.
pub proof fn publications_need_convergence(
    pass: PassView,
    context: PassContextView,
    event: EventView,
)
    requires
        sound(pass, context),
    ensures
        pass.after(context, event).1 matches EffectView::Save { checkpoint } ==> (
        checkpoint.last_report matches Some(snapshot) && (unpublished(snapshot.report) || (
        pass.step matches StepView::Fresh { journal } && event matches EventView::Observed(
            Ok(observed),
        ) && converged(context.planning(journal, observed))))),
{
    match pass.step {
        StepView::Fresh { journal } => {
            match event {
                EventView::Observed(Ok(observed)) => {
                    crate::plan_laws::plans_are_empty_iff_converged(
                        context.planning(journal, observed),
                    );
                },
                _ => {},
            }
        },
        _ => {},
    }
}

/// The delivered report is the one that was saved with the checkpoint just before. It is of the
/// complete level.
pub proof fn reports_are_saved_first(pass: PassView, context: PassContextView, event: EventView)
    requires
        sound(pass, context),
    ensures
        pass.after(context, event).1 matches EffectView::Report { snapshot } ==>
            pass.step is Saved && pass.checkpoint.last_report == Some(snapshot) && complete(
            snapshot.report,
            context.desired,
        ),
        pass.after(context, event).1 matches EffectView::Save { checkpoint } ==>
            pass.after(context, event).0.checkpoint == checkpoint,
{
}

/// A level that cannot be planned is reported as failed before the target is looked at.
pub proof fn invalid_levels_touch_nothing(
    pass: PassView,
    context: PassContextView,
    journal: JournalSnapshotView,
    events: Seq<EventView>,
)
    requires
        pass.step is Journal,
        crate::plan::desired_diagnostics(context.desired, journal).len() > 0,
    ensures
        ({
            let turn = pass.after(context, EventView::Journal(Ok(journal)));
            &&& turn.1 is Save
            &&& turn.0.checkpoint.current_plan is None
            &&& applications(run(turn.0, context, events)) == 0
        }),
{
    let turn = pass.after(context, EventView::Journal(Ok(journal)));
    spent_passes_apply_nothing(turn.0, context, events);
}

/// Destructive SQL is never carried out: a level with a migration that holds a forbidden verb is
/// reported as failed, and nothing is applied for it.
pub proof fn destructive_levels_touch_nothing(
    pass: PassView,
    context: PassContextView,
    journal: JournalSnapshotView,
    component: int,
    migration: int,
    events: Seq<EventView>,
)
    requires
        pass.step is Journal,
        0 <= component < context.desired.components.len(),
        ({
            let migrations = context.desired.components[component].context.migrations;
            0 <= migration < migrations.len() && forbidden_verb(migrations[migration].sql) is Some
        }),
    ensures
        ({
            let turn = pass.after(context, EventView::Journal(Ok(journal)));
            &&& turn.1 is Save
            &&& applications(run(turn.0, context, events)) == 0
        }),
{
    let pin = context.desired.components[component];
    assert(!sound_migration(pin.context.migrations, migration));
    crate::context::sound_contexts_raise_no_issue(pin.context);
    crate::plan::clean_levels_pass_validation(context.desired, journal);
    invalid_levels_touch_nothing(pass, context, journal, events);
}

/// An input is never set twice: a level with a migration two of whose inputs share a name is
/// reported as failed, and nothing is applied for it.
pub proof fn ambiguous_levels_touch_nothing(
    pass: PassView,
    context: PassContextView,
    journal: JournalSnapshotView,
    component: int,
    migration: int,
    events: Seq<EventView>,
)
    requires
        pass.step is Journal,
        0 <= component < context.desired.components.len(),
        ({
            let migrations = context.desired.components[component].context.migrations;
            0 <= migration < migrations.len() && !distinct_inputs(migrations[migration])
        }),
    ensures
        ({
            let turn = pass.after(context, EventView::Journal(Ok(journal)));
            &&& turn.1 is Save
            &&& applications(run(turn.0, context, events)) == 0
        }),
{
    let pin = context.desired.components[component];
    let inputs = pin.context.migrations[migration].inputs;
    let (i, j) = choose|i: int, j: int|
        0 <= i < j < inputs.len() && (#[trigger] inputs[i]).name == (#[trigger] inputs[j]).name;
    assert(repeats_name(pin.context.migrations[migration], j));
    assert(!sound_migration(pin.context.migrations, migration));
    crate::context::sound_contexts_raise_no_issue(pin.context);
    crate::plan::clean_levels_pass_validation(context.desired, journal);
    invalid_levels_touch_nothing(pass, context, journal, events);
}

}
