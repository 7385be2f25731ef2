//! What a whole pass comes to, from what it finds to what it leaves.

use vstd::prelude::*;

use crate::context::AnonAccess;
use crate::hashing::blake3_of;
use crate::hashing::hex_text;
use crate::hashing::sha256_of;
use crate::journal::JournalEventView;
use crate::journal::JournalSnapshotView;
use crate::journal::OperationStateView;
use crate::json::json_bytes;
use crate::order::ascending;
use crate::order::held;
use crate::order::keys;
use crate::pass::opening_of;
use crate::pass::ArtifactsView;
use crate::pass::EffectView;
use crate::pass::EventView;
use crate::pass::OpeningView;
use crate::pass::PassContextView;
use crate::pass::PassView;
use crate::pass::StepView;
use crate::pass_laws::run;
use crate::plan::ExecutablePlanView;
use crate::plan::OperationView;
use crate::plan::PlanDiagnosticView;
use crate::plan::Planning;
use crate::plan_content_laws::first_receipt;
use crate::reconciler::CheckpointView;
use crate::reconciler::ReconcileErrorView;
use crate::report::ComponentDispositionKind;
use crate::report::ComponentDispositionView;
use crate::report::DiagnosticSeverity;
use crate::report::DiagnosticView;
use crate::report::PublicationEvidenceView;
use crate::report::ReportSnapshotView;
use crate::report::SliceReportView;
use crate::slice::DesiredSliceView;
use crate::target::ApplyResultView;
use crate::target::ObservedTargetView;
use crate::target::ProviderDiagnosticView;
use crate::target::TargetErrorView;
use crate::text::decimal_text;
use crate::text::numeral;

verus! {

// ---------------------------------------------------------------------------
// Reports
// ---------------------------------------------------------------------------

/// The report is of the whole level, every component of which stands at the same point.
pub open spec fn tells_level(
    report: SliceReportView,
    desired: DesiredSliceView,
    kind: ComponentDispositionKind,
) -> bool {
    &&& report.graph_id == desired.graph_id
    &&& report.generation == desired.generation
    &&& report.sequence == desired.sequence
    &&& report.connector == "supabase"@
    &&& report.dispositions.len() == desired.components.len()
    &&& forall|i: int|
        0 <= i < desired.components.len() ==> #[trigger] report.dispositions[i] == (
        ComponentDispositionView { component_spec_hash: desired.components[i].spec_hash, kind })
}

/// The report says that the level is being worked on, and publishes nothing.
pub open spec fn tells_progress(
    report: SliceReportView,
    desired: DesiredSliceView,
    code: Seq<char>,
    message: Seq<char>,
    help: Seq<char>,
) -> bool {
    &&& tells_level(report, desired, ComponentDispositionKind::Reconciling)
    &&& report.outputs.len() == 0
    &&& report.publication is None
    &&& report.diagnostics == seq![
        DiagnosticView {
            code,
            message,
            severity: DiagnosticSeverity::Info,
            component_spec_hash: None,
            help: Some(help),
            pointer: None,
        },
    ]
}

/// The report says that the level failed for what was found in planning, and publishes nothing.
pub open spec fn tells_complaints(
    report: SliceReportView,
    desired: DesiredSliceView,
    complaints: Seq<PlanDiagnosticView>,
) -> bool {
    &&& tells_level(report, desired, ComponentDispositionKind::Failed)
    &&& report.outputs.len() == 0
    &&& report.publication is None
    &&& report.diagnostics.len() == complaints.len()
    &&& forall|i: int|
        0 <= i < complaints.len() ==> #[trigger] report.diagnostics[i] == (DiagnosticView {
            code: complaints[i].code,
            message: complaints[i].message,
            severity: DiagnosticSeverity::Error,
            component_spec_hash: Some(complaints[i].component_spec_hash),
            help: Some(complaints[i].help),
            pointer: Some(complaints[i].pointer),
        })
}

/// The report says that the first operation of the plan is done.
pub open spec fn tells_done(
    report: SliceReportView,
    desired: DesiredSliceView,
    plan: ExecutablePlanView,
) -> bool {
    tells_progress(
        report,
        desired,
        "supabase.apply.operation-complete"@,
        "operation "@ + plan.operations[0].id + " ("@ + plan.operations[0].address
            + ") from plan "@ + plan.plan_id + " reached its postcondition"@,
        "The next pass re-observes and replans the remaining level."@,
    )
}

/// From the position on the pass saves the checkpoint with the report and the plan under review,
/// delivers that report, and ends well.
pub open spec fn ends_told(
    effects: Seq<EffectView>,
    at: int,
    pass: PassView,
    current_plan: Option<Seq<char>>,
    publication_id: Option<Seq<u8>>,
    retry: Option<u64>,
) -> bool {
    let snapshot = effects[at + 1]->Report_snapshot;
    &&& effects.len() == at + 3
    &&& effects[at] == (EffectView::Save {
        checkpoint: CheckpointView {
            current_plan,
            last_report: Some(snapshot),
            ..pass.checkpoint
        },
    })
    &&& effects[at + 1] == (EffectView::Report { snapshot })
    &&& snapshot.request_id == pass.request_id
    &&& snapshot.publication_id == publication_id
    &&& effects[at + 2] == (EffectView::Finish { result: Ok(()), retry })
}

/// The report that is delivered after the position.
pub open spec fn told(effects: Seq<EffectView>, at: int) -> SliceReportView {
    effects[at + 1]->Report_snapshot.report
}

// ---------------------------------------------------------------------------
// Beginning
// ---------------------------------------------------------------------------

/// A pass runs only for a retained graph that is not retired, at the sequence that it was scheduled
/// for, with its level loaded. It then begins with the journal, whatever was retained.
pub proof fn passes_begin_with_the_journal(
    checkpoint: Option<CheckpointView>,
    expected_sequence: u64,
    loaded: bool,
    request_id: Seq<u8>,
)
    ensures
        match opening_of(checkpoint, expected_sequence, loaded, request_id) {
            OpeningView::Go(pass) => {
                &&& checkpoint == Some(pass.checkpoint)
                &&& !pass.checkpoint.retired
                &&& pass.checkpoint.sequence == expected_sequence
                &&& loaded
                &&& pass.request_id == request_id
                &&& pass.step is Journal
            },
            OpeningView::Stop(Ok(_)) => checkpoint is Some && (checkpoint->0.retired
                || checkpoint->0.sequence != expected_sequence),
            OpeningView::Stop(Err(error)) => if checkpoint is None {
                error == ReconcileErrorView::State("accepted graph checkpoint is missing"@)
            } else {
                &&& !checkpoint->0.retired
                &&& checkpoint->0.sequence == expected_sequence
                &&& !loaded
                &&& error == ReconcileErrorView::State("accepted desired slice is not loaded"@)
            },
        },
{
}

// ---------------------------------------------------------------------------
// Planning
// ---------------------------------------------------------------------------

/// The pass starts without a plan under review on a level that passes validation.
pub open spec fn starts_planning(
    pass: PassView,
    context: PassContextView,
    journal: JournalSnapshotView,
) -> bool {
    &&& pass.step is Journal
    &&& pass.checkpoint.current_plan is None
    &&& crate::plan::desired_diagnostics(context.desired, journal).len() == 0
}

/// What the plan of the pass is made from.
pub open spec fn planned_from(
    planning: Planning,
    context: PassContextView,
    journal: JournalSnapshotView,
    observed: ObservedTargetView,
) -> bool {
    &&& planning.desired == context.desired
    &&& planning.journal == journal
    &&& planning.observed == observed
    &&& planning.context.journal_tail_after_plan == if journal.tail == u64::MAX {
        u64::MAX
    } else {
        (journal.tail + 1) as u64
    }
    &&& planning.context.connector_build == context.connector_build
    &&& planning.context.api_url == context.api_url
    &&& planning.context.database_url_ref == context.database_url_ref
    &&& planning.context.anon_key_ref == context.anon_key_ref
}

proof fn one_planning(
    planning: Planning,
    context: PassContextView,
    journal: JournalSnapshotView,
    observed: ObservedTargetView,
)
    requires
        planned_from(planning, context, journal, observed),
    ensures
        context.planning(journal, observed) == planning,
{
    assert(context.planning(journal, observed).context =~= planning.context);
    assert(context.planning(journal, observed) =~= planning);
}

/// A level that fails validation is reported as failed with everything that was found, its plan is
/// dropped, and no further pass is scheduled.
pub proof fn invalid_levels_are_reported(
    pass: PassView,
    context: PassContextView,
    journal: JournalSnapshotView,
)
    requires
        pass.step is Journal,
        crate::plan::desired_diagnostics(context.desired, journal).len() > 0,
    ensures
        ({
            let effects = run(
                pass,
                context,
                seq![
                    EventView::Journal(Ok(journal)),
                    EventView::Saved(Ok(())),
                    EventView::Reported(Ok(())),
                ],
            );
            &&& ends_told(effects, 0, pass, None, None, None)
            &&& tells_complaints(
                told(effects, 0),
                context.desired,
                crate::plan::desired_diagnostics(context.desired, journal),
            )
        }),
{
    let events = seq![
        EventView::Journal(Ok(journal)),
        EventView::Saved(Ok(())),
        EventView::Reported(Ok(())),
    ];
    let complaints = crate::plan::desired_diagnostics(context.desired, journal);
    after_journal(pass, context, journal);
    let saved = pass.without_plan().publish(
        crate::report::failed_level(context.desired, crate::report::plan_findings(complaints)),
        None,
        None,
    );
    let told = saved.0.step->Saved_snapshot;
    delivers(saved.0, context, told, None);
    let reported = PassView { step: StepView::Reported { retry: None }, ..saved.0 };
    let finished = PassView { step: StepView::Finished, ..saved.0 };
    let turns = seq![
        saved,
        (reported, EffectView::Report { snapshot: told }),
        (finished, EffectView::Finish { result: Ok(()), retry: None }),
    ];
    turns_are_taken(pass, context, events, turns);
    assert(run(pass, context, events) =~= seq![turns[0].1, turns[1].1, turns[2].1]);
}

/// A target that cannot be observed is reported, and observed again after two seconds. Nothing is
/// planned or applied.
pub proof fn unobserved_targets_are_tried_again(
    pass: PassView,
    context: PassContextView,
    journal: JournalSnapshotView,
    error: TargetErrorView,
)
    requires
        starts_planning(pass, context, journal),
    ensures
        ({
            let effects = run(
                pass,
                context,
                seq![
                    EventView::Journal(Ok(journal)),
                    EventView::Observed(Err(error)),
                    EventView::Saved(Ok(())),
                    EventView::Reported(Ok(())),
                ],
            );
            &&& effects[0] is Observe
            &&& ends_told(effects, 1, pass, None, None, Some(2))
            &&& tells_progress(
                told(effects, 1),
                context.desired,
                "supabase.target.observe"@,
                match error {
                    TargetErrorView::Unavailable(detail) => "Supabase target unavailable: "@
                        + detail,
                    TargetErrorView::Provider(provider) => provider.detail,
                },
                "The connector will retry observation without applying anything."@,
            )
        }),
{
    let events = seq![
        EventView::Journal(Ok(journal)),
        EventView::Observed(Err(error)),
        EventView::Saved(Ok(())),
        EventView::Reported(Ok(())),
    ];
    let fresh = PassView { step: StepView::Fresh { journal }, ..pass };
    after_journal(pass, context, journal);
    after_fresh(fresh, context, journal, Err(error));
    let saved = fresh.on_fresh(context, journal, Err(error));
    let told = saved.0.step->Saved_snapshot;
    delivers(saved.0, context, told, Some(2));
    let reported = PassView { step: StepView::Reported { retry: Some(2) }, ..saved.0 };
    let finished = PassView { step: StepView::Finished, ..saved.0 };
    let turns = seq![
        (fresh, EffectView::Observe),
        saved,
        (reported, EffectView::Report { snapshot: told }),
        (finished, EffectView::Finish { result: Ok(()), retry: Some(2) }),
    ];
    turns_are_taken(pass, context, events, turns);
    assert(run(pass, context, events) =~= seq![turns[0].1, turns[1].1, turns[2].1, turns[3].1]);
}

/// A level that cannot be planned on the observed target is reported as failed with everything that
/// was found, and no further pass is scheduled.
pub proof fn refused_levels_are_reported(
    pass: PassView,
    context: PassContextView,
    journal: JournalSnapshotView,
    observed: ObservedTargetView,
    planning: Planning,
)
    requires
        starts_planning(pass, context, journal),
        planned_from(planning, context, journal, observed),
        planning.result() is Err,
    ensures
        ({
            let effects = run(
                pass,
                context,
                seq![
                    EventView::Journal(Ok(journal)),
                    EventView::Observed(Ok(observed)),
                    EventView::Saved(Ok(())),
                    EventView::Reported(Ok(())),
                ],
            );
            &&& effects[0] is Observe
            &&& ends_told(effects, 1, pass, None, None, None)
            &&& tells_complaints(told(effects, 1), context.desired, planning.result()->Err_0)
        }),
{
    let events = seq![
        EventView::Journal(Ok(journal)),
        EventView::Observed(Ok(observed)),
        EventView::Saved(Ok(())),
        EventView::Reported(Ok(())),
    ];
    one_planning(planning, context, journal, observed);
    let fresh = PassView { step: StepView::Fresh { journal }, ..pass };
    after_journal(pass, context, journal);
    after_fresh(fresh, context, journal, Ok(observed));
    let saved = fresh.on_fresh(context, journal, Ok(observed));
    let told = saved.0.step->Saved_snapshot;
    delivers(saved.0, context, told, None);
    let reported = PassView { step: StepView::Reported { retry: None }, ..saved.0 };
    let finished = PassView { step: StepView::Finished, ..saved.0 };
    let turns = seq![
        (fresh, EffectView::Observe),
        saved,
        (reported, EffectView::Report { snapshot: told }),
        (finished, EffectView::Finish { result: Ok(()), retry: None }),
    ];
    turns_are_taken(pass, context, events, turns);
    assert(run(pass, context, events) =~= seq![turns[0].1, turns[1].1, turns[2].1, turns[3].1]);
}

/// A level that has nothing left to do is reported as ready, with the outputs of every component,
/// the observed revision and the journal's position, and no further pass is scheduled.
pub proof fn reached_levels_are_published(
    pass: PassView,
    context: PassContextView,
    journal: JournalSnapshotView,
    observed: ObservedTargetView,
    planning: Planning,
    plan: ExecutablePlanView,
)
    requires
        starts_planning(pass, context, journal),
        planned_from(planning, context, journal, observed),
        planning.result() == Ok::<ExecutablePlanView, Seq<PlanDiagnosticView>>(plan),
        plan.operations.len() == 0,
    ensures
        ({
            let effects = run(
                pass,
                context,
                seq![
                    EventView::Journal(Ok(journal)),
                    EventView::Observed(Ok(observed)),
                    EventView::Saved(Ok(())),
                    EventView::Reported(Ok(())),
                ],
            );
            let report = told(effects, 1);
            &&& effects[0] is Observe
            &&& ends_told(
                effects,
                1,
                pass,
                None,
                crate::report::publication_identity(report.outputs),
                None,
            )
            &&& tells_level(report, context.desired, ComponentDispositionKind::Ready)
            &&& report.diagnostics.len() == 0
            &&& report.publication == Some(
                PublicationEvidenceView {
                    revision: plan.observed_digest,
                    uri: "s2://"@ + context.basin + "/"@ + context.stream + "@"@ + decimal_text(
                        journal.tail as nat,
                    ),
                },
            )
            &&& report.outputs.len() == context.desired.components.len()
            &&& forall|i: int|
                0 <= i < report.outputs.len() ==> {
                    &&& (#[trigger] report.outputs[i]).component_spec_hash
                        == context.desired.components[i].spec_hash
                    &&& report.outputs[i].values_json == json_bytes(plan.planned_outputs[i].values)
                }
        }),
{
    let events = seq![
        EventView::Journal(Ok(journal)),
        EventView::Observed(Ok(observed)),
        EventView::Saved(Ok(())),
        EventView::Reported(Ok(())),
    ];
    one_planning(planning, context, journal, observed);
    crate::plan::built_plans_publish_every_component(planning);
    let fresh = PassView { step: StepView::Fresh { journal }, ..pass };
    after_journal(pass, context, journal);
    after_fresh(fresh, context, journal, Ok(observed));
    let saved = fresh.on_fresh(context, journal, Ok(observed));
    let told = saved.0.step->Saved_snapshot;
    delivers(saved.0, context, told, None);
    let reported = PassView { step: StepView::Reported { retry: None }, ..saved.0 };
    let finished = PassView { step: StepView::Finished, ..saved.0 };
    let turns = seq![
        (fresh, EffectView::Observe),
        saved,
        (reported, EffectView::Report { snapshot: told }),
        (finished, EffectView::Finish { result: Ok(()), retry: None }),
    ];
    turns_are_taken(pass, context, events, turns);
    assert(run(pass, context, events) =~= seq![turns[0].1, turns[1].1, turns[2].1, turns[3].1]);
}

/// A level that has something left to do gets a plan for review: the plan is persisted, its creation
/// is receipted at the journal's tail, its place is kept with the checkpoint, and the next pass
/// follows at once. Nothing is applied.
pub proof fn new_plans_are_kept_for_review(
    pass: PassView,
    context: PassContextView,
    journal: JournalSnapshotView,
    observed: ObservedTargetView,
    planning: Planning,
    plan: ExecutablePlanView,
    artifacts: ArtifactsView,
    tail: u64,
)
    requires
        starts_planning(pass, context, journal),
        planned_from(planning, context, journal, observed),
        planning.result() == Ok::<ExecutablePlanView, Seq<PlanDiagnosticView>>(plan),
        plan.operations.len() > 0,
    ensures
        ({
            let effects = run(
                pass,
                context,
                seq![
                    EventView::Journal(Ok(journal)),
                    EventView::Observed(Ok(observed)),
                    EventView::Persisted(Ok(artifacts)),
                    EventView::Appended(Ok(tail)),
                    EventView::Saved(Ok(())),
                    EventView::Reported(Ok(())),
                ],
            );
            &&& effects[0] is Observe
            &&& effects[1] == (EffectView::Persist { plan })
            &&& effects[2] == (EffectView::Append {
                tail: journal.tail,
                event: JournalEventView::PlanCreated {
                    plan_id: plan.plan_id,
                    graph_id: plan.graph_id,
                    generation: plan.generation,
                    slice_sequence: plan.slice_sequence,
                    desired_digest: plan.desired_digest,
                    observed_digest: plan.observed_digest,
                },
            })
            &&& if tail == planning.context.journal_tail_after_plan {
                &&& ends_told(effects, 3, pass, Some(artifacts.plan_path), None, Some(0))
                &&& tells_progress(
                    told(effects, 3),
                    context.desired,
                    "supabase.plan.ready"@,
                    "reviewable plan "@ + plan.plan_id + " is ready at "@ + artifacts.json_path,
                    "The next level-triggered pass applies at most one exact planned operation."@,
                )
            } else {
                effects[3] == (EffectView::Finish {
                    result: Err(
                        ReconcileErrorView::State(
                            "PlanCreated tail differs from executable freshness fence"@,
                        ),
                    ),
                    retry: None,
                })
            }
        }),
{
    let events = seq![
        EventView::Journal(Ok(journal)),
        EventView::Observed(Ok(observed)),
        EventView::Persisted(Ok(artifacts)),
        EventView::Appended(Ok(tail)),
        EventView::Saved(Ok(())),
        EventView::Reported(Ok(())),
    ];
    one_planning(planning, context, journal, observed);
    crate::text::decimal_reads_back(tail as nat);
    crate::text::decimal_reads_back(planning.context.journal_tail_after_plan as nat);
    let fresh = PassView { step: StepView::Fresh { journal }, ..pass };
    after_journal(pass, context, journal);
    after_fresh(fresh, context, journal, Ok(observed));
    let persisted = PassView { step: StepView::Persisted { plan, tail: journal.tail }, ..pass };
    assert(fresh.on_fresh(context, journal, Ok(observed)) == (
        persisted,
        EffectView::Persist { plan },
    ));
    let created = PassView { step: StepView::Created { plan, artifacts }, ..pass };
    let creation = EffectView::Append {
        tail: journal.tail,
        event: crate::pass::created_receipt(plan),
    };
    after_persisted(persisted, context, artifacts);
    after_created(created, context, tail);
    let kept = created.on_created(context, plan, artifacts, tail);
    let first = seq![
        (fresh, EffectView::Observe),
        (persisted, EffectView::Persist { plan }),
        (created, creation),
        kept,
    ];
    if tail == planning.context.journal_tail_after_plan {
        let told = kept.0.step->Saved_snapshot;
        delivers(kept.0, context, told, Some(0));
        let reported = PassView { step: StepView::Reported { retry: Some(0) }, ..kept.0 };
        let finished = PassView { step: StepView::Finished, ..kept.0 };
        let turns = seq![
            first[0],
            first[1],
            first[2],
            first[3],
            (reported, EffectView::Report { snapshot: told }),
            (finished, EffectView::Finish { result: Ok(()), retry: Some(0) }),
        ];
        turns_are_taken(pass, context, events, turns);
        assert(run(pass, context, events) =~= seq![turns[0].1, turns[1].1, turns[2].1, turns[3].1, turns[4].1, turns[5].1]);
    } else {
        let five = turn(kept.0, context, events[4]);
        let six = turn(five.0, context, events[5]);
        let turns = seq![first[0], first[1], first[2], first[3], five, six];
        turns_are_taken(pass, context, events, turns);
        assert(run(pass, context, events) =~= seq![turns[0].1, turns[1].1, turns[2].1, turns[3].1, turns[4].1, turns[5].1]);
    }
}

// ---------------------------------------------------------------------------
// Postconditions
// ---------------------------------------------------------------------------

/// The target shows what the operation is to bring about. A binding is nothing that a target shows.
pub open spec fn fulfilled(observed: ObservedTargetView, operation: OperationView) -> bool {
    match operation {
        OperationView::EstablishBinding { .. } => false,
        OperationView::EnsureMetadata => observed.metadata_exists,
        OperationView::EnsureSchema { schema, .. } => observed.schemas.contains(schema),
        OperationView::ApplyMigration { resource_id, migration, .. } => exists|at: int| #[trigger]
            first_receipt(observed.migrations, at, resource_id, migration.id)
                && observed.migrations[at].checksum == migration.checksum,
        OperationView::ConfigureApi { exposed_schemas, policies } => {
            &&& forall|schema: Seq<char>| #[trigger]
                observed.exposed_schemas.contains(schema) <==> exposed_schemas.contains(schema)
            &&& forall|i: int|
                0 <= i < policies.len() ==> observed.anon_read.contains(
                    (
                        (#[trigger] policies[i]).schema,
                        policies[i].expose && policies[i].anon_access == AnonAccess::Read,
                    ),
                )
        },
    }
}

/// An operation counts as done exactly if the target shows what it is to bring about.
pub proof fn operations_are_done_when_fulfilled(
    observed: ObservedTargetView,
    operation: OperationView,
)
    requires
        ascending(observed.exposed_schemas),
        ascending(keys(observed.anon_read)),
    ensures
        observed.satisfies(operation) <==> fulfilled(observed, operation),
{
    match operation {
        OperationView::ApplyMigration { resource_id, migration, .. } => {
            crate::plan_content_laws::receipts_are_first(
                observed.migrations,
                resource_id,
                migration.id,
            );
            crate::plan_content_laws::unapplied_has_no_receipt(
                observed.migrations,
                resource_id,
                migration.id,
            );
            if fulfilled(observed, operation) {
                let at = choose|at: int| #[trigger]
                    first_receipt(observed.migrations, at, resource_id, migration.id)
                        && observed.migrations[at].checksum == migration.checksum;
                assert(observed.checksum(resource_id, migration.id) is Some);
                let other = choose|other: int| #[trigger]
                    first_receipt(observed.migrations, other, resource_id, migration.id)
                        && observed.migrations[other].checksum == observed.checksum(
                        resource_id,
                        migration.id,
                    )->0;
                crate::plan_content_laws::first_receipt_is_one(
                    observed.migrations,
                    at,
                    other,
                    resource_id,
                    migration.id,
                );
            }
        },
        OperationView::ConfigureApi { exposed_schemas, policies } => {
            let wanted = crate::target::set_of(exposed_schemas);
            crate::plan_laws::set_of_ascends(exposed_schemas);
            if forall|schema: Seq<char>| #[trigger]
                observed.exposed_schemas.contains(schema) <==> exposed_schemas.contains(schema) {
                assert forall|schema: Seq<char>| #[trigger]
                    observed.exposed_schemas.contains(schema) <==> wanted.contains(schema) by {
                    assert(wanted.contains(schema) <==> exposed_schemas.contains(schema));
                }
                crate::order::ascending_is_canonical(observed.exposed_schemas, wanted);
            }
            if observed.exposed_schemas == wanted {
                assert forall|schema: Seq<char>| #[trigger]
                    observed.exposed_schemas.contains(schema) <==> exposed_schemas.contains(
                    schema,
                ) by {
                    assert(wanted.contains(schema) <==> exposed_schemas.contains(schema));
                }
            }
            assert forall|i: int| 0 <= i < policies.len() implies (observed.grants_policy(
                #[trigger] policies[i],
            ) <==> observed.anon_read.contains(
                (
                    policies[i].schema,
                    policies[i].expose && policies[i].anon_access == AnonAccess::Read,
                ),
            )) by {
                crate::plan_content_laws::entries_are_held(
                    observed.anon_read,
                    policies[i].schema,
                    policies[i].expose && policies[i].anon_access == AnonAccess::Read,
                );
            }
        },
        _ => {},
    }
}

// ---------------------------------------------------------------------------
// Applying
// ---------------------------------------------------------------------------

/// The plan is for the level and stands under its own identity.
pub open spec fn is_of_level(plan: ExecutablePlanView, desired: DesiredSliceView) -> bool {
    &&& plan.plan_id == "sha256:"@ + hex_text(sha256_of(json_bytes(plan.payload())))
    &&& plan.graph_id == hex_text(desired.graph_id)
    &&& plan.generation == decimal_text(desired.generation as nat)
    &&& plan.slice_sequence == decimal_text(desired.sequence as nat)
    &&& plan.desired_digest == "blake3:"@ + hex_text(desired.digest())
}

/// The pass starts with a plan under review, on a level that passes validation.
pub open spec fn starts_reviewed(
    pass: PassView,
    context: PassContextView,
    journal: JournalSnapshotView,
    path: Seq<char>,
    plan: ExecutablePlanView,
    fence: u64,
) -> bool {
    &&& pass.step is Journal
    &&& crate::plan::desired_diagnostics(context.desired, journal).len() == 0
    &&& pass.checkpoint.current_plan == Some(path)
    &&& is_of_level(plan, context.desired)
    &&& plan.operations.len() > 0
    &&& numeral(plan.journal_tail) == Some(fence as nat)
}

/// What the journal knows of the plan's first operation.
pub open spec fn known(
    journal: JournalSnapshotView,
    plan: ExecutablePlanView,
) -> Option<OperationStateView> {
    held(journal.operations, plan.operations[0].id)
}

/// The plan's first operation was started for this very plan, and has not ended.
pub open spec fn left_open(journal: JournalSnapshotView, plan: ExecutablePlanView) -> bool {
    known(journal, plan) == Some(OperationStateView::Started { plan_id: plan.plan_id })
}

/// The started receipt of the plan's first operation.
pub open spec fn started_of(plan: ExecutablePlanView) -> JournalEventView {
    JournalEventView::OperationStarted {
        plan_id: plan.plan_id,
        operation_id: plan.operations[0].id,
        idempotency_key: plan.operations[0].id,
    }
}

/// The success receipt of the plan's first operation.
pub open spec fn succeeded_of(
    plan: ExecutablePlanView,
    observed_digest: Seq<char>,
    recovered: bool,
) -> JournalEventView {
    JournalEventView::OperationSucceeded {
        plan_id: plan.plan_id,
        operation_id: plan.operations[0].id,
        observed_digest,
        recovered,
    }
}

/// A plan that is not for the level, does not stand under its own identity, holds no operation or
/// has no readable fence ends the pass with an error. Nothing is receipted or applied.
pub proof fn foreign_plans_end_the_pass(
    pass: PassView,
    context: PassContextView,
    journal: JournalSnapshotView,
    path: Seq<char>,
    plan: ExecutablePlanView,
)
    requires
        pass.step is Journal,
        crate::plan::desired_diagnostics(context.desired, journal).len() == 0,
        pass.checkpoint.current_plan == Some(path),
        !is_of_level(plan, context.desired) || plan.operations.len() == 0 || !(numeral(
            plan.journal_tail,
        ) matches Some(fence) && fence <= u64::MAX),
    ensures
        ({
            let loaded = pass.after(context, EventView::Journal(Ok(journal)));
            let ended = loaded.0.after(context, EventView::Plan(Ok(plan)));
            &&& loaded.1 == (EffectView::LoadPlan { path })
            &&& ended.1 matches EffectView::Finish { result, retry } && result is Err
                && retry is None
            &&& ended.0.checkpoint == pass.checkpoint
        }),
{

}

/// A binding is established in the journal alone: it is started unless the journal knows it, then
/// established, then receipted as succeeded. The target is not touched, and the level is planned
/// anew at once.
pub proof fn bindings_are_established_in_the_journal(
    pass: PassView,
    context: PassContextView,
    journal: JournalSnapshotView,
    path: Seq<char>,
    plan: ExecutablePlanView,
    fence: u64,
    first: u64,
    second: u64,
    third: u64,
)
    requires
        starts_reviewed(pass, context, journal, path, plan, fence),
        journal.tail == fence || left_open(journal, plan),
        plan.operations[0].operation is EstablishBinding,
    ensures
        ({
            let binding = plan.operations[0].operation->EstablishBinding_binding;
            let established = JournalEventView::BindingEstablished { binding };
            if known(journal, plan) is None {
                let effects = run(
                    pass,
                    context,
                    seq![
                        EventView::Journal(Ok(journal)),
                        EventView::Plan(Ok(plan)),
                        EventView::Appended(Ok(first)),
                        EventView::Appended(Ok(second)),
                        EventView::Appended(Ok(third)),
                        EventView::Saved(Ok(())),
                        EventView::Reported(Ok(())),
                    ],
                );
                &&& effects[0] == (EffectView::LoadPlan { path })
                &&& effects[1] == (EffectView::Append {
                    tail: journal.tail,
                    event: started_of(plan),
                })
                &&& effects[2] == (EffectView::Append { tail: first, event: established })
                &&& effects[3] == (EffectView::Append {
                    tail: second,
                    event: succeeded_of(plan, plan.observed_digest, false),
                })
                &&& ends_told(effects, 4, pass, None, None, Some(0))
                &&& tells_done(told(effects, 4), context.desired, plan)
            } else {
                let effects = run(
                    pass,
                    context,
                    seq![
                        EventView::Journal(Ok(journal)),
                        EventView::Plan(Ok(plan)),
                        EventView::Appended(Ok(first)),
                        EventView::Appended(Ok(second)),
                        EventView::Saved(Ok(())),
                        EventView::Reported(Ok(())),
                    ],
                );
                &&& effects[0] == (EffectView::LoadPlan { path })
                &&& effects[1] == (EffectView::Append { tail: journal.tail, event: established })
                &&& effects[2] == (EffectView::Append {
                    tail: first,
                    event: succeeded_of(plan, plan.observed_digest, true),
                })
                &&& ends_told(effects, 3, pass, None, None, Some(0))
                &&& tells_done(told(effects, 3), context.desired, plan)
            }
        }),
{
    let binding = plan.operations[0].operation->EstablishBinding_binding;
    let established = JournalEventView::BindingEstablished { binding };
    let succeeded = succeeded_of(plan, plan.observed_digest, known(journal, plan) is Some);
    let operation = plan.operations[0];
    let report = crate::report::operation_level(context.desired, operation, plan);
    let loaded = PassView { step: StepView::Plan { journal }, ..pass };
    after_journal(pass, context, journal);
    after_plan(loaded, context, journal, plan);
    let next = loaded.on_operation(context, journal, plan, fence as nat);
    assert(loaded.on_plan(context, journal, plan) == next);
    if known(journal, plan) is None {
        let events = seq![
            EventView::Journal(Ok(journal)),
            EventView::Plan(Ok(plan)),
            EventView::Appended(Ok(first)),
            EventView::Appended(Ok(second)),
            EventView::Appended(Ok(third)),
            EventView::Saved(Ok(())),
            EventView::Reported(Ok(())),
        ];
        let rest = seq![established, succeeded];
        assert(next.0.step->Receipts_rest =~= rest);
        assert(rest.drop_first() =~= seq![succeeded]);
        assert(seq![succeeded].drop_first() =~= seq![]);
        after_receipt(next.0, context, rest, report, Some(0), first);
        let bound = next.0.receipt(first, rest, report, Some(0));
        after_receipt(bound.0, context, seq![succeeded], report, Some(0), second);
        let done = bound.0.receipt(second, seq![succeeded], report, Some(0));
        after_last_receipt(done.0, context, report, Some(0), third);
        let saved = done.0.publish(report, None, Some(0));
        let told = saved.0.step->Saved_snapshot;
        delivers(saved.0, context, told, Some(0));
        let reported = PassView { step: StepView::Reported { retry: Some(0) }, ..saved.0 };
        let finished = PassView { step: StepView::Finished, ..saved.0 };
        let turns = seq![
            (loaded, EffectView::LoadPlan { path }),
            next,
            bound,
            done,
            saved,
            (reported, EffectView::Report { snapshot: told }),
            (finished, EffectView::Finish { result: Ok(()), retry: Some(0) }),
        ];
        turns_are_taken(pass, context, events, turns);
        assert(run(pass, context, events) =~= seq![turns[0].1, turns[1].1, turns[2].1, turns[3].1, turns[4].1, turns[5].1, turns[6].1]);
    } else {
        let events = seq![
            EventView::Journal(Ok(journal)),
            EventView::Plan(Ok(plan)),
            EventView::Appended(Ok(first)),
            EventView::Appended(Ok(second)),
            EventView::Saved(Ok(())),
            EventView::Reported(Ok(())),
        ];
        let rest = seq![succeeded];
        assert(next.0.step->Receipts_rest =~= rest);
        assert(rest.drop_first() =~= seq![]);
        after_receipt(next.0, context, rest, report, Some(0), first);
        let done = next.0.receipt(first, rest, report, Some(0));
        after_last_receipt(done.0, context, report, Some(0), second);
        let saved = done.0.publish(report, None, Some(0));
        let told = saved.0.step->Saved_snapshot;
        delivers(saved.0, context, told, Some(0));
        let reported = PassView { step: StepView::Reported { retry: Some(0) }, ..saved.0 };
        let finished = PassView { step: StepView::Finished, ..saved.0 };
        let turns = seq![
            (loaded, EffectView::LoadPlan { path }),
            next,
            done,
            saved,
            (reported, EffectView::Report { snapshot: told }),
            (finished, EffectView::Finish { result: Ok(()), retry: Some(0) }),
        ];
        turns_are_taken(pass, context, events, turns);
        assert(run(pass, context, events) =~= seq![turns[0].1, turns[1].1, turns[2].1, turns[3].1, turns[4].1, turns[5].1]);
    }
}

/// The first operation of a plan that is no binding meets the plan's fence, or was left open for it.
pub open spec fn starts_work(
    pass: PassView,
    context: PassContextView,
    journal: JournalSnapshotView,
    path: Seq<char>,
    plan: ExecutablePlanView,
    fence: u64,
    observed: ObservedTargetView,
) -> bool {
    &&& starts_reviewed(pass, context, journal, path, plan, fence)
    &&& journal.tail == fence || left_open(journal, plan)
    &&& !(plan.operations[0].operation is EstablishBinding)
    &&& ascending(observed.exposed_schemas)
    &&& ascending(keys(observed.anon_read))
}

/// An operation that was left open for the plan, and whose outcome the target shows, is receipted as
/// recovered without being applied. The level is planned anew at once.
pub proof fn open_operations_are_recovered(
    pass: PassView,
    context: PassContextView,
    journal: JournalSnapshotView,
    path: Seq<char>,
    plan: ExecutablePlanView,
    fence: u64,
    observed: ObservedTargetView,
    tail: u64,
)
    requires
        starts_work(pass, context, journal, path, plan, fence, observed),
        left_open(journal, plan),
        fulfilled(observed, plan.operations[0].operation),
    ensures
        ({
            let effects = run(
                pass,
                context,
                seq![
                    EventView::Journal(Ok(journal)),
                    EventView::Plan(Ok(plan)),
                    EventView::Observed(Ok(observed)),
                    EventView::Appended(Ok(tail)),
                    EventView::Saved(Ok(())),
                    EventView::Reported(Ok(())),
                ],
            );
            &&& effects[0] == (EffectView::LoadPlan { path })
            &&& effects[1] is Observe
            &&& effects[2] == (EffectView::Append {
                tail: journal.tail,
                event: succeeded_of(
                    plan,
                    "blake3:"@ + hex_text(blake3_of(json_bytes(observed.document()))),
                    true,
                ),
            })
            &&& ends_told(effects, 3, pass, None, None, Some(0))
            &&& tells_done(told(effects, 3), context.desired, plan)
        }),
{
    let events = seq![
        EventView::Journal(Ok(journal)),
        EventView::Plan(Ok(plan)),
        EventView::Observed(Ok(observed)),
        EventView::Appended(Ok(tail)),
        EventView::Saved(Ok(())),
        EventView::Reported(Ok(())),
    ];
    operations_are_done_when_fulfilled(observed, plan.operations[0].operation);
    let loaded = PassView { step: StepView::Plan { journal }, ..pass };
    after_journal(pass, context, journal);
    after_plan(loaded, context, journal, plan);
    let next = loaded.on_operation(context, journal, plan, fence as nat);
    assert(loaded.on_plan(context, journal, plan) == next);
    let attempted = known(journal, plan) is Some;
    let interrupted = left_open(journal, plan);
    let watching = PassView {
        step: StepView::Observation { plan, tail: journal.tail, attempted, interrupted },
        ..pass
    };
    assert(next == (watching, EffectView::Observe));
    after_observation(watching, context, observed);
    let acted = watching.on_observation(
        context,
        plan,
        journal.tail,
        attempted,
        interrupted,
        observed,
    );
    let operation = plan.operations[0];
    let report = crate::report::operation_level(context.desired, operation, plan);
    after_last_receipt(acted.0, context, report, Some(0), tail);
    let saved = acted.0.publish(report, None, Some(0));
    let told = saved.0.step->Saved_snapshot;
    delivers(saved.0, context, told, Some(0));
    let reported = PassView { step: StepView::Reported { retry: Some(0) }, ..saved.0 };
    let finished = PassView { step: StepView::Finished, ..saved.0 };
    let turns = seq![
        (loaded, EffectView::LoadPlan { path }),
        next,
        acted,
        saved,
        (reported, EffectView::Report { snapshot: told }),
        (finished, EffectView::Finish { result: Ok(()), retry: Some(0) }),
    ];
    turns_are_taken(pass, context, events, turns);
    assert(run(pass, context, events) =~= seq![turns[0].1, turns[1].1, turns[2].1, turns[3].1, turns[4].1, turns[5].1]);
}

/// An operation that the journal knows is applied again, unless it was left open for this very plan
/// and the target shows its outcome. It does not matter whether it failed before, or was started for
/// another plan.
pub proof fn known_operations_are_applied_again(
    pass: PassView,
    context: PassContextView,
    journal: JournalSnapshotView,
    path: Seq<char>,
    plan: ExecutablePlanView,
    fence: u64,
    observed: ObservedTargetView,
)
    requires
        starts_work(pass, context, journal, path, plan, fence, observed),
        known(journal, plan) is Some,
        !(left_open(journal, plan) && fulfilled(observed, plan.operations[0].operation)),
    ensures
        ({
            let events = seq![
                EventView::Journal(Ok(journal)),
                EventView::Plan(Ok(plan)),
                EventView::Observed(Ok(observed)),
            ];
            let effects = run(pass, context, events);
            &&& effects[0] == (EffectView::LoadPlan { path })
            &&& effects[1] is Observe
            &&& effects[2] == (EffectView::Apply { plan })
            &&& pass.after(context, events[0]).0.after(context, events[1]).0.after(
                context,
                events[2],
            ).0 == (PassView {
                step: StepView::Applied { plan, tail: journal.tail, attempted: true },
                ..pass
            })
        }),
{
    let events = seq![
        EventView::Journal(Ok(journal)),
        EventView::Plan(Ok(plan)),
        EventView::Observed(Ok(observed)),
    ];
    operations_are_done_when_fulfilled(observed, plan.operations[0].operation);
    let loaded = PassView { step: StepView::Plan { journal }, ..pass };
    after_journal(pass, context, journal);
    after_plan(loaded, context, journal, plan);
    let next = loaded.on_operation(context, journal, plan, fence as nat);
    assert(loaded.on_plan(context, journal, plan) == next);
    let attempted = known(journal, plan) is Some;
    let interrupted = left_open(journal, plan);
    let watching = PassView {
        step: StepView::Observation { plan, tail: journal.tail, attempted, interrupted },
        ..pass
    };
    assert(next == (watching, EffectView::Observe));
    after_observation(watching, context, observed);
    let acted = watching.on_observation(
        context,
        plan,
        journal.tail,
        attempted,
        interrupted,
        observed,
    );
    let turns = seq![(loaded, EffectView::LoadPlan { path }), next, acted];
    turns_are_taken(pass, context, events, turns);
    assert(run(pass, context, events) =~= seq![turns[0].1, turns[1].1, turns[2].1]);
    reveal(turn);
}

/// An operation that the journal does not know is started there, and then applied, whatever the
/// target shows.
pub proof fn new_operations_are_started_and_applied(
    pass: PassView,
    context: PassContextView,
    journal: JournalSnapshotView,
    path: Seq<char>,
    plan: ExecutablePlanView,
    fence: u64,
    observed: ObservedTargetView,
    tail: u64,
)
    requires
        starts_work(pass, context, journal, path, plan, fence, observed),
        known(journal, plan) is None,
    ensures
        ({
            let events = seq![
                EventView::Journal(Ok(journal)),
                EventView::Plan(Ok(plan)),
                EventView::Observed(Ok(observed)),
                EventView::Appended(Ok(tail)),
            ];
            let effects = run(pass, context, events);
            &&& effects[0] == (EffectView::LoadPlan { path })
            &&& effects[1] is Observe
            &&& effects[2] == (EffectView::Append { tail: journal.tail, event: started_of(plan) })
            &&& effects[3] == (EffectView::Apply { plan })
            &&& pass.after(context, events[0]).0.after(context, events[1]).0.after(
                context,
                events[2],
            ).0.after(context, events[3]).0 == (PassView {
                step: StepView::Applied { plan, tail, attempted: false },
                ..pass
            })
        }),
{
    let events = seq![
        EventView::Journal(Ok(journal)),
        EventView::Plan(Ok(plan)),
        EventView::Observed(Ok(observed)),
        EventView::Appended(Ok(tail)),
    ];
    let loaded = PassView { step: StepView::Plan { journal }, ..pass };
    after_journal(pass, context, journal);
    after_plan(loaded, context, journal, plan);
    let next = loaded.on_operation(context, journal, plan, fence as nat);
    assert(loaded.on_plan(context, journal, plan) == next);
    let attempted = known(journal, plan) is Some;
    let interrupted = left_open(journal, plan);
    let watching = PassView {
        step: StepView::Observation { plan, tail: journal.tail, attempted, interrupted },
        ..pass
    };
    assert(next == (watching, EffectView::Observe));
    after_observation(watching, context, observed);
    let acted = watching.on_observation(
        context,
        plan,
        journal.tail,
        attempted,
        interrupted,
        observed,
    );
    after_started(acted.0, context, tail);
    let applied = acted.0.apply(plan, tail, false);
    let turns = seq![(loaded, EffectView::LoadPlan { path }), next, acted, applied];
    turns_are_taken(pass, context, events, turns);
    assert(run(pass, context, events) =~= seq![turns[0].1, turns[1].1, turns[2].1, turns[3].1]);
    reveal(turn);
}

/// An operation that was applied is receipted as succeeded with the digest of the target after it.
/// The plan is dropped, and the level is planned anew at once.
pub proof fn applied_operations_are_receipted(
    pass: PassView,
    context: PassContextView,
    plan: ExecutablePlanView,
    tail: u64,
    attempted: bool,
    observed_digest: Seq<char>,
    new_tail: u64,
)
    requires
        pass.step == (StepView::Applied { plan, tail, attempted }),
    ensures
        ({
            let effects = run(
                pass,
                context,
                seq![
                    EventView::Applied(Ok(ApplyResultView::Applied { observed_digest })),
                    EventView::Appended(Ok(new_tail)),
                    EventView::Saved(Ok(())),
                    EventView::Reported(Ok(())),
                ],
            );
            &&& effects[0] == (EffectView::Append {
                tail,
                event: succeeded_of(plan, observed_digest, attempted),
            })
            &&& ends_told(effects, 1, pass, None, None, Some(0))
            &&& tells_done(told(effects, 1), context.desired, plan)
        }),
{
    let events = seq![
        EventView::Applied(Ok(ApplyResultView::Applied { observed_digest })),
        EventView::Appended(Ok(new_tail)),
        EventView::Saved(Ok(())),
        EventView::Reported(Ok(())),
    ];
    let result = Ok::<ApplyResultView, TargetErrorView>(
        ApplyResultView::Applied { observed_digest },
    );
    after_applied(pass, context, result);
    let next = pass.on_applied(context, plan, tail, attempted, result);
    let operation = plan.operations[0];
    let report = crate::report::operation_level(context.desired, operation, plan);
    after_last_receipt(next.0, context, report, Some(0), new_tail);
    let saved = next.0.publish(report, None, Some(0));
    let told = saved.0.step->Saved_snapshot;
    delivers(saved.0, context, told, Some(0));
    let reported = PassView { step: StepView::Reported { retry: Some(0) }, ..saved.0 };
    let finished = PassView { step: StepView::Finished, ..saved.0 };
    let turns = seq![
        next,
        saved,
        (reported, EffectView::Report { snapshot: told }),
        (finished, EffectView::Finish { result: Ok(()), retry: Some(0) }),
    ];
    turns_are_taken(pass, context, events, turns);
    assert(run(pass, context, events) =~= seq![turns[0].1, turns[1].1, turns[2].1, turns[3].1]);
}

/// A plan whose target had changed under it is receipted as stale at the journal's fresh tail and
/// dropped, and the level is planned anew at once.
pub proof fn outdated_plans_are_dropped(
    pass: PassView,
    context: PassContextView,
    plan: ExecutablePlanView,
    tail: u64,
    attempted: bool,
    observed_digest: Seq<char>,
    journal: JournalSnapshotView,
    new_tail: u64,
)
    requires
        pass.step == (StepView::Applied { plan, tail, attempted }),
    ensures
        ({
            let effects = run(
                pass,
                context,
                seq![
                    EventView::Applied(Ok(ApplyResultView::Stale { observed_digest })),
                    EventView::Journal(Ok(journal)),
                    EventView::Appended(Ok(new_tail)),
                    EventView::Saved(Ok(())),
                    EventView::Reported(Ok(())),
                ],
            );
            &&& effects[0] is LoadJournal
            &&& effects[1] == (EffectView::Append {
                tail: journal.tail,
                event: JournalEventView::PlanStale {
                    plan_id: plan.plan_id,
                    reason: "target-changed:"@ + observed_digest,
                },
            })
            &&& ends_told(effects, 2, pass, None, None, Some(0))
            &&& tells_progress(
                told(effects, 2),
                context.desired,
                "supabase.plan.stale"@,
                "target observation changed before apply; the exact reviewed plan was rejected"@,
                "A new plan will be derived from current target truth."@,
            )
        }),
{
    let events = seq![
        EventView::Applied(Ok(ApplyResultView::Stale { observed_digest })),
        EventView::Journal(Ok(journal)),
        EventView::Appended(Ok(new_tail)),
        EventView::Saved(Ok(())),
        EventView::Reported(Ok(())),
    ];
    let result = Ok::<ApplyResultView, TargetErrorView>(
        ApplyResultView::Stale { observed_digest },
    );
    after_applied(pass, context, result);
    let next = pass.on_applied(context, plan, tail, attempted, result);
    let rejection = crate::pass::RejectionView::TargetChanged { observed_digest };
    after_reload(next.0, context, journal);
    let receipted = next.0.on_reload(context, plan, rejection, journal);
    let report = crate::pass::changed_report(context.desired);
    after_last_receipt(receipted.0, context, report, Some(0), new_tail);
    let saved = receipted.0.publish(report, None, Some(0));
    let told = saved.0.step->Saved_snapshot;
    delivers(saved.0, context, told, Some(0));
    let reported = PassView { step: StepView::Reported { retry: Some(0) }, ..saved.0 };
    let finished = PassView { step: StepView::Finished, ..saved.0 };
    let turns = seq![
        next,
        receipted,
        saved,
        (reported, EffectView::Report { snapshot: told }),
        (finished, EffectView::Finish { result: Ok(()), retry: Some(0) }),
    ];
    turns_are_taken(pass, context, events, turns);
    assert(run(pass, context, events) =~= seq![turns[0].1, turns[1].1, turns[2].1, turns[3].1, turns[4].1]);
}

/// An operation that the target refused is receipted as failed with the target's own evidence, its
/// plan is dropped, and the level is reported as failed under the operation's first component. No
/// further pass is scheduled.
pub proof fn refused_operations_fail_the_level(
    pass: PassView,
    context: PassContextView,
    plan: ExecutablePlanView,
    tail: u64,
    attempted: bool,
    provider: ProviderDiagnosticView,
    journal: JournalSnapshotView,
    new_tail: u64,
)
    requires
        pass.step == (StepView::Applied { plan, tail, attempted }),
    ensures
        ({
            let effects = run(
                pass,
                context,
                seq![
                    EventView::Applied(Err(TargetErrorView::Provider(provider))),
                    EventView::Journal(Ok(journal)),
                    EventView::Appended(Ok(new_tail)),
                    EventView::Saved(Ok(())),
                    EventView::Reported(Ok(())),
                ],
            );
            let report = told(effects, 2);
            &&& effects[0] is LoadJournal
            &&& effects[1] == (EffectView::Append {
                tail: journal.tail,
                event: JournalEventView::OperationFailed {
                    plan_id: plan.plan_id,
                    operation_id: plan.operations[0].id,
                    code: provider.code,
                    detail: provider.detail,
                },
            })
            &&& ends_told(effects, 2, pass, None, None, None)
            &&& tells_level(report, context.desired, ComponentDispositionKind::Failed)
            &&& report.outputs.len() == 0
            &&& report.publication is None
            &&& report.diagnostics.len() == 1
            &&& report.diagnostics[0].code == provider.code
            &&& report.diagnostics[0].message == provider.detail
            &&& report.diagnostics[0].severity == DiagnosticSeverity::Error
            &&& report.diagnostics[0].help == provider.help
            &&& report.diagnostics[0].pointer is None
            &&& forall|hash: Seq<u8>|
                plan.operations[0].component_scopes.len() > 0
                    && plan.operations[0].component_scopes[0] == #[trigger] hex_text(hash)
                    ==> report.diagnostics[0].component_spec_hash == Some(hash)
            &&& plan.operations[0].component_scopes.len() == 0
                ==> report.diagnostics[0].component_spec_hash is None
        }),
{
    let events = seq![
        EventView::Applied(Err(TargetErrorView::Provider(provider))),
        EventView::Journal(Ok(journal)),
        EventView::Appended(Ok(new_tail)),
        EventView::Saved(Ok(())),
        EventView::Reported(Ok(())),
    ];
    let result = Err::<ApplyResultView, TargetErrorView>(TargetErrorView::Provider(provider));
    after_applied(pass, context, result);
    let next = pass.on_applied(context, plan, tail, attempted, result);
    let rejection = crate::pass::RejectionView::Refused(provider);
    after_reload(next.0, context, journal);
    let receipted = next.0.on_reload(context, plan, rejection, journal);
    let report = crate::pass::refused_report(context.desired, plan.operations[0], provider);
    after_last_receipt(receipted.0, context, report, None, new_tail);
    let saved = receipted.0.publish(report, None, None);
    let told = saved.0.step->Saved_snapshot;
    delivers(saved.0, context, told, None);
    let reported = PassView { step: StepView::Reported { retry: None }, ..saved.0 };
    let finished = PassView { step: StepView::Finished, ..saved.0 };
    let turns = seq![
        next,
        receipted,
        saved,
        (reported, EffectView::Report { snapshot: told }),
        (finished, EffectView::Finish { result: Ok(()), retry: None }),
    ];
    turns_are_taken(pass, context, events, turns);
    assert(run(pass, context, events) =~= seq![turns[0].1, turns[1].1, turns[2].1, turns[3].1, turns[4].1]);
    let scopes = plan.operations[0].component_scopes;
    assert forall|hash: Seq<u8>|
        scopes.len() > 0 && scopes[0] == #[trigger] hex_text(
            hash,
        ) implies report.diagnostics[0].component_spec_hash == Some(hash) by {
        crate::hashing::hex_gives_back(hash);
    }
}

/// A target that could not be reached for an operation is reported, and the same plan is tried again
/// after two seconds.
pub proof fn unreachable_targets_are_tried_again(
    pass: PassView,
    context: PassContextView,
    plan: ExecutablePlanView,
    tail: u64,
    attempted: bool,
    detail: Seq<char>,
)
    requires
        pass.step == (StepView::Applied { plan, tail, attempted }),
    ensures
        ({
            let effects = run(
                pass,
                context,
                seq![
                    EventView::Applied(Err(TargetErrorView::Unavailable(detail))),
                    EventView::Saved(Ok(())),
                    EventView::Reported(Ok(())),
                ],
            );
            &&& ends_told(effects, 0, pass, pass.checkpoint.current_plan, None, Some(2))
            &&& tells_progress(
                told(effects, 0),
                context.desired,
                "supabase.target.unavailable"@,
                detail,
                "The connector will retry from current target truth."@,
            )
        }),
{
    let events = seq![
        EventView::Applied(Err(TargetErrorView::Unavailable(detail))),
        EventView::Saved(Ok(())),
        EventView::Reported(Ok(())),
    ];
    let result = Err::<ApplyResultView, TargetErrorView>(TargetErrorView::Unavailable(detail));
    after_applied(pass, context, result);
    let saved = pass.on_applied(context, plan, tail, attempted, result);
    let told = saved.0.step->Saved_snapshot;
    delivers(saved.0, context, told, Some(2));
    let reported = PassView { step: StepView::Reported { retry: Some(2) }, ..saved.0 };
    let finished = PassView { step: StepView::Finished, ..saved.0 };
    let turns = seq![
        saved,
        (reported, EffectView::Report { snapshot: told }),
        (finished, EffectView::Finish { result: Ok(()), retry: Some(2) }),
    ];
    turns_are_taken(pass, context, events, turns);
    assert(run(pass, context, events) =~= seq![turns[0].1, turns[1].1, turns[2].1]);
}

/// An operation other than a binding is receipted as succeeded only right after it was applied, or
/// after an observation of the target that shows its outcome. Receipts that follow other receipts
/// are those of bindings.
pub proof fn success_needs_evidence(pass: PassView, context: PassContextView, event: EventView)
    ensures
        pass.after(context, event).1 matches EffectView::Append {
            event: JournalEventView::OperationSucceeded { .. },
            ..
        } ==> match (pass.step, event) {
            (
                StepView::Applied { .. },
                EventView::Applied(Ok(ApplyResultView::Applied { .. })),
            ) => true,
            (StepView::Observation { plan, .. }, EventView::Observed(Ok(observed))) => ascending(
                observed.exposed_schemas,
            ) && ascending(keys(observed.anon_read)) ==> fulfilled(
                observed,
                plan.operations[0].operation,
            ),
            (StepView::Receipts { .. }, _) => true,
            _ => false,
        },
        pass.after(context, event).0.step matches StepView::Receipts { rest, .. } ==> rest.len()
            == 0 || pass.step is Receipts || (pass.step is Plan && event is Plan
            && event->Plan_0->Ok_0.operations[0].operation is EstablishBinding),
        match (pass.step, event) {
            (
                StepView::Observation { plan, attempted: true, .. },
                EventView::Observed(Ok(_)),
            ) => {
                let effect = pass.after(context, event).1;
                effect == (EffectView::Apply { plan }) || (effect is Append
                    && effect->Append_event is OperationSucceeded)
            },
            _ => true,
        },
{
    match (pass.step, event) {
        (StepView::Observation { plan, .. }, EventView::Observed(Ok(observed))) => {
            if ascending(observed.exposed_schemas) && ascending(keys(observed.anon_read)) {
                operations_are_done_when_fulfilled(observed, plan.operations[0].operation);
            }
        },
        _ => {},
    }
}

// ---------------------------------------------------------------------------
// Failures
// ---------------------------------------------------------------------------

/// A failure of the journal, of the store, of the observation of an operation's target or of the
/// callback ends the pass with that failure. What is retained stays as it was last saved, and no
/// further pass is scheduled.
pub proof fn failures_end_the_pass(pass: PassView, context: PassContextView, event: EventView)
    requires
        pass.awaits(event),
        match event {
            EventView::Journal(Err(_)) => true,
            EventView::Appended(Err(_)) => true,
            EventView::Plan(Err(_)) => true,
            EventView::Observed(Err(_)) => !(pass.step is Fresh),
            EventView::Persisted(Err(_)) => true,
            EventView::Saved(Err(_)) => true,
            EventView::Reported(Err(_)) => true,
            _ => false,
        },
    ensures
        pass.after(context, event).0.checkpoint == pass.checkpoint,
        pass.after(context, event).1 == (EffectView::Finish {
            result: Err(
                match event {
                    EventView::Journal(Err(fault)) => ReconcileErrorView::State(fault.message()),
                    EventView::Appended(Err(fault)) => ReconcileErrorView::State(fault.message()),
                    EventView::Plan(Err(detail)) => ReconcileErrorView::State(detail),
                    EventView::Observed(Err(TargetErrorView::Unavailable(detail))) =>
                        ReconcileErrorView::State("Supabase target unavailable: "@ + detail),
                    EventView::Observed(Err(TargetErrorView::Provider(provider))) =>
                        ReconcileErrorView::State(provider.detail),
                    EventView::Persisted(Err(detail)) => ReconcileErrorView::State(detail),
                    EventView::Saved(Err(detail)) => ReconcileErrorView::State(detail),
                    EventView::Reported(Err(error)) => ReconcileErrorView::Report(error),
                    _ => ReconcileErrorView::Retired,
                },
            ),
            retry: None,
        }),
{
}

// ---------------------------------------------------------------------------
// Turns
// ---------------------------------------------------------------------------

/// One turn of a pass.
#[verifier::opaque]
spec fn turn(pass: PassView, context: PassContextView, event: EventView) -> (PassView, EffectView) {
    pass.after(context, event)
}

proof fn after_journal(pass: PassView, context: PassContextView, journal: JournalSnapshotView)
    requires
        pass.step is Journal,
    ensures
        turn(pass, context, EventView::Journal(Ok(journal))) == pass.on_journal(context, journal),
{
    reveal(turn);
}

proof fn after_plan(
    pass: PassView,
    context: PassContextView,
    journal: JournalSnapshotView,
    plan: ExecutablePlanView,
)
    requires
        pass.step == (StepView::Plan { journal }),
    ensures
        turn(pass, context, EventView::Plan(Ok(plan))) == pass.on_plan(context, journal, plan),
{
    reveal(turn);
}

proof fn after_observation(
    pass: PassView,
    context: PassContextView,
    observed: ObservedTargetView,
)
    requires
        pass.step is Observation,
    ensures
        turn(pass, context, EventView::Observed(Ok(observed))) == pass.on_observation(
            context,
            pass.step->Observation_plan,
            pass.step->Observation_tail,
            pass.step->Observation_attempted,
            pass.step->Observation_interrupted,
            observed,
        ),
{
    reveal(turn);
}

proof fn after_started(pass: PassView, context: PassContextView, tail: u64)
    requires
        pass.step is Started,
    ensures
        turn(pass, context, EventView::Appended(Ok(tail))) == pass.apply(
            pass.step->Started_plan,
            tail,
            false,
        ),
{
    reveal(turn);
}

proof fn after_applied(
    pass: PassView,
    context: PassContextView,
    result: Result<ApplyResultView, TargetErrorView>,
)
    requires
        pass.step is Applied,
    ensures
        turn(pass, context, EventView::Applied(result)) == pass.on_applied(
            context,
            pass.step->Applied_plan,
            pass.step->Applied_tail,
            pass.step->Applied_attempted,
            result,
        ),
{
    reveal(turn);
}

proof fn after_reload(pass: PassView, context: PassContextView, journal: JournalSnapshotView)
    requires
        pass.step is Reload,
    ensures
        turn(pass, context, EventView::Journal(Ok(journal))) == pass.on_reload(
            context,
            pass.step->Reload_plan,
            pass.step->Reload_rejection,
            journal,
        ),
{
    reveal(turn);
}

proof fn after_fresh(
    pass: PassView,
    context: PassContextView,
    journal: JournalSnapshotView,
    observed: Result<ObservedTargetView, TargetErrorView>,
)
    requires
        pass.step == (StepView::Fresh { journal }),
    ensures
        turn(pass, context, EventView::Observed(observed)) == pass.on_fresh(
            context,
            journal,
            observed,
        ),
{
    reveal(turn);
}

proof fn after_persisted(pass: PassView, context: PassContextView, artifacts: ArtifactsView)
    requires
        pass.step is Persisted,
    ensures
        turn(pass, context, EventView::Persisted(Ok(artifacts))) == (
            PassView {
                step: StepView::Created { plan: pass.step->Persisted_plan, artifacts },
                ..pass
            },
            EffectView::Append {
                tail: pass.step->Persisted_tail,
                event: crate::pass::created_receipt(pass.step->Persisted_plan),
            },
        ),
{
    reveal(turn);
}

proof fn after_created(pass: PassView, context: PassContextView, tail: u64)
    requires
        pass.step is Created,
    ensures
        turn(pass, context, EventView::Appended(Ok(tail))) == pass.on_created(
            context,
            pass.step->Created_plan,
            pass.step->Created_artifacts,
            tail,
        ),
{
    reveal(turn);
}

proof fn after_receipt(
    pass: PassView,
    context: PassContextView,
    rest: Seq<JournalEventView>,
    report: SliceReportView,
    retry: Option<u64>,
    tail: u64,
)
    requires
        pass.step == (StepView::Receipts { rest, report, retry }),
        rest.len() > 0,
    ensures
        turn(pass, context, EventView::Appended(Ok(tail))) == pass.receipt(
            tail,
            rest,
            report,
            retry,
        ),
{
    reveal(turn);
}

proof fn after_last_receipt(
    pass: PassView,
    context: PassContextView,
    report: SliceReportView,
    retry: Option<u64>,
    tail: u64,
)
    requires
        pass.step is Receipts,
        pass.step->Receipts_rest.len() == 0,
        pass.step->Receipts_report == report,
        pass.step->Receipts_retry == retry,
    ensures
        turn(pass, context, EventView::Appended(Ok(tail))) == pass.publish(report, None, retry),
{
    reveal(turn);
}

/// A saved report is delivered, and the pass ends.
proof fn delivers(
    pass: PassView,
    context: PassContextView,
    snapshot: ReportSnapshotView,
    retry: Option<u64>,
)
    requires
        pass.step == (StepView::Saved { snapshot, retry }),
    ensures
        ({
            let reported = PassView { step: StepView::Reported { retry }, ..pass };
            &&& turn(pass, context, EventView::Saved(Ok(()))) == (
                reported,
                EffectView::Report { snapshot },
            )
            &&& turn(reported, context, EventView::Reported(Ok(()))) == (
                PassView { step: StepView::Finished, ..pass },
                EffectView::Finish { result: Ok(()), retry },
            )
        }),
{
    reveal(turn);
}

/// What a pass asks for, given what every turn comes to.
proof fn turns_are_taken(
    pass: PassView,
    context: PassContextView,
    events: Seq<EventView>,
    turns: Seq<(PassView, EffectView)>,
)
    requires
        turns.len() == events.len(),
        forall|i: int|
            0 <= i < turns.len() ==> #[trigger] turns[i] == turn(if i == 0 {
                pass
            } else {
                turns[i - 1].0
            }, context, events[i]),
    ensures
        run(pass, context, events) == Seq::new(turns.len(), |i: int| turns[i].1),
    decreases events.len(),
{
    if events.len() > 0 {
        reveal(turn);
        let first = turns[0];
        let rest = turns.drop_first();
        let others = events.drop_first();
        assert forall|i: int| 0 <= i < rest.len() implies #[trigger] rest[i] == turn(if i == 0 {
            first.0
        } else {
            rest[i - 1].0
        }, context, others[i]) by {
            assert(rest[i] == turns[i + 1]);
            assert(others[i] == events[i + 1]);
        }
        turns_are_taken(first.0, context, others, rest);
        assert(run(pass, context, events) =~= Seq::new(turns.len(), |i: int| turns[i].1));
    } else {
        assert(run(pass, context, events) =~= Seq::new(turns.len(), |i: int| turns[i].1));
    }
}

/// What a pass does not wait for ends it with an error. Nothing is asked for, and what is retained
/// stays.
pub proof fn unexpected_events_end_the_pass(
    pass: PassView,
    context: PassContextView,
    event: EventView,
)
    requires
        match pass.step {
            StepView::Journal => !(event is Journal),
            StepView::Plan { .. } => !(event is Plan),
            StepView::Observation { .. } => !(event is Observed),
            StepView::Started { .. } => !(event is Appended),
            StepView::Applied { .. } => !(event is Applied),
            StepView::Reload { .. } => !(event is Journal),
            StepView::Receipts { .. } => !(event is Appended),
            StepView::Fresh { .. } => !(event is Observed),
            StepView::Persisted { .. } => !(event is Persisted),
            StepView::Created { .. } => !(event is Appended),
            StepView::Saved { .. } => !(event is Saved),
            StepView::Reported { .. } => !(event is Reported),
            StepView::Finished => true,
        },
    ensures
        pass.after(context, event).1 matches EffectView::Finish { result, retry } && result is Err
            && retry is None,
        pass.after(context, event).0.checkpoint == pass.checkpoint,
        pass.after(context, event).0.step is Finished,
{
}

}
