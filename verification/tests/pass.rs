//! Reconcile passes, driven event by event.

use connector_supabase::context::AnonAccess;
use connector_supabase::context::ApiContext;
use connector_supabase::context::ComponentContext;
use connector_supabase::context::Migration;
use connector_supabase::context::TargetContext;
use connector_supabase::journal::Binding;
use connector_supabase::journal::JournalConfig;
use connector_supabase::journal::JournalError;
use connector_supabase::journal::JournalEvent;
use connector_supabase::journal::JournalFault;
use connector_supabase::journal::JournalSnapshot;
use connector_supabase::journal::OperationJournal;
use connector_supabase::order::TextMap;
use connector_supabase::order::TextSet;
use connector_supabase::pass::open_pass;
use connector_supabase::pass::Artifacts;
use connector_supabase::pass::Effect;
use connector_supabase::pass::Event;
use connector_supabase::pass::Opening;
use connector_supabase::pass::Pass;
use connector_supabase::pass::PassContext;
use connector_supabase::plan::build_plan;
use connector_supabase::plan::ExecutablePlan;
use connector_supabase::plan::PlanContext;
use connector_supabase::reconciler::Checkpoint;
use connector_supabase::reconciler::ReconcileError;
use connector_supabase::reconciler::ReportError;
use connector_supabase::report::ComponentDispositionKind;
use connector_supabase::report::DiagnosticSeverity;
use connector_supabase::report::ReportSnapshot;
use connector_supabase::slice::ComponentPin;
use connector_supabase::slice::DesiredSlice;
use connector_supabase::target::ApplyResult;
use connector_supabase::target::DatabaseIdentity;
use connector_supabase::target::ObservedMigration;
use connector_supabase::target::ObservedTarget;
use connector_supabase::target::ProviderDiagnostic;
use connector_supabase::target::Target;
use connector_supabase::target::TargetConfig;
use connector_supabase::target::TargetError;
use iddqd::IdOrdMap;
use sha2::Digest as _;
use sha2::Sha256;

const SQL: &str = "create table items (id bigint primary key);";

struct World {
    desired: DesiredSlice,
    target: Target,
    journal: OperationJournal,
}

impl World {
    fn new() -> Self {
        let mut components = IdOrdMap::new();
        components
            .insert_unique(ComponentPin {
                spec_hash: [7; 32],
                name: "catalog".into(),
                context: ComponentContext {
                    api_version: connector_supabase::context::API_VERSION.into(),
                    resource_id: "catalog".into(),
                    target: TargetContext {
                        stack: "local".into(),
                        project: "henosis-local".into(),
                        database: "postgres".into(),
                        schema: "catalog".into(),
                    },
                    migrations: vec![Migration {
                        id: "001".into(),
                        checksum: checksum(),
                        sql: SQL.into(),
                        inputs: Vec::new(),
                    }],
                    api: ApiContext {
                        expose: true,
                        anon_access: AnonAccess::Read,
                    },
                },
            })
            .unwrap();
        World {
            desired: DesiredSlice {
                graph_id: [3; 16],
                generation: 4,
                sequence: 9,
                components,
                upstream_outputs: IdOrdMap::new(),
            },
            target: Target::new(TargetConfig {
                host: "db".into(),
                port: 5432,
                user: "postgres".into(),
                database: "postgres".into(),
                password_file: "/run/secrets/password".into(),
                api_url: "http://localhost:4484".into(),
                database_url_ref: "docker-secret://db".into(),
                anon_key_ref: "docker-secret://anon".into(),
            }),
            journal: OperationJournal::new(&JournalConfig {
                access_token: "token".into(),
                account_endpoint: "account".into(),
                basin_endpoint: "basin".into(),
                basin: "henosis".into(),
                stream: "journal".into(),
            }),
        }
    }

    fn context(&self) -> PassContext<'_> {
        PassContext {
            desired: &self.desired,
            target: &self.target,
            journal: &self.journal,
            connector_build: "build",
        }
    }

    fn checkpoint(&self, current_plan: Option<&str>) -> Checkpoint {
        Checkpoint {
            graph_id: [3; 16],
            generation: 4,
            sequence: 9,
            desired_digest: self.desired.desired_digest(),
            current_plan: current_plan.map(str::to_owned),
            last_report: None,
            retired: false,
        }
    }

    fn open(&self, current_plan: Option<&str>) -> Pass {
        match open_pass(Some(self.checkpoint(current_plan)), 9, true, vec![1; 16]) {
            Opening::Go(pass) => pass,
            other => panic!("{other:?}"),
        }
    }

    /// Hands the events over one by one, and collects what the pass asks for.
    fn drive(&self, pass: Pass, events: Vec<Event>) -> Vec<Effect> {
        let mut effects = Vec::new();
        let mut pass = pass;
        for event in events {
            let turn = pass.advance(self.context(), event);
            pass = turn.pass;
            effects.push(turn.effect);
        }
        effects
    }

    fn plan(&self, journal: &JournalSnapshot, observed: &ObservedTarget) -> ExecutablePlan {
        build_plan(
            &self.desired,
            journal,
            observed,
            PlanContext {
                journal_tail_after_plan: journal.tail + 1,
                connector_build: "build",
                api_url: "http://localhost:4484",
                database_url_ref: "docker-secret://db",
                anon_key_ref: "docker-secret://anon",
            },
        )
        .unwrap()
    }
}

fn checksum() -> String {
    format!("sha256:{}", hex::encode(Sha256::digest(SQL)))
}

fn texts(items: &[&str]) -> TextSet {
    let mut set = TextSet::new();
    for item in items {
        set.insert((*item).into());
    }
    set
}

fn binding() -> Binding {
    Binding {
        graph_id: "03".repeat(16),
        resource_id: "catalog".into(),
        project: "henosis-local".into(),
        database: "postgres".into(),
        schema: "catalog".into(),
    }
}

fn journal(tail: u64, events: Vec<JournalEvent>) -> JournalSnapshot {
    let mut snapshot = JournalSnapshot::default();
    snapshot.tail = tail;
    for event in events {
        snapshot.apply(event);
    }
    snapshot
}

fn bound(tail: u64) -> JournalSnapshot {
    journal(
        tail,
        vec![JournalEvent::BindingEstablished { binding: binding() }],
    )
}

fn fresh() -> ObservedTarget {
    let mut anon_read = TextMap::new();
    anon_read.insert("catalog".into(), false);
    ObservedTarget {
        identity: DatabaseIdentity {
            database: "postgres".into(),
            database_oid: "5".into(),
            server_version: "170006".into(),
        },
        metadata_exists: false,
        schemas: TextSet::new(),
        migrations: Vec::new(),
        exposed_schemas: texts(&["public"]),
        anon_read,
    }
}

fn converged() -> ObservedTarget {
    let mut anon_read = TextMap::new();
    anon_read.insert("catalog".into(), true);
    ObservedTarget {
        metadata_exists: true,
        schemas: texts(&["catalog"]),
        migrations: vec![ObservedMigration {
            resource_id: "catalog".into(),
            migration_id: "001".into(),
            checksum: checksum(),
        }],
        exposed_schemas: texts(&["catalog", "public"]),
        anon_read,
        ..fresh()
    }
}

fn saved(effect: &Effect) -> &Checkpoint {
    match effect {
        Effect::Save { checkpoint } => checkpoint,
        other => panic!("{other:?}"),
    }
}

fn reported(effect: &Effect) -> &ReportSnapshot {
    match effect {
        Effect::Report { snapshot } => snapshot,
        other => panic!("{other:?}"),
    }
}

fn state(detail: &str) -> Effect {
    Effect::Finish {
        result: Err(ReconcileError::State(detail.into())),
        retry: None,
    }
}

fn done(retry: Option<u64>) -> Effect {
    Effect::Finish {
        result: Ok(()),
        retry,
    }
}

fn code(snapshot: &ReportSnapshot) -> &str {
    &snapshot.report.diagnostics[0].code
}

#[test]
fn a_pass_opens_only_for_its_own_level() {
    let world = World::new();
    assert_eq!(
        open_pass(None, 9, true, Vec::new()),
        Opening::Stop(Err(ReconcileError::State(
            "accepted graph checkpoint is missing".into()
        )))
    );
    assert_eq!(
        open_pass(Some(world.checkpoint(None)), 8, true, Vec::new()),
        Opening::Stop(Ok(()))
    );
    let mut retired = world.checkpoint(None);
    retired.retired = true;
    assert_eq!(
        open_pass(Some(retired), 9, true, Vec::new()),
        Opening::Stop(Ok(()))
    );
    assert_eq!(
        open_pass(Some(world.checkpoint(None)), 9, false, Vec::new()),
        Opening::Stop(Err(ReconcileError::State(
            "accepted desired slice is not loaded".into()
        )))
    );
}

#[test]
fn a_fresh_level_is_planned_and_applied_later() {
    let world = World::new();
    let snapshot = journal(5, Vec::new());
    let plan = world.plan(&snapshot, &fresh());
    let effects = world.drive(
        world.open(None),
        vec![
            Event::Journal(Ok(journal(5, Vec::new()))),
            Event::Observed(Ok(fresh())),
            Event::Persisted(Ok(Artifacts {
                plan_path: "plans/p.json".into(),
                json_path: "reviews/p/plan.json".into(),
            })),
            Event::Appended(Ok(6)),
            Event::Saved(Ok(())),
            Event::Reported(Ok(())),
        ],
    );
    assert_eq!(effects[0], Effect::Observe);
    assert_eq!(effects[1], Effect::Persist { plan: plan.clone() });
    assert_eq!(
        effects[2],
        Effect::Append {
            tail: 5,
            event: JournalEvent::PlanCreated {
                plan_id: plan.plan_id.clone(),
                graph_id: "03".repeat(16),
                generation: "4".into(),
                slice_sequence: "9".into(),
                desired_digest: plan.desired_digest.clone(),
                observed_digest: plan.observed_digest.clone(),
            },
        }
    );
    let checkpoint = saved(&effects[3]);
    assert_eq!(checkpoint.current_plan.as_deref(), Some("plans/p.json"));
    let snapshot = reported(&effects[4]);
    assert_eq!(checkpoint.last_report.as_ref(), Some(snapshot));
    assert_eq!(snapshot.request_id, vec![1; 16]);
    assert_eq!(snapshot.publication_id, None);
    assert_eq!(code(snapshot), "supabase.plan.ready");
    assert_eq!(
        snapshot.report.diagnostics[0].message,
        format!(
            "reviewable plan {} is ready at reviews/p/plan.json",
            plan.plan_id
        )
    );
    assert_eq!(
        snapshot.report.diagnostics[0].help.as_deref(),
        Some("The next level-triggered pass applies at most one exact planned operation.")
    );
    assert_eq!(effects[5], done(Some(0)));
}

#[test]
fn a_plan_must_meet_its_own_fence() {
    let world = World::new();
    let effects = world.drive(
        world.open(None),
        vec![
            Event::Journal(Ok(journal(5, Vec::new()))),
            Event::Observed(Ok(fresh())),
            Event::Persisted(Ok(Artifacts {
                plan_path: "p".into(),
                json_path: "j".into(),
            })),
            Event::Appended(Ok(7)),
        ],
    );
    assert_eq!(
        effects[3],
        state("PlanCreated tail differs from executable freshness fence")
    );
}

#[test]
fn a_binding_is_journaled_without_touching_the_target() {
    let world = World::new();
    let plan = world.plan(&journal(5, Vec::new()), &fresh());
    let operation = plan.operations[0].id.clone();
    let effects = world.drive(
        world.open(Some("plans/p.json")),
        vec![
            Event::Journal(Ok(journal(6, Vec::new()))),
            Event::Plan(Ok(plan.clone())),
            Event::Appended(Ok(7)),
            Event::Appended(Ok(8)),
            Event::Appended(Ok(9)),
            Event::Saved(Ok(())),
            Event::Reported(Ok(())),
        ],
    );
    assert_eq!(
        effects[0],
        Effect::LoadPlan {
            path: "plans/p.json".into()
        }
    );
    assert_eq!(
        effects[1],
        Effect::Append {
            tail: 6,
            event: JournalEvent::OperationStarted {
                plan_id: plan.plan_id.clone(),
                operation_id: operation.clone(),
                idempotency_key: operation.clone(),
            },
        }
    );
    assert_eq!(
        effects[2],
        Effect::Append {
            tail: 7,
            event: JournalEvent::BindingEstablished { binding: binding() },
        }
    );
    assert_eq!(
        effects[3],
        Effect::Append {
            tail: 8,
            event: JournalEvent::OperationSucceeded {
                plan_id: plan.plan_id.clone(),
                operation_id: operation,
                observed_digest: plan.observed_digest.clone(),
                recovered: false,
            },
        }
    );
    assert_eq!(saved(&effects[4]).current_plan, None);
    assert_eq!(
        code(reported(&effects[5])),
        "supabase.apply.operation-complete"
    );
    assert_eq!(effects[6], done(Some(0)));
}

#[test]
fn one_operation_is_started_applied_and_receipted() {
    let world = World::new();
    let plan = world.plan(&bound(5), &fresh());
    let operation = plan.operations[0].id.clone();
    let effects = world.drive(
        world.open(Some("p")),
        vec![
            Event::Journal(Ok(bound(6))),
            Event::Plan(Ok(plan.clone())),
            Event::Observed(Ok(fresh())),
            Event::Appended(Ok(7)),
            Event::Applied(Ok(ApplyResult::Applied {
                observed_digest: "blake3:after".into(),
            })),
            Event::Appended(Ok(8)),
            Event::Saved(Ok(())),
            Event::Reported(Ok(())),
        ],
    );
    assert_eq!(effects[1], Effect::Observe);
    assert_eq!(
        effects[2],
        Effect::Append {
            tail: 6,
            event: JournalEvent::OperationStarted {
                plan_id: plan.plan_id.clone(),
                operation_id: operation.clone(),
                idempotency_key: operation.clone(),
            },
        }
    );
    assert_eq!(effects[3], Effect::Apply { plan: plan.clone() });
    assert_eq!(
        effects[4],
        Effect::Append {
            tail: 7,
            event: JournalEvent::OperationSucceeded {
                plan_id: plan.plan_id.clone(),
                operation_id: operation,
                observed_digest: "blake3:after".into(),
                recovered: false,
            },
        }
    );
    assert_eq!(saved(&effects[5]).current_plan, None);
    assert_eq!(effects[7], done(Some(0)));
}

fn interrupted(plan: &ExecutablePlan, tail: u64) -> JournalSnapshot {
    journal(
        tail,
        vec![
            JournalEvent::BindingEstablished { binding: binding() },
            JournalEvent::OperationStarted {
                plan_id: plan.plan_id.clone(),
                operation_id: plan.operations[0].id.clone(),
                idempotency_key: plan.operations[0].id.clone(),
            },
        ],
    )
}

#[test]
fn an_interrupted_operation_that_took_effect_is_recovered() {
    let world = World::new();
    let plan = world.plan(&bound(5), &fresh());
    let mut current = fresh();
    current.metadata_exists = true;
    let digest = current.digest_label();
    let effects = world.drive(
        world.open(Some("p")),
        vec![
            Event::Journal(Ok(interrupted(&plan, 7))),
            Event::Plan(Ok(plan.clone())),
            Event::Observed(Ok(current)),
            Event::Appended(Ok(8)),
        ],
    );
    assert_eq!(
        effects[2],
        Effect::Append {
            tail: 7,
            event: JournalEvent::OperationSucceeded {
                plan_id: plan.plan_id.clone(),
                operation_id: plan.operations[0].id.clone(),
                observed_digest: digest,
                recovered: true,
            },
        }
    );
    assert_eq!(saved(&effects[3]).current_plan, None);
}

#[test]
fn an_interrupted_operation_without_effect_is_tried_again() {
    let world = World::new();
    let plan = world.plan(&bound(5), &fresh());
    let effects = world.drive(
        world.open(Some("p")),
        vec![
            Event::Journal(Ok(interrupted(&plan, 7))),
            Event::Plan(Ok(plan.clone())),
            Event::Observed(Ok(fresh())),
            Event::Applied(Ok(ApplyResult::Applied {
                observed_digest: "blake3:after".into(),
            })),
        ],
    );
    assert_eq!(effects[2], Effect::Apply { plan: plan.clone() });
    assert_eq!(
        effects[3],
        Effect::Append {
            tail: 7,
            event: JournalEvent::OperationSucceeded {
                plan_id: plan.plan_id.clone(),
                operation_id: plan.operations[0].id.clone(),
                observed_digest: "blake3:after".into(),
                recovered: true,
            },
        }
    );
}

#[test]
fn an_advanced_journal_makes_a_plan_stale() {
    let world = World::new();
    let plan = world.plan(&bound(5), &fresh());
    let effects = world.drive(
        world.open(Some("p")),
        vec![
            Event::Journal(Ok(bound(7))),
            Event::Plan(Ok(plan.clone())),
            Event::Appended(Ok(8)),
            Event::Saved(Ok(())),
            Event::Reported(Ok(())),
        ],
    );
    assert_eq!(
        effects[1],
        Effect::Append {
            tail: 7,
            event: JournalEvent::PlanStale {
                plan_id: plan.plan_id.clone(),
                reason: "journal-fence-changed".into(),
            },
        }
    );
    assert_eq!(saved(&effects[2]).current_plan, None);
    let snapshot = reported(&effects[3]);
    assert_eq!(code(snapshot), "supabase.plan.stale");
    assert_eq!(
        snapshot.report.diagnostics[0].message,
        "operation journal advanced after this plan was reviewed; a fresh plan is required"
    );
    assert_eq!(
        snapshot.report.diagnostics[0].help.as_deref(),
        Some("No target mutation was attempted.")
    );
    assert_eq!(effects[4], done(Some(0)));
}

#[test]
fn a_changed_target_makes_a_plan_stale() {
    let world = World::new();
    let plan = world.plan(&bound(5), &fresh());
    let effects = world.drive(
        world.open(Some("p")),
        vec![
            Event::Journal(Ok(bound(6))),
            Event::Plan(Ok(plan.clone())),
            Event::Observed(Ok(fresh())),
            Event::Appended(Ok(7)),
            Event::Applied(Ok(ApplyResult::Stale {
                observed_digest: "blake3:other".into(),
            })),
            Event::Journal(Ok(bound(12))),
            Event::Appended(Ok(13)),
            Event::Saved(Ok(())),
            Event::Reported(Ok(())),
        ],
    );
    assert_eq!(effects[4], Effect::LoadJournal);
    assert_eq!(
        effects[5],
        Effect::Append {
            tail: 12,
            event: JournalEvent::PlanStale {
                plan_id: plan.plan_id.clone(),
                reason: "target-changed:blake3:other".into(),
            },
        }
    );
    let snapshot = reported(&effects[7]);
    assert_eq!(code(snapshot), "supabase.plan.stale");
    assert_eq!(
        snapshot.report.diagnostics[0].message,
        "target observation changed before apply; the exact reviewed plan was rejected"
    );
    assert_eq!(effects[8], done(Some(0)));
}

#[test]
fn a_refused_operation_fails_the_level() {
    let world = World::new();
    let plan = world.plan(&bound(5), &fresh());
    let effects = world.drive(
        world.open(Some("p")),
        vec![
            Event::Journal(Ok(bound(6))),
            Event::Plan(Ok(plan.clone())),
            Event::Observed(Ok(fresh())),
            Event::Appended(Ok(7)),
            Event::Applied(Err(TargetError::Provider(ProviderDiagnostic {
                code: "supabase.postgres.42501".into(),
                detail: "severity: ERROR".into(),
                help: Some("grant it".into()),
            }))),
            Event::Journal(Ok(bound(7))),
            Event::Appended(Ok(8)),
            Event::Saved(Ok(())),
            Event::Reported(Ok(())),
        ],
    );
    assert_eq!(
        effects[5],
        Effect::Append {
            tail: 7,
            event: JournalEvent::OperationFailed {
                plan_id: plan.plan_id.clone(),
                operation_id: plan.operations[0].id.clone(),
                code: "supabase.postgres.42501".into(),
                detail: "severity: ERROR".into(),
            },
        }
    );
    assert_eq!(saved(&effects[6]).current_plan, None);
    let report = &reported(&effects[7]).report;
    assert_eq!(
        report.dispositions[0].kind,
        ComponentDispositionKind::Failed
    );
    assert_eq!(report.diagnostics[0].severity, DiagnosticSeverity::Error);
    assert_eq!(
        report.diagnostics[0].component_spec_hash,
        Some(vec![7; 32])
    );
    assert_eq!(report.diagnostics[0].help.as_deref(), Some("grant it"));
    assert_eq!(effects[8], done(None));
}

#[test]
fn an_unavailable_target_keeps_the_plan_and_retries() {
    let world = World::new();
    let plan = world.plan(&bound(5), &fresh());
    let effects = world.drive(
        world.open(Some("p")),
        vec![
            Event::Journal(Ok(bound(6))),
            Event::Plan(Ok(plan)),
            Event::Observed(Ok(fresh())),
            Event::Appended(Ok(7)),
            Event::Applied(Err(TargetError::Unavailable("gone".into()))),
            Event::Saved(Ok(())),
            Event::Reported(Ok(())),
        ],
    );
    assert_eq!(saved(&effects[4]).current_plan.as_deref(), Some("p"));
    let snapshot = reported(&effects[5]);
    assert_eq!(code(snapshot), "supabase.target.unavailable");
    assert_eq!(snapshot.report.diagnostics[0].message, "gone");
    assert_eq!(effects[6], done(Some(2)));
}

#[test]
fn a_converged_level_is_published_with_evidence() {
    let world = World::new();
    let effects = world.drive(
        world.open(None),
        vec![
            Event::Journal(Ok(bound(19))),
            Event::Observed(Ok(converged())),
            Event::Saved(Ok(())),
            Event::Reported(Ok(())),
        ],
    );
    let snapshot = reported(&effects[2]);
    let publication = snapshot.report.publication.as_ref().unwrap();
    assert_eq!(publication.uri, "s2://henosis/journal@19");
    assert_eq!(publication.revision, converged().digest_label());
    assert_eq!(
        snapshot.report.dispositions[0].kind,
        ComponentDispositionKind::Ready
    );
    assert_eq!(
        snapshot.report.outputs[0].component_spec_hash,
        vec![7; 32]
    );
    assert!(snapshot.report.diagnostics.is_empty());
    assert_eq!(snapshot.publication_id.as_ref().unwrap().len(), 16);
    assert_eq!(effects[3], done(None));
}

#[test]
fn an_invalid_level_touches_nothing() {
    let world = World::new();
    let foreign = journal(
        3,
        vec![JournalEvent::BindingEstablished {
            binding: Binding {
                graph_id: "another".into(),
                ..binding()
            },
        }],
    );
    let effects = world.drive(
        world.open(Some("p")),
        vec![
            Event::Journal(Ok(foreign)),
            Event::Saved(Ok(())),
            Event::Reported(Ok(())),
        ],
    );
    assert_eq!(saved(&effects[0]).current_plan, None);
    let report = &reported(&effects[1]).report;
    let codes: Vec<&str> = report
        .diagnostics
        .iter()
        .map(|diagnostic| diagnostic.code.as_str())
        .collect();
    assert_eq!(
        codes,
        vec!["supabase.plan.target-owned", "supabase.plan.binding-conflict"]
    );
    assert_eq!(effects[2], done(None));
}

#[test]
fn a_target_that_cannot_be_observed_is_tried_again() {
    let world = World::new();
    let effects = world.drive(
        world.open(None),
        vec![
            Event::Journal(Ok(bound(5))),
            Event::Observed(Err(TargetError::Unavailable("gone".into()))),
            Event::Saved(Ok(())),
            Event::Reported(Ok(())),
        ],
    );
    let snapshot = reported(&effects[2]);
    assert_eq!(code(snapshot), "supabase.target.observe");
    assert_eq!(
        snapshot.report.diagnostics[0].message,
        "Supabase target unavailable: gone"
    );
    assert_eq!(effects[3], done(Some(2)));
}

#[test]
fn a_mutated_migration_fails_the_level() {
    let world = World::new();
    let mut target = converged();
    target.migrations[0].checksum = "sha256:other".into();
    let effects = world.drive(
        world.open(None),
        vec![
            Event::Journal(Ok(bound(5))),
            Event::Observed(Ok(target)),
            Event::Saved(Ok(())),
            Event::Reported(Ok(())),
        ],
    );
    assert_eq!(
        code(reported(&effects[2])),
        "supabase.plan.migration-mutated"
    );
    assert_eq!(effects[3], done(None));
}

fn after_plan(plan: ExecutablePlan) -> Effect {
    let world = World::new();
    world
        .drive(
            world.open(Some("p")),
            vec![Event::Journal(Ok(bound(6))), Event::Plan(Ok(plan))],
        )
        .remove(1)
}

#[test]
fn a_persisted_plan_is_held_to_its_identity() {
    let world = World::new();
    let plan = || world.plan(&bound(5), &fresh());
    let mut forged = plan();
    forged.connector_build = "another".into();
    assert_eq!(
        after_plan(forged),
        state("persisted executable plan does not match its digest")
    );
    let mut other = plan();
    other.slice_sequence = "8".into();
    other.refresh_id();
    assert_eq!(
        after_plan(other),
        state("persisted executable plan does not describe current desired level")
    );
    let mut empty = plan();
    empty.operations = Vec::new();
    empty.refresh_id();
    assert_eq!(after_plan(empty), state("persisted plan has no operation"));
    let mut fence = plan();
    fence.journal_tail = "x".into();
    fence.refresh_id();
    assert_eq!(after_plan(fence), state("invalid digit found in string"));
    let mut fence = plan();
    fence.journal_tail = "18446744073709551616".into();
    fence.refresh_id();
    assert_eq!(
        after_plan(fence),
        state("number too large to fit in target type")
    );
    let mut fence = plan();
    fence.journal_tail = "+006".into();
    fence.refresh_id();
    assert_eq!(after_plan(fence), Effect::Observe);
}

#[test]
fn failures_end_the_pass() {
    let world = World::new();
    let plan = world.plan(&bound(5), &fresh());
    let last = |current_plan: Option<&str>, events: Vec<Event>| {
        world
            .drive(world.open(current_plan), events)
            .pop()
            .unwrap()
    };
    assert_eq!(
        last(
            None,
            vec![Event::Journal(Err(JournalFault::Transient("gone".into())))]
        ),
        state("Transient failure: gone")
    );
    assert_eq!(
        last(
            Some("p"),
            vec![
                Event::Journal(Ok(bound(6))),
                Event::Plan(Err("no such file".into())),
            ]
        ),
        state("no such file")
    );
    assert_eq!(
        last(
            Some("p"),
            vec![
                Event::Journal(Ok(bound(6))),
                Event::Plan(Ok(plan.clone())),
                Event::Observed(Err(TargetError::Unavailable("gone".into()))),
            ]
        ),
        state("Supabase target unavailable: gone")
    );
    assert_eq!(
        last(
            Some("p"),
            vec![
                Event::Journal(Ok(bound(6))),
                Event::Plan(Ok(plan)),
                Event::Observed(Ok(fresh())),
                Event::Appended(Err(JournalFault::Domain(JournalError::CasConflict {
                    current_tail: 9,
                }))),
            ]
        ),
        state("Terminal error: operation journal advanced to tail 9")
    );
    assert_eq!(
        last(
            None,
            vec![
                Event::Journal(Ok(bound(6))),
                Event::Observed(Ok(fresh())),
                Event::Persisted(Err("disk full".into())),
            ]
        ),
        state("disk full")
    );
    assert_eq!(
        last(
            None,
            vec![
                Event::Journal(Ok(bound(6))),
                Event::Observed(Ok(converged())),
                Event::Saved(Err("disk full".into())),
            ]
        ),
        state("disk full")
    );
    assert_eq!(
        last(
            None,
            vec![
                Event::Journal(Ok(bound(6))),
                Event::Observed(Ok(converged())),
                Event::Saved(Ok(())),
                Event::Reported(Err(ReportError {
                    detail: "refused".into(),
                })),
            ]
        ),
        Effect::Finish {
            result: Err(ReconcileError::Report(ReportError {
                detail: "refused".into(),
            })),
            retry: None,
        }
    );
    assert_eq!(
        last(None, vec![Event::Saved(Ok(()))]),
        state("unexpected event")
    );
}

#[test]
fn a_destructive_level_touches_nothing() {
    let mut world = World::new();
    let mut pin = world.desired.components.remove([7; 32]).unwrap();
    pin.context.migrations[0].sql = "drop table items;".into();
    pin.context.migrations[0].checksum =
        format!("sha256:{}", hex::encode(Sha256::digest("drop table items;")));
    world.desired.components.insert_unique(pin).unwrap();
    let effects = world.drive(
        world.open(None),
        vec![
            Event::Journal(Ok(bound(5))),
            Event::Saved(Ok(())),
            Event::Reported(Ok(())),
        ],
    );
    let report = &reported(&effects[1]).report;
    assert_eq!(
        report.diagnostics[0].code,
        "supabase.plan.destructive-unsupported"
    );
    assert_eq!(
        report.dispositions[0].kind,
        ComponentDispositionKind::Failed
    );
    assert_eq!(effects[2], done(None));
}
