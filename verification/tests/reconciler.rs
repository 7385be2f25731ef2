//! Durable acceptance, recovery, retirement and reports.

use connector_supabase::context::AnonAccess;
use connector_supabase::context::ApiContext;
use connector_supabase::context::ComponentContext;
use connector_supabase::context::TargetContext;
use connector_supabase::journal::JournalError;
use connector_supabase::journal::JournalEvent;
use connector_supabase::journal::JournalFault;
use connector_supabase::journal::JournalSnapshot;
use connector_supabase::plan::Action;
use connector_supabase::plan::DestructiveLevel;
use connector_supabase::plan::ExecutablePlan;
use connector_supabase::plan::ExecutionClass;
use connector_supabase::plan::Operation;
use connector_supabase::plan::PlanDiagnostic;
use connector_supabase::plan::PlannedOperation;
use connector_supabase::reconciler::_path_is_private_plan;
use connector_supabase::reconciler::accept;
use connector_supabase::reconciler::accept_with_digest;
use connector_supabase::reconciler::checkpoint_file;
use connector_supabase::reconciler::journal_append;
use connector_supabase::reconciler::journal_snapshot;
use connector_supabase::reconciler::resume;
use connector_supabase::reconciler::resume_with_digest;
use connector_supabase::reconciler::retire;
use connector_supabase::reconciler::target_state;
use connector_supabase::reconciler::validate_identity_with_digest;
use connector_supabase::reconciler::validate_plan_identity;
use connector_supabase::reconciler::Acceptance;
use connector_supabase::reconciler::Checkpoint;
use connector_supabase::reconciler::ReconcileError;
use connector_supabase::reconciler::ReportError;
use connector_supabase::reconciler::Retirement;
use connector_supabase::report::diagnostic;
use connector_supabase::report::failed_report;
use connector_supabase::report::operation_report;
use connector_supabase::report::plan_diagnostics;
use connector_supabase::report::ready_report;
use connector_supabase::report::reconciling_report;
use connector_supabase::report::stable_publication_id;
use connector_supabase::report::ComponentDisposition;
use connector_supabase::report::ComponentDispositionKind;
use connector_supabase::report::ComponentOutputs;
use connector_supabase::report::DiagnosticSeverity;
use connector_supabase::report::PublicationEvidence;
use connector_supabase::slice::ComponentPin;
use connector_supabase::slice::DesiredSlice;
use connector_supabase::slice::SliceError;
use connector_supabase::target::TargetError;
use iddqd::IdOrdMap;
use uuid::Uuid;

fn pin(hash: u8, name: &str) -> ComponentPin {
    ComponentPin {
        spec_hash: [hash; 32],
        name: name.into(),
        context: ComponentContext {
            api_version: connector_supabase::context::API_VERSION.into(),
            resource_id: name.into(),
            target: TargetContext {
                stack: "local".into(),
                project: "henosis-local".into(),
                database: "postgres".into(),
                schema: name.into(),
            },
            migrations: Vec::new(),
            api: ApiContext {
                expose: false,
                anon_access: AnonAccess::NoAccess,
            },
        },
    }
}

fn desired(generation: u64, sequence: u64, hash: u8) -> DesiredSlice {
    let mut components = IdOrdMap::new();
    components.insert_unique(pin(hash, "catalog")).unwrap();
    DesiredSlice {
        graph_id: [3; 16],
        generation,
        sequence,
        components,
        upstream_outputs: IdOrdMap::new(),
    }
}

fn checkpoint(desired: &DesiredSlice) -> Checkpoint {
    Checkpoint {
        graph_id: desired.graph_id,
        generation: desired.generation,
        sequence: desired.sequence,
        desired_digest: desired.desired_digest(),
        current_plan: None,
        last_report: None,
        retired: false,
    }
}

#[test]
fn an_unknown_graph_is_accepted() {
    let level = desired(4, 9, 7);
    assert_eq!(
        accept(&level, None),
        Acceptance::Accepted(checkpoint(&level))
    );
}

#[test]
fn acceptance_never_goes_back() {
    let retained = checkpoint(&desired(4, 9, 7));
    assert_eq!(
        accept(&desired(4, 8, 8), Some(&retained)),
        Acceptance::Superseded(9)
    );
    assert_eq!(
        accept(&desired(4, 9, 7), Some(&retained)),
        Acceptance::Retained(9)
    );
    assert_eq!(
        accept(&desired(4, 9, 8), Some(&retained)),
        Acceptance::Refused(ReconcileError::SequenceConflict(9))
    );
    assert_eq!(
        accept(&desired(3, 10, 7), Some(&retained)),
        Acceptance::Refused(ReconcileError::State(
            "slice generation 3 precedes retained generation 4".into()
        ))
    );
    let next = desired(4, 10, 8);
    assert_eq!(
        accept(&next, Some(&retained)),
        Acceptance::Accepted(checkpoint(&next))
    );
}

#[test]
fn a_new_level_drops_the_plan_of_the_old_one() {
    let mut retained = checkpoint(&desired(4, 9, 7));
    retained.current_plan = Some("plans/p.json".into());
    let next = desired(5, 10, 7);
    assert_eq!(
        accept(&next, Some(&retained)),
        Acceptance::Accepted(checkpoint(&next))
    );
}

#[test]
fn a_retired_graph_accepts_nothing() {
    let mut retained = checkpoint(&desired(4, 9, 7));
    retained.retired = true;
    for level in [desired(4, 8, 7), desired(4, 9, 7), desired(9, 90, 7)] {
        assert_eq!(
            accept(&level, Some(&retained)),
            Acceptance::Refused(ReconcileError::Retired)
        );
    }
}

#[test]
fn only_the_exact_level_is_resumed() {
    let retained = checkpoint(&desired(4, 9, 7));
    assert_eq!(resume(&retained, &desired(4, 9, 7)), Ok(()));
    assert_eq!(
        resume(&retained, &desired(4, 9, 8)),
        Err(ReconcileError::SequenceConflict(9))
    );
}

#[test]
fn retirement_releases_the_graph_once() {
    let mut retained = checkpoint(&desired(4, 9, 7));
    retained.current_plan = Some("plans/p.json".into());
    let state = |detail: &str| Retirement::Refused(ReconcileError::State(detail.into()));
    assert_eq!(retire(&[3; 16], None, 4, 9), state("cannot retire unknown graph"));
    assert_eq!(
        retire(&[3; 16], Some(&retained), 5, 9),
        state("retire identity does not match retained level")
    );
    assert_eq!(
        retire(&[3; 16], Some(&retained), 4, 8),
        state("retire identity does not match retained level")
    );
    let released = Checkpoint {
        retired: true,
        ..checkpoint(&desired(4, 9, 7))
    };
    assert_eq!(
        retire(&[3; 16], Some(&retained), 4, 10),
        Retirement::Release {
            event: JournalEvent::GraphReleased {
                graph_id: "03".repeat(16),
            },
            checkpoint: released.clone(),
        }
    );
    assert_eq!(
        retire(&[5; 16], Some(&retained), 4, 9),
        Retirement::Release {
            event: JournalEvent::GraphReleased {
                graph_id: "05".repeat(16),
            },
            checkpoint: released.clone(),
        }
    );
    assert_eq!(retire(&[3; 16], Some(&released), 4, 9), Retirement::Done(4));
}

#[test]
fn checkpoints_and_private_plans_have_their_places() {
    assert_eq!(
        checkpoint_file(&[0xab; 16]),
        "abababababababababababababababab.json"
    );
    assert!(_path_is_private_plan("/var/lib/state/plans/x.json"));
    assert!(_path_is_private_plan("plans"));
    assert!(!_path_is_private_plan("/var/plans.d/reviews/plans.json"));
}

#[test]
fn failures_are_told_apart() {
    assert_eq!(
        ReconcileError::Invalid(SliceError {
            message: "component hash is duplicated".into()
        })
        .message(),
        "invalid slice: component hash is duplicated"
    );
    assert_eq!(ReconcileError::Retired.message(), "graph is retired");
    assert_eq!(
        ReconcileError::SequenceConflict(9).message(),
        "slice sequence 9 was already accepted with different contents"
    );
    assert_eq!(
        ReconcileError::State("disk".into()).message(),
        "connector state failure: disk"
    );
    assert_eq!(
        ReconcileError::Report(ReportError {
            detail: "refused".into()
        })
        .message(),
        "core callback failed: refused"
    );
    assert_eq!(
        target_state(&TargetError::Unavailable("gone".into())),
        ReconcileError::State("Supabase target unavailable: gone".into())
    );
    let fault = || JournalFault::Domain(JournalError::CasConflict { current_tail: 4 });
    let state = ReconcileError::State(
        "Terminal error: operation journal advanced to tail 4".into(),
    );
    assert_eq!(journal_append(Err(fault())), Err(state));
    assert_eq!(journal_append(Ok(5)), Ok(5));
    assert_eq!(
        journal_snapshot(Err(JournalFault::Transient("timeout".into()))),
        Err(ReconcileError::State("Transient failure: timeout".into()))
    );
    assert_eq!(
        journal_snapshot(Ok(JournalSnapshot::default())),
        Ok(JournalSnapshot::default())
    );
}

fn plan_for(level: &DesiredSlice) -> ExecutablePlan {
    ExecutablePlan {
        plan_id: "sha256:plan".into(),
        api_version: "v".into(),
        connector: "supabase".into(),
        connector_build: "b".into(),
        policy_version: "p".into(),
        graph_id: "03".repeat(16),
        generation: level.generation.to_string(),
        slice_sequence: level.sequence.to_string(),
        target: "t".into(),
        desired_digest: format!("blake3:{}", hex::encode(level.desired_digest())),
        observed_digest: "blake3:observed".into(),
        journal_tail: "3".into(),
        operations: Vec::new(),
        planned_outputs: Vec::new(),
    }
}

#[test]
fn a_plan_describes_one_exact_level() {
    let level = desired(4, 9, 7);
    let plan = plan_for(&level);
    assert_eq!(validate_plan_identity(&plan, &level), Ok(()));
    for other in [desired(5, 9, 7), desired(4, 10, 7), desired(4, 9, 8)] {
        assert_eq!(
            validate_plan_identity(&plan, &other),
            Err(ReconcileError::State(
                "persisted executable plan does not describe current desired level".into()
            ))
        );
    }
    let foreign = ExecutablePlan {
        graph_id: "04".repeat(16),
        ..plan_for(&level)
    };
    assert!(validate_plan_identity(&foreign, &level).is_err());
}

#[test]
fn plan_failures_become_findings_of_a_failed_level() {
    let level = desired(4, 9, 7);
    let report = failed_report(
        &level,
        plan_diagnostics(&vec![PlanDiagnostic {
            component_spec_hash: [7; 32],
            code: "c".into(),
            message: "m".into(),
            pointer: "/p".into(),
            help: "h".into(),
        }]),
    );
    assert_eq!(report.graph_id, vec![3; 16]);
    assert_eq!(report.generation, 4);
    assert_eq!(report.sequence, 9);
    assert_eq!(report.connector, "supabase");
    assert_eq!(
        report.dispositions,
        vec![ComponentDisposition {
            component_spec_hash: vec![7; 32],
            kind: ComponentDispositionKind::Failed,
        }]
    );
    assert!(report.outputs.is_empty());
    assert_eq!(report.publication, None);
    assert_eq!(
        report.diagnostics,
        vec![diagnostic(
            "c",
            "m",
            Some(vec![7; 32]),
            Some("h"),
            Some("/p")
        )]
    );
    assert_eq!(report.diagnostics[0].severity, DiagnosticSeverity::Error);
}

#[test]
fn progress_is_information() {
    let level = desired(4, 9, 7);
    let report = reconciling_report(&level, "c", "m", "h");
    assert_eq!(
        report.dispositions[0].kind,
        ComponentDispositionKind::Reconciling
    );
    assert_eq!(report.diagnostics.len(), 1);
    assert_eq!(report.diagnostics[0].severity, DiagnosticSeverity::Info);
    assert_eq!(report.diagnostics[0].component_spec_hash, None);
    assert_eq!(report.diagnostics[0].pointer, None);
    let operation = PlannedOperation {
        id: "sha256:operation".into(),
        address: "schema.catalog".into(),
        component_scopes: Vec::new(),
        execution_class: ExecutionClass::ReconciledObject,
        action: Action::Create,
        before: serde_json::Value::Null,
        after: serde_json::Value::Null,
        destructive_level: DestructiveLevel::NonDestructive,
        dependencies: Vec::new(),
        preconditions: Vec::new(),
        operation: Operation::EnsureMetadata,
    };
    let report = operation_report(&level, &operation, &plan_for(&level));
    assert_eq!(
        report.diagnostics[0].code,
        "supabase.apply.operation-complete"
    );
    assert_eq!(
        report.diagnostics[0].message,
        "operation sha256:operation (schema.catalog) from plan sha256:plan reached its \
         postcondition"
    );
    assert_eq!(
        report.diagnostics[0].help.as_deref(),
        Some("The next pass re-observes and replans the remaining level.")
    );
}

#[test]
fn publications_are_identified_by_their_outputs() {
    let level = desired(4, 9, 7);
    let evidence = || PublicationEvidence {
        revision: "blake3:observed".into(),
        uri: "s2://b/s@1".into(),
    };
    let outputs = |values: &[u8]| {
        vec![ComponentOutputs {
            component_spec_hash: vec![7, 8],
            values_json: values.to_vec(),
        }]
    };
    let report = ready_report(&level, outputs(b"{}"), evidence());
    assert_eq!(report.dispositions[0].kind, ComponentDispositionKind::Ready);
    assert_eq!(report.publication, Some(evidence()));
    let namespace = Uuid::from_bytes([
        0xbc, 0xd8, 0x7a, 0x63, 0xca, 0xd4, 0x56, 0x14, 0x88, 0x26, 0x38, 0xdb, 0x23, 0x78, 0xe9,
        0x27,
    ]);
    assert_eq!(
        stable_publication_id(&report),
        Some(
            Uuid::new_v5(&namespace, b"[[[7,8],[123,125]]]")
                .as_bytes()
                .to_vec()
        )
    );
    let again = ready_report(&desired(5, 10, 9), outputs(b"{}"), evidence());
    assert_eq!(stable_publication_id(&report), stable_publication_id(&again));
    let other = ready_report(&level, outputs(b"[]"), evidence());
    assert_ne!(stable_publication_id(&report), stable_publication_id(&other));
    let empty = ready_report(&level, Vec::new(), evidence());
    assert_eq!(stable_publication_id(&empty), None);
}

#[test]
fn levels_are_compared_by_their_digests() {
    let level = desired(4, 9, 7);
    let mut retained = checkpoint(&level);
    retained.desired_digest = [5; 32];
    assert_eq!(
        accept_with_digest(&level, &[5; 32], Some(&retained)),
        Acceptance::Retained(9)
    );
    assert_eq!(
        accept_with_digest(&level, &[6; 32], Some(&retained)),
        Acceptance::Refused(ReconcileError::SequenceConflict(9))
    );
    match accept_with_digest(&desired(4, 10, 7), &[6; 32], Some(&retained)) {
        Acceptance::Accepted(next) => {
            assert_eq!(next.desired_digest, [6; 32]);
            assert_eq!(next.sequence, 10);
        }
        other => panic!("{other:?}"),
    }
    assert_eq!(resume_with_digest(&retained, &[5; 32]), Ok(()));
    assert_eq!(
        resume_with_digest(&retained, &[6; 32]),
        Err(ReconcileError::SequenceConflict(9))
    );
    let plan = ExecutablePlan {
        desired_digest: format!("blake3:{}", "05".repeat(32)),
        ..plan_for(&level)
    };
    assert!(validate_identity_with_digest(&plan, &level, &[5; 32]).is_ok());
    assert!(validate_identity_with_digest(&plan, &level, &[6; 32]).is_err());
}
