//! The operation journal: folding, reading and appending.

use connector_supabase::journal::append_outcome;
use connector_supabase::journal::envelope;
use connector_supabase::journal::following;
use connector_supabase::journal::stream_is_missing;
use connector_supabase::journal::AppendFailure;
use connector_supabase::journal::Binding;
use connector_supabase::journal::JournalConfig;
use connector_supabase::journal::JournalError;
use connector_supabase::journal::JournalEvent;
use connector_supabase::journal::JournalFault;
use connector_supabase::journal::JournalReader;
use connector_supabase::journal::JournalRecord;
use connector_supabase::journal::JournalSnapshot;
use connector_supabase::journal::OperationJournal;
use connector_supabase::journal::OperationState;

fn binding(graph: &str, resource: &str) -> Binding {
    Binding {
        graph_id: graph.into(),
        resource_id: resource.into(),
        project: "henosis-local".into(),
        database: "postgres".into(),
        schema: resource.into(),
    }
}

fn started(operation: &str) -> JournalEvent {
    JournalEvent::OperationStarted {
        plan_id: "sha256:plan".into(),
        operation_id: operation.into(),
        idempotency_key: operation.into(),
    }
}

#[test]
fn folds_bindings_and_crash_recovery_receipts_without_target_state() {
    let binding = Binding {
        graph_id: "11".repeat(16),
        resource_id: "catalog".into(),
        project: "henosis-local".into(),
        database: "postgres".into(),
        schema: "catalog".into(),
    };
    let mut snapshot = JournalSnapshot::default();
    snapshot.apply(JournalEvent::BindingEstablished {
        binding: binding.clone(),
    });
    snapshot.apply(JournalEvent::OperationStarted {
        plan_id: "sha256:plan".into(),
        operation_id: "sha256:operation".into(),
        idempotency_key: "sha256:operation".into(),
    });
    assert_eq!(snapshot.bindings.get("catalog"), Some(&binding));
    assert!(matches!(
        snapshot.operations.get("sha256:operation"),
        Some(OperationState::Started { .. })
    ));
    snapshot.apply(JournalEvent::OperationSucceeded {
        plan_id: "sha256:plan".into(),
        operation_id: "sha256:operation".into(),
        observed_digest: "blake3:target".into(),
        recovered: true,
    });
    assert!(matches!(
        snapshot.operations.get("sha256:operation"),
        Some(OperationState::Succeeded { .. })
    ));
    snapshot.apply(JournalEvent::GraphReleased {
        graph_id: "11".repeat(16),
    });
    assert!(snapshot.bindings.is_empty());
}

#[test]
fn plan_markers_leave_the_facts_alone() {
    let mut snapshot = JournalSnapshot::default();
    snapshot.apply(JournalEvent::PlanCreated {
        plan_id: "p".into(),
        graph_id: "g".into(),
        generation: "1".into(),
        slice_sequence: "2".into(),
        desired_digest: "d".into(),
        observed_digest: "o".into(),
    });
    snapshot.apply(JournalEvent::PlanStale {
        plan_id: "p".into(),
        reason: "r".into(),
    });
    assert_eq!(snapshot, JournalSnapshot::default());
}

#[test]
fn the_last_receipt_decides() {
    let mut snapshot = JournalSnapshot::default();
    snapshot.apply(started("b"));
    snapshot.apply(started("a"));
    snapshot.apply(JournalEvent::OperationFailed {
        plan_id: "p".into(),
        operation_id: "b".into(),
        code: "c".into(),
        detail: "d".into(),
    });
    assert_eq!(
        snapshot.operations.get("b"),
        Some(&OperationState::Failed {
            plan_id: "p".into(),
            code: "c".into(),
            detail: "d".into(),
        })
    );
    assert!(matches!(
        snapshot.operations.get("a"),
        Some(OperationState::Started { .. })
    ));
    assert_eq!(snapshot.operations.get("c"), None);
    let names: Vec<&String> = snapshot
        .operations
        .entries()
        .iter()
        .map(|entry| &entry.0)
        .collect();
    assert_eq!(names, vec!["a", "b"]);
}

#[test]
fn a_release_removes_only_its_own_bindings() {
    let mut snapshot = JournalSnapshot::default();
    for event in [
        JournalEvent::BindingEstablished {
            binding: binding("one", "b"),
        },
        JournalEvent::BindingEstablished {
            binding: binding("two", "a"),
        },
        JournalEvent::BindingEstablished {
            binding: binding("one", "c"),
        },
        started("operation"),
        JournalEvent::GraphReleased {
            graph_id: "one".into(),
        },
    ] {
        snapshot.apply(event);
    }
    assert_eq!(snapshot.bindings.get("a"), Some(&binding("two", "a")));
    assert_eq!(snapshot.bindings.get("b"), None);
    assert_eq!(snapshot.bindings.get("c"), None);
    assert!(snapshot.operations.get("operation").is_some());
}

fn record(seq_num: u64, event: JournalEvent) -> JournalRecord {
    JournalRecord {
        seq_num,
        envelope: Ok(envelope("id".into(), event)),
    }
}

#[test]
fn reading_folds_batches_up_to_the_tail() {
    let reader = JournalReader::new(3);
    assert_eq!(reader.wanted(), Some(0));
    let reader = reader
        .take(vec![record(0, started("a")), record(1, started("b"))])
        .unwrap();
    assert_eq!(reader.wanted(), Some(2));
    let reader = reader
        .take(vec![record(
            2,
            JournalEvent::BindingEstablished {
                binding: binding("g", "r"),
            },
        )])
        .unwrap();
    assert_eq!(reader.wanted(), None);
    let facts = reader.finish();
    assert_eq!(facts.tail, 3);
    assert!(facts.operations.get("a").is_some());
    assert!(facts.operations.get("b").is_some());
    assert_eq!(facts.bindings.get("r"), Some(&binding("g", "r")));
}

#[test]
fn an_empty_journal_wants_nothing() {
    assert_eq!(JournalReader::new(0).wanted(), None);
}

#[test]
fn unreadable_journals_violate_an_invariant() {
    assert_eq!(
        JournalReader::new(5).take(Vec::new()).unwrap_err(),
        JournalFault::Invariant("empty S2 journal batch before tail 5 at 0".into())
    );
    assert_eq!(
        JournalReader::new(5)
            .take(vec![JournalRecord {
                seq_num: 4,
                envelope: Err("expected value".into()),
            }])
            .unwrap_err(),
        JournalFault::Invariant("invalid operation journal record at 4: expected value".into())
    );
    let mut other = envelope("id".into(), started("a"));
    other.api_version = "v\"2".into();
    assert_eq!(
        JournalReader::new(5)
            .take(vec![
                record(0, started("a")),
                JournalRecord {
                    seq_num: 1,
                    envelope: Ok(other),
                },
                JournalRecord {
                    seq_num: 2,
                    envelope: Err("later".into()),
                },
            ])
            .unwrap_err(),
        JournalFault::Invariant(
            "unsupported operation journal apiVersion \"v\\\"2\" at 1".into()
        )
    );
}

#[test]
fn a_missing_stream_is_recognized_by_code_or_message() {
    assert!(stream_is_missing("STREAM_NOT_FOUND", ""));
    assert!(stream_is_missing("", "the stream was Not Found here"));
    assert!(!stream_is_missing("not found", "not_found"));
    assert!(!stream_is_missing("forbidden", "no access"));
}

#[test]
fn appending_moves_the_tail_by_one_or_says_why_not() {
    assert_eq!(append_outcome(Ok(7)), Ok(8));
    assert_eq!(append_outcome(Ok(u64::MAX)), Ok(u64::MAX));
    let conflict = append_outcome(Err(AppendFailure::SeqNumMismatch(12))).unwrap_err();
    assert_eq!(
        conflict,
        JournalFault::Domain(JournalError::CasConflict { current_tail: 12 })
    );
    assert_eq!(
        conflict.message(),
        "Terminal error: operation journal advanced to tail 12"
    );
    let other = append_outcome(Err(AppendFailure::Other("timeout".into()))).unwrap_err();
    assert_eq!(other.message(), "Transient failure: timeout");
    assert_eq!(
        JournalFault::Invariant("broken".into()).message(),
        "Invariant violation: broken"
    );
    assert_eq!(following(0), 1);
}

#[test]
fn envelopes_have_a_fixed_form() {
    let body = envelope(
        "event".into(),
        JournalEvent::OperationSucceeded {
            plan_id: "p".into(),
            operation_id: "o".into(),
            observed_digest: "d".into(),
            recovered: true,
        },
    )
    .body();
    assert_eq!(
        String::from_utf8(body).unwrap(),
        "{\"apiVersion\":\"henosis.dev/supabase-operation-journal/v1\",\"eventId\":\"event\",\
         \"event\":{\"kind\":\"operationSucceeded\",\"plan_id\":\"p\",\"operation_id\":\"o\",\
         \"observed_digest\":\"d\",\"recovered\":true}}"
    );
    let bound = envelope(
        "event".into(),
        JournalEvent::BindingEstablished {
            binding: binding("g", "r"),
        },
    )
    .body();
    assert_eq!(
        String::from_utf8(bound).unwrap(),
        "{\"apiVersion\":\"henosis.dev/supabase-operation-journal/v1\",\"eventId\":\"event\",\
         \"event\":{\"kind\":\"bindingEstablished\",\"binding\":{\"graphId\":\"g\",\
         \"resourceId\":\"r\",\"project\":\"henosis-local\",\"database\":\"postgres\",\
         \"schema\":\"r\"}}}"
    );
}

#[test]
fn every_event_has_its_kind() {
    let events = vec![
        (
            JournalEvent::PlanCreated {
                plan_id: "p".into(),
                graph_id: "g".into(),
                generation: "1".into(),
                slice_sequence: "2".into(),
                desired_digest: "d".into(),
                observed_digest: "o".into(),
            },
            "planCreated",
        ),
        (
            JournalEvent::PlanStale {
                plan_id: "p".into(),
                reason: "r".into(),
            },
            "planStale",
        ),
        (
            JournalEvent::BindingEstablished {
                binding: binding("g", "r"),
            },
            "bindingEstablished",
        ),
        (started("o"), "operationStarted"),
        (
            JournalEvent::OperationFailed {
                plan_id: "p".into(),
                operation_id: "o".into(),
                code: "c".into(),
                detail: "d".into(),
            },
            "operationFailed",
        ),
        (
            JournalEvent::GraphReleased {
                graph_id: "g".into(),
            },
            "graphReleased",
        ),
    ];
    for (event, kind) in events {
        assert_eq!(event.document()["kind"], kind);
    }
}

#[test]
fn evidence_names_the_exact_tail() {
    let journal = OperationJournal::new(&JournalConfig {
        access_token: "token".into(),
        account_endpoint: "account".into(),
        basin_endpoint: "basin.example".into(),
        basin: "henosis".into(),
        stream: "connector-supabase-local-v1".into(),
    });
    assert_eq!(
        journal.evidence_uri(19),
        "s2://henosis/connector-supabase-local-v1@19"
    );
}

#[test]
fn a_copy_of_a_snapshot_holds_the_same() {
    let mut snapshot = JournalSnapshot::default();
    snapshot.tail = 5;
    snapshot.bindings.insert("b".into(), binding("g", "b"));
    snapshot.bindings.insert("a".into(), binding("g", "a"));
    snapshot.operations.insert(
        "o".into(),
        OperationState::Started {
            plan_id: "sha256:plan".into(),
        },
    );
    let mut copy = snapshot.clone();
    assert_eq!(copy, snapshot);
    copy.bindings.insert("c".into(), binding("g", "c"));
    assert_ne!(copy, snapshot);
}
