//! Complete-slice planning and executable plan identity.

use connector_supabase::context::AnonAccess;
use connector_supabase::context::ApiContext;
use connector_supabase::context::ComponentContext;
use connector_supabase::context::Migration;
use connector_supabase::context::TargetContext;
use connector_supabase::hashing::label_blake3;
use connector_supabase::hashing::label_digest;
use connector_supabase::journal::Binding;
use connector_supabase::journal::JournalEvent;
use connector_supabase::journal::JournalSnapshot;
use connector_supabase::order::TextMap;
use connector_supabase::order::TextSet;
use connector_supabase::plan::build_plan;
use connector_supabase::plan::operation_id;
use connector_supabase::plan::validate_desired;
use connector_supabase::plan::Action;
use connector_supabase::plan::ApiPolicy;
use connector_supabase::plan::DestructiveLevel;
use connector_supabase::plan::ExecutablePlan;
use connector_supabase::plan::ExecutionClass;
use connector_supabase::plan::Operation;
use connector_supabase::plan::PlanContext;
use connector_supabase::slice::ComponentPin;
use connector_supabase::slice::DesiredSlice;
use connector_supabase::target::DatabaseIdentity;
use connector_supabase::target::ObservedMigration;
use connector_supabase::target::ObservedTarget;
use iddqd::IdOrdMap;
use sha2::Digest as _;
use sha2::Sha256;

fn sha256(bytes: &[u8]) -> String {
    format!("sha256:{}", hex::encode(Sha256::digest(bytes)))
}

fn migration(id: &str, sql: &str) -> Migration {
    Migration {
        id: id.into(),
        checksum: sha256(sql.as_bytes()),
        sql: sql.into(),
        inputs: Vec::new(),
    }
}

fn pin(hash: u8, name: &str, migrations: Vec<Migration>, api: ApiContext) -> ComponentPin {
    ComponentPin {
        spec_hash: [hash; 32],
        name: name.into(),
        context: ComponentContext {
            api_version: connector_supabase::context::API_VERSION.into(),
            resource_id: name.into(),
            target: TargetContext {
                stack: "local".into(),
                project: "henosis-local".into(),
                database: "postgres".into(),
                schema: name.into(),
            },
            migrations,
            api,
        },
    }
}

fn desired_of(pins: Vec<ComponentPin>) -> DesiredSlice {
    let mut components = IdOrdMap::new();
    for pin in pins {
        components.insert_unique(pin).unwrap();
    }
    DesiredSlice {
        graph_id: [3; 16],
        generation: 4,
        sequence: 9,
        components,
        upstream_outputs: IdOrdMap::new(),
    }
}

fn desired() -> DesiredSlice {
    let sql = "create table items (id bigint primary key);".to_owned();
    let migration = Migration {
        id: "202607130001_create_items".into(),
        checksum: format!("sha256:{}", hex::encode(Sha256::digest(sql.as_bytes()))),
        sql,
        inputs: Vec::new(),
    };
    desired_of(vec![pin(
        7,
        "catalog",
        vec![migration],
        ApiContext {
            expose: true,
            anon_access: AnonAccess::Read,
        },
    )])
}

fn texts(items: &[&str]) -> TextSet {
    let mut set = TextSet::new();
    for item in items {
        set.insert((*item).into());
    }
    set
}

fn observed() -> ObservedTarget {
    let mut anon_read = TextMap::new();
    anon_read.insert("catalog".into(), false);
    ObservedTarget {
        identity: DatabaseIdentity {
            database: "postgres".into(),
            database_oid: "5".into(),
            server_version: "170006".into(),
        },
        metadata_exists: false,
        schemas: TextSet::new(),
        migrations: Vec::new(),
        exposed_schemas: texts(&["public"]),
        anon_read,
    }
}

fn converged() -> ObservedTarget {
    let mut anon_read = TextMap::new();
    anon_read.insert("catalog".into(), true);
    ObservedTarget {
        metadata_exists: true,
        schemas: texts(&["catalog"]),
        migrations: vec![ObservedMigration {
            resource_id: "catalog".into(),
            migration_id: "202607130001_create_items".into(),
            checksum: sha256(b"create table items (id bigint primary key);"),
        }],
        exposed_schemas: texts(&["public", "catalog"]),
        anon_read,
        ..observed()
    }
}

fn binding(graph: &str, resource: &str) -> Binding {
    Binding {
        graph_id: graph.into(),
        resource_id: resource.into(),
        project: "henosis-local".into(),
        database: "postgres".into(),
        schema: resource.into(),
    }
}

fn bound(bindings: Vec<Binding>) -> JournalSnapshot {
    let mut journal = JournalSnapshot::default();
    for binding in bindings {
        journal.apply(JournalEvent::BindingEstablished { binding });
    }
    journal
}

fn plan_context() -> PlanContext<'static> {
    PlanContext {
        journal_tail_after_plan: 1,
        connector_build: "test-build",
        api_url: "http://localhost:4484",
        database_url_ref: "docker-secret://db",
        anon_key_ref: "docker-secret://anon",
    }
}

fn addresses(plan: &ExecutablePlan) -> Vec<&str> {
    plan.operations
        .iter()
        .map(|operation| operation.address.as_str())
        .collect()
}

#[test]
fn complete_plan_begins_with_binding_and_binds_every_freshness_identity() {
    let desired = desired();
    let plan = build_plan(
        &desired,
        &JournalSnapshot::default(),
        &observed(),
        PlanContext {
            journal_tail_after_plan: 1,
            connector_build: "test-build",
            api_url: "http://localhost:4484",
            database_url_ref: "docker-secret://db",
            anon_key_ref: "docker-secret://anon",
        },
    )
    .unwrap();
    assert!(matches!(
        plan.operations[0].operation,
        Operation::EstablishBinding { .. }
    ));
    assert_eq!(plan.graph_id, hex::encode([3; 16]));
    assert_eq!(plan.generation, "4");
    assert_eq!(plan.slice_sequence, "9");
    assert_eq!(plan.journal_tail, "1");
    assert_eq!(plan.connector_build, "test-build");
    assert!(plan.verify_digest());
    assert_eq!(
        plan.planned_outputs[0].values["anonKeyRef"],
        "docker-secret://anon"
    );
}

#[test]
fn executable_digest_detects_payload_substitution() {
    let desired = desired();
    let mut plan = build_plan(
        &desired,
        &JournalSnapshot::default(),
        &observed(),
        PlanContext {
            journal_tail_after_plan: 1,
            connector_build: "test-build",
            api_url: "http://localhost:4484",
            database_url_ref: "docker-secret://db",
            anon_key_ref: "docker-secret://anon",
        },
    )
    .unwrap();
    plan.observed_digest = "blake3:substituted".into();
    assert!(!plan.verify_digest());
}

#[test]
fn a_fresh_target_gets_every_operation_in_dependency_order() {
    let desired = desired();
    let plan = build_plan(
        &desired,
        &JournalSnapshot::default(),
        &observed(),
        plan_context(),
    )
    .unwrap();
    assert_eq!(
        addresses(&plan),
        vec![
            "binding.catalog",
            "database.henosis_connector.migration_receipts",
            "schema.catalog",
            "schema.catalog.migration.202607130001_create_items",
            "postgrest.exposed-schemas",
        ]
    );
    let hash = hex::encode([7; 32]);
    for (index, operation) in plan.operations.iter().enumerate() {
        let expected: Vec<&str> = if index == 0 {
            Vec::new()
        } else {
            vec![plan.operations[index - 1].id.as_str()]
        };
        assert_eq!(operation.dependencies, expected);
        assert_eq!(operation.component_scopes, vec![hash.clone()]);
        assert_eq!(operation.destructive_level, DestructiveLevel::NonDestructive);
        assert_eq!(
            operation.id,
            operation_id(&plan.desired_digest, &operation.operation)
        );
    }
    let actions: Vec<Action> = plan
        .operations
        .iter()
        .map(|operation| operation.action)
        .collect();
    assert_eq!(
        actions,
        vec![
            Action::Bind,
            Action::Create,
            Action::Create,
            Action::Transition,
            Action::Update,
        ]
    );
    assert_eq!(
        plan.operations[3].execution_class,
        ExecutionClass::OrderedTransition
    );
    assert_eq!(
        plan.operations[2].execution_class,
        ExecutionClass::ReconciledObject
    );
    let preconditions: Vec<&str> = plan
        .operations
        .iter()
        .map(|operation| operation.preconditions[0].as_str())
        .collect();
    assert_eq!(
        preconditions,
        vec![
            "resourceId is unbound",
            "receipt ledger does not exist",
            "schema does not exist",
            "migration receipt \"202607130001_create_items\" is absent",
            "PostgREST configuration matches observed digest",
        ]
    );
    assert_eq!(
        plan.operations[0].after.to_string(),
        "{\"database\":\"postgres\",\"graphId\":\"03030303030303030303030303030303\",\
         \"project\":\"henosis-local\",\"resourceId\":\"catalog\",\"schema\":\"catalog\"}"
    );
    assert!(plan.operations[0].before.is_null());
    assert_eq!(
        plan.operations[1].after.to_string(),
        "{\"schema\":\"henosis_connector\",\"table\":\"migration_receipts\"}"
    );
    assert_eq!(
        plan.operations[2].after.to_string(),
        "{\"schema\":\"catalog\"}"
    );
    assert_eq!(
        plan.operations[4].before.to_string(),
        "{\"anonRead\":{\"catalog\":false},\"exposedSchemas\":[\"public\"]}"
    );
    assert_eq!(
        plan.operations[4].after.to_string(),
        "{\"anonReadSchemas\":[\"catalog\"],\"exposedSchemas\":[\"catalog\",\"public\"]}"
    );
    assert_eq!(
        plan.operations[4].operation,
        Operation::ConfigureApi {
            exposed_schemas: vec!["catalog".into(), "public".into()],
            policies: vec![ApiPolicy {
                schema: "catalog".into(),
                expose: true,
                anon_access: AnonAccess::Read,
            }],
        }
    );
    assert_eq!(
        plan.observed_digest,
        format!("blake3:{}", hex::encode(observed().digest()))
    );
    assert_eq!(
        plan.desired_digest,
        format!("blake3:{}", hex::encode(desired.desired_digest()))
    );
    assert_eq!(plan.api_version, "henosis.dev/supabase-review-plan/v1");
    assert_eq!(plan.connector, "supabase");
    assert_eq!(plan.policy_version, "supabase-local-v1");
    assert_eq!(plan.target, "local/henosis-local/postgres");
}

#[test]
fn a_converged_target_gets_an_empty_plan() {
    let journal = bound(vec![binding(&"03".repeat(16), "catalog")]);
    let plan = build_plan(&desired(), &journal, &converged(), plan_context()).unwrap();
    assert!(plan.operations.is_empty());
    assert!(plan.verify_digest());
    let outputs = plan.contract_outputs();
    assert_eq!(outputs.len(), 1);
    assert_eq!(outputs[0].component_spec_hash, vec![7; 32]);
    assert_eq!(
        String::from_utf8(outputs[0].values_json.clone()).unwrap(),
        "{\"anonKeyRef\":\"docker-secret://anon\",\"apiUrl\":\"http://localhost:4484\",\
         \"database\":\"postgres\",\"databaseUrlRef\":\"docker-secret://db\",\
         \"project\":\"henosis-local\",\"restUrl\":\"http://localhost:4484/rest/v1\",\
         \"schema\":\"catalog\"}"
    );
}

#[test]
fn trailing_slashes_leave_the_api_origin() {
    let journal = bound(vec![binding(&"03".repeat(16), "catalog")]);
    let plan = build_plan(
        &desired(),
        &journal,
        &converged(),
        PlanContext {
            api_url: "http://h//",
            ..plan_context()
        },
    )
    .unwrap();
    assert_eq!(plan.planned_outputs[0].values["apiUrl"], "http://h");
    assert_eq!(plan.planned_outputs[0].values["restUrl"], "http://h/rest/v1");
}

#[test]
fn a_mutated_migration_refuses_the_plan() {
    let journal = bound(vec![binding(&"03".repeat(16), "catalog")]);
    let mut target = converged();
    target.migrations[0].checksum = "sha256:other".into();
    let diagnostics = build_plan(&desired(), &journal, &target, plan_context()).unwrap_err();
    assert_eq!(diagnostics.len(), 1);
    assert_eq!(diagnostics[0].code, "supabase.plan.migration-mutated");
    assert_eq!(diagnostics[0].component_spec_hash, [7; 32]);
    assert_eq!(diagnostics[0].pointer, "/migrations/0/checksum");
    assert_eq!(
        diagnostics[0].message,
        format!(
            "migration \"202607130001_create_items\" was applied with checksum \"sha256:other\", \
             but desired declares \"{}\"",
            sha256(b"create table items (id bigint primary key);")
        )
    );
    assert_eq!(
        diagnostics[0].help,
        "Never edit an applied migration ID; append a new corrective migration."
    );
}

#[test]
fn exposed_schemas_keep_what_nobody_owns() {
    let journal = bound(vec![
        binding(&"03".repeat(16), "catalog"),
        binding(&"03".repeat(16), "former"),
    ]);
    let mut target = converged();
    target.exposed_schemas = texts(&["catalog", "former", "unmanaged"]);
    let plan = build_plan(&desired(), &journal, &target, plan_context()).unwrap();
    assert_eq!(addresses(&plan), vec!["postgrest.exposed-schemas"]);
    assert!(plan.operations[0].dependencies.is_empty());
    match &plan.operations[0].operation {
        Operation::ConfigureApi {
            exposed_schemas, ..
        } => assert_eq!(
            exposed_schemas,
            &vec![
                "catalog".to_owned(),
                "public".to_owned(),
                "unmanaged".to_owned()
            ]
        ),
        other => panic!("{other:?}"),
    }
}

#[test]
fn a_grant_that_differs_is_reconfigured() {
    let journal = bound(vec![binding(&"03".repeat(16), "catalog")]);
    let mut target = converged();
    target.anon_read.insert("catalog".into(), false);
    let plan = build_plan(&desired(), &journal, &target, plan_context()).unwrap();
    assert_eq!(addresses(&plan), vec!["postgrest.exposed-schemas"]);
    target.anon_read = TextMap::new();
    let plan = build_plan(&desired(), &journal, &target, plan_context()).unwrap();
    assert_eq!(addresses(&plan), vec!["postgrest.exposed-schemas"]);
}

#[test]
fn several_components_share_the_ledger_and_the_api() {
    let closed = ApiContext {
        expose: false,
        anon_access: AnonAccess::NoAccess,
    };
    let desired = desired_of(vec![
        pin(9, "orders", vec![migration("b", "select 1")], closed.clone()),
        pin(7, "catalog", vec![migration("a", "select 2")], closed),
    ]);
    let mut target = observed();
    target.anon_read.insert("orders".into(), true);
    let plan = build_plan(
        &desired,
        &JournalSnapshot::default(),
        &target,
        plan_context(),
    )
    .unwrap();
    assert_eq!(
        addresses(&plan),
        vec![
            "binding.catalog",
            "binding.orders",
            "database.henosis_connector.migration_receipts",
            "schema.catalog",
            "schema.catalog.migration.a",
            "schema.orders",
            "schema.orders.migration.b",
            "postgrest.exposed-schemas",
        ]
    );
    let id = |index: usize| plan.operations[index].id.clone();
    assert_eq!(plan.operations[2].dependencies, vec![id(0), id(1)]);
    assert_eq!(plan.operations[3].dependencies, vec![id(2)]);
    assert_eq!(plan.operations[5].dependencies, vec![id(2)]);
    assert_eq!(plan.operations[7].dependencies, vec![id(4), id(6)]);
    assert_eq!(
        plan.operations[2].component_scopes,
        vec![hex::encode([7; 32]), hex::encode([9; 32])]
    );
}

#[test]
fn operation_identities_hash_the_exact_payload() {
    let mut bytes = b"henosis.dev/supabase-operation/v1\0blake3:d".to_vec();
    bytes.extend(b"{\"kind\":\"ensureMetadata\"}");
    assert_eq!(
        operation_id("blake3:d", &Operation::EnsureMetadata),
        sha256(&bytes)
    );
    let schema = Operation::EnsureSchema {
        resource_id: "r".into(),
        schema: "s".into(),
    };
    assert_eq!(
        schema.document().to_string(),
        "{\"kind\":\"ensureSchema\",\"resource_id\":\"r\",\"schema\":\"s\"}"
    );
    let bind = Operation::EstablishBinding {
        binding: binding("g", "r"),
    };
    assert_eq!(
        bind.document().to_string(),
        "{\"kind\":\"establishBinding\",\"binding\":{\"graphId\":\"g\",\"resourceId\":\"r\",\
         \"project\":\"henosis-local\",\"database\":\"postgres\",\"schema\":\"r\"}}"
    );
    let apply = Operation::ApplyMigration {
        resource_id: "r".into(),
        schema: "s".into(),
        migration: Migration {
            id: "i".into(),
            checksum: "c".into(),
            sql: "q".into(),
            inputs: Vec::new(),
        },
    };
    assert_eq!(
        apply.document().to_string(),
        "{\"kind\":\"applyMigration\",\"resource_id\":\"r\",\"schema\":\"s\",\"migration\":\
         {\"id\":\"i\",\"checksum\":\"c\",\"sql\":\"q\",\"inputs\":[]}}"
    );
    let configure = Operation::ConfigureApi {
        exposed_schemas: vec!["public".into()],
        policies: vec![ApiPolicy {
            schema: "s".into(),
            expose: false,
            anon_access: AnonAccess::NoAccess,
        }],
    };
    assert_eq!(
        configure.document().to_string(),
        "{\"kind\":\"configureApi\",\"exposed_schemas\":[\"public\"],\"policies\":[{\"schema\":\
         \"s\",\"expose\":false,\"anonAccess\":\"none\"}]}"
    );
}

#[test]
fn the_plan_identity_is_the_digest_of_its_payload() {
    let journal = bound(vec![binding(&"03".repeat(16), "catalog")]);
    let mut plan = build_plan(&desired(), &journal, &converged(), plan_context()).unwrap();
    let payload = plan.payload().to_string();
    assert_eq!(plan.plan_id, sha256(payload.as_bytes()));
    assert!(payload.starts_with(
        "{\"apiVersion\":\"henosis.dev/supabase-review-plan/v1\",\"connector\":\"supabase\",\
         \"connectorBuild\":\"test-build\",\"policyVersion\":\"supabase-local-v1\",\"graphId\":"
    ));
    assert!(!payload.contains("planId"));
    let document = plan.document().to_string();
    assert!(document.starts_with(&format!("{{\"planId\":\"{}\",", plan.plan_id)));
    let known = plan.plan_id.clone();
    plan.plan_id = "sha256:forged".into();
    assert!(!plan.verify_digest());
    plan.refresh_id();
    assert_eq!(plan.plan_id, known);
    plan.connector_build = "another".into();
    plan.refresh_id();
    assert_ne!(plan.plan_id, known);
}

#[test]
fn a_target_has_one_owner() {
    let journal = bound(vec![binding("another", "foreign")]);
    let diagnostics = validate_desired(&desired(), &journal);
    assert_eq!(diagnostics.len(), 1);
    assert_eq!(diagnostics[0].code, "supabase.plan.target-owned");
    assert_eq!(diagnostics[0].component_spec_hash, [7; 32]);
    assert_eq!(
        diagnostics[0].message,
        "local Supabase target is already owned by graph another through resource \"foreign\""
    );
    assert_eq!(diagnostics[0].pointer, "/target");
    assert_eq!(
        diagnostics[0].help,
        "Retire/release the owning graph before assigning the exclusive v1 local target to \
         another graph."
    );
    let nothing = desired_of(Vec::new());
    assert_eq!(
        validate_desired(&nothing, &journal)[0].component_spec_hash,
        [0; 32]
    );
}

#[test]
fn bindings_are_stable_across_revisions() {
    let mut moved = binding(&"03".repeat(16), "catalog");
    moved.schema = "elsewhere".into();
    let diagnostics = validate_desired(&desired(), &bound(vec![moved]));
    assert_eq!(diagnostics.len(), 1);
    assert_eq!(diagnostics[0].code, "supabase.plan.binding-conflict");
    assert_eq!(
        diagnostics[0].message,
        "resourceId \"catalog\" is already bound to henosis-local/postgres/elsewhere for graph \
         03030303030303030303030303030303"
    );
    assert_eq!(diagnostics[0].pointer, "/resourceId");
    assert_eq!(
        diagnostics[0].help,
        "Keep resourceId and target schema stable across revisions; ownership moves require an \
         explicit future handover operation."
    );
    let kept = bound(vec![binding(&"03".repeat(16), "catalog")]);
    assert!(validate_desired(&desired(), &kept).is_empty());
}

#[test]
fn content_problems_become_plan_diagnostics() {
    let mut bad = migration("a", "select 1");
    bad.checksum = "sha256:bad".into();
    let desired = desired_of(vec![pin(
        7,
        "catalog",
        vec![bad],
        ApiContext {
            expose: false,
            anon_access: AnonAccess::NoAccess,
        },
    )]);
    let diagnostics = validate_desired(&desired, &JournalSnapshot::default());
    assert_eq!(diagnostics.len(), 1);
    assert_eq!(diagnostics[0].code, "supabase.plan.migration-checksum");
    assert_eq!(diagnostics[0].component_spec_hash, [7; 32]);
    assert_eq!(diagnostics[0].pointer, "/migrations/0/checksum");
}

#[test]
fn every_freshness_identity_and_operation_is_bound_to_the_plan() {
    let plan = || {
        build_plan(
            &desired(),
            &JournalSnapshot::default(),
            &observed(),
            plan_context(),
        )
        .unwrap()
    };
    let changes: Vec<fn(&mut ExecutablePlan)> = vec![
        |plan| plan.connector_build = "other".into(),
        |plan| plan.policy_version = "other".into(),
        |plan| plan.graph_id = "other".into(),
        |plan| plan.generation = "5".into(),
        |plan| plan.slice_sequence = "10".into(),
        |plan| plan.target = "other".into(),
        |plan| plan.desired_digest = "other".into(),
        |plan| plan.observed_digest = "other".into(),
        |plan| plan.journal_tail = "2".into(),
        |plan| plan.planned_outputs.clear(),
        |plan| {
            plan.operations.pop();
        },
        |plan| plan.operations.swap(0, 1),
        |plan| match &mut plan.operations[3].operation {
            Operation::ApplyMigration { migration, .. } => {
                migration.sql = "create table other (id bigint primary key);".into()
            }
            other => panic!("{other:?}"),
        },
    ];
    assert!(plan().verify_digest());
    for change in changes {
        let mut changed = plan();
        change(&mut changed);
        assert!(!changed.verify_digest(), "{changed:?}");
    }
}

#[test]
fn a_plan_is_identified_by_a_digest() {
    let journal = bound(vec![binding(&"03".repeat(16), "catalog")]);
    let mut plan = build_plan(&desired(), &journal, &converged(), plan_context()).unwrap();
    plan.identify(&[0xab; 32]);
    assert_eq!(plan.plan_id, format!("sha256:{}", "ab".repeat(32)));
    assert_eq!(plan.plan_id, label_digest(&[0xab; 32]));
    assert!(plan.is_identified_by(&[0xab; 32]));
    assert!(!plan.is_identified_by(&[0xac; 32]));
    assert!(!plan.verify_digest());
    assert_eq!(
        label_blake3(&[1; 32]),
        format!("blake3:{}", "01".repeat(32))
    );
}
