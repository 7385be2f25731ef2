//! Target observation, operation statements and freshness decisions.

use connector_supabase::context::AnonAccess;
use connector_supabase::context::ApiContext;
use connector_supabase::context::ComponentContext;
use connector_supabase::context::InputSlot;
use connector_supabase::context::Migration;
use connector_supabase::context::TargetContext;
use connector_supabase::inputs::input_setting;
use connector_supabase::inputs::value_text;
use connector_supabase::journal::Binding;
use connector_supabase::order::TextMap;
use connector_supabase::order::TextSet;
use connector_supabase::plan::Action;
use connector_supabase::plan::ApiPolicy;
use connector_supabase::plan::DestructiveLevel;
use connector_supabase::plan::ExecutablePlan;
use connector_supabase::plan::ExecutionClass;
use connector_supabase::plan::Operation;
use connector_supabase::plan::PlannedOperation;
use connector_supabase::slice::ComponentPin;
use connector_supabase::slice::DesiredSlice;
use connector_supabase::slice::UpstreamOutput;
use connector_supabase::target::applied;
use connector_supabase::target::decide_apply;
use connector_supabase::target::decide_next;
use connector_supabase::target::decide_with_digest;
use connector_supabase::target::execute;
use connector_supabase::target::provider_or_unavailable;
use connector_supabase::target::quote_identifier;
use connector_supabase::target::quote_literal;
use connector_supabase::target::unavailable;
use connector_supabase::target::Answer;
use connector_supabase::target::ApplyDecision;
use connector_supabase::target::ApplyResult;
use connector_supabase::target::DatabaseIdentity;
use connector_supabase::target::ErrorPosition;
use connector_supabase::target::Observation;
use connector_supabase::target::ObservedMigration;
use connector_supabase::target::ObservedTarget;
use connector_supabase::target::ProviderFailure;
use connector_supabase::target::Query;
use connector_supabase::target::Statement;
use connector_supabase::target::Target;
use connector_supabase::target::TargetConfig;
use connector_supabase::target::TargetError;
use iddqd::IdOrdMap;

fn texts(items: &[&str]) -> TextSet {
    let mut set = TextSet::new();
    for item in items {
        set.insert((*item).into());
    }
    set
}

fn grants(items: &[(&str, bool)]) -> TextMap<bool> {
    let mut map = TextMap::new();
    for (schema, granted) in items {
        map.insert((*schema).into(), *granted);
    }
    map
}

fn identity() -> DatabaseIdentity {
    DatabaseIdentity {
        database: "postgres".into(),
        database_oid: "5".into(),
        server_version: "170006".into(),
    }
}

fn receipt() -> ObservedMigration {
    ObservedMigration {
        resource_id: "catalog".into(),
        migration_id: "001".into(),
        checksum: "sha256:abc".into(),
    }
}

fn observed() -> ObservedTarget {
    ObservedTarget {
        identity: identity(),
        metadata_exists: true,
        schemas: texts(&["catalog"]),
        migrations: vec![receipt()],
        exposed_schemas: texts(&["public"]),
        anon_read: grants(&[("catalog", false)]),
    }
}

fn target() -> Target {
    Target::new(TargetConfig {
        host: "db".into(),
        port: 5432,
        user: "postgres".into(),
        database: "postgres".into(),
        password_file: "/run/secrets/password".into(),
        api_url: "http://localhost:4484".into(),
        database_url_ref: "docker-secret://db".into(),
        anon_key_ref: "docker-secret://anon".into(),
    })
}

fn planned(operation: Operation) -> PlannedOperation {
    PlannedOperation {
        id: "sha256:operation".into(),
        address: "address".into(),
        component_scopes: Vec::new(),
        execution_class: ExecutionClass::ReconciledObject,
        action: Action::Create,
        before: serde_json::Value::Null,
        after: serde_json::Value::Null,
        destructive_level: DestructiveLevel::NonDestructive,
        dependencies: Vec::new(),
        preconditions: Vec::new(),
        operation,
    }
}

fn migration() -> Migration {
    Migration {
        id: "001".into(),
        checksum: "sha256:abc".into(),
        sql: "create table items (id bigint);".into(),
        inputs: Vec::new(),
    }
}

fn policy(schema: &str, expose: bool, anon_access: AnonAccess) -> ApiPolicy {
    ApiPolicy {
        schema: schema.into(),
        expose,
        anon_access,
    }
}

#[test]
fn observed_digest_serializes_canonical_migration_receipts() {
    let observed = ObservedTarget {
        identity: DatabaseIdentity {
            database: "postgres".into(),
            database_oid: "5".into(),
            server_version: "170006".into(),
        },
        metadata_exists: true,
        schemas: texts(&["catalog"]),
        migrations: vec![ObservedMigration {
            resource_id: "catalog".into(),
            migration_id: "001".into(),
            checksum: "sha256:abc".into(),
        }],
        exposed_schemas: texts(&["public"]),
        anon_read: grants(&[("catalog", false)]),
    };

    assert_ne!(observed.digest(), [0; 32]);
    assert_eq!(
        observed.migration_checksum("catalog", "001"),
        Some("sha256:abc")
    );
}

#[test]
fn the_observed_digest_is_the_hash_of_the_document() {
    let document = "{\"identity\":{\"database\":\"postgres\",\"databaseOid\":\"5\",\
                    \"serverVersion\":\"170006\"},\"metadataExists\":true,\"schemas\":\
                    [\"catalog\"],\"migrations\":[{\"resourceId\":\"catalog\",\"migrationId\":\
                    \"001\",\"checksum\":\"sha256:abc\"}],\"exposedSchemas\":[\"public\"],\
                    \"anonRead\":{\"catalog\":false}}";
    assert_eq!(observed().document().to_string(), document);
    let hash = blake3::hash(document.as_bytes());
    assert_eq!(observed().digest(), *hash.as_bytes());
    assert_eq!(
        observed().digest_label(),
        format!("blake3:{}", hash.to_hex().as_str())
    );
}

#[test]
fn receipts_are_found_by_resource_and_migration() {
    let observed = observed();
    assert_eq!(observed.migration_checksum("catalog", "002"), None);
    assert_eq!(observed.migration_checksum("orders", "001"), None);
}

#[test]
fn the_adapter_hands_out_its_references() {
    let target = target();
    assert_eq!(target.api_url(), "http://localhost:4484");
    assert_eq!(target.database_url_ref(), "docker-secret://db");
    assert_eq!(target.anon_key_ref(), "docker-secret://anon");
    assert_eq!(target.config().port, 5432);
}

#[test]
fn postconditions_are_read_from_the_target() {
    let target = target();
    let observed = observed();
    let satisfied = |operation: Operation| target.operation_satisfied(&operation, &observed);
    assert!(!satisfied(Operation::EstablishBinding {
        binding: Binding {
            graph_id: "g".into(),
            resource_id: "catalog".into(),
            project: "p".into(),
            database: "d".into(),
            schema: "catalog".into(),
        },
    }));
    assert!(satisfied(Operation::EnsureMetadata));
    let schema = |schema: &str| Operation::EnsureSchema {
        resource_id: "catalog".into(),
        schema: schema.into(),
    };
    assert!(satisfied(schema("catalog")));
    assert!(!satisfied(schema("orders")));
    let apply = |migration: Migration| Operation::ApplyMigration {
        resource_id: "catalog".into(),
        schema: "catalog".into(),
        migration,
    };
    assert!(satisfied(apply(migration())));
    assert!(!satisfied(apply(Migration {
        checksum: "sha256:other".into(),
        ..migration()
    })));
    assert!(!satisfied(apply(Migration {
        id: "002".into(),
        ..migration()
    })));
    let configure = |schemas: &[&str], policies: Vec<ApiPolicy>| Operation::ConfigureApi {
        exposed_schemas: schemas.iter().map(|schema| (*schema).into()).collect(),
        policies,
    };
    assert!(satisfied(configure(
        &["public", "public"],
        vec![policy("catalog", false, AnonAccess::Read)]
    )));
    assert!(!satisfied(configure(
        &["catalog", "public"],
        vec![policy("catalog", false, AnonAccess::NoAccess)]
    )));
    assert!(!satisfied(configure(
        &["public"],
        vec![policy("catalog", true, AnonAccess::Read)]
    )));
    assert!(!satisfied(configure(
        &["public"],
        vec![policy("orders", false, AnonAccess::NoAccess)]
    )));
}

fn pin(hash: u8, schema: &str) -> ComponentPin {
    ComponentPin {
        spec_hash: [hash; 32],
        name: schema.into(),
        context: ComponentContext {
            api_version: connector_supabase::context::API_VERSION.into(),
            resource_id: schema.into(),
            target: TargetContext {
                stack: "local".into(),
                project: "henosis-local".into(),
                database: "postgres".into(),
                schema: schema.into(),
            },
            migrations: Vec::new(),
            api: ApiContext {
                expose: false,
                anon_access: AnonAccess::NoAccess,
            },
        },
    }
}

fn desired() -> DesiredSlice {
    let mut components = IdOrdMap::new();
    components.insert_unique(pin(1, "catalog")).unwrap();
    components.insert_unique(pin(2, "orders")).unwrap();
    DesiredSlice {
        graph_id: [3; 16],
        generation: 4,
        sequence: 9,
        components,
        upstream_outputs: IdOrdMap::new(),
    }
}

#[test]
fn an_observation_asks_only_for_what_can_matter() {
    let mut observation = Observation::begin(&desired());
    let mut asked = Vec::new();
    while let Some(query) = observation.query() {
        let answer = match &query {
            Query::Identity => Answer::Identity(identity()),
            Query::Metadata => Answer::Flag(true),
            Query::Schema(schema) => Answer::Flag(schema == "catalog"),
            Query::Access(_) => Answer::Flag(true),
            Query::Receipts => Answer::Receipts(vec![receipt()]),
            Query::Exposed => Answer::Listing(" public, catalog,,\tpublic ".into()),
        };
        asked.push(query);
        observation.take(answer);
    }
    assert_eq!(
        asked,
        vec![
            Query::Identity,
            Query::Metadata,
            Query::Schema("catalog".into()),
            Query::Access("catalog".into()),
            Query::Schema("orders".into()),
            Query::Receipts,
            Query::Exposed,
        ]
    );
    assert_eq!(
        observation.finish(),
        ObservedTarget {
            identity: identity(),
            metadata_exists: true,
            schemas: texts(&["catalog"]),
            migrations: vec![receipt()],
            exposed_schemas: texts(&["catalog", "public"]),
            anon_read: grants(&[("catalog", true), ("orders", false)]),
        }
    );
}

#[test]
fn receipts_are_not_read_without_a_ledger() {
    let mut observation = Observation::begin(&desired());
    while let Some(query) = observation.query() {
        assert_ne!(query, Query::Receipts);
        observation.take(match query {
            Query::Identity => Answer::Identity(identity()),
            Query::Exposed => Answer::Listing(String::new()),
            _ => Answer::Flag(false),
        });
    }
    let observed = observation.finish();
    assert!(!observed.metadata_exists);
    assert!(observed.migrations.is_empty());
    assert_eq!(observed.exposed_schemas, TextSet::new());
}

#[test]
fn queries_carry_their_text_and_parameter() {
    assert_eq!(
        Query::Metadata.sql(),
        "select to_regclass('henosis_connector.migration_receipts') is not null"
    );
    assert_eq!(
        Query::Schema("s".into()).sql(),
        "select exists(select 1 from pg_namespace where nspname = $1)"
    );
    assert_eq!(
        Query::Schema("s".into()).parameter(),
        Some(&"s".to_owned())
    );
    assert_eq!(
        Query::Access("s".into()).parameter(),
        Some(&"s".to_owned())
    );
    assert!(Query::Access("s".into())
        .sql()
        .starts_with("select has_schema_privilege('anon', $1, 'USAGE') and not exists"));
    assert_eq!(Query::Identity.parameter(), None);
    assert_eq!(
        Query::Receipts.sql(),
        "select resource_id, migration_id, checksum from henosis_connector.migration_receipts \
         order by resource_id, migration_id"
    );
    assert!(Query::Exposed.sql().ends_with("limit 1), 'public')"));
    assert!(Query::Identity.sql().starts_with("select current_database(), "));
}

#[test]
fn quoting_doubles_the_mark() {
    assert_eq!(quote_identifier("catalog"), "\"catalog\"");
    assert_eq!(quote_identifier("a\"b'c"), "\"a\"\"b'c\"");
    assert_eq!(quote_literal("a\"b'c"), "'a\"b''c'");
    assert_eq!(quote_literal(""), "''");
}

fn batch(sql: &str) -> Statement {
    Statement::Batch(sql.into())
}

#[test]
fn bindings_touch_no_target() {
    let operation = planned(Operation::EstablishBinding {
        binding: Binding {
            graph_id: "g".into(),
            resource_id: "r".into(),
            project: "p".into(),
            database: "d".into(),
            schema: "s".into(),
        },
    });
    assert!(execute(&desired(), "sha256:plan", &operation).is_empty());
}

#[test]
fn the_ledger_and_schemas_are_created_once() {
    assert_eq!(
        execute(&desired(), "sha256:plan", &planned(Operation::EnsureMetadata)),
        vec![batch(
            "create schema if not exists henosis_connector;create table if not exists \
             henosis_connector.migration_receipts (resource_id text not null, migration_id text \
             not null, checksum text not null,schema_name text not null, plan_id text not null, \
             operation_id text not null,applied_at timestamptz not null default now(),primary key \
             (resource_id, migration_id));revoke all on schema henosis_connector from public, \
             anon, authenticated;"
        )]
    );
    assert_eq!(
        execute(
            &desired(),
            "sha256:plan",
            &planned(Operation::EnsureSchema {
                resource_id: "r".into(),
                schema: "s\"".into(),
            })
        ),
        vec![batch(
            "create schema if not exists \"s\"\"\"; revoke all on schema \"s\"\"\" from public;"
        )]
    );
}

#[test]
fn a_migration_runs_in_its_schema_and_leaves_a_receipt() {
    assert_eq!(
        execute(
            &desired(),
            "sha256:plan",
            &planned(Operation::ApplyMigration {
                resource_id: "r".into(),
                schema: "s".into(),
                migration: migration(),
            })
        ),
        vec![
            batch("set local search_path = \"s\", public, extensions;"),
            batch("create table items (id bigint);"),
            Statement::Execute {
                sql: "insert into henosis_connector.migration_receipts (resource_id, migration_id, \
                      checksum, schema_name, plan_id, operation_id) values ($1, $2, $3, $4, $5, \
                      $6)"
                    .into(),
                parameters: vec![
                    "r".into(),
                    "001".into(),
                    "sha256:abc".into(),
                    "s".into(),
                    "sha256:plan".into(),
                    "sha256:operation".into(),
                ],
            },
        ]
    );
}

#[test]
fn the_api_is_configured_schema_by_schema() {
    assert_eq!(
        execute(
            &desired(),
            "sha256:plan",
            &planned(Operation::ConfigureApi {
                exposed_schemas: vec!["catalog".into(), "it's".into()],
                policies: vec![
                    policy("catalog", true, AnonAccess::Read),
                    policy("hidden", false, AnonAccess::Read),
                    policy("closed", true, AnonAccess::NoAccess),
                ],
            })
        ),
        vec![
            batch("alter role postgres set pgrst.db_schemas = 'catalog,it''s';"),
            batch(
                "grant usage on schema \"catalog\" to anon;grant select on all tables in schema \
                 \"catalog\" to anon;alter default privileges in schema \"catalog\" grant select \
                 on tables to anon;"
            ),
            batch(
                "revoke select on all tables in schema \"hidden\" from anon;revoke usage on \
                 schema \"hidden\" from anon;alter default privileges in schema \"hidden\" revoke \
                 select on tables from anon;"
            ),
            batch(
                "revoke select on all tables in schema \"closed\" from anon;revoke usage on \
                 schema \"closed\" from anon;alter default privileges in schema \"closed\" revoke \
                 select on tables from anon;"
            ),
            batch("notify pgrst, 'reload config'; notify pgrst, 'reload schema';"),
        ]
    );
}

fn plan(observed_digest: String) -> ExecutablePlan {
    ExecutablePlan {
        plan_id: "sha256:plan".into(),
        api_version: "v".into(),
        connector: "supabase".into(),
        connector_build: "b".into(),
        policy_version: "p".into(),
        graph_id: "g".into(),
        generation: "4".into(),
        slice_sequence: "9".into(),
        target: "t".into(),
        desired_digest: "blake3:desired".into(),
        observed_digest,
        journal_tail: "3".into(),
        operations: Vec::new(),
        planned_outputs: Vec::new(),
    }
}

#[test]
fn a_stale_plan_is_rolled_back_and_a_fresh_one_commits() {
    let observed = observed();
    let operation = planned(Operation::EnsureMetadata);
    assert_eq!(
        decide_apply(
            &observed,
            &desired(),
            &plan("blake3:other".into()),
            "sha256:plan",
            &operation
        ),
        ApplyDecision::Rollback(ApplyResult::Stale {
            observed_digest: observed.digest_label(),
        })
    );
    assert_eq!(
        decide_apply(
            &observed,
            &desired(),
            &plan(observed.digest_label()),
            "sha256:plan",
            &operation
        ),
        ApplyDecision::Commit(execute(&desired(), "sha256:plan", &operation))
    );
    assert_eq!(
        applied(&observed),
        ApplyResult::Applied {
            observed_digest: observed.digest_label(),
        }
    );
}

fn upstream(hash: u8, values: &[u8]) -> DesiredSlice {
    let mut level = desired();
    level
        .upstream_outputs
        .insert_unique(UpstreamOutput {
            component_spec_hash: [hash; 32],
            values_json: values.to_vec(),
        })
        .unwrap();
    level
}

fn with_inputs(inputs: Vec<InputSlot>) -> PlannedOperation {
    planned(Operation::ApplyMigration {
        resource_id: "r".into(),
        schema: "s".into(),
        migration: Migration {
            inputs,
            ..migration()
        },
    })
}

fn input(name: &str, output: &str, default: Option<serde_json::Value>) -> InputSlot {
    InputSlot {
        name: name.into(),
        producer_component_spec_hash: [7; 32],
        output: output.into(),
        default,
    }
}

fn set(name: &str, value: &str) -> Statement {
    Statement::Execute {
        sql: "select set_config($1, $2, true)".into(),
        parameters: vec![name.into(), value.into()],
    }
}

#[test]
fn a_migration_finds_its_inputs_in_settings_before_its_sql() {
    let operation = with_inputs(vec![
        input("upstream_url", "apiUrl", None),
        input("limit", "limit", Some("none".into())),
        input("region", "region", Some("local".into())),
        input("tags", "tags", None),
    ]);
    let level = upstream(
        7,
        b"{\"tags\":{\"b\":[1,null],\"a\":\"x\"},\"limit\":25,\"apiUrl\":\"http://up\"}",
    );
    let statements = execute(&level, "sha256:plan", &operation);
    assert_eq!(statements.len(), 7);
    assert_eq!(
        statements[..6],
        [
            batch("set local search_path = \"s\", public, extensions;"),
            set("henosis.input.upstream_url", "http://up"),
            set("henosis.input.limit", "25"),
            set("henosis.input.region", "local"),
            set("henosis.input.tags", "{\"a\":\"x\",\"b\":[1,null]}"),
            batch("create table items (id bigint);"),
        ]
    );
    assert!(matches!(&statements[6], Statement::Execute { parameters, .. } if parameters.len() == 6));
    assert_eq!(
        decide_apply(
            &observed(),
            &level,
            &plan(observed().digest_label()),
            "sha256:plan",
            &operation
        ),
        ApplyDecision::Commit(statements)
    );
}

#[test]
fn an_input_without_a_value_is_left_unset() {
    let operation = with_inputs(vec![
        input("region", "region", Some("local".into())),
        input("upstream_url", "apiUrl", None),
        input("limit", "limit", Some(3.into())),
    ]);
    for level in [
        desired(),
        upstream(8, b"{\"apiUrl\":\"http://up\"}"),
        upstream(7, b"{\"url\":\"http://up\"}"),
        upstream(7, b"[\"apiUrl\"]"),
        upstream(7, b"{"),
        upstream(7, b"\xff"),
    ] {
        let statements = execute(&level, "sha256:plan", &operation);
        assert_eq!(statements.len(), 5);
        assert_eq!(
            statements[..4],
            [
                batch("set local search_path = \"s\", public, extensions;"),
                set("henosis.input.region", "local"),
                set("henosis.input.limit", "3"),
                batch("create table items (id bigint);"),
            ]
        );
    }
}

#[test]
fn the_value_of_an_input_is_its_output_or_else_its_default() {
    let published: serde_json::Value = serde_json::from_str(
        "{\"text\":\"a\\\"b\",\"flag\":false,\"nothing\":null,\"list\":[\"a\",2]}",
    )
    .unwrap();
    let text = |output: &str, default: Option<serde_json::Value>| {
        value_text(Some(&published), &input("n", output, default))
    };
    assert_eq!(text("text", Some("d".into())), Some("a\"b".into()));
    assert_eq!(text("flag", Some("d".into())), Some("false".into()));
    assert_eq!(text("nothing", Some("d".into())), Some("null".into()));
    assert_eq!(text("list", None), Some("[\"a\",2]".into()));
    assert_eq!(text("other", Some("d".into())), Some("d".into()));
    assert_eq!(text("other", Some(3.into())), Some("3".into()));
    assert_eq!(text("other", None), None);
    assert_eq!(
        value_text(None, &input("n", "text", Some("d".into()))),
        Some("d".into())
    );
    assert_eq!(value_text(None, &input("n", "text", None)), None);
}

#[test]
fn an_input_is_set_under_its_name() {
    let slot = input("region", "region", Some("local".into()));
    let mut object = serde_json::Map::new();
    object.insert("region".into(), "eu".into());
    assert_eq!(
        input_setting(Some(&serde_json::Value::Object(object)), &slot),
        Some(set("henosis.input.region", "eu"))
    );
    assert_eq!(
        input_setting(None, &slot),
        Some(set("henosis.input.region", "local"))
    );
    assert_eq!(input_setting(None, &input("region", "region", None)), None);
}

#[test]
fn the_first_operation_is_applied_under_the_plans_own_identity() {
    let level = desired();
    let first = with_inputs(Vec::new());
    let mut fresh = plan(observed().digest_label());
    fresh.plan_id = "sha256:own".into();
    fresh.operations = vec![first.clone(), planned(Operation::EnsureMetadata)];
    assert_eq!(
        decide_next(&observed(), &level, &fresh),
        ApplyDecision::Commit(execute(&level, "sha256:own", &first))
    );
    fresh.observed_digest = "blake3:other".into();
    assert_eq!(
        decide_next(&observed(), &level, &fresh),
        ApplyDecision::Rollback(ApplyResult::Stale {
            observed_digest: observed().digest_label(),
        })
    );
}

#[test]
fn copies_hold_the_same() {
    assert_eq!(observed().clone(), observed());
    let level = upstream(7, b"{}");
    assert_eq!(level.clone(), level);
    assert_eq!(level.clone().desired_digest(), level.desired_digest());
}

fn failure() -> ProviderFailure {
    ProviderFailure {
        severity: "ERROR".into(),
        code: "42P07".into(),
        message: "relation exists".into(),
        detail: None,
        hint: None,
        position: None,
        context: None,
    }
}

#[test]
fn provider_fields_are_kept_in_order() {
    assert_eq!(
        unavailable("refused"),
        TargetError::Unavailable("refused".into())
    );
    assert_eq!(
        unavailable("refused").message(),
        "Supabase target unavailable: refused"
    );
    assert_eq!(
        provider_or_unavailable(Err("closed".into())),
        TargetError::Unavailable("closed".into())
    );
    match provider_or_unavailable(Ok(failure())) {
        TargetError::Provider(provider) => {
            assert_eq!(provider.code, "supabase.postgres.42P07");
            assert_eq!(
                provider.detail,
                "severity: ERROR\ncode: 42P07\nmessage: relation exists"
            );
            assert_eq!(provider.help, None);
        }
        other => panic!("{other:?}"),
    }
    let full = provider_or_unavailable(Ok(ProviderFailure {
        detail: Some("more".into()),
        hint: Some("rename it".into()),
        position: Some(ErrorPosition::Original(14)),
        context: Some("PL/pgSQL".into()),
        ..failure()
    }));
    assert_eq!(
        full.message(),
        "severity: ERROR\ncode: 42P07\nmessage: relation exists\ndetail: more\nhint: rename \
         it\nposition: Original(14)\nwhere: PL/pgSQL"
    );
    match full {
        TargetError::Provider(provider) => assert_eq!(provider.help, Some("rename it".into())),
        other => panic!("{other:?}"),
    }
    let internal = provider_or_unavailable(Ok(ProviderFailure {
        position: Some(ErrorPosition::Internal {
            position: 3,
            query: "select \"x\"".into(),
        }),
        ..failure()
    }));
    assert!(internal
        .message()
        .ends_with("position: Internal { position: 3, query: \"select \\\"x\\\"\" }"));
}

#[test]
fn every_observed_fact_changes_the_digest() {
    let known = observed().digest();
    let changes: Vec<fn(&mut ObservedTarget)> = vec![
        |facts| facts.identity.database = "other".into(),
        |facts| facts.identity.database_oid = "6".into(),
        |facts| facts.identity.server_version = "170007".into(),
        |facts| facts.metadata_exists = false,
        |facts| facts.schemas = TextSet::new(),
        |facts| facts.migrations[0].checksum = "sha256:abd".into(),
        |facts| facts.migrations.clear(),
        |facts| facts.exposed_schemas = texts(&["public", "catalog"]),
        |facts| facts.anon_read.insert("catalog".into(), true),
        |facts| facts.anon_read = TextMap::new(),
    ];
    for change in changes {
        let mut facts = observed();
        change(&mut facts);
        assert_ne!(facts.digest(), known, "{facts:?}");
    }
}

#[test]
fn the_digest_under_the_lock_decides() {
    let operation = planned(Operation::EnsureMetadata);
    assert_eq!(
        decide_with_digest(
            "blake3:now".into(),
            &desired(),
            &plan("blake3:then".into()),
            "sha256:plan",
            &operation
        ),
        ApplyDecision::Rollback(ApplyResult::Stale {
            observed_digest: "blake3:now".into(),
        })
    );
    assert_eq!(
        decide_with_digest(
            "blake3:now".into(),
            &desired(),
            &plan("blake3:now".into()),
            "sha256:plan",
            &operation
        ),
        ApplyDecision::Commit(execute(&desired(), "sha256:plan", &operation))
    );
}
