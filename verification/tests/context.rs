//! Context boundary and mutation-free content checks.

use connector_supabase::context::forbidden_sql_verb;
use connector_supabase::context::is_input_name;
use connector_supabase::context::is_migration_id;
use connector_supabase::context::validate_logical_id;
use connector_supabase::context::validate_schema;
use connector_supabase::context::AnonAccess;
use connector_supabase::context::ApiContext;
use connector_supabase::context::ComponentContext;
use connector_supabase::context::ContextError;
use connector_supabase::context::InputSlot;
use connector_supabase::context::Migration;
use connector_supabase::context::TargetContext;
use connector_supabase::context::API_VERSION;
use sha2::Digest as _;
use sha2::Sha256;

fn checksum(sql: &str) -> String {
    format!("sha256:{}", hex::encode(Sha256::digest(sql.as_bytes())))
}

fn migration(id: &str, sql: &str) -> Migration {
    Migration {
        id: id.into(),
        checksum: checksum(sql),
        sql: sql.into(),
        inputs: Vec::new(),
    }
}

fn context() -> ComponentContext {
    let sql = "create table items (id bigint primary key);".to_owned();
    ComponentContext {
        api_version: API_VERSION.into(),
        resource_id: "catalog".into(),
        target: TargetContext {
            stack: "local".into(),
            project: "henosis-local".into(),
            database: "postgres".into(),
            schema: "catalog".into(),
        },
        migrations: vec![Migration {
            id: "202607130001_create_items".into(),
            checksum: format!("sha256:{}", hex::encode(Sha256::digest(sql.as_bytes()))),
            sql,
            inputs: Vec::new(),
        }],
        api: ApiContext {
            expose: true,
            anon_access: AnonAccess::Read,
        },
    }
}

fn input(name: &str, output: &str) -> InputSlot {
    InputSlot {
        name: name.into(),
        producer_component_spec_hash: [9; 32],
        output: output.into(),
        default: None,
    }
}

fn codes(context: &ComponentContext) -> Vec<&'static str> {
    context
        .plan_issues()
        .into_iter()
        .map(|issue| issue.code)
        .collect()
}

#[test]
fn valid_context_has_no_plan_issues() {
    let context = context();
    context.validate_boundary().unwrap();
    assert!(context.plan_issues().is_empty());
}

#[test]
fn checksum_mismatch_is_a_plan_issue() {
    let mut context = context();
    context.migrations[0].checksum = format!("sha256:{}", "0".repeat(64));
    assert_eq!(
        context.plan_issues()[0].code,
        "supabase.plan.migration-checksum"
    );
}

#[test]
fn destructive_sql_is_rejected_during_plan() {
    let mut context = context();
    context.migrations[0].sql = "drop table items;".into();
    context.migrations[0].checksum = format!(
        "sha256:{}",
        hex::encode(Sha256::digest(context.migrations[0].sql.as_bytes()))
    );
    assert_eq!(
        context.plan_issues()[0].code,
        "supabase.plan.destructive-unsupported"
    );
}

#[test]
fn bytes_that_do_not_decode_fail_closed() {
    let error =
        ComponentContext::from_bytes(Err("unknown field `secret`".into())).unwrap_err();
    assert_eq!(error, ContextError::Json("unknown field `secret`".into()));
    assert_eq!(
        error.message(),
        "invalid henosis.dev/supabase-component-context/v1 JSON: unknown field `secret`"
    );
    assert_eq!(ComponentContext::from_bytes(Ok(context())), Ok(context()));
}

fn refusal(change: fn(&mut ComponentContext)) -> String {
    let mut value = context();
    change(&mut value);
    match value.validate_boundary() {
        Err(ContextError::Invalid(message)) => message,
        other => panic!("{other:?}"),
    }
}

#[test]
fn the_boundary_names_the_first_field_outside_the_vocabulary() {
    assert_eq!(
        refusal(|value| value.api_version = "v\"0".into()),
        "unsupported apiVersion \"v\\\"0\"; expected \
         \"henosis.dev/supabase-component-context/v1\""
    );
    assert_eq!(
        refusal(|value| value.resource_id = "Catalog".into()),
        "resourceId must match [a-z][a-z0-9_-]{0,62}"
    );
    assert_eq!(
        refusal(|value| value.target.stack = "remote".into()),
        "target.stack must be the configured v1 stack \"local\""
    );
    assert_eq!(
        refusal(|value| value.target.project = "hosted".into()),
        "target.project must be the self-hosted v1 project \"henosis-local\""
    );
    assert_eq!(
        refusal(|value| value.target.database = "template1".into()),
        "target.database must be the v1 database \"postgres\""
    );
    assert_eq!(
        refusal(|value| value.target.schema = "9lives".into()),
        "target.schema must match [a-z][a-z0-9_-]{0,62}"
    );
    assert_eq!(
        refusal(|value| value.target.schema = "pg_temp".into()),
        "target.schema \"pg_temp\" is reserved"
    );
    assert_eq!(
        refusal(|value| {
            value.target.stack = "remote".into();
            value.target.schema = "public".into();
        }),
        "target.stack must be the configured v1 stack \"local\""
    );
    let invalid = ContextError::Invalid("detail".into());
    assert_eq!(
        invalid.message(),
        "invalid henosis.dev/supabase-component-context/v1: detail"
    );
}

#[test]
fn logical_identities_are_short_lowercase_words() {
    assert!(validate_logical_id("a", "f").is_ok());
    assert!(validate_logical_id(&"a".repeat(63), "f").is_ok());
    assert!(validate_logical_id("a-b_9", "f").is_ok());
    for value in ["", "-a", "_a", "9a", "A", "a.b", "a b", "\u{e9}"] {
        assert!(validate_logical_id(value, "f").is_err(), "{value:?}");
    }
    assert!(validate_logical_id(&"a".repeat(64), "f").is_err());
}

#[test]
fn platform_schemas_are_reserved() {
    for value in [
        "auth",
        "extensions",
        "graphql",
        "graphql_public",
        "henosis_connector",
        "information_schema",
        "pg_catalog",
        "public",
        "realtime",
        "storage",
        "supabase_functions",
        "vault",
        "pg_",
    ] {
        assert!(validate_schema(value).is_err(), "{value:?}");
    }
    assert!(validate_schema("pgx").is_ok());
    assert!(validate_schema("authx").is_ok());
}

#[test]
fn input_names_and_migration_ids_have_their_alphabets() {
    assert!(is_input_name("upstream_url2"));
    assert!(is_input_name(&"a".repeat(63)));
    for value in ["", "_a", "2a", "apiUrl", "a-b"] {
        assert!(!is_input_name(value), "{value:?}");
    }
    assert!(!is_input_name(&"a".repeat(64)));
    assert!(is_migration_id("202607130001_create-items"));
    assert!(is_migration_id(&"9".repeat(96)));
    for value in ["", "_a", "-a", "A", "a.b"] {
        assert!(!is_migration_id(value), "{value:?}");
    }
    assert!(!is_migration_id(&"9".repeat(97)));
}

#[test]
fn forbidden_verbs_are_found_as_whole_words_of_any_case() {
    assert_eq!(forbidden_sql_verb("select 1"), None);
    assert_eq!(forbidden_sql_verb(""), None);
    assert_eq!(forbidden_sql_verb("drop table t"), Some("DROP"));
    assert_eq!(forbidden_sql_verb("x;DeLeTe from t"), Some("DELETE"));
    assert_eq!(forbidden_sql_verb("create table dropped (a int)"), None);
    assert_eq!(forbidden_sql_verb("create table drop_me (a int)"), None);
    assert_eq!(forbidden_sql_verb("update t; alter t"), Some("ALTER"));
    assert_eq!(
        forbidden_sql_verb("drop x; create\nor  Replace function f"),
        Some("CREATE OR REPLACE")
    );
    assert_eq!(forbidden_sql_verb("create or; replace_me"), None);
    for verb in [
        "ALTER", "CALL", "COPY", "DELETE", "DO", "DROP", "MERGE", "REVOKE", "TRUNCATE", "UPDATE",
    ] {
        assert_eq!(forbidden_sql_verb(verb), Some(verb));
    }
}

#[test]
fn every_problem_of_a_migration_is_reported_in_order() {
    let mut context = context();
    context.migrations = vec![
        migration("b", "create table b (id int);"),
        Migration {
            id: "A".into(),
            checksum: "sha256:wrong".into(),
            sql: " \n".into(),
            inputs: vec![
                input("one", "url"),
                input("One", "url"),
                input("one", "apiUrl"),
            ],
        },
    ];
    let issues = context.plan_issues();
    let found: Vec<(&str, &str)> = issues
        .iter()
        .map(|issue| (issue.code, issue.pointer.as_str()))
        .collect();
    assert_eq!(
        found,
        vec![
            ("supabase.plan.migration-id", "/migrations/1/id"),
            ("supabase.plan.migration-order", "/migrations/1/id"),
            ("supabase.plan.migration-checksum", "/migrations/1/checksum"),
            ("supabase.input.invalid", "/migrations/1/inputs/1"),
            ("supabase.input.invalid", "/migrations/1/inputs/2"),
            ("supabase.input.duplicate", "/migrations/1/inputs/2/name"),
            ("supabase.plan.migration-empty", "/migrations/1/sql"),
        ]
    );
    assert_eq!(issues[0].message, "migration id \"A\" is invalid");
    assert_eq!(
        issues[0].help,
        "Use 1-96 lowercase letters, digits, underscores, or hyphens, beginning with a letter or \
         digit."
    );
    assert_eq!(
        issues[1].message,
        "migration \"A\" is not strictly after the preceding migration"
    );
    assert_eq!(
        issues[1].help,
        "Keep migration IDs unique and in strictly increasing lexical order."
    );
    assert_eq!(
        issues[2].message,
        "migration \"A\" declares checksum \"sha256:wrong\", but its exact SQL hashes to \
         \"sha256:e16f1596201850fd4a63680b27f603cb64e67176159be3d8ed78a4403fdb1700\""
    );
    assert_eq!(
        issues[2].help,
        "Regenerate checksum as SHA-256 over the exact UTF-8 SQL bytes; never edit an \
         already-applied migration ID."
    );
    assert_eq!(
        issues[3].message,
        "migration \"A\" input \"One\" has an invalid name or output property"
    );
    assert_eq!(
        issues[3].help,
        "Use lowercase letters, digits, and underscores, beginning with a letter."
    );
    assert_eq!(
        issues[5].message,
        "migration \"A\" declares input \"one\" more than once"
    );
    assert_eq!(
        issues[5].help,
        "Give each migration input a unique setting name."
    );
    assert_eq!(issues[6].message, "migration \"A\" has no SQL");
    assert_eq!(
        issues[6].help,
        "Remove the migration or provide one additive SQL transition."
    );
}

#[test]
fn equal_migration_ids_are_out_of_order() {
    let mut context = context();
    context.migrations = vec![migration("a", "select 1"), migration("a", "select 2")];
    assert_eq!(codes(&context), vec!["supabase.plan.migration-order"]);
    context.migrations = vec![migration("a", "select 1"), migration("a0", "select 2")];
    assert!(codes(&context).is_empty());
}

#[test]
fn a_destructive_migration_names_its_verb() {
    let mut context = context();
    context.migrations = vec![migration("a", "truncate t")];
    let issues = context.plan_issues();
    assert_eq!(issues.len(), 1);
    assert_eq!(
        issues[0].message,
        "migration \"a\" contains v1-unsupported verb \"TRUNCATE\""
    );
    assert_eq!(issues[0].pointer, "/migrations/0/sql");
    assert_eq!(
        issues[0].help,
        "V1 auto-applies additive SQL only; split out destructive or data-rewriting work for a \
         future approval-capable policy."
    );
}

#[test]
fn contexts_have_a_strict_document() {
    let mut context = context();
    context.migrations[0].inputs = vec![InputSlot {
        default: Some(serde_json::Value::from(3)),
        ..input("one", "url")
    }];
    let document = serde_json::to_string(&context.document()).unwrap();
    let expected = format!(
        "{{\"apiVersion\":\"henosis.dev/supabase-component-context/v1\",\"resourceId\":\
         \"catalog\",\"target\":{{\"stack\":\"local\",\"project\":\"henosis-local\",\"database\":\
         \"postgres\",\"schema\":\"catalog\"}},\"migrations\":[{{\"id\":\
         \"202607130001_create_items\",\"checksum\":\"{}\",\"sql\":\
         \"create table items (id bigint primary key);\",\"inputs\":[{{\"name\":\"one\",\
         \"producerComponentSpecHash\":[{}],\"output\":\"url\",\"default\":3}}]}}],\"api\":\
         {{\"expose\":true,\"anonAccess\":\"read\"}}}}",
        context.migrations[0].checksum,
        vec!["9"; 32].join(",")
    );
    assert_eq!(document, expected);
    context.migrations[0].inputs[0].default = None;
    context.api.anon_access = AnonAccess::NoAccess;
    let document = context.document();
    assert!(document["migrations"][0]["inputs"][0]["default"].is_null());
    assert_eq!(document["api"]["anonAccess"], "none");
}

#[test]
fn issues_are_found_against_given_checksums() {
    let mut context = context();
    context.migrations = vec![migration("a", "select 1"), migration("b", "select 2")];
    context.migrations[0].checksum = "one".into();
    context.migrations[1].checksum = "two".into();
    assert!(context
        .issues_against(&vec!["one".into(), "two".into()])
        .is_empty());
    let issues = context.issues_against(&vec!["one".into(), "three".into()]);
    assert_eq!(issues.len(), 1);
    assert_eq!(
        issues[0].message,
        "migration \"b\" declares checksum \"two\", but its exact SQL hashes to \"three\""
    );
    assert_eq!(issues[0].pointer, "/migrations/1/checksum");
}
