//! Redacted review projections.

use connector_supabase::context::Migration;
use connector_supabase::plan::Action;
use connector_supabase::plan::DestructiveLevel;
use connector_supabase::plan::ExecutablePlan;
use connector_supabase::plan::ExecutionClass;
use connector_supabase::plan::Operation;
use connector_supabase::plan::PlannedOperation;
use connector_supabase::plan::PlannedOutput;
use connector_supabase::review::markdown;
use connector_supabase::review::project;

fn object(members: &[(&str, &str)]) -> serde_json::Value {
    let mut map = serde_json::Map::new();
    for (name, value) in members {
        map.insert((*name).into(), serde_json::Value::from(*value));
    }
    serde_json::Value::Object(map)
}

fn plan(sql: &str) -> ExecutablePlan {
    ExecutablePlan {
        plan_id: String::new(),
        api_version: connector_supabase::plan::API_VERSION.into(),
        connector: connector_supabase::CONNECTOR_NAME.into(),
        connector_build: "test".into(),
        policy_version: connector_supabase::plan::POLICY_VERSION.into(),
        graph_id: "01".repeat(16),
        generation: "1".into(),
        slice_sequence: "2".into(),
        target: "local/henosis-local/postgres".into(),
        desired_digest: "blake3:desired".into(),
        observed_digest: "blake3:observed".into(),
        journal_tail: "3".into(),
        operations: vec![PlannedOperation {
            id: "sha256:operation".into(),
            address: "schema.catalog.migration.one".into(),
            component_scopes: vec!["07".repeat(32)],
            execution_class: ExecutionClass::OrderedTransition,
            action: Action::Transition,
            before: serde_json::Value::Null,
            after: object(&[("migrationId", "one"), ("checksum", "sha256:checksum")]),
            destructive_level: DestructiveLevel::NonDestructive,
            dependencies: Vec::new(),
            preconditions: vec!["receipt absent".into()],
            operation: Operation::ApplyMigration {
                resource_id: "catalog".into(),
                schema: "catalog".into(),
                migration: Migration {
                    id: "one".into(),
                    checksum: "sha256:checksum".into(),
                    sql: sql.into(),
                    inputs: Vec::new(),
                },
            },
        }],
        planned_outputs: Vec::new(),
    }
}

#[test]
fn redacted_projection_does_not_contain_executable_sql() {
    let mut plan = plan("create table secret_shape (id bigint);");
    plan.refresh_id();
    let review = project(&plan);
    assert!(!review.json.to_string().contains("secret_shape"));
    assert!(serde_json::to_string(&plan.document())
        .unwrap()
        .contains("secret_shape"));
    assert!(review.json.to_string().contains(&plan.plan_id));
}

#[test]
fn plans_that_differ_only_in_executable_sql_look_alike() {
    let first = project(&plan("create table one (id bigint);"));
    let second = project(&plan("create table two (id bigint);"));
    assert_eq!(first, second);
    assert!(!first.markdown.contains("create table"));
}

#[test]
fn the_machine_view_has_a_fixed_form() {
    let mut value = plan("select 1");
    value.plan_id = "sha256:plan".into();
    value.planned_outputs = vec![PlannedOutput {
        component_spec_hash: "07".into(),
        values: object(&[("schema", "catalog")]),
    }];
    assert_eq!(
        project(&value).json.to_string(),
        "{\"apiVersion\":\"henosis.dev/supabase-review-plan/v1\",\"connector\":\"supabase\",\
         \"connectorBuild\":\"test\",\"desiredDigest\":\"blake3:desired\",\"executableDigest\":\
         \"sha256:plan\",\"generation\":\"1\",\"graphId\":\"01010101010101010101010101010101\",\
         \"journalTail\":\"3\",\"observedDigest\":\"blake3:observed\",\"operations\":[{\"action\":\
         \"transition\",\"address\":\"schema.catalog.migration.one\",\"after\":{\"migrationId\":\
         \"one\",\"checksum\":\"sha256:checksum\"},\"before\":null,\"componentScopes\":\
         [\"0707070707070707070707070707070707070707070707070707070707070707\"],\"dependencies\":\
         [],\"destructiveLevel\":\"non-destructive\",\"executionClass\":\"ordered-transition\",\
         \"id\":\"sha256:operation\",\"preconditions\":[\"receipt absent\"]}],\"planId\":\
         \"sha256:plan\",\"plannedOutputs\":[{\"componentSpecHash\":\"07\",\"values\":{\"schema\":\
         \"catalog\"}}],\"policyVersion\":\"supabase-local-v1\",\"sliceSequence\":\"2\",\
         \"target\":\"local/henosis-local/postgres\"}"
    );
}

#[test]
fn the_human_view_renders_identity_operations_and_outputs() {
    let mut value = plan("select 1");
    value.plan_id = "sha256:plan".into();
    assert_eq!(
        project(&value).markdown,
        "# Supabase plan\n\n- Plan: `sha256:plan`\n- Graph: `01010101010101010101010101010101` \
         generation `1` / slice `2`\n- Target: `local/henosis-local/postgres`\n- Desired: \
         `blake3:desired`\n- Observed: `blake3:observed`\n- Journal tail fence: `3`\n\n| Action | \
         Class | Address | Safety |\n|---|---|---|---|\n| `Transition` | `OrderedTransition` | \
         `schema.catalog.migration.one` | `NonDestructive` |\n\n## Planned outputs\n\n```json\n[]\
         \n```\n"
    );
    value.planned_outputs = vec![PlannedOutput {
        component_spec_hash: "07".into(),
        values: object(&[("schema", "catalog")]),
    }];
    assert!(project(&value).markdown.ends_with(
        "```json\n[\n  {\n    \"componentSpecHash\": \"07\",\n    \"values\": {\n      \
         \"schema\": \"catalog\"\n    }\n  }\n]\n```\n"
    ));
}

#[test]
fn the_human_view_takes_the_outputs_as_text() {
    let mut value = plan("select 1");
    value.operations.clear();
    value.plan_id = "sha256:plan".into();
    let text = markdown(&value, "{}");
    assert!(text.starts_with("# Supabase plan\n\n- Plan: `sha256:plan`\n"));
    assert!(text.ends_with(
        "|---|---|---|---|\n\n## Planned outputs\n\n```json\n{}\n```\n"
    ));
}
