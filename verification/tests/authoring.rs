//! Derivation of components from native Supabase projects.

use connector_supabase::authoring::derive_anon_access;
use connector_supabase::authoring::derive_candidate;
use connector_supabase::authoring::derive_component;
use connector_supabase::authoring::derive_inputs;
use connector_supabase::authoring::derive_migrations;
use connector_supabase::authoring::input_slot;
use connector_supabase::authoring::native_schema;
use connector_supabase::authoring::output_schema;
use connector_supabase::authoring::parse_declaration;
use connector_supabase::authoring::parse_input;
use connector_supabase::authoring::select_migrations;
use connector_supabase::authoring::DeriveError;
use connector_supabase::authoring::DerivedComponent;
use connector_supabase::authoring::MigrationFile;
use connector_supabase::authoring::NativeProject;
use connector_supabase::authoring::SupabaseApi;
use connector_supabase::authoring::SupabaseConfig;
use connector_supabase::authoring::SupabaseDatabase;
use connector_supabase::authoring::SupabaseMigrations;
use connector_supabase::context::AnonAccess;
use connector_supabase::context::Migration;
use sha2::Digest as _;
use sha2::Sha256;

const CONFIG: &str = r#"project_id = "service-d"
[api]
enabled = true
schemas = ["public", "graphql_public", "service_d"]
[db.migrations]
enabled = true
"#;

const ITEMS: &str = "create table items (id bigint primary key);\ngrant usage on schema service_d \
                     to anon;\ngrant select on all tables in schema service_d to anon;\n";

fn config(source: &str) -> SupabaseConfig {
    let table = source.parse::<toml::Table>().unwrap();
    let api = table["api"].as_table().unwrap();
    let migrations = table
        .get("db")
        .and_then(|db| db.get("migrations"))
        .and_then(|migrations| migrations.get("enabled"))
        .and_then(|enabled| enabled.as_bool());
    SupabaseConfig {
        project_id: table
            .get("project_id")
            .and_then(|value| value.as_str())
            .unwrap_or_default()
            .into(),
        api: SupabaseApi {
            enabled: api
                .get("enabled")
                .and_then(|value| value.as_bool())
                .unwrap_or_else(connector_supabase::authoring::enabled),
            schemas: api
                .get("schemas")
                .and_then(|value| value.as_array())
                .map(|schemas| {
                    schemas
                        .iter()
                        .map(|schema| schema.as_str().unwrap().to_owned())
                        .collect()
                })
                .unwrap_or_default(),
        },
        db: match migrations {
            Some(enabled) => SupabaseDatabase {
                migrations: SupabaseMigrations { enabled },
            },
            None => SupabaseDatabase::default(),
        },
    }
}

fn file(name: &str, contents: &str) -> MigrationFile {
    MigrationFile {
        name: name.as_bytes().to_vec(),
        path: format!("supabase/migrations/{name}"),
        contents: Ok(contents.as_bytes().to_vec()),
    }
}

fn native_project() -> NativeProject {
    NativeProject {
        config_path: "supabase/config.toml".into(),
        directory_name: Some("repository".into()),
        config: Ok(config(CONFIG)),
        files: Ok(vec![file("202607130001_create_items.sql", ITEMS)]),
    }
}

fn derive(project: &NativeProject) -> Result<DerivedComponent, DeriveError> {
    let decoded = derive_candidate(project)
        .map(|component| component.connector_context)
        .map_err(|error| error.message());
    derive_component(project, decoded)
}

fn with_migration(contents: &str) -> NativeProject {
    NativeProject {
        files: Ok(vec![file("202607130001_create_items.sql", contents)]),
        ..native_project()
    }
}

#[test]
fn derives_native_files_without_copying_them() {
    let derived = derive(&native_project()).unwrap();
    assert_eq!(derived.name, "service-d");
    assert_eq!(derived.connector_context.resource_id, "service_d");
    assert!(derived.connector_context.api.expose);
    assert_eq!(derived.connector_context.migrations.len(), 1);
    assert_eq!(
        derived.connector_context.migrations[0].sql,
        "create table items (id bigint primary key);\ngrant usage on schema service_d to \
         anon;\ngrant select on all tables in schema service_d to anon;\n"
    );
    assert_eq!(derived.connector_context.api.anon_access, AnonAccess::Read);
}

#[test]
fn a_copy_of_a_derived_component_holds_the_same() {
    let derived = derive(&native_project()).unwrap();
    assert_eq!(derived.clone(), derived);
}

#[test]
fn exposure_is_derived_from_native_api_schemas() {
    let project = NativeProject {
        config: Ok(config(
            "project_id = \"service-d\"\n[api]\nschemas = [\"public\"]\n",
        )),
        ..native_project()
    };
    assert!(!derive(&project).unwrap().connector_context.api.expose);
}

#[test]
fn native_migration_checksum_cannot_drift() {
    let first = derive(&native_project()).unwrap();
    let second = derive(&with_migration(
        "create table items (id uuid primary key);\n",
    ))
    .unwrap();
    assert_ne!(
        first.connector_context.migrations[0].checksum,
        second.connector_context.migrations[0].checksum
    );
}

#[test]
fn derives_dependencies_and_slots_from_native_migration_comments() {
    let producer = "09".repeat(32);
    let derived = derive(&with_migration(&format!(
        "-- henosis:input upstream_url=${{henosis:{producer}.apiUrl}}\ncreate table items \
         (url text default current_setting('henosis.input.upstream_url'));\n"
    )))
    .unwrap();
    assert_eq!(derived.depends_on, vec![vec![9; 32]]);
    assert_eq!(
        derived.connector_context.migrations[0].inputs[0].name,
        "upstream_url"
    );
    assert_eq!(
        derived.connector_context.migrations[0].inputs[0].output,
        "apiUrl"
    );
}

#[test]
fn partial_or_commented_grants_cannot_claim_read_policy() {
    let error = derive(&with_migration(
        "-- grant select on all tables in schema service_d to anon;\ngrant usage on schema \
         service_d to anon;\n",
    ))
    .unwrap_err()
    .message();
    assert!(error.contains("native anon-read policy"));
    assert!(error.contains("both"));
}

#[test]
fn incomplete_grants_are_explained() {
    let error = derive(&with_migration("grant usage on schema service_d to anon;"))
        .unwrap_err()
        .message();
    assert_eq!(
        error,
        "invalid Supabase component at supabase/config.toml: native anon-read policy for schema \
         \"service_d\" is incomplete: migrations must contain both `grant usage on schema \
         service_d to anon` and `grant select on all tables in schema service_d to anon`, or \
         neither"
    );
}

fn sql(text: &str) -> Migration {
    Migration {
        id: "a".into(),
        checksum: String::new(),
        sql: text.into(),
        inputs: Vec::new(),
    }
}

#[test]
fn grants_are_read_across_migrations_whatever_their_layout() {
    let access = |texts: &[&str]| {
        derive_anon_access(
            &texts.iter().map(|text| sql(text)).collect(),
            "s",
            "config.toml",
        )
    };
    assert_eq!(access(&[]), Ok(AnonAccess::NoAccess));
    assert_eq!(
        access(&[
            "GRANT Usage\n  ON schema s to anon; select 1",
            "; grant select on all\ttables in schema s to anon -- done",
        ]),
        Ok(AnonAccess::Read)
    );
    assert_eq!(
        access(&["grant usage on schema s to anonymous; grant select on schema s to anon"]),
        Ok(AnonAccess::NoAccess)
    );
    assert!(access(&["grant select on all tables in schema s to anon"]).is_err());
    assert_eq!(
        access(&["grant usage on schema s to anon", "\ngrant select on all tables in schema s to anon"]),
        Ok(AnonAccess::NoAccess)
    );
}

#[test]
fn derived_components_carry_the_fixed_contract() {
    let derived = derive(&native_project()).unwrap();
    assert_eq!(derived.connector, "supabase");
    assert!(derived.depends_on.is_empty());
    assert_eq!(derived.outputs_schema, output_schema());
    assert_eq!(
        String::from_utf8(derived.outputs_schema_bytes().unwrap()).unwrap(),
        "{\"$schema\":\"https://json-schema.org/draft/2020-12/schema\",\"additionalProperties\":\
         false,\"properties\":{\"anonKeyRef\":{\"type\":\"string\"},\"apiUrl\":{\"format\":\
         \"uri\",\"type\":\"string\"},\"database\":{\"type\":\"string\"},\"databaseUrlRef\":\
         {\"type\":\"string\"},\"project\":{\"type\":\"string\"},\"restUrl\":{\"format\":\"uri\",\
         \"type\":\"string\"},\"schema\":{\"type\":\"string\"}},\"required\":[\"project\",\
         \"database\",\"schema\",\"apiUrl\",\"restUrl\",\"databaseUrlRef\",\"anonKeyRef\"],\
         \"type\":\"object\"}"
    );
    let bytes = derived.connector_context_bytes().unwrap();
    assert_eq!(
        String::from_utf8(bytes).unwrap(),
        derived.connector_context.document().to_string()
    );
    assert_eq!(
        derived.connector_context.migrations[0].checksum,
        format!("sha256:{}", hex::encode(Sha256::digest(ITEMS.as_bytes())))
    );
    assert_eq!(
        derived.connector_context.migrations[0].id,
        "202607130001_create_items"
    );
    let document = derived.document();
    let names: Vec<&String> = document.as_object().unwrap().keys().collect();
    assert_eq!(
        names,
        vec![
            "name",
            "connector",
            "outputsSchema",
            "dependsOn",
            "connectorContext"
        ]
    );
}

#[test]
fn the_directory_names_a_project_without_identity() {
    let mut project = native_project();
    project.config = Ok(config("project_id = \" \"\n[api]\n"));
    project.files = Ok(Vec::new());
    let derived = derive(&project).unwrap();
    assert_eq!(derived.name, "repository");
    assert!(derived.connector_context.migrations.is_empty());
    for name in [None, Some(String::new())] {
        project.directory_name = name;
        assert_eq!(
            derive(&project).unwrap_err().message(),
            "invalid Supabase component at supabase/config.toml: project_id is empty and the \
             repository directory has no UTF-8 name"
        );
    }
}

#[test]
fn names_become_schemas() {
    assert_eq!(native_schema("service-d", "p"), Ok("service_d".into()));
    assert_eq!(native_schema(&"a".repeat(63), "p"), Ok("a".repeat(63)));
    for name in ["", "-a", "9a", "A", "a.b", "\u{e9}"] {
        assert!(native_schema(name, "p").is_err(), "{name:?}");
    }
    assert!(native_schema(&"a".repeat(64), "p").is_err());
    assert_eq!(
        native_schema("Service", "p").unwrap_err().message(),
        "invalid Supabase component at p: project_id \"Service\" cannot derive a PostgreSQL \
         schema; use lowercase letters, digits, hyphens, or underscores"
    );
}

#[test]
fn disabled_migrations_are_refused() {
    let project = NativeProject {
        config: Ok(config(
            "project_id = \"service-d\"\n[api]\n[db.migrations]\nenabled = false\n",
        )),
        ..native_project()
    };
    assert_eq!(
        derive(&project).unwrap_err().message(),
        "invalid Supabase component at supabase/config.toml: [db.migrations].enabled must remain \
         true because native migrations are the component source"
    );
}

#[test]
fn a_disabled_api_exposes_nothing() {
    let project = NativeProject {
        config: Ok(config(
            "project_id = \"service-d\"\n[api]\nenabled = false\nschemas = [\"service_d\"]\n",
        )),
        ..native_project()
    };
    assert!(!derive(&project).unwrap().connector_context.api.expose);
}

#[test]
fn unreadable_sources_are_reported() {
    let mut project = native_project();
    let unreadable = DeriveError::Read {
        path: "supabase/migrations".into(),
        source: "denied".into(),
    };
    project.files = Err(unreadable.clone());
    assert_eq!(derive(&project), Err(unreadable.clone()));
    assert_eq!(
        unreadable.message(),
        "cannot read supabase/migrations: denied"
    );
    let malformed = DeriveError::Toml {
        path: "supabase/config.toml".into(),
        source: "expected `=`".into(),
    };
    project.config = Err(malformed.clone());
    assert_eq!(derive(&project), Err(malformed.clone()));
    assert_eq!(
        malformed.message(),
        "invalid TOML in supabase/config.toml: expected `=`"
    );
    assert_eq!(
        DeriveError::Serialize {
            source: "detail".into()
        }
        .message(),
        "cannot serialize derived component: detail"
    );
}

#[test]
fn reserved_schemas_fail_the_connector_boundary() {
    let project = NativeProject {
        config: Ok(config("project_id = \"storage\"\n[api]\n")),
        files: Ok(Vec::new()),
        ..native_project()
    };
    assert_eq!(
        derive(&project).unwrap_err().message(),
        "invalid Supabase component at supabase/config.toml: invalid \
         henosis.dev/supabase-component-context/v1: target.schema \"storage\" is reserved"
    );
    assert_eq!(
        derive_component(&project, Err("detail".into()))
            .unwrap_err()
            .message(),
        "invalid Supabase component at supabase/config.toml: invalid \
         henosis.dev/supabase-component-context/v1 JSON: detail"
    );
}

#[test]
fn migration_files_are_selected_and_sorted_by_name() {
    let names = |items: &[&str]| -> Vec<Vec<u8>> {
        items.iter().map(|item| item.as_bytes().to_vec()).collect()
    };
    assert_eq!(
        select_migrations(&names(&[
            "b.sql", "a.sql", "a.sq", "sql", ".sql", "c.SQL", "a.b.sql", "b.sql.bak", "Z.sql",
        ])),
        names(&["Z.sql", "a.b.sql", "a.sql", "b.sql"])
    );
}

#[test]
fn files_become_migrations() {
    let migrations = derive_migrations(&vec![file("a.b.sql", "select 1"), file("c.sql", "")])
        .unwrap();
    let ids: Vec<&str> = migrations
        .iter()
        .map(|migration| migration.id.as_str())
        .collect();
    assert_eq!(ids, vec!["a.b", "c"]);
    assert_eq!(
        migrations[1].checksum,
        "sha256:e3b0c44298fc1c149afbf4c8996fb92427ae41e4649b934ca495991b7852b855"
    );
}

#[test]
fn files_that_are_no_text_are_refused() {
    let mut broken = file("a.sql", "");
    broken.name = vec![0xff, b'.', b's', b'q', b'l'];
    assert_eq!(
        derive_migrations(&vec![broken]).unwrap_err().message(),
        "invalid Supabase component at supabase/migrations/a.sql: migration filename must be \
         UTF-8 and end in .sql"
    );
    let mut broken = file("a.sql", "");
    broken.contents = Err("denied".into());
    assert_eq!(
        derive_migrations(&vec![file("0.sql", "select 1"), broken])
            .unwrap_err()
            .message(),
        "cannot read supabase/migrations/a.sql: denied"
    );
    let mut broken = file("a.sql", "");
    broken.contents = Ok(vec![b'a', 0xff]);
    assert_eq!(
        derive_migrations(&vec![broken]).unwrap_err().message(),
        "invalid Supabase component at supabase/migrations/a.sql: migration must be UTF-8: \
         invalid utf-8 sequence of 1 bytes from index 1"
    );
    assert_eq!(
        derive_migrations(&vec![file("a.sql", "-- henosis:input x")])
            .unwrap_err()
            .message(),
        "invalid Supabase component at supabase/migrations/a.sql: line 1: input declaration must \
         be NAME=${henosis:HASH.output}"
    );
}

fn declaration(reference: &str) -> String {
    format!(" url =${{henosis:{reference}}}")
}

fn complaint(text: &str) -> String {
    parse_declaration(text).unwrap_err()
}

#[test]
fn input_declarations_are_parsed() {
    let hash = "0a".repeat(32);
    let input = parse_declaration(&declaration(&format!("{hash}.apiUrl"))).unwrap();
    assert_eq!(input.name, "url");
    assert_eq!(input.producer_component_spec_hash, [10; 32]);
    assert_eq!(input.output, "apiUrl");
    assert_eq!(input.default, None);
    let input = parse_declaration(&declaration(&format!(
        "{hash}.out:-{{\"b\":[1,{{\"d\":2,\"c\":null}}],\"a\":\":-\"}}"
    )))
    .unwrap();
    assert_eq!(
        input.default.unwrap().to_string(),
        "{\"a\":\":-\",\"b\":[1,{\"c\":null,\"d\":2}]}"
    );
}

#[test]
fn malformed_declarations_say_what_is_missing() {
    let hash = "0a".repeat(32);
    assert_eq!(
        complaint("url"),
        "input declaration must be NAME=${henosis:HASH.output}"
    );
    for text in ["url=", "url=${henosis:", "url=${henosis:x", "url={henosis:x}"] {
        assert_eq!(
            complaint(text),
            "input value must use ${henosis:HASH.output}",
            "{text}"
        );
    }
    assert_eq!(
        complaint(&declaration(&hash)),
        "input reference must contain HASH.output"
    );
    assert_eq!(
        complaint(&declaration("zz.out")),
        "producer hash is invalid: Invalid character 'z' at position 0"
    );
    assert_eq!(
        complaint(&declaration("abc.out")),
        "producer hash is invalid: Odd number of digits"
    );
    let length = "producer hash must contain 64 lowercase hexadecimal characters";
    assert_eq!(complaint(&declaration("abcd.out")), length);
    assert_eq!(
        complaint(&declaration(&format!("{}.out", "0A".repeat(32)))),
        length
    );
    assert_eq!(
        complaint(&declaration(&format!("{hash}.out:-{{"))),
        "input default must be JSON: EOF while parsing an object at line 1 column 1"
    );
    assert_eq!(
        parse_input("url", 7, "m.sql").unwrap_err().message(),
        "invalid Supabase component at m.sql: line 7: input declaration must be \
         NAME=${henosis:HASH.output}"
    );
}

#[test]
fn inputs_are_collected_line_by_line() {
    let first = "01".repeat(32);
    let second = "02".repeat(32);
    let text = format!(
        "select 1;\r\n  -- henosis:input a=${{henosis:{second}.x}}  \r\n--henosis:input \
         b\n-- henosis:inputs c\n\t-- henosis:input d=${{henosis:{first}.y}}"
    );
    let inputs = derive_inputs(&text, "m.sql").unwrap();
    let found: Vec<(&str, u8)> = inputs
        .iter()
        .map(|input| {
            (
                input.name.as_str(),
                input.producer_component_spec_hash[0],
            )
        })
        .collect();
    assert_eq!(found, vec![("a", 2), ("d", 1)]);
    let derived = derive(&with_migration(&format!("{text}\n{text}"))).unwrap();
    assert_eq!(derived.depends_on, vec![vec![1; 32], vec![2; 32]]);
    assert_eq!(
        derive_inputs("\n\n-- henosis:input x", "m.sql")
            .unwrap_err()
            .message(),
        "invalid Supabase component at m.sql: line 3: input declaration must be \
         NAME=${henosis:HASH.output}"
    );
}

#[test]
fn an_input_is_made_from_its_parsed_parts() {
    let reference = format!("{}.out.put", "0a".repeat(32));
    assert_eq!(
        input_slot("a", &reference, None),
        Err("producer hash is invalid: Invalid character '.' at position 64".into())
    );
    let reference = format!("{}.put", "0a".repeat(32));
    let input = input_slot(" a ", &reference, Some(Ok(serde_json::Value::from(3)))).unwrap();
    assert_eq!(input.name, "a");
    assert_eq!(input.output, "put");
    assert_eq!(input.default, Some(serde_json::Value::from(3)));
    assert_eq!(
        input_slot("a", &reference, Some(Err("detail".into()))),
        Err("input default must be JSON: detail".into())
    );
    assert_eq!(
        input_slot("a", "nothing", Some(Err("detail".into()))),
        Err("input reference must contain HASH.output".into())
    );
}
