//! Target-specific slice decoding and the desired digest.

use connector_supabase::context::AnonAccess;
use connector_supabase::context::ApiContext;
use connector_supabase::context::ComponentContext;
use connector_supabase::context::TargetContext;
use connector_supabase::context::API_VERSION;
use connector_supabase::slice::DesiredSlice;
use connector_supabase::slice::SliceComponent;
use connector_supabase::slice::TargetSlice;
use connector_supabase::slice::UpstreamOutput;

fn context(resource_id: &str, schema: &str) -> ComponentContext {
    ComponentContext {
        api_version: API_VERSION.into(),
        resource_id: resource_id.into(),
        target: TargetContext {
            stack: "local".into(),
            project: "henosis-local".into(),
            database: "postgres".into(),
            schema: schema.into(),
        },
        migrations: Vec::new(),
        api: ApiContext {
            expose: false,
            anon_access: AnonAccess::NoAccess,
        },
    }
}

fn component(hash: u8, name: &str, resource_id: &str, schema: &str) -> SliceComponent {
    SliceComponent {
        spec_hash: [hash; 32],
        name: name.into(),
        context: Ok(context(resource_id, schema)),
    }
}

fn output(hash: u8, values: &[u8]) -> UpstreamOutput {
    UpstreamOutput {
        component_spec_hash: [hash; 32],
        values_json: values.to_vec(),
    }
}

fn slice() -> TargetSlice {
    TargetSlice {
        graph_id: [3; 16],
        generation: 4,
        sequence: 9,
        components: vec![
            component(8, "orders", "orders", "orders"),
            component(7, "catalog", "catalog", "catalog"),
        ],
        upstream_outputs: vec![output(2, b"{}"), output(1, b"{\"a\":1}")],
    }
}

fn refusal(slice: &TargetSlice) -> String {
    DesiredSlice::decode(slice).unwrap_err().message
}

#[test]
fn components_and_outputs_are_ordered_by_hash() {
    let desired = DesiredSlice::decode(&slice()).unwrap();
    assert_eq!(desired.graph_id, [3; 16]);
    assert_eq!(desired.generation, 4);
    assert_eq!(desired.sequence, 9);
    let names: Vec<&str> = desired
        .components
        .iter()
        .map(|pin| pin.name.as_str())
        .collect();
    assert_eq!(names, vec!["catalog", "orders"]);
    let hashes: Vec<u8> = desired
        .upstream_outputs
        .iter()
        .map(|output| output.component_spec_hash[0])
        .collect();
    assert_eq!(hashes, vec![1, 2]);
    let mut reversed = slice();
    reversed.components.reverse();
    reversed.upstream_outputs.reverse();
    assert_eq!(DesiredSlice::decode(&reversed).unwrap(), desired);
}

#[test]
fn an_empty_slice_is_accepted() {
    let empty = TargetSlice {
        components: Vec::new(),
        upstream_outputs: Vec::new(),
        ..slice()
    };
    let desired = DesiredSlice::decode(&empty).unwrap();
    assert!(desired.components.is_empty());
    assert!(desired.upstream_outputs.is_empty());
}

#[test]
fn a_slice_is_refused_for_its_first_bad_component() {
    let mut value = slice();
    value.components[1].context = Err("expected value at line 1 column 1".into());
    assert_eq!(
        refusal(&value),
        "component \"catalog\": invalid henosis.dev/supabase-component-context/v1 JSON: expected \
         value at line 1 column 1"
    );
    value.components[0].context = Ok(context("Orders", "orders"));
    assert_eq!(
        refusal(&value),
        "component \"orders\": invalid henosis.dev/supabase-component-context/v1: resourceId \
         must match [a-z][a-z0-9_-]{0,62}"
    );
    let mut value = slice();
    value.components[1].name = "orders".into();
    assert_eq!(refusal(&value), "component name \"orders\" is duplicated");
    let mut value = slice();
    value.components[1].context = Ok(context("orders", "catalog"));
    assert_eq!(refusal(&value), "resourceId \"orders\" is duplicated");
    let mut value = slice();
    value.components[1].context = Ok(context("catalog", "orders"));
    assert_eq!(refusal(&value), "target schema \"orders\" is duplicated");
    let mut value = slice();
    value.components[1].spec_hash = [8; 32];
    assert_eq!(refusal(&value), "component hash is duplicated");
    let mut value = slice();
    value.upstream_outputs.push(output(2, b"[]"));
    assert_eq!(refusal(&value), "upstream output hash is duplicated");
}

#[test]
fn the_desired_digest_covers_every_input_in_order() {
    let desired = DesiredSlice::decode(&slice()).unwrap();
    let mut bytes = b"henosis.dev/supabase-desired/v1\0".to_vec();
    bytes.extend([3; 16]);
    bytes.extend([0, 0, 0, 0, 0, 0, 0, 4]);
    bytes.extend([7; 32]);
    bytes.extend([8; 32]);
    bytes.extend([1; 32]);
    bytes.extend([0, 0, 0, 0, 0, 0, 0, 7]);
    bytes.extend(b"{\"a\":1}");
    bytes.extend([2; 32]);
    bytes.extend([0, 0, 0, 0, 0, 0, 0, 2]);
    bytes.extend(b"{}");
    assert_eq!(desired.desired_digest(), *blake3::hash(&bytes).as_bytes());
}

#[test]
fn the_desired_digest_leaves_the_sequence_out() {
    let first = DesiredSlice::decode(&slice()).unwrap();
    let mut later = slice();
    later.sequence = 10;
    let later = DesiredSlice::decode(&later).unwrap();
    assert_eq!(first.desired_digest(), later.desired_digest());
    let mut next = slice();
    next.generation = 5;
    let next = DesiredSlice::decode(&next).unwrap();
    assert_ne!(first.desired_digest(), next.desired_digest());
}

#[test]
fn the_desired_digest_tells_levels_apart() {
    let known = DesiredSlice::decode(&slice()).unwrap().desired_digest();
    let changes: Vec<fn(&mut TargetSlice)> = vec![
        |level| level.graph_id[15] = 4,
        |level| level.generation = 260,
        |level| level.components[0].spec_hash[31] = 9,
        |level| level.upstream_outputs[0].component_spec_hash[0] = 3,
        |level| level.upstream_outputs[1].values_json = b"{\"a\":2}".to_vec(),
        |level| level.upstream_outputs[0].values_json = b"{ }".to_vec(),
        |level| level.upstream_outputs.clear(),
    ];
    for change in changes {
        let mut level = slice();
        change(&mut level);
        let level = DesiredSlice::decode(&level).unwrap();
        assert_ne!(level.desired_digest(), known);
    }
}
