use streamline::codegen::parse::parse_manifest_modules;
use streamline::codegen::yaml::{manifest_head, manifest_tail, YamlGenerator, YamlInput,
    YamlModule};
use streamline::codegen::Codegen;
use streamline::module_types::{AccessMode, ModuleData, ModuleInput, ModuleKind, UpdatePolicy,
    INITIAL_BLOCK};
use streamline::sink::{DefaultModuleResolver, ModuleResolver};

fn strs(tokens: &[&str]) -> Vec<String> {
    tokens.iter().map(|t| t.to_string()).collect()
}

/// Generates the manifest and cuts out the substituted region.
fn manifest_region(resolver: DefaultModuleResolver, start_block: Option<i64>) -> String {
    let doc = YamlGenerator::new(resolver, start_block).generate().unwrap();
    let region = doc.strip_prefix(manifest_head()).expect("head missing");
    let region = region.strip_suffix(manifest_tail()).expect("tail missing");
    region.to_string()
}

#[test]
fn round_trip_declared_modules() {
    let mut resolver = DefaultModuleResolver::new();
    resolver.add_mfn("map_events".to_string(), strs(&["BLOCK"]));
    resolver.declare_store("counts".to_string(), &strs(&["map_events", "counts:set"])).unwrap();
    resolver.declare_store("total".to_string(), &strs(&["counts:get", "total:add"])).unwrap();
    resolver.declare_map("summary".to_string(), &strs(&["total:deltas"])).unwrap();

    let region = manifest_region(resolver, None);
    let parsed = parse_manifest_modules(&region).expect("region should parse");

    assert_eq!(parsed.len(), 4);

    assert_eq!(parsed[0].name, "map_events");
    assert_eq!(parsed[0].kind, "map");
    assert_eq!(parsed[0].update_policy, None);
    assert_eq!(parsed[0].output, "proto:google.protobuf.Value");
    assert_eq!(parsed[0].inputs.len(), 1);
    assert_eq!(parsed[0].inputs[0].kind, "source");
    assert_eq!(parsed[0].inputs[0].name, "sf.ethereum.type.v2.Block");
    assert_eq!(parsed[0].inputs[0].mode, None);

    assert_eq!(parsed[1].name, "counts");
    assert_eq!(parsed[1].kind, "store");
    assert_eq!(parsed[1].update_policy.as_deref(), Some("set"));
    assert_eq!(parsed[1].output, "proto:google.protobuf.Value");
    assert_eq!(parsed[1].inputs.len(), 1);
    assert_eq!(parsed[1].inputs[0].kind, "map");
    assert_eq!(parsed[1].inputs[0].name, "map_events");

    assert_eq!(parsed[2].name, "total");
    assert_eq!(parsed[2].kind, "store");
    assert_eq!(parsed[2].update_policy.as_deref(), Some("add"));
    assert_eq!(parsed[2].output, "bigint");
    assert_eq!(parsed[2].inputs.len(), 1);
    assert_eq!(parsed[2].inputs[0].kind, "store");
    assert_eq!(parsed[2].inputs[0].name, "counts");
    assert_eq!(parsed[2].inputs[0].mode.as_deref(), Some("get"));

    assert_eq!(parsed[3].name, "summary");
    assert_eq!(parsed[3].kind, "map");
    assert_eq!(parsed[3].inputs[0].kind, "store");
    assert_eq!(parsed[3].inputs[0].name, "total");
    assert_eq!(parsed[3].inputs[0].mode.as_deref(), Some("deltas"));
}

#[test]
fn round_trip_with_start_block() {
    let mut resolver = DefaultModuleResolver::new();
    resolver.add_mfn("map_events".to_string(), strs(&["BLOCK"]));
    let region = manifest_region(resolver, Some(123));
    let parsed = parse_manifest_modules(&region).expect("region should parse");
    assert_eq!(parsed.len(), 1);
    assert_eq!(parsed[0].name, "map_events");
}

#[test]
fn round_trip_empty_registry() {
    let region = manifest_region(DefaultModuleResolver::new(), None);
    assert_eq!(region, "");
    let parsed = parse_manifest_modules(&region).unwrap();
    assert!(parsed.is_empty());
}

#[test]
fn parse_rejects_garbage() {
    assert!(parse_manifest_modules("not a module block\n").is_none());
}

#[test]
fn generated_manifest_is_valid_yaml() {
    let mut resolver = DefaultModuleResolver::new();
    resolver.add_mfn("map_events".to_string(), strs(&["BLOCK"]));
    resolver.declare_store("total".to_string(), &strs(&["map_events:get", "total:add"]))
        .unwrap();
    let doc = YamlGenerator::new(resolver, Some(7)).generate().unwrap();
    let value: serde_yaml::Value = serde_yaml::from_str(&doc).expect("manifest should be YAML");
    let modules = value.get("modules").expect("modules key");
    let list = modules.as_sequence().expect("modules should be a list");
    assert_eq!(list.len(), 2);
    assert_eq!(list[0].get("name").unwrap().as_str(), Some("map_events"));
    assert_eq!(list[0].get("initialBlock").unwrap().as_i64(), Some(7));
    assert_eq!(list[1].get("name").unwrap().as_str(), Some("total"));
    assert_eq!(list[1].get("updatePolicy").unwrap().as_str(), Some("add"));
    assert_eq!(list[1].get("valueType").unwrap().as_str(), Some("bigint"));
    let inputs = list[1].get("inputs").unwrap().as_sequence().unwrap();
    assert_eq!(inputs[0].get("params").unwrap().as_str(), Some("string"));
    assert_eq!(inputs[1].get("map").unwrap().as_str(), Some("map_events"));
}

#[test]
fn module_data_mfn_defaults() {
    let d = ModuleData::new_mfn("m".to_string(), vec![ModuleInput::eth_block()]);
    assert_eq!(d.name(), "m");
    assert_eq!(d.handler(), "m");
    assert!(!d.is_sink);
    assert_eq!(*d.kind(), ModuleKind::Mapper);
    assert_eq!(d.initial_block, Some(INITIAL_BLOCK));
    assert_eq!(d.inputs().len(), 1);
    assert!(d.store_kind().is_none());
}

#[test]
fn module_data_sfn_value_types() {
    let d = ModuleData::new_sfn("s".to_string(), vec![], UpdatePolicy::Add);
    assert_eq!(d.value_type.as_deref(), Some("bigint"));
    assert_eq!(d.store_kind(), Some("StoreAddBigInt"));

    let d = ModuleData::new_sfn("s".to_string(), vec![], UpdatePolicy::SetValue);
    assert_eq!(d.value_type.as_deref(), Some("proto:google.protobuf.Value"));
    assert_eq!(d.store_kind(), Some("StoreSetProto<JsonValue>"));

    let d = ModuleData::new_sfn("s".to_string(), vec![], UpdatePolicy::SetIfNotExists);
    assert_eq!(d.store_kind(), Some("StoreSetIfNotExistsProto<JsonValue>"));
}

#[test]
fn module_data_sink_carries_both_names() {
    let d = ModuleData::new_sink(
        "handler".to_string(),
        vec![],
        "substreams.entity.v1.EntityChanges".to_string(),
        "graph_out".to_string(),
    );
    assert_eq!(d.name(), "graph_out");
    assert_eq!(d.handler(), "handler");
    assert!(d.is_sink);
}

#[test]
fn module_data_set_output_normalizes_marker() {
    let mut d = ModuleData::new_mfn("m".to_string(), vec![]);
    d.set_output("proto:my.Type");
    assert_eq!(d.output.as_ref().unwrap().wire_type(), "proto:my.Type");
    d.set_output("my.Type");
    assert_eq!(d.output.as_ref().unwrap().wire_type(), "proto:my.Type");
    d.set_output("proto:proto:my.Type");
    assert_eq!(d.output.as_ref().unwrap().wire_type(), "proto:my.Type");
}

#[test]
fn module_input_name_tokens() {
    assert_eq!(ModuleInput::map("m".to_string()).name(), "m");
    assert_eq!(
        ModuleInput::store("s".to_string(), AccessMode::Deltas, "bigint".to_string()).name(),
        "s");
    assert_eq!(ModuleInput::eth_block().name(), "block");
}

#[test]
fn module_data_eth_block_source() {
    let d = ModuleData::eth_block();
    assert_eq!(d.name(), "block");
    assert_eq!(*d.kind(), ModuleKind::Source);
    assert_eq!(d.initial_block, None);
    assert_eq!(d.output.as_ref().unwrap().wire_type(), "sf.ethereum.type.v2.Block");
}

#[test]
fn yaml_module_renders_block() {
    let module = YamlModule {
        name: "totals".to_string(),
        kind: "store".to_string(),
        inputs: vec![YamlInput {
            name: "counts".to_string(),
            kind: "store".to_string(),
            mode: Some("deltas".to_string()),
        }],
        update_policy: Some("add".to_string()),
        output: "bigint".to_string(),
    };
    let block = module.to_yaml(Some(42));
    assert_eq!(
        block,
        "- name: totals\n  kind: store\n  initialBlock: 42\n  inputs:\n  - params: string\n  - store: counts\n    mode: deltas\n  valueType: bigint\n  updatePolicy: add\n"
    );
}
