use streamline::codegen::rust::RustGenerator;
use streamline::codegen::yaml::{manifest_head, manifest_tail, YamlGenerator};
use streamline::codegen::{generate_handlers, generate_manifest, resolve, Codegen, ConcreteType};
use streamline::modules::{Accessor, StreamlineError, UpdatePolicy};
use streamline::sink::{DefaultModuleResolver, ModuleResolver, ResolvedModule, SinkConfig,
    Source};

fn strs(tokens: &[&str]) -> Vec<String> {
    tokens.iter().map(|t| t.to_string()).collect()
}

fn setup() -> DefaultModuleResolver {
    let mut resolver = DefaultModuleResolver::new();
    resolver.add_mfn("map_events".to_string(), strs(&["BLOCK"]));
    resolver.add_mfn("graph_out".to_string(), strs(&["map_events"]));
    resolver
}

#[test]
fn rust_test_mfn_generation() {
    let resolver = setup();

    let generator = RustGenerator::new(resolver);

    let source = generator.generate().unwrap();

    println!("{source}");
}

#[test]
fn yaml_test_mfn_generation() {
    let resolver = setup();

    let generator = YamlGenerator::new(resolver, None);

    let source = generator.generate().unwrap();

    println!("{source}");
}

#[test]
fn source_only_registry_generates_no_stubs() {
    let generator = RustGenerator::new(DefaultModuleResolver::new());
    assert_eq!(generator.generate().unwrap(), "");
}

#[test]
fn dangling_reference_raises_not_found() {
    let mut resolver = DefaultModuleResolver::new();
    resolver.add_mfn("m".to_string(), strs(&["missing"]));
    let generator = RustGenerator::new(resolver);
    let e = generator.generate().unwrap_err();
    assert!(matches!(e, StreamlineError::NotFound(n) if n == "missing"));
}

#[test]
fn deltas_against_map_is_type_mismatch() {
    let mut resolver = DefaultModuleResolver::new();
    resolver.add_mfn("m".to_string(), strs(&["BLOCK"]));
    resolver.add_mfn("consumer".to_string(), strs(&["m:deltas"]));
    // direct resolution
    match resolver.lookup("m").unwrap() {
        ResolvedModule::Module(_) => {}
        _ => panic!("expected a module"),
    }
    let producer = match resolver.lookup("m").unwrap() {
        ResolvedModule::Module(m) => {
            let copy = streamline::modules::Module {
                name: m.name.clone(),
                inputs: Vec::new(),
                kind: m.kind,
            };
            ResolvedModule::Module(copy)
        }
        _ => unreachable!(),
    };
    assert!(resolve(&Accessor::Deltas, &producer, None).is_none());
    // and surfacing through the generator: stubs come in registry order, so
    // the bad consumer is reached after the valid map
    let generator = RustGenerator::new(resolver);
    let e = generator.generate().unwrap_err();
    assert!(matches!(e, StreamlineError::TypeMismatch(n) if n == "m"));
}

#[test]
fn default_and_get_agree_on_stores() {
    let mut resolver = DefaultModuleResolver::new();
    resolver.declare_store("total".to_string(), &strs(&["counts", "total:add"])).unwrap();
    let producer = resolver.lookup("total").unwrap();
    let by_default = resolve(&Accessor::Default, producer, None);
    let by_get = resolve(&Accessor::Get, producer, None);
    assert!(matches!(by_default, Some(ConcreteType::StoreGetBigInt)));
    assert!(matches!(by_get, Some(ConcreteType::StoreGetBigInt)));
}

#[test]
fn store_resolution_follows_policy() {
    let mut resolver = DefaultModuleResolver::new();
    // an overwrite store: reads are generic values
    resolver.declare_store("counts".to_string(), &strs(&["BLOCK", "counts:set"])).unwrap();
    // an accumulating store reading it: P6's shapes
    resolver.declare_store("total".to_string(), &strs(&["counts:get", "total:add"])).unwrap();

    let counts = resolver.lookup("counts").unwrap();
    assert!(matches!(resolve(&Accessor::Get, counts, None), Some(ConcreteType::StoreGetJson)));

    let total = resolver.lookup("total").unwrap();
    assert!(matches!(resolve(&Accessor::Store(UpdatePolicy::Add), total, None),
        Some(ConcreteType::WriterAdd)));

    // P7: deltas of the accumulating store resolve to the scalar delta type
    assert!(matches!(resolve(&Accessor::Deltas, total, None),
        Some(ConcreteType::DeltasBigInt)));
}

#[test]
fn source_resolution() {
    let src = ResolvedModule::Source(Source::eth_block());
    assert!(matches!(resolve(&Accessor::Default, &src, None), Some(ConcreteType::EthBlock)));
    assert!(resolve(&Accessor::Get, &src, None).is_none());
    assert!(resolve(&Accessor::Deltas, &src, None).is_none());
}

#[test]
fn sink_override_changes_map_resolution() {
    let mut resolver = DefaultModuleResolver::new();
    resolver.add_mfn("graph_out".to_string(), strs(&["BLOCK"]));
    let sink = SinkConfig::graph_out();
    let producer = resolver.lookup("graph_out").unwrap();
    match resolve(&Accessor::Default, producer, Some(&sink)) {
        Some(ConcreteType::SinkOutput(t)) => {
            assert_eq!(t, "substreams_entity_change::pb::entity::EntityChanges");
        }
        _ => panic!("expected the sink output type"),
    }
}

#[test]
fn handler_stub_shapes() {
    let mut resolver = DefaultModuleResolver::new();
    resolver.add_mfn("map_events".to_string(), strs(&["BLOCK"]));
    let generator = RustGenerator::new(resolver);
    let source = generator.generate().unwrap();
    assert!(source.contains("#[substreams::handlers::map]"));
    assert!(source.contains(
        "fn map_events(substreams_param_string: String, BLOCK: EthBlock) -> Option<JsonValue> {"));
    // one argument still travels as a one-element tuple
    assert!(source.contains("\"map_events\", (BLOCK,))"));
    // the raw source input needs no set-up line
    assert!(!source.contains("let BLOCK ="));
}

#[test]
fn store_stub_has_trailing_write_handle() {
    let mut resolver = DefaultModuleResolver::new();
    resolver.add_mfn("map_events".to_string(), strs(&["BLOCK"]));
    resolver.declare_store("total".to_string(), &strs(&["map_events", "total:add"])).unwrap();
    let generator = RustGenerator::new(resolver);
    let source = generator.generate().unwrap();
    assert!(source.contains("#[substreams::handlers::store]"));
    assert!(source.contains(
        "fn total(substreams_param_string: String, map_events: JsonValue,total: StoreAddBigInt)  {"));
    // store handles are shared before the call, map values turned dynamic
    assert!(source.contains("let total = Rc::new(total);"));
    assert!(source.contains("let map_events = to_dynamic(map_events).unwrap();"));
    // a store stub returns nothing and converts nothing
    let store_stub = source.split("fn total").nth(1).unwrap();
    assert!(!store_stub.contains("is_unit"));
}

#[test]
fn sink_stub_uses_override_conversion() {
    let resolver = setup();
    let generator = RustGenerator::new(resolver);
    let source = generator.generate().unwrap();
    assert!(source.contains(
        "fn graph_out(substreams_param_string: String, map_events: JsonValue) -> Option<substreams_entity_change::pb::entity::EntityChanges> {"));
    assert!(source.contains(
        "rhai::packages::streamline::graph_out::as_entity_changes(result)"));
}

#[test]
fn manifest_single_map_module_exact() {
    let mut resolver = DefaultModuleResolver::new();
    resolver.add_mfn("map_events".to_string(), strs(&["BLOCK"]));
    let generator = YamlGenerator::new(resolver, None);
    let doc = generator.generate().unwrap();
    let expected = format!(
        "{}- name: map_events\n  kind: map\n  inputs:\n  - params: string\n  - source: sf.ethereum.type.v2.Block\n  output:\n    type: proto:google.protobuf.Value\n{}",
        manifest_head(),
        manifest_tail()
    );
    assert_eq!(doc, expected);
}

#[test]
fn manifest_store_module_exact() {
    let mut resolver = DefaultModuleResolver::new();
    resolver.add_mfn("map_events".to_string(), strs(&["BLOCK"]));
    resolver.declare_store("total".to_string(), &strs(&["map_events:get", "total:add"]))
        .unwrap();
    let generator = YamlGenerator::new(resolver, None);
    let doc = generator.generate().unwrap();
    // the map's read is not a store read: no mode line; the store's own
    // trailing write handle contributes no descriptor input
    let expected_total =
        "- name: total\n  kind: store\n  inputs:\n  - params: string\n  - map: map_events\n  valueType: bigint\n  updatePolicy: add\n";
    assert!(doc.contains(expected_total));
}

#[test]
fn manifest_store_read_carries_mode() {
    let mut resolver = DefaultModuleResolver::new();
    resolver.declare_store("counts".to_string(), &strs(&["BLOCK", "counts:set"])).unwrap();
    resolver.declare_map("summary".to_string(), &strs(&["counts:deltas"])).unwrap();
    let generator = YamlGenerator::new(resolver, None);
    let doc = generator.generate().unwrap();
    assert!(doc.contains("  - store: counts\n    mode: deltas\n"));
    assert!(doc.contains("- name: counts\n  kind: store\n  inputs:\n  - params: string\n  - source: sf.ethereum.type.v2.Block\n  valueType: proto:google.protobuf.Value\n  updatePolicy: set\n"));
}

#[test]
fn manifest_start_block_line() {
    let mut resolver = DefaultModuleResolver::new();
    resolver.add_mfn("map_events".to_string(), strs(&["BLOCK"]));
    let generator = YamlGenerator::new(resolver, Some(72491700));
    let doc = generator.generate().unwrap();
    assert!(doc.contains("- name: map_events\n  kind: map\n  initialBlock: 72491700\n  inputs:"));

    let mut resolver = DefaultModuleResolver::new();
    resolver.add_mfn("map_events".to_string(), strs(&["BLOCK"]));
    let generator = YamlGenerator::new(resolver, Some(-5));
    let doc = generator.generate().unwrap();
    assert!(doc.contains("  initialBlock: -5\n"));
}

#[test]
fn manifest_sink_override_changes_output() {
    let resolver = setup();
    let generator = YamlGenerator::new(resolver, None);
    let doc = generator.generate().unwrap();
    assert!(doc.contains(
        "- name: graph_out\n  kind: map\n  inputs:\n  - params: string\n  - map: map_events\n  output:\n    type: substreams.entity.v1.EntityChanges\n"));
}

#[test]
fn declaration_api_generation_entry_points() {
    let mut resolver = DefaultModuleResolver::new();
    resolver.declare_map("map_events".to_string(), &strs(&["BLOCK"])).unwrap();
    let handlers = generate_handlers(resolver).unwrap();
    assert!(handlers.contains("fn map_events("));

    let mut resolver = DefaultModuleResolver::new();
    resolver.declare_map("map_events".to_string(), &strs(&["BLOCK"])).unwrap();
    let manifest = generate_manifest(resolver, None).unwrap();
    assert!(manifest.starts_with(manifest_head()));
    assert!(manifest.contains("- name: map_events\n"));
}

#[test]
fn manifest_dangling_reference_raises_not_found() {
    let mut resolver = DefaultModuleResolver::new();
    resolver.add_mfn("m".to_string(), strs(&["missing"]));
    let generator = YamlGenerator::new(resolver, None);
    let e = generator.generate().unwrap_err();
    assert!(matches!(e, StreamlineError::NotFound(n) if n == "missing"));
}

#[test]
fn handler_stub_exact_text() {
    let mut resolver = DefaultModuleResolver::new();
    resolver.add_mfn("map_events".to_string(), strs(&["BLOCK"]));
    let source = RustGenerator::new(resolver).generate().unwrap();
    let mut expected = String::new();
    expected.push_str("\n#[substreams::handlers::map]\n");
    expected.push_str(
        "fn map_events(substreams_param_string: String, BLOCK: EthBlock) -> Option<JsonValue> {\n");
    expected.push_str("\n");
    expected.push_str("    let (mut engine, mut scope) = engine_init!();\n");
    expected.push_str(
        "    let substreams_param_string: serde_json::Value = serde_json::from_str(&substreams_param_string).unwrap_or_default();\n");
    expected.push_str(
        "    scope.push_constant(\"PARAMS\", to_dynamic(substreams_param_string).expect(\"Couldn't convert (param string as Json) into a Dynamic Value!\"));\n");
    expected.push_str("    let ast = engine.compile(RHAI_SCRIPT).unwrap();\n");
    expected.push_str(
        "    let mut result: Dynamic = engine.call_fn(&mut scope, &ast, \"map_events\", (BLOCK,)).expect(\"Call failed\");\n");
    expected.push_str("    \nif result.is_unit() {\n");
    expected.push_str("    None\n");
    expected.push_str("} else {\n");
    expected.push_str(
        "    let result = serde_json::from_value(serde_json::to_value(&result).expect(\"Couldn't convert from Dynamic!\")).expect(\"Failed to convert output_map to json\");\n");
    expected.push_str("    Some(result)\n");
    expected.push_str("}\n");
    expected.push_str("\n}\n");
    assert_eq!(source, expected);
}
