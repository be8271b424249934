use streamline::modules::{parse_input, Accessor, Kind, Module, StreamlineError, UpdatePolicy};
use streamline::sink::{DefaultModuleResolver, ModuleResolver, ResolvedModule};

fn strs(tokens: &[&str]) -> Vec<String> {
    tokens.iter().map(|t| t.to_string()).collect()
}

#[test]
fn parse_input_suffixes() {
    let i = parse_input("counts:get").unwrap();
    assert_eq!(i.name, "counts");
    assert_eq!(i.access, Accessor::Get);

    let i = parse_input("total:deltas").unwrap();
    assert_eq!(i.name, "total");
    assert_eq!(i.access, Accessor::Deltas);

    let i = parse_input("total:add").unwrap();
    assert_eq!(i.name, "total");
    assert_eq!(i.access, Accessor::Store(UpdatePolicy::Add));

    let i = parse_input("cfg:set").unwrap();
    assert_eq!(i.name, "cfg");
    assert_eq!(i.access, Accessor::Store(UpdatePolicy::SetValue));

    let i = parse_input("cfg:setOnce").unwrap();
    assert_eq!(i.name, "cfg");
    assert_eq!(i.access, Accessor::Store(UpdatePolicy::SetOnce));

    let i = parse_input("BLOCK").unwrap();
    assert_eq!(i.name, "BLOCK");
    assert_eq!(i.access, Accessor::Default);
}

#[test]
fn parse_input_malformed_suffix() {
    let e = parse_input("foo:bogus").unwrap_err();
    assert!(matches!(e, StreamlineError::MalformedSuffix(t) if t == "foo:bogus"));
}

#[test]
fn parse_input_longest_suffix_wins() {
    // the prefix keeps any earlier colon; only the accessor suffix is removed
    let i = parse_input("a:b:get").unwrap();
    assert_eq!(i.name, "a:b");
    assert_eq!(i.access, Accessor::Get);
}

#[test]
fn module_new_parses_all_tokens() {
    let m = Module::new("summary".to_string(), &strs(&["total:deltas", "BLOCK"]),
        Kind::Mapper).unwrap();
    assert_eq!(m.name, "summary");
    assert_eq!(m.kind, Kind::Mapper);
    assert_eq!(m.inputs.len(), 2);
    assert_eq!(m.inputs[0].name, "total");
    assert_eq!(m.inputs[0].access, Accessor::Deltas);
    assert_eq!(m.inputs[1].name, "BLOCK");
    assert_eq!(m.inputs[1].access, Accessor::Default);
}

#[test]
fn module_update_policy_and_output_type() {
    let m = Module::new("total".to_string(), &strs(&["counts:get", "total:add"]),
        Kind::Store).unwrap();
    assert_eq!(m.update_policy(), Some(UpdatePolicy::Add));
    assert_eq!(m.output_type(), "bigint");

    let m = Module::new("cfg".to_string(), &strs(&["m", "cfg:set"]), Kind::Store).unwrap();
    assert_eq!(m.update_policy(), Some(UpdatePolicy::SetValue));
    assert_eq!(m.output_type(), "proto:google.protobuf.Value");

    let m = Module::new("m".to_string(), &strs(&["BLOCK"]), Kind::Mapper).unwrap();
    assert_eq!(m.update_policy(), None);
    assert_eq!(m.output_type(), "proto:google.protobuf.Value");
}

#[test]
fn module_input_names() {
    let m = Module::new("total".to_string(), &strs(&["counts:get", "total:add"]),
        Kind::Store).unwrap();
    let names = m.input_names();
    assert_eq!(names, vec!["counts", "total"]);
}

#[test]
fn update_policy_proto_tokens() {
    assert_eq!(UpdatePolicy::Add.to_proto_string(), "add");
    assert_eq!(UpdatePolicy::SetValue.to_proto_string(), "set");
    assert_eq!(UpdatePolicy::SetOnce.to_proto_string(), "set_if_not_exists");
}

#[test]
fn declare_then_lookup_matches_declaration() {
    let mut r = DefaultModuleResolver::new();
    r.declare_map("map_events".to_string(), &strs(&["BLOCK"])).unwrap();
    match r.lookup("map_events") {
        Some(ResolvedModule::Module(m)) => {
            assert_eq!(m.name, "map_events");
            assert_eq!(m.kind, Kind::Mapper);
            assert_eq!(m.inputs.len(), 1);
        }
        _ => panic!("expected a module entry"),
    }

    r.declare_store("total".to_string(), &strs(&["counts:get", "total:add"])).unwrap();
    match r.lookup("total") {
        Some(ResolvedModule::Module(m)) => {
            assert_eq!(m.name, "total");
            assert_eq!(m.kind, Kind::Store);
            assert_eq!(m.inputs.len(), 2);
            assert_eq!(m.update_policy(), Some(UpdatePolicy::Add));
        }
        _ => panic!("expected a module entry"),
    }
}

#[test]
fn declare_store_total_example() {
    let mut r = DefaultModuleResolver::new();
    r.declare_store("total".to_string(), &strs(&["counts:get", "total:add"])).unwrap();
    match r.lookup("total") {
        Some(ResolvedModule::Module(m)) => {
            assert_eq!(m.kind, Kind::Store);
            assert_eq!(m.update_policy(), Some(UpdatePolicy::Add));
            // the consumed inputs are every token except the trailing handle
            assert_eq!(m.inputs[0].name, "counts");
            assert_eq!(m.inputs[0].access, Accessor::Get);
            assert_eq!(m.inputs[1].name, "total");
            assert_eq!(m.inputs[1].access, Accessor::Store(UpdatePolicy::Add));
        }
        _ => panic!("expected a module entry"),
    }
}

#[test]
fn declare_store_policy_missing() {
    let mut r = DefaultModuleResolver::new();
    let e = r.declare_store("s".to_string(), &strs(&["a"])).unwrap_err();
    assert!(matches!(e, StreamlineError::PolicyMissing(n) if n == "s"));
    assert!(r.lookup("s").is_none());
}

#[test]
fn declare_map_malformed_token_leaves_registry_unchanged() {
    let mut r = DefaultModuleResolver::new();
    let e = r.declare_map("m".to_string(), &strs(&["a", "b:nope"])).unwrap_err();
    assert!(matches!(e, StreamlineError::MalformedSuffix(_)));
    assert!(r.lookup("m").is_none());
}

#[test]
fn redefinition_last_write_wins() {
    let mut r = DefaultModuleResolver::new();
    r.declare_map("m".to_string(), &strs(&["BLOCK"])).unwrap();
    r.declare_store("m".to_string(), &strs(&["x:get", "m:set"])).unwrap();
    match r.lookup("m") {
        Some(ResolvedModule::Module(m)) => {
            assert_eq!(m.kind, Kind::Store);
            assert_eq!(m.inputs.len(), 2);
        }
        _ => panic!("expected a module entry"),
    }
    // still a single user module
    assert_eq!(r.get_user_modules().len(), 1);
    assert_eq!(r.list_user_modules().len(), 1);
}

#[test]
fn set_module_once_keeps_existing() {
    let mut r = DefaultModuleResolver::new();
    r.add_mfn("m".to_string(), strs(&["BLOCK"]));
    let replacement = Module::new("m".to_string(), &strs(&[]), Kind::Store).unwrap();
    r.set_module_once("m".to_string(), ResolvedModule::Module(replacement));
    match r.lookup("m") {
        Some(ResolvedModule::Module(m)) => assert_eq!(m.kind, Kind::Mapper),
        _ => panic!("expected a module entry"),
    }
}

#[test]
fn builtin_source_is_registered() {
    let r = DefaultModuleResolver::new();
    match r.lookup("BLOCK") {
        Some(ResolvedModule::Source(s)) => {
            assert_eq!(s.protobuf_name, "sf.ethereum.type.v2.Block");
            assert_eq!(s.rust_name, "EthBlock");
        }
        _ => panic!("expected the built-in source"),
    }
    assert!(r.get_user_modules().is_empty());
}

#[test]
fn get_returns_sink_override() {
    let mut r = DefaultModuleResolver::new();
    r.add_mfn("graph_out".to_string(), strs(&["BLOCK"]));
    let (entry, sink) = r.get("graph_out").unwrap();
    assert!(matches!(entry, ResolvedModule::Module(_)));
    let sink = sink.unwrap();
    assert_eq!(sink.protobuf_name, "substreams.entity.v1.EntityChanges");
    assert_eq!(sink.rust_name, "substreams_entity_change::pb::entity::EntityChanges");

    let (_, no_sink) = r.get("BLOCK").unwrap();
    assert!(no_sink.is_none());
}

#[test]
fn add_mfn_drops_malformed_tokens() {
    let mut r = DefaultModuleResolver::new();
    r.add_mfn("m".to_string(), strs(&["BLOCK", "x:bogus"]));
    match r.lookup("m") {
        Some(ResolvedModule::Module(m)) => {
            assert_eq!(m.inputs.len(), 1);
            assert_eq!(m.inputs[0].name, "BLOCK");
        }
        _ => panic!("expected a module entry"),
    }
}

#[test]
fn decimal_rendering_edges() {
    assert_eq!(streamline::text::u64_to_dec(0), "0");
    assert_eq!(streamline::text::u64_to_dec(10), "10");
    assert_eq!(streamline::text::u64_to_dec(72491700), "72491700");
    assert_eq!(streamline::text::i64_to_dec(-1), "-1");
    assert_eq!(streamline::text::i64_to_dec(i64::MIN), "-9223372036854775808");
    assert_eq!(streamline::text::i64_to_dec(i64::MAX), "9223372036854775807");
}

#[test]
fn string_utility_edges() {
    assert!(streamline::text::str_eq("", ""));
    assert!(!streamline::text::str_eq("a", "b"));
    assert!(streamline::text::str_ends_with("foo:get", ":get"));
    assert!(!streamline::text::str_ends_with(":ge", ":get"));
    assert!(streamline::text::str_contains_char("a:b", ':'));
    assert!(!streamline::text::str_contains_char("ab", ':'));
}
