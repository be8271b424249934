//! The handler backend: one function stub per user module, wiring the module
//! into the host execution environment with parameters typed by the resolver.

use vstd::prelude::*;
use crate::codegen::{Codegen, ConcreteType, GenFailure, gen_error_matches, resolve, resolve_spec};
use crate::modules::{Input, Kind, Module, StreamlineError};
use crate::sink::{DefaultModuleResolver, ModuleResolver, ResolvedModule, SinkConfig, find_assoc,
    user_modules_spec};
use crate::text::{join_seqs, join_strings};

verus! {

/// The generated-code name of a concrete type.
pub open spec fn ctype_rust_name(t: ConcreteType) -> Seq<char> {
    match t {
        ConcreteType::EthBlock => "EthBlock"@,
        ConcreteType::JsonValue => "JsonValue"@,
        ConcreteType::StoreGetBigInt => "StoreGetBigInt"@,
        ConcreteType::DeltasBigInt => "Deltas<DeltaBigInt>"@,
        ConcreteType::StoreGetJson => "StoreGetProto<JsonValue>"@,
        ConcreteType::DeltasJson => "Deltas<DeltaProto<JsonValue>>"@,
        ConcreteType::WriterAdd => "StoreAddBigInt"@,
        ConcreteType::WriterSet => "StoreSetProto<JsonValue>"@,
        ConcreteType::WriterSetOnce => "StoreSetIfNotExistsProto<JsonValue>"@,
        ConcreteType::SinkOutput(s) => s@,
    }
}

/// Renders the generated-code name of a concrete type.
pub fn ctype_to_rust_name(t: &ConcreteType) -> (r: String)
    ensures
        r@ == ctype_rust_name(*t),
{
    match t {
        ConcreteType::EthBlock => String::from_str("EthBlock"),
        ConcreteType::JsonValue => String::from_str("JsonValue"),
        ConcreteType::StoreGetBigInt => String::from_str("StoreGetBigInt"),
        ConcreteType::DeltasBigInt => String::from_str("Deltas<DeltaBigInt>"),
        ConcreteType::StoreGetJson => String::from_str("StoreGetProto<JsonValue>"),
        ConcreteType::DeltasJson => String::from_str("Deltas<DeltaProto<JsonValue>>"),
        ConcreteType::WriterAdd => String::from_str("StoreAddBigInt"),
        ConcreteType::WriterSet => String::from_str("StoreSetProto<JsonValue>"),
        ConcreteType::WriterSetOnce => String::from_str("StoreSetIfNotExistsProto<JsonValue>"),
        ConcreteType::SinkOutput(s) => s.clone(),
    }
}

/// The set-up line one stub parameter needs before the embedded logic runs:
/// store handles and delta sequences are shared, structured values are turned
/// dynamic, and the raw source value needs none.
pub open spec fn formatter_line(name: Seq<char>, t: ConcreteType) -> Option<Seq<char>> {
    match t {
        ConcreteType::EthBlock => None,
        ConcreteType::JsonValue | ConcreteType::SinkOutput(_) => Some(
            "let "@ + name + " = to_dynamic("@ + name + ").unwrap();"@,
        ),
        _ => Some("let "@ + name + " = Rc::new("@ + name + ");"@),
    }
}

/// One stub parameter declaration per resolved input.
pub open spec fn decl_parts(pairs: Seq<(Seq<char>, ConcreteType)>) -> Seq<Seq<char>> {
    pairs.map_values(|p: (Seq<char>, ConcreteType)| p.0 + ": "@ + ctype_rust_name(p.1))
}

/// The set-up lines of the resolved inputs, in order, skipping inputs that
/// need none.
pub open spec fn fmt_parts(pairs: Seq<(Seq<char>, ConcreteType)>) -> Seq<Seq<char>>
    decreases pairs.len(),
{
    if pairs.len() == 0 {
        Seq::empty()
    } else {
        let rest = fmt_parts(pairs.skip(1));
        match formatter_line(pairs[0].0, pairs[0].1) {
            Some(l) => seq![l] + rest,
            None => rest,
        }
    }
}

/// The names handed to the embedded logic.
pub open spec fn arg_parts(pairs: Seq<(Seq<char>, ConcreteType)>) -> Seq<Seq<char>> {
    pairs.map_values(|p: (Seq<char>, ConcreteType)| p.0)
}

/// The argument tuple body: one trailing comma keeps a single argument a
/// one-element tuple.
pub open spec fn args_text(pairs: Seq<(Seq<char>, ConcreteType)>) -> Seq<char> {
    if pairs.len() == 1 {
        join_seqs(arg_parts(pairs), ","@) + ","@
    } else {
        join_seqs(arg_parts(pairs), ","@)
    }
}

/// The result-handling tail of a stub: empty for a store, otherwise the
/// no-value check followed by the output conversion.
pub open spec fn body_text(output_type: Seq<char>, conversion: Seq<char>) -> Seq<char> {
    if output_type.len() == 0 {
        Seq::empty()
    } else {
        "\nif result.is_unit() {\n    None\n} else {\n    let result = "@ + conversion
            + ";\n    Some(result)\n}\n"@
    }
}

/// One whole function stub, assembled from its pieces.
pub open spec fn stub_text(
    name: Seq<char>,
    attribute: Seq<char>,
    output_type: Seq<char>,
    body: Seq<char>,
    pairs: Seq<(Seq<char>, ConcreteType)>,
) -> Seq<char> {
    "\n"@ + attribute + "\nfn "@ + name + "(substreams_param_string: String, "@
        + join_seqs(decl_parts(pairs), ","@) + ") "@ + output_type + " {\n"@
        + join_seqs(fmt_parts(pairs), "\n"@)
        + "\n    let (mut engine, mut scope) = engine_init!();\n    let substreams_param_string: serde_json::Value = serde_json::from_str(&substreams_param_string).unwrap_or_default();\n    scope.push_constant(\"PARAMS\", to_dynamic(substreams_param_string).expect(\"Couldn't convert (param string as Json) into a Dynamic Value!\"));\n    let ast = engine.compile(RHAI_SCRIPT).unwrap();\n    let mut result: Dynamic = engine.call_fn(&mut scope, &ast, \""@
        + name + "\", ("@ + args_text(pairs) + ")).expect(\"Call failed\");\n    "@ + body
        + "\n}\n"@
}

/// The attribute placed above a stub.
pub open spec fn stub_attribute(kind: Kind) -> Seq<char> {
    match kind {
        Kind::Mapper => "#[substreams::handlers::map]"@,
        Kind::Store => "#[substreams::handlers::store]"@,
    }
}

/// The return type of a stub: a store stub returns nothing; a map stub
/// returns an optional value of the generic type, or of the sink's type.
pub open spec fn stub_output_type(kind: Kind, sink: Option<SinkConfig>) -> Seq<char> {
    match kind {
        Kind::Store => ""@,
        Kind::Mapper => match sink {
            Some(c) => "-> Option<"@ + c.rust_name@ + ">"@,
            None => "-> Option<JsonValue>"@,
        },
    }
}

/// The conversion applied to a map stub's result: the generic structured-value
/// conversion, or the sink's override.
pub open spec fn stub_conversion(kind: Kind, sink: Option<SinkConfig>) -> Seq<char> {
    match kind {
        Kind::Store => ""@,
        Kind::Mapper => match sink {
            Some(c) => c.fully_qualified_path@,
            None =>
                "serde_json::from_value(serde_json::to_value(&result).expect(\"Couldn't convert from Dynamic!\")).expect(\"Failed to convert output_map to json\")"@,
        },
    }
}

/// The concrete type of one input: looked up in the registry, then resolved
/// against its producer with that producer's sink override.
pub open spec fn input_resolution(
    i: Input,
    entries: Seq<(String, ResolvedModule)>,
    sinks: Seq<(String, SinkConfig)>,
) -> Result<ConcreteType, GenFailure> {
    match find_assoc(entries, i.name@) {
        None => Err(GenFailure::MissingProducer(i.name@)),
        Some(p) => match resolve_spec(i.access, p, find_assoc(sinks, i.name@)) {
            Some(t) => Ok(t),
            None => Err(GenFailure::IncompatibleAccessor(i.name@)),
        },
    }
}

/// The concrete types of an input list, or its first failure.
pub open spec fn inputs_resolution(
    inputs: Seq<Input>,
    entries: Seq<(String, ResolvedModule)>,
    sinks: Seq<(String, SinkConfig)>,
) -> Result<Seq<ConcreteType>, GenFailure>
    decreases inputs.len(),
{
    if inputs.len() == 0 {
        Ok(Seq::empty())
    } else {
        match (input_resolution(inputs[0], entries, sinks),
            inputs_resolution(inputs.skip(1), entries, sinks)) {
            (Ok(t), Ok(ts)) => Ok(seq![t] + ts),
            (Err(f), _) => Err(f),
            (Ok(_), Err(f)) => Err(f),
        }
    }
}

/// Input names paired with their resolved types.
pub open spec fn input_pairs(inputs: Seq<Input>, ts: Seq<ConcreteType>) -> Seq<(Seq<char>,
    ConcreteType)> {
    Seq::new(inputs.len(), |i: int| (inputs[i].name@, ts[i]))
}

/// The stub emitted for one module, or the failure its inputs report.
pub open spec fn module_stub(
    m: Module,
    entries: Seq<(String, ResolvedModule)>,
    sinks: Seq<(String, SinkConfig)>,
) -> Result<Seq<char>, GenFailure> {
    match inputs_resolution(m.inputs@, entries, sinks) {
        Err(f) => Err(f),
        Ok(ts) => {
            let sk = find_assoc(sinks, m.name@);
            Ok(stub_text(
                m.name@,
                stub_attribute(m.kind),
                stub_output_type(m.kind, sk),
                body_text(stub_output_type(m.kind, sk), stub_conversion(m.kind, sk)),
                input_pairs(m.inputs@, ts),
            ))
        },
    }
}

/// The concatenated stubs of a module list, or the first module's failure.
pub open spec fn rust_output(
    ms: Seq<Module>,
    entries: Seq<(String, ResolvedModule)>,
    sinks: Seq<(String, SinkConfig)>,
) -> Result<Seq<char>, GenFailure>
    decreases ms.len(),
{
    if ms.len() == 0 {
        Ok(Seq::empty())
    } else {
        match (module_stub(ms[0], entries, sinks), rust_output(ms.skip(1), entries, sinks)) {
            (Ok(h), Ok(t)) => Ok(h + t),
            (Err(f), _) => Err(f),
            (Ok(_), Err(f)) => Err(f),
        }
    }
}

/// Law: a registry whose user-module list is empty — one holding only the
/// built-in source and sink overrides — generates zero function stubs.
pub proof fn lemma_no_user_modules_no_stubs(
    entries: Seq<(String, ResolvedModule)>,
    sinks: Seq<(String, SinkConfig)>,
)
    requires
        user_modules_spec(entries) == Seq::<Module>::empty(),
    ensures
        rust_output(user_modules_spec(entries), entries, sinks) == Ok::<Seq<char>, GenFailure>(
            Seq::empty()),
{
}

proof fn lemma_inputs_resolution_snoc(
    inputs: Seq<Input>,
    x: Input,
    entries: Seq<(String, ResolvedModule)>,
    sinks: Seq<(String, SinkConfig)>,
)
    ensures
        inputs_resolution(inputs.push(x), entries, sinks) == match (
            inputs_resolution(inputs, entries, sinks),
            input_resolution(x, entries, sinks),
        ) {
            (Ok(ts), Ok(t)) => Ok::<Seq<ConcreteType>, GenFailure>(ts.push(t)),
            (Err(f), _) => Err(f),
            (Ok(_), Err(f)) => Err(f),
        },
    decreases inputs.len(),
{
    if inputs.len() == 0 {
        assert(inputs.push(x)[0] == x);
        assert(inputs.push(x).skip(1) =~= Seq::<Input>::empty());
        assert(inputs_resolution(Seq::<Input>::empty(), entries, sinks)
            == Ok::<Seq<ConcreteType>, GenFailure>(Seq::empty()));
        assert(inputs_resolution(inputs.push(x).skip(1), entries, sinks)
            == Ok::<Seq<ConcreteType>, GenFailure>(Seq::empty()));
        match input_resolution(x, entries, sinks) {
            Ok(t) => {
                assert(seq![t] + Seq::<ConcreteType>::empty()
                    =~= Seq::<ConcreteType>::empty().push(t));
            }
            Err(_) => {}
        }
    } else {
        assert(inputs.push(x)[0] == inputs[0]);
        assert(inputs.push(x).skip(1) =~= inputs.skip(1).push(x));
        lemma_inputs_resolution_snoc(inputs.skip(1), x, entries, sinks);
        match (input_resolution(inputs[0], entries, sinks),
            inputs_resolution(inputs.skip(1), entries, sinks),
            input_resolution(x, entries, sinks)) {
            (Ok(h), Ok(ts), Ok(t)) => {
                assert(seq![h] + ts.push(t) =~= (seq![h] + ts).push(t));
            }
            _ => {}
        }
    }
}

/// One generated stub parameter: its name and its concrete type, both as the
/// declaration renders them.
struct RustInput {
    name: String,
    value_type: String,
    ctype: ConcreteType,
}

impl RustInput {
    /// Resolves one declared input against the registry.
    fn new(input: &Input, resolver: &DefaultModuleResolver) -> (r: Result<RustInput,
        StreamlineError>)
        requires
            resolver.inv(),
        ensures
            match r {
                Ok(ri) => input_resolution(*input, resolver.entries(), resolver.sink_entries())
                    matches Ok(t) && ri.ctype == t && ri.name@ == input.name@
                    && ri.value_type@ == ctype_rust_name(t),
                Err(e) => input_resolution(*input, resolver.entries(), resolver.sink_entries())
                    matches Err(f) && gen_error_matches(e, f),
            },
    {
        match resolver.get(input.name.as_str()) {
            None => Err(StreamlineError::NotFound(input.name.clone())),
            Some((producer, sink)) => {
                match resolve(&input.access, producer, sink) {
                    None => Err(StreamlineError::TypeMismatch(input.name.clone())),
                    Some(t) => {
                        let value_type = ctype_to_rust_name(&t);
                        Ok(RustInput { name: input.name.clone(), value_type, ctype: t })
                    }
                }
            }
        }
    }

    /// Renders the parameter declaration.
    fn generate(&self) -> (r: String)
        ensures
            r@ == self.name@ + ": "@ + self.value_type@,
    {
        let mut r = self.name.clone();
        r.append(": ");
        r.append(self.value_type.as_str());
        r
    }
}

/// The name views of generated inputs paired with their types.
spec fn pairs_of(ris: Seq<RustInput>) -> Seq<(Seq<char>, ConcreteType)> {
    ris.map_values(|ri: RustInput| (ri.name@, ri.ctype))
}

/// All the data needed to emit one function stub.
struct RustHandler {
    name: String,
    inputs: Vec<RustInput>,
    conversion: String,
    output_type: String,
    attribute: String,
}

impl RustHandler {
    /// Assembles the stub pieces for one module: the attribute and the return
    /// type follow the module's kind, and a sink override replaces the output
    /// type and the conversion.
    fn new(module: &Module, sink: Option<&SinkConfig>, inputs: Vec<RustInput>) -> (h: RustHandler)
        ensures
            h.name@ == module.name@,
            h.inputs == inputs,
            h.attribute@ == stub_attribute(module.kind),
            h.output_type@ == stub_output_type(module.kind, match sink {
                Some(c) => Some(*c),
                None => None,
            }),
            h.conversion@ == stub_conversion(module.kind, match sink {
                Some(c) => Some(*c),
                None => None,
            }),
            h.output_type@.len() == 0 <==> module.kind is Store,
    {
        proof {
            reveal_strlit("");
            reveal_strlit("#[substreams::handlers::store]");
            reveal_strlit("-> Option<JsonValue>");
            reveal_strlit("-> Option<");
        }
        match module.kind {
            Kind::Store => {
                RustHandler {
                    name: module.name.clone(),
                    inputs,
                    conversion: String::new(),
                    output_type: String::new(),
                    attribute: String::from_str("#[substreams::handlers::store]"),
                }
            }
            Kind::Mapper => {
                let conversion: String;
                let output_type: String;
                match sink {
                    Some(c) => {
                        conversion = c.fully_qualified_path.clone();
                        let mut o = String::from_str("-> Option<");
                        o.append(c.rust_name.as_str());
                        o.append(">");
                        output_type = o;
                    }
                    None => {
                        conversion = String::from_str(
                            "serde_json::from_value(serde_json::to_value(&result).expect(\"Couldn't convert from Dynamic!\")).expect(\"Failed to convert output_map to json\")",
                        );
                        output_type = String::from_str("-> Option<JsonValue>");
                    }
                }
                RustHandler {
                    name: module.name.clone(),
                    inputs,
                    conversion,
                    output_type,
                    attribute: String::from_str("#[substreams::handlers::map]"),
                }
            }
        }
    }

    /// Emits the stub: declarations, set-up lines, the fixed invocation
    /// protocol, and the result-handling tail.
    fn generate(&self) -> (r: String)
        requires
            forall|j: int| 0 <= j < self.inputs@.len()
                ==> (#[trigger] self.inputs@[j].value_type@)
                    == ctype_rust_name(self.inputs@[j].ctype),
        ensures
            r@ == stub_text(
                self.name@,
                self.attribute@,
                self.output_type@,
                body_text(self.output_type@, self.conversion@),
                pairs_of(self.inputs@),
            ),
    {
        let ghost pairs = pairs_of(self.inputs@);

        let mut decls: Vec<String> = Vec::new();
        let mut i: usize = 0;
        while i < self.inputs.len()
            invariant
                i <= self.inputs@.len(),
                forall|j: int| 0 <= j < self.inputs@.len()
                    ==> (#[trigger] self.inputs@[j].value_type@)
                        == ctype_rust_name(self.inputs@[j].ctype),
                pairs == pairs_of(self.inputs@),
                pairs.len() == self.inputs@.len(),
                decls@.len() == i,
                forall|j: int| 0 <= j < i
                    ==> (#[trigger] decls@[j]@) == decl_parts(pairs)[j],
            decreases self.inputs@.len() - i,
        {
            decls.push(self.inputs[i].generate());
            i += 1;
        }
        let decls_text = join_strings(&decls, ",");
        proof {
            assert(decls@.map_values(|v: String| v@) =~= decl_parts(pairs));
        }

        let mut fmts: Vec<String> = Vec::new();
        let mut i: usize = 0;
        while i < self.inputs.len()
            invariant
                i <= self.inputs@.len(),
                pairs == pairs_of(self.inputs@),
                pairs.len() == self.inputs@.len(),
                fmts@.map_values(|v: String| v@) == fmt_parts(pairs.take(i as int)),
            decreases self.inputs@.len() - i,
        {
            proof {
                lemma_fmt_parts_snoc(pairs.take(i as int), pairs[i as int]);
                assert(pairs.take(i + 1) =~= pairs.take(i as int).push(pairs[i as int]));
            }
            let ri = &self.inputs[i];
            match ri.ctype {
                ConcreteType::EthBlock => {}
                ConcreteType::JsonValue | ConcreteType::SinkOutput(_) => {
                    let mut l = String::from_str("let ");
                    l.append(ri.name.as_str());
                    l.append(" = to_dynamic(");
                    l.append(ri.name.as_str());
                    l.append(").unwrap();");
                    fmts.push(l);
                    proof {
                        assert(fmts@.map_values(|v: String| v@)
                            =~= fmts@.drop_last().map_values(|v: String| v@).push(fmts@.last()@));
                    }
                }
                _ => {
                    let mut l = String::from_str("let ");
                    l.append(ri.name.as_str());
                    l.append(" = Rc::new(");
                    l.append(ri.name.as_str());
                    l.append(");");
                    fmts.push(l);
                    proof {
                        assert(fmts@.map_values(|v: String| v@)
                            =~= fmts@.drop_last().map_values(|v: String| v@).push(fmts@.last()@));
                    }
                }
            }
            i += 1;
        }
        proof {
            assert(pairs.take(pairs.len() as int) =~= pairs);
        }
        let fmts_text = join_strings(&fmts, "\n");

        let mut names: Vec<String> = Vec::new();
        let mut i: usize = 0;
        while i < self.inputs.len()
            invariant
                i <= self.inputs@.len(),
                pairs == pairs_of(self.inputs@),
                pairs.len() == self.inputs@.len(),
                names@.len() == i,
                forall|j: int| 0 <= j < i ==> (#[trigger] names@[j]@) == arg_parts(pairs)[j],
            decreases self.inputs@.len() - i,
        {
            names.push(self.inputs[i].name.clone());
            i += 1;
        }
        let mut args = join_strings(&names, ",");
        proof {
            assert(names@.map_values(|v: String| v@) =~= arg_parts(pairs));
        }
        if self.inputs.len() == 1 {
            args.append(",");
        }

        let body: String;
        if self.output_type.as_str().is_empty() {
            body = String::new();
        } else {
            let mut b = String::from_str("\nif result.is_unit() {\n    None\n} else {\n    let result = ");
            b.append(self.conversion.as_str());
            b.append(";\n    Some(result)\n}\n");
            body = b;
        }

        let mut out = String::from_str("\n");
        out.append(self.attribute.as_str());
        out.append("\nfn ");
        out.append(self.name.as_str());
        out.append("(substreams_param_string: String, ");
        out.append(decls_text.as_str());
        out.append(") ");
        out.append(self.output_type.as_str());
        out.append(" {\n");
        out.append(fmts_text.as_str());
        out.append("\n    let (mut engine, mut scope) = engine_init!();\n    let substreams_param_string: serde_json::Value = serde_json::from_str(&substreams_param_string).unwrap_or_default();\n    scope.push_constant(\"PARAMS\", to_dynamic(substreams_param_string).expect(\"Couldn't convert (param string as Json) into a Dynamic Value!\"));\n    let ast = engine.compile(RHAI_SCRIPT).unwrap();\n    let mut result: Dynamic = engine.call_fn(&mut scope, &ast, \"");
        out.append(self.name.as_str());
        out.append("\", (");
        out.append(args.as_str());
        out.append(")).expect(\"Call failed\");\n    ");
        out.append(body.as_str());
        out.append("\n}\n");
        proof {
            assert(out@ =~= stub_text(
                self.name@,
                self.attribute@,
                self.output_type@,
                body_text(self.output_type@, self.conversion@),
                pairs,
            ));
        }
        out
    }
}

proof fn lemma_fmt_parts_snoc(pairs: Seq<(Seq<char>, ConcreteType)>, p: (Seq<char>, ConcreteType))
    ensures
        fmt_parts(pairs.push(p)) == match formatter_line(p.0, p.1) {
            Some(l) => fmt_parts(pairs).push(l),
            None => fmt_parts(pairs),
        },
    decreases pairs.len(),
{
    if pairs.len() == 0 {
        assert(pairs.push(p)[0] == p);
        assert(pairs.push(p).skip(1) =~= Seq::<(Seq<char>, ConcreteType)>::empty());
        assert(fmt_parts(Seq::<(Seq<char>, ConcreteType)>::empty()) == Seq::<Seq<char>>::empty());
        assert(fmt_parts(pairs.push(p).skip(1)) == Seq::<Seq<char>>::empty());
        match formatter_line(p.0, p.1) {
            Some(l) => {
                assert(fmt_parts(pairs.push(p)) == seq![l] + Seq::<Seq<char>>::empty());
                assert(seq![l] + Seq::<Seq<char>>::empty() =~= Seq::<Seq<char>>::empty().push(l));
            }
            None => {
                assert(fmt_parts(pairs.push(p)) == Seq::<Seq<char>>::empty());
            }
        }
    } else {
        assert(pairs.push(p)[0] == pairs[0]);
        assert(pairs.push(p).skip(1) =~= pairs.skip(1).push(p));
        lemma_fmt_parts_snoc(pairs.skip(1), p);
        let rest = fmt_parts(pairs.skip(1));
        match formatter_line(pairs[0].0, pairs[0].1) {
            Some(h) => {
                assert(fmt_parts(pairs) == seq![h] + rest);
                match formatter_line(p.0, p.1) {
                    Some(l) => {
                        assert(fmt_parts(pairs.push(p)) == seq![h] + rest.push(l));
                        assert(seq![h] + rest.push(l) =~= (seq![h] + rest).push(l));
                    }
                    None => {
                        assert(fmt_parts(pairs.push(p)) == seq![h] + rest);
                    }
                }
            }
            None => {
                assert(fmt_parts(pairs) == rest);
                match formatter_line(p.0, p.1) {
                    Some(l) => {
                        assert(fmt_parts(pairs.push(p)) == rest.push(l));
                    }
                    None => {
                        assert(fmt_parts(pairs.push(p)) == rest);
                    }
                }
            }
        }
    }
}

/// Resolves every input of a module, in declared order.
fn resolve_inputs(m: &Module, resolver: &DefaultModuleResolver) -> (r: Result<Vec<RustInput>,
    StreamlineError>)
    requires
        resolver.inv(),
    ensures
        match r {
            Ok(ris) => inputs_resolution(m.inputs@, resolver.entries(), resolver.sink_entries())
                matches Ok(ts) && ris@.len() == m.inputs@.len() && ts.len() == m.inputs@.len()
                && (forall|j: int| 0 <= j < ris@.len()
                    ==> (#[trigger] ris@[j].name@) == m.inputs@[j].name@
                        && ris@[j].ctype == ts[j]
                        && ris@[j].value_type@ == ctype_rust_name(ts[j])),
            Err(e) => inputs_resolution(m.inputs@, resolver.entries(), resolver.sink_entries())
                matches Err(f) && gen_error_matches(e, f),
        },
{
    let ghost entries = resolver.entries();
    let ghost sinks = resolver.sink_entries();
    let mut ris: Vec<RustInput> = Vec::new();
    let ghost mut ts: Seq<ConcreteType> = Seq::empty();
    let mut i: usize = 0;
    proof {
        assert(m.inputs@.take(0) =~= Seq::<Input>::empty());
    }
    while i < m.inputs.len()
        invariant
            resolver.inv(),
            entries == resolver.entries(),
            sinks == resolver.sink_entries(),
            i <= m.inputs@.len(),
            ris@.len() == i,
            ts.len() == i,
            inputs_resolution(m.inputs@.take(i as int), entries, sinks) == Ok::<Seq<ConcreteType>,
                GenFailure>(ts),
            forall|j: int| 0 <= j < i
                ==> (#[trigger] ris@[j].name@) == m.inputs@[j].name@
                    && ris@[j].ctype == ts[j]
                    && ris@[j].value_type@ == ctype_rust_name(ts[j]),
        decreases m.inputs@.len() - i,
    {
        proof {
            lemma_inputs_resolution_snoc(m.inputs@.take(i as int), m.inputs@[i as int], entries,
                sinks);
            assert(m.inputs@.take(i + 1)
                =~= m.inputs@.take(i as int).push(m.inputs@[i as int]));
        }
        match RustInput::new(&m.inputs[i], resolver) {
            Ok(ri) => {
                proof {
                    ts = ts.push(ri.ctype);
                }
                ris.push(ri);
            }
            Err(e) => {
                proof {
                    lemma_inputs_resolution_bad(m.inputs@, i as int, entries, sinks);
                }
                return Err(e);
            }
        }
        i += 1;
    }
    proof {
        assert(m.inputs@.take(m.inputs@.len() as int) =~= m.inputs@);
    }
    Ok(ris)
}

proof fn lemma_inputs_resolution_bad(
    inputs: Seq<Input>,
    i: int,
    entries: Seq<(String, ResolvedModule)>,
    sinks: Seq<(String, SinkConfig)>,
)
    requires
        0 <= i < inputs.len(),
        input_resolution(inputs[i], entries, sinks) is Err,
        inputs_resolution(inputs.take(i), entries, sinks) is Ok,
    ensures
        inputs_resolution(inputs, entries, sinks)
            == Result::<Seq<ConcreteType>, GenFailure>::Err(
            input_resolution(inputs[i], entries, sinks)->Err_0),
    decreases i,
{
    if i == 0 {
    } else {
        assert(inputs.take(i)[0] == inputs[0]);
        assert(inputs.take(i).skip(1) =~= inputs.skip(1).take(i - 1));
        assert(input_resolution(inputs[0], entries, sinks) is Ok);
        assert(inputs_resolution(inputs.skip(1).take(i - 1), entries, sinks) is Ok);
        assert(forall|j: int| 0 <= j < inputs.skip(1).len() ==> inputs.skip(1)[j] == inputs[j + 1]);
        lemma_inputs_resolution_bad(inputs.skip(1), i - 1, entries, sinks);
    }
}

/// The handler backend over a registry snapshot.
pub struct RustGenerator(pub DefaultModuleResolver);

impl RustGenerator {
    /// Creates a new handler generator over the registry snapshot.
    pub fn new(resolver: DefaultModuleResolver) -> (r: RustGenerator)
        requires
            resolver.inv(),
        ensures
            r.wf(),
            r.0 == resolver,
    {
        RustGenerator(resolver)
    }
}

/// Emits the stub for one module.
fn generate_module_stub(m: &Module, resolver: &DefaultModuleResolver) -> (r: Result<String,
    StreamlineError>)
    requires
        resolver.inv(),
    ensures
        match r {
            Ok(s) => module_stub(*m, resolver.entries(), resolver.sink_entries())
                matches Ok(t) && s@ == t,
            Err(e) => module_stub(*m, resolver.entries(), resolver.sink_entries())
                matches Err(f) && gen_error_matches(e, f),
        },
{
    let ghost entries = resolver.entries();
    let ghost sinks = resolver.sink_entries();
    match resolve_inputs(m, resolver) {
        Err(e) => Err(e),
        Ok(ris) => {
            let ghost ts = inputs_resolution(m.inputs@, entries, sinks)->Ok_0;
            let sink = resolver.get_sink(m.name.as_str());
            let h = RustHandler::new(m, sink, ris);
            proof {
                assert forall|j: int| 0 <= j < h.inputs@.len()
                    implies (#[trigger] h.inputs@[j].value_type@)
                        == ctype_rust_name(h.inputs@[j].ctype) by {
                    assert(h.inputs@[j].name@ == m.inputs@[j].name@);
                };
            }
            let s = h.generate();
            proof {
                assert(pairs_of(h.inputs@) =~= input_pairs(m.inputs@, ts));
            }
            Ok(s)
        }
    }
}

impl Codegen for RustGenerator {
    open spec fn wf(&self) -> bool {
        self.0.inv()
    }

    open spec fn output_spec(&self) -> Result<Seq<char>, GenFailure> {
        match rust_output(user_modules_spec(self.0.entries()), self.0.entries(),
            self.0.sink_entries()) {
            Ok(t) => Ok(t),
            Err(f) => Err(f),
        }
    }

    /// Emits one stub per user module, in registry order.
    fn generate(&self) -> (r: Result<String, StreamlineError>) {
        let ghost entries = self.0.entries();
        let ghost sinks = self.0.sink_entries();
        let modules = self.0.get_user_modules();
        let ghost ms = user_modules_spec(entries);
        let mut output = String::new();
        let mut i: usize = 0;
        proof {
            assert(ms.skip(0) =~= ms);
            if rust_output(ms, entries, sinks) is Ok {
                let t = rust_output(ms, entries, sinks)->Ok_0;
                assert(output@ + t =~= t);
            }
        }
        while i < modules.len()
            invariant
                self.0.inv(),
                entries == self.0.entries(),
                sinks == self.0.sink_entries(),
                ms == user_modules_spec(entries),
                modules@.map_values(|m: &Module| *m) == ms,
                i <= ms.len(),
                rust_output(ms, entries, sinks) == match rust_output(ms.skip(i as int), entries,
                    sinks) {
                    Ok(t) => Ok::<Seq<char>, GenFailure>(output@ + t),
                    Err(f) => Err(f),
                },
            decreases ms.len() - i,
        {
            proof {
                assert(ms.skip(i as int)[0] == ms[i as int]);
                assert(ms.skip(i as int).skip(1) =~= ms.skip(i + 1));
                assert(modules@[i as int] == modules@.map_values(|m: &Module| *m)[i as int]);
            }
            match generate_module_stub(modules[i], &self.0) {
                Ok(s) => {
                    let ghost old_out = output@;
                    output.append(s.as_str());
                    proof {
                        if rust_output(ms.skip(i + 1), entries, sinks) is Ok {
                            let t = rust_output(ms.skip(i + 1), entries, sinks)->Ok_0;
                            assert(rust_output(ms.skip(i as int), entries, sinks)
                                == Ok::<Seq<char>, GenFailure>(s@ + t));
                            assert(old_out + (s@ + t) =~= (old_out + s@) + t);
                        }
                    }
                }
                Err(e) => {
                    return Err(e);
                }
            }
            i += 1;
        }
        proof {
            assert(ms.skip(ms.len() as int) =~= Seq::<Module>::empty());
            assert(rust_output(Seq::<Module>::empty(), entries, sinks)
                == Ok::<Seq<char>, GenFailure>(Seq::empty()));
            assert(output@ + Seq::<char>::empty() =~= output@);
        }
        Ok(output)
    }
}

} // verus!
