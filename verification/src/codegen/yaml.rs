//! The manifest backend: a structured descriptor per user module, rendered
//! line by line and substituted into the fixed document template.
//!
//! Descriptors are modeled by view tuples: an input is
//! `(name, role, mode)` and a module is
//! `(name, kind, inputs, update policy, output)`.

use vstd::prelude::*;
use crate::codegen::{Codegen, GenFailure, gen_error_matches};
use crate::modules::{Accessor, Input, Kind, Module, StreamlineError};
use crate::sink::{DefaultModuleResolver, ModuleResolver, ResolvedModule, SinkConfig, find_assoc,
    user_modules_spec};
use crate::text::{dec_digits_signed, i64_to_dec};

verus! {

/// The view of a descriptor input: producer name, role token, optional mode.
pub type InputView = (Seq<char>, Seq<char>, Option<Seq<char>>);

/// The view of a module descriptor: name, kind token, inputs, optional update
/// policy token, and the output (or value) wire type.
pub type ModuleView = (Seq<char>, Seq<char>, Seq<InputView>, Option<Seq<char>>, Seq<char>);

/// A representation of a module input, for the manifest output.
pub struct YamlInput {
    pub name: String,
    pub kind: String,
    pub mode: Option<String>,
}

/// A representation of a module, for the manifest output.
pub struct YamlModule {
    pub name: String,
    pub kind: String,
    pub inputs: Vec<YamlInput>,
    pub update_policy: Option<String>,
    pub output: String,
}

/// The view of a built input descriptor.
pub open spec fn yi_view(y: YamlInput) -> InputView {
    (y.name@, y.kind@, match y.mode {
        Some(m) => Some(m@),
        None => None,
    })
}

/// The view of a built module descriptor.
pub open spec fn ym_view(y: YamlModule) -> ModuleView {
    (y.name@, y.kind@, y.inputs@.map_values(|i: YamlInput| yi_view(i)), match y.update_policy {
        Some(p) => Some(p@),
        None => None,
    }, y.output@)
}

/// The rendered lines of one input: its role line, and a mode line when the
/// input carries a mode.
pub open spec fn input_lines(iv: InputView) -> Seq<Seq<char>> {
    match iv.2 {
        Some(m) => seq!["  - "@ + iv.1 + ": "@ + iv.0, "    mode: "@ + m],
        None => seq!["  - "@ + iv.1 + ": "@ + iv.0],
    }
}

/// The rendered lines of an input list, in order.
pub open spec fn inputs_lines(ivs: Seq<InputView>) -> Seq<Seq<char>>
    decreases ivs.len(),
{
    if ivs.len() == 0 {
        Seq::empty()
    } else {
        input_lines(ivs[0]) + inputs_lines(ivs.skip(1))
    }
}

/// The trailing lines of a module: value type and policy for a store, the
/// output block for a map.
pub open spec fn module_tail_lines(mv: ModuleView) -> Seq<Seq<char>> {
    match mv.3 {
        Some(p) => seq!["  valueType: "@ + mv.4, "  updatePolicy: "@ + p],
        None => seq!["  output:"@, "    type: "@ + mv.4],
    }
}

/// The rendered lines of one module descriptor: name and kind, the optional
/// initial block, the input list prefixed with the synthetic runtime-parameter
/// input, and the output or policy tail.
pub open spec fn module_lines(mv: ModuleView, start_block: Option<i64>) -> Seq<Seq<char>> {
    seq!["- name: "@ + mv.0, "  kind: "@ + mv.1]
        + (match start_block {
            Some(n) => seq!["  initialBlock: "@ + dec_digits_signed(n as int)],
            None => Seq::empty(),
        })
        + seq!["  inputs:"@, "  - params: string"@]
        + inputs_lines(mv.2)
        + module_tail_lines(mv)
}

/// The rendered lines of a module list.
pub open spec fn modules_lines(mvs: Seq<ModuleView>, start_block: Option<i64>) -> Seq<Seq<char>>
    decreases mvs.len(),
{
    if mvs.len() == 0 {
        Seq::empty()
    } else {
        module_lines(mvs[0], start_block) + modules_lines(mvs.skip(1), start_block)
    }
}

/// Lines joined into text, each line terminated by a newline.
pub open spec fn lines_text(lines: Seq<Seq<char>>) -> Seq<char>
    decreases lines.len(),
{
    if lines.len() == 0 {
        Seq::empty()
    } else {
        lines[0] + seq!['\n'] + lines_text(lines.skip(1))
    }
}

pub proof fn lemma_lines_text_snoc(lines: Seq<Seq<char>>, l: Seq<char>)
    ensures
        lines_text(lines.push(l)) == lines_text(lines) + l + seq!['\n'],
    decreases lines.len(),
{
    if lines.len() == 0 {
        assert(lines.push(l)[0] == l);
        assert(lines.push(l).skip(1) =~= Seq::<Seq<char>>::empty());
        assert(lines_text(Seq::<Seq<char>>::empty()) == Seq::<char>::empty());
        assert(lines_text(lines.push(l).skip(1)) == Seq::<char>::empty());
        assert(lines_text(lines) == Seq::<char>::empty());
        assert(l + seq!['\n'] + Seq::<char>::empty() =~= Seq::<char>::empty() + l + seq!['\n']);
    } else {
        assert(lines.push(l)[0] == lines[0]);
        assert(lines.push(l).skip(1) =~= lines.skip(1).push(l));
        lemma_lines_text_snoc(lines.skip(1), l);
        assert(lines[0] + seq!['\n'] + (lines_text(lines.skip(1)) + l + seq!['\n'])
            =~= (lines[0] + seq!['\n'] + lines_text(lines.skip(1))) + l + seq!['\n']);
    }
}

pub proof fn lemma_inputs_lines_snoc(ivs: Seq<InputView>, iv: InputView)
    ensures
        inputs_lines(ivs.push(iv)) == inputs_lines(ivs) + input_lines(iv),
    decreases ivs.len(),
{
    if ivs.len() == 0 {
        assert(ivs.push(iv)[0] == iv);
        assert(ivs.push(iv).skip(1) =~= Seq::<InputView>::empty());
        assert(inputs_lines(Seq::<InputView>::empty()) == Seq::<Seq<char>>::empty());
        assert(inputs_lines(ivs.push(iv).skip(1)) == Seq::<Seq<char>>::empty());
        assert(input_lines(iv) + Seq::<Seq<char>>::empty() =~= input_lines(iv));
        assert(inputs_lines(ivs) + input_lines(iv) =~= input_lines(iv));
    } else {
        assert(ivs.push(iv)[0] == ivs[0]);
        assert(ivs.push(iv).skip(1) =~= ivs.skip(1).push(iv));
        lemma_inputs_lines_snoc(ivs.skip(1), iv);
        assert(input_lines(ivs[0]) + (inputs_lines(ivs.skip(1)) + input_lines(iv))
            =~= (input_lines(ivs[0]) + inputs_lines(ivs.skip(1))) + input_lines(iv));
    }
}

pub proof fn lemma_modules_lines_snoc(mvs: Seq<ModuleView>, mv: ModuleView, sb: Option<i64>)
    ensures
        modules_lines(mvs.push(mv), sb) == modules_lines(mvs, sb) + module_lines(mv, sb),
    decreases mvs.len(),
{
    if mvs.len() == 0 {
        assert(mvs.push(mv)[0] == mv);
        assert(mvs.push(mv).skip(1) =~= Seq::<ModuleView>::empty());
        assert(modules_lines(Seq::<ModuleView>::empty(), sb) == Seq::<Seq<char>>::empty());
        assert(modules_lines(mvs.push(mv).skip(1), sb) == Seq::<Seq<char>>::empty());
        assert(module_lines(mv, sb) + Seq::<Seq<char>>::empty() =~= module_lines(mv, sb));
        assert(modules_lines(mvs, sb) + module_lines(mv, sb) =~= module_lines(mv, sb));
    } else {
        assert(mvs.push(mv)[0] == mvs[0]);
        assert(mvs.push(mv).skip(1) =~= mvs.skip(1).push(mv));
        lemma_modules_lines_snoc(mvs.skip(1), mv, sb);
        assert(module_lines(mvs[0], sb) + (modules_lines(mvs.skip(1), sb) + module_lines(mv, sb))
            =~= (module_lines(mvs[0], sb) + modules_lines(mvs.skip(1), sb)) + module_lines(mv,
            sb));
    }
}

/// Renders a list of lines, terminating each with a newline.
fn render_lines(lines: &Vec<String>) -> (r: String)
    ensures
        r@ == lines_text(lines@.map_values(|l: String| l@)),
{
    let ghost views = lines@.map_values(|l: String| l@);
    let mut r = String::new();
    let mut i: usize = 0;
    proof {
        assert(views.take(0) =~= Seq::<Seq<char>>::empty());
    }
    while i < lines.len()
        invariant
            i <= lines.len(),
            views == lines@.map_values(|l: String| l@),
            views.len() == lines.len(),
            r@ == lines_text(views.take(i as int)),
        decreases lines.len() - i,
    {
        proof {
            lemma_lines_text_snoc(views.take(i as int), views[i as int]);
            assert(views.take(i + 1) =~= views.take(i as int).push(views[i as int]));
            reveal_strlit("\n");
            assert("\n"@ =~= seq!['\n']);
        }
        r.append(lines[i].as_str());
        r.append("\n");
        i += 1;
    }
    proof {
        assert(views.take(lines.len() as int) =~= views);
    }
    r
}

/// The descriptor input built for one declared input: skipped for a write
/// handle, the producer's name and role otherwise, with a read mode when the
/// producer is a store.
pub open spec fn yaml_input_of(i: Input, entries: Seq<(String, ResolvedModule)>) -> Result<
    Option<InputView>, GenFailure> {
    match i.access {
        Accessor::Store(_) => Ok(None),
        _ => match find_assoc(entries, i.name@) {
            None => Err(GenFailure::MissingProducer(i.name@)),
            Some(ResolvedModule::Module(m)) => Ok(Some((m.name@, m.kind.kind_string_spec(),
                if m.kind is Store {
                    if i.access is Deltas {
                        Some("deltas"@)
                    } else {
                        Some("get"@)
                    }
                } else {
                    None
                }))),
            Some(ResolvedModule::Source(s)) => Ok(Some((s.protobuf_name@, "source"@, None))),
            Some(ResolvedModule::SinkConfig(_)) => Err(GenFailure::IncompatibleAccessor(i.name@)),
        },
    }
}

/// The descriptor inputs of an input list, or its first failure.
pub open spec fn yaml_inputs_of(inputs: Seq<Input>, entries: Seq<(String, ResolvedModule)>)
    -> Result<Seq<InputView>, GenFailure>
    decreases inputs.len(),
{
    if inputs.len() == 0 {
        Ok(Seq::empty())
    } else {
        match (yaml_input_of(inputs[0], entries), yaml_inputs_of(inputs.skip(1), entries)) {
            (Ok(Some(iv)), Ok(rest)) => Ok(seq![iv] + rest),
            (Ok(None), Ok(rest)) => Ok(rest),
            (Err(f), _) => Err(f),
            (Ok(_), Err(f)) => Err(f),
        }
    }
}

/// The descriptor of one module: its kind token, its consumed inputs, its
/// policy token when it is a store, and its output type, replaced by the sink
/// override's wire type when one is registered under the module's name.
pub open spec fn yaml_module_of(
    m: Module,
    entries: Seq<(String, ResolvedModule)>,
    sinks: Seq<(String, SinkConfig)>,
) -> Result<ModuleView, GenFailure> {
    match yaml_inputs_of(m.inputs@, entries) {
        Err(f) => Err(f),
        Ok(ivs) => Ok((m.name@, m.kind.kind_string_spec(), ivs, match m.update_policy_spec() {
            Some(p) => Some(p.proto_string_spec()),
            None => None,
        }, match find_assoc(sinks, m.name@) {
            Some(c) => c.protobuf_name@,
            None => m.output_type_spec(),
        })),
    }
}

/// The descriptors of a module list, or the first module's failure.
pub open spec fn yaml_modules_of(
    ms: Seq<Module>,
    entries: Seq<(String, ResolvedModule)>,
    sinks: Seq<(String, SinkConfig)>,
) -> Result<Seq<ModuleView>, GenFailure>
    decreases ms.len(),
{
    if ms.len() == 0 {
        Ok(Seq::empty())
    } else {
        match (yaml_module_of(ms[0], entries, sinks), yaml_modules_of(ms.skip(1), entries,
            sinks)) {
            (Ok(mv), Ok(rest)) => Ok(seq![mv] + rest),
            (Err(f), _) => Err(f),
            (Ok(_), Err(f)) => Err(f),
        }
    }
}

/// Everything of the manifest document that precedes the module descriptors.
pub open spec fn manifest_head_text() -> Seq<char> {
    "\nspecVersion: v0.1.0\npackage:\n  name: streamline_template_repo\n  version: v0.1.0\n\nimports:\n  sql: https://github.com/streamingfast/substreams-sink-sql/releases/download/protodefs-v1.0.2/substreams-sink-sql-protodefs-v1.0.2.spkg\n  database_change: https://github.com/streamingfast/substreams-sink-database-changes/releases/download/v1.2.1/substreams-database-change-v1.2.1.spkg\n  entity: https://github.com/streamingfast/substreams-entity-change/releases/download/v0.2.1/substreams-entity-change-v0.2.1.spkg\n\nprotobuf:\n  files:\n   - struct.proto\n  importPaths:\n    - ./proto\n\nnetwork: mainnet\n\nbinaries:\n  default:\n    type: wasm/rust-v1\n    file: ./target/wasm32-unknown-unknown/release/streamline.wasm\n\nmodules:\n"@
}

/// Everything of the manifest document that follows the module descriptors.
pub open spec fn manifest_tail_text() -> Seq<char> {
    "\n"@
}

/// Returns the fixed document text that precedes the substituted region.
pub fn manifest_head() -> (r: &'static str)
    ensures
        r@ == manifest_head_text(),
{
    "\nspecVersion: v0.1.0\npackage:\n  name: streamline_template_repo\n  version: v0.1.0\n\nimports:\n  sql: https://github.com/streamingfast/substreams-sink-sql/releases/download/protodefs-v1.0.2/substreams-sink-sql-protodefs-v1.0.2.spkg\n  database_change: https://github.com/streamingfast/substreams-sink-database-changes/releases/download/v1.2.1/substreams-database-change-v1.2.1.spkg\n  entity: https://github.com/streamingfast/substreams-entity-change/releases/download/v0.2.1/substreams-entity-change-v0.2.1.spkg\n\nprotobuf:\n  files:\n   - struct.proto\n  importPaths:\n    - ./proto\n\nnetwork: mainnet\n\nbinaries:\n  default:\n    type: wasm/rust-v1\n    file: ./target/wasm32-unknown-unknown/release/streamline.wasm\n\nmodules:\n"
}

/// Returns the fixed document text that follows the substituted region.
pub fn manifest_tail() -> (r: &'static str)
    ensures
        r@ == manifest_tail_text(),
{
    "\n"
}

impl YamlInput {
    /// Builds the descriptor input for one declared input, or reports that
    /// the input is a write handle and contributes none.
    pub fn new(input: &Input, resolver: &DefaultModuleResolver) -> (r: Result<Option<YamlInput>,
        StreamlineError>)
        requires
            resolver.inv(),
        ensures
            match r {
                Ok(Some(y)) => yaml_input_of(*input, resolver.entries()) == Ok::<Option<InputView>,
                    GenFailure>(Some(yi_view(y))),
                Ok(None) => yaml_input_of(*input, resolver.entries()) == Ok::<Option<InputView>,
                    GenFailure>(None),
                Err(e) => yaml_input_of(*input, resolver.entries()) matches Err(f)
                    && gen_error_matches(e, f),
            },
    {
        match input.access {
            Accessor::Store(_) => {
                return Ok(None);
            }
            _ => {}
        }
        match resolver.get(input.name.as_str()) {
            None => Err(StreamlineError::NotFound(input.name.clone())),
            Some((producer, _)) => match producer {
                ResolvedModule::Module(m) => {
                    let mode: Option<String> = match m.kind {
                        Kind::Store => match input.access {
                            Accessor::Deltas => Some(String::from_str("deltas")),
                            _ => Some(String::from_str("get")),
                        },
                        Kind::Mapper => None,
                    };
                    Ok(Some(YamlInput {
                        name: m.name.clone(),
                        kind: m.kind.to_kind_string(),
                        mode,
                    }))
                }
                ResolvedModule::Source(s) => Ok(Some(YamlInput {
                    name: s.protobuf_name.clone(),
                    kind: String::from_str("source"),
                    mode: None,
                })),
                ResolvedModule::SinkConfig(_) => Err(StreamlineError::TypeMismatch(
                    input.name.clone(),
                )),
            },
        }
    }

    /// Renders this input's descriptor lines.
    pub fn to_yaml(&self, lines: &mut Vec<String>)
        ensures
            final(lines)@.map_values(|l: String| l@)
                == old(lines)@.map_values(|l: String| l@) + input_lines(yi_view(*self)),
    {
        let mut role = String::from_str("  - ");
        role.append(self.kind.as_str());
        role.append(": ");
        role.append(self.name.as_str());
        lines.push(role);
        match &self.mode {
            Some(m) => {
                let mut mode_line = String::from_str("    mode: ");
                mode_line.append(m.as_str());
                lines.push(mode_line);
                proof {
                    assert(lines@.map_values(|l: String| l@)
                        =~= old(lines)@.map_values(|l: String| l@) + input_lines(yi_view(*self)));
                }
            }
            None => {
                proof {
                    assert(lines@.map_values(|l: String| l@)
                        =~= old(lines)@.map_values(|l: String| l@) + input_lines(yi_view(*self)));
                }
            }
        }
    }
}

impl YamlModule {
    /// Builds the descriptor for one module: the kind token, the policy token
    /// for a store, and the output type, sink-overridden when applicable.
    pub fn new(module: &Module, sink: Option<&SinkConfig>, inputs: Vec<YamlInput>) -> (y:
        YamlModule)
        ensures
            y.name@ == module.name@,
            y.kind@ == module.kind.kind_string_spec(),
            y.inputs == inputs,
            (match y.update_policy {
                Some(p) => module.update_policy_spec() matches Some(up)
                    && p@ == up.proto_string_spec(),
                None => module.update_policy_spec() is None,
            }),
            y.output@ == (match sink {
                Some(c) => c.protobuf_name@,
                None => module.output_type_spec(),
            }),
    {
        let update_policy = match module.update_policy() {
            Some(p) => Some(p.to_proto_string()),
            None => None,
        };
        let output = match sink {
            Some(c) => c.protobuf_name.clone(),
            None => module.output_type(),
        };
        YamlModule {
            name: module.name.clone(),
            kind: module.kind.to_kind_string(),
            inputs,
            update_policy,
            output,
        }
    }

    /// Renders this module's descriptor block, one line per key.
    pub fn to_yaml(&self, start_block: Option<i64>) -> (r: String)
        ensures
            r@ == lines_text(module_lines(ym_view(*self), start_block)),
    {
        let ghost mv = ym_view(*self);
        let mut lines: Vec<String> = Vec::new();

        let mut name_line = String::from_str("- name: ");
        name_line.append(self.name.as_str());
        lines.push(name_line);

        let mut kind_line = String::from_str("  kind: ");
        kind_line.append(self.kind.as_str());
        lines.push(kind_line);

        match start_block {
            Some(n) => {
                let mut ib_line = String::from_str("  initialBlock: ");
                let digits = i64_to_dec(n);
                ib_line.append(digits.as_str());
                lines.push(ib_line);
            }
            None => {}
        }

        lines.push(String::from_str("  inputs:"));
        lines.push(String::from_str("  - params: string"));

        let ghost prefix = lines@.map_values(|l: String| l@);
        proof {
            match start_block {
                Some(n) => {
                    assert(prefix =~= seq!["- name: "@ + mv.0, "  kind: "@ + mv.1,
                        "  initialBlock: "@ + dec_digits_signed(n as int), "  inputs:"@,
                        "  - params: string"@]);
                }
                None => {
                    assert(prefix =~= seq!["- name: "@ + mv.0, "  kind: "@ + mv.1, "  inputs:"@,
                        "  - params: string"@]);
                }
            }
        }
        let ghost ivs = mv.2;
        let mut i: usize = 0;
        proof {
            assert(inputs_lines(ivs.take(0)) == Seq::<Seq<char>>::empty());
            assert(prefix + Seq::<Seq<char>>::empty() =~= prefix);
        }
        while i < self.inputs.len()
            invariant
                i <= self.inputs@.len(),
                ivs == ym_view(*self).2,
                ivs.len() == self.inputs@.len(),
                forall|j: int| 0 <= j < ivs.len() ==> ivs[j] == yi_view(#[trigger] self.inputs@[j]),
                lines@.map_values(|l: String| l@) == prefix + inputs_lines(ivs.take(i as int)),
            decreases self.inputs@.len() - i,
        {
            proof {
                lemma_inputs_lines_snoc(ivs.take(i as int), ivs[i as int]);
                assert(ivs.take(i + 1) =~= ivs.take(i as int).push(ivs[i as int]));
            }
            let ghost before = lines@.map_values(|l: String| l@);
            self.inputs[i].to_yaml(&mut lines);
            proof {
                assert(prefix + inputs_lines(ivs.take(i as int)) + input_lines(ivs[i as int])
                    =~= prefix + inputs_lines(ivs.take(i + 1)));
            }
            i += 1;
        }
        proof {
            assert(ivs.take(self.inputs@.len() as int) =~= ivs);
        }
        let ghost mid = lines@.map_values(|l: String| l@);
        proof {
            assert(mid == prefix + inputs_lines(ivs));
        }

        match &self.update_policy {
            Some(p) => {
                let mut vt_line = String::from_str("  valueType: ");
                vt_line.append(self.output.as_str());
                let ghost a = vt_line@;
                lines.push(vt_line);
                proof {
                    assert(lines@.map_values(|l: String| l@) =~= mid.push(a));
                }
                let ghost m1 = lines@.map_values(|l: String| l@);
                let mut up_line = String::from_str("  updatePolicy: ");
                up_line.append(p.as_str());
                let ghost b = up_line@;
                lines.push(up_line);
                proof {
                    assert(lines@.map_values(|l: String| l@) =~= m1.push(b));
                    assert(a == "  valueType: "@ + mv.4);
                    assert(b == "  updatePolicy: "@ + mv.3->Some_0);
                    assert(mid.push(a).push(b) =~= mid + module_tail_lines(mv));
                }
            }
            None => {
                lines.push(String::from_str("  output:"));
                proof {
                    assert(lines@.map_values(|l: String| l@) =~= mid.push("  output:"@));
                }
                let ghost m1 = lines@.map_values(|l: String| l@);
                let mut ty_line = String::from_str("    type: ");
                ty_line.append(self.output.as_str());
                let ghost b = ty_line@;
                lines.push(ty_line);
                proof {
                    assert(lines@.map_values(|l: String| l@) =~= m1.push(b));
                    assert(b == "    type: "@ + mv.4);
                    assert(mid.push("  output:"@).push(b) =~= mid + module_tail_lines(mv));
                }
            }
        }
        proof {
            assert(lines@.map_values(|l: String| l@) =~= mid + module_tail_lines(mv));
            assert(mid + module_tail_lines(mv) =~= prefix + inputs_lines(ivs)
                + module_tail_lines(mv));
            assert(lines@.map_values(|l: String| l@) =~= module_lines(mv, start_block));
        }
        render_lines(&lines)
    }
}

/// The manifest backend over a registry snapshot and an optional start block.
pub struct YamlGenerator(pub DefaultModuleResolver, pub Option<i64>);

impl YamlGenerator {
    /// Creates a new manifest generator over the registry snapshot.
    pub fn new(resolver: DefaultModuleResolver, start_block: Option<i64>) -> (r: YamlGenerator)
        requires
            resolver.inv(),
        ensures
            r.wf(),
            r.0 == resolver,
            r.1 == start_block,
    {
        YamlGenerator(resolver, start_block)
    }
}

/// Builds the descriptor inputs of one module, in order, skipping write
/// handles.
fn build_yaml_inputs(m: &Module, resolver: &DefaultModuleResolver) -> (r: Result<Vec<YamlInput>,
    StreamlineError>)
    requires
        resolver.inv(),
    ensures
        match r {
            Ok(ys) => yaml_inputs_of(m.inputs@, resolver.entries()) == Ok::<Seq<InputView>,
                GenFailure>(ys@.map_values(|y: YamlInput| yi_view(y))),
            Err(e) => yaml_inputs_of(m.inputs@, resolver.entries()) matches Err(f)
                && gen_error_matches(e, f),
        },
{
    let ghost entries = resolver.entries();
    let mut ys: Vec<YamlInput> = Vec::new();
    let mut i: usize = 0;
    proof {
        assert(m.inputs@.take(0) =~= Seq::<Input>::empty());
        assert(yaml_inputs_of(Seq::<Input>::empty(), entries) == Ok::<Seq<InputView>, GenFailure>(
            Seq::empty()));
        assert(ys@.map_values(|y: YamlInput| yi_view(y)) =~= Seq::<InputView>::empty());
    }
    while i < m.inputs.len()
        invariant
            resolver.inv(),
            entries == resolver.entries(),
            i <= m.inputs@.len(),
            yaml_inputs_of(m.inputs@.take(i as int), entries) == Ok::<Seq<InputView>, GenFailure>(
                ys@.map_values(|y: YamlInput| yi_view(y))),
        decreases m.inputs@.len() - i,
    {
        proof {
            lemma_yaml_inputs_snoc(m.inputs@.take(i as int), m.inputs@[i as int], entries);
            assert(m.inputs@.take(i + 1) =~= m.inputs@.take(i as int).push(m.inputs@[i as int]));
        }
        match YamlInput::new(&m.inputs[i], resolver) {
            Ok(Some(y)) => {
                let ghost old_map = ys@.map_values(|y: YamlInput| yi_view(y));
                let ghost yv = yi_view(y);
                ys.push(y);
                proof {
                    assert(ys@.map_values(|y: YamlInput| yi_view(y)) =~= old_map.push(yv));
                }
            }
            Ok(None) => {}
            Err(e) => {
                proof {
                    lemma_yaml_inputs_bad(m.inputs@, i as int, entries);
                }
                return Err(e);
            }
        }
        i += 1;
    }
    proof {
        assert(m.inputs@.take(m.inputs@.len() as int) =~= m.inputs@);
    }
    Ok(ys)
}

proof fn lemma_yaml_inputs_snoc(inputs: Seq<Input>, x: Input, entries: Seq<(String,
    ResolvedModule)>)
    ensures
        yaml_inputs_of(inputs.push(x), entries) == match (yaml_inputs_of(inputs, entries),
            yaml_input_of(x, entries)) {
            (Ok(ivs), Ok(Some(iv))) => Ok::<Seq<InputView>, GenFailure>(ivs.push(iv)),
            (Ok(ivs), Ok(None)) => Ok(ivs),
            (Err(f), _) => Err(f),
            (Ok(_), Err(f)) => Err(f),
        },
    decreases inputs.len(),
{
    if inputs.len() == 0 {
        assert(inputs.push(x)[0] == x);
        assert(inputs.push(x).skip(1) =~= Seq::<Input>::empty());
        assert(yaml_inputs_of(Seq::<Input>::empty(), entries) == Ok::<Seq<InputView>, GenFailure>(
            Seq::empty()));
        assert(yaml_inputs_of(inputs.push(x).skip(1), entries) == Ok::<Seq<InputView>, GenFailure>(
            Seq::empty()));
        match yaml_input_of(x, entries) {
            Ok(Some(iv)) => {
                assert(seq![iv] + Seq::<InputView>::empty() =~= Seq::<InputView>::empty().push(
                    iv));
            }
            _ => {}
        }
    } else {
        assert(inputs.push(x)[0] == inputs[0]);
        assert(inputs.push(x).skip(1) =~= inputs.skip(1).push(x));
        lemma_yaml_inputs_snoc(inputs.skip(1), x, entries);
        match (yaml_input_of(inputs[0], entries), yaml_inputs_of(inputs.skip(1), entries),
            yaml_input_of(x, entries)) {
            (Ok(Some(h)), Ok(rest), Ok(Some(iv))) => {
                assert(seq![h] + rest.push(iv) =~= (seq![h] + rest).push(iv));
            }
            _ => {}
        }
    }
}

proof fn lemma_yaml_inputs_bad(inputs: Seq<Input>, i: int, entries: Seq<(String, ResolvedModule)>)
    requires
        0 <= i < inputs.len(),
        yaml_input_of(inputs[i], entries) is Err,
        yaml_inputs_of(inputs.take(i), entries) is Ok,
    ensures
        yaml_inputs_of(inputs, entries) == Result::<Seq<InputView>, GenFailure>::Err(
            yaml_input_of(inputs[i], entries)->Err_0),
    decreases i,
{
    if i == 0 {
    } else {
        assert(inputs.take(i)[0] == inputs[0]);
        assert(inputs.take(i).skip(1) =~= inputs.skip(1).take(i - 1));
        assert(yaml_input_of(inputs[0], entries) is Ok);
        assert(yaml_inputs_of(inputs.skip(1).take(i - 1), entries) is Ok);
        assert(forall|j: int| 0 <= j < inputs.skip(1).len() ==> inputs.skip(1)[j] == inputs[j + 1]);
        lemma_yaml_inputs_bad(inputs.skip(1), i - 1, entries);
    }
}

/// Builds the descriptor for one module.
fn build_yaml_module(m: &Module, resolver: &DefaultModuleResolver) -> (r: Result<YamlModule,
    StreamlineError>)
    requires
        resolver.inv(),
    ensures
        match r {
            Ok(y) => yaml_module_of(*m, resolver.entries(), resolver.sink_entries())
                == Ok::<ModuleView, GenFailure>(ym_view(y)),
            Err(e) => yaml_module_of(*m, resolver.entries(), resolver.sink_entries())
                matches Err(f) && gen_error_matches(e, f),
        },
{
    match build_yaml_inputs(m, resolver) {
        Err(e) => Err(e),
        Ok(ys) => {
            let sink = resolver.get_sink(m.name.as_str());
            let y = YamlModule::new(m, sink, ys);
            Ok(y)
        }
    }
}

impl Codegen for YamlGenerator {
    open spec fn wf(&self) -> bool {
        self.0.inv()
    }

    open spec fn output_spec(&self) -> Result<Seq<char>, GenFailure> {
        match yaml_modules_of(user_modules_spec(self.0.entries()), self.0.entries(),
            self.0.sink_entries()) {
            Ok(mvs) => Ok(manifest_head_text() + lines_text(modules_lines(mvs, self.1))
                + manifest_tail_text()),
            Err(f) => Err(f),
        }
    }

    /// Emits the deployment manifest: one descriptor per user module, in
    /// registry order, substituted into the fixed document template.
    fn generate(&self) -> (r: Result<String, StreamlineError>) {
        let ghost entries = self.0.entries();
        let ghost sinks = self.0.sink_entries();
        let modules = self.0.get_user_modules();
        let ghost ms = user_modules_spec(entries);
        let mut region = String::new();
        let ghost mut mvs_done: Seq<ModuleView> = Seq::empty();
        let mut i: usize = 0;
        proof {
            assert(modules_lines(Seq::<ModuleView>::empty(), self.1) == Seq::<Seq<char>>::empty());
            assert(lines_text(Seq::<Seq<char>>::empty()) == Seq::<char>::empty());
            assert(ms.skip(0) =~= ms);
        }
        while i < modules.len()
            invariant
                self.0.inv(),
                entries == self.0.entries(),
                sinks == self.0.sink_entries(),
                ms == user_modules_spec(entries),
                modules@.map_values(|m: &Module| *m) == ms,
                i <= ms.len(),
                yaml_modules_of(ms.take(i as int), entries, sinks) == Ok::<Seq<ModuleView>,
                    GenFailure>(mvs_done),
                region@ == lines_text(modules_lines(mvs_done, self.1)),
            decreases ms.len() - i,
        {
            proof {
                lemma_yaml_modules_snoc(ms.take(i as int), ms[i as int], entries, sinks);
                assert(ms.take(i + 1) =~= ms.take(i as int).push(ms[i as int]));
                assert(modules@[i as int] == modules@.map_values(|m: &Module| *m)[i as int]);
            }
            match build_yaml_module(modules[i], &self.0) {
                Ok(y) => {
                    let block = y.to_yaml(self.1);
                    let ghost old_region = region@;
                    region.append(block.as_str());
                    proof {
                        lemma_modules_lines_snoc(mvs_done, ym_view(y), self.1);
                        lemma_lines_text_app(modules_lines(mvs_done, self.1),
                            module_lines(ym_view(y), self.1));
                        mvs_done = mvs_done.push(ym_view(y));
                    }
                }
                Err(e) => {
                    proof {
                        lemma_yaml_modules_bad(ms, i as int, entries, sinks);
                    }
                    return Err(e);
                }
            }
            i += 1;
        }
        proof {
            assert(ms.take(ms.len() as int) =~= ms);
        }
        let mut out = String::from_str(manifest_head());
        out.append(region.as_str());
        out.append(manifest_tail());
        proof {
            assert(out@ =~= manifest_head_text() + lines_text(modules_lines(mvs_done, self.1))
                + manifest_tail_text());
        }
        Ok(out)
    }
}

/// Rendering distributes over concatenation of line lists.
pub proof fn lemma_lines_text_app(a: Seq<Seq<char>>, b: Seq<Seq<char>>)
    ensures
        lines_text(a + b) == lines_text(a) + lines_text(b),
    decreases a.len(),
{
    if a.len() == 0 {
        assert(a + b =~= b);
        assert(Seq::<char>::empty() + lines_text(b) =~= lines_text(b));
    } else {
        assert((a + b)[0] == a[0]);
        assert((a + b).skip(1) =~= a.skip(1) + b);
        lemma_lines_text_app(a.skip(1), b);
        assert(a[0] + seq!['\n'] + (lines_text(a.skip(1)) + lines_text(b))
            =~= (a[0] + seq!['\n'] + lines_text(a.skip(1))) + lines_text(b));
    }
}

proof fn lemma_yaml_modules_snoc(
    ms: Seq<Module>,
    m: Module,
    entries: Seq<(String, ResolvedModule)>,
    sinks: Seq<(String, SinkConfig)>,
)
    ensures
        yaml_modules_of(ms.push(m), entries, sinks) == match (yaml_modules_of(ms, entries, sinks),
            yaml_module_of(m, entries, sinks)) {
            (Ok(mvs), Ok(mv)) => Ok::<Seq<ModuleView>, GenFailure>(mvs.push(mv)),
            (Err(f), _) => Err(f),
            (Ok(_), Err(f)) => Err(f),
        },
    decreases ms.len(),
{
    if ms.len() == 0 {
        assert(ms.push(m)[0] == m);
        assert(ms.push(m).skip(1) =~= Seq::<Module>::empty());
        assert(yaml_modules_of(Seq::<Module>::empty(), entries, sinks) == Ok::<Seq<ModuleView>,
            GenFailure>(Seq::empty()));
        assert(yaml_modules_of(ms.push(m).skip(1), entries, sinks) == Ok::<Seq<ModuleView>,
            GenFailure>(Seq::empty()));
        match yaml_module_of(m, entries, sinks) {
            Ok(mv) => {
                assert(seq![mv] + Seq::<ModuleView>::empty() =~= Seq::<ModuleView>::empty().push(
                    mv));
            }
            Err(_) => {}
        }
    } else {
        assert(ms.push(m)[0] == ms[0]);
        assert(ms.push(m).skip(1) =~= ms.skip(1).push(m));
        lemma_yaml_modules_snoc(ms.skip(1), m, entries, sinks);
        match (yaml_module_of(ms[0], entries, sinks), yaml_modules_of(ms.skip(1), entries, sinks),
            yaml_module_of(m, entries, sinks)) {
            (Ok(h), Ok(rest), Ok(mv)) => {
                assert(seq![h] + rest.push(mv) =~= (seq![h] + rest).push(mv));
            }
            _ => {}
        }
    }
}

proof fn lemma_yaml_modules_bad(
    ms: Seq<Module>,
    i: int,
    entries: Seq<(String, ResolvedModule)>,
    sinks: Seq<(String, SinkConfig)>,
)
    requires
        0 <= i < ms.len(),
        yaml_module_of(ms[i], entries, sinks) is Err,
        yaml_modules_of(ms.take(i), entries, sinks) is Ok,
    ensures
        yaml_modules_of(ms, entries, sinks) == Result::<Seq<ModuleView>, GenFailure>::Err(
            yaml_module_of(ms[i], entries, sinks)->Err_0),
    decreases i,
{
    if i == 0 {
    } else {
        assert(ms.take(i)[0] == ms[0]);
        assert(ms.take(i).skip(1) =~= ms.skip(1).take(i - 1));
        assert(yaml_module_of(ms[0], entries, sinks) is Ok);
        assert(yaml_modules_of(ms.skip(1).take(i - 1), entries, sinks) is Ok);
        assert(forall|j: int| 0 <= j < ms.skip(1).len() ==> ms.skip(1)[j] == ms[j + 1]);
        lemma_yaml_modules_bad(ms.skip(1), i - 1, entries, sinks);
    }
}

} // verus!
