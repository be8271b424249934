//! The descriptor-side data model: module records with their inputs, outputs
//! and update policies, as an external orchestrator consumes them.

use vstd::prelude::*;
use crate::modules::Kind;
use crate::text;

verus! {

/// The default first block a generated module starts from.
pub const INITIAL_BLOCK: i64 = 72491700;

/// The mode under which a store input is read.
pub enum AccessMode {
    Get,
    Deltas,
}

/// A module's kind, as the descriptor names it.
#[derive(Clone, Copy, PartialEq, Eq, Structural, Debug)]
pub enum ModuleKind {
    Mapper,
    Store,
    Source,
}

impl ModuleKind {
    /// The descriptor kind for a declared module kind.
    pub fn from_kind(value: Kind) -> (r: ModuleKind)
        ensures
            r == (match value {
                Kind::Mapper => ModuleKind::Mapper,
                Kind::Store => ModuleKind::Store,
            }),
    {
        match value {
            Kind::Mapper => ModuleKind::Mapper,
            Kind::Store => ModuleKind::Store,
        }
    }
}

/// One input of a module descriptor: another map's output, a store read
/// handle with its mode, or the raw source.
pub enum ModuleInput {
    Mapper { name: String },
    Store { store: String, mode: String, value_type: String },
    Source { source: String },
}

impl ModuleInput {
    /// An input consuming a map's output.
    pub fn map(name: String) -> (r: ModuleInput)
        ensures
            r matches ModuleInput::Mapper { name: n } && n@ == name@,
    {
        ModuleInput::Mapper { name }
    }

    /// An input reading a store under the given mode.
    pub fn store(store: String, mode: AccessMode, value_type: String) -> (r: ModuleInput)
        ensures
            r matches ModuleInput::Store { store: s, mode: m, value_type: v } && s@ == store@
                && v@ == value_type@ && m@ == (match mode {
                    AccessMode::Get => "get"@,
                    AccessMode::Deltas => "deltas"@,
                }),
    {
        let mode = match mode {
            AccessMode::Get => String::from_str("get"),
            AccessMode::Deltas => String::from_str("deltas"),
        };
        ModuleInput::Store { store, mode, value_type }
    }

    /// The name under which the input is bound in generated code.
    pub fn name(&self) -> (r: String)
        ensures
            r@ == (match self {
                ModuleInput::Mapper { name } => name@,
                ModuleInput::Store { store, .. } => store@,
                ModuleInput::Source { .. } => "block"@,
            }),
    {
        match self {
            ModuleInput::Mapper { name } => name.clone(),
            ModuleInput::Store { store, .. } => store.clone(),
            ModuleInput::Source { .. } => String::from_str("block"),
        }
    }

    /// The raw-block source input.
    pub fn eth_block() -> (r: ModuleInput)
        ensures
            r matches ModuleInput::Source { source: s } && s@ == "sf.ethereum.type.v2.Block"@,
    {
        ModuleInput::Source { source: String::from_str("sf.ethereum.type.v2.Block") }
    }
}

/// A module descriptor's output: its wire type.
pub struct ModuleOutput {
    pub kind: String,
}

impl ModuleOutput {
    /// An output of the given wire type.
    pub fn with_type(kind: String) -> (r: ModuleOutput)
        ensures
            r.kind@ == kind@,
    {
        ModuleOutput { kind }
    }

    /// The output's wire type.
    pub fn wire_type(&self) -> (r: &str)
        ensures
            r@ == self.kind@,
    {
        self.kind.as_str()
    }
}

impl Default for ModuleOutput {
    /// The generic structured-value output.
    fn default() -> (r: ModuleOutput)
        ensures
            r.kind@ == "proto:google.protobuf.Value"@,
    {
        ModuleOutput { kind: String::from_str("proto:google.protobuf.Value") }
    }
}

/// A store's write policy, as the descriptor names it.
#[derive(Clone, Copy, PartialEq, Eq, Structural, Debug)]
pub enum UpdatePolicy {
    SetValue,
    SetIfNotExists,
    Add,
}

/// A whole module descriptor.
pub struct ModuleData {
    pub name: String,
    pub rhai_handler: String,
    pub is_sink: bool,
    pub kind: ModuleKind,
    pub initial_block: Option<i64>,
    pub inputs: Vec<ModuleInput>,
    pub output: Option<ModuleOutput>,
    pub value_type: Option<String>,
    pub update_policy: Option<UpdatePolicy>,
}

/// What remains after stripping every leading `proto:` marker.
pub open spec fn strip_proto(s: Seq<char>) -> Seq<char>
    decreases s.len(),
{
    if s.len() >= 6 && s.take(6) == "proto:"@ {
        strip_proto(s.skip(6))
    } else {
        s
    }
}

/// Whether the `proto:` marker stands at the given position.
fn proto_at(s: &str, pos: usize) -> (r: bool)
    requires
        pos <= s@.len(),
    ensures
        r == (pos + 6 <= s@.len() && s@.subrange(pos as int, pos as int + 6) == "proto:"@),
{
    let n = s.unicode_len();
    if pos > n || n - pos < 6 {
        return false;
    }
    let p = s.substring_char(pos, pos + 6);
    text::str_eq(p, "proto:")
}

/// Strips every leading `proto:` marker.
fn strip_proto_prefix(s: &str) -> (r: String)
    ensures
        r@ == strip_proto(s@),
{
    proof {
        reveal_strlit("proto:");
    }
    let n = s.unicode_len();
    let mut pos: usize = 0;
    proof {
        assert(s@.skip(0) =~= s@);
    }
    while proto_at(s, pos)
        invariant
            pos <= n,
            n == s@.len(),
            strip_proto(s@) == strip_proto(s@.skip(pos as int)),
        decreases n - pos,
    {
        proof {
            assert(s@.skip(pos as int).take(6) =~= s@.subrange(pos as int, pos + 6));
            assert(s@.skip(pos as int).skip(6) =~= s@.skip(pos + 6));
        }
        pos += 6;
    }
    proof {
        if s@.skip(pos as int).len() >= 6 {
            assert(s@.skip(pos as int).take(6) =~= s@.subrange(pos as int, pos + 6));
        }
        assert(strip_proto(s@.skip(pos as int)) == s@.skip(pos as int));
    }
    let r = s.substring_char(pos, n);
    proof {
        assert(r@ =~= s@.skip(pos as int));
    }
    String::from_str(r)
}

impl ModuleData {
    /// A map-module descriptor with the generic output.
    pub fn new_mfn(name: String, inputs: Vec<ModuleInput>) -> (r: ModuleData)
        ensures
            r.name@ == name@,
            r.rhai_handler@ == name@,
            !r.is_sink,
            r.kind == ModuleKind::Mapper,
            r.inputs == inputs,
            r.initial_block == Some(INITIAL_BLOCK),
            r.output matches Some(o) && o.kind@ == "proto:google.protobuf.Value"@,
            r.update_policy is None,
            r.value_type is None,
    {
        ModuleData {
            rhai_handler: name.clone(),
            name,
            is_sink: false,
            kind: ModuleKind::Mapper,
            inputs,
            initial_block: Some(INITIAL_BLOCK),
            output: Some(ModuleOutput::default()),
            update_policy: None,
            value_type: None,
        }
    }

    /// A sink-module descriptor: named for the sink, handled by the declared
    /// logic, with the sink's output type.
    pub fn new_sink(name: String, inputs: Vec<ModuleInput>, output_type: String,
        module_name: String) -> (r: ModuleData)
        ensures
            r.name@ == module_name@,
            r.rhai_handler@ == name@,
            r.is_sink,
            r.kind == ModuleKind::Mapper,
            r.inputs == inputs,
            r.initial_block == Some(INITIAL_BLOCK),
            r.output matches Some(o) && o.kind@ == output_type@,
            r.update_policy is None,
            r.value_type is None,
    {
        ModuleData {
            rhai_handler: name,
            name: module_name,
            is_sink: true,
            kind: ModuleKind::Mapper,
            inputs,
            initial_block: Some(INITIAL_BLOCK),
            output: Some(ModuleOutput { kind: output_type }),
            update_policy: None,
            value_type: None,
        }
    }

    /// A store-module descriptor: its value type follows its policy.
    pub fn new_sfn(name: String, inputs: Vec<ModuleInput>, update_policy: UpdatePolicy) -> (r:
        ModuleData)
        ensures
            r.name@ == name@,
            r.rhai_handler@ == name@,
            !r.is_sink,
            r.kind == ModuleKind::Store,
            r.inputs == inputs,
            r.initial_block == Some(INITIAL_BLOCK),
            r.output is None,
            r.update_policy == Some(update_policy),
            r.value_type matches Some(v) && v@ == (match update_policy {
                UpdatePolicy::Add => "bigint"@,
                _ => "proto:google.protobuf.Value"@,
            }),
    {
        let value_type = match update_policy {
            UpdatePolicy::Add => Some(String::from_str("bigint")),
            _ => Some(String::from_str("proto:google.protobuf.Value")),
        };
        ModuleData {
            rhai_handler: name.clone(),
            name,
            is_sink: false,
            kind: ModuleKind::Store,
            inputs,
            initial_block: Some(INITIAL_BLOCK),
            output: None,
            update_policy: Some(update_policy),
            value_type,
        }
    }

    /// The built-in raw-block source descriptor.
    pub fn eth_block() -> (r: ModuleData)
        ensures
            r.name@ == "block"@,
            r.rhai_handler@ == "block"@,
            !r.is_sink,
            r.kind == ModuleKind::Source,
            r.initial_block is None,
            r.inputs@.len() == 0,
            r.output matches Some(o) && o.kind@ == "sf.ethereum.type.v2.Block"@,
            r.update_policy is None,
            r.value_type is None,
    {
        ModuleData {
            name: String::from_str("block"),
            rhai_handler: String::from_str("block"),
            kind: ModuleKind::Source,
            is_sink: false,
            initial_block: None,
            inputs: Vec::new(),
            output: Some(ModuleOutput { kind: String::from_str("sf.ethereum.type.v2.Block") }),
            update_policy: None,
            value_type: None,
        }
    }

    /// Replaces the output type, normalizing to exactly one `proto:` marker.
    pub fn set_output(&mut self, output_type: &str)
        ensures
            final(self).output matches Some(o) && o.kind@ == "proto:"@ + strip_proto(
                output_type@),
            final(self).name == old(self).name,
            final(self).rhai_handler == old(self).rhai_handler,
            final(self).is_sink == old(self).is_sink,
            final(self).kind == old(self).kind,
            final(self).initial_block == old(self).initial_block,
            final(self).inputs == old(self).inputs,
            final(self).value_type == old(self).value_type,
            final(self).update_policy == old(self).update_policy,
    {
        let stripped = strip_proto_prefix(output_type);
        let mut kind = String::from_str("proto:");
        kind.append(stripped.as_str());
        self.output = Some(ModuleOutput { kind });
    }

    /// The module's name.
    pub fn name(&self) -> (r: &str)
        ensures
            r@ == self.name@,
    {
        self.name.as_str()
    }

    /// The module's inputs.
    pub fn inputs(&self) -> (r: &Vec<ModuleInput>)
        ensures
            r == self.inputs,
    {
        &self.inputs
    }

    /// The module's kind.
    pub fn kind(&self) -> (r: &ModuleKind)
        ensures
            r == self.kind,
    {
        &self.kind
    }

    /// The generated write-handle type for the module's policy, when it has
    /// one.
    pub fn store_kind(&self) -> (r: Option<&'static str>)
        ensures
            match self.update_policy {
                Some(p) => r matches Some(s) && s@ == (match p {
                    UpdatePolicy::SetValue => "StoreSetProto<JsonValue>"@,
                    UpdatePolicy::SetIfNotExists => "StoreSetIfNotExistsProto<JsonValue>"@,
                    UpdatePolicy::Add => "StoreAddBigInt"@,
                }),
                None => r is None,
            },
    {
        match &self.update_policy {
            Some(UpdatePolicy::SetValue) => Some("StoreSetProto<JsonValue>"),
            Some(UpdatePolicy::SetIfNotExists) => Some("StoreSetIfNotExistsProto<JsonValue>"),
            Some(UpdatePolicy::Add) => Some("StoreAddBigInt"),
            None => None,
        }
    }

    /// The name of the embedded logic the module invokes.
    pub fn handler(&self) -> (r: &str)
        ensures
            r@ == self.rhai_handler@,
    {
        self.rhai_handler.as_str()
    }
}

} // verus!
