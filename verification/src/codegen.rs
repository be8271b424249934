//! Code generation: the concrete-type resolver shared by both backends, the
//! generator interface, and the spec-level description of generation failures.

pub mod parse;
pub mod rust;
pub mod yaml;

use vstd::prelude::*;
use crate::modules::{Accessor, Kind, StreamlineError, UpdatePolicy};
use crate::sink::{DefaultModuleResolver, ModuleResolver, ResolvedModule, SinkConfig,
    user_modules_spec};

verus! {

/// The concrete wire type a consumer binds to, per the resolution table.
pub enum ConcreteType {
    /// The built-in source's raw-block type.
    EthBlock,
    /// The generic structured-value type a map produces.
    JsonValue,
    /// Read handle of an accumulating store.
    StoreGetBigInt,
    /// Delta sequence of an accumulating store.
    DeltasBigInt,
    /// Read handle of an overwrite / write-once store.
    StoreGetJson,
    /// Delta sequence of an overwrite / write-once store.
    DeltasJson,
    /// Write handle of an accumulating store.
    WriterAdd,
    /// Write handle of an overwriting store.
    WriterSet,
    /// Write handle of a write-once store.
    WriterSetOnce,
    /// A sink override's declared output type.
    SinkOutput(String),
}

/// The write-handle type for a policy.
pub open spec fn writer_type(p: UpdatePolicy) -> ConcreteType {
    match p {
        UpdatePolicy::Add => ConcreteType::WriterAdd,
        UpdatePolicy::SetValue => ConcreteType::WriterSet,
        UpdatePolicy::SetOnce => ConcreteType::WriterSetOnce,
    }
}

/// The resolution table: the concrete type for one accessor against one
/// producer entry, with an optional sink override for the producer; `None`
/// when the accessor is incompatible with the producer's kind or policy.
pub open spec fn resolve_spec(
    access: Accessor,
    producer: ResolvedModule,
    sink: Option<SinkConfig>,
) -> Option<ConcreteType> {
    match producer {
        ResolvedModule::Source(_) => match access {
            Accessor::Default => Some(ConcreteType::EthBlock),
            _ => None,
        },
        ResolvedModule::SinkConfig(_) => None,
        ResolvedModule::Module(m) => match m.kind {
            Kind::Mapper => match access {
                Accessor::Default => match sink {
                    Some(c) => Some(ConcreteType::SinkOutput(c.rust_name)),
                    None => Some(ConcreteType::JsonValue),
                },
                _ => None,
            },
            Kind::Store => match access {
                Accessor::Store(p) => Some(writer_type(p)),
                Accessor::Get | Accessor::Default => match m.update_policy_spec() {
                    Some(UpdatePolicy::Add) => Some(ConcreteType::StoreGetBigInt),
                    Some(_) => Some(ConcreteType::StoreGetJson),
                    None => None,
                },
                Accessor::Deltas => match m.update_policy_spec() {
                    Some(UpdatePolicy::Add) => Some(ConcreteType::DeltasBigInt),
                    Some(_) => Some(ConcreteType::DeltasJson),
                    None => None,
                },
            },
        },
    }
}

/// Computes the concrete type for one accessor against one producer entry.
pub fn resolve(
    access: &Accessor,
    producer: &ResolvedModule,
    sink: Option<&SinkConfig>,
) -> (r: Option<ConcreteType>)
    ensures
        r == resolve_spec(*access, *producer, match sink {
            Some(c) => Some(*c),
            None => None,
        }),
{
    match producer {
        ResolvedModule::Source(_) => match access {
            Accessor::Default => Some(ConcreteType::EthBlock),
            _ => None,
        },
        ResolvedModule::SinkConfig(_) => None,
        ResolvedModule::Module(m) => match m.kind {
            Kind::Mapper => match access {
                Accessor::Default => match sink {
                    Some(c) => Some(ConcreteType::SinkOutput(c.rust_name.clone())),
                    None => Some(ConcreteType::JsonValue),
                },
                _ => None,
            },
            Kind::Store => match access {
                Accessor::Store(p) => Some(match p {
                    UpdatePolicy::Add => ConcreteType::WriterAdd,
                    UpdatePolicy::SetValue => ConcreteType::WriterSet,
                    UpdatePolicy::SetOnce => ConcreteType::WriterSetOnce,
                }),
                Accessor::Get | Accessor::Default => match m.update_policy() {
                    Some(UpdatePolicy::Add) => Some(ConcreteType::StoreGetBigInt),
                    Some(_) => Some(ConcreteType::StoreGetJson),
                    None => None,
                },
                Accessor::Deltas => match m.update_policy() {
                    Some(UpdatePolicy::Add) => Some(ConcreteType::DeltasBigInt),
                    Some(_) => Some(ConcreteType::DeltasJson),
                    None => None,
                },
            },
        },
    }
}

/// Resolving `Deltas` against a map producer is always a type mismatch.
pub proof fn lemma_deltas_vs_map_mismatch(producer: ResolvedModule, sink: Option<SinkConfig>)
    requires
        producer matches ResolvedModule::Module(m) && m.kind == Kind::Mapper,
    ensures
        resolve_spec(Accessor::Deltas, producer, sink) is None,
{
}

/// Resolving `Default` against a store producer gives the same concrete type
/// as resolving `Get` against the same producer.
pub proof fn lemma_default_get_agree_on_store(producer: ResolvedModule, sink: Option<SinkConfig>)
    requires
        producer matches ResolvedModule::Module(m) && m.kind == Kind::Store,
    ensures
        resolve_spec(Accessor::Default, producer, sink)
            == resolve_spec(Accessor::Get, producer, sink),
{
}

/// A spec-level description of a generation failure: the name of the input
/// whose producer is missing, or whose accessor does not fit its producer.
pub enum GenFailure {
    MissingProducer(Seq<char>),
    IncompatibleAccessor(Seq<char>),
}

/// The reported error matches the spec-level failure.
pub open spec fn gen_error_matches(e: StreamlineError, f: GenFailure) -> bool {
    match f {
        GenFailure::MissingProducer(n) => e matches StreamlineError::NotFound(s) && s@ == n,
        GenFailure::IncompatibleAccessor(n) => e matches StreamlineError::TypeMismatch(s)
            && s@ == n,
    }
}

/// Generates the handler stubs for a registry snapshot: one function stub per
/// user module, in registry order.
pub fn generate_handlers(resolver: DefaultModuleResolver) -> (r: Result<String, StreamlineError>)
    requires
        resolver.inv(),
    ensures
        match (r, rust::rust_output(user_modules_spec(resolver.entries()), resolver.entries(),
            resolver.sink_entries())) {
            (Ok(s), Ok(t)) => s@ == t,
            (Err(e), Err(f)) => gen_error_matches(e, f),
            _ => false,
        },
{
    rust::RustGenerator::new(resolver).generate()
}

/// Generates the deployment manifest for a registry snapshot: one descriptor
/// per user module, substituted into the fixed document template.
pub fn generate_manifest(resolver: DefaultModuleResolver, start_block: Option<i64>) -> (r: Result<
    String, StreamlineError>)
    requires
        resolver.inv(),
    ensures
        match (r, yaml::yaml_modules_of(user_modules_spec(resolver.entries()), resolver.entries(),
            resolver.sink_entries())) {
            (Ok(s), Ok(mvs)) => s@ == yaml::manifest_head_text() + yaml::lines_text(
                yaml::modules_lines(mvs, start_block)) + yaml::manifest_tail_text(),
            (Err(e), Err(f)) => gen_error_matches(e, f),
            _ => false,
        },
{
    yaml::YamlGenerator::new(resolver, start_block).generate()
}

/// A backend that projects the registry into one text artifact.
pub trait Codegen: Sized {
    /// When the generator's own state is fit to generate from.
    spec fn wf(&self) -> bool;

    /// The text this generator emits, or the failure it reports.
    spec fn output_spec(&self) -> Result<Seq<char>, GenFailure>;

    /// Generates the artifact.
    fn generate(&self) -> (r: Result<String, StreamlineError>)
        requires
            self.wf(),
        ensures
            match (r, self.output_spec()) {
                (Ok(s), Ok(t)) => s@ == t,
                (Err(e), Err(f)) => gen_error_matches(e, f),
                _ => false,
            },
    ;
}

} // verus!
