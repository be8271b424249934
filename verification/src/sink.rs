//! The module registry: resolved entries (user modules, the built-in source,
//! sink overrides), the resolver interface, and its default implementation.
//! Entries live in an association list with unique keys, modeled by the
//! `find_assoc` / `upsert_assoc` spec functions.

use vstd::prelude::*;
use vstd::pervasive::VecAdditionalExecFns;
use crate::modules::{Kind, Module, StreamlineError, inputs_view, parse_tokens_spec,
    parse_tokens_lenient, parse_inputs_lenient, lemma_parse_tokens_len, Accessor};
use crate::text;

verus! {

/// The built-in root producer: raw block data with a fixed wire type.
pub struct Source {
    pub protobuf_name: String,
    pub rust_name: String,
}

impl Source {
    /// The built-in raw-block source.
    pub fn eth_block() -> (r: Source)
        ensures
            r.protobuf_name@ == "sf.ethereum.type.v2.Block"@,
            r.rust_name@ == "EthBlock"@,
    {
        Source {
            protobuf_name: String::from_str("sf.ethereum.type.v2.Block"),
            rust_name: String::from_str("EthBlock"),
        }
    }
}

/// A sink override: replaces a map module's generic output wire type and
/// conversion with a sink-specific one.
pub struct SinkConfig {
    pub protobuf_name: String,
    pub rust_name: String,
    pub crate_name: String,
    pub fully_qualified_path: String,
    pub spkg_link: String,
}

impl SinkConfig {
    /// The built-in entity-graph sink override.
    pub fn graph_out() -> (r: SinkConfig)
        ensures
            r.protobuf_name@ == "substreams.entity.v1.EntityChanges"@,
            r.rust_name@ == "substreams_entity_change::pb::entity::EntityChanges"@,
            r.crate_name@ == "streamline_subgraph_conversions"@,
            r.fully_qualified_path@
                == "rhai::packages::streamline::graph_out::as_entity_changes(result)"@,
            r.spkg_link@ == "HARDCODED_FOR_NOW"@,
    {
        SinkConfig {
            protobuf_name: String::from_str("substreams.entity.v1.EntityChanges"),
            rust_name: String::from_str("substreams_entity_change::pb::entity::EntityChanges"),
            crate_name: String::from_str("streamline_subgraph_conversions"),
            fully_qualified_path: String::from_str(
                "rhai::packages::streamline::graph_out::as_entity_changes(result)",
            ),
            spkg_link: String::from_str("HARDCODED_FOR_NOW"),
        }
    }
}

/// A registry entry: a user module, a pure sink-configuration entry, or the
/// built-in source.
pub enum ResolvedModule {
    Module(Module),
    SinkConfig(SinkConfig),
    Source(Source),
}

/// The first value bound to `name` in an association list.
pub open spec fn find_assoc<T>(s: Seq<(String, T)>, name: Seq<char>) -> Option<T>
    decreases s.len(),
{
    if s.len() == 0 {
        None
    } else if s[0].0@ == name {
        Some(s[0].1)
    } else {
        find_assoc(s.skip(1), name)
    }
}

/// Replaces the binding whose key has `entry`'s key view, or appends `entry`.
pub open spec fn upsert_assoc<T>(s: Seq<(String, T)>, entry: (String, T)) -> Seq<(String, T)>
    decreases s.len(),
{
    if s.len() == 0 {
        seq![entry]
    } else if s[0].0@ == entry.0@ {
        seq![entry] + s.skip(1)
    } else {
        seq![s[0]] + upsert_assoc(s.skip(1), entry)
    }
}

/// No two bindings share a key view.
pub open spec fn unique_keys<T>(s: Seq<(String, T)>) -> bool {
    forall|i: int, j: int| 0 <= i < j < s.len() ==> s[i].0@ != s[j].0@
}

/// The user modules of the registry, in entry order: every `Module` binding,
/// excluding the built-in source and pure sink-configuration entries.
pub open spec fn user_modules_spec(s: Seq<(String, ResolvedModule)>) -> Seq<Module>
    decreases s.len(),
{
    if s.len() == 0 {
        Seq::empty()
    } else {
        match s[0].1 {
            ResolvedModule::Module(m) => seq![m] + user_modules_spec(s.skip(1)),
            _ => user_modules_spec(s.skip(1)),
        }
    }
}

/// `new_e` is `old_e` with a module of the given name, kind and parsed inputs
/// bound under the key `key`.
pub open spec fn module_inserted(
    old_e: Seq<(String, ResolvedModule)>,
    new_e: Seq<(String, ResolvedModule)>,
    key: String,
    kind: Kind,
    parsed: Seq<(Seq<char>, Accessor)>,
) -> bool {
    exists|m: Module|
        {
            &&& new_e == upsert_assoc(old_e, (key, ResolvedModule::Module(m)))
            &&& m.name@ == key@
            &&& m.kind == kind
            &&& #[trigger] inputs_view(m.inputs@) == parsed
        }
}

pub proof fn lemma_find_assoc_index<T>(s: Seq<(String, T)>, name: Seq<char>, i: int)
    requires
        0 <= i < s.len(),
        s[i].0@ == name,
        forall|j: int| 0 <= j < i ==> s[j].0@ != name,
    ensures
        find_assoc(s, name) == Some(s[i].1),
    decreases i,
{
    if i > 0 {
        assert(s.skip(1)[i - 1] == s[i]);
        assert(forall|j: int| 0 <= j < i - 1 ==> s.skip(1)[j] == s[j + 1]);
        lemma_find_assoc_index(s.skip(1), name, i - 1);
    }
}

pub proof fn lemma_find_assoc_none<T>(s: Seq<(String, T)>, name: Seq<char>)
    requires
        forall|j: int| 0 <= j < s.len() ==> s[j].0@ != name,
    ensures
        find_assoc(s, name) is None,
    decreases s.len(),
{
    if s.len() > 0 {
        assert(forall|j: int| 0 <= j < s.skip(1).len() ==> s.skip(1)[j] == s[j + 1]);
        lemma_find_assoc_none(s.skip(1), name);
    }
}

pub proof fn lemma_upsert_update<T>(s: Seq<(String, T)>, entry: (String, T), i: int)
    requires
        0 <= i < s.len(),
        s[i].0@ == entry.0@,
        forall|j: int| 0 <= j < i ==> s[j].0@ != entry.0@,
    ensures
        upsert_assoc(s, entry) == s.update(i, entry),
    decreases i,
{
    if i == 0 {
        assert(seq![entry] + s.skip(1) =~= s.update(0, entry));
    } else {
        assert(s.skip(1)[i - 1] == s[i]);
        assert(forall|j: int| 0 <= j < i - 1 ==> s.skip(1)[j] == s[j + 1]);
        lemma_upsert_update(s.skip(1), entry, i - 1);
        assert(seq![s[0]] + s.skip(1).update(i - 1, entry) =~= s.update(i, entry));
    }
}

pub proof fn lemma_upsert_push<T>(s: Seq<(String, T)>, entry: (String, T))
    requires
        forall|j: int| 0 <= j < s.len() ==> s[j].0@ != entry.0@,
    ensures
        upsert_assoc(s, entry) == s.push(entry),
    decreases s.len(),
{
    if s.len() == 0 {
        assert(seq![entry] =~= s.push(entry));
    } else {
        assert(forall|j: int| 0 <= j < s.skip(1).len() ==> s.skip(1)[j] == s[j + 1]);
        lemma_upsert_push(s.skip(1), entry);
        assert(seq![s[0]] + s.skip(1).push(entry) =~= s.push(entry));
    }
}

/// After an upsert, the entry's key is bound to its value.
pub proof fn lemma_find_upsert_same<T>(s: Seq<(String, T)>, entry: (String, T))
    ensures
        find_assoc(upsert_assoc(s, entry), entry.0@) == Some(entry.1),
    decreases s.len(),
{
    if s.len() == 0 {
        assert(upsert_assoc(s, entry)[0] == entry);
    } else if s[0].0@ == entry.0@ {
        assert(upsert_assoc(s, entry)[0] == entry);
    } else {
        lemma_find_upsert_same(s.skip(1), entry);
        assert(upsert_assoc(s, entry)[0] == s[0]);
        assert(upsert_assoc(s, entry).skip(1) =~= upsert_assoc(s.skip(1), entry));
    }
}

pub proof fn lemma_user_modules_snoc(s: Seq<(String, ResolvedModule)>, e: (String, ResolvedModule))
    ensures
        user_modules_spec(s.push(e)) == match e.1 {
            ResolvedModule::Module(m) => user_modules_spec(s).push(m),
            _ => user_modules_spec(s),
        },
    decreases s.len(),
{
    if s.len() == 0 {
        assert(s.push(e)[0] == e);
        assert(s.push(e).skip(1) =~= Seq::<(String, ResolvedModule)>::empty());
        assert(user_modules_spec(Seq::<(String, ResolvedModule)>::empty())
            == Seq::<Module>::empty());
        assert(user_modules_spec(s.push(e).skip(1)) == Seq::<Module>::empty());
        assert(user_modules_spec(s) == Seq::<Module>::empty());
        match e.1 {
            ResolvedModule::Module(m) => {
                assert(user_modules_spec(s.push(e)) == seq![m] + Seq::<Module>::empty());
                assert(seq![m] + Seq::<Module>::empty()
                    =~= user_modules_spec(s).push(m));
            }
            _ => {
                assert(user_modules_spec(s.push(e)) == Seq::<Module>::empty());
            }
        }
    } else {
        assert(s.push(e)[0] == s[0]);
        assert(s.push(e).skip(1) =~= s.skip(1).push(e));
        lemma_user_modules_snoc(s.skip(1), e);
        let rest = user_modules_spec(s.skip(1));
        match (s[0].1, e.1) {
            (ResolvedModule::Module(m0), ResolvedModule::Module(m)) => {
                assert(user_modules_spec(s) == seq![m0] + rest);
                assert(user_modules_spec(s.push(e)) == seq![m0] + rest.push(m));
                assert(seq![m0] + rest.push(m) =~= (seq![m0] + rest).push(m));
            }
            (ResolvedModule::Module(m0), _) => {
                assert(user_modules_spec(s) == seq![m0] + rest);
                assert(user_modules_spec(s.push(e)) == seq![m0] + rest);
            }
            (_, ResolvedModule::Module(m)) => {
                assert(user_modules_spec(s) == rest);
                assert(user_modules_spec(s.push(e)) == rest.push(m));
            }
            _ => {
                assert(user_modules_spec(s) == rest);
                assert(user_modules_spec(s.push(e)) == rest);
            }
        }
    }
}

/// Law: after a successful declaration from a well-formed token list, looking
/// the declared name up returns a module entry whose kind is the declared
/// kind and whose input count equals the number of declared tokens — whatever
/// the registry held before, and whether or not the name was already bound.
pub proof fn lemma_declare_then_lookup(
    old_e: Seq<(String, ResolvedModule)>,
    new_e: Seq<(String, ResolvedModule)>,
    key: String,
    kind: Kind,
    tokens: Seq<Seq<char>>,
)
    requires
        parse_tokens_spec(tokens) is Some,
        module_inserted(old_e, new_e, key, kind, parse_tokens_spec(tokens)->Some_0),
    ensures
        find_assoc(new_e, key@) matches Some(e) && e matches ResolvedModule::Module(m)
            && m.name@ == key@ && m.kind == kind && m.inputs@.len() == tokens.len(),
{
    lemma_parse_tokens_len(tokens);
    let parsed = parse_tokens_spec(tokens)->Some_0;
    let m = choose|m: Module|
        {
            &&& new_e == upsert_assoc(old_e, (key, ResolvedModule::Module(m)))
            &&& m.name@ == key@
            &&& m.kind == kind
            &&& #[trigger] inputs_view(m.inputs@) == parsed
        };
    lemma_find_upsert_same(old_e, (key, ResolvedModule::Module(m)));
}

/// The registry interface: insertion, lookup, and the user-module listing.
pub trait ModuleResolver: Sized {
    /// The module bindings, in insertion order.
    spec fn entries(&self) -> Seq<(String, ResolvedModule)>;

    /// The sink-override bindings.
    spec fn sink_entries(&self) -> Seq<(String, SinkConfig)>;

    /// Well-formedness: no key is bound twice.
    spec fn inv(&self) -> bool;

    /// Adds a module binding without overwriting an existing key.
    fn set_module_once(&mut self, module_name: String, module: ResolvedModule)
        requires
            old(self).inv(),
        ensures
            final(self).inv(),
            final(self).sink_entries() == old(self).sink_entries(),
            final(self).entries() == if find_assoc(old(self).entries(), module_name@) is Some {
                old(self).entries()
            } else {
                old(self).entries().push((module_name, module))
            },
    ;

    /// Adds a module binding, overwriting an existing key (last write wins).
    fn set_module(&mut self, module_name: String, module: ResolvedModule)
        requires
            old(self).inv(),
        ensures
            final(self).inv(),
            final(self).sink_entries() == old(self).sink_entries(),
            final(self).entries() == upsert_assoc(old(self).entries(), (module_name, module)),
    ;

    /// Returns the entry bound to the name, paired with the sink override for
    /// that name when one is registered.
    fn get<'a>(&'a self, module_name: &str) -> (r: Option<(&'a ResolvedModule, Option<&'a SinkConfig>)>)
        requires
            self.inv(),
        ensures
            match find_assoc(self.entries(), module_name@) {
                Some(m) => r matches Some((rm, sk)) && *rm == m && (
                    match find_assoc(self.sink_entries(), module_name@) {
                        Some(c) => sk matches Some(sc) && *sc == c,
                        None => sk is None,
                    }
                ),
                None => r is None,
            },
    ;

    /// Returns the user-declared modules, in insertion order.
    fn get_user_modules<'a>(&'a self) -> (r: Vec<&'a Module>)
        requires
            self.inv(),
        ensures
            r@.map_values(|m: &Module| *m) == user_modules_spec(self.entries()),
    ;

    /// Declares a map module from raw tokens, dropping malformed tokens.
    fn add_mfn(&mut self, name: String, inputs: Vec<String>)
        requires
            old(self).inv(),
        ensures
            final(self).inv(),
            final(self).sink_entries() == old(self).sink_entries(),
            module_inserted(
                old(self).entries(),
                final(self).entries(),
                name,
                Kind::Mapper,
                parse_tokens_lenient(inputs@.map_values(|t: String| t@)),
            ),
    ;

    /// Declares a store module from raw tokens, dropping malformed tokens.
    fn add_sfn(&mut self, name: String, inputs: Vec<String>)
        requires
            old(self).inv(),
        ensures
            final(self).inv(),
            final(self).sink_entries() == old(self).sink_entries(),
            module_inserted(
                old(self).entries(),
                final(self).entries(),
                name,
                Kind::Store,
                parse_tokens_lenient(inputs@.map_values(|t: String| t@)),
            ),
    ;
}

/// The default registry: association lists for modules and sink overrides,
/// seeded with the built-in source and the entity-graph sink override.
pub struct DefaultModuleResolver {
    modules: Vec<(String, ResolvedModule)>,
    sinks: Vec<(String, SinkConfig)>,
}

impl DefaultModuleResolver {
    /// A fresh registry: one source binding under `BLOCK`, one sink override
    /// under `graph_out`.
    pub fn new() -> (r: DefaultModuleResolver)
        ensures
            r.inv(),
            r.entries().len() == 1,
            r.entries()[0].0@ == "BLOCK"@,
            r.entries()[0].1 matches ResolvedModule::Source(s)
                && s.protobuf_name@ == "sf.ethereum.type.v2.Block"@
                && s.rust_name@ == "EthBlock"@,
            r.sink_entries().len() == 1,
            r.sink_entries()[0].0@ == "graph_out"@,
            r.sink_entries()[0].1.protobuf_name@ == "substreams.entity.v1.EntityChanges"@,
            r.sink_entries()[0].1.rust_name@
                == "substreams_entity_change::pb::entity::EntityChanges"@,
            r.sink_entries()[0].1.fully_qualified_path@
                == "rhai::packages::streamline::graph_out::as_entity_changes(result)"@,
            user_modules_spec(r.entries()) == Seq::<Module>::empty(),
    {
        let mut modules: Vec<(String, ResolvedModule)> = Vec::new();
        modules.push((String::from_str("BLOCK"), ResolvedModule::Source(Source::eth_block())));
        let mut sinks: Vec<(String, SinkConfig)> = Vec::new();
        sinks.push((String::from_str("graph_out"), SinkConfig::graph_out()));
        let r = DefaultModuleResolver { modules, sinks };
        proof {
            assert(r.entries().skip(1) =~= Seq::<(String, ResolvedModule)>::empty());
            assert(user_modules_spec(Seq::<(String, ResolvedModule)>::empty())
                == Seq::<Module>::empty());
            assert(user_modules_spec(r.entries().skip(1)) == Seq::<Module>::empty());
            assert(user_modules_spec(r.entries()) == Seq::<Module>::empty());
        }
        r
    }

    fn find_module_idx(&self, name: &str) -> (r: Option<usize>)
        ensures
            match r {
                Some(i) => i < self.modules@.len() && self.modules@[i as int].0@ == name@
                    && forall|j: int| 0 <= j < i ==> self.modules@[j].0@ != name@,
                None => forall|j: int| 0 <= j < self.modules@.len()
                    ==> self.modules@[j].0@ != name@,
            },
    {
        let mut i: usize = 0;
        while i < self.modules.len()
            invariant
                i <= self.modules@.len(),
                forall|j: int| 0 <= j < i ==> self.modules@[j].0@ != name@,
            decreases self.modules@.len() - i,
        {
            if text::str_eq(self.modules[i].0.as_str(), name) {
                return Some(i);
            }
            i += 1;
        }
        None
    }

    fn find_sink_idx(&self, name: &str) -> (r: Option<usize>)
        ensures
            match r {
                Some(i) => i < self.sinks@.len() && self.sinks@[i as int].0@ == name@
                    && forall|j: int| 0 <= j < i ==> self.sinks@[j].0@ != name@,
                None => forall|j: int| 0 <= j < self.sinks@.len() ==> self.sinks@[j].0@ != name@,
            },
    {
        let mut i: usize = 0;
        while i < self.sinks.len()
            invariant
                i <= self.sinks@.len(),
                forall|j: int| 0 <= j < i ==> self.sinks@[j].0@ != name@,
            decreases self.sinks@.len() - i,
        {
            if text::str_eq(self.sinks[i].0.as_str(), name) {
                return Some(i);
            }
            i += 1;
        }
        None
    }

    /// Returns the entry bound to `name`, per the spec-level `find_assoc`.
    pub fn lookup<'a>(&'a self, name: &str) -> (r: Option<&'a ResolvedModule>)
        requires
            self.inv(),
        ensures
            match find_assoc(self.entries(), name@) {
                Some(m) => r matches Some(rm) && *rm == m,
                None => r is None,
            },
    {
        match self.find_module_idx(name) {
            Some(i) => {
                proof { lemma_find_assoc_index(self.modules@, name@, i as int); }
                Some(&self.modules[i].1)
            }
            None => {
                proof { lemma_find_assoc_none(self.modules@, name@); }
                None
            }
        }
    }

    /// Returns the user-declared modules in insertion order: every module
    /// binding, excluding the built-in source and pure sink-configuration
    /// entries.
    pub fn list_user_modules<'a>(&'a self) -> (r: Vec<&'a Module>)
        requires
            self.inv(),
        ensures
            r@.map_values(|m: &Module| *m) == user_modules_spec(self.entries()),
    {
        self.get_user_modules()
    }

    /// Returns the sink override registered for the name, per `find_assoc`.
    pub fn get_sink<'a>(&'a self, name: &str) -> (r: Option<&'a SinkConfig>)
        requires
            self.inv(),
        ensures
            match find_assoc(self.sink_entries(), name@) {
                Some(c) => r matches Some(rc) && *rc == c,
                None => r is None,
            },
    {
        match self.find_sink_idx(name) {
            Some(i) => {
                proof { lemma_find_assoc_index(self.sinks@, name@, i as int); }
                Some(&self.sinks[i].1)
            }
            None => {
                proof { lemma_find_assoc_none(self.sinks@, name@); }
                None
            }
        }
    }

    /// Declares a map module: parses every token, and on success binds the
    /// module under its name. On a malformed token the registry is unchanged.
    pub fn declare_map(&mut self, name: String, inputs: &Vec<String>) -> (r: Result<(), StreamlineError>)
        requires
            old(self).inv(),
        ensures
            final(self).inv(),
            final(self).sink_entries() == old(self).sink_entries(),
            match r {
                Ok(()) => parse_tokens_spec(inputs@.map_values(|t: String| t@)) is Some
                    && module_inserted(
                        old(self).entries(),
                        final(self).entries(),
                        name,
                        Kind::Mapper,
                        parse_tokens_spec(inputs@.map_values(|t: String| t@))->Some_0,
                    ),
                Err(e) => parse_tokens_spec(inputs@.map_values(|t: String| t@)) is None
                    && final(self).entries() == old(self).entries()
                    && (e matches StreamlineError::MalformedSuffix(_)),
            },
    {
        let key = name.clone();
        match Module::new(name, inputs, Kind::Mapper) {
            Ok(m) => {
                let ghost mm = m;
                self.set_module(key, ResolvedModule::Module(m));
                proof {
                    assert(self.entries()
                        == upsert_assoc(old(self).entries(), (key, ResolvedModule::Module(mm))));
                    assert(mm.name@ == key@);
                    assert(inputs_view(mm.inputs@)
                        == parse_tokens_spec(inputs@.map_values(|t: String| t@))->Some_0);
                }
                Ok(())
            }
            Err(e) => Err(e),
        }
    }

    /// Declares a store module: parses every token and requires the trailing
    /// token to carry the store's own write policy. On failure the registry is
    /// unchanged.
    pub fn declare_store(&mut self, name: String, inputs: &Vec<String>) -> (r: Result<(), StreamlineError>)
        requires
            old(self).inv(),
        ensures
            final(self).inv(),
            final(self).sink_entries() == old(self).sink_entries(),
            match r {
                Ok(()) => {
                    let parsed = parse_tokens_spec(inputs@.map_values(|t: String| t@));
                    &&& parsed is Some
                    &&& parsed->Some_0.len() > 0
                    &&& parsed->Some_0.last().1 is Store
                    &&& module_inserted(
                        old(self).entries(),
                        final(self).entries(),
                        name,
                        Kind::Store,
                        parsed->Some_0,
                    )
                },
                Err(e) => {
                    let parsed = parse_tokens_spec(inputs@.map_values(|t: String| t@));
                    &&& final(self).entries() == old(self).entries()
                    &&& match e {
                        StreamlineError::MalformedSuffix(_) => parsed is None,
                        StreamlineError::PolicyMissing(n) => n@ == name@ && parsed is Some
                            && (parsed->Some_0.len() == 0 || !(parsed->Some_0.last().1 is Store)),
                        _ => false,
                    }
                },
            },
    {
        let key = name.clone();
        match Module::new(name, inputs, Kind::Store) {
            Ok(m) => {
                let has_policy = match m.update_policy() {
                    Some(_) => true,
                    None => false,
                };
                proof {
                    let parsed = parse_tokens_spec(inputs@.map_values(|t: String| t@))->Some_0;
                    assert(inputs_view(m.inputs@).len() == parsed.len());
                    if m.inputs@.len() > 0 {
                        assert(inputs_view(m.inputs@).last()
                            == (m.inputs@.last().name@, m.inputs@.last().access));
                        assert(parsed.last() == inputs_view(m.inputs@).last());
                    }
                }
                if has_policy {
                    let ghost mm = m;
                    self.set_module(key, ResolvedModule::Module(m));
                    proof {
                        assert(self.entries()
                            == upsert_assoc(old(self).entries(), (key, ResolvedModule::Module(mm))));
                        assert(mm.name@ == key@);
                        assert(inputs_view(mm.inputs@)
                            == parse_tokens_spec(inputs@.map_values(|t: String| t@))->Some_0);
                    }
                    Ok(())
                } else {
                    Err(StreamlineError::PolicyMissing(key))
                }
            }
            Err(e) => Err(e),
        }
    }
}

impl Default for DefaultModuleResolver {
    /// Same as `DefaultModuleResolver::new`.
    fn default() -> (r: DefaultModuleResolver)
        ensures
            r.inv(),
            r.entries().len() == 1,
            r.entries()[0].0@ == "BLOCK"@,
            r.sink_entries().len() == 1,
            r.sink_entries()[0].0@ == "graph_out"@,
    {
        DefaultModuleResolver::new()
    }
}

impl ModuleResolver for DefaultModuleResolver {
    closed spec fn entries(&self) -> Seq<(String, ResolvedModule)> {
        self.modules@
    }

    closed spec fn sink_entries(&self) -> Seq<(String, SinkConfig)> {
        self.sinks@
    }

    closed spec fn inv(&self) -> bool {
        unique_keys(self.modules@) && unique_keys(self.sinks@)
    }

    fn set_module_once(&mut self, module_name: String, module: ResolvedModule) {
        match self.find_module_idx(module_name.as_str()) {
            Some(i) => {
                proof { lemma_find_assoc_index(self.modules@, module_name@, i as int); }
            }
            None => {
                proof { lemma_find_assoc_none(self.modules@, module_name@); }
                self.modules.push((module_name, module));
            }
        }
    }

    fn set_module(&mut self, module_name: String, module: ResolvedModule) {
        let ghost old_modules = self.modules@;
        let ghost entry = (module_name, module);
        match self.find_module_idx(module_name.as_str()) {
            Some(i) => {
                self.modules.set(i, (module_name, module));
                proof {
                    lemma_upsert_update(old_modules, entry, i as int);
                    assert(self.modules@ =~= old_modules.update(i as int, entry));
                }
            }
            None => {
                self.modules.push((module_name, module));
                proof {
                    lemma_upsert_push(old_modules, entry);
                    assert(self.modules@ =~= old_modules.push(entry));
                }
            }
        }
    }

    fn get<'a>(&'a self, module_name: &str) -> (r: Option<(&'a ResolvedModule, Option<&'a SinkConfig>)>) {
        match self.find_module_idx(module_name) {
            Some(i) => {
                proof { lemma_find_assoc_index(self.modules@, module_name@, i as int); }
                let sink = match self.find_sink_idx(module_name) {
                    Some(k) => {
                        proof { lemma_find_assoc_index(self.sinks@, module_name@, k as int); }
                        Some(&self.sinks[k].1)
                    }
                    None => {
                        proof { lemma_find_assoc_none(self.sinks@, module_name@); }
                        None
                    }
                };
                Some((&self.modules[i].1, sink))
            }
            None => {
                proof { lemma_find_assoc_none(self.modules@, module_name@); }
                None
            }
        }
    }

    fn get_user_modules<'a>(&'a self) -> (r: Vec<&'a Module>) {
        let mut r: Vec<&Module> = Vec::new();
        let mut i: usize = 0;
        while i < self.modules.len()
            invariant
                i <= self.modules@.len(),
                r@.map_values(|m: &Module| *m) == user_modules_spec(self.modules@.take(i as int)),
            decreases self.modules@.len() - i,
        {
            proof {
                lemma_user_modules_snoc(self.modules@.take(i as int), self.modules@[i as int]);
                assert(self.modules@.take(i + 1)
                    =~= self.modules@.take(i as int).push(self.modules@[i as int]));
            }
            match &self.modules[i].1 {
                ResolvedModule::Module(m) => {
                    r.push(m);
                    proof {
                        assert(r@.map_values(|m: &Module| *m)
                            =~= r@.drop_last().map_values(|m: &Module| *m).push(*r@.last()));
                    }
                }
                _ => {}
            }
            i += 1;
        }
        proof {
            assert(self.modules@.take(self.modules@.len() as int) =~= self.modules@);
        }
        r
    }

    fn add_mfn(&mut self, name: String, inputs: Vec<String>) {
        let parsed = parse_inputs_lenient(&inputs);
        let key = name.clone();
        let m = Module { name, inputs: parsed, kind: Kind::Mapper };
        let ghost mm = m;
        self.set_module(key, ResolvedModule::Module(m));
        proof {
            assert(self.entries()
                == upsert_assoc(old(self).entries(), (key, ResolvedModule::Module(mm))));
            assert(mm.name@ == key@);
            assert(inputs_view(mm.inputs@)
                == parse_tokens_lenient(inputs@.map_values(|t: String| t@)));
        }
    }

    fn add_sfn(&mut self, name: String, inputs: Vec<String>) {
        let parsed = parse_inputs_lenient(&inputs);
        let key = name.clone();
        let m = Module { name, inputs: parsed, kind: Kind::Store };
        let ghost mm = m;
        self.set_module(key, ResolvedModule::Module(m));
        proof {
            assert(self.entries()
                == upsert_assoc(old(self).entries(), (key, ResolvedModule::Module(mm))));
            assert(mm.name@ == key@);
            assert(inputs_view(mm.inputs@)
                == parse_tokens_lenient(inputs@.map_values(|t: String| t@)));
        }
    }
}

} // verus!
