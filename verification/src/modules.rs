//! The declaration-side data model: update policies, accessors, parsed input
//! specifications and user modules, together with the input-token parser.

use vstd::prelude::*;
use crate::text;

verus! {

/// How a store is written: overwrite, write-if-absent, or accumulate.
#[derive(Clone, Copy, PartialEq, Eq, Structural, Debug)]
pub enum UpdatePolicy {
    Add,
    SetValue,
    SetOnce,
}

impl UpdatePolicy {
    /// The view of the policy token used in the deployment manifest.
    pub open spec fn proto_string_spec(self) -> Seq<char> {
        match self {
            UpdatePolicy::Add => "add"@,
            UpdatePolicy::SetValue => "set"@,
            UpdatePolicy::SetOnce => "set_if_not_exists"@,
        }
    }

    /// Returns the manifest token for the update policy.
    pub fn to_proto_string(&self) -> (r: String)
        ensures
            r@ == self.proto_string_spec(),
    {
        let s = match self {
            UpdatePolicy::Add => "add",
            UpdatePolicy::SetValue => "set",
            UpdatePolicy::SetOnce => "set_if_not_exists",
        };
        String::from_str(s)
    }
}

/// The mode under which one module consumes another.
#[derive(Clone, Copy, PartialEq, Eq, Structural, Debug)]
pub enum Accessor {
    /// `name:deltas`
    Deltas,
    /// `name:get`
    Get,
    /// `name:add`, `name:set`, `name:setOnce`: a write handle with this policy
    Store(UpdatePolicy),
    /// No accessor suffix
    Default,
}

/// A parsed input token: the producer's name and the accessor used on it.
#[derive(Debug)]
pub struct Input {
    pub name: String,
    pub access: Accessor,
}

/// The kind of a user-declared module.
#[derive(Clone, Copy, PartialEq, Eq, Structural, Debug)]
pub enum Kind {
    Mapper,
    Store,
}

impl Kind {
    /// The view of the kind token used in the deployment manifest.
    pub open spec fn kind_string_spec(self) -> Seq<char> {
        match self {
            Kind::Mapper => "map"@,
            Kind::Store => "store"@,
        }
    }

    /// Returns the manifest token for the kind.
    pub fn to_kind_string(&self) -> (r: String)
        ensures
            r@ == self.kind_string_spec(),
    {
        let s = match self {
            Kind::Mapper => "map",
            Kind::Store => "store",
        };
        String::from_str(s)
    }
}

/// The errors the registry, resolver and generators can report. Each carries
/// the name of the offending module or token.
#[derive(Debug)]
pub enum StreamlineError {
    /// A reference to a module name that was never declared.
    NotFound(String),
    /// An accessor incompatible with the producer's kind or policy.
    TypeMismatch(String),
    /// An input token with a colon followed by an unrecognized word.
    MalformedSuffix(String),
    /// A store declaration whose trailing token carries no write policy.
    PolicyMissing(String),
}

/// What a well-formed input token parses to: the producer-name prefix and the
/// accessor named by the longest known suffix, or `None` when the token holds
/// a colon followed by an unrecognized word.
pub open spec fn parse_input_spec(t: Seq<char>) -> Option<(Seq<char>, Accessor)> {
    if text::ends_with(t, ":deltas"@) {
        Some((t.take(t.len() - 7), Accessor::Deltas))
    } else if text::ends_with(t, ":setOnce"@) {
        Some((t.take(t.len() - 8), Accessor::Store(UpdatePolicy::SetOnce)))
    } else if text::ends_with(t, ":get"@) {
        Some((t.take(t.len() - 4), Accessor::Get))
    } else if text::ends_with(t, ":add"@) {
        Some((t.take(t.len() - 4), Accessor::Store(UpdatePolicy::Add)))
    } else if text::ends_with(t, ":set"@) {
        Some((t.take(t.len() - 4), Accessor::Store(UpdatePolicy::SetValue)))
    } else if t.contains(':') {
        None
    } else {
        Some((t, Accessor::Default))
    }
}

/// Parses one input token into an `Input`; fails with `MalformedSuffix` on a
/// token whose colon suffix names no known accessor.
pub fn parse_input(token: &str) -> (r: Result<Input, StreamlineError>)
    ensures
        match r {
            Ok(i) => parse_input_spec(token@) == Some((i.name@, i.access)),
            Err(e) => parse_input_spec(token@) is None
                && (e matches StreamlineError::MalformedSuffix(t) && t@ == token@),
        },
{
    proof {
        reveal_strlit(":deltas");
        reveal_strlit(":setOnce");
        reveal_strlit(":get");
        reveal_strlit(":add");
        reveal_strlit(":set");
    }
    if text::str_ends_with(token, ":deltas") {
        let name = text::strip_suffix_len(token, 7);
        Ok(Input { name: String::from_str(name), access: Accessor::Deltas })
    } else if text::str_ends_with(token, ":setOnce") {
        let name = text::strip_suffix_len(token, 8);
        Ok(Input { name: String::from_str(name), access: Accessor::Store(UpdatePolicy::SetOnce) })
    } else if text::str_ends_with(token, ":get") {
        let name = text::strip_suffix_len(token, 4);
        Ok(Input { name: String::from_str(name), access: Accessor::Get })
    } else if text::str_ends_with(token, ":add") {
        let name = text::strip_suffix_len(token, 4);
        Ok(Input { name: String::from_str(name), access: Accessor::Store(UpdatePolicy::Add) })
    } else if text::str_ends_with(token, ":set") {
        let name = text::strip_suffix_len(token, 4);
        Ok(Input { name: String::from_str(name), access: Accessor::Store(UpdatePolicy::SetValue) })
    } else if text::str_contains_char(token, ':') {
        Err(StreamlineError::MalformedSuffix(String::from_str(token)))
    } else {
        Ok(Input { name: String::from_str(token), access: Accessor::Default })
    }
}

/// A user-declared module: a unique name, the parsed input list in declared
/// order, and its kind. A store's trailing input carries its own write policy.
#[derive(Debug)]
pub struct Module {
    pub name: String,
    pub inputs: Vec<Input>,
    pub kind: Kind,
}

/// The sequence of parses of a token list; `None` as soon as one token is
/// malformed.
pub open spec fn parse_tokens_spec(tokens: Seq<Seq<char>>) -> Option<Seq<(Seq<char>, Accessor)>>
    decreases tokens.len(),
{
    if tokens.len() == 0 {
        Some(Seq::empty())
    } else {
        match (parse_input_spec(tokens[0]), parse_tokens_spec(tokens.skip(1))) {
            (Some(i), Some(rest)) => Some(seq![i] + rest),
            _ => None,
        }
    }
}

/// The views of a module's parsed inputs.
pub open spec fn inputs_view(inputs: Seq<Input>) -> Seq<(Seq<char>, Accessor)> {
    inputs.map_values(|i: Input| (i.name@, i.access))
}

/// The parses of a token list with malformed tokens dropped.
pub open spec fn parse_tokens_lenient(tokens: Seq<Seq<char>>) -> Seq<(Seq<char>, Accessor)>
    decreases tokens.len(),
{
    if tokens.len() == 0 {
        Seq::empty()
    } else {
        match parse_input_spec(tokens[0]) {
            Some(i) => seq![i] + parse_tokens_lenient(tokens.skip(1)),
            None => parse_tokens_lenient(tokens.skip(1)),
        }
    }
}

pub proof fn lemma_parse_lenient_snoc(tokens: Seq<Seq<char>>, t: Seq<char>)
    ensures
        parse_tokens_lenient(tokens.push(t)) == match parse_input_spec(t) {
            Some(i) => parse_tokens_lenient(tokens).push(i),
            None => parse_tokens_lenient(tokens),
        },
    decreases tokens.len(),
{
    if tokens.len() == 0 {
        assert(tokens.push(t)[0] == t);
        assert(tokens.push(t).skip(1) =~= Seq::<Seq<char>>::empty());
        assert(parse_tokens_lenient(Seq::<Seq<char>>::empty())
            == Seq::<(Seq<char>, Accessor)>::empty());
        assert(parse_tokens_lenient(tokens.push(t).skip(1))
            == Seq::<(Seq<char>, Accessor)>::empty());
        assert(parse_tokens_lenient(tokens) == Seq::<(Seq<char>, Accessor)>::empty());
        match parse_input_spec(t) {
            Some(i) => {
                assert(parse_tokens_lenient(tokens.push(t))
                    == seq![i] + Seq::<(Seq<char>, Accessor)>::empty());
                assert(seq![i] + Seq::<(Seq<char>, Accessor)>::empty()
                    =~= Seq::<(Seq<char>, Accessor)>::empty().push(i));
            }
            None => {
                assert(parse_tokens_lenient(tokens.push(t))
                    == Seq::<(Seq<char>, Accessor)>::empty());
            }
        }
    } else {
        assert(tokens.push(t)[0] == tokens[0]);
        assert(tokens.push(t).skip(1) =~= tokens.skip(1).push(t));
        lemma_parse_lenient_snoc(tokens.skip(1), t);
        let rest = parse_tokens_lenient(tokens.skip(1));
        match parse_input_spec(tokens[0]) {
            Some(head) => {
                assert(parse_tokens_lenient(tokens) == seq![head] + rest);
                match parse_input_spec(t) {
                    Some(i) => {
                        assert(parse_tokens_lenient(tokens.push(t)) == seq![head] + rest.push(i));
                        assert(seq![head] + rest.push(i) =~= (seq![head] + rest).push(i));
                    }
                    None => {
                        assert(parse_tokens_lenient(tokens.push(t)) == seq![head] + rest);
                    }
                }
            }
            None => {
                assert(parse_tokens_lenient(tokens) == rest);
                match parse_input_spec(t) {
                    Some(i) => {
                        assert(parse_tokens_lenient(tokens.push(t)) == rest.push(i));
                    }
                    None => {
                        assert(parse_tokens_lenient(tokens.push(t)) == rest);
                    }
                }
            }
        }
    }
}

/// Parses a token list, dropping malformed tokens.
pub fn parse_inputs_lenient(tokens: &Vec<String>) -> (r: Vec<Input>)
    ensures
        inputs_view(r@) == parse_tokens_lenient(tokens@.map_values(|t: String| t@)),
{
    let ghost token_views = tokens@.map_values(|t: String| t@);
    let mut parsed: Vec<Input> = Vec::new();
    let mut i: usize = 0;
    while i < tokens.len()
        invariant
            i <= tokens.len(),
            token_views == tokens@.map_values(|t: String| t@),
            token_views.len() == tokens.len(),
            inputs_view(parsed@) == parse_tokens_lenient(token_views.take(i as int)),
        decreases tokens.len() - i,
    {
        let ghost prefix = token_views.take(i as int);
        proof {
            lemma_parse_lenient_snoc(prefix, token_views[i as int]);
            assert(token_views.take(i + 1) =~= prefix.push(token_views[i as int]));
        }
        match parse_input(&tokens[i]) {
            Ok(input) => {
                parsed.push(input);
                proof {
                    assert(inputs_view(parsed@)
                        =~= inputs_view(parsed@.drop_last()).push((parsed@.last().name@, parsed@.last().access)));
                }
            }
            Err(_) => {}
        }
        i += 1;
    }
    assert(token_views.take(tokens.len() as int) =~= token_views);
    parsed
}

impl Module {
    /// The policy carried by the trailing input, when that input is a write
    /// handle; a store's own update policy.
    pub open spec fn update_policy_spec(self) -> Option<UpdatePolicy> {
        if self.inputs.len() > 0 {
            match self.inputs@.last().access {
                Accessor::Store(p) => Some(p),
                _ => None,
            }
        } else {
            None
        }
    }

    /// The wire type of the module's own output: the scalar accumulator for an
    /// `Add` store, the generic structured value otherwise.
    pub open spec fn output_type_spec(self) -> Seq<char> {
        match self.update_policy_spec() {
            Some(UpdatePolicy::Add) => "bigint"@,
            _ => "proto:google.protobuf.Value"@,
        }
    }

    /// Parses every token and builds a module of the given kind; fails with
    /// `MalformedSuffix` when a token does not parse.
    pub fn new(name: String, inputs: &Vec<String>, kind: Kind) -> (r: Result<Module, StreamlineError>)
        ensures
            match r {
                Ok(m) => {
                    &&& m.name@ == name@
                    &&& m.kind == kind
                    &&& parse_tokens_spec(inputs@.map_values(|t: String| t@))
                        == Some(inputs_view(m.inputs@))
                },
                Err(e) => parse_tokens_spec(inputs@.map_values(|t: String| t@)) is None
                    && (e matches StreamlineError::MalformedSuffix(t)
                        && parse_input_spec(t@) is None),
            },
    {
        let ghost token_views = inputs@.map_values(|t: String| t@);
        let mut parsed: Vec<Input> = Vec::new();
        let mut i: usize = 0;
        while i < inputs.len()
            invariant
                i <= inputs.len(),
                token_views == inputs@.map_values(|t: String| t@),
                token_views.len() == inputs.len(),
                parse_tokens_spec(token_views.take(i as int)) == Some(inputs_view(parsed@)),
            decreases inputs.len() - i,
        {
            let ghost prefix = token_views.take(i as int);
            match parse_input(&inputs[i]) {
                Ok(input) => {
                    parsed.push(input);
                    proof {
                        lemma_parse_tokens_snoc(prefix, token_views[i as int]);
                        assert(token_views.take(i + 1) =~= prefix.push(token_views[i as int]));
                        assert(inputs_view(parsed@)
                            =~= inputs_view(parsed@.drop_last()).push((parsed@.last().name@, parsed@.last().access)));
                    }
                }
                Err(e) => {
                    proof {
                        lemma_parse_tokens_bad(token_views, i as int);
                    }
                    return Err(e);
                }
            }
            i += 1;
        }
        assert(token_views.take(inputs.len() as int) =~= token_views);
        Ok(Module { name, inputs: parsed, kind })
    }

    /// Returns the producer names of the inputs, in declared order.
    pub fn input_names(&self) -> (r: Vec<&str>)
        ensures
            r@.len() == self.inputs@.len(),
            forall|j: int| 0 <= j < r@.len() ==> r@[j]@ == self.inputs@[j].name@,
    {
        let mut r: Vec<&str> = Vec::new();
        let mut i: usize = 0;
        while i < self.inputs.len()
            invariant
                i <= self.inputs.len(),
                r@.len() == i,
                forall|j: int| 0 <= j < i ==> r@[j]@ == self.inputs@[j].name@,
            decreases self.inputs.len() - i,
        {
            r.push(self.inputs[i].name.as_str());
            i += 1;
        }
        r
    }

    /// Returns the trailing input's write policy, when there is one.
    pub fn update_policy(&self) -> (r: Option<UpdatePolicy>)
        ensures
            r == self.update_policy_spec(),
    {
        if self.inputs.len() == 0 {
            return None;
        }
        match self.inputs[self.inputs.len() - 1].access {
            Accessor::Store(p) => Some(p),
            _ => None,
        }
    }

    /// Returns the wire type of the module's own output.
    pub fn output_type(&self) -> (r: String)
        ensures
            r@ == self.output_type_spec(),
    {
        let s = match self.update_policy() {
            Some(UpdatePolicy::Add) => "bigint",
            _ => "proto:google.protobuf.Value",
        };
        String::from_str(s)
    }
}

proof fn lemma_parse_tokens_snoc(tokens: Seq<Seq<char>>, t: Seq<char>)
    requires
        parse_tokens_spec(tokens) is Some,
        parse_input_spec(t) is Some,
    ensures
        parse_tokens_spec(tokens.push(t))
            == Some(parse_tokens_spec(tokens)->Some_0.push(parse_input_spec(t)->Some_0)),
    decreases tokens.len(),
{
    if tokens.len() == 0 {
        assert(tokens.push(t)[0] == t);
        assert(tokens.push(t).skip(1) =~= Seq::<Seq<char>>::empty());
        assert(parse_tokens_spec(Seq::<Seq<char>>::empty())
            == Some(Seq::<(Seq<char>, Accessor)>::empty()));
        assert(parse_tokens_spec(tokens.push(t).skip(1))
            == Some(Seq::<(Seq<char>, Accessor)>::empty()));
        assert(parse_tokens_spec(tokens.push(t))
            == Some(seq![parse_input_spec(t)->Some_0] + Seq::<(Seq<char>, Accessor)>::empty()));
        assert(seq![parse_input_spec(t)->Some_0] + Seq::<(Seq<char>, Accessor)>::empty()
            =~= Seq::<(Seq<char>, Accessor)>::empty().push(parse_input_spec(t)->Some_0));
        assert(parse_tokens_spec(tokens) == Some(Seq::<(Seq<char>, Accessor)>::empty()));
    } else {
        assert(tokens.push(t)[0] == tokens[0]);
        assert(tokens.push(t).skip(1) =~= tokens.skip(1).push(t));
        lemma_parse_tokens_snoc(tokens.skip(1), t);
        let head = parse_input_spec(tokens[0])->Some_0;
        let rest = parse_tokens_spec(tokens.skip(1))->Some_0;
        assert(parse_tokens_spec(tokens.push(t))
            == Some(seq![head] + rest.push(parse_input_spec(t)->Some_0)));
        assert(seq![head] + rest.push(parse_input_spec(t)->Some_0)
            =~= (seq![head] + rest).push(parse_input_spec(t)->Some_0));
        assert(parse_tokens_spec(tokens) == Some(seq![head] + rest));
    }
}

/// A successfully parsed token list yields exactly one input per token.
pub proof fn lemma_parse_tokens_len(tokens: Seq<Seq<char>>)
    requires
        parse_tokens_spec(tokens) is Some,
    ensures
        parse_tokens_spec(tokens)->Some_0.len() == tokens.len(),
    decreases tokens.len(),
{
    if tokens.len() > 0 {
        lemma_parse_tokens_len(tokens.skip(1));
    }
}

proof fn lemma_parse_tokens_bad(tokens: Seq<Seq<char>>, i: int)
    requires
        0 <= i < tokens.len(),
        parse_input_spec(tokens[i]) is None,
    ensures
        parse_tokens_spec(tokens) is None,
    decreases i,
{
    if i == 0 {
    } else {
        lemma_parse_tokens_bad(tokens.skip(1), i - 1);
    }
}

} // verus!
