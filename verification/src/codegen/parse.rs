//! Parsing the manifest's substituted region back into module descriptors,
//! and the proof that parsing inverts serialization.

use vstd::prelude::*;
use crate::codegen::yaml::{InputView, ModuleView, YamlInput, YamlModule, input_lines,
    inputs_lines, module_lines, module_tail_lines, modules_lines, lines_text, yaml_input_of,
    yaml_inputs_of, yaml_module_of, yaml_modules_of, yi_view, ym_view};
use crate::modules::{Input, Module, UpdatePolicy};
use crate::sink::{ResolvedModule, SinkConfig, find_assoc};
use crate::text::{dec_digits, dec_digits_signed, digit_char};

verus! {

/// `p` is a prefix of `s`.
pub open spec fn starts_with(s: Seq<char>, p: Seq<char>) -> bool {
    p.len() <= s.len() && s.take(p.len() as int) == p
}

/// What remains of `s` after a prefix of `p`'s length.
pub open spec fn after(s: Seq<char>, p: Seq<char>) -> Seq<char> {
    s.skip(p.len() as int)
}

/// The index of the first occurrence of `c` in `s`; `s.len()` when absent.
pub open spec fn idx_of(s: Seq<char>, c: char) -> int
    decreases s.len(),
{
    if s.len() == 0 {
        0
    } else if s[0] == c {
        0
    } else {
        1 + idx_of(s.skip(1), c)
    }
}

/// Splits one input line's body (after the dash marker) at the first colon.
pub open spec fn parse_input_line(line: Seq<char>) -> Option<(Seq<char>, Seq<char>)> {
    let body = after(line, "  - "@);
    let k = idx_of(body, ':');
    if k < body.len() && k + 1 < body.len() && body[k + 1] == ' ' {
        Some((body.take(k), body.skip(k + 2)))
    } else {
        None
    }
}

/// Parses descriptor inputs while lines carry the input marker; returns the
/// parsed inputs and the lines that follow them.
pub open spec fn parse_inputs(lines: Seq<Seq<char>>) -> Option<(Seq<InputView>, Seq<Seq<char>>)>
    decreases lines.len(),
{
    if lines.len() == 0 || !starts_with(lines[0], "  - "@) {
        Some((Seq::empty(), lines))
    } else {
        match parse_input_line(lines[0]) {
            None => None,
            Some((role, name)) => {
                let has_mode = lines.len() >= 2 && starts_with(lines[1], "    mode: "@);
                let mode: Option<Seq<char>> = if has_mode {
                    Some(after(lines[1], "    mode: "@))
                } else {
                    None
                };
                let rest = if has_mode {
                    lines.skip(2)
                } else {
                    lines.skip(1)
                };
                match parse_inputs(rest) {
                    None => None,
                    Some((ivs, rest2)) => Some((seq![(name, role, mode)] + ivs, rest2)),
                }
            },
        }
    }
}

/// Parses a module's trailing lines: value type and policy for a store, the
/// output block for a map.
pub open spec fn parse_tail(lines: Seq<Seq<char>>) -> Option<((Option<Seq<char>>, Seq<char>),
    Seq<Seq<char>>)> {
    if lines.len() >= 2 && starts_with(lines[0], "  valueType: "@) && starts_with(lines[1],
        "  updatePolicy: "@) {
        Some(((Some(after(lines[1], "  updatePolicy: "@)), after(lines[0], "  valueType: "@)),
            lines.skip(2)))
    } else if lines.len() >= 2 && lines[0] == "  output:"@ && starts_with(lines[1], "    type: "@) {
        Some(((None, after(lines[1], "    type: "@)), lines.skip(2)))
    } else {
        None
    }
}

/// Parses one module descriptor block and returns the lines that follow it.
pub open spec fn parse_module(lines: Seq<Seq<char>>) -> Option<(ModuleView, Seq<Seq<char>>)> {
    if lines.len() >= 2 && starts_with(lines[0], "- name: "@) && starts_with(lines[1],
        "  kind: "@) {
        let name = after(lines[0], "- name: "@);
        let kind = after(lines[1], "  kind: "@);
        let rest0 = lines.skip(2);
        let rest1 = if rest0.len() >= 1 && starts_with(rest0[0], "  initialBlock: "@) {
            rest0.skip(1)
        } else {
            rest0
        };
        if rest1.len() >= 2 && rest1[0] == "  inputs:"@ && rest1[1] == "  - params: string"@ {
            match parse_inputs(rest1.skip(2)) {
                None => None,
                Some((ivs, rest2)) => match parse_tail(rest2) {
                    None => None,
                    Some(((pol, out), rest3)) => Some(((name, kind, ivs, pol, out), rest3)),
                },
            }
        } else {
            None
        }
    } else {
        None
    }
}

/// Parses the whole substituted region back into module descriptors.
pub open spec fn parse_modules(lines: Seq<Seq<char>>) -> Option<Seq<ModuleView>>
    decreases lines.len(),
{
    if lines.len() == 0 {
        Some(Seq::empty())
    } else {
        match parse_module(lines) {
            None => None,
            Some((mv, rest)) => if rest.len() < lines.len() {
                match parse_modules(rest) {
                    None => None,
                    Some(mvs) => Some(seq![mv] + mvs),
                }
            } else {
                None
            },
        }
    }
}

/// Splits text into newline-terminated lines.
pub open spec fn split_lines(s: Seq<char>) -> Seq<Seq<char>>
    decreases s.len(),
{
    if s.len() == 0 {
        Seq::empty()
    } else {
        let k = idx_of(s, '\n');
        if 0 <= k < s.len() {
            seq![s.take(k)] + split_lines(s.skip(k + 1))
        } else {
            seq![s]
        }
    }
}

/// `s` holds no newline.
pub open spec fn no_nl(s: Seq<char>) -> bool {
    !s.contains('\n')
}

/// A descriptor input that the line format can carry: no newlines, and a role
/// free of colons.
pub open spec fn wf_input_view(iv: InputView) -> bool {
    &&& no_nl(iv.0)
    &&& no_nl(iv.1)
    &&& !iv.1.contains(':')
    &&& match iv.2 {
        Some(m) => no_nl(m),
        None => true,
    }
}

/// A module descriptor that the line format can carry: no newlines in any
/// field, and well-formed inputs.
pub open spec fn wf_module_view(mv: ModuleView) -> bool {
    &&& no_nl(mv.0)
    &&& no_nl(mv.1)
    &&& no_nl(mv.4)
    &&& match mv.3 {
        Some(p) => no_nl(p),
        None => true,
    }
    &&& forall|j: int| 0 <= j < mv.2.len() ==> wf_input_view(#[trigger] mv.2[j])
}

proof fn lemma_starts_with_concat(p: Seq<char>, x: Seq<char>)
    ensures
        starts_with(p + x, p),
        after(p + x, p) == x,
{
    assert((p + x).take(p.len() as int) =~= p);
    assert((p + x).skip(p.len() as int) =~= x);
}

proof fn lemma_not_starts_with_at(s: Seq<char>, p: Seq<char>, i: int)
    requires
        0 <= i < p.len(),
        i < s.len(),
        s[i] != p[i],
    ensures
        !starts_with(s, p),
{
    if starts_with(s, p) {
        assert(s.take(p.len() as int)[i] == s[i]);
    }
}

proof fn lemma_idx_of_concat(a: Seq<char>, b: Seq<char>, c: char)
    requires
        !a.contains(c),
        b.len() > 0,
        b[0] == c,
    ensures
        idx_of(a + b, c) == a.len(),
    decreases a.len(),
{
    if a.len() == 0 {
        assert(a + b =~= b);
    } else {
        assert((a + b)[0] == a[0]);
        assert(a[0] != c);
        assert((a + b).skip(1) =~= a.skip(1) + b);
        assert(!a.skip(1).contains(c)) by {
            if a.skip(1).contains(c) {
                let j = choose|j: int| 0 <= j < a.skip(1).len() && a.skip(1)[j] == c;
                assert(a[j + 1] == c);
            }
        };
        lemma_idx_of_concat(a.skip(1), b, c);
    }
}

proof fn lemma_parse_inputs_round(ivs: Seq<InputView>, rest: Seq<Seq<char>>)
    requires
        forall|j: int| 0 <= j < ivs.len() ==> wf_input_view(#[trigger] ivs[j]),
        rest.len() == 0 || (!starts_with(rest[0], "  - "@) && !starts_with(rest[0],
            "    mode: "@)),
    ensures
        parse_inputs(inputs_lines(ivs) + rest) == Some((ivs, rest)),
    decreases ivs.len(),
{
    reveal_strlit("  - ");
    reveal_strlit("    mode: ");
    reveal_strlit(": ");
    if ivs.len() == 0 {
        assert(inputs_lines(ivs) == Seq::<Seq<char>>::empty());
        assert(inputs_lines(ivs) + rest =~= rest);
        assert(parse_inputs(rest) == Some((Seq::<InputView>::empty(), rest)));
    } else {
        let iv = ivs[0];
        let tail = ivs.skip(1);
        assert(wf_input_view(iv));
        assert(forall|j: int| 0 <= j < tail.len() ==> wf_input_view(#[trigger] tail[j])) by {
            assert(forall|j: int| 0 <= j < tail.len() ==> tail[j] == ivs[j + 1]);
        };
        let l0 = "  - "@ + iv.1 + ": "@ + iv.0;
        let body = iv.1 + ": "@ + iv.0;
        let lines = inputs_lines(ivs) + rest;
        assert(inputs_lines(ivs) == input_lines(iv) + inputs_lines(tail));
        assert(lines =~= input_lines(iv) + (inputs_lines(tail) + rest));

        // the head line decomposes as marker + body
        assert(l0 =~= "  - "@ + body);
        lemma_starts_with_concat("  - "@, body);
        assert(lines[0] == l0);
        assert(starts_with(lines[0], "  - "@));
        assert(after(lines[0], "  - "@) == body);

        // the body splits at the first colon
        assert(body =~= iv.1 + (": "@ + iv.0));
        assert((": "@).len() == 2);
        assert((": "@)[0] == ':');
        lemma_idx_of_concat(iv.1, ": "@ + iv.0, ':');
        let k = idx_of(body, ':');
        assert(k == iv.1.len());
        assert(body.len() == k + 2 + iv.0.len());
        assert(body[k + 1] == (": "@ + iv.0)[1]);
        assert(body[k + 1] == ' ');
        assert(body.take(k) =~= iv.1);
        assert(body.skip(k + 2) =~= iv.0);
        assert(parse_input_line(lines[0]) == Some((iv.1, iv.0)));

        match iv.2 {
            Some(m) => {
                let l1 = "    mode: "@ + m;
                assert(input_lines(iv) == seq![l0, l1]);
                assert(lines.len() >= 2);
                assert(lines[1] == l1);
                lemma_starts_with_concat("    mode: "@, m);
                assert(starts_with(lines[1], "    mode: "@));
                assert(after(lines[1], "    mode: "@) == m);
                assert(lines.skip(2) =~= inputs_lines(tail) + rest);
                lemma_parse_inputs_round(tail, rest);
                assert(parse_inputs(lines) == Some((seq![(iv.0, iv.1, Some(m))] + tail, rest)));
                assert((iv.0, iv.1, iv.2) == iv);
                assert(seq![iv] + tail =~= ivs);
            }
            None => {
                assert(input_lines(iv) == seq![l0]);
                assert(lines.skip(1) =~= inputs_lines(tail) + rest);
                // the following line, if any, is no mode line
                if lines.len() >= 2 {
                    assert(lines[1] == (inputs_lines(tail) + rest)[0]);
                    if tail.len() > 0 {
                        assert(inputs_lines(tail)[0] == input_lines(tail[0])[0]);
                        let t0 = "  - "@ + tail[0].1 + ": "@ + tail[0].0;
                        assert(lines[1] == t0);
                        assert(t0[2] == '-');
                        assert(("    mode: "@)[2] == ' ');
                        lemma_not_starts_with_at(t0, "    mode: "@, 2);
                    } else {
                        assert(inputs_lines(tail) == Seq::<Seq<char>>::empty());
                        assert(inputs_lines(tail) + rest =~= rest);
                        assert(lines[1] == rest[0]);
                    }
                    assert(!starts_with(lines[1], "    mode: "@));
                }
                lemma_parse_inputs_round(tail, rest);
                assert(parse_inputs(lines) == Some((seq![(iv.0, iv.1, None::<Seq<char>>)] + tail,
                    rest)));
                assert((iv.0, iv.1, iv.2) == iv);
                assert(seq![iv] + tail =~= ivs);
            }
        }
    }
}

proof fn lemma_parse_tail_round(mv: ModuleView, rest: Seq<Seq<char>>)
    ensures
        parse_tail(module_tail_lines(mv) + rest) == Some(((mv.3, mv.4), rest)),
{
    reveal_strlit("  valueType: ");
    reveal_strlit("  updatePolicy: ");
    reveal_strlit("  output:");
    reveal_strlit("    type: ");
    let lines = module_tail_lines(mv) + rest;
    match mv.3 {
        Some(p) => {
            let l0 = "  valueType: "@ + mv.4;
            let l1 = "  updatePolicy: "@ + p;
            assert(module_tail_lines(mv) == seq![l0, l1]);
            assert(lines.len() >= 2);
            assert(lines[0] == l0);
            assert(lines[1] == l1);
            lemma_starts_with_concat("  valueType: "@, mv.4);
            lemma_starts_with_concat("  updatePolicy: "@, p);
            assert(lines.skip(2) =~= rest);
        }
        None => {
            let l0 = "  output:"@;
            let l1 = "    type: "@ + mv.4;
            assert(module_tail_lines(mv) == seq![l0, l1]);
            assert(lines.len() >= 2);
            assert(lines[0] == l0);
            assert(lines[1] == l1);
            // the output block does not look like a value-type line
            assert(("  output:"@).len() == 9);
            assert(("  valueType: "@).len() == 13);
            assert(!starts_with(lines[0], "  valueType: "@));
            lemma_starts_with_concat("    type: "@, mv.4);
            assert(lines.skip(2) =~= rest);
        }
    }
}

proof fn lemma_parse_module_round(mv: ModuleView, sb: Option<i64>, rest: Seq<Seq<char>>)
    requires
        wf_module_view(mv),
    ensures
        parse_module(module_lines(mv, sb) + rest) == Some((mv, rest)),
        module_lines(mv, sb).len() > 0,
{
    reveal_strlit("- name: ");
    reveal_strlit("  kind: ");
    reveal_strlit("  initialBlock: ");
    reveal_strlit("  inputs:");
    reveal_strlit("  - params: string");
    reveal_strlit("  - ");
    reveal_strlit("    mode: ");
    reveal_strlit("  valueType: ");
    reveal_strlit("  output:");
    let lines = module_lines(mv, sb) + rest;
    let l0 = "- name: "@ + mv.0;
    let l1 = "  kind: "@ + mv.1;
    let sbpart: Seq<Seq<char>> = match sb {
        Some(n) => seq!["  initialBlock: "@ + dec_digits_signed(n as int)],
        None => Seq::empty(),
    };
    let mids: Seq<Seq<char>> = seq!["  inputs:"@, "  - params: string"@];
    assert(module_lines(mv, sb) == seq![l0, l1] + sbpart + mids + inputs_lines(mv.2)
        + module_tail_lines(mv));
    assert(lines.len() >= 2);
    assert(lines[0] == l0);
    assert(lines[1] == l1);
    lemma_starts_with_concat("- name: "@, mv.0);
    lemma_starts_with_concat("  kind: "@, mv.1);
    let rest0 = lines.skip(2);
    assert(rest0 =~= sbpart + mids + inputs_lines(mv.2) + module_tail_lines(mv) + rest);
    match sb {
        Some(n) => {
            assert(rest0[0] == "  initialBlock: "@ + dec_digits_signed(n as int));
            lemma_starts_with_concat("  initialBlock: "@, dec_digits_signed(n as int));
            assert(starts_with(rest0[0], "  initialBlock: "@));
            assert(rest0.skip(1) =~= mids + inputs_lines(mv.2) + module_tail_lines(mv) + rest);
        }
        None => {
            assert(rest0[0] == "  inputs:"@);
            assert(("  inputs:"@)[4] == 'p');
            assert(("  initialBlock: "@)[4] == 'i');
            lemma_not_starts_with_at(rest0[0], "  initialBlock: "@, 4);
            assert(rest0 =~= mids + inputs_lines(mv.2) + module_tail_lines(mv) + rest);
        }
    }
    let restm = mids + inputs_lines(mv.2) + module_tail_lines(mv) + rest;
    assert(restm[0] == "  inputs:"@);
    assert(restm[1] == "  - params: string"@);
    assert(restm.len() >= 2);
    assert(restm.skip(2) =~= inputs_lines(mv.2) + (module_tail_lines(mv) + rest));

    // the tail stops the input loop
    let stopper = (module_tail_lines(mv) + rest)[0];
    match mv.3 {
        Some(p) => {
            assert(stopper == "  valueType: "@ + mv.4);
            assert(stopper[2] == 'v');
        }
        None => {
            assert(stopper == "  output:"@);
            assert(stopper[2] == 'o');
        }
    }
    assert(("  - "@)[2] == '-');
    assert(("    mode: "@)[2] == ' ');
    lemma_not_starts_with_at(stopper, "  - "@, 2);
    lemma_not_starts_with_at(stopper, "    mode: "@, 2);

    lemma_parse_inputs_round(mv.2, module_tail_lines(mv) + rest);
    lemma_parse_tail_round(mv, rest);
    assert((mv.0, mv.1, mv.2, mv.3, mv.4) == mv);
}

/// Parsing inverts serialization, module block by module block.
pub proof fn lemma_parse_modules_round(mvs: Seq<ModuleView>, sb: Option<i64>)
    requires
        forall|j: int| 0 <= j < mvs.len() ==> wf_module_view(#[trigger] mvs[j]),
    ensures
        parse_modules(modules_lines(mvs, sb)) == Some(mvs),
    decreases mvs.len(),
{
    if mvs.len() == 0 {
    } else {
        let mv = mvs[0];
        let tail = mvs.skip(1);
        assert(forall|j: int| 0 <= j < tail.len() ==> wf_module_view(#[trigger] tail[j])) by {
            assert(forall|j: int| 0 <= j < tail.len() ==> tail[j] == mvs[j + 1]);
        };
        let rest = modules_lines(tail, sb);
        let lines = modules_lines(mvs, sb);
        assert(lines == module_lines(mv, sb) + rest);
        lemma_parse_module_round(mv, sb, rest);
        assert(lines.len() == module_lines(mv, sb).len() + rest.len());
        assert(rest.len() < lines.len());
        lemma_parse_modules_round(tail, sb);
        assert(seq![mv] + tail =~= mvs);
    }
}

proof fn lemma_dec_digits_no_nl(n: int)
    requires
        n >= 0,
    ensures
        no_nl(dec_digits(n)),
    decreases n,
{
    if n < 10 {
        assert(digit_char(n) != '\n');
        assert(forall|j: int| 0 <= j < dec_digits(n).len() ==> dec_digits(n)[j] != '\n');
    } else {
        lemma_dec_digits_no_nl(n / 10);
        assert(digit_char(n % 10) != '\n');
        assert(forall|j: int| 0 <= j < dec_digits(n).len() ==> dec_digits(n)[j] != '\n') by {
            assert(forall|j: int| 0 <= j < dec_digits(n / 10).len()
                ==> dec_digits(n)[j] == dec_digits(n / 10)[j]);
        };
    }
}

proof fn lemma_no_nl_concat(a: Seq<char>, b: Seq<char>)
    requires
        no_nl(a),
        no_nl(b),
    ensures
        no_nl(a + b),
{
    if (a + b).contains('\n') {
        let j = choose|j: int| 0 <= j < (a + b).len() && (a + b)[j] == '\n';
        if j < a.len() {
            assert(a[j] == '\n');
        } else {
            assert(b[j - a.len()] == '\n');
        }
    }
}

proof fn lemma_strlit_no_nl(s: Seq<char>)
    requires
        forall|j: int| 0 <= j < s.len() ==> s[j] != '\n',
    ensures
        no_nl(s),
{
}

proof fn lemma_module_lines_no_nl(mv: ModuleView, sb: Option<i64>)
    requires
        wf_module_view(mv),
    ensures
        forall|j: int| 0 <= j < module_lines(mv, sb).len()
            ==> no_nl(#[trigger] module_lines(mv, sb)[j]),
{
    reveal_strlit("- name: ");
    reveal_strlit("  kind: ");
    reveal_strlit("  initialBlock: ");
    reveal_strlit("  inputs:");
    reveal_strlit("  - params: string");
    reveal_strlit("  - ");
    reveal_strlit("    mode: ");
    reveal_strlit(": ");
    reveal_strlit("  valueType: ");
    reveal_strlit("  updatePolicy: ");
    reveal_strlit("  output:");
    reveal_strlit("    type: ");
    assert forall|j: int| 0 <= j < module_lines(mv, sb).len()
        implies no_nl(#[trigger] module_lines(mv, sb)[j]) by {
        lemma_no_nl_strlits();
        let lines = module_lines(mv, sb);
        lemma_no_nl_concat("- name: "@, mv.0);
        lemma_no_nl_concat("  kind: "@, mv.1);
        match sb {
            Some(n) => {
                if n >= 0 {
                    lemma_dec_digits_no_nl(n as int);
                } else {
                    lemma_dec_digits_no_nl(-(n as int));
                    assert(('-') != '\n');
                    lemma_no_nl_concat(seq!['-'], dec_digits(-(n as int)));
                    assert(dec_digits_signed(n as int) == seq!['-'] + dec_digits(-(n as int)));
                }
                lemma_no_nl_concat("  initialBlock: "@, dec_digits_signed(n as int));
            }
            None => {}
        }
        lemma_inputs_lines_no_nl(mv.2);
        match mv.3 {
            Some(p) => {
                lemma_no_nl_concat("  valueType: "@, mv.4);
                lemma_no_nl_concat("  updatePolicy: "@, p);
            }
            None => {
                lemma_no_nl_concat("    type: "@, mv.4);
            }
        }
    };
}

proof fn lemma_no_nl_strlits()
    ensures
        no_nl("- name: "@),
        no_nl("  kind: "@),
        no_nl("  initialBlock: "@),
        no_nl("  inputs:"@),
        no_nl("  - params: string"@),
        no_nl("  - "@),
        no_nl("    mode: "@),
        no_nl(": "@),
        no_nl("  valueType: "@),
        no_nl("  updatePolicy: "@),
        no_nl("  output:"@),
        no_nl("    type: "@),
        no_nl(seq!['-']),
{
    reveal_strlit("- name: ");
    reveal_strlit("  kind: ");
    reveal_strlit("  initialBlock: ");
    reveal_strlit("  inputs:");
    reveal_strlit("  - params: string");
    reveal_strlit("  - ");
    reveal_strlit("    mode: ");
    reveal_strlit(": ");
    reveal_strlit("  valueType: ");
    reveal_strlit("  updatePolicy: ");
    reveal_strlit("  output:");
    reveal_strlit("    type: ");
    lemma_strlit_no_nl("- name: "@);
    lemma_strlit_no_nl("  kind: "@);
    lemma_strlit_no_nl("  initialBlock: "@);
    lemma_strlit_no_nl("  inputs:"@);
    lemma_strlit_no_nl("  - params: string"@);
    lemma_strlit_no_nl("  - "@);
    lemma_strlit_no_nl("    mode: "@);
    lemma_strlit_no_nl(": "@);
    lemma_strlit_no_nl("  valueType: "@);
    lemma_strlit_no_nl("  updatePolicy: "@);
    lemma_strlit_no_nl("  output:"@);
    lemma_strlit_no_nl("    type: "@);
    lemma_strlit_no_nl(seq!['-']);
}

proof fn lemma_inputs_lines_no_nl(ivs: Seq<InputView>)
    requires
        forall|j: int| 0 <= j < ivs.len() ==> wf_input_view(#[trigger] ivs[j]),
    ensures
        forall|j: int| 0 <= j < inputs_lines(ivs).len()
            ==> no_nl(#[trigger] inputs_lines(ivs)[j]),
    decreases ivs.len(),
{
    if ivs.len() == 0 {
    } else {
        let iv = ivs[0];
        let tail = ivs.skip(1);
        assert(forall|j: int| 0 <= j < tail.len() ==> wf_input_view(#[trigger] tail[j])) by {
            assert(forall|j: int| 0 <= j < tail.len() ==> tail[j] == ivs[j + 1]);
        };
        lemma_inputs_lines_no_nl(tail);
        lemma_no_nl_strlits();
        lemma_no_nl_concat("  - "@, iv.1);
        lemma_no_nl_concat("  - "@ + iv.1, ": "@);
        lemma_no_nl_concat("  - "@ + iv.1 + ": "@, iv.0);
        match iv.2 {
            Some(m) => {
                lemma_no_nl_concat("    mode: "@, m);
            }
            None => {}
        }
        assert(inputs_lines(ivs) == input_lines(iv) + inputs_lines(tail));
        assert(forall|j: int| 0 <= j < inputs_lines(ivs).len()
            ==> no_nl(#[trigger] inputs_lines(ivs)[j])) by {
            assert(forall|j: int| input_lines(iv).len() <= j < inputs_lines(ivs).len()
                ==> inputs_lines(ivs)[j] == inputs_lines(tail)[j - input_lines(iv).len()]);
        };
    }
}

proof fn lemma_modules_lines_no_nl(mvs: Seq<ModuleView>, sb: Option<i64>)
    requires
        forall|j: int| 0 <= j < mvs.len() ==> wf_module_view(#[trigger] mvs[j]),
    ensures
        forall|j: int| 0 <= j < modules_lines(mvs, sb).len()
            ==> no_nl(#[trigger] modules_lines(mvs, sb)[j]),
    decreases mvs.len(),
{
    if mvs.len() == 0 {
    } else {
        let tail = mvs.skip(1);
        assert(forall|j: int| 0 <= j < tail.len() ==> wf_module_view(#[trigger] tail[j])) by {
            assert(forall|j: int| 0 <= j < tail.len() ==> tail[j] == mvs[j + 1]);
        };
        lemma_module_lines_no_nl(mvs[0], sb);
        lemma_modules_lines_no_nl(tail, sb);
        assert(modules_lines(mvs, sb) == module_lines(mvs[0], sb) + modules_lines(tail, sb));
        assert(forall|j: int| 0 <= j < modules_lines(mvs, sb).len()
            ==> no_nl(#[trigger] modules_lines(mvs, sb)[j])) by {
            assert(forall|j: int| module_lines(mvs[0], sb).len() <= j < modules_lines(mvs,
                sb).len() ==> modules_lines(mvs, sb)[j]
                == modules_lines(tail, sb)[j - module_lines(mvs[0], sb).len()]);
        };
    }
}

/// Splitting inverts rendering: newline-free lines joined with terminating
/// newlines split back into the same lines.
pub proof fn lemma_split_lines_text(lines: Seq<Seq<char>>)
    requires
        forall|j: int| 0 <= j < lines.len() ==> no_nl(#[trigger] lines[j]),
    ensures
        split_lines(lines_text(lines)) == lines,
    decreases lines.len(),
{
    if lines.len() == 0 {
    } else {
        let l0 = lines[0];
        let tail = lines.skip(1);
        assert(forall|j: int| 0 <= j < tail.len() ==> no_nl(#[trigger] tail[j])) by {
            assert(forall|j: int| 0 <= j < tail.len() ==> tail[j] == lines[j + 1]);
        };
        let t = lines_text(lines);
        assert(t == l0 + seq!['\n'] + lines_text(tail));
        assert(t =~= l0 + (seq!['\n'] + lines_text(tail)));
        lemma_idx_of_concat(l0, seq!['\n'] + lines_text(tail), '\n');
        let k = idx_of(t, '\n');
        assert(k == l0.len());
        assert(t.len() == l0.len() + 1 + lines_text(tail).len());
        assert(k < t.len());
        assert(t.take(k) =~= l0);
        assert(t.skip(k + 1) =~= lines_text(tail));
        lemma_split_lines_text(tail);
        assert(seq![l0] + tail =~= lines);
    }
}

/// Round trip: the module descriptors serialized into the manifest's
/// substituted region parse back out as the same descriptors. Holds for every
/// descriptor list whose names, kinds, modes and outputs are free of newlines
/// and whose input roles are free of colons.
pub proof fn lemma_manifest_round_trip(mvs: Seq<ModuleView>, sb: Option<i64>)
    requires
        forall|j: int| 0 <= j < mvs.len() ==> wf_module_view(#[trigger] mvs[j]),
    ensures
        parse_modules(split_lines(lines_text(modules_lines(mvs, sb)))) == Some(mvs),
{
    lemma_modules_lines_no_nl(mvs, sb);
    lemma_split_lines_text(modules_lines(mvs, sb));
    lemma_parse_modules_round(mvs, sb);
}

/// Every producer name bound in the registry is free of newlines.
pub open spec fn entry_names_ok(entries: Seq<(String, ResolvedModule)>) -> bool {
    forall|j: int| 0 <= j < entries.len() ==> match #[trigger] entries[j].1 {
        ResolvedModule::Module(m) => no_nl(m.name@),
        ResolvedModule::Source(s) => no_nl(s.protobuf_name@),
        ResolvedModule::SinkConfig(_) => true,
    }
}

/// Every registered sink's wire-type name is free of newlines.
pub open spec fn sink_names_ok(sinks: Seq<(String, SinkConfig)>) -> bool {
    forall|j: int| 0 <= j < sinks.len() ==> no_nl(#[trigger] sinks[j].1.protobuf_name@)
}

/// Every module in the list has a newline-free name.
pub open spec fn module_names_ok(ms: Seq<Module>) -> bool {
    forall|j: int| 0 <= j < ms.len() ==> no_nl(#[trigger] ms[j].name@)
}

proof fn lemma_find_entry_name_ok(entries: Seq<(String, ResolvedModule)>, n: Seq<char>)
    requires
        entry_names_ok(entries),
        find_assoc(entries, n) is Some,
    ensures
        match find_assoc(entries, n)->Some_0 {
            ResolvedModule::Module(m) => no_nl(m.name@),
            ResolvedModule::Source(s) => no_nl(s.protobuf_name@),
            ResolvedModule::SinkConfig(_) => true,
        },
    decreases entries.len(),
{
    if entries.len() > 0 && entries[0].0@ != n {
        assert(forall|j: int| 0 <= j < entries.skip(1).len()
            ==> entries.skip(1)[j] == entries[j + 1]);
        lemma_find_entry_name_ok(entries.skip(1), n);
    }
}

proof fn lemma_find_sink_name_ok(sinks: Seq<(String, SinkConfig)>, n: Seq<char>)
    requires
        sink_names_ok(sinks),
        find_assoc(sinks, n) is Some,
    ensures
        no_nl(find_assoc(sinks, n)->Some_0.protobuf_name@),
    decreases sinks.len(),
{
    if sinks.len() > 0 && sinks[0].0@ != n {
        assert(forall|j: int| 0 <= j < sinks.skip(1).len() ==> sinks.skip(1)[j] == sinks[j + 1]);
        lemma_find_sink_name_ok(sinks.skip(1), n);
    }
}

proof fn lemma_token_literals_wf()
    ensures
        no_nl("map"@) && !("map"@).contains(':'),
        no_nl("store"@) && !("store"@).contains(':'),
        no_nl("source"@) && !("source"@).contains(':'),
        no_nl("get"@),
        no_nl("deltas"@),
        no_nl("add"@),
        no_nl("set"@),
        no_nl("set_if_not_exists"@),
        no_nl("bigint"@),
        no_nl("proto:google.protobuf.Value"@),
{
    reveal_strlit("map");
    reveal_strlit("store");
    reveal_strlit("source");
    reveal_strlit("get");
    reveal_strlit("deltas");
    reveal_strlit("add");
    reveal_strlit("set");
    reveal_strlit("set_if_not_exists");
    reveal_strlit("bigint");
    reveal_strlit("proto:google.protobuf.Value");
    assert(forall|j: int| 0 <= j < ("map"@).len() ==> ("map"@)[j] != '\n');
    assert(forall|j: int| 0 <= j < ("map"@).len() ==> ("map"@)[j] != ':');
    assert(forall|j: int| 0 <= j < ("store"@).len() ==> ("store"@)[j] != '\n');
    assert(forall|j: int| 0 <= j < ("store"@).len() ==> ("store"@)[j] != ':');
    assert(forall|j: int| 0 <= j < ("source"@).len() ==> ("source"@)[j] != '\n');
    assert(forall|j: int| 0 <= j < ("source"@).len() ==> ("source"@)[j] != ':');
    assert(forall|j: int| 0 <= j < ("get"@).len() ==> ("get"@)[j] != '\n');
    assert(forall|j: int| 0 <= j < ("deltas"@).len() ==> ("deltas"@)[j] != '\n');
    assert(forall|j: int| 0 <= j < ("add"@).len() ==> ("add"@)[j] != '\n');
    assert(forall|j: int| 0 <= j < ("set"@).len() ==> ("set"@)[j] != '\n');
    assert(forall|j: int| 0 <= j < ("set_if_not_exists"@).len()
        ==> ("set_if_not_exists"@)[j] != '\n');
    assert(forall|j: int| 0 <= j < ("bigint"@).len() ==> ("bigint"@)[j] != '\n');
    assert(forall|j: int| 0 <= j < ("proto:google.protobuf.Value"@).len()
        ==> ("proto:google.protobuf.Value"@)[j] != '\n');
}

proof fn lemma_yaml_input_wf(i: Input, entries: Seq<(String, ResolvedModule)>)
    requires
        entry_names_ok(entries),
        yaml_input_of(i, entries) matches Ok(Some(iv)),
    ensures
        yaml_input_of(i, entries) matches Ok(Some(iv)) && wf_input_view(iv),
{
    lemma_token_literals_wf();
    lemma_find_entry_name_ok(entries, i.name@);
}

proof fn lemma_yaml_inputs_wf(inputs: Seq<Input>, entries: Seq<(String, ResolvedModule)>)
    requires
        entry_names_ok(entries),
        yaml_inputs_of(inputs, entries) is Ok,
    ensures
        forall|j: int| 0 <= j < yaml_inputs_of(inputs, entries)->Ok_0.len()
            ==> wf_input_view(#[trigger] yaml_inputs_of(inputs, entries)->Ok_0[j]),
    decreases inputs.len(),
{
    if inputs.len() > 0 {
        lemma_yaml_inputs_wf(inputs.skip(1), entries);
        let rest = yaml_inputs_of(inputs.skip(1), entries)->Ok_0;
        match yaml_input_of(inputs[0], entries) {
            Ok(Some(iv)) => {
                lemma_yaml_input_wf(inputs[0], entries);
                let all = yaml_inputs_of(inputs, entries)->Ok_0;
                assert(all == seq![iv] + rest);
                assert(forall|j: int| 1 <= j < all.len() ==> all[j] == rest[j - 1]);
            }
            _ => {}
        }
    }
}

proof fn lemma_yaml_module_wf(
    m: Module,
    entries: Seq<(String, ResolvedModule)>,
    sinks: Seq<(String, SinkConfig)>,
)
    requires
        entry_names_ok(entries),
        sink_names_ok(sinks),
        no_nl(m.name@),
        yaml_module_of(m, entries, sinks) is Ok,
    ensures
        wf_module_view(yaml_module_of(m, entries, sinks)->Ok_0),
{
    lemma_token_literals_wf();
    lemma_yaml_inputs_wf(m.inputs@, entries);
    if find_assoc(sinks, m.name@) is Some {
        lemma_find_sink_name_ok(sinks, m.name@);
    }
}

proof fn lemma_yaml_modules_wf(
    ms: Seq<Module>,
    entries: Seq<(String, ResolvedModule)>,
    sinks: Seq<(String, SinkConfig)>,
)
    requires
        entry_names_ok(entries),
        sink_names_ok(sinks),
        module_names_ok(ms),
        yaml_modules_of(ms, entries, sinks) is Ok,
    ensures
        forall|j: int| 0 <= j < yaml_modules_of(ms, entries, sinks)->Ok_0.len()
            ==> wf_module_view(#[trigger] yaml_modules_of(ms, entries, sinks)->Ok_0[j]),
    decreases ms.len(),
{
    if ms.len() > 0 {
        assert(forall|j: int| 0 <= j < ms.skip(1).len() ==> ms.skip(1)[j] == ms[j + 1]);
        lemma_yaml_modules_wf(ms.skip(1), entries, sinks);
        let rest = yaml_modules_of(ms.skip(1), entries, sinks)->Ok_0;
        lemma_yaml_module_wf(ms[0], entries, sinks);
        let mv = yaml_module_of(ms[0], entries, sinks)->Ok_0;
        let all = yaml_modules_of(ms, entries, sinks)->Ok_0;
        assert(all == seq![mv] + rest);
        assert(forall|j: int| 1 <= j < all.len() ==> all[j] == rest[j - 1]);
    }
}

/// Round trip from a declared registry: whenever every declared module name,
/// every producer name and every sink wire-type name is free of newlines, the
/// descriptors the manifest backend serializes for the registry parse back
/// out as the same descriptors.
pub proof fn lemma_registry_manifest_round_trip(
    ms: Seq<Module>,
    entries: Seq<(String, ResolvedModule)>,
    sinks: Seq<(String, SinkConfig)>,
    sb: Option<i64>,
)
    requires
        entry_names_ok(entries),
        sink_names_ok(sinks),
        module_names_ok(ms),
        yaml_modules_of(ms, entries, sinks) is Ok,
    ensures
        parse_modules(split_lines(lines_text(modules_lines(yaml_modules_of(ms, entries,
            sinks)->Ok_0, sb)))) == Some(yaml_modules_of(ms, entries, sinks)->Ok_0),
{
    lemma_yaml_modules_wf(ms, entries, sinks);
    lemma_manifest_round_trip(yaml_modules_of(ms, entries, sinks)->Ok_0, sb);
}

proof fn lemma_idx_of_found(s: Seq<char>, c: char, i: int)
    requires
        0 <= i < s.len(),
        s[i] == c,
        forall|j: int| 0 <= j < i ==> s[j] != c,
    ensures
        idx_of(s, c) == i,
    decreases i,
{
    if i > 0 {
        assert(s.skip(1)[i - 1] == s[i]);
        assert(forall|j: int| 0 <= j < i - 1 ==> s.skip(1)[j] == s[j + 1]);
        lemma_idx_of_found(s.skip(1), c, i - 1);
    }
}

proof fn lemma_idx_of_absent(s: Seq<char>, c: char)
    requires
        forall|j: int| 0 <= j < s.len() ==> s[j] != c,
    ensures
        idx_of(s, c) == s.len(),
    decreases s.len(),
{
    if s.len() > 0 {
        assert(forall|j: int| 0 <= j < s.skip(1).len() ==> s.skip(1)[j] == s[j + 1]);
        lemma_idx_of_absent(s.skip(1), c);
    }
}

fn line_starts_with(s: &str, p: &str) -> (r: bool)
    ensures
        r == starts_with(s@, p@),
{
    let n = s.unicode_len();
    let m = p.unicode_len();
    if m > n {
        return false;
    }
    let pre = s.substring_char(0, m);
    let r = crate::text::str_eq(pre, p);
    proof {
        assert(s@.subrange(0, m as int) =~= s@.take(m as int));
    }
    r
}

fn line_after<'a>(s: &'a str, p: &str) -> (r: &'a str)
    requires
        starts_with(s@, p@),
    ensures
        r@ == after(s@, p@),
{
    let n = s.unicode_len();
    let m = p.unicode_len();
    let r = s.substring_char(m, n);
    proof {
        assert(s@.subrange(m as int, n as int) =~= s@.skip(m as int));
    }
    r
}

fn find_char_at(s: &str, c: char) -> (r: usize)
    ensures
        r as int == idx_of(s@, c),
        r <= s@.len(),
{
    let n = s.unicode_len();
    let mut i: usize = 0;
    while i < n
        invariant
            i <= n,
            n == s@.len(),
            forall|j: int| 0 <= j < i ==> s@[j] != c,
        decreases n - i,
    {
        if s.get_char(i) == c {
            proof {
                lemma_idx_of_found(s@, c, i as int);
            }
            return i;
        }
        i += 1;
    }
    proof {
        lemma_idx_of_absent(s@, c);
    }
    n
}

fn parse_input_line_exec(line: &str) -> (r: Option<(String, String)>)
    requires
        starts_with(line@, "  - "@),
    ensures
        match r {
            Some((role, name)) => parse_input_line(line@) == Some((role@, name@)),
            None => parse_input_line(line@) is None,
        },
{
    let body = line_after(line, "  - ");
    let k = find_char_at(body, ':');
    let bl = body.unicode_len();
    if k < bl && bl - k >= 2 {
        if body.get_char(k + 1) == ' ' {
            let role = body.substring_char(0, k);
            let name = body.substring_char(k + 2, bl);
            proof {
                assert(body@.subrange(0, k as int) =~= body@.take(k as int));
                assert(body@.subrange(k + 2, bl as int) =~= body@.skip(k + 2));
            }
            Some((String::from_str(role), String::from_str(name)))
        } else {
            None
        }
    } else {
        None
    }
}

fn more_inputs(lines: &Vec<String>, cur: usize) -> (r: bool)
    requires
        cur <= lines@.len(),
    ensures
        r == (cur < lines@.len() && starts_with(lines@.map_values(|l: String| l@)[cur as int],
            "  - "@)),
{
    if cur >= lines.len() {
        return false;
    }
    line_starts_with(lines[cur].as_str(), "  - ")
}

fn parse_inputs_exec(lines: &Vec<String>, pos: usize) -> (r: Option<(Vec<YamlInput>, usize)>)
    requires
        pos <= lines@.len(),
    ensures
        ({
            let views = lines@.map_values(|l: String| l@);
            match r {
                Some((ys, p2)) => pos <= p2 <= views.len() && parse_inputs(views.skip(pos as int))
                    == Some((ys@.map_values(|y: YamlInput| yi_view(y)), views.skip(p2 as int))),
                None => parse_inputs(views.skip(pos as int)) is None,
            }
        }),
{
    let ghost views = lines@.map_values(|l: String| l@);
    let mut ys: Vec<YamlInput> = Vec::new();
    let mut cur: usize = pos;
    proof {
        assert(ys@.map_values(|y: YamlInput| yi_view(y)) =~= Seq::<InputView>::empty());
    }
    while more_inputs(lines, cur)
        invariant
            pos <= cur <= views.len(),
            views == lines@.map_values(|l: String| l@),
            views.len() == lines@.len(),
            match parse_inputs(views.skip(cur as int)) {
                Some((ivs, rest)) => parse_inputs(views.skip(pos as int)) == Some((ys@.map_values(
                    |y: YamlInput| yi_view(y)) + ivs, rest)),
                None => parse_inputs(views.skip(pos as int)) is None,
            },
        decreases views.len() - cur,
    {
        let ghost seg = views.skip(cur as int);
        proof {
            assert(seg[0] == views[cur as int]);
        }
        let len = lines.len();
        proof {
            assert(cur < len);
        }
        match parse_input_line_exec(lines[cur].as_str()) {
            None => {
                return None;
            }
            Some((role, name)) => {
                let mut mode: Option<String> = None;
                let mut next = cur + 1;
                let has_mode = if lines.len() - cur >= 2 {
                    line_starts_with(lines[cur + 1].as_str(), "    mode: ")
                } else {
                    false
                };
                if has_mode {
                    let m = line_after(lines[cur + 1].as_str(), "    mode: ");
                    mode = Some(String::from_str(m));
                    next = cur + 2;
                }
                let ghost mode_view: Option<Seq<char>> = match &mode {
                    Some(m) => Some(m@),
                    None => None,
                };
                let ghost iv = (name@, role@, mode_view);
                let ghost old_map = ys@.map_values(|y: YamlInput| yi_view(y));
                ys.push(YamlInput { name, kind: role, mode });
                proof {
                    assert(ys@.map_values(|y: YamlInput| yi_view(y)) =~= old_map.push(iv));
                    if seg.len() >= 2 {
                        assert(seg[1] == views[cur + 1]);
                    }
                    assert(seg.skip(1) =~= views.skip(cur + 1));
                    if seg.len() >= 2 {
                        assert(seg.skip(2) =~= views.skip(cur + 2));
                    }
                    match parse_inputs(views.skip(next as int)) {
                        Some((ivs2, rest2)) => {
                            assert(parse_inputs(seg) == Some((seq![iv] + ivs2, rest2)));
                            assert(old_map + (seq![iv] + ivs2) =~= old_map.push(iv) + ivs2);
                        }
                        None => {
                            assert(parse_inputs(seg) is None);
                        }
                    }
                }
                cur = next;
            }
        }
    }
    proof {
        if cur < lines.len() {
            assert(views.skip(cur as int)[0] == views[cur as int]);
        } else {
            assert(views.skip(cur as int) =~= Seq::<Seq<char>>::empty());
        }
        assert(parse_inputs(views.skip(cur as int)) == Some((Seq::<InputView>::empty(),
            views.skip(cur as int))));
        assert(ys@.map_values(|y: YamlInput| yi_view(y)) + Seq::<InputView>::empty()
            =~= ys@.map_values(|y: YamlInput| yi_view(y)));
    }
    Some((ys, cur))
}

fn parse_tail_exec(lines: &Vec<String>, pos: usize) -> (r: Option<((Option<String>, String),
    usize)>)
    requires
        pos <= lines@.len(),
    ensures
        ({
            let views = lines@.map_values(|l: String| l@);
            match r {
                Some(((pol, out), p2)) => pos <= p2 <= views.len() && parse_tail(views.skip(
                    pos as int)) == Some(((match pol {
                        Some(p) => Some(p@),
                        None => None,
                    }, out@), views.skip(p2 as int))),
                None => parse_tail(views.skip(pos as int)) is None,
            }
        }),
{
    let ghost views = lines@.map_values(|l: String| l@);
    let ghost seg = views.skip(pos as int);
    if lines.len() - pos < 2 {
        return None;
    }
    proof {
        assert(seg[0] == views[pos as int]);
        assert(seg[1] == views[pos + 1]);
        assert(seg.skip(2) =~= views.skip(pos + 2));
    }
    let l0 = lines[pos].as_str();
    let l1 = lines[pos + 1].as_str();
    if line_starts_with(l0, "  valueType: ") && line_starts_with(l1, "  updatePolicy: ") {
        let out = String::from_str(line_after(l0, "  valueType: "));
        let pol = String::from_str(line_after(l1, "  updatePolicy: "));
        Some(((Some(pol), out), pos + 2))
    } else if crate::text::str_eq(l0, "  output:") && line_starts_with(l1, "    type: ") {
        let out = String::from_str(line_after(l1, "    type: "));
        Some(((None, out), pos + 2))
    } else {
        None
    }
}

fn parse_module_exec(lines: &Vec<String>, pos: usize) -> (r: Option<(YamlModule, usize)>)
    requires
        pos <= lines@.len(),
    ensures
        ({
            let views = lines@.map_values(|l: String| l@);
            match r {
                Some((y, p2)) => pos < p2 <= views.len() && parse_module(views.skip(pos as int))
                    == Some((ym_view(y), views.skip(p2 as int))),
                None => parse_module(views.skip(pos as int)) is None,
            }
        }),
{
    let ghost views = lines@.map_values(|l: String| l@);
    let ghost seg = views.skip(pos as int);
    if lines.len() - pos < 2 {
        return None;
    }
    proof {
        assert(seg[0] == views[pos as int]);
        assert(seg[1] == views[pos + 1]);
    }
    if !line_starts_with(lines[pos].as_str(), "- name: ") {
        return None;
    }
    if !line_starts_with(lines[pos + 1].as_str(), "  kind: ") {
        return None;
    }
    let name = String::from_str(line_after(lines[pos].as_str(), "- name: "));
    let kind = String::from_str(line_after(lines[pos + 1].as_str(), "  kind: "));
    let mut cur = pos + 2;
    proof {
        assert(seg.skip(2) =~= views.skip(pos + 2));
    }
    let skip_ib = if lines.len() - cur >= 1 {
        line_starts_with(lines[cur].as_str(), "  initialBlock: ")
    } else {
        false
    };
    proof {
        if cur < lines.len() {
            assert(views.skip(cur as int)[0] == views[cur as int]);
        }
    }
    if skip_ib {
        proof {
            assert(views.skip(cur as int).skip(1) =~= views.skip(cur + 1));
        }
        cur = cur + 1;
    }
    if lines.len() - cur < 2 {
        return None;
    }
    proof {
        assert(views.skip(cur as int)[0] == views[cur as int]);
        assert(views.skip(cur as int)[1] == views[cur + 1]);
        assert(views.skip(cur as int).skip(2) =~= views.skip(cur + 2));
    }
    if !crate::text::str_eq(lines[cur].as_str(), "  inputs:") {
        return None;
    }
    if !crate::text::str_eq(lines[cur + 1].as_str(), "  - params: string") {
        return None;
    }
    match parse_inputs_exec(lines, cur + 2) {
        None => None,
        Some((ys, p3)) => {
            match parse_tail_exec(lines, p3) {
                None => None,
                Some(((pol, out), p4)) => {
                    let y = YamlModule {
                        name,
                        kind,
                        inputs: ys,
                        update_policy: pol,
                        output: out,
                    };
                    Some((y, p4))
                }
            }
        }
    }
}

fn split_text_lines(s: &str) -> (r: Vec<String>)
    ensures
        r@.map_values(|l: String| l@) == split_lines(s@),
{
    let n = s.unicode_len();
    let mut out: Vec<String> = Vec::new();
    let mut pos: usize = 0;
    proof {
        assert(s@.skip(0) =~= s@);
        assert(out@.map_values(|l: String| l@) =~= Seq::<Seq<char>>::empty());
        assert(Seq::<Seq<char>>::empty() + split_lines(s@) =~= split_lines(s@));
    }
    while pos < n
        invariant
            pos <= n,
            n == s@.len(),
            split_lines(s@) == out@.map_values(|l: String| l@) + split_lines(s@.skip(pos as int)),
        decreases n - pos,
    {
        let mut j = pos;
        while j < n && s.get_char(j) != '\n'
            invariant
                pos <= j <= n,
                n == s@.len(),
                forall|t: int| pos <= t < j ==> s@[t] != '\n',
            decreases n - j,
        {
            j += 1;
        }
        let found = j < n;
        let ghost seg = s@.skip(pos as int);
        let ghost old_map = out@.map_values(|l: String| l@);
        if found {
            let line = s.substring_char(pos, j);
            out.push(String::from_str(line));
            proof {
                assert(forall|t: int| 0 <= t < j - pos ==> seg[t] == s@[pos + t]);
                assert(seg[j - pos] == s@[j as int]);
                lemma_idx_of_found(seg, '\n', j - pos);
                assert(seg.take(j - pos) =~= s@.subrange(pos as int, j as int));
                assert(seg.skip(j - pos + 1) =~= s@.skip(j + 1));
                assert(split_lines(seg) == seq![line@] + split_lines(s@.skip(j + 1)));
                assert(out@.map_values(|l: String| l@) =~= old_map.push(line@));
                assert(old_map + (seq![line@] + split_lines(s@.skip(j + 1)))
                    =~= old_map.push(line@) + split_lines(s@.skip(j + 1)));
            }
            pos = j + 1;
        } else {
            let line = s.substring_char(pos, n);
            out.push(String::from_str(line));
            proof {
                assert(forall|t: int| 0 <= t < seg.len() ==> seg[t] == s@[pos + t]);
                lemma_idx_of_absent(seg, '\n');
                assert(line@ =~= seg);
                assert(split_lines(seg) == seq![seg]);
                assert(out@.map_values(|l: String| l@) =~= old_map.push(line@));
                assert(s@.skip(n as int) =~= Seq::<char>::empty());
                assert(split_lines(s@.skip(n as int)) == Seq::<Seq<char>>::empty());
                assert(old_map + seq![seg] =~= old_map.push(line@)
                    + Seq::<Seq<char>>::empty());
            }
            pos = n;
        }
    }
    proof {
        assert(s@.skip(n as int) =~= Seq::<char>::empty());
        assert(split_lines(s@.skip(pos as int)) == Seq::<Seq<char>>::empty());
        assert(out@.map_values(|l: String| l@) + Seq::<Seq<char>>::empty()
            =~= out@.map_values(|l: String| l@));
    }
    out
}

/// Parses the manifest's substituted region back into module descriptors:
/// the inverse of the manifest backend's rendering of the region.
pub fn parse_manifest_modules(text: &str) -> (r: Option<Vec<YamlModule>>)
    ensures
        match r {
            Some(v) => parse_modules(split_lines(text@)) == Some(v@.map_values(
                |y: YamlModule| ym_view(y))),
            None => parse_modules(split_lines(text@)) is None,
        },
{
    let lines = split_text_lines(text);
    let ghost views = lines@.map_values(|l: String| l@);
    let mut v: Vec<YamlModule> = Vec::new();
    let mut pos: usize = 0;
    proof {
        assert(views.skip(0) =~= views);
        assert(v@.map_values(|y: YamlModule| ym_view(y)) =~= Seq::<ModuleView>::empty());
        if parse_modules(views) is Some {
            assert(Seq::<ModuleView>::empty() + parse_modules(views)->Some_0
                =~= parse_modules(views)->Some_0);
        }
    }
    while pos < lines.len()
        invariant
            pos <= views.len(),
            views == lines@.map_values(|l: String| l@),
            views.len() == lines@.len(),
            views == split_lines(text@),
            match parse_modules(views.skip(pos as int)) {
                Some(mvs) => parse_modules(views) == Some(v@.map_values(
                    |y: YamlModule| ym_view(y)) + mvs),
                None => parse_modules(views) is None,
            },
        decreases views.len() - pos,
    {
        match parse_module_exec(&lines, pos) {
            None => {
                return None;
            }
            Some((y, p2)) => {
                let ghost old_map = v@.map_values(|y: YamlModule| ym_view(y));
                let ghost yv = ym_view(y);
                v.push(y);
                proof {
                    assert(v@.map_values(|y: YamlModule| ym_view(y)) =~= old_map.push(yv));
                    assert(views.skip(p2 as int).len() < views.skip(pos as int).len());
                    match parse_modules(views.skip(p2 as int)) {
                        Some(mvs2) => {
                            assert(parse_modules(views.skip(pos as int))
                                == Some(seq![yv] + mvs2));
                            assert(old_map + (seq![yv] + mvs2) =~= old_map.push(yv) + mvs2);
                        }
                        None => {
                            assert(parse_modules(views.skip(pos as int)) is None);
                        }
                    }
                }
                pos = p2;
            }
        }
    }
    proof {
        assert(views.skip(pos as int) =~= Seq::<Seq<char>>::empty());
        assert(parse_modules(Seq::<Seq<char>>::empty()) == Some(Seq::<ModuleView>::empty()));
        assert(v@.map_values(|y: YamlModule| ym_view(y)) + Seq::<ModuleView>::empty()
            =~= v@.map_values(|y: YamlModule| ym_view(y)));
    }
    Some(v)
}

} // verus!
