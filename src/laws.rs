//! Properties of the expander that hold for all inputs.
use vstd::prelude::*;
use crate::token::{TokenKind, TokenView, ValueMacroView, FunctionMacroView};
use crate::subst::{value_at, subst_at, va_args, is_vararg_site};
use crate::invoke::invoke_at;
use crate::paste::{pasted, pasted_from, paste_end, run_text, pastes_on};
use crate::env::{EnvView, is_defined, undefine, values_without, funcs_without};
use crate::expand::{step, expand, expand_from, find_value, find_invocation};
use crate::lexer::{lex, lex_from, folded, run_end, in_class, match_rule, BLANK};
use crate::render::render;
use crate::{empty_env, preprocessed};

verus! {

/// A token that is neither a directive that the expander acts on nor a macro
/// name.
pub open spec fn is_plain(t: TokenView) -> bool {
    t.kind != TokenKind::DefineDirective && t.kind != TokenKind::Undef && t.kind != TokenKind::Ifdef
        && t.kind != TokenKind::Ifndef && t.kind != TokenKind::Endif && t.kind != TokenKind::MacroName
}

proof fn lemma_plain_from(ts: Seq<TokenView>, i: int, depth: nat)
    requires
        0 <= i <= ts.len(),
        forall|k: int| 0 <= k < ts.len() ==> is_plain(#[trigger] ts[k]),
    ensures
        expand_from(ts, i, empty_env(), depth) == (ts.subrange(i, ts.len() as int), empty_env()),
    decreases ts.len() - i,
{
    if i < ts.len() {
        assert(is_plain(ts[i]));
        assert(find_value(ts, i, empty_env().values, 0) is None);
        assert(find_invocation(ts, i, empty_env().funcs, 0) is None);
        assert(step(ts, i, empty_env(), depth) == (seq![ts[i]], i + 1, empty_env()));
        lemma_plain_from(ts, i + 1, depth);
        assert(seq![ts[i]] + ts.subrange(i + 1, ts.len() as int) =~= ts.subrange(i, ts.len() as int));
    } else {
        assert(ts.subrange(i, ts.len() as int) =~= seq![]);
    }
}

/// With nothing defined, a stream with no directive and no macro name
/// expands to itself.
pub proof fn lemma_plain_stream_unchanged(ts: Seq<TokenView>, depth: nat)
    requires
        forall|k: int| 0 <= k < ts.len() ==> is_plain(#[trigger] ts[k]),
    ensures
        expand(ts, empty_env(), depth) == (ts, empty_env()),
{
    lemma_plain_from(ts, 0, depth);
    assert(ts.subrange(0, ts.len() as int) =~= ts);
}

/// The text without spaces and tabs.
pub open spec fn squeeze(s: Seq<char>) -> Seq<char>
    decreases s.len(),
{
    if s.len() == 0 {
        seq![]
    } else {
        squeeze(s.drop_last()) + (if s.last() == ' ' || s.last() == '\t' { seq![] } else { seq![s.last()] })
    }
}

/// The lexemes of a token sequence, concatenated.
pub open spec fn lexemes(ts: Seq<TokenView>) -> Seq<char>
    decreases ts.len(),
{
    if ts.len() == 0 {
        seq![]
    } else {
        ts[0].text + lexemes(ts.drop_first())
    }
}

proof fn lemma_squeeze_append(a: Seq<char>, b: Seq<char>)
    ensures
        squeeze(a + b) == squeeze(a) + squeeze(b),
    decreases b.len(),
{
    if b.len() == 0 {
        assert(a + b =~= a);
        assert(squeeze(a) + squeeze(b) =~= squeeze(a));
    } else {
        lemma_squeeze_append(a, b.drop_last());
        assert((a + b).drop_last() =~= a + b.drop_last());
        assert((a + b).last() == b.last());
        let tail: Seq<char> = if b.last() == ' ' || b.last() == '\t' { seq![] } else { seq![b.last()] };
        assert(squeeze(a) + squeeze(b.drop_last()) + tail =~= squeeze(a) + (squeeze(b.drop_last()) + tail));
    }
}

proof fn lemma_lexemes_last(ts: Seq<TokenView>)
    requires
        ts.len() > 0,
    ensures
        lexemes(ts) == lexemes(ts.drop_last()) + ts.last().text,
    decreases ts.len(),
{
    if ts.len() == 1 {
        assert(ts.drop_first() =~= Seq::<TokenView>::empty());
        assert(ts.drop_last() =~= Seq::<TokenView>::empty());
        assert(lexemes(ts.drop_first()) == Seq::<char>::empty());
        assert(ts.last() == ts[0]);
        assert(lexemes(ts) =~= Seq::<char>::empty() + ts.last().text);
    } else {
        lemma_lexemes_last(ts.drop_first());
        assert(ts.drop_first().drop_last() =~= ts.drop_last().drop_first());
        assert(ts.drop_last()[0] == ts[0]);
        assert(ts.drop_first().last() == ts.last());
        assert(lexemes(ts) =~= lexemes(ts.drop_last()) + ts.last().text);
    }
}

proof fn lemma_render_squeeze(ts: Seq<TokenView>)
    ensures
        squeeze(render(ts)) == squeeze(lexemes(ts)),
    decreases ts.len(),
{
    if ts.len() == 1 {
        lemma_lexemes_last(ts);
        assert(lexemes(ts.drop_last()) == Seq::<char>::empty());
        assert(lexemes(ts) =~= ts[0].text);
    } else if ts.len() > 1 {
        lemma_render_squeeze(ts.drop_last());
        lemma_lexemes_last(ts);
        let front = render(ts.drop_last());
        lemma_squeeze_append(lexemes(ts.drop_last()), ts.last().text);
        lemma_squeeze_append(front, ts.last().text);
        lemma_squeeze_append(front, seq![' ']);
        lemma_squeeze_append(front + seq![' '], ts.last().text);
        let sp = seq![' '];
        assert(sp.drop_last() =~= Seq::<char>::empty());
        assert(squeeze(sp.drop_last()) == Seq::<char>::empty());
        assert(sp.last() == ' ');
        assert(squeeze(sp) =~= Seq::<char>::empty());
        assert(squeeze(front) + squeeze(seq![' ']) =~= squeeze(front));
    }
}

proof fn lemma_blank_run(s: Seq<char>, p: int)
    requires
        0 <= p <= s.len(),
    ensures
        p <= run_end(s, p, BLANK) <= s.len(),
        squeeze(s.subrange(p, run_end(s, p, BLANK))) == Seq::<char>::empty(),
    decreases s.len() - p,
{
    let q = run_end(s, p, BLANK);
    if p < s.len() && in_class(s[p], BLANK) {
        lemma_blank_run(s, p + 1);
        lemma_squeeze_append(seq![s[p]], s.subrange(p + 1, q));
        assert(seq![s[p]] + s.subrange(p + 1, q) =~= s.subrange(p, q));
        let c = seq![s[p]];
        assert(c.drop_last() =~= Seq::<char>::empty());
        assert(squeeze(c.drop_last()) == Seq::<char>::empty());
        assert(c.last() == ' ' || c.last() == '\t');
        assert(squeeze(c) =~= Seq::<char>::empty());
        assert(squeeze(s.subrange(p, q)) =~= Seq::<char>::empty());
    } else {
        assert(s.subrange(p, q) =~= Seq::<char>::empty());
    }
}

/// The lexer drops only spaces and tabs: without them, the text from `p` on
/// is its lexemes.
proof fn lemma_lex_keeps_text(s: Seq<char>, p: int)
    requires
        0 <= p <= s.len(),
        lex_from(s, p) is Some,
    ensures
        squeeze(s.subrange(p, s.len() as int)) == squeeze(lexemes(lex_from(s, p)->Some_0)),
    decreases s.len() - p,
{
    lemma_blank_run(s, p);
    let q = run_end(s, p, BLANK);
    if q >= s.len() {
        assert(lexemes(lex_from(s, p)->Some_0) == Seq::<char>::empty());
        assert(squeeze(Seq::<char>::empty()) == Seq::<char>::empty());
    } else {
        let (kind, e) = match_rule(s, q)->Some_0;
        lemma_lex_keeps_text(s, e);
        let ts = lex_from(s, p)->Some_0;
        let rest = lex_from(s, e)->Some_0;
        assert(ts.drop_first() =~= rest);
        assert(lexemes(ts) == s.subrange(q, e) + lexemes(rest));
        assert(s.subrange(p, s.len() as int) =~= s.subrange(p, q) + (s.subrange(q, e) + s.subrange(e, s.len() as int)));
        lemma_squeeze_append(s.subrange(p, q), s.subrange(q, e) + s.subrange(e, s.len() as int));
        lemma_squeeze_append(s.subrange(q, e), s.subrange(e, s.len() as int));
        lemma_squeeze_append(s.subrange(q, e), lexemes(rest));
        assert(Seq::<char>::empty() + squeeze(s.subrange(q, e) + s.subrange(e, s.len() as int))
            =~= squeeze(s.subrange(q, e) + s.subrange(e, s.len() as int)));
    }
}

/// A source whose tokens hold no directive and no macro name comes out as
/// its own tokens, rendered; without spaces and tabs, the output is the
/// folded source.
pub proof fn lemma_plain_source_unchanged(source: Seq<char>, depth: nat)
    requires
        lex(folded(source)) is Some,
        forall|k: int| 0 <= k < lex(folded(source))->Some_0.len() ==> is_plain(#[trigger] lex(folded(source))->Some_0[k]),
    ensures
        preprocessed(source, depth) == Some(render(lex(folded(source))->Some_0)),
        squeeze(preprocessed(source, depth)->Some_0) == squeeze(folded(source)),
{
    let text = folded(source);
    lemma_plain_stream_unchanged(lex(text)->Some_0, depth);
    lemma_render_squeeze(lex(text)->Some_0);
    lemma_lex_keeps_text(text, 0);
    assert(text.subrange(0, text.len() as int) =~= text);
}

proof fn lemma_values_without(vs: Seq<ValueMacroView>, name: Seq<char>)
    ensures
        forall|k: int| 0 <= k < values_without(vs, name).len() ==> #[trigger] values_without(vs, name)[k].name != name,
    decreases vs.len(),
{
    if vs.len() > 0 {
        lemma_values_without(vs.drop_first(), name);
        let head: Seq<ValueMacroView> = if vs[0].name == name { seq![] } else { seq![vs[0]] };
        let r = values_without(vs, name);
        assert(r == head + values_without(vs.drop_first(), name));
        assert forall|k: int| 0 <= k < r.len() implies #[trigger] r[k].name != name by {
            if k >= head.len() {
                assert(r[k] == values_without(vs.drop_first(), name)[k - head.len()]);
            }
        }
    }
}

proof fn lemma_funcs_without(fs: Seq<FunctionMacroView>, name: Seq<char>)
    ensures
        forall|k: int| 0 <= k < funcs_without(fs, name).len() ==> #[trigger] funcs_without(fs, name)[k].name != name,
    decreases fs.len(),
{
    if fs.len() > 0 {
        lemma_funcs_without(fs.drop_first(), name);
        let head: Seq<FunctionMacroView> = if fs[0].name == name { seq![] } else { seq![fs[0]] };
        let r = funcs_without(fs, name);
        assert(r == head + funcs_without(fs.drop_first(), name));
        assert forall|k: int| 0 <= k < r.len() implies #[trigger] r[k].name != name by {
            if k >= head.len() {
                assert(r[k] == funcs_without(fs.drop_first(), name)[k - head.len()]);
            }
        }
    }
}

proof fn lemma_no_value_match(ts: Seq<TokenView>, j: int, vs: Seq<ValueMacroView>, k: int)
    requires
        0 <= j < ts.len(),
        0 <= k,
        ts[j].kind == TokenKind::MacroName,
        forall|m: int| 0 <= m < vs.len() ==> #[trigger] vs[m].name != ts[j].text,
    ensures
        find_value(ts, j, vs, k) is None,
    decreases vs.len() - k,
{
    if k < vs.len() {
        assert(vs[k].name != ts[j].text);
        assert(value_at(ts, j, vs[k]) is None);
        lemma_no_value_match(ts, j, vs, k + 1);
    }
}

proof fn lemma_no_invocation(ts: Seq<TokenView>, j: int, fs: Seq<FunctionMacroView>, k: int)
    requires
        0 <= j < ts.len(),
        0 <= k,
        forall|m: int| 0 <= m < fs.len() ==> #[trigger] fs[m].name != ts[j].text,
    ensures
        find_invocation(ts, j, fs, k) is None,
    decreases fs.len() - k,
{
    if k < fs.len() {
        assert(fs[k].name != ts[j].text);
        assert(invoke_at(ts, j, fs[k]) is None);
        lemma_no_invocation(ts, j, fs, k + 1);
    }
}

/// `#undef NAME!` removes every definition named `NAME!`; after it, a use of
/// `NAME!` anywhere in the stream is emitted unexpanded.
pub proof fn lemma_undef_removes(ts: Seq<TokenView>, i: int, env: EnvView, depth: nat)
    requires
        0 <= i,
        i + 1 < ts.len(),
        ts[i].kind == TokenKind::Undef,
        ts[i + 1].kind == TokenKind::MacroName,
    ensures
        step(ts, i, env, depth) == (Seq::<TokenView>::empty(), i + 2, undefine(env, ts[i + 1].text)),
        !is_defined(undefine(env, ts[i + 1].text), ts[i + 1].text),
        forall|j: int|
            0 <= j < ts.len() && ts[j].kind == TokenKind::MacroName && ts[j].text == ts[i + 1].text
                ==> #[trigger] step(ts, j, undefine(env, ts[i + 1].text), depth)
                    == (seq![ts[j]], j + 1, undefine(env, ts[i + 1].text)),
{
    let name = ts[i + 1].text;
    let e = undefine(env, name);
    lemma_values_without(env.values, name);
    lemma_funcs_without(env.funcs, name);
    assert forall|j: int|
        0 <= j < ts.len() && ts[j].kind == TokenKind::MacroName && ts[j].text == name
            implies #[trigger] step(ts, j, e, depth) == (seq![ts[j]], j + 1, e) by {
        lemma_no_value_match(ts, j, e.values, 0);
        lemma_no_invocation(ts, j, e.funcs, 0);
    }
}

/// A macro name right before `=` is emitted as it is, whatever is defined;
/// in a function-macro body, a parameter name right before `=` is not
/// substituted.
pub proof fn lemma_assignment_target_kept(ts: Seq<TokenView>, i: int, env: EnvView, depth: nat)
    requires
        0 <= i,
        i + 1 < ts.len(),
        ts[i + 1].text == "="@,
    ensures
        ts[i].kind == TokenKind::MacroName ==> step(ts, i, env, depth) == (seq![ts[i]], i + 1, env),
        ts[i].kind == TokenKind::Name ==> forall|m: ValueMacroView| #[trigger] subst_at(ts, i, m) == seq![ts[i]],
{
    reveal_strlit("=");
    reveal_strlit("(");
    reveal_strlit("[");
    reveal_strlit("{");
    if ts[i].kind == TokenKind::MacroName {
        assert forall|k: int| 0 <= k < env.values.len() implies #[trigger] value_at(ts, i, env.values[k]) is None by {}
        lemma_no_value_at_assignment(ts, i, env.values, 0);
        assert(ts[i + 1].text != "("@ && ts[i + 1].text != "["@ && ts[i + 1].text != "{"@) by {
            assert(ts[i + 1].text[0] == '=');
        }
        lemma_no_invocation_before_assignment(ts, i, env.funcs, 0);
    }
}

proof fn lemma_no_value_at_assignment(ts: Seq<TokenView>, i: int, vs: Seq<ValueMacroView>, k: int)
    requires
        0 <= i,
        i + 1 < ts.len(),
        0 <= k,
        ts[i].kind == TokenKind::MacroName,
        ts[i + 1].text == "="@,
    ensures
        find_value(ts, i, vs, k) is None,
    decreases vs.len() - k,
{
    if k < vs.len() {
        lemma_no_value_at_assignment(ts, i, vs, k + 1);
    }
}

proof fn lemma_no_invocation_before_assignment(ts: Seq<TokenView>, i: int, fs: Seq<FunctionMacroView>, k: int)
    requires
        0 <= i,
        i + 1 < ts.len(),
        0 <= k,
        ts[i + 1].text != "("@ && ts[i + 1].text != "["@ && ts[i + 1].text != "{"@,
    ensures
        find_invocation(ts, i, fs, k) is None,
    decreases fs.len() - k,
{
    if k < fs.len() {
        lemma_no_invocation_before_assignment(ts, i, fs, k + 1);
    }
}

/// For any names `A`, `B` and `C`, `A ## B ## C` pastes into the single name
/// `ABC`.
pub proof fn lemma_paste_three(a: TokenView, glue_ab: TokenView, b: TokenView, glue_bc: TokenView, c: TokenView)
    requires
        a.kind == TokenKind::Name,
        b.kind == TokenKind::Name,
        c.kind == TokenKind::Name,
        glue_ab.kind == TokenKind::Paste,
        glue_bc.kind == TokenKind::Paste,
    ensures
        pasted(seq![a, glue_ab, b, glue_bc, c]) == seq![TokenView { kind: TokenKind::Name, text: a.text + b.text + c.text }],
{
    let ts = seq![a, glue_ab, b, glue_bc, c];
    assert(pastes_on(ts, 0));
    assert(pastes_on(ts, 2));
    assert(!pastes_on(ts, 4));
    assert(paste_end(ts, 4) == 4);
    assert(paste_end(ts, 2) == 4);
    assert(paste_end(ts, 0) == 4);
    assert(run_text(ts, 4, 4) == c.text);
    assert(run_text(ts, 2, 4) == b.text + c.text);
    assert(run_text(ts, 0, 4) == a.text + (b.text + c.text));
    assert(a.text + (b.text + c.text) =~= a.text + b.text + c.text);
    assert(pasted_from(ts, 5) == Seq::<TokenView>::empty());
    assert(pasted_from(ts, 0) =~= seq![TokenView { kind: TokenKind::Name, text: a.text + b.text + c.text }]);
}

proof fn lemma_pasted_single(t: TokenView)
    requires
        t.kind != TokenKind::Name,
    ensures
        pasted(seq![t]) == seq![t],
{
    let ts = seq![t];
    assert(pasted_from(ts, 1) == Seq::<TokenView>::empty());
    assert(pasted_from(ts, 0) =~= seq![t]);
}

/// A use of `A!` where `A!` stands for `B!` and `B!` for a number expands to
/// that number, whenever at least one re-scan is allowed.
pub proof fn lemma_rescan_chain(a: TokenView, b: TokenView, n: TokenView, depth: nat)
    requires
        a.kind == TokenKind::MacroName,
        b.kind == TokenKind::MacroName,
        n.kind == TokenKind::Number,
        a.text != b.text,
        depth >= 1,
    ensures
        expand(
            seq![a],
            EnvView {
                values: seq![ValueMacroView { name: a.text, body: seq![b] }, ValueMacroView { name: b.text, body: seq![n] }],
                funcs: seq![],
            },
            depth,
        ).0 == seq![n],
{
    let env = EnvView {
        values: seq![ValueMacroView { name: a.text, body: seq![b] }, ValueMacroView { name: b.text, body: seq![n] }],
        funcs: seq![],
    };
    let ta = seq![a];
    let tb = seq![b];
    let tn = seq![n];
    assert(value_at(ta, 0, env.values[0]) == Some(tb));
    assert(find_value(ta, 0, env.values, 0) == Some(tb));
    assert(value_at(tb, 0, env.values[0]) is None);
    assert(value_at(tb, 0, env.values[1]) == Some(tn));
    assert(find_value(tb, 0, env.values, 1) == Some(tn));
    assert(find_value(tb, 0, env.values, 0) == Some(tn));
    lemma_pasted_single(n);
    let d1 = (depth - 1) as nat;
    if d1 == 0 {
        assert(step(tb, 0, env, d1) == (tn, 1int, env));
    } else {
        let d2 = (d1 - 1) as nat;
        assert(value_at(tn, 0, env.values[0]) is None);
        assert(value_at(tn, 0, env.values[1]) is None);
        assert(find_value(tn, 0, env.values, 2) is None);
        assert(find_value(tn, 0, env.values, 1) is None);
        assert(find_value(tn, 0, env.values, 0) is None);
        assert(find_invocation(tn, 0, env.funcs, 0) is None);
        assert(step(tn, 0, env, d2) == (tn, 1int, env));
        assert(expand_from(tn, 1, env, d2) == (Seq::<TokenView>::empty(), env));
        assert(tn + Seq::<TokenView>::empty() =~= tn);
        assert(expand_from(tn, 0, env, d2) == (tn, env));
        assert(step(tb, 0, env, d1) == (tn, 1int, env));
    }
    assert(expand_from(tb, 1, env, d1) == (Seq::<TokenView>::empty(), env));
    assert(tn + Seq::<TokenView>::empty() =~= tn);
    assert(expand_from(tb, 0, env, d1) == (tn, env));
    assert(step(ta, 0, env, depth) == (tn, 1int, env));
    assert(expand_from(ta, 1, env, depth) == (Seq::<TokenView>::empty(), env));
    assert(expand_from(ta, 0, env, depth) == (tn, env));
}

/// The binding of an empty variadic tail removes the comma before
/// `__VA_ARGS__` together with `__VA_ARGS__` itself; a non-empty tail keeps
/// the comma and takes the place of `__VA_ARGS__`.
pub proof fn lemma_variadic_elision(ts: Seq<TokenView>, i: int, m: ValueMacroView)
    requires
        0 <= i,
        i + 1 < ts.len(),
        m.name == va_args(),
        ts[i].kind == TokenKind::Delimiter,
        ts[i].text == ","@,
        ts[i + 1].kind == TokenKind::Name,
        ts[i + 1].text == va_args(),
        i + 2 == ts.len() || ts[i + 2].text != "="@,
    ensures
        m.body.len() == 0 ==> subst_at(ts, i, m) + subst_at(ts, i + 1, m) == Seq::<TokenView>::empty(),
        m.body.len() > 0 ==> subst_at(ts, i, m) + subst_at(ts, i + 1, m) == seq![ts[i]] + m.body,
{
    assert(is_vararg_site(ts[i + 1]));
    assert(subst_at(ts, i + 1, m) == m.body);
    if m.body.len() == 0 {
        assert(subst_at(ts, i, m) == Seq::<TokenView>::empty());
        assert(Seq::<TokenView>::empty() + m.body =~= Seq::<TokenView>::empty());
    } else {
        assert(subst_at(ts, i, m) == seq![ts[i]]);
    }
}

} // verus!
