//! The definition environment: its view, lookup, removal and directive
//! parsing.
use vstd::prelude::*;
use crate::token::{Token, TokenKind, TokenView, ValueMacro, ValueMacroView, FunctionMacro, FunctionMacroView, toks, value_views, func_views, char_seqs, chars_are, same_chars, copy_chars};
use crate::invoke::is_comma;

verus! {

/// The live definitions, in order of definition.
pub struct EnvView {
    pub values: Seq<ValueMacroView>,
    pub funcs: Seq<FunctionMacroView>,
}

pub open spec fn env_of(vs: Seq<ValueMacro>, fs: Seq<FunctionMacro>) -> EnvView {
    EnvView { values: value_views(vs), funcs: func_views(fs) }
}

/// Some definition of either kind has this name.
pub open spec fn is_defined(env: EnvView, name: Seq<char>) -> bool {
    (exists|k: int| 0 <= k < env.values.len() && #[trigger] env.values[k].name == name)
        || (exists|k: int| 0 <= k < env.funcs.len() && #[trigger] env.funcs[k].name == name)
}

/// The value macros whose name is not `name`, in order.
pub open spec fn values_without(vs: Seq<ValueMacroView>, name: Seq<char>) -> Seq<ValueMacroView>
    decreases vs.len(),
{
    if vs.len() == 0 {
        seq![]
    } else {
        (if vs[0].name == name { seq![] } else { seq![vs[0]] }) + values_without(vs.drop_first(), name)
    }
}

/// The function macros whose name is not `name`, in order.
pub open spec fn funcs_without(fs: Seq<FunctionMacroView>, name: Seq<char>) -> Seq<FunctionMacroView>
    decreases fs.len(),
{
    if fs.len() == 0 {
        seq![]
    } else {
        (if fs[0].name == name { seq![] } else { seq![fs[0]] }) + funcs_without(fs.drop_first(), name)
    }
}

/// The environment after `#undef name`.
pub open spec fn undefine(env: EnvView, name: Seq<char>) -> EnvView {
    EnvView { values: values_without(env.values, name), funcs: funcs_without(env.funcs, name) }
}

pub open spec fn add_value(env: EnvView, name: Seq<char>, body: Seq<TokenView>) -> EnvView {
    EnvView { values: env.values.push(ValueMacroView { name, body }), funcs: env.funcs }
}

pub open spec fn add_func(env: EnvView, name: Seq<char>, params: Seq<Seq<char>>, body: Seq<TokenView>) -> EnvView {
    EnvView { values: env.values, funcs: env.funcs.push(FunctionMacroView { name, params, body }) }
}

/// The first `#end` at or after `j`, or the end of the stream.
pub open spec fn body_end(ts: Seq<TokenView>, j: int) -> int
    decreases ts.len() - j,
{
    if j < 0 || j >= ts.len() {
        ts.len() as int
    } else if ts[j].kind == TokenKind::EndDefine {
        j
    } else {
        body_end(ts, j + 1)
    }
}

/// The first `)` at or after `j`, or the end of the stream.
pub open spec fn find_close(ts: Seq<TokenView>, j: int) -> int
    decreases ts.len() - j,
{
    if j < 0 || j >= ts.len() {
        ts.len() as int
    } else if ts[j].text == ")"@ {
        j
    } else {
        find_close(ts, j + 1)
    }
}

/// The position after `e`, within the stream.
pub open spec fn after(ts: Seq<TokenView>, e: int) -> int {
    if e < ts.len() {
        e + 1
    } else {
        ts.len() as int
    }
}

pub open spec fn is_param_token(t: TokenView) -> bool {
    t.kind == TokenKind::Name || t.kind == TokenKind::Vararg
}

/// The parameter list from position `k`: names (or `...`) separated by
/// commas, each element exactly one token.
pub open spec fn params_from(ps: Seq<TokenView>, k: int) -> Option<Seq<Seq<char>>>
    decreases ps.len() - k,
{
    if k < 0 || k >= ps.len() || !is_param_token(ps[k]) {
        None
    } else if k + 1 == ps.len() {
        Some(seq![ps[k].text])
    } else if is_comma(ps[k + 1]) {
        match params_from(ps, k + 2) {
            Some(r) => Some(seq![ps[k].text] + r),
            None => None,
        }
    } else {
        None
    }
}

/// The parameter names between `(` and `)`, if well formed.
pub open spec fn parse_params(ps: Seq<TokenView>) -> Option<Seq<Seq<char>>> {
    if ps.len() == 0 {
        Some(seq![])
    } else {
        params_from(ps, 0)
    }
}

/// The `#define` directive at `i`: where processing resumes and the
/// environment after it. A malformed directive drops only its own token.
pub open spec fn define_at(ts: Seq<TokenView>, i: int, env: EnvView) -> (int, EnvView) {
    if 0 <= i && i + 1 < ts.len() && ts[i + 1].kind == TokenKind::MacroName {
        let name = ts[i + 1].text;
        if i + 2 >= ts.len() {
            (ts.len() as int, add_value(env, name, seq![]))
        } else if ts[i + 2].kind == TokenKind::Newline {
            (i + 3, add_value(env, name, seq![]))
        } else if ts[i + 2].text == "="@ {
            let e = body_end(ts, i + 3);
            (after(ts, e), add_value(env, name, ts.subrange(i + 3, e)))
        } else if ts[i + 2].text == "("@ {
            let close = find_close(ts, i + 3);
            match parse_params(ts.subrange(i + 3, close)) {
                Some(ps) => {
                    if close + 1 < ts.len() && ts[close + 1].text == "="@ {
                        let e = body_end(ts, close + 2);
                        (after(ts, e), add_func(env, name, ps, ts.subrange(close + 2, e)))
                    } else {
                        (i + 1, env)
                    }
                },
                None => (i + 1, env),
            }
        } else {
            (i + 1, env)
        }
    } else {
        (i + 1, env)
    }
}

/// Where a skipped conditional section that starts at `j` ends: after the
/// `#endif` that matches, counting nested `#ifdef`/`#ifndef`.
pub open spec fn skip_section(ts: Seq<TokenView>, j: int, nest: nat) -> int
    decreases ts.len() - j,
{
    if j < 0 || j >= ts.len() {
        ts.len() as int
    } else if ts[j].kind == TokenKind::Endif {
        if nest == 0 {
            j + 1
        } else {
            skip_section(ts, j + 1, (nest - 1) as nat)
        }
    } else if ts[j].kind == TokenKind::Ifdef || ts[j].kind == TokenKind::Ifndef {
        skip_section(ts, j + 1, nest + 1)
    } else {
        skip_section(ts, j + 1, nest)
    }
}

/// Whether some definition of either kind has this name.
pub fn defined(value_macros: &Vec<ValueMacro>, func_macros: &Vec<FunctionMacro>, name: &Vec<char>) -> (r: bool)
    ensures
        r == is_defined(env_of(value_macros@, func_macros@), name@),
{
    let ghost env = env_of(value_macros@, func_macros@);
    let mut k: usize = 0;
    while k < value_macros.len()
        invariant
            k <= value_macros.len(),
            env == env_of(value_macros@, func_macros@),
            forall|m: int| 0 <= m < k ==> env.values[m].name != name@,
        decreases value_macros.len() - k,
    {
        if same_chars(&value_macros[k].name, name) {
            assert(env.values[k as int].name == name@);
            return true;
        }
        k += 1;
    }
    let mut k: usize = 0;
    while k < func_macros.len()
        invariant
            k <= func_macros.len(),
            env == env_of(value_macros@, func_macros@),
            forall|m: int| 0 <= m < value_macros.len() ==> env.values[m].name != name@,
            forall|m: int| 0 <= m < k ==> env.funcs[m].name != name@,
        decreases func_macros.len() - k,
    {
        if same_chars(&func_macros[k].name, name) {
            assert(env.funcs[k as int].name == name@);
            return true;
        }
        k += 1;
    }
    false
}

/// Removes every definition of either kind named `name`.
pub fn undefine_name(value_macros: &mut Vec<ValueMacro>, func_macros: &mut Vec<FunctionMacro>, name: &Vec<char>)
    ensures
        env_of(final(value_macros)@, final(func_macros)@) == undefine(env_of(old(value_macros)@, old(func_macros)@), name@),
{
    let ghost vs0 = value_views(value_macros@);
    let mut k: usize = 0;
    assert(value_views(value_macros@).subrange(0, 0) + values_without(value_views(value_macros@).subrange(0, value_macros@.len() as int), name@)
        =~= values_without(vs0, name@)) by {
        assert(value_views(value_macros@).subrange(0, value_macros@.len() as int) =~= vs0);
    }
    while k < value_macros.len()
        invariant
            k <= value_macros.len(),
            values_without(vs0, name@) == value_views(value_macros@).subrange(0, k as int)
                + values_without(value_views(value_macros@).subrange(k as int, value_macros@.len() as int), name@),
        decreases value_macros.len() - k,
    {
        let ghost cur = value_views(value_macros@);
        let ghost tail = cur.subrange(k as int, cur.len() as int);
        assert(tail.drop_first() =~= cur.subrange(k + 1, cur.len() as int));
        if same_chars(&value_macros[k].name, name) {
            value_macros.remove(k);
            let ghost now = value_views(value_macros@);
            assert(now.subrange(0, k as int) =~= cur.subrange(0, k as int));
            assert(now.subrange(k as int, now.len() as int) =~= cur.subrange(k + 1, cur.len() as int));
            assert(values_without(tail, name@) =~= values_without(tail.drop_first(), name@));
        } else {
            assert(values_without(tail, name@) =~= seq![tail[0]] + values_without(tail.drop_first(), name@));
            assert(cur.subrange(0, k + 1) =~= cur.subrange(0, k as int) + seq![tail[0]]);
            k += 1;
        }
    }
    let ghost fin = value_views(value_macros@);
    assert(fin.subrange(k as int, fin.len() as int) =~= seq![]);
    assert(fin.subrange(0, k as int) =~= fin);
    assert(values_without(vs0, name@) =~= fin);

    let ghost fs0 = func_views(func_macros@);
    let mut k: usize = 0;
    assert(func_views(func_macros@).subrange(0, 0) + funcs_without(func_views(func_macros@).subrange(0, func_macros@.len() as int), name@)
        =~= funcs_without(fs0, name@)) by {
        assert(func_views(func_macros@).subrange(0, func_macros@.len() as int) =~= fs0);
    }
    while k < func_macros.len()
        invariant
            k <= func_macros.len(),
            value_views(value_macros@) == values_without(vs0, name@),
            funcs_without(fs0, name@) == func_views(func_macros@).subrange(0, k as int)
                + funcs_without(func_views(func_macros@).subrange(k as int, func_macros@.len() as int), name@),
        decreases func_macros.len() - k,
    {
        let ghost cur = func_views(func_macros@);
        let ghost tail = cur.subrange(k as int, cur.len() as int);
        assert(tail.drop_first() =~= cur.subrange(k + 1, cur.len() as int));
        if same_chars(&func_macros[k].name, name) {
            func_macros.remove(k);
            let ghost now = func_views(func_macros@);
            assert(now.subrange(0, k as int) =~= cur.subrange(0, k as int));
            assert(now.subrange(k as int, now.len() as int) =~= cur.subrange(k + 1, cur.len() as int));
            assert(funcs_without(tail, name@) =~= funcs_without(tail.drop_first(), name@));
        } else {
            assert(funcs_without(tail, name@) =~= seq![tail[0]] + funcs_without(tail.drop_first(), name@));
            assert(cur.subrange(0, k + 1) =~= cur.subrange(0, k as int) + seq![tail[0]]);
            k += 1;
        }
    }
    let ghost fin = func_views(func_macros@);
    assert(fin.subrange(k as int, fin.len() as int) =~= seq![]);
    assert(fin.subrange(0, k as int) =~= fin);
}

/// Where the skipped conditional section starting at `j` ends.
pub fn section_end(tokens: &Vec<Token>, j: usize) -> (r: usize)
    requires
        j <= tokens.len(),
    ensures
        r == skip_section(toks(tokens@), j as int, 0),
        j <= r <= tokens.len(),
{
    let ghost ts = toks(tokens@);
    let mut nest: usize = 0;
    let mut k: usize = j;
    while k < tokens.len()
        invariant
            j <= k <= tokens.len(),
            nest <= k,
            ts == toks(tokens@),
            skip_section(ts, j as int, 0) == skip_section(ts, k as int, nest as nat),
        decreases tokens.len() - k,
    {
        assert(ts[k as int] == tokens@[k as int]@);
        let kind = tokens[k].kind;
        if kind == TokenKind::Endif {
            if nest == 0 {
                return k + 1;
            }
            nest = nest - 1;
        } else if kind == TokenKind::Ifdef || kind == TokenKind::Ifndef {
            nest = nest + 1;
        }
        k += 1;
    }
    k
}

/// The first `#end` at or after `j`, or the end of the stream.
fn body_end_exec(tokens: &Vec<Token>, j: usize) -> (r: usize)
    requires
        j <= tokens.len(),
    ensures
        r == body_end(toks(tokens@), j as int),
        j <= r <= tokens.len(),
{
    let ghost ts = toks(tokens@);
    let mut k: usize = j;
    while k < tokens.len()
        invariant
            j <= k <= tokens.len(),
            ts == toks(tokens@),
            body_end(ts, j as int) == body_end(ts, k as int),
        decreases tokens.len() - k,
    {
        assert(ts[k as int] == tokens@[k as int]@);
        if tokens[k].kind == TokenKind::EndDefine {
            return k;
        }
        k += 1;
    }
    k
}

/// The first `)` at or after `j`, or the end of the stream.
fn find_close_exec(tokens: &Vec<Token>, j: usize) -> (r: usize)
    requires
        j <= tokens.len(),
    ensures
        r == find_close(toks(tokens@), j as int),
        j <= r <= tokens.len(),
{
    let ghost ts = toks(tokens@);
    let mut k: usize = j;
    while k < tokens.len()
        invariant
            j <= k <= tokens.len(),
            ts == toks(tokens@),
            find_close(ts, j as int) == find_close(ts, k as int),
        decreases tokens.len() - k,
    {
        assert(ts[k as int] == tokens@[k as int]@);
        if chars_are(&tokens[k].value, ")") {
            return k;
        }
        k += 1;
    }
    k
}

/// Copies of the tokens from `from` up to `to`.
pub fn slice_tokens(tokens: &Vec<Token>, from: usize, to: usize) -> (r: Vec<Token>)
    requires
        from <= to <= tokens.len(),
    ensures
        toks(r@) == toks(tokens@).subrange(from as int, to as int),
{
    let ghost ts = toks(tokens@);
    let mut r: Vec<Token> = Vec::new();
    let mut k: usize = from;
    while k < to
        invariant
            from <= k <= to,
            to <= tokens.len(),
            ts == toks(tokens@),
            toks(r@) == ts.subrange(from as int, k as int),
        decreases to - k,
    {
        let ghost pre = toks(r@);
        assert(ts[k as int] == tokens@[k as int]@);
        let t = tokens[k].duplicate();
        let ghost tv = t@;
        r.push(t);
        assert(toks(r@) =~= pre.push(tv));
        assert(toks(r@) =~= ts.subrange(from as int, k + 1));
        k += 1;
    }
    r
}

/// The parameter names in the tokens from `from` up to `to`, if well formed.
fn parse_params_exec(tokens: &Vec<Token>, from: usize, to: usize) -> (r: Option<Vec<Vec<char>>>)
    requires
        from <= to <= tokens.len(),
    ensures
        match r {
            Some(v) => parse_params(toks(tokens@).subrange(from as int, to as int)) == Some(char_seqs(v@)),
            None => parse_params(toks(tokens@).subrange(from as int, to as int)) is None,
        },
{
    let ghost ps = toks(tokens@).subrange(from as int, to as int);
    let mut names: Vec<Vec<char>> = Vec::new();
    if from == to {
        assert(char_seqs(names@) =~= seq![]);
        return Some(names);
    }
    let mut k: usize = 0;
    loop
        invariant
            from < to <= tokens.len(),
            ps == toks(tokens@).subrange(from as int, to as int),
            k < ps.len(),
            params_from(ps, 0) == match params_from(ps, k as int) {
                Some(rest) => Some(char_seqs(names@) + rest),
                None => None::<Seq<Seq<char>>>,
            },
        decreases ps.len() - k,
    {
        let t = &tokens[from + k];
        assert(ps[k as int] == t@);
        if !(t.kind == TokenKind::Name || t.kind == TokenKind::Vararg) {
            return None;
        }
        let ghost pre = char_seqs(names@);
        names.push(copy_chars(&t.value));
        assert(char_seqs(names@) =~= pre.push(t.value@));
        if k + 1 == to - from {
            assert(char_seqs(names@) =~= pre + seq![t.value@]);
            return Some(names);
        }
        let c = &tokens[from + k + 1];
        assert(ps[k + 1] == c@);
        if !(c.kind == TokenKind::Delimiter && chars_are(&c.value, ",")) {
            return None;
        }
        if k + 2 >= to - from {
            return None;
        }
        proof {
            match params_from(ps, k + 2) {
                Some(rest) => {
                    assert(pre + (seq![t.value@] + rest) =~= char_seqs(names@) + rest);
                },
                None => {},
            }
        }
        k = k + 2;
    }
}

/// Parses the `#define` directive at `i` into the environment; returns where
/// processing resumes.
pub fn define_directive(tokens: &Vec<Token>, i: usize, value_macros: &mut Vec<ValueMacro>, func_macros: &mut Vec<FunctionMacro>) -> (r: usize)
    requires
        i < tokens.len(),
    ensures
        (r as int, env_of(final(value_macros)@, final(func_macros)@)) == define_at(toks(tokens@), i as int, env_of(old(value_macros)@, old(func_macros)@)),
        i < r <= tokens.len(),
{
    let ghost ts = toks(tokens@);
    let ghost env = env_of(value_macros@, func_macros@);
    if !(tokens.len() - i > 1 && tokens[i + 1].kind == TokenKind::MacroName) {
        proof {
            if i + 1 < tokens.len() {
                assert(ts[i + 1] == tokens@[i + 1]@);
            }
        }
        return i + 1;
    }
    assert(ts[i + 1] == tokens@[i + 1]@);
    let name = copy_chars(&tokens[i + 1].value);
    if tokens.len() - i == 2 {
        let ghost pre = value_views(value_macros@);
        let body: Vec<Token> = Vec::new();
        assert(toks(body@) =~= seq![]);
        value_macros.push(ValueMacro { name, value: body });
        assert(value_views(value_macros@) =~= pre.push(ValueMacroView { name: ts[i + 1].text, body: seq![] }));
        return tokens.len();
    }
    assert(ts[i + 2] == tokens@[i + 2]@);
    let third = &tokens[i + 2];
    if third.kind == TokenKind::Newline {
        let ghost pre = value_views(value_macros@);
        let body: Vec<Token> = Vec::new();
        assert(toks(body@) =~= seq![]);
        value_macros.push(ValueMacro { name, value: body });
        assert(value_views(value_macros@) =~= pre.push(ValueMacroView { name: ts[i + 1].text, body: seq![] }));
        return i + 3;
    }
    if chars_are(&third.value, "=") {
        let e = body_end_exec(tokens, i + 3);
        let body = slice_tokens(tokens, i + 3, e);
        let ghost pre = value_views(value_macros@);
        let ghost bv = toks(body@);
        value_macros.push(ValueMacro { name, value: body });
        assert(value_views(value_macros@) =~= pre.push(ValueMacroView { name: ts[i + 1].text, body: bv }));
        return if e < tokens.len() { e + 1 } else { tokens.len() };
    }
    if chars_are(&third.value, "(") {
        let close = find_close_exec(tokens, i + 3);
        match parse_params_exec(tokens, i + 3, close) {
            Some(params) => {
                if tokens.len() - close > 1 && chars_are(&tokens[close + 1].value, "=") {
                    assert(ts[close + 1] == tokens@[close + 1]@);
                    let e = body_end_exec(tokens, close + 2);
                    let body = slice_tokens(tokens, close + 2, e);
                    let ghost pre = func_views(func_macros@);
                    let ghost bv = toks(body@);
                    let ghost pv = char_seqs(params@);
                    func_macros.push(FunctionMacro { name, params, value: body });
                    assert(func_views(func_macros@) =~= pre.push(FunctionMacroView { name: ts[i + 1].text, params: pv, body: bv }));
                    return if e < tokens.len() { e + 1 } else { tokens.len() };
                }
                proof {
                    if close + 1 < tokens.len() {
                        assert(ts[close + 1] == tokens@[close + 1]@);
                    }
                }
                return i + 1;
            },
            None => {
                return i + 1;
            },
        }
    }
    i + 1
}

} // verus!
