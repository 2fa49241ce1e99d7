//! The macro expander: a left-to-right rewriter over the token stream that
//! keeps a live table of definitions and re-scans every substitution.
//!
//! Re-scanning is bounded: `depth` is the number of nested re-scans allowed.
//! A substitution made with no depth left is pasted but not re-scanned, so a
//! self-referential macro stops instead of looping.
use vstd::prelude::*;
use crate::token::{Token, TokenKind, TokenView, ValueMacro, ValueMacroView, FunctionMacro, FunctionMacroView, toks, value_views, func_views, append_tokens};
use crate::subst::{value_at, opt_toks, apply_value_macro_once};
use crate::invoke::{invoke_at, opt_invocation, apply_func_macro_once};
use crate::paste::{pasted, eval_pastes};
use crate::env::{EnvView, env_of, is_defined, undefine, define_at, skip_section, defined, undefine_name, section_end, define_directive};

verus! {

/// What the first value macro from index `k` on that applies at `i` expands to.
pub open spec fn find_value(ts: Seq<TokenView>, i: int, vs: Seq<ValueMacroView>, k: int) -> Option<Seq<TokenView>>
    decreases vs.len() - k,
{
    if k < 0 || k >= vs.len() {
        None
    } else {
        match value_at(ts, i, vs[k]) {
            Some(r) => Some(r),
            None => find_value(ts, i, vs, k + 1),
        }
    }
}

/// The invocation at `i` of the first function macro from index `k` on that
/// matches there.
pub open spec fn find_invocation(ts: Seq<TokenView>, i: int, fs: Seq<FunctionMacroView>, k: int) -> Option<(Seq<TokenView>, int)>
    decreases fs.len() - k,
{
    if k < 0 || k >= fs.len() {
        None
    } else {
        match invoke_at(ts, i, fs[k]) {
            Some(r) => Some(r),
            None => find_invocation(ts, i, fs, k + 1),
        }
    }
}

/// One step of the expander at position `i`: the tokens it emits, where it
/// resumes, and the environment after it.
pub open spec fn step(ts: Seq<TokenView>, i: int, env: EnvView, depth: nat) -> (Seq<TokenView>, int, EnvView)
    decreases depth, ts.len() - i, 0nat,
{
    if i < 0 || i >= ts.len() {
        (seq![], ts.len() as int, env)
    } else {
        let t = ts[i];
        if t.kind == TokenKind::Undef {
            if i + 1 < ts.len() && ts[i + 1].kind == TokenKind::MacroName {
                (seq![], i + 2, undefine(env, ts[i + 1].text))
            } else {
                (seq![], i + 1, env)
            }
        } else {
            match find_value(ts, i, env.values, 0) {
                Some(r) => {
                    if depth == 0 {
                        (pasted(r), i + 1, env)
                    } else {
                        let (o, e) = expand_from(r, 0, env, (depth - 1) as nat);
                        (pasted(o), i + 1, e)
                    }
                },
                None => match find_invocation(ts, i, env.funcs, 0) {
                    Some((r, n)) => {
                        if depth == 0 {
                            (pasted(r), i + n, env)
                        } else {
                            let (o, e) = expand_from(r, 0, env, (depth - 1) as nat);
                            (pasted(o), i + n, e)
                        }
                    },
                    None => {
                        if t.kind == TokenKind::Ifdef || t.kind == TokenKind::Ifndef {
                            if i + 1 < ts.len() && ts[i + 1].kind == TokenKind::MacroName {
                                if is_defined(env, ts[i + 1].text) != (t.kind == TokenKind::Ifndef) {
                                    (seq![], i + 2, env)
                                } else {
                                    (seq![], skip_section(ts, i + 2, 0), env)
                                }
                            } else {
                                (seq![], i + 1, env)
                            }
                        } else if t.kind == TokenKind::Endif {
                            (seq![], i + 1, env)
                        } else if t.kind == TokenKind::DefineDirective {
                            let (n, e) = define_at(ts, i, env);
                            (seq![], n, e)
                        } else {
                            (seq![t], i + 1, env)
                        }
                    },
                },
            }
        }
    }
}

/// The expansion of the stream from position `i`: the tokens emitted and the
/// environment at the end.
pub open spec fn expand_from(ts: Seq<TokenView>, i: int, env: EnvView, depth: nat) -> (Seq<TokenView>, EnvView)
    decreases depth, ts.len() - i, 1nat,
{
    if i < 0 || i >= ts.len() {
        (seq![], env)
    } else {
        let (o, n, e) = step(ts, i, env, depth);
        if n <= i || n > ts.len() {
            (o, e)
        } else {
            let (rest, e2) = expand_from(ts, n, e, depth);
            (o + rest, e2)
        }
    }
}

/// The expansion of a whole stream.
pub open spec fn expand(ts: Seq<TokenView>, env: EnvView, depth: nat) -> (Seq<TokenView>, EnvView) {
    expand_from(ts, 0, env, depth)
}

/// What the first value macro that applies at `i` expands to.
fn first_value_match(tokens: &Vec<Token>, i: usize, value_macros: &Vec<ValueMacro>) -> (r: Option<Vec<Token>>)
    ensures
        opt_toks(r) == find_value(toks(tokens@), i as int, value_views(value_macros@), 0),
{
    let ghost vs = value_views(value_macros@);
    let mut k: usize = 0;
    while k < value_macros.len()
        invariant
            k <= value_macros.len(),
            vs == value_views(value_macros@),
            find_value(toks(tokens@), i as int, vs, 0) == find_value(toks(tokens@), i as int, vs, k as int),
        decreases value_macros.len() - k,
    {
        let r = apply_value_macro_once(tokens, i, &value_macros[k]);
        if r.is_some() {
            return r;
        }
        k += 1;
    }
    None
}

/// The invocation at `i` of the first function macro that matches there.
fn first_invocation(tokens: &Vec<Token>, i: usize, func_macros: &Vec<FunctionMacro>) -> (r: Option<(Vec<Token>, usize)>)
    ensures
        opt_invocation(r) == find_invocation(toks(tokens@), i as int, func_views(func_macros@), 0),
        match r {
            Some((_, n)) => 2 <= n && i + n <= tokens.len(),
            None => true,
        },
{
    let ghost fs = func_views(func_macros@);
    let mut k: usize = 0;
    while k < func_macros.len()
        invariant
            k <= func_macros.len(),
            fs == func_views(func_macros@),
            find_invocation(toks(tokens@), i as int, fs, 0) == find_invocation(toks(tokens@), i as int, fs, k as int),
        decreases func_macros.len() - k,
    {
        let r = apply_func_macro_once(tokens, i, &func_macros[k]);
        if r.is_some() {
            return r;
        }
        k += 1;
    }
    None
}

/// Re-scans a substitution (while depth is left), pastes it, and appends it
/// to `out`.
fn emit_substitution(
    r: Vec<Token>,
    value_macros: &mut Vec<ValueMacro>,
    func_macros: &mut Vec<FunctionMacro>,
    depth: usize,
    out: &mut Vec<Token>,
)
    ensures
        depth == 0 ==> toks(final(out)@) == toks(old(out)@) + pasted(toks(r@))
            && env_of(final(value_macros)@, final(func_macros)@) == env_of(old(value_macros)@, old(func_macros)@),
        depth > 0 ==> ({
            let (o, e) = expand_from(toks(r@), 0, env_of(old(value_macros)@, old(func_macros)@), (depth - 1) as nat);
            toks(final(out)@) == toks(old(out)@) + pasted(o) && env_of(final(value_macros)@, final(func_macros)@) == e
        }),
    decreases depth, 0nat, 1nat,
{
    if depth == 0 {
        let p = eval_pastes(&r);
        append_tokens(out, &p);
    } else {
        let e = get_macros(&r, value_macros, func_macros, depth - 1);
        let p = eval_pastes(&e);
        append_tokens(out, &p);
    }
}

/// One step of the expander at position `i`: appends what it emits to `out`
/// and returns where processing resumes.
fn expand_step(
    tokens: &Vec<Token>,
    i: usize,
    value_macros: &mut Vec<ValueMacro>,
    func_macros: &mut Vec<FunctionMacro>,
    depth: usize,
    out: &mut Vec<Token>,
) -> (next: usize)
    requires
        i < tokens.len(),
    ensures
        ({
            let (o, n, e) = step(toks(tokens@), i as int, env_of(old(value_macros)@, old(func_macros)@), depth as nat);
            toks(final(out)@) == toks(old(out)@) + o && next == n && env_of(final(value_macros)@, final(func_macros)@) == e
        }),
        i < next <= tokens.len(),
    decreases depth, 0nat, 2nat,
{
    let ghost ts = toks(tokens@);
    let ghost env = env_of(value_macros@, func_macros@);
    let ghost out0 = toks(out@);
    assert(ts[i as int] == tokens@[i as int]@);
    let kind = tokens[i].kind;
    if kind == TokenKind::Undef {
        if tokens.len() - i > 1 && tokens[i + 1].kind == TokenKind::MacroName {
            assert(ts[i + 1] == tokens@[i + 1]@);
            undefine_name(value_macros, func_macros, &tokens[i + 1].value);
            assert(toks(out@) =~= out0 + seq![]);
            return i + 2;
        }
        proof {
            if i + 1 < tokens.len() {
                assert(ts[i + 1] == tokens@[i + 1]@);
            }
        }
        assert(toks(out@) =~= out0 + seq![]);
        return i + 1;
    }
    match first_value_match(tokens, i, value_macros) {
        Some(r) => {
            emit_substitution(r, value_macros, func_macros, depth, out);
            return i + 1;
        },
        None => {},
    }
    match first_invocation(tokens, i, func_macros) {
        Some((r, n)) => {
            emit_substitution(r, value_macros, func_macros, depth, out);
            return i + n;
        },
        None => {},
    }
    assert(toks(out@) =~= out0 + seq![]);
    if kind == TokenKind::Ifdef || kind == TokenKind::Ifndef {
        if tokens.len() - i > 1 && tokens[i + 1].kind == TokenKind::MacroName {
            assert(ts[i + 1] == tokens@[i + 1]@);
            let on = defined(value_macros, func_macros, &tokens[i + 1].value);
            if on != (kind == TokenKind::Ifndef) {
                return i + 2;
            }
            return section_end(tokens, i + 2);
        }
        proof {
            if i + 1 < tokens.len() {
                assert(ts[i + 1] == tokens@[i + 1]@);
            }
        }
        return i + 1;
    }
    if kind == TokenKind::Endif {
        return i + 1;
    }
    if kind == TokenKind::DefineDirective {
        return define_directive(tokens, i, value_macros, func_macros);
    }
    out.push(tokens[i].duplicate());
    assert(toks(out@) =~= out0 + seq![ts[i as int]]);
    i + 1
}

/// Expands the token stream against the definitions in `value_macros` and
/// `func_macros`, which it updates as directives are met; `depth` bounds the
/// nesting of re-scans.
pub fn get_macros(
    tokens: &Vec<Token>,
    value_macros: &mut Vec<ValueMacro>,
    func_macros: &mut Vec<FunctionMacro>,
    depth: usize,
) -> (r: Vec<Token>)
    ensures
        (toks(r@), env_of(final(value_macros)@, final(func_macros)@))
            == expand(toks(tokens@), env_of(old(value_macros)@, old(func_macros)@), depth as nat),
    decreases depth, 0nat, 3nat,
{
    let ghost ts = toks(tokens@);
    let ghost env0 = env_of(value_macros@, func_macros@);
    let mut out: Vec<Token> = Vec::new();
    let mut i: usize = 0;
    assert(toks(out@) + expand_from(ts, 0, env0, depth as nat).0 =~= expand_from(ts, 0, env0, depth as nat).0);
    while i < tokens.len()
        invariant
            i <= tokens.len(),
            ts == toks(tokens@),
            expand(ts, env0, depth as nat).0 == toks(out@) + expand_from(ts, i as int, env_of(value_macros@, func_macros@), depth as nat).0,
            expand(ts, env0, depth as nat).1 == expand_from(ts, i as int, env_of(value_macros@, func_macros@), depth as nat).1,
        decreases tokens.len() - i,
    {
        let ghost env = env_of(value_macros@, func_macros@);
        let ghost pre = toks(out@);
        let next = expand_step(tokens, i, value_macros, func_macros, depth, &mut out);
        proof {
            let (o, n, e) = step(ts, i as int, env, depth as nat);
            let (rest, e2) = expand_from(ts, n, e, depth as nat);
            assert(expand_from(ts, i as int, env, depth as nat) == (o + rest, e2));
            assert(pre + (o + rest) =~= toks(out@) + rest);
        }
        i = next;
    }
    assert(toks(out@) + seq![] =~= toks(out@));
    out
}

} // verus!
