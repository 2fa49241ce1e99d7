//! Function-macro invocation: balanced argument scanning and positional
//! binding of parameters, with a variadic tail.
use vstd::prelude::*;
use crate::token::{Token, TokenKind, TokenView, ValueMacro, ValueMacroView, FunctionMacro, FunctionMacroView, toks, chars_are, same_chars, append_tokens, copy_tokens, copy_chars};
use crate::subst::{va_args, substituted, apply_value_macros};

verus! {

/// A lexeme that opens a nesting level during argument scanning.
pub open spec fn opens_group(s: Seq<char>) -> bool {
    s == "("@ || s == "["@ || s == "{"@ || s == "function"@ || s == "do"@ || s == "then"@
}

/// A lexeme that closes a nesting level during argument scanning.
pub open spec fn closes_group(s: Seq<char>) -> bool {
    s == ")"@ || s == "]"@ || s == "}"@ || s == "end"@
}

/// A lexeme that opens an invocation's argument list.
pub open spec fn opens_call(s: Seq<char>) -> bool {
    s == "("@ || s == "["@ || s == "{"@
}

pub open spec fn is_comma(t: TokenView) -> bool {
    t.kind == TokenKind::Delimiter && t.text == ","@
}

/// The comma token that separates variadic arguments.
pub open spec fn comma() -> TokenView {
    TokenView { kind: TokenKind::Delimiter, text: seq![','] }
}

pub open spec fn push_last(args: Seq<Seq<TokenView>>, t: TokenView) -> Seq<Seq<TokenView>> {
    args.update(args.len() - 1, args.last().push(t))
}

/// Scans arguments from position `j` at nesting `level`, with `args` read so
/// far: splits at commas on level 0 and stops after the closer that takes the
/// level below 0, or at the end. Gives the arguments and the position after
/// the scan.
pub open spec fn scan_args(ts: Seq<TokenView>, j: int, level: nat, args: Seq<Seq<TokenView>>) -> (Seq<Seq<TokenView>>, int)
    decreases ts.len() - j,
{
    if j < 0 || j >= ts.len() {
        (args, ts.len() as int)
    } else {
        let t = ts[j];
        if is_comma(t) && level == 0 {
            scan_args(ts, j + 1, level, args.push(seq![]))
        } else if opens_group(t.text) {
            scan_args(ts, j + 1, level + 1, push_last(args, t))
        } else if closes_group(t.text) {
            if level == 0 {
                (args, j + 1)
            } else {
                scan_args(ts, j + 1, (level - 1) as nat, push_last(args, t))
            }
        } else {
            scan_args(ts, j + 1, level, push_last(args, t))
        }
    }
}

/// Arguments joined with commas between them.
pub open spec fn joined(args: Seq<Seq<TokenView>>) -> Seq<TokenView>
    decreases args.len(),
{
    if args.len() == 0 {
        seq![]
    } else if args.len() == 1 {
        args[0]
    } else {
        joined(args.drop_last()) + seq![comma()] + args.last()
    }
}

/// The binding of parameter `k`: `...` takes the arguments from `k` on under
/// `__VA_ARGS__`; another parameter takes argument `k`, or nothing where the
/// call gave fewer.
pub open spec fn binding(params: Seq<Seq<char>>, args: Seq<Seq<TokenView>>, k: int) -> ValueMacroView {
    if params[k] == "..."@ {
        ValueMacroView {
            name: va_args(),
            body: if k < args.len() { joined(args.subrange(k, args.len() as int)) } else { seq![] },
        }
    } else {
        ValueMacroView { name: params[k], body: if k < args.len() { args[k] } else { seq![] } }
    }
}

/// The body after substituting the bindings of the first `n` parameters in
/// order.
pub open spec fn bind_upto(body: Seq<TokenView>, params: Seq<Seq<char>>, args: Seq<Seq<TokenView>>, n: int) -> Seq<TokenView>
    decreases n,
{
    if n <= 0 {
        body
    } else {
        substituted(bind_upto(body, params, args, n - 1), binding(params, args, n - 1))
    }
}

/// The invocation of `f` at position `c`, if there is one: the substituted
/// body and the number of tokens the invocation spans.
pub open spec fn invoke_at(ts: Seq<TokenView>, c: int, f: FunctionMacroView) -> Option<(Seq<TokenView>, int)> {
    if 0 <= c && c + 1 < ts.len() && ts[c].kind == TokenKind::MacroName && ts[c].text == f.name && opens_call(ts[c + 1].text) {
        let (args, end) = scan_args(ts, c + 2, 0, seq![seq![]]);
        Some((bind_upto(f.body, f.params, args, f.params.len() as int), end - c))
    } else {
        None
    }
}

pub open spec fn arg_lists(args: Seq<Vec<Token>>) -> Seq<Seq<TokenView>> {
    args.map_values(|a: Vec<Token>| toks(a@))
}

pub open spec fn opt_invocation(o: Option<(Vec<Token>, usize)>) -> Option<(Seq<TokenView>, int)> {
    match o {
        Some((v, n)) => Some((toks(v@), n as int)),
        None => None,
    }
}

fn opens_group_exec(s: &Vec<char>) -> (r: bool)
    ensures
        r == opens_group(s@),
{
    chars_are(s, "(") || chars_are(s, "[") || chars_are(s, "{") || chars_are(s, "function") || chars_are(s, "do")
        || chars_are(s, "then")
}

fn closes_group_exec(s: &Vec<char>) -> (r: bool)
    ensures
        r == closes_group(s@),
{
    chars_are(s, ")") || chars_are(s, "]") || chars_are(s, "}") || chars_are(s, "end")
}

/// Scans the arguments of a call whose opener is at `start - 1`.
fn scan_call_args(tokens: &Vec<Token>, start: usize) -> (r: (Vec<Vec<Token>>, usize))
    requires
        start <= tokens.len(),
    ensures
        (arg_lists(r.0@), r.1 as int) == scan_args(toks(tokens@), start as int, 0, seq![seq![]]),
{
    let ghost ts = toks(tokens@);
    let mut done: Vec<Vec<Token>> = Vec::new();
    let mut cur: Vec<Token> = Vec::new();
    let mut level: usize = 0;
    let mut j: usize = start;
    assert(toks(cur@) =~= seq![]);
    assert(arg_lists(done@).push(toks(cur@)) =~= seq![seq![]]);
    while j < tokens.len()
        invariant
            start <= j <= tokens.len(),
            level <= j,
            ts == toks(tokens@),
            scan_args(ts, start as int, 0, seq![seq![]])
                == scan_args(ts, j as int, level as nat, arg_lists(done@).push(toks(cur@))),
        decreases tokens.len() - j,
    {
        let t = &tokens[j];
        assert(ts[j as int] == t@);
        let ghost args = arg_lists(done@).push(toks(cur@));
        if level == 0 && t.kind == TokenKind::Delimiter && chars_are(&t.value, ",") {
            let c = cur;
            done.push(c);
            cur = Vec::new();
            assert(toks(cur@) =~= seq![]);
            assert(arg_lists(done@).push(toks(cur@)) =~= args.push(seq![]));
        } else if opens_group_exec(&t.value) {
            let ghost pre = toks(cur@);
            cur.push(t.duplicate());
            assert(toks(cur@) =~= pre.push(ts[j as int]));
            level = level + 1;
            assert(arg_lists(done@).push(toks(cur@)) =~= push_last(args, ts[j as int]));
        } else if closes_group_exec(&t.value) {
            if level == 0 {
                let ghost fin = arg_lists(done@).push(toks(cur@));
                done.push(cur);
                assert(arg_lists(done@) =~= fin);
                return (done, j + 1);
            }
            let ghost pre = toks(cur@);
            cur.push(t.duplicate());
            assert(toks(cur@) =~= pre.push(ts[j as int]));
            level = level - 1;
            assert(arg_lists(done@).push(toks(cur@)) =~= push_last(args, ts[j as int]));
        } else {
            let ghost pre = toks(cur@);
            cur.push(t.duplicate());
            assert(toks(cur@) =~= pre.push(ts[j as int]));
            assert(arg_lists(done@).push(toks(cur@)) =~= push_last(args, ts[j as int]));
        }
        j += 1;
    }
    let ghost fin = arg_lists(done@).push(toks(cur@));
    done.push(cur);
    assert(arg_lists(done@) =~= fin);
    (done, j)
}

/// The arguments from `from` on, joined with commas.
fn join_args(args: &Vec<Vec<Token>>, from: usize) -> (r: Vec<Token>)
    requires
        from <= args.len(),
    ensures
        toks(r@) == joined(arg_lists(args@).subrange(from as int, args.len() as int)),
{
    let ghost all = arg_lists(args@);
    let mut r: Vec<Token> = Vec::new();
    let mut l: usize = from;
    assert(all.subrange(from as int, from as int) =~= seq![]);
    while l < args.len()
        invariant
            from <= l <= args.len(),
            all == arg_lists(args@),
            toks(r@) == joined(all.subrange(from as int, l as int)),
        decreases args.len() - l,
    {
        let ghost pre = toks(r@);
        let ghost part = all.subrange(from as int, l + 1);
        assert(part.drop_last() =~= all.subrange(from as int, l as int));
        assert(all[l as int] == toks(args@[l as int]@));
        if l > from {
            let mut text: Vec<char> = Vec::new();
            text.push(',');
            assert(text@ =~= seq![',']);
            let c = Token::new(TokenKind::Delimiter, text);
            assert(c@ == comma());
            r.push(c);
            assert(toks(r@) =~= pre + seq![comma()]);
        }
        append_tokens(&mut r, &args[l]);
        proof {
            if l == from {
                assert(toks(r@) =~= part[0]);
            } else {
                assert(toks(r@) =~= joined(part));
            }
        }
        l += 1;
    }
    r
}

/// The binding of parameter `k` as a value macro.
fn bind_param(params: &Vec<Vec<char>>, args: &Vec<Vec<Token>>, k: usize) -> (r: ValueMacro)
    requires
        k < params.len(),
    ensures
        r@ == binding(crate::token::char_seqs(params@), arg_lists(args@), k as int),
{
    let ghost ps = crate::token::char_seqs(params@);
    assert(ps[k as int] == params@[k as int]@);
    if chars_are(&params[k], "...") {
        let body = if k < args.len() { join_args(args, k) } else { Vec::new() };
        proof {
            if k >= args.len() {
                assert(toks(body@) =~= seq![]);
            }
        }
        let name = vec!['_', '_', 'V', 'A', '_', 'A', 'R', 'G', 'S', '_', '_'];
        proof {
            reveal_strlit("__VA_ARGS__");
            assert(name@ =~= va_args());
        }
        ValueMacro { name, value: body }
    } else {
        let body = if k < args.len() { copy_tokens(&args[k]) } else { Vec::new() };
        proof {
            if k >= args.len() {
                assert(toks(body@) =~= seq![]);
            }
        }
        ValueMacro { name: copy_chars(&params[k]), value: body }
    }
}

/// Tests whether `func_macro` is invoked at position `at` and, if so, returns
/// its body with the arguments substituted and the number of tokens the
/// invocation spans (name, opener, arguments and closer).
pub fn apply_func_macro_once(tokens: &Vec<Token>, at: usize, func_macro: &FunctionMacro) -> (r: Option<(Vec<Token>, usize)>)
    ensures
        opt_invocation(r) == invoke_at(toks(tokens@), at as int, func_macro@),
        match r {
            Some((_, n)) => 2 <= n && at + n <= tokens.len(),
            None => true,
        },
{
    let ghost ts = toks(tokens@);
    if !(at < tokens.len() && tokens.len() - at > 1) {
        return None;
    }
    assert(ts[at as int] == tokens@[at as int]@);
    assert(ts[at + 1] == tokens@[at + 1]@);
    let t = &tokens[at];
    let opener = &tokens[at + 1].value;
    if !(t.kind == TokenKind::MacroName && same_chars(&t.value, &func_macro.name)
        && (chars_are(opener, "(") || chars_are(opener, "[") || chars_are(opener, "{"))) {
        return None;
    }
    let (args, end) = scan_call_args(tokens, at + 2);
    let ghost fv = func_macro@;
    let ghost av = arg_lists(args@);
    let mut value = copy_tokens(&func_macro.value);
    let mut k: usize = 0;
    while k < func_macro.params.len()
        invariant
            k <= func_macro.params.len(),
            fv == func_macro@,
            av == arg_lists(args@),
            toks(value@) == bind_upto(fv.body, fv.params, av, k as int),
        decreases func_macro.params.len() - k,
    {
        let b = bind_param(&func_macro.params, &args, k);
        value = apply_value_macros(&value, &b);
        k += 1;
    }
    proof {
        lemma_scan_end(ts, at + 2, 0, seq![seq![]]);
    }
    Some((value, end - at))
}

proof fn lemma_scan_end(ts: Seq<TokenView>, j: int, level: nat, args: Seq<Seq<TokenView>>)
    requires
        0 <= j <= ts.len(),
    ensures
        j <= scan_args(ts, j, level, args).1 <= ts.len(),
    decreases ts.len() - j,
{
    if j < ts.len() {
        let t = ts[j];
        if is_comma(t) && level == 0 {
            lemma_scan_end(ts, j + 1, level, args.push(seq![]));
        } else if opens_group(t.text) {
            lemma_scan_end(ts, j + 1, level + 1, push_last(args, t));
        } else if closes_group(t.text) {
            if level != 0 {
                lemma_scan_end(ts, j + 1, (level - 1) as nat, push_last(args, t));
            }
        } else {
            lemma_scan_end(ts, j + 1, level, push_last(args, t));
        }
    }
}

} // verus!
