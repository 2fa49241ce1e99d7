//! Rewriting a token sequence with one value macro: parameter substitution,
//! stringification and the variadic forms.
use vstd::prelude::*;
use crate::token::{Token, TokenKind, TokenView, ValueMacro, ValueMacroView, toks, chars_are, same_chars, append_tokens, copy_tokens};
use crate::render::{render, render_tokens_as_string};

verus! {

/// How one character is written inside a quoted string literal.
pub open spec fn escape_char(c: char) -> Seq<char> {
    if c == '"' {
        seq!['\\', '"']
    } else if c == '\\' {
        seq!['\\', '\\']
    } else if c == '\n' {
        seq!['\\', 'n']
    } else if c == '\r' {
        seq!['\\', 'r']
    } else if c == '\t' {
        seq!['\\', 't']
    } else if c == '\0' {
        seq!['\\', '0']
    } else {
        seq![c]
    }
}

/// The text with each character escaped.
pub open spec fn escaped(s: Seq<char>) -> Seq<char>
    decreases s.len(),
{
    if s.len() == 0 {
        seq![]
    } else {
        escaped(s.drop_last()) + escape_char(s.last())
    }
}

/// The text as a double-quoted string literal.
pub open spec fn quoted(s: Seq<char>) -> Seq<char> {
    seq!['"'] + escaped(s) + seq!['"']
}

/// The string token that stringifies a token sequence.
pub open spec fn string_token(body: Seq<TokenView>) -> TokenView {
    TokenView { kind: TokenKind::String, text: quoted(render(body)) }
}

/// `#NAME#` names `name`.
pub open spec fn stringifies(text: Seq<char>, name: Seq<char>) -> bool {
    text.len() >= 2 && text.subrange(1, text.len() - 1) == name
}

/// The name under which a variadic tail is bound.
pub open spec fn va_args() -> Seq<char> {
    "__VA_ARGS__"@
}

/// A place where the variadic tail goes: `__VA_ARGS__` or `#...`.
pub open spec fn is_vararg_site(t: TokenView) -> bool {
    (t.kind == TokenKind::Name && t.text == va_args()) || t.kind == TokenKind::TaggedVararg
}

/// What the macro `m` turns position `i` into, if it applies there; `site` is
/// the kind of token that names it (a macro name at top level, a bare name
/// for a parameter in a body). A name right before `=` is left alone. The
/// comma before a variadic site and `#...` are rewritten only by the binding
/// of the variadic tail.
pub open spec fn rewrite_at(ts: Seq<TokenView>, i: int, m: ValueMacroView, site: TokenKind) -> Option<Seq<TokenView>> {
    let t = ts[i];
    if t.kind == site && t.text == m.name {
        if i + 1 < ts.len() && ts[i + 1].text == "="@ {
            None
        } else {
            Some(m.body)
        }
    } else if t.kind == TokenKind::Stringify && stringifies(t.text, m.name) {
        Some(seq![string_token(m.body)])
    } else if m.name == va_args() && t.kind == TokenKind::Delimiter && t.text == ","@ && i + 1 < ts.len()
        && is_vararg_site(ts[i + 1]) {
        if m.body.len() > 0 {
            Some(seq![t])
        } else {
            Some(seq![])
        }
    } else if m.name == va_args() && t.kind == TokenKind::TaggedVararg {
        Some(m.body)
    } else {
        None
    }
}

/// What a value macro turns position `i` of the stream into, if it applies.
pub open spec fn value_at(ts: Seq<TokenView>, i: int, m: ValueMacroView) -> Option<Seq<TokenView>> {
    if 0 <= i < ts.len() {
        rewrite_at(ts, i, m, TokenKind::MacroName)
    } else {
        None
    }
}

/// Position `i` of a body after substituting the binding `m`.
pub open spec fn subst_at(ts: Seq<TokenView>, i: int, m: ValueMacroView) -> Seq<TokenView> {
    match rewrite_at(ts, i, m, TokenKind::Name) {
        Some(r) => r,
        None => seq![ts[i]],
    }
}

/// The first `n` positions of a body after substituting `m`.
pub open spec fn subst_upto(ts: Seq<TokenView>, n: int, m: ValueMacroView) -> Seq<TokenView>
    decreases n,
{
    if n <= 0 {
        seq![]
    } else {
        subst_upto(ts, n - 1, m) + subst_at(ts, n - 1, m)
    }
}

/// A body with every site of the binding `m` substituted in one pass.
pub open spec fn substituted(ts: Seq<TokenView>, m: ValueMacroView) -> Seq<TokenView> {
    subst_upto(ts, ts.len() as int, m)
}

pub open spec fn opt_toks(o: Option<Vec<Token>>) -> Option<Seq<TokenView>> {
    match o {
        Some(v) => Some(toks(v@)),
        None => None,
    }
}

/// Escapes a text for a string literal.
fn escape_text(s: &Vec<char>) -> (r: Vec<char>)
    ensures
        r@ == escaped(s@),
{
    let mut r: Vec<char> = Vec::new();
    let mut i: usize = 0;
    while i < s.len()
        invariant
            i <= s.len(),
            r@ == escaped(s@.subrange(0, i as int)),
        decreases s.len() - i,
    {
        let c = s[i];
        let ghost pre = r@;
        if c == '"' {
            r.push('\\');
            r.push('"');
        } else if c == '\\' {
            r.push('\\');
            r.push('\\');
        } else if c == '\n' {
            r.push('\\');
            r.push('n');
        } else if c == '\r' {
            r.push('\\');
            r.push('r');
        } else if c == '\t' {
            r.push('\\');
            r.push('t');
        } else if c == '\0' {
            r.push('\\');
            r.push('0');
        } else {
            r.push(c);
        }
        assert(s@.subrange(0, i + 1).drop_last() =~= s@.subrange(0, i as int));
        assert(r@ =~= pre + escape_char(c));
        i += 1;
    }
    assert(s@.subrange(0, i as int) =~= s@);
    r
}

/// The string token that stringifies `body`.
fn stringify(body: &Vec<Token>) -> (r: Token)
    ensures
        r@ == string_token(toks(body@)),
{
    let text = render_tokens_as_string(body);
    let esc = escape_text(&text);
    let mut q: Vec<char> = Vec::new();
    q.push('"');
    let mut i: usize = 0;
    while i < esc.len()
        invariant
            i <= esc.len(),
            q@ == seq!['"'] + esc@.subrange(0, i as int),
        decreases esc.len() - i,
    {
        q.push(esc[i]);
        i += 1;
        assert(q@ =~= seq!['"'] + esc@.subrange(0, i as int));
    }
    q.push('"');
    assert(esc@.subrange(0, i as int) =~= esc@);
    assert(q@ =~= quoted(render(toks(body@))));
    Token::new(TokenKind::String, q)
}

/// Whether a lexeme of the form `#NAME#` names `name`.
fn stringify_names(text: &Vec<char>, name: &Vec<char>) -> (r: bool)
    ensures
        r == stringifies(text@, name@),
{
    if text.len() < 2 || text.len() - 2 != name.len() {
        return false;
    }
    let mut k: usize = 0;
    while k < name.len()
        invariant
            text.len() == name.len() + 2,
            k <= name.len(),
            forall|j: int| 0 <= j < k ==> text@[j + 1] == name@[j],
        decreases name.len() - k,
    {
        if text[k + 1] != name[k] {
            assert(text@.subrange(1, text.len() - 1)[k as int] != name@[k as int]);
            return false;
        }
        k += 1;
    }
    assert(text@.subrange(1, text.len() - 1) =~= name@);
    true
}

/// Whether a token is `__VA_ARGS__` or `#...`.
fn vararg_site(t: &Token) -> (r: bool)
    ensures
        r == is_vararg_site(t@),
{
    (t.kind == TokenKind::Name && chars_are(&t.value, "__VA_ARGS__")) || t.kind == TokenKind::TaggedVararg
}

fn rewrite(tokens: &Vec<Token>, i: usize, m: &ValueMacro, site: TokenKind) -> (r: Option<Vec<Token>>)
    requires
        i < tokens.len(),
    ensures
        opt_toks(r) == rewrite_at(toks(tokens@), i as int, m@, site),
{
    let t = &tokens[i];
    let ghost ts = toks(tokens@);
    assert(ts[i as int] == t@);
    if t.kind == site && same_chars(&t.value, &m.name) {
        if i + 1 < tokens.len() && chars_are(&tokens[i + 1].value, "=") {
            assert(ts[i + 1] == tokens@[i + 1]@);
            None
        } else {
            proof {
                if i + 1 < tokens.len() {
                    assert(ts[i + 1] == tokens@[i + 1]@);
                }
            }
            Some(copy_tokens(&m.value))
        }
    } else if t.kind == TokenKind::Stringify && stringify_names(&t.value, &m.name) {
        let s = stringify(&m.value);
        let ghost sv = s@;
        let v = vec![s];
        assert(toks(v@) =~= seq![sv]);
        Some(v)
    } else {
        let is_va = chars_are(&m.name, "__VA_ARGS__");
        if is_va && t.kind == TokenKind::Delimiter && chars_are(&t.value, ",") && i + 1 < tokens.len()
            && vararg_site(&tokens[i + 1]) {
            assert(ts[i + 1] == tokens@[i + 1]@);
            if m.value.len() > 0 {
                let c = t.duplicate();
                let v = vec![c];
                assert(toks(v@) =~= seq![t@]);
                Some(v)
            } else {
                let v: Vec<Token> = Vec::new();
                assert(toks(v@) =~= seq![]);
                Some(v)
            }
        } else if is_va && t.kind == TokenKind::TaggedVararg {
            Some(copy_tokens(&m.value))
        } else {
            proof {
                if i + 1 < tokens.len() {
                    assert(ts[i + 1] == tokens@[i + 1]@);
                }
            }
            None
        }
    }
}

/// Tests whether the value macro applies at position `at` of the stream and,
/// if so, returns what it expands to there.
pub fn apply_value_macro_once(tokens: &Vec<Token>, at: usize, value_macro: &ValueMacro) -> (r: Option<Vec<Token>>)
    ensures
        opt_toks(r) == value_at(toks(tokens@), at as int, value_macro@),
{
    if at < tokens.len() {
        rewrite(tokens, at, value_macro, TokenKind::MacroName)
    } else {
        None
    }
}

/// Substitutes the binding `value_macro` at every site of it in `input`.
pub fn apply_value_macros(input: &Vec<Token>, value_macro: &ValueMacro) -> (r: Vec<Token>)
    ensures
        toks(r@) == substituted(toks(input@), value_macro@),
{
    let ghost ts = toks(input@);
    let mut out: Vec<Token> = Vec::new();
    let mut i: usize = 0;
    while i < input.len()
        invariant
            i <= input.len(),
            ts == toks(input@),
            toks(out@) == subst_upto(ts, i as int, value_macro@),
        decreases input.len() - i,
    {
        match rewrite(input, i, value_macro, TokenKind::Name) {
            Some(v) => {
                append_tokens(&mut out, &v);
            },
            None => {
                let ghost pre = toks(out@);
                out.push(input[i].duplicate());
                assert(toks(out@) =~= pre + seq![ts[i as int]]);
            },
        }
        i += 1;
    }
    out
}

} // verus!
