//! Tokens, macro definitions, and their mathematical views.
use vstd::prelude::*;

verus! {

/// The kind tag of a token.
#[derive(Clone, Copy, Debug, PartialEq, Eq, Structural)]
pub enum TokenKind {
    Name,
    MacroName,
    Property,
    Number,
    String,
    Special,
    Brace,
    Delimiter,
    DefineDirective,
    Ifdef,
    Ifndef,
    Endif,
    Undef,
    EndDefine,
    Newline,
    Stringify,
    Vararg,
    TaggedVararg,
    Paste,
}

/// A token: its kind and the exact lexeme that produced it.
#[derive(Debug)]
pub struct Token {
    pub kind: TokenKind,
    pub value: Vec<char>,
}

/// The mathematical value of a token.
pub struct TokenView {
    pub kind: TokenKind,
    pub text: Seq<char>,
}

impl View for Token {
    type V = TokenView;

    open spec fn view(&self) -> TokenView {
        TokenView { kind: self.kind, text: self.value@ }
    }
}

/// The views of a sequence of tokens.
pub open spec fn toks(ts: Seq<Token>) -> Seq<TokenView> {
    ts.map_values(|t: Token| t@)
}

/// A value macro: a name and the token sequence it stands for.
#[derive(Debug)]
pub struct ValueMacro {
    pub name: Vec<char>,
    pub value: Vec<Token>,
}

pub struct ValueMacroView {
    pub name: Seq<char>,
    pub body: Seq<TokenView>,
}

impl View for ValueMacro {
    type V = ValueMacroView;

    open spec fn view(&self) -> ValueMacroView {
        ValueMacroView { name: self.name@, body: toks(self.value@) }
    }
}

pub open spec fn value_views(vs: Seq<ValueMacro>) -> Seq<ValueMacroView> {
    vs.map_values(|m: ValueMacro| m@)
}

/// A function macro: a name, positional parameter names (`...` marks the
/// variadic tail) and a body.
#[derive(Debug)]
pub struct FunctionMacro {
    pub name: Vec<char>,
    pub params: Vec<Vec<char>>,
    pub value: Vec<Token>,
}

pub struct FunctionMacroView {
    pub name: Seq<char>,
    pub params: Seq<Seq<char>>,
    pub body: Seq<TokenView>,
}

pub open spec fn char_seqs(ps: Seq<Vec<char>>) -> Seq<Seq<char>> {
    ps.map_values(|p: Vec<char>| p@)
}

impl View for FunctionMacro {
    type V = FunctionMacroView;

    open spec fn view(&self) -> FunctionMacroView {
        FunctionMacroView { name: self.name@, params: char_seqs(self.params@), body: toks(self.value@) }
    }
}

pub open spec fn func_views(fs: Seq<FunctionMacro>) -> Seq<FunctionMacroView> {
    fs.map_values(|m: FunctionMacro| m@)
}

/// Copies a character vector.
pub fn copy_chars(v: &Vec<char>) -> (r: Vec<char>)
    ensures
        r@ == v@,
{
    let mut r: Vec<char> = Vec::new();
    let mut i: usize = 0;
    while i < v.len()
        invariant
            i <= v.len(),
            r@ == v@.subrange(0, i as int),
        decreases v.len() - i,
    {
        r.push(v[i]);
        i += 1;
        assert(r@ =~= v@.subrange(0, i as int));
    }
    assert(r@ =~= v@);
    r
}

/// Whether two character vectors hold the same characters.
pub fn same_chars(a: &Vec<char>, b: &Vec<char>) -> (r: bool)
    ensures
        r == (a@ == b@),
{
    if a.len() != b.len() {
        return false;
    }
    let mut i: usize = 0;
    while i < a.len()
        invariant
            a.len() == b.len(),
            i <= a.len(),
            a@.subrange(0, i as int) == b@.subrange(0, i as int),
        decreases a.len() - i,
    {
        if a[i] != b[i] {
            assert(a@[i as int] != b@[i as int]);
            return false;
        }
        assert(a@.subrange(0, i + 1) =~= a@.subrange(0, i as int).push(a@[i as int]));
        assert(b@.subrange(0, i + 1) =~= b@.subrange(0, i as int).push(b@[i as int]));
        i += 1;
    }
    assert(a@ =~= a@.subrange(0, i as int));
    assert(b@ =~= b@.subrange(0, i as int));
    true
}

/// Whether a character vector spells out the given text.
pub fn chars_are(a: &Vec<char>, w: &str) -> (r: bool)
    ensures
        r == (a@ == w@),
{
    let n = w.unicode_len();
    if a.len() != n {
        return false;
    }
    let mut i: usize = 0;
    while i < n
        invariant
            a.len() == n,
            n == w@.len(),
            i <= n,
            a@.subrange(0, i as int) == w@.subrange(0, i as int),
        decreases n - i,
    {
        let c = w.get_char(i);
        if a[i] != c {
            assert(a@[i as int] != w@[i as int]);
            return false;
        }
        assert(a@.subrange(0, i + 1) =~= a@.subrange(0, i as int).push(a@[i as int]));
        assert(w@.subrange(0, i + 1) =~= w@.subrange(0, i as int).push(w@[i as int]));
        i += 1;
    }
    assert(a@ =~= a@.subrange(0, i as int));
    assert(w@ =~= w@.subrange(0, i as int));
    true
}

impl Token {
    /// Builds a token from a kind and a lexeme.
    pub fn new(kind: TokenKind, value: Vec<char>) -> (r: Token)
        ensures
            r@ == (TokenView { kind, text: value@ }),
    {
        Token { kind, value }
    }

    /// A copy of this token.
    pub fn duplicate(&self) -> (r: Token)
        ensures
            r@ == self@,
    {
        Token { kind: self.kind, value: copy_chars(&self.value) }
    }
}

/// Appends copies of `src` to `out`.
pub fn append_tokens(out: &mut Vec<Token>, src: &Vec<Token>)
    ensures
        toks(final(out)@) == toks(old(out)@) + toks(src@),
{
    let ghost start = toks(out@);
    let mut i: usize = 0;
    while i < src.len()
        invariant
            i <= src.len(),
            toks(out@) == start + toks(src@).subrange(0, i as int),
        decreases src.len() - i,
    {
        let t = src[i].duplicate();
        let ghost prev = out@;
        let ghost tv = t@;
        out.push(t);
        assert(out@ == prev.push(t));
        assert(toks(out@) =~= toks(prev).push(tv));
        assert(toks(src@).subrange(0, i + 1) =~= toks(src@).subrange(0, i as int).push(tv));
        i += 1;
    }
    assert(toks(src@).subrange(0, i as int) =~= toks(src@));
}

/// A copy of a token vector.
pub fn copy_tokens(src: &Vec<Token>) -> (r: Vec<Token>)
    ensures
        toks(r@) == toks(src@),
{
    let mut r: Vec<Token> = Vec::new();
    append_tokens(&mut r, src);
    assert(toks(r@) =~= toks(src@));
    r
}

} // verus!
