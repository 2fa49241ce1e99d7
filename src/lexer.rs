//! The line-continuation fold and the lexer.
//!
//! Token rules are tried in a fixed order at each position and the first one
//! that matches wins. Character classes are ASCII: letters, digits and `_`
//! form words; whitespace is space, tab, line feed, carriage return, vertical
//! tab and form feed.
use vstd::prelude::*;
use crate::token::{Token, TokenKind, TokenView, toks};

verus! {

/// Letters, digits and `_`.
pub const WORD: u8 = 0;
/// Decimal digits.
pub const DIGIT: u8 = 1;
/// Operator characters.
pub const SPECIAL: u8 = 2;
/// Space and tab.
pub const BLANK: u8 = 3;
/// Whitespace.
pub const SPACE: u8 = 4;

pub open spec fn is_ident_start(c: char) -> bool {
    ('a' <= c && c <= 'z') || ('A' <= c && c <= 'Z') || c == '_'
}

pub open spec fn is_digit(c: char) -> bool {
    '0' <= c && c <= '9'
}

pub open spec fn is_special(c: char) -> bool {
    c == '+' || c == '-' || c == '*' || c == '/' || c == '!' || c == '@' || c == '#' || c == '$' || c == '%'
        || c == '^' || c == '&' || c == ':' || c == '=' || c == '~' || c == '<' || c == '>' || c == '?' || c == '.'
}

pub open spec fn is_brace(c: char) -> bool {
    c == '(' || c == ')' || c == '[' || c == ']' || c == '{' || c == '}'
}

/// Membership of a character in one of the classes above.
pub open spec fn in_class(c: char, cls: u8) -> bool {
    if cls == WORD {
        is_ident_start(c) || is_digit(c)
    } else if cls == DIGIT {
        is_digit(c)
    } else if cls == SPECIAL {
        is_special(c)
    } else if cls == BLANK {
        c == ' ' || c == '\t'
    } else {
        c == ' ' || c == '\t' || c == '\n' || c == '\r' || c == '\x0B' || c == '\x0C'
    }
}

/// The end of the run of class `cls` that starts at `j`.
pub open spec fn run_end(s: Seq<char>, j: int, cls: u8) -> int
    decreases s.len() - j,
{
    if j < 0 || j >= s.len() || !in_class(s[j], cls) {
        j
    } else {
        run_end(s, j + 1, cls)
    }
}

/// `w` occurs in `s` at `p`.
pub open spec fn starts_with(s: Seq<char>, p: int, w: Seq<char>) -> bool {
    0 <= p && p + w.len() <= s.len() && s.subrange(p, p + w.len()) == w
}

/// The end of a string literal whose body starts at `j`: after the closing
/// quote, with `\` escaping any character but a line feed.
pub open spec fn string_end(s: Seq<char>, j: int) -> Option<int>
    decreases s.len() - j,
{
    if j < 0 || j >= s.len() {
        None
    } else if s[j] == '"' {
        Some(j + 1)
    } else if s[j] == '\\' {
        if j + 1 < s.len() && s[j + 1] != '\n' {
            string_end(s, j + 2)
        } else {
            None
        }
    } else {
        string_end(s, j + 1)
    }
}

/// The end of a run of line breaks (`\n` or `\r\n`) and indentation from `j`.
pub open spec fn newline_end(s: Seq<char>, j: int) -> int
    decreases s.len() - j,
{
    if 0 <= j && j < s.len() && (s[j] == '\n' || s[j] == ' ' || s[j] == '\t') {
        newline_end(s, j + 1)
    } else if 0 <= j && j + 1 < s.len() && s[j] == '\r' && s[j + 1] == '\n' {
        newline_end(s, j + 2)
    } else {
        j
    }
}

/// The first token rule that matches at `p`, in order: its kind and where the
/// lexeme ends.
pub open spec fn match_rule(s: Seq<char>, p: int) -> Option<(TokenKind, int)> {
    let c = s[p];
    let n = s.len();
    if (c == '.' || c == ':') && run_end(s, p + 1, SPACE) < n && is_ident_start(s[run_end(s, p + 1, SPACE)]) {
        Some((TokenKind::Property, run_end(s, run_end(s, p + 1, SPACE) + 1, WORD)))
    } else if starts_with(s, p, "..."@) {
        Some((TokenKind::Vararg, p + 3))
    } else if starts_with(s, p, "#..."@) {
        Some((TokenKind::TaggedVararg, p + 4))
    } else if c == '#' && p + 1 < n && is_ident_start(s[p + 1]) && run_end(s, p + 2, WORD) < n
        && s[run_end(s, p + 2, WORD)] == '#' {
        Some((TokenKind::Stringify, run_end(s, p + 2, WORD) + 1))
    } else if starts_with(s, p, "##"@) {
        Some((TokenKind::Paste, p + 2))
    } else if is_ident_start(c) {
        let q = run_end(s, p + 1, WORD);
        if q < n && s[q] == '!' {
            Some((TokenKind::MacroName, q + 1))
        } else {
            Some((TokenKind::Name, q))
        }
    } else if (is_digit(c) || (c == '-' && p + 1 < n && is_digit(s[p + 1]))) {
        let q = run_end(s, if c == '-' { p + 2 } else { p + 1 }, DIGIT);
        if q + 1 < n && s[q] == '.' && is_digit(s[q + 1]) {
            Some((TokenKind::Number, run_end(s, q + 2, DIGIT)))
        } else {
            Some((TokenKind::Number, q))
        }
    } else if c == '"' && string_end(s, p + 1) is Some {
        Some((TokenKind::String, string_end(s, p + 1)->Some_0))
    } else if starts_with(s, p, "#define"@) {
        Some((TokenKind::DefineDirective, p + 7))
    } else if starts_with(s, p, "#ifdef"@) {
        Some((TokenKind::Ifdef, p + 6))
    } else if starts_with(s, p, "#ifndef"@) {
        Some((TokenKind::Ifndef, p + 7))
    } else if starts_with(s, p, "#endif"@) {
        Some((TokenKind::Endif, p + 6))
    } else if starts_with(s, p, "#undef"@) {
        Some((TokenKind::Undef, p + 6))
    } else if starts_with(s, p, "#end"@) {
        Some((TokenKind::EndDefine, p + 4))
    } else if is_special(c) {
        Some((TokenKind::Special, run_end(s, p + 1, SPECIAL)))
    } else if is_brace(c) {
        Some((TokenKind::Brace, p + 1))
    } else if c == ',' || c == ';' {
        Some((TokenKind::Delimiter, p + 1))
    } else if c == '\n' || (c == '\r' && p + 1 < n && s[p + 1] == '\n') {
        Some((TokenKind::Newline, newline_end(s, p)))
    } else {
        None
    }
}

/// The tokens of `s` from `p` on, skipping spaces and tabs before each
/// token; `None` where no rule matches.
pub open spec fn lex_from(s: Seq<char>, p: int) -> Option<Seq<TokenView>>
    decreases s.len() - p,
{
    let q = run_end(s, p, BLANK);
    if p < 0 || q < p || q >= s.len() {
        Some(seq![])
    } else {
        match match_rule(s, q) {
            Some((kind, e)) => {
                if e <= q || e > s.len() {
                    None
                } else {
                    match lex_from(s, e) {
                        Some(rest) => Some(seq![TokenView { kind, text: s.subrange(q, e) }] + rest),
                        None => None,
                    }
                }
            },
            None => None,
        }
    }
}

/// The tokens of a whole text.
pub open spec fn lex(s: Seq<char>) -> Option<Seq<TokenView>> {
    lex_from(s, 0)
}

/// The text from `i` on with every `\` that ends a line removed together
/// with the line break.
pub open spec fn fold_from(s: Seq<char>, i: int) -> Seq<char>
    decreases s.len() - i,
{
    if i < 0 || i >= s.len() {
        seq![]
    } else if s[i] == '\\' && i + 1 < s.len() && s[i + 1] == '\n' {
        fold_from(s, i + 2)
    } else if s[i] == '\\' && i + 2 < s.len() && s[i + 1] == '\r' && s[i + 2] == '\n' {
        fold_from(s, i + 3)
    } else {
        seq![s[i]] + fold_from(s, i + 1)
    }
}

/// The text with line continuations joined.
pub open spec fn folded(s: Seq<char>) -> Seq<char> {
    fold_from(s, 0)
}

fn in_class_exec(c: char, cls: u8) -> (r: bool)
    ensures
        r == in_class(c, cls),
{
    if cls == WORD {
        ('a' <= c && c <= 'z') || ('A' <= c && c <= 'Z') || c == '_' || ('0' <= c && c <= '9')
    } else if cls == DIGIT {
        '0' <= c && c <= '9'
    } else if cls == SPECIAL {
        c == '+' || c == '-' || c == '*' || c == '/' || c == '!' || c == '@' || c == '#' || c == '$' || c == '%'
            || c == '^' || c == '&' || c == ':' || c == '=' || c == '~' || c == '<' || c == '>' || c == '?'
            || c == '.'
    } else if cls == BLANK {
        c == ' ' || c == '\t'
    } else {
        c == ' ' || c == '\t' || c == '\n' || c == '\r' || c == '\x0B' || c == '\x0C'
    }
}

/// The end of the run of class `cls` that starts at `j`.
fn class_end(s: &Vec<char>, j: usize, cls: u8) -> (r: usize)
    requires
        j <= s.len(),
    ensures
        r == run_end(s@, j as int, cls),
        j <= r <= s.len(),
{
    let mut k: usize = j;
    while k < s.len() && in_class_exec(s[k], cls)
        invariant
            j <= k <= s.len(),
            run_end(s@, j as int, cls) == run_end(s@, k as int, cls),
        decreases s.len() - k,
    {
        k += 1;
    }
    k
}

/// Whether `w` occurs in `s` at `p`.
fn occurs_at(s: &Vec<char>, p: usize, w: &str) -> (r: bool)
    ensures
        r == starts_with(s@, p as int, w@),
{
    let n = w.unicode_len();
    if p > s.len() || s.len() - p < n {
        return false;
    }
    let mut k: usize = 0;
    while k < n
        invariant
            n == w@.len(),
            p + n <= s.len(),
            k <= n,
            s@.subrange(p as int, p + k) == w@.subrange(0, k as int),
        decreases n - k,
    {
        if s[p + k] != w.get_char(k) {
            assert(s@.subrange(p as int, p + n)[k as int] != w@[k as int]);
            return false;
        }
        assert(s@.subrange(p as int, p + k + 1) =~= s@.subrange(p as int, p + k).push(s@[p + k]));
        assert(w@.subrange(0, k + 1) =~= w@.subrange(0, k as int).push(w@[k as int]));
        k += 1;
    }
    assert(w@.subrange(0, n as int) =~= w@);
    true
}

/// The end of the string literal whose body starts at `j`.
fn string_close(s: &Vec<char>, j: usize) -> (r: Option<usize>)
    requires
        j <= s.len(),
    ensures
        match r {
            Some(e) => string_end(s@, j as int) == Some(e as int) && j < e <= s.len(),
            None => string_end(s@, j as int) is None,
        },
{
    let mut k: usize = j;
    while k < s.len()
        invariant
            j <= k <= s.len(),
            string_end(s@, j as int) == string_end(s@, k as int),
        decreases s.len() - k,
    {
        let c = s[k];
        if c == '"' {
            return Some(k + 1);
        } else if c == '\\' {
            if s.len() - k > 1 && s[k + 1] != '\n' {
                k = k + 2;
            } else {
                return None;
            }
        } else {
            k = k + 1;
        }
    }
    None
}

/// The end of the run of line breaks and indentation from `j`.
fn newline_close(s: &Vec<char>, j: usize) -> (r: usize)
    requires
        j <= s.len(),
    ensures
        r == newline_end(s@, j as int),
        j <= r <= s.len(),
{
    let mut k: usize = j;
    loop
        invariant
            j <= k <= s.len(),
            newline_end(s@, j as int) == newline_end(s@, k as int),
        decreases s.len() - k,
    {
        if k < s.len() && (s[k] == '\n' || s[k] == ' ' || s[k] == '\t') {
            k = k + 1;
        } else if s.len() - k > 1 && s[k] == '\r' && s[k + 1] == '\n' {
            k = k + 2;
        } else {
            return k;
        }
    }
}

/// The characters of `s` from `from` up to `to`.
fn chars_between(s: &Vec<char>, from: usize, to: usize) -> (r: Vec<char>)
    requires
        from <= to <= s.len(),
    ensures
        r@ == s@.subrange(from as int, to as int),
{
    let mut r: Vec<char> = Vec::new();
    let mut k: usize = from;
    while k < to
        invariant
            from <= k <= to <= s.len(),
            r@ == s@.subrange(from as int, k as int),
        decreases to - k,
    {
        r.push(s[k]);
        k += 1;
        assert(r@ =~= s@.subrange(from as int, k as int));
    }
    r
}

/// The kind and end of the first token rule that matches at `p`.
fn match_rule_exec(s: &Vec<char>, p: usize) -> (r: Option<(TokenKind, usize)>)
    requires
        p < s.len(),
    ensures
        match r {
            Some((kind, e)) => match_rule(s@, p as int) == Some((kind, e as int)) && p < e <= s.len(),
            None => match_rule(s@, p as int) is None,
        },
{
    proof {
        reveal_strlit("...");
        reveal_strlit("#...");
        reveal_strlit("##");
        reveal_strlit("#define");
        reveal_strlit("#ifdef");
        reveal_strlit("#ifndef");
        reveal_strlit("#endif");
        reveal_strlit("#undef");
        reveal_strlit("#end");
    }
    let c = s[p];
    let n = s.len();
    if c == '.' || c == ':' {
        let q = class_end(s, p + 1, SPACE);
        if q < n && in_class_exec(s[q], WORD) && !('0' <= s[q] && s[q] <= '9') {
            return Some((TokenKind::Property, class_end(s, q + 1, WORD)));
        }
    }
    if occurs_at(s, p, "...") {
        return Some((TokenKind::Vararg, p + 3));
    }
    if occurs_at(s, p, "#...") {
        return Some((TokenKind::TaggedVararg, p + 4));
    }
    if c == '#' && n - p > 1 && in_class_exec(s[p + 1], WORD) && !('0' <= s[p + 1] && s[p + 1] <= '9') {
        let q = class_end(s, p + 2, WORD);
        if q < n && s[q] == '#' {
            return Some((TokenKind::Stringify, q + 1));
        }
    }
    if occurs_at(s, p, "##") {
        return Some((TokenKind::Paste, p + 2));
    }
    if in_class_exec(c, WORD) && !('0' <= c && c <= '9') {
        let q = class_end(s, p + 1, WORD);
        if q < n && s[q] == '!' {
            return Some((TokenKind::MacroName, q + 1));
        }
        return Some((TokenKind::Name, q));
    }
    if ('0' <= c && c <= '9') || (c == '-' && n - p > 1 && '0' <= s[p + 1] && s[p + 1] <= '9') {
        let q = class_end(s, if c == '-' { p + 2 } else { p + 1 }, DIGIT);
        if n - q > 1 && s[q] == '.' && '0' <= s[q + 1] && s[q + 1] <= '9' {
            return Some((TokenKind::Number, class_end(s, q + 2, DIGIT)));
        }
        return Some((TokenKind::Number, q));
    }
    if c == '"' {
        match string_close(s, p + 1) {
            Some(e) => {
                return Some((TokenKind::String, e));
            },
            None => {},
        }
    }
    if occurs_at(s, p, "#define") {
        return Some((TokenKind::DefineDirective, p + 7));
    }
    if occurs_at(s, p, "#ifdef") {
        return Some((TokenKind::Ifdef, p + 6));
    }
    if occurs_at(s, p, "#ifndef") {
        return Some((TokenKind::Ifndef, p + 7));
    }
    if occurs_at(s, p, "#endif") {
        return Some((TokenKind::Endif, p + 6));
    }
    if occurs_at(s, p, "#undef") {
        return Some((TokenKind::Undef, p + 6));
    }
    if occurs_at(s, p, "#end") {
        return Some((TokenKind::EndDefine, p + 4));
    }
    if in_class_exec(c, SPECIAL) {
        return Some((TokenKind::Special, class_end(s, p + 1, SPECIAL)));
    }
    if c == '(' || c == ')' || c == '[' || c == ']' || c == '{' || c == '}' {
        return Some((TokenKind::Brace, p + 1));
    }
    if c == ',' || c == ';' {
        return Some((TokenKind::Delimiter, p + 1));
    }
    if c == '\n' || (c == '\r' && n - p > 1 && s[p + 1] == '\n') {
        let e = if c == '\n' { newline_close(s, p + 1) } else { newline_close(s, p + 2) };
        return Some((TokenKind::Newline, e));
    }
    None
}

/// The token that starts at `p` and the position after it, or `None` where
/// no rule matches.
pub fn lex_single_token(s: &Vec<char>, p: usize) -> (r: Option<(Token, usize)>)
    requires
        p < s.len(),
    ensures
        match r {
            Some((t, e)) => match_rule(s@, p as int) == Some((t.kind, e as int)) && t.value@ == s@.subrange(p as int, e as int)
                && p < e <= s.len(),
            None => match_rule(s@, p as int) is None,
        },
{
    match match_rule_exec(s, p) {
        Some((kind, e)) => Some((Token::new(kind, chars_between(s, p, e)), e)),
        None => None,
    }
}

/// Lexes a whole text into tokens; `None` where some position matches no
/// rule.
pub fn lex_whole_input(s: &Vec<char>) -> (r: Option<Vec<Token>>)
    ensures
        match r {
            Some(v) => lex(s@) == Some(toks(v@)),
            None => lex(s@) is None,
        },
{
    let mut out: Vec<Token> = Vec::new();
    let mut p: usize = 0;
    loop
        invariant
            p <= s.len(),
            lex(s@) == match lex_from(s@, p as int) {
                Some(rest) => Some(toks(out@) + rest),
                None => None::<Seq<TokenView>>,
            },
        decreases s.len() - p,
    {
        let q = class_end(s, p, BLANK);
        if q >= s.len() {
            assert(toks(out@) + seq![] =~= toks(out@));
            return Some(out);
        }
        match lex_single_token(s, q) {
            Some((t, e)) => {
                let ghost pre = toks(out@);
                let ghost tv = t@;
                out.push(t);
                assert(toks(out@) =~= pre.push(tv));
                proof {
                    match lex_from(s@, e as int) {
                        Some(rest) => {
                            assert(pre + (seq![tv] + rest) =~= toks(out@) + rest);
                        },
                        None => {},
                    }
                }
                p = e;
            },
            None => {
                return None;
            },
        }
    }
}

/// Joins lines whose last character is `\`: the backslash and the line
/// break go, with nothing put in their place.
pub fn fold_continuations(s: &Vec<char>) -> (r: Vec<char>)
    ensures
        r@ == folded(s@),
{
    let mut out: Vec<char> = Vec::new();
    let mut i: usize = 0;
    while i < s.len()
        invariant
            i <= s.len(),
            folded(s@) == out@ + fold_from(s@, i as int),
        decreases s.len() - i,
    {
        if s[i] == '\\' && s.len() - i > 1 && s[i + 1] == '\n' {
            i = i + 2;
        } else if s[i] == '\\' && s.len() - i > 2 && s[i + 1] == '\r' && s[i + 2] == '\n' {
            i = i + 3;
        } else {
            let ghost pre = out@;
            out.push(s[i]);
            assert(pre + (seq![s@[i as int]] + fold_from(s@, i + 1)) =~= out@ + fold_from(s@, i + 1));
            i = i + 1;
        }
    }
    assert(out@ + seq![] =~= out@);
    out
}

} // verus!
