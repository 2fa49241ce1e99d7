//! The paste pass: `A ## B ## C` becomes the single name `ABC`.
use vstd::prelude::*;
use crate::token::{Token, TokenKind, TokenView, toks, copy_chars};
use crate::render::push_chars;

verus! {

/// Position `j` continues a paste run: `## Name` follows it.
pub open spec fn pastes_on(ts: Seq<TokenView>, j: int) -> bool {
    j + 2 < ts.len() && ts[j + 1].kind == TokenKind::Paste && ts[j + 2].kind == TokenKind::Name
}

/// The last name of the paste run through position `j` (a name).
pub open spec fn paste_end(ts: Seq<TokenView>, j: int) -> int
    decreases ts.len() - j,
{
    if j >= 0 && pastes_on(ts, j) {
        paste_end(ts, j + 2)
    } else {
        j
    }
}

/// The joined text of the names of the paste run from `j` to `e` (both names).
pub open spec fn run_text(ts: Seq<TokenView>, j: int, e: int) -> Seq<char>
    decreases e - j,
{
    if j < 0 || e - j < 2 {
        ts[e].text
    } else {
        ts[j].text + run_text(ts, j + 2, e)
    }
}

/// The paste pass over the tokens from position `i`.
pub open spec fn pasted_from(ts: Seq<TokenView>, i: int) -> Seq<TokenView>
    decreases ts.len() - i,
{
    if i < 0 || i >= ts.len() {
        seq![]
    } else if ts[i].kind == TokenKind::Name {
        let e = paste_end(ts, i);
        if e < i || e >= ts.len() {
            seq![]
        } else {
            seq![TokenView { kind: TokenKind::Name, text: run_text(ts, i, e) }] + pasted_from(ts, e + 1)
        }
    } else {
        seq![ts[i]] + pasted_from(ts, i + 1)
    }
}

/// Every maximal run `Name ## Name (## Name)*` replaced by one name.
pub open spec fn pasted(ts: Seq<TokenView>) -> Seq<TokenView> {
    pasted_from(ts, 0)
}

proof fn lemma_run_end_bounds(ts: Seq<TokenView>, j: int)
    requires
        0 <= j < ts.len(),
    ensures
        j <= paste_end(ts, j) < ts.len(),
        (paste_end(ts, j) - j) % 2 == 0,
    decreases ts.len() - j,
{
    if pastes_on(ts, j) {
        lemma_run_end_bounds(ts, j + 2);
    }
}

proof fn lemma_run_text_step(ts: Seq<TokenView>, j: int, e: int)
    requires
        0 <= j <= e,
        (e - j) % 2 == 0,
    ensures
        run_text(ts, j, e + 2) == run_text(ts, j, e) + ts[e + 2].text,
    decreases e - j,
{
    if j < e {
        lemma_run_text_step(ts, j + 2, e);
        assert(run_text(ts, j, e + 2) == ts[j].text + run_text(ts, j + 2, e + 2));
        assert(run_text(ts, j, e + 2) =~= run_text(ts, j, e) + ts[e + 2].text);
    } else {
        assert(run_text(ts, j + 2, e + 2) == ts[e + 2].text);
        assert(run_text(ts, j, e) == ts[e].text);
    }
}

/// Joins every paste run of names into one name; `##` next to anything but
/// names stays.
pub fn eval_pastes(tokens: &Vec<Token>) -> (r: Vec<Token>)
    ensures
        toks(r@) == pasted(toks(tokens@)),
{
    let ghost ts = toks(tokens@);
    let mut out: Vec<Token> = Vec::new();
    let mut i: usize = 0;
    while i < tokens.len()
        invariant
            i <= tokens.len(),
            ts == toks(tokens@),
            pasted(ts) == toks(out@) + pasted_from(ts, i as int),
        decreases tokens.len() - i,
    {
        if tokens[i].kind == TokenKind::Name {
            let mut text = copy_chars(&tokens[i].value);
            let mut j: usize = i;
            while tokens.len() - j > 2 && tokens[j + 1].kind == TokenKind::Paste
                && tokens[j + 2].kind == TokenKind::Name
                invariant
                    i <= j < tokens.len(),
                    ts == toks(tokens@),
                    (j - i) % 2 == 0,
                    ts[j as int].kind == TokenKind::Name,
                    paste_end(ts, i as int) == paste_end(ts, j as int),
                    text@ == run_text(ts, i as int, j as int),
                decreases tokens.len() - j,
            {
                push_chars(&mut text, &tokens[j + 2].value);
                proof {
                    lemma_run_text_step(ts, i as int, j as int);
                }
                j = j + 2;
            }
            proof {
                lemma_run_end_bounds(ts, i as int);
            }
            let ghost before = toks(out@);
            out.push(Token::new(TokenKind::Name, text));
            assert(toks(out@) =~= before + seq![TokenView { kind: TokenKind::Name, text: run_text(ts, i as int, j as int) }]);
            i = j + 1;
        } else {
            let ghost before = toks(out@);
            out.push(tokens[i].duplicate());
            assert(toks(out@) =~= before + seq![ts[i as int]]);
            i += 1;
        }
    }
    assert(toks(out@) + pasted_from(ts, i as int) =~= toks(out@));
    out
}

} // verus!
