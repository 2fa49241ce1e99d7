//! Serialising tokens back to text.
use vstd::prelude::*;
use crate::token::{Token, TokenView, toks};

verus! {

/// Text ends in a line feed.
pub open spec fn ends_in_newline(s: Seq<char>) -> bool {
    s.len() > 0 && s.last() == '\n'
}

/// The lexemes joined by single spaces, except that no space follows text
/// that ends in a line feed.
pub open spec fn render(ts: Seq<TokenView>) -> Seq<char>
    decreases ts.len(),
{
    if ts.len() == 0 {
        seq![]
    } else if ts.len() == 1 {
        ts[0].text
    } else {
        let front = render(ts.drop_last());
        if ends_in_newline(front) {
            front + ts.last().text
        } else {
            front + seq![' '] + ts.last().text
        }
    }
}

/// Appends the characters of `src` to `out`.
pub fn push_chars(out: &mut Vec<char>, src: &Vec<char>)
    ensures
        final(out)@ == old(out)@ + src@,
{
    let ghost start = out@;
    let mut i: usize = 0;
    while i < src.len()
        invariant
            i <= src.len(),
            out@ == start + src@.subrange(0, i as int),
        decreases src.len() - i,
    {
        out.push(src[i]);
        i += 1;
        assert(out@ =~= start + src@.subrange(0, i as int));
    }
    assert(src@.subrange(0, i as int) =~= src@);
}

/// Renders a token sequence as text; the empty sequence renders as the empty
/// text.
pub fn render_tokens_as_string(tokens: &Vec<Token>) -> (r: Vec<char>)
    ensures
        r@ == render(toks(tokens@)),
{
    let mut r: Vec<char> = Vec::new();
    let mut i: usize = 0;
    while i < tokens.len()
        invariant
            i <= tokens.len(),
            r@ == render(toks(tokens@).subrange(0, i as int)),
        decreases tokens.len() - i,
    {
        let ghost pre = toks(tokens@).subrange(0, i as int);
        let ghost cur = toks(tokens@).subrange(0, i + 1);
        assert(cur.drop_last() =~= pre);
        if i > 0 && !(r.len() > 0 && r[r.len() - 1] == '\n') {
            r.push(' ');
        }
        push_chars(&mut r, &tokens[i].value);
        i += 1;
        proof {
            if i == 1 {
                assert(r@ =~= cur[0].text);
            } else {
                assert(r@ =~= render(cur));
            }
        }
    }
    assert(toks(tokens@).subrange(0, i as int) =~= toks(tokens@));
    r
}

} // verus!
