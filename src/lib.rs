//! A C-style macro preprocessor for a Lua-like scripting language.
//!
//! The pipeline is: line-continuation fold, lexing into tagged tokens,
//! macro expansion against a live table of definitions, token pasting,
//! and rendering back to text.
use vstd::prelude::*;

pub mod token;
pub mod render;
pub mod paste;
pub mod subst;
pub mod invoke;
pub mod env;
pub mod expand;
pub mod lexer;
pub mod laws;

use crate::token::{ValueMacro, FunctionMacro};
use crate::env::{EnvView, env_of};
use crate::expand::{expand, get_macros};
use crate::lexer::{lex, folded, fold_continuations, lex_whole_input};
use crate::render::{render, render_tokens_as_string};

verus! {

/// How deeply substitutions are re-scanned by default.
pub const RESCAN_DEPTH: usize = 64;

/// The environment with nothing defined.
pub open spec fn empty_env() -> EnvView {
    EnvView { values: seq![], funcs: seq![] }
}

/// The preprocessed text of a source, or `None` where it does not lex.
pub open spec fn preprocessed(source: Seq<char>, depth: nat) -> Option<Seq<char>> {
    match lex(folded(source)) {
        Some(ts) => Some(render(expand(ts, empty_env(), depth).0)),
        None => None,
    }
}

/// Folds line continuations, lexes, expands with nothing defined at the
/// start, and renders; `None` is a lex failure.
pub fn preprocess(source: &Vec<char>, depth: usize) -> (r: Option<Vec<char>>)
    ensures
        match r {
            Some(out) => preprocessed(source@, depth as nat) == Some(out@),
            None => preprocessed(source@, depth as nat) is None,
        },
{
    let text = fold_continuations(source);
    match lex_whole_input(&text) {
        Some(tokens) => {
            let mut value_macros: Vec<ValueMacro> = Vec::new();
            let mut func_macros: Vec<FunctionMacro> = Vec::new();
            assert(env_of(value_macros@, func_macros@) =~= empty_env()) by {
                assert(crate::token::value_views(value_macros@) =~= seq![]);
                assert(crate::token::func_views(func_macros@) =~= seq![]);
            }
            let out = get_macros(&tokens, &mut value_macros, &mut func_macros, depth);
            Some(render_tokens_as_string(&out))
        },
        None => None,
    }
}

} // verus!
