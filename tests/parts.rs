use luaproc::expand::get_macros;
use luaproc::invoke::apply_func_macro_once;
use luaproc::lexer::{fold_continuations, lex_single_token, lex_whole_input};
use luaproc::paste::eval_pastes;
use luaproc::render::render_tokens_as_string;
use luaproc::subst::{apply_value_macro_once, apply_value_macros};
use luaproc::token::{FunctionMacro, Token, TokenKind, ValueMacro};

fn chars(s: &str) -> Vec<char> {
    s.chars().collect()
}

fn text(v: &[char]) -> String {
    v.iter().collect()
}

fn tok(kind: TokenKind, s: &str) -> Token {
    Token::new(kind, chars(s))
}

fn lexed(s: &str) -> Vec<Token> {
    lex_whole_input(&chars(s)).expect("source should lex")
}

fn kinds(ts: &[Token]) -> Vec<TokenKind> {
    ts.iter().map(|t| t.kind).collect()
}

fn texts(ts: &[Token]) -> Vec<String> {
    ts.iter().map(|t| text(&t.value)).collect()
}

#[test]
fn lexer_kinds_in_rule_order() {
    let ts = lexed("a.b:c ... #... #x# ## m! n -12.5 \"s\\\"t\" #define #ifdef #ifndef #endif #undef #end ~= ( , ;\n  z");
    assert_eq!(
        kinds(&ts),
        vec![
            TokenKind::Name,
            TokenKind::Property,
            TokenKind::Property,
            TokenKind::Vararg,
            TokenKind::TaggedVararg,
            TokenKind::Stringify,
            TokenKind::Paste,
            TokenKind::MacroName,
            TokenKind::Name,
            TokenKind::Number,
            TokenKind::String,
            TokenKind::DefineDirective,
            TokenKind::Ifdef,
            TokenKind::Ifndef,
            TokenKind::Endif,
            TokenKind::Undef,
            TokenKind::EndDefine,
            TokenKind::Special,
            TokenKind::Brace,
            TokenKind::Delimiter,
            TokenKind::Delimiter,
            TokenKind::Newline,
            TokenKind::Name,
        ]
    );
    assert_eq!(texts(&ts)[9], "-12.5");
    assert_eq!(texts(&ts)[10], "\"s\\\"t\"");
    assert_eq!(texts(&ts)[21], "\n  ");
}

#[test]
fn subtraction_is_special() {
    let ts = lexed("x - 1");
    assert_eq!(kinds(&ts), vec![TokenKind::Name, TokenKind::Special, TokenKind::Number]);
}

#[test]
fn single_token_reports_end() {
    let s = chars("foo! bar");
    let (t, e) = lex_single_token(&s, 0).unwrap();
    assert_eq!(t.kind, TokenKind::MacroName);
    assert_eq!(text(&t.value), "foo!");
    assert_eq!(e, 4);
    assert!(lex_single_token(&chars("'"), 0).is_none());
}

#[test]
fn unterminated_string_fails() {
    assert!(lex_whole_input(&chars("\"abc")).is_none());
}

#[test]
fn fold_removes_backslash_newlines() {
    assert_eq!(text(&fold_continuations(&chars("a\\\nb\\\r\nc\\d"))), "abc\\d");
}

#[test]
fn render_joins_with_spaces_but_not_after_line_feed() {
    let ts = vec![tok(TokenKind::Name, "a"), tok(TokenKind::Newline, "\n"), tok(TokenKind::Name, "b"), tok(TokenKind::Name, "c")];
    assert_eq!(text(&render_tokens_as_string(&ts)), "a \nb c");
    assert_eq!(text(&render_tokens_as_string(&vec![])), "");
}

#[test]
fn pastes_join_runs_of_names_only() {
    let ts = lexed("a ## b ## c + d ## 1 ##");
    assert_eq!(texts(&eval_pastes(&ts)), vec!["abc", "+", "d", "##", "1", "##"]);
}

#[test]
fn value_macro_once_matches() {
    let m = ValueMacro { name: chars("PI!"), value: lexed("3.14") };
    let ts = lexed("PI! x PI! = 1");
    assert_eq!(texts(&apply_value_macro_once(&ts, 0, &m).unwrap()), vec!["3.14"]);
    assert!(apply_value_macro_once(&ts, 1, &m).is_none());
    assert!(apply_value_macro_once(&ts, 2, &m).is_none());
    assert!(apply_value_macro_once(&ts, 9, &m).is_none());
}

#[test]
fn value_macros_substitute_every_site() {
    let m = ValueMacro { name: chars("x"), value: lexed("1 + 2") };
    let body = lexed("x * x x = #x#");
    assert_eq!(texts(&apply_value_macros(&body, &m)), vec!["1", "+", "2", "*", "1", "+", "2", "x", "=", "\"1 + 2\""]);
}

#[test]
fn empty_variadic_binding_drops_comma() {
    let m = ValueMacro { name: chars("__VA_ARGS__"), value: vec![] };
    let body = lexed("f(a, __VA_ARGS__)");
    assert_eq!(texts(&apply_value_macros(&body, &m)), vec!["f", "(", "a", ")"]);
}

#[test]
fn func_macro_once_spans_call() {
    let f = FunctionMacro { name: chars("F!"), params: vec![chars("a"), chars("b")], value: lexed("a - b") };
    let ts = lexed("F!(g(1, 2), function() end) tail");
    let (body, n) = apply_func_macro_once(&ts, 0, &f).unwrap();
    assert_eq!(texts(&body), vec!["g", "(", "1", ",", "2", ")", "-", "function", "(", ")", "end"]);
    assert_eq!(n, 14);
    assert!(apply_func_macro_once(&ts, 1, &f).is_none());
}

#[test]
fn get_macros_updates_environment() {
    let ts = lexed("#define A! = 1 #end #define F!(x) = x #end #undef A! A! F!(2)");
    let mut values: Vec<ValueMacro> = vec![];
    let mut funcs: Vec<FunctionMacro> = vec![];
    let out = get_macros(&ts, &mut values, &mut funcs, 8);
    assert_eq!(texts(&out), vec!["A!", "2"]);
    assert!(values.is_empty());
    assert_eq!(funcs.len(), 1);
    assert_eq!(text(&funcs[0].name), "F!");
}
