use luaproc::{preprocess, RESCAN_DEPTH};

fn run(src: &str) -> String {
    let chars: Vec<char> = src.chars().collect();
    let out = preprocess(&chars, RESCAN_DEPTH).expect("source should lex");
    out.into_iter().collect()
}

fn squash(s: &str) -> String {
    s.chars().filter(|c| !c.is_whitespace()).collect()
}

fn same(out: &str, expected: &str) {
    assert_eq!(squash(out), squash(expected), "output was {:?}", out);
}

#[test]
fn value_macro_expands() {
    same(&run("#define PI! = 3.14 #end\nx = PI!"), "x = 3.14");
}

#[test]
fn function_macro_substitutes_arguments() {
    same(&run("#define SQ!(x) = (x) * (x) #end\ny = SQ!(1 + 2)"), "y = (1 + 2) * (1 + 2)");
}

#[test]
fn ifdef_and_ifndef_select_sections() {
    same(&run("#define NAME!\n#ifdef NAME!\na = 1\n#endif\n#ifndef NAME!\na = 2\n#endif"), "a = 1");
}

#[test]
fn paste_in_function_macro() {
    same(&run("#define CAT!(a, b) = a ## b #end\nv = CAT!(foo, bar)"), "v = foobar");
}

#[test]
fn stringify_argument() {
    let out = run("#define SHOW!(x) = #x# #end\nm = SHOW!(1 + 2)");
    same(&out, "m = \"1 + 2\"");
    assert!(out.contains("\"1 + 2\""));
}

#[test]
fn variadic_tail_elided_when_empty() {
    let out = run("#define LOG!(fmt, ...) = print(fmt, __VA_ARGS__) #end\nLOG!(\"hi\")\nLOG!(\"v\", 1, 2)");
    same(&out, "print(\"hi\")\nprint(\"v\", 1, 2)");
}

#[test]
fn variadic_single_call_has_no_trailing_comma() {
    same(&run("#define LOG!(fmt, ...) = print(fmt, __VA_ARGS__) #end\nLOG!(\"x\")"), "print(\"x\")");
    same(&run("#define LOG!(fmt, ...) = print(fmt, __VA_ARGS__) #end\nLOG!(\"x\", 1, 2)"), "print(\"x\", 1, 2)");
}

#[test]
fn tagged_vararg_takes_tail_inline() {
    same(&run("#define T!(...) = f(#...) #end\nT!(1, 2)"), "f(1, 2)");
}

#[test]
fn plain_source_is_unchanged() {
    let src = "local x = 1\nprint(x, \"a b\")\nreturn x .. y";
    same(&run(src), src);
}

#[test]
fn undef_removes_definition() {
    same(&run("#define N! = X #end\n#undef N!\ny = N!"), "y = N!");
}

#[test]
fn assignment_target_not_expanded() {
    same(&run("#define FOO! = 1 #end\nFOO! = 2\ny = FOO!"), "FOO! = 2\ny = 1");
}

#[test]
fn three_names_paste_into_one() {
    same(&run("#define J!(a, b, c) = a ## b ## c #end\nv = J!(x, y, z)"), "v = xyz");
}

#[test]
fn expansions_are_rescanned() {
    same(&run("#define A! = B! #end\n#define B! = 42 #end\nv = A!"), "v = 42");
}

#[test]
fn nested_sections_are_counted() {
    let src = "#ifdef A!\n#ifdef B!\nx = 1\n#endif\ny = 2\n#endif\nz = 3";
    same(&run(src), "z = 3");
}

#[test]
fn self_reference_stops_at_depth() {
    let chars: Vec<char> = "#define A! = A! #end\nv = A!".chars().collect();
    let out: String = preprocess(&chars, 3).unwrap().into_iter().collect();
    same(&out, "v = A!");
}

#[test]
fn line_continuation_joins_body() {
    same(&run("#define P! = 1 +\\\n 2 #end\nv = P!"), "v = 1 + 2");
}

#[test]
fn lex_failure_is_none() {
    let chars: Vec<char> = "x = 'a'".chars().collect();
    assert!(preprocess(&chars, RESCAN_DEPTH).is_none());
}

#[test]
fn malformed_define_is_dropped() {
    same(&run("#define x = 1"), "x = 1");
}

#[test]
fn missing_arguments_bind_empty() {
    same(&run("#define F!(a, b) = {a; b} #end\nv = F!(1)"), "v = {1;}");
}

#[test]
fn property_is_not_a_call_site() {
    same(&run("#define foo! = 1 #end\nt.foo = foo!"), "t.foo = 1");
}

#[test]
fn stringify_escapes_quotes() {
    let out = run("#define S!(x) = #x# #end\nv = S!(\"q\")");
    assert!(out.contains("\"\\\"q\\\"\""), "output was {:?}", out);
}
