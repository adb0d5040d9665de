use symtab::args::Arg;
use symtab::builtins::set::{set_main, set_status};
use symtab::builtins::{ifx, resume, Request, Run};
use symtab::sym::{Effect, Fn, Host, Resolution, ScopeSpec, Sym, SymType, Symtable};

fn quiet() -> Host {
    Host { is_opt: false, opt: None, env: None, on_disk: false }
}

fn var_of(st: &Symtable, name: &str) -> Option<String> {
    match st.resolve_types(name, Some(vec![SymType::Var]), &quiet()) {
        Resolution::Found(Sym::Var(s)) => Some(s),
        Resolution::Found(_) => panic!("a variable lookup gave another kind"),
        Resolution::Rehash => panic!("a variable lookup asked for a rehash"),
        Resolution::Missing => None,
    }
}

fn fn_of(st: &Symtable, name: &str) -> Option<Fn> {
    match st.resolve_types(name, Some(vec![SymType::Fn]), &quiet()) {
        Resolution::Found(Sym::Fn(f)) => Some(f),
        Resolution::Found(_) => panic!("a function lookup gave another kind"),
        Resolution::Rehash => panic!("a function lookup asked for a rehash"),
        Resolution::Missing => None,
    }
}

fn words(line: &str) -> Vec<Arg> {
    line.split_whitespace().map(|w| Arg::Str(w.to_string())).collect()
}

fn run_lines(st: &mut Symtable, lines: &Vec<String>) -> i32 {
    let mut status = 0;
    for line in lines {
        let mut args = words(line);
        assert!(matches!(&args[0], Arg::Str(s) if s == "set"));
        args.remove(0);
        let out = set_main(args, st, &Vec::new());
        status = set_status(out.status, true);
    }
    status
}

fn greet() -> Fn {
    Fn {
        name: "greet".to_string(),
        inline: false,
        args: vec!["name".to_string()],
        vararg: None,
        postargs: None,
        lines: vec!["echo hi".to_string()],
    }
}

#[test]
fn new_table_has_only_the_global_frame() {
    let st = Symtable::new(&Vec::new());
    assert_eq!(st.depth(), 1);
    assert_eq!(var_of(&st, "x"), None);
}

#[test]
fn default_write_in_pushed_scope_is_gone_after_pop() {
    let mut st = Symtable::new(&Vec::new());
    st.new_scope(false);
    let e = st.set_scope("x", "v".to_string(), ScopeSpec::Default, false);
    assert!(matches!(e, Effect::Nothing));
    assert_eq!(var_of(&st, "x"), Some("v".to_string()));
    st.del_scope();
    assert_eq!(st.depth(), 1);
    assert_eq!(var_of(&st, "x"), None);
}

#[test]
fn local_write_in_pushed_scope_shadows_and_is_gone_after_pop() {
    let mut st = Symtable::new(&Vec::new());
    st.set("x", "outer".to_string(), false);
    st.new_scope(true);
    st.set_scope("x", "inner".to_string(), ScopeSpec::Local, false);
    assert_eq!(var_of(&st, "x"), Some("inner".to_string()));
    st.del_scope();
    assert_eq!(var_of(&st, "x"), Some("outer".to_string()));
}

#[test]
fn default_write_updates_the_frame_that_holds_the_name() {
    let mut st = Symtable::new(&Vec::new());
    st.set("x", "outer".to_string(), false);
    st.new_scope(false);
    assert_eq!(st.scope_idx("x", ScopeSpec::Default), 0);
    assert_eq!(st.scope_idx("y", ScopeSpec::Default), 1);
    st.set("x", "changed".to_string(), false);
    st.del_scope();
    assert_eq!(var_of(&st, "x"), Some("changed".to_string()));
}

#[test]
fn scope_idx_by_spec() {
    let mut st = Symtable::new(&Vec::new());
    st.new_scope(false);
    st.new_scope(true);
    st.set_scope("mid", "1".to_string(), ScopeSpec::Local, false);
    st.new_scope(false);
    assert_eq!(st.depth(), 4);
    assert_eq!(st.scope_idx("mid", ScopeSpec::Global), 0);
    assert_eq!(st.scope_idx("mid", ScopeSpec::Local), 3);
    assert_eq!(st.scope_idx("mid", ScopeSpec::Default), 2);
    assert_eq!(st.scope_idx("none", ScopeSpec::Default), 3);
}

#[test]
fn empty_text_deletes_the_binding() {
    let mut st = Symtable::new(&Vec::new());
    st.set_scope("x", "x".to_string(), ScopeSpec::Local, false);
    assert_eq!(var_of(&st, "x"), Some("x".to_string()));
    st.set_scope("x", String::new(), ScopeSpec::Local, false);
    assert_eq!(var_of(&st, "x"), None);
}

#[test]
fn empty_text_in_top_frame_uncovers_the_outer_binding() {
    let mut st = Symtable::new(&Vec::new());
    st.set("x", "outer".to_string(), false);
    st.new_scope(false);
    st.set_scope("x", "x".to_string(), ScopeSpec::Local, false);
    st.set_scope("x", String::new(), ScopeSpec::Local, false);
    assert_eq!(var_of(&st, "x"), Some("outer".to_string()));
}

#[test]
fn global_write_from_nested_scope_is_visible_everywhere() {
    let mut st = Symtable::new(&Vec::new());
    st.new_scope(true);
    st.new_scope(false);
    st.set_scope("g", "v".to_string(), ScopeSpec::Global, false);
    assert_eq!(var_of(&st, "g"), Some("v".to_string()));
    st.del_scope();
    assert_eq!(var_of(&st, "g"), Some("v".to_string()));
    st.del_scope();
    assert_eq!(var_of(&st, "g"), Some("v".to_string()));
    st.new_scope(true);
    assert_eq!(var_of(&st, "g"), Some("v".to_string()));
    st.set_scope("g", "shadow".to_string(), ScopeSpec::Local, false);
    assert_eq!(var_of(&st, "g"), Some("shadow".to_string()));
}

#[test]
fn function_is_invisible_to_variable_lookup() {
    let mut st = Symtable::new(&Vec::new());
    st.set_fn("greet", greet(), ScopeSpec::Default);
    assert_eq!(var_of(&st, "greet"), None);
    let f = fn_of(&st, "greet").unwrap();
    assert_eq!(f.name, "greet");
    assert_eq!(f.args, vec!["name".to_string()]);
    assert_eq!(f.lines, vec!["echo hi".to_string()]);
    assert!(!f.inline);
    assert!(f.vararg.is_none());
    assert!(f.postargs.is_none());
}

#[test]
fn variable_is_invisible_to_function_lookup() {
    let mut st = Symtable::new(&Vec::new());
    st.set("x", "1".to_string(), false);
    assert!(fn_of(&st, "x").is_none());
    assert_eq!(var_of(&st, "x"), Some("1".to_string()));
}

#[test]
fn lookup_passes_over_the_other_kind_to_an_outer_frame() {
    let mut st = Symtable::new(&Vec::new());
    st.set("n", "outer".to_string(), false);
    st.new_scope(false);
    st.set_fn("n", greet(), ScopeSpec::Local);
    assert_eq!(var_of(&st, "n"), Some("outer".to_string()));
    assert!(fn_of(&st, "n").is_some());
}

#[test]
fn function_and_variable_share_one_slot() {
    let mut st = Symtable::new(&Vec::new());
    st.set("n", "text".to_string(), false);
    st.set_fn("n", greet(), ScopeSpec::Default);
    assert_eq!(var_of(&st, "n"), None);
    assert!(fn_of(&st, "n").is_some());
    st.set("n", "again".to_string(), false);
    assert!(fn_of(&st, "n").is_none());
    assert_eq!(var_of(&st, "n"), Some("again".to_string()));
}

#[test]
fn option_key_goes_to_the_registry() {
    let mut st = Symtable::new(&Vec::new());
    let e = st.set_scope("opt", "on".to_string(), ScopeSpec::Global, true);
    assert!(matches!(e, Effect::SetOption(ref k, ref v) if k == "opt" && v == "on"));
    assert_eq!(var_of(&st, "opt"), None);
}

#[test]
fn environment_write_passes_the_frames() {
    let mut st = Symtable::new(&Vec::new());
    let e = st.set_scope("E", "1".to_string(), ScopeSpec::Environment, false);
    assert!(matches!(e, Effect::Export(ref k, ref v) if k == "E" && v == "1"));
    assert_eq!(var_of(&st, "E"), None);
}

#[test]
fn ifx_block_runs_in_the_enclosing_scope_after_status_zero() {
    let mut st = Symtable::new(&Vec::new());
    let args = vec![Arg::Str("true".to_string()), Arg::Bl(vec!["set seen = yes".to_string()])];
    let run = match ifx(args) {
        Request::Statement(stmt, run) => {
            assert_eq!(stmt.len(), 1);
            assert!(matches!(&stmt[0], Arg::Str(s) if s == "true"));
            run
        }
        _ => panic!("ifx did not ask for its statement"),
    };
    let depth = st.depth();
    match resume(run, 0) {
        Request::Block(lines, next, own_frame) => {
            assert!(!own_frame);
            assert!(matches!(next, Run::Last));
            let status = run_lines(&mut st, &lines);
            assert!(matches!(resume(next, status), Request::Done(0)));
        }
        _ => panic!("ifx did not run its block"),
    }
    assert_eq!(st.depth(), depth);
    assert_eq!(var_of(&st, "seen"), Some("yes".to_string()));
}

#[test]
fn ifx_block_does_not_run_after_status_one() {
    let st = Symtable::new(&Vec::new());
    let args = vec![Arg::Str("false".to_string()), Arg::Bl(vec!["set seen = yes".to_string()])];
    let run = match ifx(args) {
        Request::Statement(_, run) => run,
        _ => panic!("ifx did not ask for its statement"),
    };
    assert!(matches!(resume(run, 1), Request::Done(1)));
    assert_eq!(var_of(&st, "seen"), None);
}

#[test]
fn function_body_writes_stay_behind_the_boundary_unless_global() {
    let mut st = Symtable::new(&Vec::new());
    st.set("name", "outer".to_string(), false);
    let def = vec![
        Arg::Str("greet".to_string()),
        Arg::Str("=".to_string()),
        Arg::Str("fn".to_string()),
        Arg::Str("name".to_string()),
        Arg::Bl(vec!["set name = inner".to_string(), "set -g seen = yes".to_string()]),
    ];
    let out = set_main(def, &mut st, &Vec::new());
    assert_eq!(out.status, 0);
    assert!(out.effects.is_empty());
    let f = fn_of(&st, "greet").unwrap();
    assert_eq!(f.args, vec!["name".to_string()]);
    assert!(!st.in_fn_frame());
    st.new_scope(true);
    assert!(st.in_fn_frame());
    st.set_scope(&f.args[0], "world".to_string(), ScopeSpec::Local, false);
    let status = run_lines(&mut st, &f.lines);
    assert_eq!(status, 0);
    assert_eq!(var_of(&st, "name"), Some("inner".to_string()));
    st.del_scope();
    assert_eq!(var_of(&st, "name"), Some("outer".to_string()));
    assert_eq!(var_of(&st, "seen"), Some("yes".to_string()));
}

#[test]
fn set_global_joins_tokens_with_spaces() {
    let mut st = Symtable::new(&Vec::new());
    st.new_scope(false);
    st.new_scope(true);
    let out = set_main(words("-g x = a b c"), &mut st, &Vec::new());
    assert_eq!(out.status, 0);
    assert_eq!(var_of(&st, "x"), Some("a b c".to_string()));
    st.del_scope();
    st.del_scope();
    assert_eq!(var_of(&st, "x"), Some("a b c".to_string()));
}

#[test]
fn blank_block_runs_in_a_frame_of_its_own() {
    let mut st = Symtable::new(&Vec::new());
    let args = vec![Arg::Bl(vec!["set inner = 1".to_string()])];
    match symtab::builtins::blank(args) {
        Request::Block(lines, run, own_frame) => {
            assert!(own_frame);
            st.new_scope(false);
            let status = run_lines(&mut st, &lines);
            assert_eq!(var_of(&st, "inner"), Some("1".to_string()));
            st.del_scope();
            assert!(matches!(resume(run, status), Request::Done(0)));
        }
        _ => panic!("the blank primitive did not run its block"),
    }
    assert_eq!(var_of(&st, "inner"), None);
}

#[test]
fn default_write_in_a_function_call_does_not_reach_the_caller() {
    let mut st = Symtable::new(&Vec::new());
    st.set("x", "outer".to_string(), false);
    st.new_scope(true);
    assert_eq!(st.scope_idx("x", ScopeSpec::Default), 1);
    st.set_scope("x", "inner".to_string(), ScopeSpec::Default, false);
    assert_eq!(var_of(&st, "x"), Some("inner".to_string()));
    st.del_scope();
    assert_eq!(var_of(&st, "x"), Some("outer".to_string()));
}

#[test]
fn function_body_writing_a_name_of_the_caller_leaves_the_caller_alone() {
    let mut st = Symtable::new(&Vec::new());
    st.set("count", "outer".to_string(), false);
    let def = vec![
        Arg::Str("bump".to_string()),
        Arg::Str("=".to_string()),
        Arg::Str("fn".to_string()),
        Arg::Str("step".to_string()),
        Arg::Bl(vec!["set count = inner".to_string(), "set -g total = all".to_string()]),
    ];
    assert_eq!(set_main(def, &mut st, &Vec::new()).status, 0);
    let f = fn_of(&st, "bump").unwrap();
    assert_eq!(f.args, vec!["step".to_string()]);
    st.new_scope(true);
    st.set_scope(&f.args[0], "1".to_string(), ScopeSpec::Local, false);
    assert_eq!(run_lines(&mut st, &f.lines), 0);
    assert_eq!(var_of(&st, "count"), Some("inner".to_string()));
    st.del_scope();
    assert_eq!(var_of(&st, "count"), Some("outer".to_string()));
    assert_eq!(var_of(&st, "total"), Some("all".to_string()));
    assert_eq!(var_of(&st, "step"), None);
}

#[test]
fn default_write_in_a_block_of_a_function_stops_at_the_call() {
    let mut st = Symtable::new(&Vec::new());
    st.set("x", "outer".to_string(), false);
    st.new_scope(true);
    st.set_scope("y", "first".to_string(), ScopeSpec::Local, false);
    st.new_scope(false);
    // the frame of the call holds `y`: the write updates it in place
    assert_eq!(st.scope_idx("y", ScopeSpec::Default), 1);
    st.set("y", "second".to_string(), false);
    // no frame of the call holds `x`: the write goes to the top frame
    assert_eq!(st.scope_idx("x", ScopeSpec::Default), 2);
    st.set("x", "inner".to_string(), false);
    assert_eq!(var_of(&st, "x"), Some("inner".to_string()));
    st.del_scope();
    assert_eq!(var_of(&st, "y"), Some("second".to_string()));
    assert_eq!(var_of(&st, "x"), Some("outer".to_string()));
    st.del_scope();
    assert_eq!(var_of(&st, "y"), None);
    assert_eq!(var_of(&st, "x"), Some("outer".to_string()));
}

#[test]
fn empty_text_in_a_function_call_does_not_delete_for_the_caller() {
    let mut st = Symtable::new(&Vec::new());
    st.set("x", "outer".to_string(), false);
    st.new_scope(true);
    st.set("x", String::new(), false);
    assert_eq!(var_of(&st, "x"), Some("outer".to_string()));
    st.del_scope();
    assert_eq!(var_of(&st, "x"), Some("outer".to_string()));
}

#[test]
fn function_defined_in_a_function_call_does_not_replace_the_caller_binding() {
    let mut st = Symtable::new(&Vec::new());
    st.set("greet", "text".to_string(), false);
    st.new_scope(true);
    st.set_fn("greet", greet(), ScopeSpec::Default);
    assert!(fn_of(&st, "greet").is_some());
    st.del_scope();
    assert!(fn_of(&st, "greet").is_none());
    assert_eq!(var_of(&st, "greet"), Some("text".to_string()));
}

#[test]
fn many_writes_in_a_pushed_frame_are_gone_after_the_pop() {
    let mut st = Symtable::new(&Vec::new());
    st.set("kept", "k".to_string(), false);
    st.new_scope(false);
    st.set_scope("a", "1".to_string(), ScopeSpec::Local, false);
    st.set("b", "2".to_string(), false);
    st.set_scope("kept", "shadow".to_string(), ScopeSpec::Local, false);
    st.set("a", "3".to_string(), false);
    st.set_fn("f", greet(), ScopeSpec::Default);
    st.set("b", String::new(), false);
    assert_eq!(var_of(&st, "a"), Some("3".to_string()));
    assert_eq!(var_of(&st, "kept"), Some("shadow".to_string()));
    st.del_scope();
    assert_eq!(st.depth(), 1);
    assert_eq!(var_of(&st, "a"), None);
    assert_eq!(var_of(&st, "b"), None);
    assert!(fn_of(&st, "f").is_none());
    assert_eq!(var_of(&st, "kept"), Some("k".to_string()));
}
