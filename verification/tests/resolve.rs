use symtab::builtins::{blank_builtin, Builtin, Prim};
use symtab::dict::Dict;
use symtab::sym::{has_kind, search_dirs, DirEntry, Fn, Host, Resolution, ScopeSpec, Sym, SymType, Symtable};
use symtab::text::{dedup, join_spaced};

fn nothing() -> Host {
    Host { is_opt: false, opt: None, env: None, on_disk: false }
}

fn file(dir: &str, name: &str) -> DirEntry {
    DirEntry { name: Some(name.to_string()), path: format!("{}/{}", dir, name), is_dir: Some(false) }
}

fn binary_of(st: &Symtable, name: &str, host: &Host) -> Option<String> {
    match st.resolve_types(name, Some(vec![SymType::Binary]), host) {
        Resolution::Found(Sym::Binary(p)) => Some(p),
        Resolution::Found(_) => panic!("a binary lookup gave another kind"),
        Resolution::Rehash => match st.resolve_cached(name) {
            Some(Sym::Binary(p)) => Some(p),
            Some(_) => panic!("the cache gave another kind"),
            None => None,
        },
        Resolution::Missing => panic!("a binary lookup ended without asking the cache again"),
    }
}

#[test]
fn search_path_is_split_on_colons() {
    assert_eq!(search_dirs(Some("/a:/b".to_string())), vec!["/a".to_string(), "/b".to_string()]);
    assert_eq!(search_dirs(None), vec!["/bin".to_string(), "/usr/bin".to_string()]);
    assert_eq!(search_dirs(Some(String::new())), vec![String::new()]);
    assert_eq!(search_dirs(Some(":/x:".to_string())), vec![String::new(), "/x".to_string(), String::new()]);
}

#[test]
fn binary_is_found_stays_stale_and_goes_with_a_rehash() {
    let mut st = Symtable::new(&Vec::new());
    assert_eq!(search_dirs(Some("/a:/b".to_string())), vec!["/a".to_string(), "/b".to_string()]);
    st.hash_bins(&vec![file("/b", "tool")]);
    assert_eq!(binary_of(&st, "tool", &nothing()), Some("/b/tool".to_string()));
    // the file is gone from disk, the cache is not rebuilt
    assert!(matches!(
        st.resolve_types("tool", Some(vec![SymType::Binary]), &nothing()),
        Resolution::Found(Sym::Binary(ref p)) if p == "/b/tool"
    ));
    st.hash_bins(&Vec::new());
    assert!(matches!(
        st.resolve_types("tool", Some(vec![SymType::Binary]), &nothing()),
        Resolution::Rehash
    ));
    st.hash_bins(&Vec::new());
    assert!(st.resolve_cached("tool").is_none());
    assert_eq!(binary_of(&st, "tool", &nothing()), None);
}

#[test]
fn rehash_keeps_files_and_lets_the_later_directory_win() {
    let mut st = Symtable::new(&Vec::new());
    let listing = vec![
        file("/a", "tool"),
        DirEntry { name: Some("sub".to_string()), path: "/a/sub".to_string(), is_dir: Some(true) },
        DirEntry { name: Some("odd".to_string()), path: "/a/odd".to_string(), is_dir: None },
        DirEntry { name: None, path: "/a/\u{fffd}".to_string(), is_dir: Some(false) },
        file("/b", "tool"),
        file("/b", "other"),
    ];
    st.hash_bins(&listing);
    assert_eq!(binary_of(&st, "tool", &nothing()), Some("/b/tool".to_string()));
    assert_eq!(binary_of(&st, "other", &nothing()), Some("/b/other".to_string()));
    assert_eq!(binary_of(&st, "sub", &nothing()), None);
    assert_eq!(binary_of(&st, "odd", &nothing()), None);
    assert_eq!(st.prefix_resolve_types("", Some(vec![SymType::Binary])), vec!["tool".to_string(), "other".to_string()]);
}

#[test]
fn rehash_replaces_the_cache_wholesale() {
    let mut st = Symtable::new(&Vec::new());
    st.hash_bins(&vec![file("/a", "one")]);
    st.hash_bins(&vec![file("/a", "two")]);
    assert!(st.resolve_cached("one").is_none());
    assert!(matches!(st.resolve_cached("two"), Some(Sym::Binary(ref p)) if p == "/a/two"));
}

#[test]
fn path_on_disk_resolves_as_itself() {
    let st = Symtable::new(&Vec::new());
    let host = Host { is_opt: false, opt: None, env: None, on_disk: true };
    assert!(matches!(st.resolve("./run.sh", &host), Resolution::Found(Sym::Binary(ref p)) if p == "./run.sh"));
}

#[test]
fn miss_without_binary_kind_is_final() {
    let st = Symtable::new(&Vec::new());
    let host = Host { is_opt: false, opt: None, env: None, on_disk: true };
    assert!(matches!(
        st.resolve_types("nope", Some(vec![SymType::Var, SymType::Fn, SymType::Environment, SymType::Builtin]), &host),
        Resolution::Missing
    ));
    assert!(matches!(st.resolve("nope", &nothing()), Resolution::Rehash));
    assert!(matches!(st.resolve_types("nope", Some(Vec::new()), &host), Resolution::Missing));
}

#[test]
fn resolution_order_is_scopes_environment_primitives_binaries() {
    let mut st = Symtable::new(&Vec::new());
    st.hash_bins(&vec![file("/bin", "set"), file("/bin", "x")]);
    let env = Host { is_opt: false, opt: None, env: Some("from-env".to_string()), on_disk: true };
    st.set("x", "from-scope".to_string(), false);
    assert!(matches!(st.resolve("x", &env), Resolution::Found(Sym::Var(ref v)) if v == "from-scope"));
    st.set("x", String::new(), false);
    assert!(matches!(st.resolve("x", &env), Resolution::Found(Sym::Environment(ref v)) if v == "from-env"));
    assert!(matches!(st.resolve("set", &env), Resolution::Found(Sym::Environment(_))));
    assert!(matches!(st.resolve("set", &nothing()), Resolution::Found(Sym::Builtin(b)) if b.name == "set" && b.run == Prim::SetVar));
    assert!(matches!(st.resolve("x", &nothing()), Resolution::Found(Sym::Binary(ref p)) if p == "/bin/x"));
    assert!(matches!(
        st.resolve_types("set", Some(vec![SymType::Binary]), &nothing()),
        Resolution::Found(Sym::Binary(ref p)) if p == "/bin/set"
    ));
}

#[test]
fn option_key_short_circuits_the_scopes() {
    let mut st = Symtable::new(&Vec::new());
    st.set("opt", "scoped".to_string(), false);
    let on = Host { is_opt: true, opt: Some("on".to_string()), env: Some("e".to_string()), on_disk: true };
    assert!(matches!(st.resolve("opt", &on), Resolution::Found(Sym::Var(ref v)) if v == "on"));
    assert!(matches!(
        st.resolve_types("opt", Some(vec![SymType::Fn]), &on),
        Resolution::Found(Sym::Var(ref v)) if v == "on"
    ));
    let unset = Host { is_opt: true, opt: None, env: Some("e".to_string()), on_disk: true };
    assert!(matches!(st.resolve("opt", &unset), Resolution::Missing));
    assert!(matches!(
        st.resolve_types("opt", Some(vec![SymType::Environment]), &unset),
        Resolution::Found(Sym::Environment(ref v)) if v == "e"
    ));
}

#[test]
fn registry_holds_the_seven_primitives() {
    let st = Symtable::new(&Vec::new());
    let names = st.prefix_resolve_types("", Some(vec![SymType::Builtin]));
    assert_eq!(names, vec!["ifx", "eval", "set", "cd", "exit", "history", "read"]);
    let m = Builtin::map();
    assert_eq!(m.len(), 7);
    assert_eq!(m.get("ifx").unwrap().run, Prim::Ifx);
    assert_eq!(m.get("eval").unwrap().desc, "Evaluate a passed-in statement");
    assert!(m.get("__blank").is_none());
    assert_eq!(blank_builtin().name, "__blank");
    assert_eq!(Builtin::default().run, Prim::Blank);
}

#[test]
fn completion_gives_values_then_primitives_then_binaries() {
    let mut st = Symtable::new(&Vec::new());
    st.hash_bins(&vec![file("/bin", "env"), file("/bin", "ls")]);
    st.set("editor", "vi".to_string(), false);
    st.new_scope(false);
    st.set_scope("extra", "more".to_string(), ScopeSpec::Local, false);
    st.set_fn(
        "emit",
        Fn { name: "emit".to_string(), inline: false, args: Vec::new(), vararg: None, postargs: None, lines: Vec::new() },
        ScopeSpec::Local,
    );
    assert_eq!(
        st.prefix_resolve("e"),
        vec!["more".to_string(), "vi".to_string(), "eval".to_string(), "exit".to_string(), "env".to_string()]
    );
    assert_eq!(st.prefix_resolve_types("e", Some(vec![SymType::Var, SymType::Fn])), vec!["more".to_string(), "vi".to_string()]);
    assert!(st.prefix_resolve_types("e", Some(vec![SymType::Environment, SymType::Fn])).is_empty());
    assert!(st.prefix_resolve("zz").is_empty());
}

#[test]
fn completion_gives_each_text_once() {
    let mut st = Symtable::new(&Vec::new());
    st.hash_bins(&vec![file("/bin", "eval")]);
    st.set("e1", "same".to_string(), false);
    st.set("e2", "same".to_string(), false);
    assert_eq!(st.prefix_resolve("e"), vec!["same".to_string(), "eval".to_string(), "exit".to_string()]);
}

#[test]
fn completion_does_not_rehash() {
    let st = Symtable::new(&Vec::new());
    assert!(st.prefix_resolve_types("", Some(vec![SymType::Binary])).is_empty());
}

#[test]
fn has_kind_finds_what_is_there() {
    let kinds = vec![SymType::Var, SymType::Binary];
    assert!(has_kind(&kinds, SymType::Var));
    assert!(has_kind(&kinds, SymType::Binary));
    assert!(!has_kind(&kinds, SymType::Fn));
    assert!(!has_kind(&Vec::new(), SymType::Var));
}

#[test]
fn dict_keeps_first_insertion_order() {
    let mut d: Dict<String> = Dict::new();
    d.insert("a".to_string(), "1".to_string());
    d.insert("b".to_string(), "2".to_string());
    d.insert("a".to_string(), "3".to_string());
    assert_eq!(d.len(), 2);
    assert_eq!(d.name_at(0), "a");
    assert_eq!(d.val_at(0), "3");
    assert_eq!(d.find("b"), Some(1));
    d.remove("a");
    assert_eq!(d.len(), 1);
    assert_eq!(d.find("b"), Some(0));
    assert!(d.get("a").is_none());
    d.remove("zz");
    assert_eq!(d.len(), 1);
    d.clear();
    assert_eq!(d.len(), 0);
}

#[test]
fn join_and_dedup_are_exact() {
    assert_eq!(join_spaced(&vec!["a".to_string(), "b".to_string(), "c".to_string()]), "a b c");
    assert_eq!(join_spaced(&vec!["one".to_string()]), "one");
    assert_eq!(join_spaced(&Vec::new()), "");
    assert_eq!(join_spaced(&vec![String::new(), "x".to_string()]), " x");
    assert_eq!(
        dedup(vec!["b".to_string(), "a".to_string(), "b".to_string(), "c".to_string(), "a".to_string()]),
        vec!["b".to_string(), "a".to_string(), "c".to_string()]
    );
}

#[test]
fn settled_resolution_rehashes_only_after_a_miss() {
    let mut st = Symtable::new(&Vec::new());
    st.hash_bins(&vec![file("/b", "tool")]);
    let kinds = || Some(vec![SymType::Binary]);
    // the listing no longer holds the file, but the cache answers first
    let gone: Vec<DirEntry> = Vec::new();
    assert!(matches!(st.resolve_settled("tool", kinds(), &nothing(), &gone), Some(Sym::Binary(ref p)) if p == "/b/tool"));
    assert!(matches!(st.resolve_cached("tool"), Some(Sym::Binary(_))));
    // a miss rebuilds the cache from the listing and asks it again
    let fresh = vec![file("/c", "late")];
    assert!(matches!(st.resolve_settled("late", kinds(), &nothing(), &fresh), Some(Sym::Binary(ref p)) if p == "/c/late"));
    assert!(st.resolve_cached("tool").is_none());
    assert!(st.resolve_settled("tool", kinds(), &nothing(), &fresh).is_none());
    // without the binary kind nothing is rebuilt
    assert!(st.resolve_settled("late", Some(vec![SymType::Var]), &nothing(), &gone).is_none());
    assert!(matches!(st.resolve_cached("late"), Some(Sym::Binary(_))));
}

#[test]
fn new_table_caches_the_listing_it_is_given() {
    let st = Symtable::new(&vec![file("/bin", "ls"), file("/usr/bin", "ls")]);
    assert!(matches!(st.resolve("ls", &nothing()), Resolution::Found(Sym::Binary(ref p)) if p == "/usr/bin/ls"));
    assert_eq!(st.depth(), 1);
    assert!(!st.in_fn_frame());
}

#[test]
fn listing_is_needed_only_where_a_rehash_follows() {
    let st = Symtable::new(&vec![file("/bin", "ls")]);
    let on_disk = Host { is_opt: false, opt: None, env: None, on_disk: true };
    assert!(!st.needs_listing("ls", None, &nothing()));
    assert!(!st.needs_listing("set", None, &nothing()));
    assert!(st.needs_listing("nope", None, &nothing()));
    assert!(!st.needs_listing("nope", None, &on_disk));
    assert!(!st.needs_listing("nope", Some(vec![SymType::Var, SymType::Builtin]), &nothing()));
    assert!(st.needs_listing("set", Some(vec![SymType::Binary]), &nothing()));
}
