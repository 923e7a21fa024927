use tremor_script::{
    ConnectorDefinition, OperatorDefinition, PipelineDefinition, ScriptDefinition, WindowDefinition,
};
use tremor_script::{
    Const, Content, Error, FlowDefinition, FnDefn, Get, GetMod, Id, Index, ItemKind, LoadAction,
    LoadStep, Manager, Module, ModuleLoad, ModuleRaw, ModuleStmtRaw, NodeId, NodeMeta, Source, Span,
    UseRaw,
};

/// A module file as the tests see it: where it lies, its text, and the
/// statements a parser makes of that text.
struct File {
    path: &'static str,
    src: &'static str,
    stmts: fn() -> Vec<ModuleStmtRaw>,
}

fn meta(start: usize, end: usize) -> NodeMeta {
    NodeMeta { range: Span { start, end } }
}

fn node(id: &str, module: &[&str]) -> NodeId {
    NodeId { id: id.to_string(), module: module.iter().map(|m| m.to_string()).collect() }
}

fn flow(name: &str, start: usize) -> ModuleStmtRaw {
    ModuleStmtRaw::Flow(FlowDefinition { id: name.to_string(), mid: meta(start, start + 1) })
}

fn function(name: &str, start: usize) -> ModuleStmtRaw {
    ModuleStmtRaw::FnDefn(FnDefn { name: name.to_string(), mid: meta(start, start + 1) })
}

fn constant(name: &str, start: usize) -> ModuleStmtRaw {
    ModuleStmtRaw::Const(Const { id: name.to_string(), mid: meta(start, start + 1) })
}

fn use_of(id: &str, module: &[&str], alias: Option<&str>, start: usize, end: usize) -> ModuleStmtRaw {
    ModuleStmtRaw::Use(UseRaw {
        alias: alias.map(|a| a.to_string()),
        module: node(id, module),
        mid: meta(start, end),
    })
}

fn relative_path(n: &NodeId) -> String {
    let mut p = String::new();
    for m in &n.module {
        p.push_str(m);
        p.push('/');
    }
    p.push_str(&n.id);
    p.push_str(".tremor");
    p
}

fn find_file<'a>(mgr: &Manager, files: &'a [File], n: &NodeId) -> Option<&'a File> {
    let rel = relative_path(n);
    for mount in mgr.mounts() {
        let full = format!("{}/{}", mount, rel);
        if let Some(f) = files.iter().find(|f| f.path == full) {
            return Some(f);
        }
    }
    None
}

/// Loads a module with the loader, playing the part of the file system and
/// of the parser with the files given.
fn load(mgr: &mut Manager, files: &[File], n: &NodeId) -> Result<Index, Error> {
    let (mut ld, mut action) = Manager::load(n);
    let mut current: Option<&File> = None;
    loop {
        action = match action {
            LoadAction::Read(next) => {
                assert!(ld.wants_file());
                match find_file(mgr, files, &next) {
                    Some(f) => {
                        current = Some(f);
                        mgr.file_found(&mut ld, f.path.to_string(), f.src.as_bytes())
                    }
                    None => mgr.file_missing(&mut ld),
                }
            }
            LoadAction::Parse => {
                assert!(ld.wants_statements());
                let f = current.unwrap();
                if f.src.is_empty() {
                    mgr.load_failed(&mut ld, Error::Other("empty file".to_string()))
                } else {
                    let raw = ModuleRaw { name: n.id.clone(), stmts: (f.stmts)(), doc: None, mid: meta(0, 0) };
                    mgr.file_parsed(&mut ld, raw)
                }
            }
            LoadAction::Done(r) => return r,
        };
    }
}

fn twice_stmts() -> Vec<ModuleStmtRaw> {
    vec![constant("answer", 0), function("twice", 20)]
}

fn outside_stmts() -> Vec<ModuleStmtRaw> {
    vec![use_of("inside", &["nested"], None, 0, 20), flow("main", 30)]
}

fn inside_stmts() -> Vec<ModuleStmtRaw> {
    vec![constant("depth", 0)]
}

fn string_stmts() -> Vec<ModuleStmtRaw> {
    vec![function("format", 0), function("len", 40), function("replace", 80)]
}

fn files() -> Vec<File> {
    vec![
        File {
            path: "./tests/modules/loading/twice.tremor",
            src: "const answer = 42;\nfn twice(x) with x * 2 end;\n",
            stmts: twice_stmts,
        },
        File {
            path: "./tests/modules/outside.tremor",
            src: "use nested::inside;\ndefine flow main flow end;\n",
            stmts: outside_stmts,
        },
        File {
            path: "./tests/modules/nested/inside.tremor",
            src: "const depth = 1;\n",
            stmts: inside_stmts,
        },
        File {
            path: "./lib/std/string.tremor",
            src: "fn format(f) with f end;\nfn len(s) with 0 end;\nfn replace(s) with s end;\n",
            stmts: string_stmts,
        },
    ]
}

#[test]
fn load_twice() -> Result<(), Error> {
    let mut mgr = Manager::new();
    let fs = files();
    mgr.add_path(&"./tests/modules");
    let id1 = load(&mut mgr, &fs, &NodeId { id: "twice".to_string(), module: vec!["loading".into()] })?;
    let id2 = load(&mut mgr, &fs, &NodeId { id: "twice".to_string(), module: vec!["loading".into()] })?;
    assert_eq!(id1, id2);
    Ok(())
}

#[test]
fn load_nested() -> Result<(), Error> {
    let mut mgr = Manager::new();
    let fs = files();
    mgr.add_path(&"./tests/modules");
    load(&mut mgr, &fs, &NodeId { id: "outside".to_string(), module: vec![] })?;
    Ok(())
}

#[test]
fn load_from_id() -> Result<(), Error> {
    let mut mgr = Manager::new();
    let fs = files();
    mgr.add_path(&"./lib");

    load(&mut mgr, &fs, &NodeId { id: "string".to_string(), module: vec!["std".to_string()] })?;
    Ok(())
}

#[test]
fn twice_loaded_module_is_stored_once() {
    let mut mgr = Manager::new();
    let fs = files();
    mgr.add_path("./tests/modules");
    let a = load(&mut mgr, &fs, &node("twice", &["loading"])).unwrap();
    let b = load(&mut mgr, &fs, &node("twice", &["loading"])).unwrap();
    assert_eq!(a, Index(0));
    assert_eq!(b, Index(0));
    assert_eq!(mgr.modules().len(), 1);
}

#[test]
fn nested_module_is_loaded_first_and_aliased() {
    let mut mgr = Manager::new();
    let fs = files();
    mgr.add_path("./tests/modules");
    let outer = load(&mut mgr, &fs, &node("outside", &[])).unwrap();
    assert_eq!(outer, Index(1));
    assert_eq!(mgr.find_module(outer, &["inside".to_string()]), Some(Index(0)));
    let main: Option<FlowDefinition> = mgr.get(outer, "main");
    assert_eq!(main.map(|f| f.id), Some("main".to_string()));
    let depth: Option<Const> = mgr.get(Index(0), "depth");
    assert_eq!(depth.map(|c| c.mid.range), Some(Span { start: 0, end: 1 }));
}

#[test]
fn std_functions_are_found_by_name() {
    let mut mgr = Manager::new();
    let fs = files();
    mgr.add_path("./lib");
    let m = load(&mut mgr, &fs, &node("string", &["std"])).unwrap();
    let f: Option<FnDefn> = mgr.get(m, "len");
    assert_eq!(f.map(|f| f.mid.range), Some(Span { start: 40, end: 41 }));
    let missing: Option<FnDefn> = mgr.get(m, "upper");
    assert!(missing.is_none());
    let wrong_kind: Option<Const> = mgr.get(m, "len");
    assert!(wrong_kind.is_none());
    let no_module: Option<FnDefn> = mgr.get(Index(7), "len");
    assert!(no_module.is_none());
}

fn cycle_a() -> Vec<ModuleStmtRaw> {
    vec![constant("a", 0), use_of("b", &[], None, 10, 20)]
}

fn cycle_b() -> Vec<ModuleStmtRaw> {
    vec![use_of("a", &[], None, 30, 40)]
}

#[test]
fn cyclic_use_is_reported_at_the_outermost_use() {
    let fs = vec![
        File { path: "./m/a.tremor", src: "const a = 1; use b;", stmts: cycle_a },
        File { path: "./m/b.tremor", src: "use a;", stmts: cycle_b },
    ];
    let mut mgr = Manager::new();
    mgr.add_path("./m");
    match load(&mut mgr, &fs, &node("a", &[])) {
        Err(Error::CyclicUse(outer, inner, uses)) => {
            assert_eq!(outer, Span { start: 10, end: 20 });
            assert_eq!(inner, Span { start: 10, end: 20 });
            assert_eq!(uses, vec!["./m/a.tremor".to_string(), "./m/b.tremor".to_string()]);
        }
        other => panic!("unexpected {:?}", other),
    }
    assert_eq!(mgr.modules().len(), 0);
}

#[test]
fn missing_module_names_the_paths_searched() {
    let mut mgr = Manager::new();
    mgr.add_path("./m");
    mgr.add_path("./n");
    match load(&mut mgr, &[], &node("missing", &["x", "y"])) {
        Err(Error::ModuleNotFound(outer, inner, name, mounts)) => {
            assert_eq!(outer, Span::default());
            assert_eq!(inner, Span { start: 0, end: 0 });
            assert_eq!(name, "x::y::missing");
            assert_eq!(mounts, vec!["./m".to_string(), "./n".to_string()]);
        }
        other => panic!("unexpected {:?}", other),
    }
}

fn duplicate_stmts() -> Vec<ModuleStmtRaw> {
    vec![flow("main", 0), constant("main", 5), flow("main", 10)]
}

#[test]
fn duplicate_definition_fails_the_load() {
    let fs = vec![File { path: "./m/dup.tremor", src: "dup", stmts: duplicate_stmts }];
    let mut mgr = Manager::new();
    mgr.add_path("./m");
    match load(&mut mgr, &fs, &node("dup", &[])) {
        Err(Error::AlreadyDefined(range, kind, name)) => {
            assert_eq!(range, Span { start: 10, end: 11 });
            assert_eq!(kind, ItemKind::Flow);
            assert_eq!(name, "main");
        }
        other => panic!("unexpected {:?}", other),
    }
}

#[test]
fn insert_then_get_and_duplicate() {
    let mut c = Content::new();
    assert!(c.insert_flow(FlowDefinition { id: "a".to_string(), mid: meta(1, 2) }).is_ok());
    assert!(c.insert_const(Const { id: "a".to_string(), mid: meta(3, 4) }).is_ok());
    match c.insert_flow(FlowDefinition { id: "a".to_string(), mid: meta(5, 6) }) {
        Err(Error::AlreadyDefined(range, kind, name)) => {
            assert_eq!(range, Span { start: 5, end: 6 });
            assert_eq!(kind, ItemKind::Flow);
            assert_eq!(name, "a");
        }
        other => panic!("unexpected {:?}", other),
    }
    let f: Option<FlowDefinition> = c.get("a");
    assert_eq!(f.map(|f| f.mid.range), Some(Span { start: 1, end: 2 }));
    let k: Option<Const> = c.get("a");
    assert_eq!(k.map(|k| k.mid.range), Some(Span { start: 3, end: 4 }));
    let none: Option<FlowDefinition> = c.get("b");
    assert!(none.is_none());
}

#[test]
fn every_kind_rejects_a_second_definition() {
    let mut c = Content::new();
    let m = meta(0, 1);
    assert!(c.insert_connector(ConnectorDefinition { id: "x".into(), mid: m }).is_ok());
    assert!(matches!(
        c.insert_connector(ConnectorDefinition { id: "x".into(), mid: m }),
        Err(Error::AlreadyDefined(_, ItemKind::Connector, _))
    ));
    assert!(c.insert_pipeline(PipelineDefinition { id: "x".into(), mid: m }).is_ok());
    assert!(matches!(
        c.insert_pipeline(PipelineDefinition { id: "x".into(), mid: m }),
        Err(Error::AlreadyDefined(_, ItemKind::Pipeline, _))
    ));
    assert!(c.insert_window(WindowDefinition { id: "x".into(), mid: m }).is_ok());
    assert!(matches!(
        c.insert_window(WindowDefinition { id: "x".into(), mid: m }),
        Err(Error::AlreadyDefined(_, ItemKind::Window, _))
    ));
    assert!(c.insert_script(ScriptDefinition { id: "x".into(), mid: m }).is_ok());
    assert!(matches!(
        c.insert_script(ScriptDefinition { id: "x".into(), mid: m }),
        Err(Error::AlreadyDefined(_, ItemKind::Script, _))
    ));
    assert!(c.insert_operator(OperatorDefinition { id: "x".into(), mid: m }).is_ok());
    assert!(matches!(
        c.insert_operator(OperatorDefinition { id: "x".into(), mid: m }),
        Err(Error::AlreadyDefined(_, ItemKind::Operator, _))
    ));
    assert!(c.insert_function(FnDefn { name: "x".into(), mid: m }).is_ok());
    assert!(matches!(
        c.insert_function(FnDefn { name: "x".into(), mid: m }),
        Err(Error::AlreadyDefined(_, ItemKind::Function, _))
    ));
    assert!(c.insert_const(Const { id: "x".into(), mid: m }).is_ok());
    assert!(matches!(c.insert_const(Const { id: "x".into(), mid: m }), Err(Error::AlreadyDefined(_, ItemKind::Const, _))));
    let w: Option<WindowDefinition> = c.get("x");
    assert!(w.is_some());
}

fn alias_a() -> Vec<ModuleStmtRaw> {
    vec![use_of("b", &["lib"], Some("bee"), 0, 5)]
}

fn alias_b() -> Vec<ModuleStmtRaw> {
    vec![use_of("c", &["lib"], None, 0, 5)]
}

fn alias_c() -> Vec<ModuleStmtRaw> {
    vec![]
}

#[test]
fn find_module_follows_aliases() {
    let fs = vec![
        File { path: "./m/a.tremor", src: "a", stmts: alias_a },
        File { path: "./m/lib/b.tremor", src: "b", stmts: alias_b },
        File { path: "./m/lib/c.tremor", src: "c", stmts: alias_c },
    ];
    let mut mgr = Manager::new();
    mgr.add_path("./m");
    let root = load(&mut mgr, &fs, &node("a", &[])).unwrap();
    assert_eq!(root, Index(2));
    assert_eq!(mgr.find_module(root, &[]), Some(root));
    assert_eq!(mgr.find_module(root, &["bee".to_string()]), Some(Index(1)));
    assert_eq!(mgr.find_module(root, &["bee".to_string(), "c".to_string()]), Some(Index(0)));
    assert_eq!(mgr.find_module(root, &["b".to_string()]), None);
    assert_eq!(mgr.find_module(Index(9), &["bee".to_string()]), None);
    assert_eq!(mgr.find_module(Index(9), &[]), Some(Index(9)));
}

#[test]
fn paths_are_added_in_order_and_cleared() {
    let mut mgr = Manager::new();
    mgr.add_path("./a");
    mgr.add_path("./b");
    assert_eq!(mgr.mounts(), &vec!["./a".to_string(), "./b".to_string()]);
    mgr.clear_path();
    assert!(mgr.mounts().is_empty());
    mgr.add_path("./c");
    assert_eq!(mgr.mounts(), &vec!["./c".to_string()]);
}

#[test]
fn fully_qualified_names() {
    assert_eq!(node("format", &["std", "string"]).fqn(), "std::string::format");
    assert_eq!(node("format", &["std"]).fqn(), "std::format");
    assert_eq!(node("format", &[]).fqn(), "format");
}

#[test]
fn identity_is_the_sha512_digest() {
    let id = Id::from(b"abc");
    let expected: [u8; 64] = [
        0xdd, 0xaf, 0x35, 0xa1, 0x93, 0x61, 0x7a, 0xba, 0xcc, 0x41, 0x73, 0x49, 0xae, 0x20, 0x41, 0x31,
        0x12, 0xe6, 0xfa, 0x4e, 0x89, 0xa9, 0x7e, 0xa2, 0x0a, 0x9e, 0xee, 0xe6, 0x4b, 0x55, 0xd3, 0x9a,
        0x21, 0x92, 0x99, 0x2a, 0x27, 0x4f, 0xc1, 0xa8, 0x36, 0xba, 0x3c, 0x23, 0xa3, 0xfe, 0xeb, 0xbd,
        0x45, 0x4d, 0x44, 0x23, 0x64, 0x3c, 0xe8, 0x0e, 0x2a, 0x9a, 0xc9, 0x4f, 0xa5, 0x4c, 0xa4, 0x9f,
    ];
    assert_eq!(id.as_bytes(), &expected[..]);
    let empty = Id::from(b"");
    assert_eq!(empty.as_bytes().len(), 64);
    assert_eq!(&empty.as_bytes()[..4], &[0xcf, 0x83, 0xe1, 0x35]);
    assert!(id.same_as(&Id::from(b"abc")));
    assert!(!id.same_as(&empty));
    assert!(id.clone().same_as(&id));
}

#[test]
fn check_source_detects_cycles_and_known_modules() {
    let mut mgr = Manager::new();
    let mut ids = Vec::new();
    let first = mgr.check_source(&mut ids, "./x.tremor".to_string(), b"x").unwrap();
    let id = match first {
        Source::New(id) => id,
        Source::Known(_) => panic!("nothing is loaded yet"),
    };
    assert_eq!(ids.len(), 1);
    assert!(ids[0].0.same_as(&id));
    match mgr.check_source(&mut ids, "./y.tremor".to_string(), b"x") {
        Err(Error::CyclicUse(_, _, uses)) => assert_eq!(uses, vec!["./x.tremor".to_string()]),
        _ => panic!("expected a cyclic use"),
    }
    assert_eq!(ids.len(), 1);
    let raw = ModuleRaw { name: "x".into(), stmts: vec![], doc: None, mid: meta(0, 0) };
    let m = match Module::load(ModuleLoad::new(id, raw), None).unwrap() {
        LoadStep::Loaded(m) => m,
        LoadStep::Use(_) => panic!("no use statement"),
    };
    assert_eq!(mgr.add_module(&mut ids, m), Index(0));
    assert!(ids.is_empty());
    match mgr.check_source(&mut ids, "./z.tremor".to_string(), b"x").unwrap() {
        Source::Known(i) => assert_eq!(i, Index(0)),
        Source::New(_) => panic!("the source is loaded already"),
    }
    assert!(ids.is_empty());
}

#[test]
fn module_load_asks_again_and_passes_errors() {
    let raw = ModuleRaw {
        name: "m".into(),
        stmts: vec![constant("c", 0), use_of("dep", &["lib"], Some("d"), 5, 9), flow("f", 12)],
        doc: None,
        mid: meta(0, 0),
    };
    let state = ModuleLoad::new(Id::from(b"m"), raw);
    let state = match Module::load(state, None).unwrap() {
        LoadStep::Use(s) => s,
        LoadStep::Loaded(_) => panic!("the use is not resolved"),
    };
    assert_eq!(state.requested().unwrap().fqn(), "lib::dep");
    assert_eq!(state.pending.as_ref().unwrap().alias, "d");
    let state = match Module::load(state, None).unwrap() {
        LoadStep::Use(s) => s,
        LoadStep::Loaded(_) => panic!("still not resolved"),
    };
    match Module::load(state, Some(Err(Error::Other("disk".into())))) {
        Err(Error::Other(msg)) => assert_eq!(msg, "disk"),
        _ => panic!("the error is passed on"),
    }
}

#[test]
fn module_load_records_alias_and_finishes() {
    let raw = ModuleRaw {
        name: "m".into(),
        stmts: vec![use_of("dep", &["lib"], None, 5, 9), flow("f", 12)],
        doc: None,
        mid: meta(0, 0),
    };
    let state = match Module::load(ModuleLoad::new(Id::from(b"m"), raw), None).unwrap() {
        LoadStep::Use(s) => s,
        LoadStep::Loaded(_) => panic!("the use is not resolved"),
    };
    let m = match Module::load(state, Some(Ok(Index(3)))).unwrap() {
        LoadStep::Loaded(m) => m,
        LoadStep::Use(_) => panic!("only one use"),
    };
    assert_eq!(m.modules.get("dep"), Some(&Index(3)));
    let f: Option<FlowDefinition> = m.content.get("f");
    assert!(f.is_some());
    assert!(m.id.same_as(&Id::from(b"m")));
}

#[test]
fn statement_meta_and_kind_words() {
    assert_eq!(flow("f", 7).meta().range, Span { start: 7, end: 8 });
    assert_eq!(use_of("u", &[], None, 3, 9).meta().range, Span { start: 3, end: 9 });
    assert_eq!(ItemKind::Flow.word(), "flow");
    assert_eq!(ItemKind::Function.word(), "function");
    assert_eq!(ItemKind::Const.word(), "const");
}

fn broken_user() -> Vec<ModuleStmtRaw> {
    vec![constant("ok", 0), use_of("broken", &[], None, 50, 60)]
}

#[test]
fn a_failed_parse_fails_the_whole_load() {
    let fs = vec![
        File { path: "./m/user.tremor", src: "use broken;", stmts: broken_user },
        File { path: "./m/broken.tremor", src: "", stmts: alias_c },
    ];
    let mut mgr = Manager::new();
    mgr.add_path("./m");
    match load(&mut mgr, &fs, &node("user", &[])) {
        Err(Error::Other(msg)) => assert_eq!(msg, "empty file"),
        other => panic!("unexpected {:?}", other),
    }
    assert_eq!(mgr.modules().len(), 0);
}

fn top() -> Vec<ModuleStmtRaw> {
    vec![use_of("b", &["lib"], Some("first"), 0, 5), use_of("b", &["lib"], Some("second"), 6, 9)]
}

#[test]
fn shared_dependency_is_loaded_once() {
    let fs = vec![
        File { path: "./m/top.tremor", src: "top", stmts: top },
        File { path: "./m/lib/b.tremor", src: "b", stmts: alias_b },
        File { path: "./m/lib/c.tremor", src: "c", stmts: alias_c },
    ];
    let mut mgr = Manager::new();
    mgr.add_path("./m");
    let t = load(&mut mgr, &fs, &node("top", &[])).unwrap();
    assert_eq!(mgr.modules().len(), 3);
    assert_eq!(t, Index(2));
    assert_eq!(mgr.find_module(t, &["first".to_string()]), Some(Index(1)));
    assert_eq!(mgr.find_module(t, &["second".to_string()]), Some(Index(1)));
    assert_eq!(mgr.find_module(t, &["second".to_string(), "c".to_string()]), Some(Index(0)));
}

fn one() -> Vec<ModuleStmtRaw> {
    vec![constant("one", 1)]
}

fn two() -> Vec<ModuleStmtRaw> {
    vec![constant("two", 2)]
}

#[test]
fn the_first_module_path_that_holds_the_file_wins() {
    let fs = vec![
        File { path: "./first/m.tremor", src: "one", stmts: one },
        File { path: "./second/m.tremor", src: "two", stmts: two },
    ];
    let mut mgr = Manager::new();
    mgr.add_path("./first");
    mgr.add_path("./second");
    let i = load(&mut mgr, &fs, &node("m", &[])).unwrap();
    let c: Option<Const> = mgr.get(i, "one");
    assert!(c.is_some());
}

#[test]
fn reloading_a_module_that_uses_others_changes_nothing() {
    let mut mgr = Manager::new();
    let fs = files();
    mgr.add_path("./tests/modules");
    let first = load(&mut mgr, &fs, &node("outside", &[])).unwrap();
    let count = mgr.modules().len();
    let second = load(&mut mgr, &fs, &node("outside", &[])).unwrap();
    assert_eq!(first, second);
    assert_eq!(mgr.modules().len(), count);
    let inner = load(&mut mgr, &fs, &node("inside", &["nested"])).unwrap();
    assert_eq!(mgr.find_module(first, &["inside".to_string()]), Some(inner));
    assert_eq!(mgr.modules().len(), count);
}

#[test]
fn stored_modules_have_distinct_identities() {
    let mut mgr = Manager::new();
    let fs = vec![
        File { path: "./m/top.tremor", src: "top", stmts: top },
        File { path: "./m/lib/b.tremor", src: "b", stmts: alias_b },
        File { path: "./m/lib/c.tremor", src: "c", stmts: alias_c },
    ];
    mgr.add_path("./m");
    load(&mut mgr, &fs, &node("top", &[])).unwrap();
    load(&mut mgr, &fs, &node("b", &["lib"])).unwrap();
    load(&mut mgr, &fs, &node("c", &["lib"])).unwrap();
    let mods = mgr.modules();
    assert_eq!(mods.len(), 3);
    for i in 0..mods.len() {
        for j in 0..mods.len() {
            assert_eq!(mods[i].id.same_as(&mods[j].id), i == j);
        }
    }
}

#[test]
fn content_listing_names_each_table() {
    let mut c = Content::new();
    assert_eq!(
        c.to_debug_string(),
        "ModuleContent { connectors: [], pipelines: [], windows: [], scripts: [], operators: [], flows: [], consts: [], functions: [] }"
    );
    c.insert_connector(ConnectorDefinition { id: "in".into(), mid: meta(0, 1) }).unwrap();
    c.insert_flow(FlowDefinition { id: "main".into(), mid: meta(2, 3) }).unwrap();
    c.insert_flow(FlowDefinition { id: "other \"q\"".into(), mid: meta(4, 5) }).unwrap();
    assert_eq!(
        c.to_debug_string(),
        "ModuleContent { connectors: [\"in\"], pipelines: [], windows: [], scripts: [], operators: [], flows: [\"main\", \"other \\\"q\\\"\"], consts: [], functions: [] }"
    );
}

#[test]
fn clones_are_equal_and_differences_are_seen() {
    let s = use_of("dep", &["lib"], Some("d"), 5, 9);
    assert!(s.clone() == s);
    assert!(s != use_of("dep", &["lib"], Some("e"), 5, 9));
    assert!(s != use_of("dep", &["other"], Some("d"), 5, 9));
    assert!(flow("f", 1) == flow("f", 1));
    assert!(flow("f", 1) != flow("f", 2));
    assert!(flow("f", 1) != constant("f", 1));
    let raw = ModuleRaw {
        name: "m".into(),
        stmts: vec![constant("c", 0), use_of("dep", &["lib"], None, 5, 9)],
        doc: Some(vec!["doc".to_string()]),
        mid: meta(0, 10),
    };
    assert!(raw.clone() == raw);
    let mut other = raw.clone();
    other.doc = None;
    assert!(other != raw);
    let mut c = Content::new();
    c.insert_flow(FlowDefinition { id: "a".into(), mid: meta(1, 2) }).unwrap();
    let d = c.clone();
    assert!(d == c);
    let mut e = c.clone();
    e.insert_const(Const { id: "k".into(), mid: meta(3, 4) }).unwrap();
    assert!(e != c);
    let mut mgr = Manager::new();
    mgr.add_path("./tests/modules");
    let i = load(&mut mgr, &files(), &node("outside", &[])).unwrap();
    let m = mgr.modules()[i.0].clone();
    assert!(m == mgr.modules()[i.0]);
    assert!(m != mgr.modules()[0]);
}

#[test]
fn adding_a_stored_module_again_keeps_its_index() {
    let mut mgr = Manager::new();
    let mut ids = Vec::new();
    let raw = || ModuleRaw { name: "x".into(), stmts: vec![constant("c", 0)], doc: None, mid: meta(0, 0) };
    let first = match Module::load(ModuleLoad::new(Id::from(b"x"), raw()), None).unwrap() {
        LoadStep::Loaded(m) => m,
        LoadStep::Use(_) => panic!("no use statement"),
    };
    let again = first.clone();
    assert_eq!(mgr.add_module(&mut ids, first), Index(0));
    assert_eq!(mgr.add_module(&mut ids, again), Index(0));
    assert_eq!(mgr.modules().len(), 1);
    let other = match Module::load(ModuleLoad::new(Id::from(b"y"), raw()), None).unwrap() {
        LoadStep::Loaded(m) => m,
        LoadStep::Use(_) => panic!("no use statement"),
    };
    assert_eq!(mgr.add_module(&mut ids, other), Index(1));
}

#[test]
fn identities_compare_by_digest() {
    assert!(Id::from(b"a") == Id::from(b"a"));
    assert!(Id::from(b"a") != Id::from(b"b"));
    assert_eq!(Id::from(b"a").clone(), Id::from(b"a"));
}
