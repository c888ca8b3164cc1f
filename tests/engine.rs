use defindex::extract::{
    Decl, DefKind, Event, FileReport, Generic, GenericBound, Member, MemberShape, NameUse, Visibility,
};
use defindex::index::{index_file, index_with, IndexError};
use defindex::profile::{Classification, Import, LanguageProfile, ModuleMember};
use defindex::scope::{Binding, ScopeStack};
use defindex::span::Span;

fn strings(v: &[&str]) -> Vec<String> {
    v.iter().map(|s| s.to_string()).collect()
}

fn rust() -> LanguageProfile {
    LanguageProfile {
        language: "rust".to_string(),
        builtins: strings(&[
            "Option", "Some", "None", "Result", "Ok", "Err", "Vec", "String", "Box", "println",
            "format", "vec", "write", "clone", "to_string", "iter", "map", "filter", "sum", "collect",
            "i32", "u32", "u64", "str",
        ]),
        keywords: strings(&["self", "Self", "crate", "super"]),
        std_roots: strings(&["std", "core", "alloc"]),
    }
}

fn sp(start: usize, end: usize) -> Span {
    Span::new(start, end)
}

fn decl(kind: DefKind, name: &str, span: Span) -> Decl {
    Decl {
        kind,
        name: name.to_string(),
        span,
        visibility: Visibility::Private,
        generics: Vec::new(),
        members: Vec::new(),
        supertraits: Vec::new(),
        aliased: None,
    }
}

fn name_use(path: &[&str], span: Span) -> Event {
    Event::Use(NameUse { path: strings(path), span, is_method: false })
}

fn method(name: &str, span: Span) -> Event {
    Event::Use(NameUse { path: strings(&[name]), span, is_method: true })
}

fn bind(name: &str, span: Span) -> Event {
    Event::Let(Binding { name: name.to_string(), site: span })
}

fn run(events: Vec<Event>) -> FileReport {
    index_with(&rust(), "f.rs".to_string(), events)
}

fn shadowing_events() -> Vec<Event> {
    vec![
        Event::Decl(decl(DefKind::Constant, "MAX", sp(0, 14))),
        Event::End,
        Event::Decl(decl(DefKind::Function, "f", sp(15, 80))),
        bind("MAX", sp(26, 29)),
        name_use(&["MAX"], sp(46, 49)),
        bind("MAX", sp(40, 43)),
        name_use(&["println"], sp(55, 62)),
        name_use(&["MAX"], sp(64, 67)),
        Event::End,
    ]
}

#[test]
fn shadowed_constant_resolves_to_innermost_binding() {
    let r = run(shadowing_events());
    assert_eq!(r.definitions.len(), 2);
    assert_eq!(r.definitions[0].decl.name, "MAX");
    assert_eq!(r.definitions[0].decl.kind, DefKind::Constant);
    assert_eq!(r.definitions[1].decl.kind, DefKind::Function);
    assert_eq!(r.references.len(), 3);
    // `let MAX = MAX + 1`: the initialiser sees the first local binding.
    assert_eq!(r.references[0].resolution.class, Classification::Local);
    assert_eq!(r.references[0].resolution.target, Some(sp(26, 29)));
    assert_eq!(r.references[1].resolution.class, Classification::Builtin);
    assert_eq!(r.references[2].resolution.class, Classification::Local);
    assert_eq!(r.references[2].resolution.target, Some(sp(40, 43)));
}

#[test]
fn enum_variants_keep_their_shapes() {
    let mut d = decl(DefKind::Enum, "Shape", sp(0, 90));
    d.members = vec![
        Member { name: "Empty".to_string(), shape: MemberShape::Unit },
        Member { name: "Rectangle".to_string(), shape: MemberShape::Positional(strings(&["f64", "f64"])) },
        Member { name: "Triangle".to_string(), shape: MemberShape::Named(strings(&["base", "height"])) },
    ];
    let r = run(vec![Event::Decl(d), Event::End]);
    assert_eq!(r.definitions.len(), 1);
    let m = &r.definitions[0].decl.members;
    assert_eq!(m.len(), 3);
    assert!(matches!(m[0].shape, MemberShape::Unit));
    match &m[1].shape {
        MemberShape::Positional(v) => assert_eq!(v.len(), 2),
        _ => panic!("expected positional data"),
    }
    match &m[2].shape {
        MemberShape::Named(v) => assert_eq!(v, &strings(&["base", "height"])),
        _ => panic!("expected named fields"),
    }
}

#[test]
fn shadowing_ends_with_the_block() {
    let r = run(vec![
        Event::Decl(decl(DefKind::Constant, "limit", sp(0, 10))),
        Event::End,
        Event::Block,
        bind("limit", sp(20, 25)),
        name_use(&["limit"], sp(30, 35)),
        Event::End,
        name_use(&["limit"], sp(40, 45)),
        name_use(&["other"], sp(46, 50)),
    ]);
    assert_eq!(r.references[0].resolution.target, Some(sp(20, 25)));
    assert_eq!(r.references[1].resolution.class, Classification::Local);
    assert_eq!(r.references[1].resolution.target, Some(sp(0, 10)));
    assert_eq!(r.references[2].resolution.class, Classification::Unresolved);
}

#[test]
fn default_trait_method_is_defined_once() {
    let mut t = decl(DefKind::Trait, "Printable", sp(0, 60));
    t.supertraits = strings(&["Display"]);
    let r = run(vec![
        Event::Decl(decl(DefKind::Struct, "Document", sp(0, 0))),
        Event::End,
        Event::Decl(t),
        Event::Decl(decl(DefKind::Function, "display", sp(10, 50))),
        Event::End,
        Event::End,
        Event::Decl(decl(DefKind::Impl, "Document", sp(70, 100))),
        Event::End,
        method("display", sp(110, 117)),
    ]);
    assert_eq!(r.definitions.len(), 4);
    let displays = r.definitions.iter().filter(|d| d.decl.name == "display").count();
    assert_eq!(displays, 1);
    assert_eq!(r.definitions[2].parent, Some(sp(0, 60)));
    assert_eq!(r.definitions[1].decl.supertraits, strings(&["Display"]));
    assert_eq!(r.references[0].resolution.class, Classification::Local);
    assert_eq!(r.references[0].resolution.target, Some(sp(10, 50)));
}

#[test]
fn impl_methods_point_to_their_subject_type() {
    let r = run(vec![
        Event::Decl(decl(DefKind::Struct, "Person", sp(0, 20))),
        Event::End,
        Event::Decl(decl(DefKind::Impl, "Person", sp(30, 90))),
        Event::Decl(decl(DefKind::Function, "new", sp(40, 80))),
        Event::End,
        Event::End,
        Event::Decl(decl(DefKind::Impl, "Remote", sp(100, 140))),
        Event::Decl(decl(DefKind::Function, "go", sp(110, 130))),
        Event::End,
        Event::End,
    ]);
    assert_eq!(r.definitions.len(), 5);
    assert_eq!(r.definitions[2].parent, Some(sp(0, 20)));
    assert_eq!(r.definitions[4].parent, None);
}

#[test]
fn builtins_classify_as_builtin() {
    let r = run(vec![
        name_use(&["Option"], sp(0, 6)),
        name_use(&["Some"], sp(7, 11)),
        name_use(&["Vec"], sp(12, 15)),
        name_use(&["String", "from"], sp(16, 28)),
        name_use(&["println"], sp(29, 36)),
        method("clone", sp(37, 42)),
        method("iter", sp(43, 47)),
        method("collect", sp(48, 55)),
    ]);
    assert_eq!(r.references.len(), 8);
    for rf in &r.references {
        assert_eq!(rf.resolution.class, Classification::Builtin);
        assert_eq!(rf.resolution.target, None);
    }
}

#[test]
fn local_type_shadows_builtin_name() {
    let r = run(vec![
        Event::Decl(decl(DefKind::Struct, "Option", sp(0, 10))),
        Event::End,
        name_use(&["Option"], sp(20, 26)),
    ]);
    assert_eq!(r.references[0].resolution.class, Classification::Local);
}

#[test]
fn std_paths_are_never_local() {
    let r = run(vec![
        Event::Import(Import { name: "io".to_string(), root: "std".to_string() }),
        Event::Import(Import { name: "serde".to_string(), root: "serde".to_string() }),
        name_use(&["std", "f64", "consts", "PI"], sp(0, 10)),
        name_use(&["io", "stdout"], sp(11, 20)),
        name_use(&["serde", "Serialize"], sp(21, 30)),
        name_use(&["nowhere", "thing"], sp(31, 40)),
    ]);
    assert_eq!(r.references[0].resolution.class, Classification::Builtin);
    assert_eq!(r.references[1].resolution.class, Classification::Builtin);
    assert_eq!(r.references[2].resolution.class, Classification::External);
    assert_eq!(r.references[3].resolution.class, Classification::Unresolved);
}

#[test]
fn module_qualified_call_resolves_to_module_item() {
    let r = run(vec![
        Event::Decl(decl(DefKind::Module, "helpers", sp(0, 50))),
        Event::Decl(decl(DefKind::Function, "format_name", sp(10, 40))),
        Event::End,
        Event::End,
        name_use(&["helpers", "format_name"], sp(60, 80)),
        name_use(&["format_name"], sp(81, 92)),
    ]);
    assert_eq!(r.definitions[1].parent, Some(sp(0, 50)));
    assert_eq!(r.references[0].resolution.class, Classification::Local);
    assert_eq!(r.references[0].resolution.target, Some(sp(10, 40)));
    assert_eq!(r.references[1].resolution.class, Classification::Unresolved);
}

#[test]
fn doc_comments_attach_through_attributes_only() {
    let mut g = decl(DefKind::Struct, "Borrowed", sp(50, 80));
    g.generics = vec![Generic { name: "a".to_string(), bound: GenericBound::Lifetime }];
    g.visibility = Visibility::Public;
    let r = run(vec![
        Event::Doc("Application status.".to_string()),
        Event::Attribute,
        Event::Decl(decl(DefKind::Enum, "AppStatus", sp(0, 40))),
        Event::End,
        Event::Doc("stray".to_string()),
        Event::Other,
        Event::Decl(g),
        Event::End,
        Event::Doc("first".to_string()),
        Event::Doc("second".to_string()),
        Event::Decl(decl(DefKind::TypeAlias, "AppName", sp(90, 100))),
        Event::End,
    ]);
    assert_eq!(r.definitions[0].doc, strings(&["Application status."]));
    assert!(r.definitions[1].doc.is_empty());
    assert_eq!(r.definitions[1].decl.visibility, Visibility::Public);
    assert!(matches!(r.definitions[1].decl.generics[0].bound, GenericBound::Lifetime));
    assert_eq!(r.definitions[2].doc, strings(&["first", "second"]));
}

#[test]
fn keywords_and_unknown_nodes_are_skipped() {
    let r = run(vec![
        Event::Unknown,
        Event::Decl(decl(DefKind::Function, "inner", sp(5, 10))),
        Event::End,
        Event::End,
        name_use(&["self"], sp(20, 24)),
        Event::End,
        name_use(&["inner"], sp(30, 35)),
    ]);
    assert_eq!(r.definitions.len(), 1);
    assert_eq!(r.references.len(), 1);
    assert_eq!(r.references[0].resolution.class, Classification::Unresolved);
}

#[test]
fn indexing_twice_gives_the_same_report() {
    let a = run(shadowing_events());
    let b = run(shadowing_events());
    assert_eq!(format!("{:?}", a.definitions), format!("{:?}", b.definitions));
    assert_eq!(format!("{:?}", a.references), format!("{:?}", b.references));
}

#[test]
fn missing_profile_fails_the_file() {
    let profiles = vec![rust()];
    let r = index_file(&profiles, &"go".to_string(), "a.go".to_string(), shadowing_events());
    assert!(matches!(r, Err(IndexError::ProfileMissing)));
    let ok = index_file(&profiles, &"rust".to_string(), "a.rs".to_string(), shadowing_events()).unwrap();
    assert_eq!(ok.file, "a.rs");
    assert_eq!(ok.definitions.len(), 2);
}

#[test]
fn scope_stack_push_pop_bind_lookup() {
    let mut s = ScopeStack::new();
    let n = "x".to_string();
    assert_eq!(s.lookup(&n), None);
    s.bind(n.clone(), sp(1, 2));
    s.push();
    s.bind(n.clone(), sp(3, 4));
    assert_eq!(s.lookup(&n), Some(sp(3, 4)));
    assert!(s.pop());
    assert_eq!(s.lookup(&n), Some(sp(1, 2)));
    assert!(!s.pop());
    assert_eq!(s.depth(), 1);
}

#[test]
fn classify_path_directly() {
    let p = rust();
    let s = ScopeStack::new();
    let members = vec![ModuleMember { module: "m".to_string(), name: "f".to_string(), site: sp(2, 3) }];
    let r = p.classify_path(&s, &Vec::new(), &members, &strings(&["m", "f"]));
    assert_eq!(r.class, Classification::Local);
    assert_eq!(r.target, Some(sp(2, 3)));
    assert_eq!(p.classify_path(&s, &Vec::new(), &members, &Vec::new()).class, Classification::Unresolved);
}

#[test]
fn span_relations() {
    assert!(sp(0, 10).overlaps(&sp(5, 15)));
    assert!(!sp(0, 10).overlaps(&sp(10, 15)));
    assert!(sp(0, 10).encloses(&sp(2, 8)));
    assert!(!sp(2, 8).encloses(&sp(0, 10)));
}

#[test]
fn declarations_that_break_nesting_are_skipped() {
    let r = run(vec![
        Event::Decl(decl(DefKind::Struct, "A", sp(0, 20))),
        Event::End,
        Event::Decl(decl(DefKind::Struct, "Overlapping", sp(10, 30))),
        Event::End,
        Event::Decl(decl(DefKind::Module, "m", sp(40, 60))),
        Event::Decl(decl(DefKind::Function, "escapes", sp(50, 70))),
        Event::End,
        Event::Decl(decl(DefKind::Function, "inside", sp(45, 55))),
        Event::End,
        Event::End,
        name_use(&["Overlapping"], sp(80, 90)),
    ]);
    let names: Vec<&str> = r.definitions.iter().map(|d| d.decl.name.as_str()).collect();
    assert_eq!(names, vec!["A", "m", "inside"]);
    for i in 0..r.definitions.len() {
        for j in (i + 1)..r.definitions.len() {
            let (a, b) = (r.definitions[i].decl.span, r.definitions[j].decl.span);
            assert!(!a.overlaps(&b) || a.encloses(&b));
        }
    }
    assert_eq!(r.references[0].resolution.class, Classification::Unresolved);
}
