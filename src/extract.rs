use vstd::prelude::*;
use crate::profile::{
    Classification, Import, LanguageProfile, ModuleMember, Resolution, classify_method_spec,
    classify_path_spec, has_name,
};
use crate::scope::{Binding, ScopeStack, bind_top, stack_lookup};
use crate::span::Span;

verus! {

#[derive(Clone, Copy, Debug, PartialEq, Eq, Structural)]
pub enum DefKind {
    Struct,
    Enum,
    Trait,
    Function,
    Impl,
    Constant,
    Static,
    TypeAlias,
    Module,
}

#[derive(Clone, Copy, Debug, PartialEq, Eq, Structural)]
pub enum Visibility {
    Public,
    Private,
}

/// What a generic parameter is bounded by; a lifetime parameter is recorded as such.
#[derive(Clone, Debug)]
pub enum GenericBound {
    Unbounded,
    Lifetime,
    Trait(String),
}

#[derive(Clone, Debug)]
pub struct Generic {
    pub name: String,
    pub bound: GenericBound,
}

/// The shape of a struct field or an enum variant.
#[derive(Clone, Debug)]
pub enum MemberShape {
    /// A struct field with its declared type text.
    Typed(String),
    /// A variant without data.
    Unit,
    /// A variant with positional data: one type text per position.
    Positional(Vec<String>),
    /// A variant with named fields.
    Named(Vec<String>),
}

#[derive(Clone, Debug)]
pub struct Member {
    pub name: String,
    pub shape: MemberShape,
}

/// A declaration as the parser reports it.
#[derive(Clone, Debug)]
pub struct Decl {
    pub kind: DefKind,
    /// The declared name; for an implementation block, the name of its subject type.
    pub name: String,
    pub span: Span,
    pub visibility: Visibility,
    pub generics: Vec<Generic>,
    pub members: Vec<Member>,
    pub supertraits: Vec<String>,
    /// For a type alias, the aliased type text, not expanded.
    pub aliased: Option<String>,
}

/// An identifier used outside a declaration's name slot.
#[derive(Clone, Debug)]
pub struct NameUse {
    /// The segments of the path as written; a method call has one segment.
    pub path: Vec<String>,
    pub span: Span,
    pub is_method: bool,
}

/// One step of the parser's walk over a file, in document order.
/// Every `Decl`, `Block` and `Unknown` is closed by a matching `End`.
#[derive(Clone, Debug)]
pub enum Event {
    /// A comment line.
    Doc(String),
    /// An attribute or annotation.
    Attribute,
    /// Opens a declaration and its body.
    Decl(Decl),
    /// Opens a nested block.
    Block,
    /// Opens a node whose kind the extractor does not recognise.
    Unknown,
    /// Closes the innermost open declaration, block or unknown node.
    End,
    /// A local binding (a `let`, a parameter, a pattern).
    Let(Binding),
    /// An import of a name.
    Import(Import),
    /// A use of a name.
    Use(NameUse),
    /// Any other token.
    Other,
}

/// One declared symbol.
#[derive(Clone, Debug)]
pub struct Definition {
    pub decl: Decl,
    /// The comment lines immediately above the declaration, in order.
    pub doc: Vec<String>,
    /// The enclosing definition; for a method of an implementation block, its subject type when local.
    pub parent: Option<Span>,
}

/// One use of a name and its classification.
#[derive(Clone, Debug)]
pub struct Reference {
    pub path: Vec<String>,
    pub span: Span,
    pub resolution: Resolution,
}

pub struct DefinitionView {
    pub decl: Decl,
    pub doc: Seq<String>,
    pub parent: Option<Span>,
}

pub struct ReferenceView {
    pub path: Seq<String>,
    pub span: Span,
    pub resolution: Resolution,
}

impl View for Definition {
    type V = DefinitionView;

    open spec fn view(&self) -> DefinitionView {
        DefinitionView { decl: self.decl, doc: self.doc@, parent: self.parent }
    }
}

impl View for Reference {
    type V = ReferenceView;

    open spec fn view(&self) -> ReferenceView {
        ReferenceView { path: self.path@, span: self.span, resolution: self.resolution }
    }
}

/// A node that is open during the walk: the definition it introduced, if any, and
/// the offset that no declaration inside it may end after.
#[derive(Clone, Copy, Debug, PartialEq, Eq, Structural)]
pub struct OpenNode {
    pub def: Option<usize>,
    pub limit: usize,
}

/// The state of a walk over one file.
pub struct WalkView {
    pub frames: Seq<Seq<Binding>>,
    pub open: Seq<OpenNode>,
    /// No declaration may start before this offset.
    pub floor: usize,
    pub defs: Seq<DefinitionView>,
    pub refs: Seq<ReferenceView>,
    pub pending: Seq<String>,
    pub imports: Seq<Import>,
    pub members: Seq<ModuleMember>,
    pub methods: Seq<Binding>,
}

pub open spec fn initial_walk() -> WalkView {
    WalkView {
        frames: seq![Seq::empty()],
        open: Seq::empty(),
        floor: 0,
        defs: Seq::empty(),
        refs: Seq::empty(),
        pending: Seq::empty(),
        imports: Seq::empty(),
        members: Seq::empty(),
        methods: Seq::empty(),
    }
}

/// The definition that directly encloses the current position, if any.
pub open spec fn enclosing(w: WalkView) -> Option<usize> {
    if w.open.len() == 0 {
        None
    } else {
        w.open.last().def
    }
}

pub open spec fn top_limit(w: WalkView) -> usize {
    if w.open.len() == 0 {
        usize::MAX
    } else {
        w.open.last().limit
    }
}

/// A declaration is taken only where its span fits the tree: well formed, inside the
/// enclosing declaration, and after every declaration already closed.
pub open spec fn fits(w: WalkView, d: Decl) -> bool {
    w.floor <= d.span.start && d.span.start <= d.span.end && d.span.end <= top_limit(w)
}

pub open spec fn skip_node(w: WalkView) -> WalkView {
    WalkView {
        frames: w.frames.push(Seq::empty()),
        open: w.open.push(OpenNode { def: None, limit: top_limit(w) }),
        pending: Seq::empty(),
        ..w
    }
}

pub open spec fn encloses_kind(w: WalkView, kind: DefKind) -> bool {
    match enclosing(w) {
        Some(i) => i < w.defs.len() && w.defs[i as int].decl.kind == kind,
        None => false,
    }
}

pub open spec fn parent_of(w: WalkView) -> Option<Span> {
    match enclosing(w) {
        Some(i) => if i >= w.defs.len() {
            None
        } else if w.defs[i as int].decl.kind == DefKind::Impl {
            stack_lookup(w.frames, w.defs[i as int].decl.name@)
        } else {
            Some(w.defs[i as int].decl.span)
        },
        None => None,
    }
}

pub open spec fn decl_step(w: WalkView, d: Decl) -> WalkView {
    let is_impl = d.kind == DefKind::Impl;
    let bound = Binding { name: d.name, site: d.span };
    let frames = if is_impl { w.frames } else { bind_top(w.frames, bound) };
    let methods = if d.kind == DefKind::Function && (encloses_kind(w, DefKind::Impl) || encloses_kind(w, DefKind::Trait)) {
        w.methods.push(bound)
    } else {
        w.methods
    };
    let members = if !is_impl && encloses_kind(w, DefKind::Module) {
        w.members.push(ModuleMember { module: w.defs[enclosing(w).unwrap() as int].decl.name, name: d.name, site: d.span })
    } else {
        w.members
    };
    WalkView {
        frames: frames.push(Seq::empty()),
        open: w.open.push(OpenNode { def: Some(w.defs.len() as usize), limit: d.span.end }),
        floor: d.span.start,
        defs: w.defs.push(DefinitionView { decl: d, doc: w.pending, parent: parent_of(w) }),
        pending: Seq::empty(),
        methods,
        members,
        ..w
    }
}

pub open spec fn resolve_use(p: LanguageProfile, w: WalkView, u: NameUse) -> Resolution {
    if u.is_method && u.path@.len() > 0 {
        classify_method_spec(p, w.methods, u.path@.last()@)
    } else {
        classify_path_spec(p, w.frames, w.imports, w.members, u.path@)
    }
}

/// A lone keyword (`self`, `Self`) is not a reference.
pub open spec fn is_keyword_use(p: LanguageProfile, u: NameUse) -> bool {
    !u.is_method && u.path@.len() == 1 && has_name(p.keywords@, u.path@[0]@)
}

pub open spec fn step(p: LanguageProfile, w: WalkView, e: Event) -> WalkView {
    match e {
        Event::Doc(line) => WalkView { pending: w.pending.push(line), ..w },
        Event::Attribute => w,
        Event::Decl(d) => if fits(w, d) {
            decl_step(w, d)
        } else {
            skip_node(w)
        },
        Event::Block | Event::Unknown => skip_node(w),
        Event::End => if w.open.len() == 0 {
            WalkView { pending: Seq::empty(), ..w }
        } else {
            WalkView {
                frames: if w.frames.len() > 1 { w.frames.drop_last() } else { w.frames },
                open: w.open.drop_last(),
                floor: if w.open.last().def is Some { w.open.last().limit } else { w.floor },
                pending: Seq::empty(),
                ..w
            }
        },
        Event::Let(b) => WalkView { frames: bind_top(w.frames, b), pending: Seq::empty(), ..w },
        Event::Import(i) => WalkView { imports: w.imports.push(i), pending: Seq::empty(), ..w },
        Event::Use(u) => if is_keyword_use(p, u) {
            WalkView { pending: Seq::empty(), ..w }
        } else {
            WalkView {
                refs: w.refs.push(ReferenceView { path: u.path@, span: u.span, resolution: resolve_use(p, w, u) }),
                pending: Seq::empty(),
                ..w
            }
        },
        Event::Other => WalkView { pending: Seq::empty(), ..w },
    }
}

/// The state after walking `events` from the start of a file.
pub open spec fn walk(p: LanguageProfile, events: Seq<Event>) -> WalkView
    decreases events.len(),
{
    if events.len() == 0 {
        initial_walk()
    } else {
        step(p, walk(p, events.drop_last()), events.last())
    }
}

pub proof fn lemma_walk_push(p: LanguageProfile, events: Seq<Event>, e: Event)
    ensures
        walk(p, events.push(e)) == step(p, walk(p, events), e),
{
    assert(events.push(e).drop_last() =~= events);
}

/// The outermost frame is never discarded.
pub proof fn lemma_walk_has_frame(p: LanguageProfile, events: Seq<Event>)
    ensures
        walk(p, events).frames.len() >= 1,
    decreases events.len(),
{
    if events.len() > 0 {
        lemma_walk_has_frame(p, events.drop_last());
    }
}

/// A name shadowed by a binding in a nested block resolves, inside the block, to that
/// binding; after the block ends it resolves as it did before the block was opened.
pub proof fn lemma_shadowing_in_block(p: LanguageProfile, events: Seq<Event>, b: Binding, u: NameUse)
    requires
        !u.is_method,
        u.path@.len() == 1,
        u.path@[0]@ == b.name@,
        !is_keyword_use(p, u),
    ensures
        ({
            let inside = events.push(Event::Block).push(Event::Let(b)).push(Event::Use(u));
            let after = inside.push(Event::End).push(Event::Use(u));
            let before = events.push(Event::Use(u));
            &&& walk(p, inside).refs.last().resolution == Resolution {
                class: Classification::Local,
                target: Some(b.site),
            }
            &&& walk(p, after).refs.last().resolution == walk(p, before).refs.last().resolution
        }),
{
    let w0 = walk(p, events);
    let e1 = events.push(Event::Block);
    let e2 = e1.push(Event::Let(b));
    let e3 = e2.push(Event::Use(u));
    let e4 = e3.push(Event::End);
    let e5 = e4.push(Event::Use(u));
    lemma_walk_push(p, events, Event::Block);
    lemma_walk_push(p, e1, Event::Let(b));
    lemma_walk_push(p, e2, Event::Use(u));
    lemma_walk_push(p, e3, Event::End);
    lemma_walk_push(p, e4, Event::Use(u));
    lemma_walk_push(p, events, Event::Use(u));
    lemma_walk_has_frame(p, events);
    crate::scope::lemma_shadow_in_nested_frame(w0.frames, b);
    assert(u.path@ =~= seq![u.path@[0]]);
    let w2 = walk(p, e2);
    assert(w2.frames == bind_top(w0.frames.push(Seq::empty()), b));
    assert(walk(p, e4).frames == w0.frames);
}

/// A method that only a trait declares, with a default body, yields exactly one
/// definition, attached to the trait; a block implementing that trait without
/// overriding it yields only its own definition. (The spans are laid out as in a
/// well-formed file: the method inside the trait, the block after it.)
pub proof fn lemma_default_method_defined_once(p: LanguageProfile, events: Seq<Event>, t: Decl, m: Decl, i: Decl)
    requires
        t.kind == DefKind::Trait,
        m.kind == DefKind::Function,
        i.kind == DefKind::Impl,
        walk(p, events).defs.len() + 3 <= usize::MAX,
        walk(p, events).floor <= t.span.start,
        t.span.start <= m.span.start <= m.span.end <= t.span.end,
        t.span.end <= i.span.start <= i.span.end <= top_limit(walk(p, events)),
    ensures
        ({
            let all = events.push(Event::Decl(t)).push(Event::Decl(m)).push(Event::End).push(Event::End)
                .push(Event::Decl(i)).push(Event::End);
            let before = walk(p, events).defs;
            let after = walk(p, all).defs;
            &&& after.len() == before.len() + 3
            &&& after.take(before.len() as int) == before
            &&& after[before.len() as int].decl == t
            &&& after[before.len() as int + 1].decl == m
            &&& after[before.len() as int + 1].parent == Some(t.span)
            &&& after[before.len() as int + 2].decl == i
        }),
{
    let e1 = events.push(Event::Decl(t));
    let e2 = e1.push(Event::Decl(m));
    let e3 = e2.push(Event::End);
    let e4 = e3.push(Event::End);
    let e5 = e4.push(Event::Decl(i));
    lemma_walk_push(p, events, Event::Decl(t));
    lemma_walk_push(p, e1, Event::Decl(m));
    lemma_walk_push(p, e2, Event::End);
    lemma_walk_push(p, e3, Event::End);
    lemma_walk_push(p, e4, Event::Decl(i));
    lemma_walk_push(p, e5, Event::End);
    let before = walk(p, events).defs;
    let w1 = walk(p, e1);
    assert(w1.defs == before.push(w1.defs.last()));
    assert(enclosing(w1) == Some(before.len() as usize));
    assert(w1.defs[before.len() as int].decl == t);
    assert(parent_of(w1) == Some(t.span));
    let w2 = walk(p, e2);
    assert(w2.defs == w1.defs.push(w2.defs.last()));
    assert(w2.defs.last().parent == Some(t.span));
    let after = walk(p, e5.push(Event::End)).defs;
    assert(after.len() == before.len() + 3);
    assert(after.take(before.len() as int) =~= before);
}

/// The definitions and references of one file, in document order.
pub struct FileReport {
    pub file: String,
    pub definitions: Vec<Definition>,
    pub references: Vec<Reference>,
}

pub struct FileReportView {
    pub file: Seq<char>,
    pub definitions: Seq<DefinitionView>,
    pub references: Seq<ReferenceView>,
}

impl View for FileReport {
    type V = FileReportView;

    open spec fn view(&self) -> FileReportView {
        FileReportView {
            file: self.file@,
            definitions: self.definitions@.map_values(|d: Definition| d@),
            references: self.references@.map_values(|r: Reference| r@),
        }
    }
}

/// The report on `file` that walking `events` under profile `p` yields.
pub open spec fn report_of(p: LanguageProfile, file: Seq<char>, events: Seq<Event>) -> FileReportView {
    let w = walk(p, events);
    FileReportView { file, definitions: w.defs, references: w.refs }
}

/// The walk over one file: the live scopes, the open nodes, and what has been recorded so far.
pub struct Walker {
    scopes: ScopeStack,
    open: Vec<OpenNode>,
    floor: usize,
    defs: Vec<Definition>,
    refs: Vec<Reference>,
    pending: Vec<String>,
    imports: Vec<Import>,
    members: Vec<ModuleMember>,
    methods: Vec<Binding>,
}

impl View for Walker {
    type V = WalkView;

    closed spec fn view(&self) -> WalkView {
        WalkView {
            frames: self.scopes@,
            open: self.open@,
            floor: self.floor,
            defs: self.defs@.map_values(|d: Definition| d@),
            refs: self.refs@.map_values(|r: Reference| r@),
            pending: self.pending@,
            imports: self.imports@,
            members: self.members@,
            methods: self.methods@,
        }
    }
}

impl Walker {
    pub closed spec fn wf(&self) -> bool {
        self.scopes.wf()
    }

    pub fn new() -> (r: Walker)
        ensures
            r@ == initial_walk(),
            r.wf(),
    {
        let r = Walker {
            scopes: ScopeStack::new(),
            open: Vec::new(),
            floor: 0,
            defs: Vec::new(),
            refs: Vec::new(),
            pending: Vec::new(),
            imports: Vec::new(),
            members: Vec::new(),
            methods: Vec::new(),
        };
        assert(r@.defs =~= Seq::empty());
        assert(r@.refs =~= Seq::empty());
        r
    }

    fn take_pending(&mut self) -> (doc: Vec<String>)
        ensures
            doc@ == old(self).pending@,
            final(self).pending@ == Seq::<String>::empty(),
            final(self).scopes == old(self).scopes,
            final(self).open == old(self).open,
            final(self).floor == old(self).floor,
            final(self).defs == old(self).defs,
            final(self).refs == old(self).refs,
            final(self).imports == old(self).imports,
            final(self).members == old(self).members,
            final(self).methods == old(self).methods,
    {
        let mut doc: Vec<String> = Vec::new();
        std::mem::swap(&mut doc, &mut self.pending);
        doc
    }

    fn enter_decl(&mut self, d: Decl)
        requires
            old(self).wf(),
        ensures
            final(self).wf(),
            final(self)@ == decl_step(old(self)@, d),
    {
        let ghost w = self@;
        let enc: Option<usize> = if self.open.len() == 0 {
            None
        } else {
            self.open[self.open.len() - 1].def
        };
        let mut enc_kind: Option<DefKind> = None;
        let mut parent: Option<Span> = None;
        if let Some(i) = enc {
            if i < self.defs.len() {
                enc_kind = Some(self.defs[i].decl.kind);
                if self.defs[i].decl.kind == DefKind::Impl {
                    parent = self.scopes.lookup(&self.defs[i].decl.name);
                } else {
                    parent = Some(self.defs[i].decl.span);
                }
                if self.defs[i].decl.kind == DefKind::Module && d.kind != DefKind::Impl {
                    let module = self.defs[i].decl.name.clone();
                    self.members.push(ModuleMember { module, name: d.name.clone(), site: d.span });
                }
            }
        }
        assert(parent == parent_of(w));
        assert(enc_kind == Some(DefKind::Impl) <==> encloses_kind(w, DefKind::Impl));
        assert(enc_kind == Some(DefKind::Trait) <==> encloses_kind(w, DefKind::Trait));
        if d.kind == DefKind::Function && (enc_kind == Some(DefKind::Impl) || enc_kind == Some(DefKind::Trait)) {
            self.methods.push(Binding { name: d.name.clone(), site: d.span });
        }
        if d.kind != DefKind::Impl {
            self.scopes.bind(d.name.clone(), d.span);
        }
        self.scopes.push();
        let n = self.defs.len();
        self.open.push(OpenNode { def: Some(n), limit: d.span.end });
        self.floor = d.span.start;
        let doc = self.take_pending();
        let ghost dv = Definition { decl: d, doc, parent }@;
        self.defs.push(Definition { decl: d, doc, parent });
        assert(self@.defs =~= w.defs.push(dv));
        assert(self@ == decl_step(w, d));
    }

    /// Ends the walk, handing over what it recorded.
    pub fn into_report(self, file: String) -> (r: FileReport)
        ensures
            r@.file == file@,
            r@.definitions == self@.defs,
            r@.references == self@.refs,
    {
        FileReport { file, definitions: self.defs, references: self.refs }
    }

    fn top_limit(&self) -> (r: usize)
        ensures
            r == top_limit(self@),
    {
        if self.open.len() == 0 {
            usize::MAX
        } else {
            self.open[self.open.len() - 1].limit
        }
    }

    fn skip_node(&mut self)
        requires
            old(self).wf(),
        ensures
            final(self).wf(),
            final(self)@ == skip_node(old(self)@),
    {
        let limit = self.top_limit();
        self.scopes.push();
        self.open.push(OpenNode { def: None, limit });
        self.take_pending();
    }

    /// Takes one event of the walk.
    pub fn step(&mut self, p: &LanguageProfile, e: Event)
        requires
            old(self).wf(),
        ensures
            final(self).wf(),
            final(self)@ == step(*p, old(self)@, e),
    {
        let ghost w = self@;
        match e {
            Event::Doc(line) => {
                self.pending.push(line);
            },
            Event::Attribute => {},
            Event::Decl(d) => {
                if self.floor <= d.span.start && d.span.start <= d.span.end && d.span.end <= self.top_limit() {
                    self.enter_decl(d);
                } else {
                    self.skip_node();
                }
            },
            Event::Block | Event::Unknown => {
                self.skip_node();
            },
            Event::End => {
                if self.open.len() > 0 {
                    self.scopes.pop();
                    let last = self.open.pop().unwrap();
                    if last.def.is_some() {
                        self.floor = last.limit;
                    }
                }
                self.take_pending();
            },
            Event::Let(b) => {
                self.scopes.bind(b.name, b.site);
                self.take_pending();
            },
            Event::Import(i) => {
                self.imports.push(i);
                self.take_pending();
            },
            Event::Use(u) => {
                let keyword = !u.is_method && u.path.len() == 1 && p.is_keyword(&u.path[0]);
                if !keyword {
                    let resolution = if u.is_method && u.path.len() > 0 {
                        p.classify_method(&self.methods, &u.path[u.path.len() - 1])
                    } else {
                        p.classify_path(&self.scopes, &self.imports, &self.members, &u.path)
                    };
                    let ghost rv = Reference { path: u.path, span: u.span, resolution }@;
                    self.refs.push(Reference { path: u.path, span: u.span, resolution });
                    assert(self@.refs =~= w.refs.push(rv));
                }
                self.take_pending();
            },
            Event::Other => {
                self.take_pending();
            },
        }
        assert(self@ == step(*p, w, e));
    }
}

} // verus!
