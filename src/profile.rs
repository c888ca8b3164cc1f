use vstd::prelude::*;
use crate::scope::{Binding, ScopeStack, find_last, frame_lookup, stack_lookup};
use crate::span::Span;

verus! {

/// The static table of one language: its built-in names, its keywords, and the
/// root segments of its standard namespace.
pub struct LanguageProfile {
    pub language: String,
    pub builtins: Vec<String>,
    pub keywords: Vec<String>,
    pub std_roots: Vec<String>,
}

/// Where a referenced name comes from.
#[derive(Clone, Copy, Debug, PartialEq, Eq, Structural)]
pub enum Classification {
    Local,
    Builtin,
    External,
    Unresolved,
}

/// A classification, and for a local name the site of the binding it resolves to.
#[derive(Clone, Copy, Debug, PartialEq, Eq, Structural)]
pub struct Resolution {
    pub class: Classification,
    pub target: Option<Span>,
}

/// A name brought in by an import, with the first segment of the imported path.
#[derive(Clone, Debug)]
pub struct Import {
    pub name: String,
    pub root: String,
}

/// An item declared directly inside a module of the file.
#[derive(Clone, Debug)]
pub struct ModuleMember {
    pub module: String,
    pub name: String,
    pub site: Span,
}

pub open spec fn has_name(v: Seq<String>, n: Seq<char>) -> bool {
    exists|i: int| 0 <= i < v.len() && v[i]@ == n
}

/// The root of the most recent import of `name`.
pub open spec fn import_root(imports: Seq<Import>, name: Seq<char>) -> Option<Seq<char>>
    decreases imports.len(),
{
    if imports.len() == 0 {
        None
    } else if imports.last().name@ == name {
        Some(imports.last().root@)
    } else {
        import_root(imports.drop_last(), name)
    }
}

/// The site of the most recent item `name` declared in module `module`.
pub open spec fn module_lookup(members: Seq<ModuleMember>, module: Seq<char>, name: Seq<char>) -> Option<Span>
    decreases members.len(),
{
    if members.len() == 0 {
        None
    } else if members.last().module@ == module && members.last().name@ == name {
        Some(members.last().site)
    } else {
        module_lookup(members.drop_last(), module, name)
    }
}

pub open spec fn local(site: Span) -> Resolution {
    Resolution { class: Classification::Local, target: Some(site) }
}

pub open spec fn unbound(class: Classification) -> Resolution {
    Resolution { class, target: None }
}

/// An imported name is built in when its import starts at the standard namespace, external otherwise.
pub open spec fn classify_imported(p: LanguageProfile, imports: Seq<Import>, name: Seq<char>) -> Resolution {
    match import_root(imports, name) {
        Some(root) => if has_name(p.std_roots@, root) {
            unbound(Classification::Builtin)
        } else {
            unbound(Classification::External)
        },
        None => unbound(Classification::Unresolved),
    }
}

/// The classification ladder: local bindings first, then built-ins, then imports.
/// A qualified path first tries the named module's own items, then its first segment.
pub open spec fn classify_path_spec(
    p: LanguageProfile,
    frames: Seq<Seq<Binding>>,
    imports: Seq<Import>,
    members: Seq<ModuleMember>,
    path: Seq<String>,
) -> Resolution {
    if path.len() == 0 {
        unbound(Classification::Unresolved)
    } else if path.len() == 1 {
        match stack_lookup(frames, path[0]@) {
            Some(s) => local(s),
            None => if has_name(p.builtins@, path[0]@) {
                unbound(Classification::Builtin)
            } else {
                classify_imported(p, imports, path[0]@)
            },
        }
    } else {
        match module_lookup(members, path[0]@, path.last()@) {
            Some(s) => local(s),
            None => match stack_lookup(frames, path[0]@) {
                Some(s) => local(s),
                None => if has_name(p.std_roots@, path[0]@) || has_name(p.builtins@, path[0]@) {
                    unbound(Classification::Builtin)
                } else {
                    classify_imported(p, imports, path[0]@)
                },
            },
        }
    }
}

/// A method call resolves to a method declared in the file, else to a built-in method.
pub open spec fn classify_method_spec(p: LanguageProfile, methods: Seq<Binding>, name: Seq<char>) -> Resolution {
    match frame_lookup(methods, name) {
        Some(s) => local(s),
        None => if has_name(p.builtins@, name) {
            unbound(Classification::Builtin)
        } else {
            unbound(Classification::Unresolved)
        },
    }
}

/// A built-in name that nothing in the file binds classifies as built-in, whether used
/// alone or as the first segment of a path that names no local module item.
pub proof fn lemma_builtin_name(
    p: LanguageProfile,
    frames: Seq<Seq<Binding>>,
    imports: Seq<Import>,
    members: Seq<ModuleMember>,
    path: Seq<String>,
)
    requires
        path.len() >= 1,
        has_name(p.builtins@, path[0]@),
        stack_lookup(frames, path[0]@) is None,
        path.len() > 1 ==> module_lookup(members, path[0]@, path.last()@) is None,
    ensures
        classify_path_spec(p, frames, imports, members, path).class == Classification::Builtin,
{
}

/// A built-in method that the file does not declare classifies as built-in.
pub proof fn lemma_builtin_method(p: LanguageProfile, methods: Seq<Binding>, name: Seq<char>)
    requires
        has_name(p.builtins@, name),
        frame_lookup(methods, name) is None,
    ensures
        classify_method_spec(p, methods, name).class == Classification::Builtin,
{
}

/// A path through the standard namespace is never local when nothing in the file
/// binds its first segment.
pub proof fn lemma_std_path_not_local(
    p: LanguageProfile,
    frames: Seq<Seq<Binding>>,
    imports: Seq<Import>,
    members: Seq<ModuleMember>,
    path: Seq<String>,
)
    requires
        path.len() > 1,
        has_name(p.std_roots@, path[0]@),
        stack_lookup(frames, path[0]@) is None,
        module_lookup(members, path[0]@, path.last()@) is None,
    ensures
        classify_path_spec(p, frames, imports, members, path).class != Classification::Local,
        classify_path_spec(p, frames, imports, members, path).class == Classification::Builtin
            || classify_path_spec(p, frames, imports, members, path).class == Classification::External,
{
}

pub fn contains_name(v: &Vec<String>, n: &String) -> (r: bool)
    ensures
        r == has_name(v@, n@),
{
    let mut i: usize = 0;
    while i < v.len()
        invariant
            i <= v@.len(),
            forall|k: int| 0 <= k < i ==> v@[k]@ != n@,
        decreases v.len() - i,
    {
        if v[i] == *n {
            return true;
        }
        i = i + 1;
    }
    false
}

pub fn find_import<'a>(imports: &'a Vec<Import>, name: &String) -> (r: Option<&'a String>)
    ensures
        match r {
            Some(root) => import_root(imports@, name@) == Some(root@),
            None => import_root(imports@, name@) is None,
        },
{
    let mut j: usize = imports.len();
    assert(imports@.take(j as int) =~= imports@);
    while j > 0
        invariant
            j <= imports@.len(),
            import_root(imports@, name@) == import_root(imports@.take(j as int), name@),
        decreases j,
    {
        assert(imports@.take(j as int).drop_last() =~= imports@.take(j - 1));
        if imports[j - 1].name == *name {
            return Some(&imports[j - 1].root);
        }
        j = j - 1;
    }
    assert(imports@.take(0) =~= Seq::<Import>::empty());
    None
}

pub fn find_member(members: &Vec<ModuleMember>, module: &String, name: &String) -> (r: Option<Span>)
    ensures
        r == module_lookup(members@, module@, name@),
{
    let mut j: usize = members.len();
    assert(members@.take(j as int) =~= members@);
    while j > 0
        invariant
            j <= members@.len(),
            module_lookup(members@, module@, name@) == module_lookup(members@.take(j as int), module@, name@),
        decreases j,
    {
        assert(members@.take(j as int).drop_last() =~= members@.take(j - 1));
        if members[j - 1].module == *module && members[j - 1].name == *name {
            return Some(members[j - 1].site);
        }
        j = j - 1;
    }
    assert(members@.take(0) =~= Seq::<ModuleMember>::empty());
    None
}

impl LanguageProfile {
    pub fn is_builtin(&self, name: &String) -> (r: bool)
        ensures
            r == has_name(self.builtins@, name@),
    {
        contains_name(&self.builtins, name)
    }

    pub fn is_keyword(&self, name: &String) -> (r: bool)
        ensures
            r == has_name(self.keywords@, name@),
    {
        contains_name(&self.keywords, name)
    }

    pub fn is_std_root(&self, name: &String) -> (r: bool)
        ensures
            r == has_name(self.std_roots@, name@),
    {
        contains_name(&self.std_roots, name)
    }

    fn classify_imported(&self, imports: &Vec<Import>, name: &String) -> (r: Resolution)
        ensures
            r == classify_imported(*self, imports@, name@),
    {
        match find_import(imports, name) {
            Some(root) => if self.is_std_root(root) {
                Resolution { class: Classification::Builtin, target: None }
            } else {
                Resolution { class: Classification::External, target: None }
            },
            None => Resolution { class: Classification::Unresolved, target: None },
        }
    }

    /// Classifies a (possibly qualified) name used at a point where `scopes` are live.
    pub fn classify_path(
        &self,
        scopes: &ScopeStack,
        imports: &Vec<Import>,
        members: &Vec<ModuleMember>,
        path: &Vec<String>,
    ) -> (r: Resolution)
        ensures
            r == classify_path_spec(*self, scopes@, imports@, members@, path@),
    {
        if path.len() == 0 {
            return Resolution { class: Classification::Unresolved, target: None };
        }
        let head = &path[0];
        if path.len() == 1 {
            match scopes.lookup(head) {
                Some(s) => Resolution { class: Classification::Local, target: Some(s) },
                None => if self.is_builtin(head) {
                    Resolution { class: Classification::Builtin, target: None }
                } else {
                    self.classify_imported(imports, head)
                },
            }
        } else {
            match find_member(members, head, &path[path.len() - 1]) {
                Some(s) => Resolution { class: Classification::Local, target: Some(s) },
                None => match scopes.lookup(head) {
                    Some(s) => Resolution { class: Classification::Local, target: Some(s) },
                    None => if self.is_std_root(head) || self.is_builtin(head) {
                        Resolution { class: Classification::Builtin, target: None }
                    } else {
                        self.classify_imported(imports, head)
                    },
                },
            }
        }
    }

    /// Classifies a method called on a value.
    pub fn classify_method(&self, methods: &Vec<Binding>, name: &String) -> (r: Resolution)
        ensures
            r == classify_method_spec(*self, methods@, name@),
    {
        match find_last(methods, name) {
            Some(s) => Resolution { class: Classification::Local, target: Some(s) },
            None => if self.is_builtin(name) {
                Resolution { class: Classification::Builtin, target: None }
            } else {
                Resolution { class: Classification::Unresolved, target: None }
            },
        }
    }
}

} // verus!
