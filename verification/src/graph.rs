//! The documentation graph: module identifiers, documented symbols and their
//! attached documentation comments, plus the render-position type used for
//! relative-link computation.

use vstd::prelude::*;

verus! {

/// Spec-level twin of [`ModuleId`].
pub ghost struct ModuleIdView {
    pub path: Seq<u8>,
    pub name: Option<Seq<u8>>,
    pub is_main: bool,
}

/// Identifies one module (source file) of the documentation graph: a path-like
/// key, an optional human-readable display name, and a flag marking the main
/// entry module.
#[derive(Clone, Debug)]
pub struct ModuleId {
    pub path: Vec<u8>,
    pub name: Option<Vec<u8>>,
    pub is_main: bool,
}

impl View for ModuleId {
    type V = ModuleIdView;

    open spec fn view(&self) -> ModuleIdView {
        ModuleIdView {
            path: self.path@,
            name: (match self.name {
                Some(ref n) => Some(n@),
                None => None,
            }),
            is_main: self.is_main,
        }
    }
}

/// Display name at the spec level: the explicit name when given, otherwise the
/// path with one leading `/` removed.
pub open spec fn spec_display_name(m: ModuleIdView) -> Seq<u8> {
    match m.name {
        Some(n) => n,
        None => {
            if m.path.len() > 0 && m.path[0] == 47 {
                m.path.subrange(1, m.path.len() as int)
            } else {
                m.path
            }
        },
    }
}

impl ModuleId {
    pub fn new(path: Vec<u8>, name: Option<Vec<u8>>, is_main: bool) -> (r: ModuleId)
        ensures
            r@ == (ModuleIdView { path: path@, name: (match name { Some(n) => Some(n@), None => None }), is_main }),
    {
        let r = ModuleId { path, name, is_main };
        assert(r@ == (ModuleIdView {
            path: r.path@,
            name: (match r.name { Some(ref n) => Some(n@), None => None }),
            is_main: r.is_main,
        }));
        r
    }

    /// A deep copy whose view equals this one's; derived `Clone` says nothing
    /// to the verifier, so copies that contracts depend on go through here.
    pub fn duplicate(&self) -> (r: ModuleId)
        ensures
            r@ == self@,
    {
        let path = crate::bytes::sub_vec(self.path.as_slice(), 0, self.path.len());
        assert(path@ =~= self.path@);
        let name = match &self.name {
            Some(n) => {
                let c = crate::bytes::sub_vec(n.as_slice(), 0, n.len());
                assert(c@ =~= n@);
                Some(c)
            },
            None => None,
        };
        ModuleId { path, name, is_main: self.is_main }
    }

    /// The human-readable name shown for this module.
    pub fn display_name(&self) -> (r: Vec<u8>)
        ensures
            r@ == spec_display_name(self@),
    {
        match &self.name {
            Some(n) => {
                let mut out: Vec<u8> = Vec::new();
                crate::bytes::push_all(&mut out, n.as_slice());
                assert(out@ =~= n@);
                out
            },
            None => {
                if self.path.len() > 0 && self.path[0] == 47 {
                    crate::bytes::sub_vec(self.path.as_slice(), 1, self.path.len())
                } else {
                    crate::bytes::sub_vec(self.path.as_slice(), 0, self.path.len())
                }
            },
        }
    }
}

/// The kind of a documented symbol, as far as this pipeline distinguishes it.
#[derive(Clone, Copy, Debug, PartialEq, Eq, Structural)]
pub enum SymbolKind {
    ModuleDoc,
    Interface,
    Variable,
    Other,
}

/// One key-value-like annotation of a documentation comment.
#[derive(Clone, Debug)]
pub enum JsDocTag {
    Example { doc: Vec<u8> },
    Deprecated { doc: Option<Vec<u8>> },
    Other,
}

/// A parsed documentation comment: an optional free-text body and its tags.
#[derive(Clone, Debug)]
pub struct JsDoc {
    pub doc: Option<Vec<u8>>,
    pub tags: Vec<JsDocTag>,
}

impl JsDoc {
    pub fn empty() -> (r: JsDoc)
        ensures
            r.doc is None,
            r.tags@.len() == 0,
    {
        JsDoc { doc: None, tags: Vec::new() }
    }
}

/// What the pipeline reads of a variable declaration: its rendered type, when
/// one is attached.
#[derive(Clone, Debug)]
pub struct VariableDef {
    pub ts_type: Option<Vec<u8>>,
}

/// One documented symbol: a qualified name, a kind and a documentation
/// comment.
#[derive(Clone, Debug)]
pub struct Symbol {
    pub name: Vec<u8>,
    pub kind: SymbolKind,
    pub js_doc: JsDoc,
    pub variable_def: Option<VariableDef>,
}

impl Symbol {
    pub fn new(name: Vec<u8>, kind: SymbolKind) -> (r: Symbol)
        ensures
            r.name@ == name@,
            r.kind == kind,
            r.js_doc.doc is None,
            r.js_doc.tags@.len() == 0,
            r.variable_def is None,
    {
        Symbol { name, kind, js_doc: JsDoc::empty(), variable_def: None }
    }

    /// The fully qualified name this symbol is looked up by.
    pub fn get_qualified_name(&self) -> (r: &Vec<u8>)
        ensures
            r@ == self.name@,
    {
        &self.name
    }
}

/// One module of the graph together with its documented symbols, in display
/// order.
#[derive(Clone, Debug)]
pub struct ModuleEntry {
    pub id: ModuleId,
    pub nodes: Vec<Symbol>,
}

/// The documentation graph: an ordered sequence of modules with unique paths.
#[derive(Clone, Debug)]
pub struct DocGraph {
    pub modules: Vec<ModuleEntry>,
}

/// Uniqueness of module paths, the graph's invariant.
pub open spec fn spec_graph_wf(g: &DocGraph) -> bool {
    forall|i: int, j: int|
        0 <= i < j < g.modules@.len() ==> g.modules@[i].id.path@ != g.modules@[j].id.path@
}

/// Index of the first module whose path or display name equals `key`.
pub open spec fn spec_find_module(g: &DocGraph, key: Seq<u8>, from: int) -> Option<int>
    decreases g.modules@.len() - from,
{
    if from < 0 || from >= g.modules@.len() {
        None
    } else if g.modules@[from].id.path@ == key || spec_display_name(g.modules@[from].id@) == key {
        Some(from)
    } else {
        spec_find_module(g, key, from + 1)
    }
}

/// True when some symbol of `nodes` has qualified name `key`.
pub open spec fn spec_has_symbol(nodes: Seq<Symbol>, key: Seq<u8>) -> bool {
    exists|i: int| 0 <= i < nodes.len() && nodes[i].name@ == key
}

impl DocGraph {
    pub fn new() -> (r: DocGraph)
        ensures
            r.modules@.len() == 0,
            spec_graph_wf(&r),
    {
        DocGraph { modules: Vec::new() }
    }

    /// Adds a module; a module whose path is already present is refused, which
    /// keeps the graph's paths unique.
    pub fn add_module(&mut self, id: ModuleId, nodes: Vec<Symbol>) -> (r: bool)
        requires
            spec_graph_wf(old(self)),
        ensures
            spec_graph_wf(final(self)),
            r ==> final(self).modules@ == old(self).modules@.push(
                ModuleEntry { id, nodes },
            ),
            !r ==> final(self).modules@ == old(self).modules@,
    {
        let mut i: usize = 0;
        while i < self.modules.len()
            invariant
                0 <= i <= self.modules@.len(),
                forall|k: int| 0 <= k < i ==> self.modules@[k].id.path@ != id.path@,
                self.modules@ == old(self).modules@,
                spec_graph_wf(old(self)),
            decreases self.modules@.len() - i,
        {
            if crate::bytes::eq_bytes(self.modules[i].id.path.as_slice(), id.path.as_slice()) {
                assert(forall|a: int, b: int|
                    0 <= a < b < self.modules@.len() ==> self.modules@[a].id.path@
                        != self.modules@[b].id.path@) by {
                    assert(forall|a: int, b: int|
                        0 <= a < b < old(self).modules@.len() ==> old(self).modules@[a].id.path@
                            != old(self).modules@[b].id.path@);
                }
                return false;
            }
            i += 1;
        }
        let ghost before = self.modules@;
        self.modules.push(ModuleEntry { id, nodes });
        proof {
            assert(forall|a: int, b: int|
                0 <= a < b < before.len() ==> before[a].id.path@ != before[b].id.path@);
            assert(self.modules@ == before.push(self.modules@[before.len() as int]));
            assert(forall|a: int| 0 <= a < before.len() ==> self.modules@[a] == before[a]);
        }
        true
    }

    /// First module whose path or display name equals `key`.
    pub fn find_module(&self, key: &[u8]) -> (r: Option<usize>)
        ensures
            (match r {
                Some(u) => spec_find_module(self, key@, 0) == Some(u as int) && u
                    < self.modules@.len(),
                None => spec_find_module(self, key@, 0) is None,
            }),
    {
        let mut i: usize = 0;
        while i < self.modules.len()
            invariant
                0 <= i <= self.modules@.len(),
                spec_find_module(self, key@, 0) == spec_find_module(self, key@, i as int),
            decreases self.modules@.len() - i,
        {
            let hit_path = crate::bytes::eq_bytes(self.modules[i].id.path.as_slice(), key);
            let dn = self.modules[i].id.display_name();
            let hit_name = crate::bytes::eq_bytes(dn.as_slice(), key);
            if hit_path || hit_name {
                return Some(i);
            }
            i += 1;
        }
        None
    }
}

/// Looks for a symbol named `key` in `nodes`.
pub fn has_symbol(nodes: &Vec<Symbol>, key: &[u8]) -> (r: bool)
    ensures
        r == spec_has_symbol(nodes@, key@),
{
    let mut i: usize = 0;
    while i < nodes.len()
        invariant
            0 <= i <= nodes@.len(),
            forall|k: int| 0 <= k < i ==> nodes@[k].name@ != key@,
        decreases nodes@.len() - i,
    {
        if crate::bytes::eq_bytes(nodes[i].name.as_slice(), key) {
            return true;
        }
        i += 1;
    }
    false
}

/// Spec-level twin of [`UrlResolveKind`].
pub ghost enum UrlResolveKindView {
    Root,
    AllSymbols,
    File { file: ModuleIdView },
    Symbol { file: ModuleIdView, symbol: Seq<u8> },
}

/// Where in the generated output the current render happens: the root page,
/// the aggregate all-symbols page, a module page, or one symbol's page.
#[derive(Clone, Debug)]
pub enum UrlResolveKind {
    Root,
    AllSymbols,
    File { file: ModuleId },
    Symbol { file: ModuleId, symbol: Vec<u8> },
}

impl View for UrlResolveKind {
    type V = UrlResolveKindView;

    open spec fn view(&self) -> UrlResolveKindView {
        match self {
            UrlResolveKind::Root => UrlResolveKindView::Root,
            UrlResolveKind::AllSymbols => UrlResolveKindView::AllSymbols,
            UrlResolveKind::File { file } => UrlResolveKindView::File { file: file@ },
            UrlResolveKind::Symbol { file, symbol } => UrlResolveKindView::Symbol {
                file: file@,
                symbol: symbol@,
            },
        }
    }
}

/// The module a render position is anchored to, if any.
pub open spec fn spec_position_file(k: UrlResolveKindView) -> Option<ModuleIdView> {
    match k {
        UrlResolveKindView::Root => None,
        UrlResolveKindView::AllSymbols => None,
        UrlResolveKindView::File { file } => Some(file),
        UrlResolveKindView::Symbol { file, .. } => Some(file),
    }
}

impl UrlResolveKind {
    /// The module this position is anchored to, if any.
    pub fn get_file(&self) -> (r: Option<&ModuleId>)
        ensures
            (match r {
                Some(m) => spec_position_file(self@) == Some(m@),
                None => spec_position_file(self@) is None,
            }),
    {
        match self {
            UrlResolveKind::Root => None,
            UrlResolveKind::AllSymbols => None,
            UrlResolveKind::File { file } => Some(file),
            UrlResolveKind::Symbol { file, .. } => Some(file),
        }
    }
}

/// The position a module's own page resolves to: the root page for the main
/// module, the module's file page otherwise.
pub open spec fn spec_as_resolve_kind(m: ModuleIdView) -> UrlResolveKindView {
    if m.is_main {
        UrlResolveKindView::Root
    } else {
        UrlResolveKindView::File { file: m }
    }
}

impl ModuleId {
    /// The render position of this module's own page.
    pub fn as_resolve_kind(&self) -> (r: UrlResolveKind)
        ensures
            r@ == spec_as_resolve_kind(self@),
    {
        if self.is_main {
            UrlResolveKind::Root
        } else {
            UrlResolveKind::File { file: self.duplicate() }
        }
    }
}

} // verus!
