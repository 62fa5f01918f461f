//! Capabilities consumed by the renderer: path resolution between render
//! positions, symbol-href lookup, external-module resolution and optional URL
//! rewriting, bundled into a render context created once per render call.

use vstd::prelude::*;
use vstd::string::StringSliceAdditionalSpecFns;

use crate::bytes::{lit, push_all, str_bytes, sub_vec};
use crate::graph::{
    has_symbol, spec_has_symbol, spec_position_file, DocGraph, ModuleId, ModuleIdView, Symbol,
    UrlResolveKind, UrlResolveKindView,
};

verus! {

/// What the renderer asks of its host: computing URLs between render
/// positions, resolving symbols it does not know locally, and optionally
/// rewriting URLs during sanitization. Each executable method is pinned to a
/// spec-level twin, so contracts downstream stay exact for any implementation.
pub trait HrefResolver {
    /// Spec twin of [`Self::resolve_path`].
    spec fn resolve_path_spec(&self, current: UrlResolveKindView, target: UrlResolveKindView) -> Seq<
        u8,
    >;

    /// Spec twin of [`Self::resolve_global_symbol`].
    spec fn resolve_global_symbol_spec(&self, symbol: Seq<u8>) -> Option<Seq<u8>>;

    /// Spec twin of [`Self::resolve_external_module`].
    spec fn resolve_external_module_spec(&self, module: Seq<u8>, symbol: Option<Seq<u8>>) -> Option<
        (Seq<u8>, Seq<u8>),
    >;

    /// Spec twin of [`Self::rewrite_url`].
    spec fn rewrite_url_spec(&self, file: Option<ModuleIdView>, url: Seq<char>) -> Option<
        Seq<char>,
    >;

    /// A relative URL leading from `current` to `target`.
    fn resolve_path(&self, current: &UrlResolveKind, target: &UrlResolveKind) -> (r: Vec<u8>)
        ensures
            r@ == self.resolve_path_spec(current@, target@),
    ;

    /// An URL for a symbol not found in the local graph, if the host knows one.
    fn resolve_global_symbol(&self, symbol: &[u8]) -> (r: Option<Vec<u8>>)
        ensures
            (match r {
                Some(v) => self.resolve_global_symbol_spec(symbol@) == Some(v@),
                None => self.resolve_global_symbol_spec(symbol@) is None,
            }),
    ;

    /// URL and title for a cross-package module reference, if the host knows
    /// the module.
    fn resolve_external_module(&self, module: &[u8], symbol: Option<&Vec<u8>>) -> (r: Option<
        (Vec<u8>, Vec<u8>),
    >)
        ensures
            (match r {
                Some(v) => self.resolve_external_module_spec(
                    module@,
                    (match symbol {
                        Some(s) => Some(s@),
                        None => None,
                    }),
                ) == Some((v.0@, v.1@)),
                None => self.resolve_external_module_spec(
                    module@,
                    (match symbol {
                        Some(s) => Some(s@),
                        None => None,
                    }),
                ) is None,
            }),
    ;

    /// Rewrites an URL met during sanitization, given the module currently
    /// being rendered; `None` leaves the URL unchanged.
    fn rewrite_url(&self, file: Option<&ModuleId>, url: &str) -> (r: Option<String>)
        ensures
            (match r {
                Some(v) => self.rewrite_url_spec(
                    (match file {
                        Some(m) => Some(m@),
                        None => None,
                    }),
                    url@,
                ) == Some(v@),
                None => self.rewrite_url_spec(
                    (match file {
                        Some(m) => Some(m@),
                        None => None,
                    }),
                    url@,
                ) is None,
            }),
    ;
}

/// True when the resolver never rewrites URLs; sanitization is then a fixed
/// function of its input.
pub open spec fn spec_no_rewrite<R: HrefResolver>(r: &R) -> bool {
    forall|f: Option<ModuleIdView>, u: Seq<char>| r.rewrite_url_spec(f, u) is None
}

/// The read-only handle bundling everything one render invocation needs: the
/// documentation graph, the symbols of the page being rendered, the current
/// render position and the host's resolver.
pub struct RenderContext<'a, R: HrefResolver> {
    pub graph: &'a DocGraph,
    pub current_nodes: &'a Vec<Symbol>,
    pub current: UrlResolveKind,
    pub resolver: &'a R,
}

/// Symbol-href lookup: a symbol named by the raw link string in the current
/// page's symbols resolves to its own page; everything else is handed to the
/// host's global-symbol resolver.
pub open spec fn spec_lookup_symbol_href<R: HrefResolver>(
    r: &R,
    nodes: Seq<Symbol>,
    current: UrlResolveKindView,
    link: Seq<u8>,
) -> Option<Seq<u8>> {
    match spec_position_file(current) {
        Some(f) => {
            if spec_has_symbol(nodes, link) {
                Some(
                    r.resolve_path_spec(
                        current,
                        UrlResolveKindView::Symbol { file: f, symbol: link },
                    ),
                )
            } else {
                r.resolve_global_symbol_spec(link)
            }
        },
        None => r.resolve_global_symbol_spec(link),
    }
}

impl<'a, R: HrefResolver> RenderContext<'a, R> {
    pub fn new(
        graph: &'a DocGraph,
        current_nodes: &'a Vec<Symbol>,
        current: UrlResolveKind,
        resolver: &'a R,
    ) -> (r: RenderContext<'a, R>)
        ensures
            r.graph == graph,
            r.current_nodes == current_nodes,
            r.current@ == current@,
            r.resolver == resolver,
    {
        RenderContext { graph, current_nodes, current, resolver }
    }

    /// Resolves a raw link string against the current page's symbols, falling
    /// back to the host's global-symbol resolver.
    pub fn lookup_symbol_href(&self, link: &[u8]) -> (r: Option<Vec<u8>>)
        ensures
            (match r {
                Some(v) => spec_lookup_symbol_href(
                    self.resolver,
                    self.current_nodes@,
                    self.current@,
                    link@,
                ) == Some(v@),
                None => spec_lookup_symbol_href(
                    self.resolver,
                    self.current_nodes@,
                    self.current@,
                    link@,
                ) is None,
            }),
    {
        match self.current.get_file() {
            Some(f) => {
                if has_symbol(self.current_nodes, link) {
                    let target = UrlResolveKind::Symbol {
                        file: f.duplicate(),
                        symbol: sub_vec(link, 0, link.len()),
                    };
                    proof {
                        assert(link@.subrange(0, link@.len() as int) =~= link@);
                    }
                    Some(self.resolver.resolve_path(&self.current, &target))
                } else {
                    self.resolver.resolve_global_symbol(link)
                }
            },
            None => self.resolver.resolve_global_symbol(link),
        }
    }
}

/// Number of occurrences of byte `b` in `s`.
pub open spec fn spec_count_byte(s: Seq<u8>, b: u8) -> nat
    decreases s.len(),
{
    if s.len() == 0 {
        0
    } else {
        spec_count_byte(s.drop_last(), b) + (if s.last() == b {
            1nat
        } else {
            0nat
        })
    }
}

/// `s` repeated `n` times.
pub open spec fn spec_repeat(s: Seq<u8>, n: nat) -> Seq<u8>
    decreases n,
{
    if n == 0 {
        Seq::empty()
    } else {
        spec_repeat(s, (n - 1) as nat) + s
    }
}

/// How many `../` components lead from `current` back to the output root.
pub open spec fn spec_backs(current: UrlResolveKindView) -> Seq<u8> {
    match current {
        UrlResolveKindView::Root => Seq::empty(),
        UrlResolveKindView::AllSymbols => lit("../"),
        UrlResolveKindView::File { file } => spec_repeat(
            lit("../"),
            spec_count_byte(file.path, 47) + 2,
        ),
        UrlResolveKindView::Symbol { file, .. } => spec_repeat(
            lit("../"),
            spec_count_byte(file.path, 47) + 2,
        ),
    }
}

/// The root-relative page path of `target`.
pub open spec fn spec_target_page(target: UrlResolveKindView) -> Seq<u8> {
    match target {
        UrlResolveKindView::Root => lit("./index.html"),
        UrlResolveKindView::AllSymbols => lit("./all_symbols.html"),
        UrlResolveKindView::File { file } => lit("./") + file.path + lit("/index.html"),
        UrlResolveKindView::Symbol { file, symbol } => lit("./") + file.path + lit("/~/") + symbol
            + lit(".html"),
    }
}

/// What [`PathResolver`] computes: back up from the current page to the
/// output root, then descend to the target's page.
pub open spec fn spec_href_path_resolve(
    current: UrlResolveKindView,
    target: UrlResolveKindView,
) -> Seq<u8> {
    spec_backs(current) + spec_target_page(target)
}

/// The library's relative path resolver between generated pages: a module's
/// page lives at `<path>/index.html`, a symbol's page at
/// `<path>/~/<symbol>.html`.
pub struct PathResolver;

fn count_byte(s: &[u8], b: u8) -> (r: usize)
    ensures
        r == spec_count_byte(s@, b),
{
    let mut i: usize = 0;
    let mut n: usize = 0;
    while i < s.len()
        invariant
            0 <= i <= s@.len(),
            n <= i,
            n == spec_count_byte(s@.subrange(0, i as int), b),
        decreases s.len() - i,
    {
        proof {
            assert(s@.subrange(0, i + 1).drop_last() =~= s@.subrange(0, i as int));
            assert(s@.subrange(0, i + 1).last() == s@[i as int]);
        }
        if s[i] == b {
            n += 1;
        }
        i += 1;
    }
    proof {
        assert(s@.subrange(0, s@.len() as int) =~= s@);
    }
    n
}

fn push_repeat(out: &mut Vec<u8>, part: &[u8], n: usize)
    ensures
        final(out)@ == old(out)@ + spec_repeat(part@, n as nat),
{
    let mut k: usize = 0;
    while k < n
        invariant
            0 <= k <= n,
            out@ == old(out)@ + spec_repeat(part@, k as nat),
        decreases n - k,
    {
        push_all(out, part);
        k += 1;
    }
}

fn push_backs(out: &mut Vec<u8>, current: &UrlResolveKind)
    ensures
        final(out)@ == old(out)@ + spec_backs(current@),
{
    match current {
        UrlResolveKind::Root => {
            assert(old(out)@ + spec_backs(current@) =~= old(out)@);
        },
        UrlResolveKind::AllSymbols => {
            let part = str_bytes("../");
            push_all(out, part.as_slice());
        },
        UrlResolveKind::File { file } | UrlResolveKind::Symbol { file, .. } => {
            let part = str_bytes("../");
            let n = count_byte(file.path.as_slice(), 47);
            push_repeat(out, part.as_slice(), n);
            push_all(out, part.as_slice());
            push_all(out, part.as_slice());
            proof {
                let p = lit("../");
                let m = spec_count_byte(file.path@, 47);
                assert(spec_repeat(p, m + 2) == spec_repeat(p, m + 1) + p);
                assert(spec_repeat(p, m + 1) == spec_repeat(p, m) + p);
                assert(final(out)@ =~= old(out)@ + spec_repeat(p, m + 2));
            }
        },
    }
}

fn push_target_page(out: &mut Vec<u8>, target: &UrlResolveKind)
    ensures
        final(out)@ == old(out)@ + spec_target_page(target@),
{
    match target {
        UrlResolveKind::Root => {
            let part = str_bytes("./index.html");
            push_all(out, part.as_slice());
        },
        UrlResolveKind::AllSymbols => {
            let part = str_bytes("./all_symbols.html");
            push_all(out, part.as_slice());
        },
        UrlResolveKind::File { file } => {
            let part = str_bytes("./");
            push_all(out, part.as_slice());
            push_all(out, file.path.as_slice());
            let tail = str_bytes("/index.html");
            push_all(out, tail.as_slice());
            assert(final(out)@ =~= old(out)@ + spec_target_page(target@));
        },
        UrlResolveKind::Symbol { file, symbol } => {
            let part = str_bytes("./");
            push_all(out, part.as_slice());
            push_all(out, file.path.as_slice());
            let mid = str_bytes("/~/");
            push_all(out, mid.as_slice());
            push_all(out, symbol.as_slice());
            let tail = str_bytes(".html");
            push_all(out, tail.as_slice());
            assert(final(out)@ =~= old(out)@ + spec_target_page(target@));
        },
    }
}

impl HrefResolver for PathResolver {
    open spec fn resolve_path_spec(
        &self,
        current: UrlResolveKindView,
        target: UrlResolveKindView,
    ) -> Seq<u8> {
        spec_href_path_resolve(current, target)
    }

    open spec fn resolve_global_symbol_spec(&self, symbol: Seq<u8>) -> Option<Seq<u8>> {
        None
    }

    open spec fn resolve_external_module_spec(
        &self,
        module: Seq<u8>,
        symbol: Option<Seq<u8>>,
    ) -> Option<(Seq<u8>, Seq<u8>)> {
        None
    }

    open spec fn rewrite_url_spec(&self, file: Option<ModuleIdView>, url: Seq<char>) -> Option<
        Seq<char>,
    > {
        None
    }

    fn resolve_path(&self, current: &UrlResolveKind, target: &UrlResolveKind) -> (r: Vec<u8>) {
        let mut out: Vec<u8> = Vec::new();
        push_backs(&mut out, current);
        push_target_page(&mut out, target);
        assert(out@ =~= spec_href_path_resolve(current@, target@));
        out
    }

    fn resolve_global_symbol(&self, symbol: &[u8]) -> (r: Option<Vec<u8>>) {
        None
    }

    fn resolve_external_module(&self, module: &[u8], symbol: Option<&Vec<u8>>) -> (r: Option<
        (Vec<u8>, Vec<u8>),
    >) {
        None
    }

    fn rewrite_url(&self, file: Option<&ModuleId>, url: &str) -> (r: Option<String>) {
        None
    }
}

/// The URL the sanitizer should keep: what the rewriting capability returns,
/// or the URL unchanged when the resolver does not rewrite it.
pub fn rewrite_url_or_keep<R: HrefResolver>(
    resolver: &R,
    file: Option<&ModuleId>,
    url: &str,
) -> (r: String)
    ensures
        (match resolver.rewrite_url_spec(
            (match file {
                Some(m) => Some(m@),
                None => None,
            }),
            url@,
        ) {
            Some(v) => r@ == v,
            None => r@ == url@,
        }),
        spec_no_rewrite(resolver) ==> r@ == url@,
{
    match resolver.rewrite_url(file, url) {
        Some(v) => v,
        None => url.to_owned(),
    }
}

} // verus!
