//! The cross-reference scanner: every `{@link TARGET}` / `{@linkcode TARGET}`
//! occurrence in raw markdown is replaced by a markdown link, inline code or
//! plain text, resolved against the documentation graph. The grammar of the
//! micro-syntax, of module references and of linkable targets is fixed here as
//! spec functions, and the executable scanner is proved to follow it exactly.

use vstd::prelude::*;
use vstd::string::StringSliceAdditionalSpecFns;

use crate::bytes::{
    find_byte, has_ws, is_ws, push_all, skip_ws, spec_find_byte, spec_has_ws, spec_is_ws,
    spec_skip_ws, spec_trim, str_bytes, sub_vec, trim, lit,
};
use crate::graph::{
    has_symbol, spec_as_resolve_kind, spec_display_name, spec_find_module, spec_has_symbol,
    DocGraph, UrlResolveKind, UrlResolveKindView,
};
use crate::resolve::{spec_lookup_symbol_href, HrefResolver, RenderContext};

verus! {

/// One parsed occurrence of the micro-syntax: the `code` modifier, the raw
/// value between the keyword and the closing brace, and the index just past
/// the closing brace.
pub ghost struct LinkOcc {
    pub code: bool,
    pub value: Seq<u8>,
    pub end: int,
}

/// Index of the first `}` at or after `i`, if any.
pub open spec fn spec_find_brace(s: Seq<u8>, i: int) -> Option<int>
    decreases s.len() - i,
{
    if i < 0 || i >= s.len() {
        None
    } else if s[i] == 125 {
        Some(i)
    } else {
        spec_find_brace(s, i + 1)
    }
}

/// The bytes `@link` at position `j`.
pub open spec fn spec_kw_link(s: Seq<u8>, j: int) -> bool {
    &&& 0 <= j
    &&& j + 5 <= s.len()
    &&& s[j] == 64
    &&& s[j + 1] == 108
    &&& s[j + 2] == 105
    &&& s[j + 3] == 110
    &&& s[j + 4] == 107
}

/// The bytes `code` at position `j`.
pub open spec fn spec_kw_code(s: Seq<u8>, j: int) -> bool {
    &&& 0 <= j
    &&& j + 4 <= s.len()
    &&& s[j] == 99
    &&& s[j + 1] == 111
    &&& s[j + 2] == 100
    &&& s[j + 3] == 101
}

/// The bytes `plain` at position `j`.
pub open spec fn spec_kw_plain(s: Seq<u8>, j: int) -> bool {
    &&& 0 <= j
    &&& j + 5 <= s.len()
    &&& s[j] == 112
    &&& s[j + 1] == 108
    &&& s[j + 2] == 97
    &&& s[j + 3] == 105
    &&& s[j + 4] == 110
}

/// The micro-syntax at position `i`: `{`, optional whitespace, `@link`, an
/// optional `code` or `plain` modifier, at least one whitespace byte, then a
/// non-empty value running to the first `}`.
pub open spec fn spec_match_at(s: Seq<u8>, i: int) -> Option<LinkOcc> {
    if !(0 <= i < s.len() && s[i] == 123) {
        None
    } else {
        let j = spec_skip_ws(s, i + 1);
        if !spec_kw_link(s, j) {
            None
        } else {
            let k = j + 5;
            let code = spec_kw_code(s, k);
            let plain = spec_kw_plain(s, k);
            let k2 = if code {
                k + 4
            } else if plain {
                k + 5
            } else {
                k
            };
            if !(k2 < s.len() && spec_is_ws(s[k2])) {
                None
            } else {
                match spec_find_brace(s, k2) {
                    None => None,
                    Some(e) => {
                        if e - k2 < 2 {
                            None
                        } else {
                            let w = spec_skip_ws(s, k2);
                            let v0 = if w < e {
                                w
                            } else {
                                e - 1
                            };
                            Some(LinkOcc { code, value: s.subrange(v0, e), end: e + 1 })
                        }
                    },
                }
            }
        }
    }
}

/// The value split into a link part and a title part: at the first `|` when
/// one occurs, otherwise at the first space; both halves are trimmed. A value
/// without either separator is the whole link, untrimmed, with an empty title.
pub open spec fn spec_split_value(value: Seq<u8>) -> (Seq<u8>, Seq<u8>) {
    match spec_find_byte(value, 124, 0) {
        Some(p) => (
            spec_trim(value.subrange(0, p)),
            spec_trim(value.subrange(p + 1, value.len() as int)),
        ),
        None => match spec_find_byte(value, 32, 0) {
            Some(p) => (
                spec_trim(value.subrange(0, p)),
                spec_trim(value.subrange(p + 1, value.len() as int)),
            ),
            None => (value, Seq::empty()),
        },
    }
}

/// Largest `j' <= j` at which `]` closes a well-formed module reference:
/// either at the end of the link or followed by `.` and a non-empty symbol.
pub open spec fn spec_mod_candidate(link: Seq<u8>, j: int) -> Option<int>
    decreases j,
{
    if j < 2 {
        None
    } else if link[j] == 93 && (j == link.len() - 1 || (link[j + 1] == 46 && j + 2
        < link.len())) {
        Some(j)
    } else {
        spec_mod_candidate(link, j - 1)
    }
}

/// The module-reference form: `[MODULE]`, `[MODULE].SYMBOL`, or `[MODULE]`
/// followed by one whitespace byte; the link holds no other whitespace and
/// its module part is non-empty.
pub open spec fn spec_module_ref(link: Seq<u8>) -> Option<(Seq<u8>, Option<Seq<u8>>)> {
    let n = link.len() as int;
    if n >= 4 && link[0] == 91 && spec_is_ws(link[n - 1]) && link[n - 2] == 93 && !spec_has_ws(
        link.subrange(0, n - 1),
    ) {
        Some((link.subrange(1, n - 2), None))
    } else if n >= 3 && link[0] == 91 && !spec_has_ws(link) {
        match spec_mod_candidate(link, n - 1) {
            Some(j) => Some(
                (
                    link.subrange(1, j),
                    if j == n - 1 {
                        None
                    } else {
                        Some(link.subrange(j + 2, n))
                    },
                ),
            ),
            None => None,
        }
    } else {
        None
    }
}

/// Length of the run of ASCII letters at the start of `s`.
pub open spec fn spec_letter_run(s: Seq<u8>, i: int) -> int
    decreases s.len() - i,
{
    if 0 <= i < s.len() && ((65 <= s[i] <= 90) || (97 <= s[i] <= 122)) {
        spec_letter_run(s, i + 1)
    } else {
        i
    }
}

/// A link string worth emitting as a markdown link: a root-, current- or
/// parent-relative path, or a scheme URI with at least one non-whitespace
/// byte after the colon.
pub open spec fn spec_linkable(link: Seq<u8>) -> bool {
    let n = link.len() as int;
    let relative = (n >= 1 && link[0] == 47) || (n >= 2 && link[0] == 46 && link[1] == 47) || (n
        >= 3 && link[0] == 46 && link[1] == 46 && link[2] == 47);
    let k = spec_letter_run(link, 0);
    let scheme = k >= 1 && k + 1 < n && link[k] == 58 && !spec_is_ws(link[k + 1]);
    relative || scheme
}

/// Link and title after consulting the documentation graph for a
/// module-reference target, mirroring the resolution order of the renderer:
/// local module (by path or display name), then the external-module resolver.
pub open spec fn spec_resolve_module_ref<R: HrefResolver>(
    ctx: &RenderContext<R>,
    link0: Seq<u8>,
    title0: Seq<u8>,
) -> (Seq<u8>, Seq<u8>) {
    match spec_module_ref(link0) {
        None => (link0, title0),
        Some((m, sym)) => match spec_find_module(ctx.graph, m, 0) {
            Some(ix) => {
                let entry = ctx.graph.modules@[ix];
                match sym {
                    Some(sy) => {
                        if spec_has_symbol(entry.nodes@, sy) {
                            (
                                ctx.resolver.resolve_path_spec(
                                    ctx.current@,
                                    UrlResolveKindView::Symbol { file: entry.id@, symbol: sy },
                                ),
                                if title0.len() == 0 {
                                    spec_display_name(entry.id@) + lit(" ") + sy
                                } else {
                                    title0
                                },
                            )
                        } else {
                            (link0, title0)
                        }
                    },
                    None => (
                        ctx.resolver.resolve_path_spec(
                            ctx.current@,
                            spec_as_resolve_kind(entry.id@),
                        ),
                        if title0.len() == 0 {
                            spec_display_name(entry.id@)
                        } else {
                            title0
                        },
                    ),
                }
            },
            None => match ctx.resolver.resolve_external_module_spec(m, sym) {
                Some((l, t)) => (l, t),
                None => (link0, title0),
            },
        },
    }
}

/// The markdown emitted for a resolved occurrence: a link when the target is
/// linkable, otherwise bare text; inline code when the `code` modifier was
/// used.
pub open spec fn spec_emit(code: bool, title: Seq<u8>, link: Seq<u8>) -> Seq<u8> {
    if spec_linkable(link) {
        if code {
            lit("[`") + title + lit("`](") + link + lit(")")
        } else {
            lit("[") + title + lit("](") + link + lit(")")
        }
    } else {
        if code {
            lit("`") + title + lit("`")
        } else {
            title
        }
    }
}

/// The full replacement of one occurrence: split off the title, resolve
/// module references against the graph, consult the symbol-href lookup, then
/// emit. An empty title falls back to the link value in force at that point.
pub open spec fn spec_replacement<R: HrefResolver>(
    ctx: &RenderContext<R>,
    code: bool,
    value: Seq<u8>,
) -> Seq<u8> {
    let (link0, title0) = spec_split_value(value);
    let (link1, title1) = spec_resolve_module_ref(ctx, link0, title0);
    let title2 = if title1.len() == 0 {
        link1
    } else {
        title1
    };
    let link2 = match spec_lookup_symbol_href(
        ctx.resolver,
        ctx.current_nodes@,
        ctx.current@,
        link1,
    ) {
        Some(href) => href,
        None => link1,
    };
    spec_emit(code, title2, link2)
}

/// The scanner over the whole text: at each position the leftmost occurrence
/// is replaced and scanning resumes after its closing brace; everything else
/// passes through unchanged.
pub open spec fn spec_scan<R: HrefResolver>(ctx: &RenderContext<R>, s: Seq<u8>, i: int) -> Seq<u8>
    decreases s.len() - i,
{
    if i < 0 || i >= s.len() {
        Seq::empty()
    } else {
        match spec_match_at(s, i) {
            Some(occ) => {
                if i < occ.end <= s.len() {
                    spec_replacement(ctx, occ.code, occ.value) + spec_scan(ctx, s, occ.end)
                } else {
                    spec_replacement(ctx, occ.code, occ.value) + spec_scan(ctx, s, i + 1)
                }
            },
            None => seq![s[i]] + spec_scan(ctx, s, i + 1),
        }
    }
}

/// What [`parse_links`] returns.
pub open spec fn spec_parse_links<R: HrefResolver>(ctx: &RenderContext<R>, md: Seq<u8>) -> Seq<
    u8,
> {
    spec_scan(ctx, md, 0)
}

fn find_brace(s: &[u8], i: usize) -> (r: Option<usize>)
    requires
        i <= s@.len(),
    ensures
        (match r {
            Some(u) => spec_find_brace(s@, i as int) == Some(u as int) && i <= u < s@.len(),
            None => spec_find_brace(s@, i as int) is None,
        }),
{
    let mut k: usize = i;
    while k < s.len()
        invariant
            i <= k <= s@.len(),
            spec_find_brace(s@, i as int) == spec_find_brace(s@, k as int),
        decreases s.len() - k,
    {
        if s[k] == 125 {
            return Some(k);
        }
        k += 1;
    }
    None
}

/// Executable twin of [`spec_match_at`]; the result carries the modifier, the
/// value's byte range and the index just past the occurrence.
fn match_at(s: &[u8], i: usize) -> (r: Option<(bool, usize, usize, usize)>)
    requires
        i < s@.len(),
    ensures
        (match r {
            Some((code, v0, e, end)) => {
                &&& spec_match_at(s@, i as int) == Some(
                    LinkOcc { code, value: s@.subrange(v0 as int, e as int), end: end as int },
                )
                &&& i < end <= s@.len()
                &&& v0 <= e <= s@.len()
            },
            None => spec_match_at(s@, i as int) is None,
        }),
{
    if s[i] != 123 {
        return None;
    }
    let j = skip_ws(s, i + 1);
    if !(j < s.len() && s.len() - j >= 5 && s[j] == 64 && s[j + 1] == 108 && s[j + 2] == 105
        && s[j + 3] == 110 && s[j + 4] == 107) {
        return None;
    }
    let k = j + 5;
    let code = k <= s.len() && s.len() - k >= 4 && s[k] == 99 && s[k + 1] == 111 && s[k + 2]
        == 100 && s[k + 3] == 101;
    let plain = k <= s.len() && s.len() - k >= 5 && s[k] == 112 && s[k + 1] == 108 && s[k + 2]
        == 97 && s[k + 3] == 105 && s[k + 4] == 110;
    let k2 = if code {
        k + 4
    } else if plain {
        k + 5
    } else {
        k
    };
    if !(k2 < s.len() && is_ws(s[k2])) {
        return None;
    }
    match find_brace(s, k2) {
        None => None,
        Some(e) => {
            if e - k2 < 2 {
                None
            } else {
                let w = skip_ws(s, k2);
                let v0 = if w < e {
                    w
                } else {
                    e - 1
                };
                Some((code, v0, e, e + 1))
            }
        },
    }
}

/// Executable twin of [`spec_split_value`].
fn split_value(value: &[u8]) -> (r: (Vec<u8>, Vec<u8>))
    ensures
        (r.0@, r.1@) == spec_split_value(value@),
{
    match find_byte(value, 124, 0) {
        Some(p) => {
            let n = value.len();
            assert(p < n);
            let left = sub_vec(value, 0, p);
            let right = sub_vec(value, p + 1, n);
            (trim(left.as_slice()), trim(right.as_slice()))
        },
        None => {
            match find_byte(value, 32, 0) {
                Some(p) => {
                    let n = value.len();
                    assert(p < n);
                    let left = sub_vec(value, 0, p);
                    let right = sub_vec(value, p + 1, n);
                    (trim(left.as_slice()), trim(right.as_slice()))
                },
                None => {
                    let whole = sub_vec(value, 0, value.len());
                    proof {
                        assert(value@.subrange(0, value@.len() as int) =~= value@);
                    }
                    (whole, Vec::new())
                },
            }
        },
    }
}

/// Executable twin of [`spec_module_ref`].
fn module_ref(link: &[u8]) -> (r: Option<(Vec<u8>, Option<Vec<u8>>)>)
    ensures
        (match r {
            Some((m, sym)) => spec_module_ref(link@) == Some(
                (
                    m@,
                    (match sym {
                        Some(sy) => Some(sy@),
                        None => None,
                    }),
                ),
            ),
            None => spec_module_ref(link@) is None,
        }),
{
    let n = link.len();
    if n >= 4 && link[0] == 91 && is_ws(link[n - 1]) && link[n - 2] == 93 {
        let head = sub_vec(link, 0, n - 1);
        if !has_ws(head.as_slice()) {
            return Some((sub_vec(link, 1, n - 2), None));
        }
    }
    if !(link.len() >= 3 && link[0] == 91) || has_ws(link) {
        return None;
    }
    let mut j: usize = link.len() - 1;
    loop
        invariant
            2 <= j < link@.len(),
            link@.len() >= 3,
            link@[0] == 91,
            !spec_has_ws(link@),
            spec_mod_candidate(link@, link@.len() - 1) == spec_mod_candidate(link@, j as int),
        decreases j,
    {
        if link[j] == 93 && (j == link.len() - 1 || (link[j + 1] == 46 && j + 2 < link.len())) {
            let m = sub_vec(link, 1, j);
            let sym = if j == link.len() - 1 {
                None
            } else {
                Some(sub_vec(link, j + 2, link.len()))
            };
            assert(spec_mod_candidate(link@, j as int) == Some(j as int));
            return Some((m, sym));
        }
        if j == 2 {
            assert(spec_mod_candidate(link@, 1) is None);
            assert(spec_mod_candidate(link@, 2) is None);
            return None;
        }
        j -= 1;
    }
}

/// Executable twin of [`spec_linkable`].
pub fn linkable(link: &[u8]) -> (r: bool)
    ensures
        r == spec_linkable(link@),
{
    let n = link.len();
    let relative = (n >= 1 && link[0] == 47) || (n >= 2 && link[0] == 46 && link[1] == 47) || (n
        >= 3 && link[0] == 46 && link[1] == 46 && link[2] == 47);
    if relative {
        return true;
    }
    let mut k: usize = 0;
    while k < n && ((65 <= link[k] && link[k] <= 90) || (97 <= link[k] && link[k] <= 122))
        invariant
            0 <= k <= n == link@.len(),
            spec_letter_run(link@, 0) == spec_letter_run(link@, k as int),
        decreases n - k,
    {
        k += 1;
    }
    if k >= 1 && k < n && link[k] == 58 && k + 1 < n {
        !is_ws(link[k + 1])
    } else {
        false
    }
}

/// Resolves one occurrence and renders its replacement text.
fn build_replacement<R: HrefResolver>(ctx: &RenderContext<R>, code: bool, value: &[u8]) -> (r: Vec<
    u8,
>)
    ensures
        r@ == spec_replacement(ctx, code, value@),
{
    let (link0, title0) = split_value(value);
    let mut link1: Vec<u8>;
    let mut title1: Vec<u8>;
    match module_ref(link0.as_slice()) {
        None => {
            link1 = link0;
            title1 = title0;
        },
        Some((m, sym)) => {
            match ctx.graph.find_module(m.as_slice()) {
                Some(ix) => {
                    let entry = &ctx.graph.modules[ix];
                    match sym {
                        Some(sy) => {
                            if has_symbol(&entry.nodes, sy.as_slice()) {
                                let target = UrlResolveKind::Symbol {
                                    file: entry.id.duplicate(),
                                    symbol: sub_vec(sy.as_slice(), 0, sy.len()),
                                };
                                proof {
                                    assert(sy@.subrange(0, sy@.len() as int) =~= sy@);
                                }
                                link1 = ctx.resolver.resolve_path(&ctx.current, &target);
                                if title0.len() == 0 {
                                    let mut t = entry.id.display_name();
                                    let spc = str_bytes(" ");
                                    push_all(&mut t, spc.as_slice());
                                    push_all(&mut t, sy.as_slice());
                                    title1 = t;
                                } else {
                                    title1 = title0;
                                }
                            } else {
                                link1 = link0;
                                title1 = title0;
                            }
                        },
                        None => {
                            let target = entry.id.as_resolve_kind();
                            link1 = ctx.resolver.resolve_path(&ctx.current, &target);
                            if title0.len() == 0 {
                                title1 = entry.id.display_name();
                            } else {
                                title1 = title0;
                            }
                        },
                    }
                },
                None => {
                    match ctx.resolver.resolve_external_module(m.as_slice(), sym.as_ref()) {
                        Some((l, t)) => {
                            link1 = l;
                            title1 = t;
                        },
                        None => {
                            link1 = link0;
                            title1 = title0;
                        },
                    }
                },
            }
        },
    }
    let title2 = if title1.len() == 0 {
        sub_vec(link1.as_slice(), 0, link1.len())
    } else {
        title1
    };
    proof {
        assert(link1@.subrange(0, link1@.len() as int) =~= link1@);
    }
    let link2 = match ctx.lookup_symbol_href(link1.as_slice()) {
        Some(href) => href,
        None => link1,
    };
    let mut out: Vec<u8> = Vec::new();
    if linkable(link2.as_slice()) {
        if code {
            let a = str_bytes("[`");
            push_all(&mut out, a.as_slice());
            push_all(&mut out, title2.as_slice());
            let b = str_bytes("`](");
            push_all(&mut out, b.as_slice());
            push_all(&mut out, link2.as_slice());
            let c = str_bytes(")");
            push_all(&mut out, c.as_slice());
        } else {
            let a = str_bytes("[");
            push_all(&mut out, a.as_slice());
            push_all(&mut out, title2.as_slice());
            let b = str_bytes("](");
            push_all(&mut out, b.as_slice());
            push_all(&mut out, link2.as_slice());
            let c = str_bytes(")");
            push_all(&mut out, c.as_slice());
        }
    } else {
        if code {
            let a = str_bytes("`");
            push_all(&mut out, a.as_slice());
            push_all(&mut out, title2.as_slice());
            push_all(&mut out, a.as_slice());
        } else {
            push_all(&mut out, title2.as_slice());
        }
    }
    assert(out@ =~= spec_replacement(ctx, code, value@));
    out
}

/// Replaces every occurrence of the cross-reference micro-syntax in `md` by
/// its resolved markdown, leaving all other text untouched. Malformed
/// occurrences never match and pass through unchanged, so the scan is total.
pub fn parse_links<R: HrefResolver>(md: &[u8], ctx: &RenderContext<R>) -> (r: Vec<u8>)
    ensures
        r@ == spec_parse_links(ctx, md@),
{
    let mut out: Vec<u8> = Vec::new();
    let mut i: usize = 0;
    while i < md.len()
        invariant
            0 <= i <= md@.len(),
            out@ + spec_scan(ctx, md@, i as int) == spec_scan(ctx, md@, 0),
        decreases md.len() - i,
    {
        match match_at(md, i) {
            Some((code, v0, e, end)) => {
                let value = sub_vec(md, v0, e);
                let rep = build_replacement(ctx, code, value.as_slice());
                push_all(&mut out, rep.as_slice());
                i = end;
            },
            None => {
                out.push(md[i]);
                i += 1;
            },
        }
        assert(out@ + spec_scan(ctx, md@, i as int) =~= spec_scan(ctx, md@, 0));
    }
    assert(out@ =~= spec_scan(ctx, md@, 0));
    out
}

/// Law: a well-formed occurrence is always replaced by one of three forms —
/// a markdown link (in inline code under the `code` modifier) when the
/// resolved target is linkable, inline code under the `code` modifier
/// otherwise, and plain title text else — never by the raw unresolved syntax.
pub proof fn lemma_replacement_forms<R: HrefResolver>(
    ctx: &RenderContext<R>,
    code: bool,
    value: Seq<u8>,
)
    ensures
        ({
            let (link0, title0) = spec_split_value(value);
            let (link1, title1) = spec_resolve_module_ref(ctx, link0, title0);
            let title2 = if title1.len() == 0 {
                link1
            } else {
                title1
            };
            let link2 = match spec_lookup_symbol_href(
                ctx.resolver,
                ctx.current_nodes@,
                ctx.current@,
                link1,
            ) {
                Some(href) => href,
                None => link1,
            };
            &&& spec_linkable(link2) && code ==> spec_replacement(ctx, code, value) == lit("[`")
                + title2 + lit("`](") + link2 + lit(")")
            &&& spec_linkable(link2) && !code ==> spec_replacement(ctx, code, value) == lit("[")
                + title2 + lit("](") + link2 + lit(")")
            &&& !spec_linkable(link2) && code ==> spec_replacement(ctx, code, value) == lit("`")
                + title2 + lit("`")
            &&& !spec_linkable(link2) && !code ==> spec_replacement(ctx, code, value) == title2
        }),
{
}

/// Law: the scan replaces every occurrence it matches and keeps all other
/// text: at a matched position the output continues with the replacement and
/// the scan resumes after the closing brace; at any other position the byte
/// passes through unchanged.
pub proof fn lemma_scan_step<R: HrefResolver>(ctx: &RenderContext<R>, s: Seq<u8>, i: int)
    requires
        0 <= i < s.len(),
    ensures
        (match spec_match_at(s, i) {
            Some(occ) => i < occ.end <= s.len() ==> spec_scan(ctx, s, i) == spec_replacement(
                ctx,
                occ.code,
                occ.value,
            ) + spec_scan(ctx, s, occ.end),
            None => spec_scan(ctx, s, i) == seq![s[i]] + spec_scan(ctx, s, i + 1),
        }),
{
}

} // verus!
