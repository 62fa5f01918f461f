//! Orchestration of the pipeline: full and title-only markdown rendering,
//! plain-text stripping, the title/body split of documentation comments, and
//! the context values built from documentation comments (examples, module
//! docs).

use vstd::prelude::*;
use vstd::string::StringSliceAdditionalSpecFns;

use crate::bytes::{
    dec_bytes, find_subseq, lit, push_all, spec_dec, spec_find, str_bytes, sub_vec,
};
use crate::extract::{
    collect_title_deletions, first_allowed_child, spec_first_allowed, spec_title_deletions,
    strip_text,
};
use crate::graph::{DocGraph, JsDoc, JsDocTag, ModuleId, Symbol, SymbolKind};
use crate::links::{parse_links, spec_parse_links};
use crate::md::{
    children_view, html_of, lemma_children_view, md_to_html, node_view, parse_doc, spec_parse_doc,
    MdNode,
};
use crate::resolve::{spec_no_rewrite, HrefResolver, RenderContext};
use crate::rewrite::{
    collect_edits, node_range, spec_edits_of, spec_node_range, spec_splice, splice, Edit, EditView,
};
use crate::sanitize::{allow_list, clean_html, clean_of};

verus! {

/// How a markdown body is rendered: whole, or pruned to its leading
/// inline-ish content; and whether a table of contents would be collected by
/// the host around this render.
pub struct MarkdownToHTMLOptions {
    pub title_only: bool,
    pub no_toc: bool,
}

/// The wrapper class of a render: a summary render is marked as such.
pub open spec fn spec_wrapper_open(title_only: bool) -> Seq<u8> {
    if title_only {
        lit("<div class=\"markdown_summary\">")
    } else {
        lit("<div class=\"markdown\">")
    }
}

/// The full-mode dialect rewrite of resolved text: the edits computed from
/// the decoded tree, spliced into the text; text whose tree cannot be decoded
/// passes through unchanged.
pub open spec fn spec_rewrite_dialect(resolved: Seq<u8>) -> Seq<u8> {
    match spec_parse_doc(resolved) {
        Some(t) => spec_splice(resolved, spec_edits_of(resolved, t), 0, 0),
        None => resolved,
    }
}

/// The sanitized full render of `md` under a resolver that never rewrites
/// URLs: the fixed wrapper around the sanitized HTML emission of the resolved
/// and rewritten text.
pub open spec fn spec_render_full<R: HrefResolver>(ctx: &RenderContext<R>, md: Seq<u8>) -> Seq<
    u8,
> {
    spec_wrapper_open(false) + clean_of(html_of(spec_rewrite_dialect(spec_parse_links(ctx, md))))
        + lit("</div>")
}

/// The pruning deletions shifted into region coordinates: an edit inside
/// `[a, b)` moves left by `a`; any other edit is dropped.
pub open spec fn spec_shift_edits(dels: Seq<EditView>, i: int, a: int, b: int) -> Seq<EditView>
    decreases dels.len() - i,
{
    if i < 0 || i >= dels.len() {
        Seq::empty()
    } else {
        let e = dels[i];
        let head = if e.start >= a && e.end >= e.start && e.end <= b {
            seq![EditView { start: e.start - a, end: e.end - a, text: Seq::empty() }]
        } else {
            Seq::empty()
        };
        head + spec_shift_edits(dels, i + 1, a, b)
    }
}

/// The unsanitized HTML fragment of a title-only render: the first kept
/// top-level child's source region, with its disallowed descendants deleted,
/// re-emitted as HTML. `None` — "no summary" — when the tree cannot be
/// decoded, no top-level child survives pruning, or the kept child carries no
/// usable source range.
pub open spec fn spec_title_fragment(resolved: Seq<u8>) -> Option<Seq<u8>> {
    match spec_parse_doc(resolved) {
        None => None,
        Some(t) => {
            match spec_first_allowed(t.children, 0) {
                None => None,
                Some(ix) => {
                    if !(0 <= ix < t.children.len()) {
                        None
                    } else {
                        let child = t.children[ix];
                        match spec_node_range(resolved, child) {
                            None => None,
                            Some((a, b)) => {
                                let region = resolved.subrange(a, b);
                                let dels = spec_title_deletions(resolved, child);
                                let local = spec_shift_edits(dels, 0, a, b);
                                Some(html_of(spec_splice(region, local, 0, 0)))
                            },
                        }
                    }
                },
            }
        },
    }
}

/// Renders markdown to a sanitized HTML fragment. The cross-reference syntax
/// is resolved first; in full mode the dialect rewrites (alert callouts,
/// video embedding) are applied; in title-only mode the leading inline-ish
/// content is kept instead and an empty extraction reports no summary. Every
/// successful render is the fixed wrapper around a sanitizer output; with a
/// resolver that never rewrites URLs the result is pinned exactly.
pub fn markdown_to_html<R: HrefResolver + Sync>(
    render_ctx: &RenderContext<R>,
    md: &[u8],
    render_options: &MarkdownToHTMLOptions,
) -> (r: Option<Vec<u8>>)
    ensures
        !render_options.title_only ==> r is Some,
        render_options.title_only ==> (r is Some <==> spec_title_fragment(
            spec_parse_links(render_ctx, md@),
        ) is Some),
        (match r {
            Some(v) => {
                &&& exists|m: Seq<u8>|
                    v@ == spec_wrapper_open(render_options.title_only) + m + lit("</div>")
                &&& spec_no_rewrite(render_ctx.resolver) ==> v@ == (if render_options.title_only {
                    spec_wrapper_open(true) + clean_of(
                        spec_title_fragment(spec_parse_links(render_ctx, md@))->0,
                    ) + lit("</div>")
                } else {
                    spec_render_full(render_ctx, md@)
                })
            },
            None => render_options.title_only,
        }),
{
    let resolved = parse_links(md, render_ctx);
    let policy = allow_list();
    let html: Vec<u8>;
    if render_options.title_only {
        let tree = match parse_doc(resolved.as_slice()) {
            Some(t) => t,
            None => {
                assert(spec_title_fragment(resolved@) is None);
                return None;
            },
        };
        let ix = match first_allowed_child(&tree) {
            Some(i) => i,
            None => {
                assert(spec_title_fragment(resolved@) is None);
                return None;
            },
        };
        let child = &tree.children[ix];
        proof {
            lemma_children_view(tree.children@);
            assert(tree@.children[ix as int] == node_view(tree.children@[ix as int]));
        }
        let (a, b) = match node_range(resolved.as_slice(), child) {
            Some(p) => p,
            None => {
                assert(spec_title_fragment(resolved@) is None);
                return None;
            },
        };
        let mut dels: Vec<Edit> = Vec::new();
        collect_title_deletions(resolved.as_slice(), child, &mut dels);
        let ghost delsv = dels@.map_values(|e: Edit| e@);
        let region = sub_vec(resolved.as_slice(), a, b);
        let mut local: Vec<Edit> = Vec::new();
        let mut k: usize = 0;
        while k < dels.len()
            invariant
                0 <= k <= dels@.len(),
                delsv == dels@.map_values(|e: Edit| e@),
                local@.map_values(|e: Edit| e@) + spec_shift_edits(delsv, k as int, a as int, b as int)
                    == spec_shift_edits(delsv, 0, a as int, b as int),
            decreases dels@.len() - k,
        {
            let e = &dels[k];
            proof {
                assert(delsv[k as int] == dels@[k as int]@);
            }
            if e.start >= a && e.end >= e.start && e.end <= b {
                let shifted = Edit { start: e.start - a, end: e.end - a, text: Vec::new() };
                local.push(shifted);
            }
            k += 1;
            assert(local@.map_values(|e: Edit| e@) + spec_shift_edits(
                delsv,
                k as int,
                a as int,
                b as int,
            ) =~= spec_shift_edits(delsv, 0, a as int, b as int));
        }
        proof {
            assert(spec_shift_edits(delsv, dels@.len() as int, a as int, b as int)
                =~= Seq::<EditView>::empty());
            assert(local@.map_values(|e: Edit| e@) =~= spec_shift_edits(
                delsv,
                0,
                a as int,
                b as int,
            ));
        }
        let spliced = splice(region.as_slice(), &local);
        html = md_to_html(spliced.as_slice());
        proof {
            assert(spec_title_fragment(resolved@) == Some(html@));
        }
    } else {
        let spliced = rewrite_dialect(resolved.as_slice());
        html = md_to_html(spliced.as_slice());
        proof {
            assert(html@ == html_of(spec_rewrite_dialect(resolved@)));
        }
    }
    let clean = clean_html(html.as_slice(), &policy, render_ctx.current.get_file(), render_ctx.resolver);
    let mut out = if render_options.title_only {
        str_bytes("<div class=\"markdown_summary\">")
    } else {
        str_bytes("<div class=\"markdown\">")
    };
    push_all(&mut out, clean.as_slice());
    let tail = str_bytes("</div>");
    push_all(&mut out, tail.as_slice());
    proof {
        assert(out@ == spec_wrapper_open(render_options.title_only) + clean@ + lit("</div>"));
        if spec_no_rewrite(render_ctx.resolver) {
            assert(clean@ == clean_of(html@));
        }
    }
    Some(out)
}

/// Applies the dialect rewrites to resolved markdown, exactly as
/// [`spec_rewrite_dialect`] states.
fn rewrite_dialect(resolved: &[u8]) -> (r: Vec<u8>)
    ensures
        r@ == spec_rewrite_dialect(resolved@),
{
    match parse_doc(resolved) {
        Some(tree) => {
            let mut edits: Vec<Edit> = Vec::new();
            collect_edits(resolved, &tree, &mut edits);
            splice(resolved, &edits)
        },
        None => {
            let n = resolved.len();
            let r = sub_vec(resolved, 0, n);
            proof {
                assert(resolved@.subrange(0, resolved@.len() as int) =~= resolved@);
            }
            r
        },
    }
}

/// Renders markdown in full mode: exactly the `Some` value of the full-mode
/// render, which always exists.
pub fn render_markdown<R: HrefResolver + Sync>(
    render_ctx: &RenderContext<R>,
    md: &[u8],
    no_toc: bool,
) -> (r: Vec<u8>)
    ensures
        spec_no_rewrite(render_ctx.resolver) ==> r@ == spec_render_full(render_ctx, md@),
        exists|m: Seq<u8>| r@ == spec_wrapper_open(false) + m + lit("</div>"),
{
    let opts = MarkdownToHTMLOptions { title_only: false, no_toc };
    match markdown_to_html(render_ctx, md, &opts) {
        Some(v) => v,
        None => {
            proof {
                assert(false);
            }
            Vec::new()
        },
    }
}

/// Flattens a documentation body to plain text: the cross-reference syntax is
/// resolved, the dialect rewrites drop their subtrees, and only literal text
/// and inline-code content remain, with one space per line or soft break (see
/// [`crate::extract::spec_strip_text`]); text whose tree cannot be decoded
/// flattens to nothing.
pub fn strip<R: HrefResolver>(render_ctx: &RenderContext<R>, md: &[u8]) -> (r: Vec<u8>)
    ensures
        r@ == (match spec_parse_doc(spec_parse_links(render_ctx, md@)) {
            Some(t) => crate::extract::spec_strip_text(t),
            None => Seq::empty(),
        }),
{
    let resolved = parse_links(md, render_ctx);
    match parse_doc(resolved.as_slice()) {
        Some(tree) => {
            let mut out: Vec<u8> = Vec::new();
            strip_text(&tree, &mut out);
            out
        },
        None => Vec::new(),
    }
}

/// Where a documentation body splits into title and body: at the first blank
/// line or the first fenced-code marker, whichever comes first.
pub open spec fn spec_split_index(md: Seq<u8>) -> int {
    let newline = match spec_find(md, lit("\n\n"), 0) {
        Some(p) => p,
        None => md.len() as int,
    };
    let codeblock = match spec_find(md, lit("```"), 0) {
        Some(p) => p,
        None => md.len() as int,
    };
    if newline <= codeblock {
        newline
    } else {
        codeblock
    }
}

/// What [`split_markdown_title`] returns: no title when either half would be
/// empty, with the whole text as the body.
pub open spec fn spec_split_markdown_title(md: Seq<u8>) -> (Option<Seq<u8>>, Option<Seq<u8>>) {
    let i = spec_split_index(md);
    let title = md.subrange(0, i);
    let body = md.subrange(i, md.len() as int);
    if title.len() == 0 {
        (None, Some(body))
    } else if body.len() == 0 {
        (None, Some(title))
    } else {
        (Some(title), Some(body))
    }
}

/// Splits a documentation body into an optional title segment and an optional
/// body segment at the earlier of the first blank line and the first fenced
/// code block.
pub fn split_markdown_title(md: &[u8]) -> (r: (Option<Vec<u8>>, Option<Vec<u8>>))
    ensures
        (match r.0 {
            Some(t) => spec_split_markdown_title(md@).0 == Some(t@),
            None => spec_split_markdown_title(md@).0 is None,
        }),
        (match r.1 {
            Some(b) => spec_split_markdown_title(md@).1 == Some(b@),
            None => spec_split_markdown_title(md@).1 is None,
        }),
{
    let n = md.len();
    let nn = str_bytes("\n\n");
    let newline = match find_subseq(md, nn.as_slice(), 0) {
        Some(p) => p,
        None => n,
    };
    let fence = str_bytes("```");
    let codeblock = match find_subseq(md, fence.as_slice(), 0) {
        Some(p) => p,
        None => n,
    };
    let i = if newline <= codeblock {
        newline
    } else {
        codeblock
    };
    let title = sub_vec(md, 0, i);
    let body = sub_vec(md, i, n);
    if title.len() == 0 {
        (None, Some(body))
    } else if body.len() == 0 {
        (None, Some(title))
    } else {
        (Some(title), Some(body))
    }
}

/// An identifier byte is kept in anchor ids; everything else becomes `_`.
pub open spec fn spec_id_byte(b: u8) -> u8 {
    if (48 <= b <= 57) || (65 <= b <= 90) || (97 <= b <= 122) {
        b
    } else {
        95
    }
}

/// The anchor id derived from a kind and a name: `kind_name`, with every byte
/// outside ASCII letters and digits replaced by `_`.
pub open spec fn spec_name_to_id(kind: Seq<u8>, name: Seq<u8>) -> Seq<u8> {
    kind + seq![95u8] + name.map_values(|b: u8| spec_id_byte(b))
}

/// Builds the anchor id of a named item.
pub fn name_to_id(kind: &[u8], name: &[u8]) -> (r: Vec<u8>)
    ensures
        r@ == spec_name_to_id(kind@, name@),
{
    let mut out = sub_vec(kind, 0, kind.len());
    out.push(95);
    let mut i: usize = 0;
    while i < name.len()
        invariant
            0 <= i <= name@.len(),
            out@ == kind@.subrange(0, kind@.len() as int) + seq![95u8] + name@.subrange(
                0,
                i as int,
            ).map_values(|b: u8| spec_id_byte(b)),
        decreases name.len() - i,
    {
        let b = name[i];
        let kept = if (48 <= b && b <= 57) || (65 <= b && b <= 90) || (97 <= b && b <= 122) {
            b
        } else {
            95
        };
        out.push(kept);
        proof {
            assert(name@.subrange(0, i + 1).map_values(|b: u8| spec_id_byte(b)) =~= name@
                .subrange(0, i as int).map_values(|b: u8| spec_id_byte(b)).push(
                spec_id_byte(name@[i as int]),
            ));
        }
        i += 1;
    }
    proof {
        assert(kind@.subrange(0, kind@.len() as int) =~= kind@);
        assert(name@.subrange(0, name@.len() as int) =~= name@);
        assert(out@ =~= spec_name_to_id(kind@, name@));
    }
    out
}

/// An anchor in the generated page.
pub struct AnchorCtx {
    pub id: Vec<u8>,
}

/// One rendered documentation entry of a section.
pub struct DocEntryCtx {
    pub id: Vec<u8>,
    pub name: Vec<u8>,
    pub content: Vec<u8>,
}

/// One rendered example of a documentation comment.
pub struct ExampleCtx {
    pub anchor: AnchorCtx,
    pub id: Vec<u8>,
    pub title: Vec<u8>,
    pub markdown_title: Vec<u8>,
    pub markdown_body: Vec<u8>,
}

/// What a section holds.
pub enum SectionContentCtx {
    DocEntry(Vec<DocEntryCtx>),
    Example(Vec<ExampleCtx>),
}

/// One titled section of a symbol or module page.
pub struct SectionCtx {
    pub title: Vec<u8>,
    pub anchor: AnchorCtx,
    pub content: SectionContentCtx,
}

/// The rendered content of one symbol or module page.
pub struct SymbolContentCtx {
    pub id: Vec<u8>,
    pub docs: Option<Vec<u8>>,
    pub sections: Vec<SectionCtx>,
}

/// The title an example carries: its own first segment, or a numbered
/// default.
pub open spec fn spec_example_title(example: Seq<u8>, i: int) -> Seq<u8> {
    match spec_split_markdown_title(example).0 {
        Some(t) => t,
        None => lit("Example ") + spec_dec((i + 1) as nat),
    }
}

impl ExampleCtx {
    /// Renders one example: the id is numbered, the title segment (or a
    /// numbered default) renders in full mode, the body in title-only mode.
    pub fn new<R: HrefResolver + Sync>(render_ctx: &RenderContext<R>, example: &[u8], i: usize) -> (r:
        ExampleCtx)
        requires
            i < usize::MAX,
        ensures
            r.id@ == spec_name_to_id(lit("example"), spec_dec(i as nat)),
            r.anchor.id@ == r.id@,
            r.title@ == spec_example_title(example@, i as int),
            spec_no_rewrite(render_ctx.resolver) ==> r.markdown_title@ == spec_render_full(
                render_ctx,
                spec_example_title(example@, i as int),
            ),
            spec_no_rewrite(render_ctx.resolver) ==> r.markdown_body@ == spec_render_full(
                render_ctx,
                (match spec_split_markdown_title(example@).1 {
                    Some(b) => b,
                    None => Seq::empty(),
                }),
            ),
    {
        let num = dec_bytes(i);
        let kind = str_bytes("example");
        let id = name_to_id(kind.as_slice(), num.as_slice());
        let (maybe_title, body) = split_markdown_title(example);
        let title = match maybe_title {
            Some(t) => t,
            None => {
                let mut t = str_bytes("Example ");
                let num1 = dec_bytes(i + 1);
                push_all(&mut t, num1.as_slice());
                t
            },
        };
        let markdown_title = render_markdown(render_ctx, title.as_slice(), false);
        let body_bytes = match body {
            Some(b) => b,
            None => Vec::new(),
        };
        let markdown_body = render_markdown(render_ctx, body_bytes.as_slice(), true);
        let anchor_id = sub_vec(id.as_slice(), 0, id.len());
        proof {
            assert(id@.subrange(0, id@.len() as int) =~= id@);
        }
        ExampleCtx { anchor: AnchorCtx { id: anchor_id }, id, title, markdown_title, markdown_body }
    }
}

/// The docs of a comment's example tags, in tag order.
pub open spec fn spec_example_docs(tags: Seq<JsDocTag>) -> Seq<Seq<u8>>
    decreases tags,
{
    if tags.len() == 0 {
        Seq::empty()
    } else {
        (match tags[0] {
            JsDocTag::Example { doc } => seq![doc@],
            _ => Seq::empty(),
        }) + spec_example_docs(tags.drop_first())
    }
}

/// What the fields of the `i`-th rendered example are, for a given doc.
pub open spec fn spec_example_fields<R: HrefResolver>(
    ctx: &RenderContext<R>,
    e: &ExampleCtx,
    doc: Seq<u8>,
    i: int,
) -> bool {
    &&& e.id@ == spec_name_to_id(lit("example"), spec_dec(i as nat))
    &&& e.anchor.id@ == e.id@
    &&& e.title@ == spec_example_title(doc, i)
    &&& spec_no_rewrite(ctx.resolver) ==> e.markdown_title@ == spec_render_full(
        ctx,
        spec_example_title(doc, i),
    )
    &&& spec_no_rewrite(ctx.resolver) ==> e.markdown_body@ == spec_render_full(
        ctx,
        (match spec_split_markdown_title(doc).1 {
            Some(b) => b,
            None => Seq::empty(),
        }),
    )
}

/// Renders the example tags of a documentation comment into an `Examples`
/// section: one rendered example per `Example` tag, in tag order, example `i`
/// built from the `i`-th tag's doc; a comment without example tags yields
/// none.
pub fn jsdoc_examples<R: HrefResolver + Sync>(render_ctx: &RenderContext<R>, js_doc: &JsDoc) -> (r:
    Option<SectionCtx>)
    ensures
        (match r {
            Some(s) => spec_example_docs(js_doc.tags@).len() > 0 && s.title@ == lit("Examples")
                && (match s.content {
                SectionContentCtx::Example(es) => {
                    &&& es@.len() == spec_example_docs(js_doc.tags@).len()
                    &&& forall|i: int|
                        0 <= i < es@.len() ==> spec_example_fields(
                            render_ctx,
                            #[trigger] &es@[i],
                            spec_example_docs(js_doc.tags@)[i],
                            i,
                        )
                },
                _ => false,
            }),
            None => spec_example_docs(js_doc.tags@).len() == 0,
        }),
{
    let mut examples: Vec<ExampleCtx> = Vec::new();
    let ghost mut docs_seen: Seq<Seq<u8>> = Seq::empty();
    let mut t: usize = 0;
    while t < js_doc.tags.len()
        invariant
            0 <= t <= js_doc.tags@.len(),
            docs_seen + spec_example_docs(js_doc.tags@.skip(t as int)) == spec_example_docs(
                js_doc.tags@.skip(0),
            ),
            examples@.len() == docs_seen.len(),
            examples@.len() <= t,
            forall|i: int|
                0 <= i < examples@.len() ==> spec_example_fields(
                    render_ctx,
                    #[trigger] &examples@[i],
                    docs_seen[i],
                    i,
                ),
        decreases js_doc.tags@.len() - t,
    {
        proof {
            assert(js_doc.tags@.skip(t as int)[0] == js_doc.tags@[t as int]);
            assert(js_doc.tags@.skip(t as int).drop_first() =~= js_doc.tags@.skip(t + 1));
        }
        match &js_doc.tags[t] {
            JsDocTag::Example { doc } => {
                let i = examples.len();
                let example = ExampleCtx::new(render_ctx, doc.as_slice(), i);
                examples.push(example);
                proof {
                    docs_seen = docs_seen.push(doc@);
                    assert(docs_seen.drop_last() + seq![doc@] =~= docs_seen);
                    assert(docs_seen + spec_example_docs(js_doc.tags@.skip(t + 1))
                        =~= spec_example_docs(js_doc.tags@.skip(0)));
                }
            },
            _ => {},
        }
        t += 1;
    }
    proof {
        assert(js_doc.tags@.skip(0) =~= js_doc.tags@);
        assert(spec_example_docs(js_doc.tags@.skip(js_doc.tags@.len() as int)) =~= Seq::<
            Seq<u8>,
        >::empty());
        assert(docs_seen =~= spec_example_docs(js_doc.tags@));
    }
    if examples.len() > 0 {
        let title = str_bytes("Examples");
        let kind = str_bytes("section");
        let anchor_id = name_to_id(kind.as_slice(), title.as_slice());
        Some(
            SectionCtx {
                title,
                anchor: AnchorCtx { id: anchor_id },
                content: SectionContentCtx::Example(examples),
            },
        )
    } else {
        None
    }
}

/// Renders the free-text body of a documentation comment, in full or summary
/// mode; a comment without a body yields none, and in summary mode an empty
/// extraction reports no summary.
pub fn jsdoc_body_to_html<R: HrefResolver + Sync>(
    ctx: &RenderContext<R>,
    js_doc: &JsDoc,
    summary: bool,
) -> (r: Option<Vec<u8>>)
    ensures
        (match js_doc.doc {
            None => r is None,
            Some(d) => {
                &&& !summary ==> r is Some
                &&& summary ==> (r is Some <==> spec_title_fragment(
                    spec_parse_links(ctx, d@),
                ) is Some)
                &&& (match r {
                    Some(v) => {
                        &&& exists|m: Seq<u8>|
                            v@ == spec_wrapper_open(summary) + m + lit("</div>")
                        &&& spec_no_rewrite(ctx.resolver) ==> v@ == (if summary {
                            spec_wrapper_open(true) + clean_of(
                                spec_title_fragment(spec_parse_links(ctx, d@))->0,
                            ) + lit("</div>")
                        } else {
                            spec_render_full(ctx, d@)
                        })
                    },
                    None => true,
                })
            },
        }),
{
    match &js_doc.doc {
        Some(doc) => {
            let opts = MarkdownToHTMLOptions { title_only: summary, no_toc: false };
            markdown_to_html(ctx, doc.as_slice(), &opts)
        },
        None => None,
    }
}

/// The rendered documentation of one module: its deprecation notice, when the
/// module-doc comment carries one, and its sections (the examples, the
/// comment body as the section content's docs, and — for a module that is not
/// the main entry — one section per symbol kind present).
pub struct ModuleDocCtx {
    pub deprecated: Option<Vec<u8>>,
    pub sections: SymbolContentCtx,
}

/// Index of the module-doc node of a symbol list.
pub open spec fn spec_find_module_doc(nodes: Seq<Symbol>, i: int) -> Option<int>
    decreases nodes.len() - i,
{
    if i < 0 || i >= nodes.len() {
        None
    } else if nodes[i].kind == SymbolKind::ModuleDoc {
        Some(i)
    } else {
        spec_find_module_doc(nodes, i + 1)
    }
}

/// Index of the first deprecation tag of a documentation comment.
pub open spec fn spec_find_deprecated(tags: Seq<JsDocTag>, i: int) -> Option<int>
    decreases tags.len() - i,
{
    if i < 0 || i >= tags.len() {
        None
    } else if tags[i] is Deprecated {
        Some(i)
    } else {
        spec_find_deprecated(tags, i + 1)
    }
}

/// The module-doc symbol of the module `key` names, if both exist.
pub open spec fn spec_module_doc_node(g: &DocGraph, key: Seq<u8>) -> Option<Symbol> {
    match crate::graph::spec_find_module(g, key, 0) {
        None => None,
        Some(mi) => {
            if !(0 <= mi < g.modules@.len()) {
                None
            } else {
                let nodes = g.modules@[mi].nodes@;
                match spec_find_module_doc(nodes, 0) {
                    None => None,
                    Some(ni) => {
                        if 0 <= ni < nodes.len() {
                            Some(nodes[ni])
                        } else {
                            None
                        }
                    },
                }
            }
        },
    }
}

/// The doc text of a deprecation tag; empty when the tag carries none.
pub open spec fn spec_deprecated_doc(tags: Seq<JsDocTag>) -> Seq<u8> {
    match spec_find_deprecated(tags, 0) {
        None => Seq::empty(),
        Some(ti) => {
            if 0 <= ti < tags.len() {
                match tags[ti] {
                    JsDocTag::Deprecated { doc } => {
                        match doc {
                            Some(d) => d@,
                            None => Seq::empty(),
                        }
                    },
                    _ => Seq::empty(),
                }
            } else {
                Seq::empty()
            }
        },
    }
}

/// The qualified names of a module's symbols of one kind, in display order.
pub open spec fn spec_kind_members(nodes: Seq<Symbol>, kind: SymbolKind) -> Seq<Seq<u8>>
    decreases nodes,
{
    if nodes.len() == 0 {
        Seq::empty()
    } else {
        (if nodes[0].kind == kind {
            seq![nodes[0].name@]
        } else {
            Seq::empty()
        }) + spec_kind_members(nodes.drop_first(), kind)
    }
}

/// What a module-level per-kind section holds: the kind's title, and one
/// entry per symbol of that kind, carrying the symbol's name and its anchor
/// id.
pub open spec fn spec_kind_section_ok(
    s: &SectionCtx,
    title: Seq<u8>,
    label: Seq<u8>,
    members: Seq<Seq<u8>>,
) -> bool {
    &&& s.title@ == title
    &&& (match s.content {
        SectionContentCtx::DocEntry(es) => {
            &&& es@.len() == members.len()
            &&& forall|j: int|
                0 <= j < members.len() ==> (#[trigger] es@[j]).id@ == spec_name_to_id(
                    label,
                    members[j],
                ) && es@[j].name@ == members[j] && es@[j].content@.len() == 0
        },
        _ => false,
    })
}

fn kind_members(nodes: &Vec<Symbol>, kind: SymbolKind) -> (r: Vec<Vec<u8>>)
    ensures
        r.deep_view() == spec_kind_members(nodes@, kind),
{
    let mut out: Vec<Vec<u8>> = Vec::new();
    let mut t: usize = 0;
    while t < nodes.len()
        invariant
            0 <= t <= nodes@.len(),
            out.deep_view() + spec_kind_members(nodes@.skip(t as int), kind)
                == spec_kind_members(nodes@.skip(0), kind),
        decreases nodes@.len() - t,
    {
        proof {
            assert(nodes@.skip(t as int)[0] == nodes@[t as int]);
            assert(nodes@.skip(t as int).drop_first() =~= nodes@.skip(t + 1));
        }
        if nodes[t].kind == kind {
            let name = sub_vec(nodes[t].name.as_slice(), 0, nodes[t].name.len());
            proof {
                assert(nodes@[t as int].name@.subrange(0, nodes@[t as int].name@.len() as int)
                    =~= nodes@[t as int].name@);
            }
            let ghost before = out.deep_view();
            let ghost beforev = out@;
            out.push(name);
            proof {
                assert forall|q: int| 0 <= q < out@.len() implies out@[q].deep_view() == before.push(
                    nodes@[t as int].name@,
                )[q] by {
                    if q < beforev.len() {
                        assert(out@[q] == beforev[q]);
                        assert(before[q] == beforev[q].deep_view());
                    } else {
                        assert(out@[q] == out@.last());
                        assert(out@.last().deep_view() =~= nodes@[t as int].name@);
                    }
                }
                assert(out.deep_view() =~= before.push(nodes@[t as int].name@));
                assert(before.push(nodes@[t as int].name@) =~= before + seq![
                    nodes@[t as int].name@,
                ]);
                assert(out.deep_view() + spec_kind_members(nodes@.skip(t + 1), kind)
                    =~= spec_kind_members(nodes@.skip(0), kind));
            }
        }
        t += 1;
    }
    proof {
        assert(nodes@.skip(0) =~= nodes@);
        assert(spec_kind_members(nodes@.skip(nodes@.len() as int), kind) =~= Seq::<
            Seq<u8>,
        >::empty());
        assert(out.deep_view() =~= spec_kind_members(nodes@, kind));
    }
    out
}

fn kind_section(title: &str, label: &str, members: &Vec<Vec<u8>>) -> (r: SectionCtx)
    ensures
        spec_kind_section_ok(&r, lit(title), lit(label), members.deep_view()),
{
    let mut entries: Vec<DocEntryCtx> = Vec::new();
    let label_bytes = str_bytes(label);
    let mut j: usize = 0;
    while j < members.len()
        invariant
            0 <= j <= members@.len(),
            label_bytes@ == lit(label),
            entries@.len() == j,
            forall|q: int|
                0 <= q < j ==> (#[trigger] entries@[q]).id@ == spec_name_to_id(
                    lit(label),
                    members.deep_view()[q],
                ) && entries@[q].name@ == members.deep_view()[q] && entries@[q].content@.len()
                    == 0,
        decreases members@.len() - j,
    {
        let m = &members[j];
        let id = name_to_id(label_bytes.as_slice(), m.as_slice());
        let name = sub_vec(m.as_slice(), 0, m.len());
        proof {
            assert(m@.subrange(0, m@.len() as int) =~= m@);
        }
        entries.push(DocEntryCtx { id, name, content: Vec::new() });
        j += 1;
    }
    let title_bytes = str_bytes(title);
    let section_kind = str_bytes("section");
    let anchor_id = name_to_id(section_kind.as_slice(), title_bytes.as_slice());
    SectionCtx {
        title: title_bytes,
        anchor: AnchorCtx { id: anchor_id },
        content: SectionContentCtx::DocEntry(entries),
    }
}

impl ModuleDocCtx {
    /// Renders the module-doc comment of `short_path`'s module — deprecation
    /// notice, examples section and comment body — and, for a module that is
    /// not the main entry, the module-level per-kind symbol sections.
    pub fn new<R: HrefResolver + Sync>(render_ctx: &RenderContext<R>, short_path: &ModuleId) -> (r:
        ModuleDocCtx)
        ensures
            r.sections.id@ == lit("module_doc"),
            (match spec_module_doc_node(render_ctx.graph, short_path.path@) {
                None => r.deprecated is None && r.sections.docs is None,
                Some(node) => {
                    &&& (r.deprecated is Some <==> spec_find_deprecated(node.js_doc.tags@, 0)
                        is Some)
                    &&& (match r.deprecated {
                        Some(d) => spec_no_rewrite(render_ctx.resolver) ==> d@
                            == spec_render_full(
                            render_ctx,
                            spec_deprecated_doc(node.js_doc.tags@),
                        ),
                        None => true,
                    })
                    &&& (match node.js_doc.doc {
                        None => r.sections.docs is None,
                        Some(d) => r.sections.docs is Some && (spec_no_rewrite(
                            render_ctx.resolver,
                        ) ==> r.sections.docs->0@ == spec_render_full(render_ctx, d@)),
                    })
                },
            }),
            ({
                let node = spec_module_doc_node(render_ctx.graph, short_path.path@);
                let nodes_known = crate::graph::spec_find_module(
                    render_ctx.graph,
                    short_path.path@,
                    0,
                ) is Some;
                let ex: int = (match node {
                    Some(nd) => (if spec_example_docs(nd.js_doc.tags@).len() > 0 {
                        1int
                    } else {
                        0int
                    }),
                    None => 0int,
                });
                &&& (short_path.is_main || !nodes_known) ==> r.sections.sections@.len() == ex
                &&& ex == 1 ==> r.sections.sections@[0].title@ == lit("Examples")
            }),
    {
        let mut deprecated: Option<Vec<u8>> = None;
        let mut docs: Option<Vec<u8>> = None;
        let mut sections: Vec<SectionCtx> = Vec::new();
        match render_ctx.graph.find_module(short_path.path.as_slice()) {
            Some(mi) => {
                let nodes = &render_ctx.graph.modules[mi].nodes;
                let mut ni: usize = 0;
                let mut found: Option<usize> = None;
                while ni < nodes.len() && found.is_none()
                    invariant
                        0 <= ni <= nodes@.len(),
                        (match found {
                            Some(f) => spec_find_module_doc(nodes@, 0) == Some(f as int) && f
                                < nodes@.len(),
                            None => spec_find_module_doc(nodes@, 0) == spec_find_module_doc(
                                nodes@,
                                ni as int,
                            ),
                        }),
                    decreases (if found.is_none() { 1int } else { 0int }), nodes@.len() - ni,
                {
                    if matches!(nodes[ni].kind, SymbolKind::ModuleDoc) {
                        found = Some(ni);
                    } else {
                        ni += 1;
                    }
                }
                match found {
                    Some(f) => {
                        let node = &nodes[f];
                        let mut ti: usize = 0;
                        let mut dep_at: Option<usize> = None;
                        while ti < node.js_doc.tags.len() && dep_at.is_none()
                            invariant
                                0 <= ti <= node.js_doc.tags@.len(),
                                (match dep_at {
                                    Some(d) => spec_find_deprecated(node.js_doc.tags@, 0)
                                        == Some(d as int) && d < node.js_doc.tags@.len(),
                                    None => spec_find_deprecated(node.js_doc.tags@, 0)
                                        == spec_find_deprecated(node.js_doc.tags@, ti as int),
                                }),
                            decreases (if dep_at.is_none() { 1int } else { 0int }), node.js_doc.tags@.len() - ti,
                        {
                            if matches!(node.js_doc.tags[ti], JsDocTag::Deprecated { .. }) {
                                dep_at = Some(ti);
                            } else {
                                ti += 1;
                            }
                        }
                        match dep_at {
                            Some(d) => {
                                let text = match &node.js_doc.tags[d] {
                                    JsDocTag::Deprecated { doc } => {
                                        match doc {
                                            Some(t) => sub_vec(t.as_slice(), 0, t.len()),
                                            None => Vec::new(),
                                        }
                                    },
                                    _ => Vec::new(),
                                };
                                proof {
                                    assert(text@ == spec_deprecated_doc(node.js_doc.tags@));
                                }
                                deprecated = Some(
                                    render_markdown(render_ctx, text.as_slice(), false),
                                );
                            },
                            None => {},
                        }
                        match jsdoc_examples(render_ctx, &node.js_doc) {
                            Some(sec) => {
                                sections.push(sec);
                            },
                            None => {},
                        }
                        docs = jsdoc_body_to_html(render_ctx, &node.js_doc, false);
                    },
                    None => {},
                }
                if !short_path.is_main {
                    let interfaces = kind_members(nodes, SymbolKind::Interface);
                    if interfaces.len() > 0 {
                        sections.push(kind_section("Interfaces", "interface", &interfaces));
                    }
                    let variables = kind_members(nodes, SymbolKind::Variable);
                    if variables.len() > 0 {
                        sections.push(kind_section("Variables", "variable", &variables));
                    }
                    let others = kind_members(nodes, SymbolKind::Other);
                    if others.len() > 0 {
                        sections.push(kind_section("Symbols", "symbol", &others));
                    }
                }
            },
            None => {},
        }
        let id = str_bytes("module_doc");
        ModuleDocCtx { deprecated, sections: SymbolContentCtx { id, docs, sections } }
    }
}

} // verus!
