//! The full rendering pipeline: alert callouts, video embedding, title-only
//! extraction, plain-text stripping, splitting, anchor ids and the sanitizer
//! fixed point.

use doc_md::graph::{DocGraph, JsDoc, JsDocTag, ModuleId, Symbol, SymbolKind, UrlResolveKind, VariableDef};
use doc_md::render::{
    jsdoc_body_to_html, jsdoc_examples, markdown_to_html, name_to_id, render_markdown,
    split_markdown_title, strip, ExampleCtx, MarkdownToHTMLOptions, ModuleDocCtx,
    SectionContentCtx,
};
use doc_md::resolve::{PathResolver, RenderContext};
use doc_md::symbols::render_variable;

fn empty_ctx<'a>(
    graph: &'a DocGraph,
    nodes: &'a Vec<Symbol>,
    resolver: &'a PathResolver,
) -> RenderContext<'a, PathResolver> {
    RenderContext::new(graph, nodes, UrlResolveKind::AllSymbols, resolver)
}

fn render(md: &str) -> String {
    let graph = DocGraph::new();
    let nodes: Vec<Symbol> = Vec::new();
    let resolver = PathResolver;
    let ctx = empty_ctx(&graph, &nodes, &resolver);
    String::from_utf8(render_markdown(&ctx, md.as_bytes(), false)).unwrap()
}

fn render_title(md: &str) -> Option<String> {
    let graph = DocGraph::new();
    let nodes: Vec<Symbol> = Vec::new();
    let resolver = PathResolver;
    let ctx = empty_ctx(&graph, &nodes, &resolver);
    let opts = MarkdownToHTMLOptions { title_only: true, no_toc: false };
    markdown_to_html(&ctx, md.as_bytes(), &opts).map(|v| String::from_utf8(v).unwrap())
}

fn strip_str(md: &str) -> String {
    let graph = DocGraph::new();
    let nodes: Vec<Symbol> = Vec::new();
    let resolver = PathResolver;
    let ctx = empty_ctx(&graph, &nodes, &resolver);
    String::from_utf8(strip(&ctx, md.as_bytes())).unwrap()
}

#[test]
fn alert_note_renders_with_default_title() {
    let html = render("> [!NOTE]\n> foo\n>\n> bar");
    assert!(html.contains("alert alert-note"), "{html}");
    assert!(html.contains("Note"), "{html}");
    assert!(html.contains("foo"), "{html}");
    assert!(html.contains("bar"), "{html}");
    assert!(html.starts_with("<div class=\"markdown\">"), "{html}");
    assert!(html.ends_with("</div>"), "{html}");
}

#[test]
fn alert_custom_title_is_kept() {
    let html = render("> [!WARNING] Watch out\n> body text");
    assert!(html.contains("alert alert-warning"), "{html}");
    assert!(html.contains("Watch out"), "{html}");
    assert!(html.contains("body text"), "{html}");
}

#[test]
fn plain_blockquote_is_untouched() {
    let html = render("> just a quote");
    assert!(html.contains("<blockquote>"), "{html}");
    assert!(!html.contains("alert"), "{html}");
}

#[test]
fn video_link_becomes_video_element() {
    let html = render("watch [clip](https://example.com/v.mp4) now");
    assert!(
        html.contains("<video src=\"https://example.com/v.mp4\" controls=\"\"></video>"),
        "{html}"
    );
    assert!(!html.contains("<a href=\"https://example.com/v.mp4\""), "{html}");
    let html = render("watch [clip](https://example.com/v.mov) now");
    assert!(
        html.contains("<video src=\"https://example.com/v.mov\" controls=\"\"></video>"),
        "{html}"
    );
    let html = render("read [doc](https://example.com/v.pdf) now");
    assert!(html.contains("<a href=\"https://example.com/v.pdf\""), "{html}");
    assert!(!html.contains("<video"), "{html}");
}

#[test]
fn title_only_discards_tables() {
    let md = "# Head\n\n| a | b |\n| - | - |\n| 1 | 2 |\n\ntail paragraph";
    let html = render_title(md).unwrap();
    assert!(html.starts_with("<div class=\"markdown_summary\">"), "{html}");
    assert!(html.contains("Head"), "{html}");
    assert!(!html.contains("<table"), "{html}");
    assert!(!html.contains("tail paragraph"), "{html}");
}

#[test]
fn title_only_of_table_only_document_takes_next_kept_block() {
    let md = "| a |\n| - |\n| 1 |\n\nafter the table";
    let html = render_title(md).unwrap();
    assert!(html.contains("after the table"), "{html}");
    assert!(!html.contains("<table"), "{html}");
}

#[test]
fn title_only_of_empty_document_is_no_summary() {
    assert!(render_title("").is_none());
}

#[test]
fn strip_flattens_markup_and_breaks() {
    assert_eq!(strip_str("**bold** and a\nline"), "bold and a line");
}

#[test]
fn strip_drops_alerts_and_videos() {
    assert_eq!(strip_str("> [!NOTE]\n> hidden"), "");
    let s = strip_str("seen [clip](https://example.com/v.mp4) tail");
    assert!(s.contains("seen"));
    assert!(s.contains("tail"));
    assert!(!s.contains("clip"));
    let s = strip_str("> kept quote");
    assert!(s.contains("kept quote"));
}

#[test]
fn sanitizing_clean_output_again_is_a_fixed_point() {
    let first = render("some <b>bold</b> *markup* and [a link](https://example.com/)");
    let inner = first
        .strip_prefix("<div class=\"markdown\">")
        .unwrap()
        .strip_suffix("</div>")
        .unwrap();
    let second = render(inner);
    let inner2 = second
        .strip_prefix("<div class=\"markdown\">")
        .unwrap()
        .strip_suffix("</div>")
        .unwrap();
    let third = render(inner2);
    let inner3 = third
        .strip_prefix("<div class=\"markdown\">")
        .unwrap()
        .strip_suffix("</div>")
        .unwrap();
    assert_eq!(inner2, inner3);
    assert!(inner2.contains("bold"));
    assert!(inner2.contains("a link"));
}

#[test]
fn split_markdown_title_splits_at_blank_line_and_fence() {
    let (t, b) = split_markdown_title(b"Title line\n\nBody text");
    assert_eq!(t.as_deref(), Some("Title line".as_bytes()));
    assert_eq!(b.as_deref(), Some("\n\nBody text".as_bytes()));

    let (t, b) = split_markdown_title(b"short\n```rust\ncode\n```");
    assert_eq!(t.as_deref(), Some("short\n".as_bytes()));
    assert_eq!(b.as_deref(), Some("```rust\ncode\n```".as_bytes()));

    let (t, b) = split_markdown_title(b"only a title");
    assert_eq!(t, None);
    assert_eq!(b.as_deref(), Some("only a title".as_bytes()));

    let (t, b) = split_markdown_title(b"");
    assert_eq!(t, None);
    assert_eq!(b.as_deref(), Some("".as_bytes()));
}

#[test]
fn name_to_id_replaces_odd_bytes() {
    assert_eq!(name_to_id(b"example", b"0"), b"example_0".to_vec());
    assert_eq!(name_to_id(b"variable", b"a b/c"), b"variable_a_b_c".to_vec());
}

#[test]
fn example_ctx_numbers_and_titles() {
    let graph = DocGraph::new();
    let nodes: Vec<Symbol> = Vec::new();
    let resolver = PathResolver;
    let ctx = empty_ctx(&graph, &nodes, &resolver);
    let ex = ExampleCtx::new(&ctx, b"My title\n\nbody", 0);
    assert_eq!(ex.id, b"example_0".to_vec());
    assert_eq!(ex.anchor.id, b"example_0".to_vec());
    assert_eq!(ex.title, b"My title".to_vec());
    let ex = ExampleCtx::new(&ctx, b"plain example body", 1);
    assert_eq!(ex.id, b"example_1".to_vec());
    assert_eq!(ex.title, b"Example 2".to_vec());
}

#[test]
fn jsdoc_examples_collects_example_tags() {
    let graph = DocGraph::new();
    let nodes: Vec<Symbol> = Vec::new();
    let resolver = PathResolver;
    let ctx = empty_ctx(&graph, &nodes, &resolver);
    let js_doc = JsDoc {
        doc: None,
        tags: vec![
            JsDocTag::Other,
            JsDocTag::Example { doc: b"first".to_vec() },
            JsDocTag::Example { doc: b"second".to_vec() },
        ],
    };
    let section = jsdoc_examples(&ctx, &js_doc).unwrap();
    assert_eq!(section.title, b"Examples".to_vec());
    match section.content {
        SectionContentCtx::Example(examples) => {
            assert_eq!(examples.len(), 2);
            assert_eq!(examples[0].id, b"example_0".to_vec());
            assert_eq!(examples[1].id, b"example_1".to_vec());
        },
        _ => panic!("examples section expected"),
    }
    let empty = JsDoc { doc: None, tags: vec![JsDocTag::Other] };
    assert!(jsdoc_examples(&ctx, &empty).is_none());
}

#[test]
fn jsdoc_body_modes() {
    let graph = DocGraph::new();
    let nodes: Vec<Symbol> = Vec::new();
    let resolver = PathResolver;
    let ctx = empty_ctx(&graph, &nodes, &resolver);
    let none = JsDoc { doc: None, tags: vec![] };
    assert!(jsdoc_body_to_html(&ctx, &none, false).is_none());
    let some = JsDoc { doc: Some(b"hello *there*".to_vec()), tags: vec![] };
    let html = String::from_utf8(jsdoc_body_to_html(&ctx, &some, false).unwrap()).unwrap();
    assert!(html.contains("hello"));
    assert!(html.contains("<em>there</em>"));
}

#[test]
fn module_doc_ctx_renders_deprecation_and_examples() {
    let mut graph = DocGraph::new();
    let mut module_doc = Symbol::new(b"".to_vec(), SymbolKind::ModuleDoc);
    module_doc.js_doc = JsDoc {
        doc: Some(b"The module overview.".to_vec()),
        tags: vec![
            JsDocTag::Deprecated { doc: Some(b"use the new one".to_vec()) },
            JsDocTag::Example { doc: b"demo".to_vec() },
        ],
    };
    let id = ModuleId::new(b"/m.ts".to_vec(), None, false);
    assert!(graph.add_module(id.clone(), vec![module_doc]));
    let nodes: Vec<Symbol> = Vec::new();
    let resolver = PathResolver;
    let ctx = empty_ctx(&graph, &nodes, &resolver);
    let md_ctx = ModuleDocCtx::new(&ctx, &id);
    assert_eq!(md_ctx.sections.id, b"module_doc".to_vec());
    let dep = String::from_utf8(md_ctx.deprecated.unwrap()).unwrap();
    assert!(dep.contains("use the new one"));
    let docs = String::from_utf8(md_ctx.sections.docs.unwrap()).unwrap();
    assert!(docs.contains("The module overview."));
    assert_eq!(md_ctx.sections.sections.len(), 1);
}

#[test]
fn render_variable_emits_type_section() {
    let graph = DocGraph::new();
    let nodes: Vec<Symbol> = Vec::new();
    let resolver = PathResolver;
    let ctx = empty_ctx(&graph, &nodes, &resolver);
    let mut sym = Symbol::new(b"answer".to_vec(), SymbolKind::Variable);
    sym.variable_def = Some(VariableDef { ts_type: Some(b"number".to_vec()) });
    let sections = render_variable(&ctx, &sym);
    assert_eq!(sections.len(), 1);
    assert_eq!(sections[0].title, b"Type".to_vec());
    match &sections[0].content {
        SectionContentCtx::DocEntry(entries) => {
            assert_eq!(entries.len(), 1);
            assert_eq!(entries[0].id, b"variable_answer".to_vec());
            assert_eq!(entries[0].content, b"number".to_vec());
        },
        _ => panic!("doc entry expected"),
    }
    let mut bare = Symbol::new(b"bare".to_vec(), SymbolKind::Variable);
    bare.variable_def = Some(VariableDef { ts_type: None });
    assert!(render_variable(&ctx, &bare).is_empty());
}

#[test]
fn duplicate_module_paths_are_refused() {
    let mut graph = DocGraph::new();
    assert!(graph.add_module(ModuleId::new(b"/a.ts".to_vec(), None, false), vec![]));
    assert!(!graph.add_module(ModuleId::new(b"/a.ts".to_vec(), None, true), vec![]));
    assert_eq!(graph.modules.len(), 1);
}

#[test]
fn empty_render_still_wraps() {
    let html = render("");
    assert_eq!(html, "<div class=\"markdown\"></div>");
}

#[test]
fn disallowed_html_is_removed_and_links_get_nofollow() {
    let html = render("before <script>alert(1)</script> after");
    assert!(!html.contains("<script"), "{html}");
    assert!(html.contains("before"), "{html}");
    assert!(html.contains("after"), "{html}");
    let html = render("[site](https://example.com/)");
    assert!(html.contains("rel=\"nofollow\""), "{html}");
}

#[test]
fn module_reference_with_one_trailing_whitespace_resolves() {
    let mut graph = DocGraph::new();
    assert!(graph.add_module(
        ModuleId::new(b"/b.ts".to_vec(), None, false),
        vec![Symbol::new(b"baz".to_vec(), SymbolKind::Interface)],
    ));
    let nodes: Vec<Symbol> = Vec::new();
    let resolver = PathResolver;
    let current = UrlResolveKind::Symbol {
        file: ModuleId::new(b"/b.ts".to_vec(), None, false),
        symbol: b"baz".to_vec(),
    };
    let ctx = RenderContext::new(&graph, &nodes, current, &resolver);
    let out = String::from_utf8(doc_md::links::parse_links(
        "foo {@link [b.ts]\t} bar".as_bytes(),
        &ctx,
    ))
    .unwrap();
    assert_eq!(out, "foo [b.ts](../../.././/b.ts/index.html) bar");
}

#[test]
fn alert_marker_line_inline_content_stays_in_body() {
    let html = render("> [!NOTE] Heads up *now*\n> body line");
    assert!(html.contains("alert alert-note"), "{html}");
    assert!(html.contains("Heads up"), "{html}");
    assert!(html.contains("<em>now</em>"), "{html}");
    assert!(html.contains("body line"), "{html}");
}

#[test]
fn example_body_renders_fenced_code() {
    let graph = DocGraph::new();
    let nodes: Vec<Symbol> = Vec::new();
    let resolver = PathResolver;
    let ctx = empty_ctx(&graph, &nodes, &resolver);
    let ex = ExampleCtx::new(&ctx, b"Adding numbers\n\n```js\nlet x = 1;\n```", 0);
    let body = String::from_utf8(ex.markdown_body).unwrap();
    assert!(body.contains("let x = 1;"), "{body}");
    assert!(body.starts_with("<div class=\"markdown\">"), "{body}");
}

#[test]
fn module_doc_ctx_lists_kind_sections_for_non_main_modules() {
    let mut graph = DocGraph::new();
    let nodes = vec![
        Symbol::new(b"Shape".to_vec(), SymbolKind::Interface),
        Symbol::new(b"limit".to_vec(), SymbolKind::Variable),
        Symbol::new(b"Area".to_vec(), SymbolKind::Interface),
    ];
    let id = ModuleId::new(b"/k.ts".to_vec(), None, false);
    assert!(graph.add_module(id.clone(), nodes));
    let current: Vec<Symbol> = Vec::new();
    let resolver = PathResolver;
    let ctx = empty_ctx(&graph, &current, &resolver);
    let md_ctx = ModuleDocCtx::new(&ctx, &id);
    let titles: Vec<String> = md_ctx
        .sections
        .sections
        .iter()
        .map(|s| String::from_utf8(s.title.clone()).unwrap())
        .collect();
    assert_eq!(titles, vec!["Interfaces".to_string(), "Variables".to_string()]);
    match &md_ctx.sections.sections[0].content {
        SectionContentCtx::DocEntry(es) => {
            assert_eq!(es.len(), 2);
            assert_eq!(es[0].name, b"Shape".to_vec());
            assert_eq!(es[0].id, b"interface_Shape".to_vec());
            assert_eq!(es[1].name, b"Area".to_vec());
        },
        _ => panic!("doc entries expected"),
    }

    let main_id = ModuleId::new(b"/m.ts".to_vec(), None, true);
    assert!(graph.add_module(main_id.clone(), vec![Symbol::new(b"x".to_vec(), SymbolKind::Variable)]));
    let ctx = empty_ctx(&graph, &current, &resolver);
    let md_ctx = ModuleDocCtx::new(&ctx, &main_id);
    assert!(md_ctx.sections.sections.is_empty());
}
