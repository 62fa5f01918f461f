//! The cross-reference resolver and the alert pipeline, exercised end to end
//! with the real markdown parser and sanitizer linked.

use doc_md::graph::{DocGraph, ModuleId, Symbol, SymbolKind, UrlResolveKind};
use doc_md::links::parse_links;
use doc_md::render::render_markdown;
use doc_md::resolve::{PathResolver, RenderContext};

fn interface(name: &str) -> Symbol {
    Symbol::new(name.as_bytes().to_vec(), SymbolKind::Interface)
}

fn module(path: &str) -> ModuleId {
    ModuleId::new(path.as_bytes().to_vec(), None, false)
}

fn test_graph() -> DocGraph {
    let mut graph = DocGraph::new();
    assert!(graph.add_module(module("/a.ts"), vec![interface("foo"), interface("bar")]));
    assert!(graph.add_module(module("/b.ts"), vec![interface("baz")]));
    graph
}

fn links(graph: &DocGraph, nodes: &Vec<Symbol>, resolver: &PathResolver, md: &str) -> String {
    let current = UrlResolveKind::Symbol {
        file: module("/a.ts"),
        symbol: b"foo".to_vec(),
    };
    let ctx = RenderContext::new(graph, nodes, current, resolver);
    String::from_utf8(parse_links(md.as_bytes(), &ctx)).unwrap()
}

#[test]
fn parse_links_test() {
    let graph = test_graph();
    let nodes = graph.modules[0].nodes.clone();
    let resolver = PathResolver;

    assert_eq!(
        links(&graph, &nodes, &resolver, "foo {@link https://example.com} bar"),
        "foo [https://example.com](https://example.com) bar"
    );
    assert_eq!(
        links(&graph, &nodes, &resolver, "foo {@linkcode https://example.com} bar"),
        "foo [`https://example.com`](https://example.com) bar"
    );

    assert_eq!(
        links(&graph, &nodes, &resolver, "foo {@link https://example.com Example} bar"),
        "foo [Example](https://example.com) bar"
    );
    assert_eq!(
        links(&graph, &nodes, &resolver, "foo {@link https://example.com|Example} bar"),
        "foo [Example](https://example.com) bar"
    );
    assert_eq!(
        links(&graph, &nodes, &resolver, "foo {@linkcode https://example.com Example} bar"),
        "foo [`Example`](https://example.com) bar"
    );

    assert_eq!(
        links(&graph, &nodes, &resolver, "foo {@link unknownSymbol} bar"),
        "foo unknownSymbol bar"
    );
    assert_eq!(
        links(&graph, &nodes, &resolver, "foo {@linkcode unknownSymbol} bar"),
        "foo `unknownSymbol` bar"
    );

    assert_eq!(
        links(&graph, &nodes, &resolver, "foo {@link bar} bar"),
        "foo [bar](../../.././/a.ts/~/bar.html) bar"
    );
    assert_eq!(
        links(&graph, &nodes, &resolver, "foo {@linkcode bar} bar"),
        "foo [`bar`](../../.././/a.ts/~/bar.html) bar"
    );

    assert_eq!(
        links(&graph, &nodes, &resolver, "foo {@link [b.ts]} bar"),
        "foo [b.ts](../../.././/b.ts/index.html) bar"
    );
    assert_eq!(
        links(&graph, &nodes, &resolver, "foo {@linkcode [b.ts]} bar"),
        "foo [`b.ts`](../../.././/b.ts/index.html) bar"
    );

    assert_eq!(
        links(&graph, &nodes, &resolver, "foo {@link [b.ts].baz} bar"),
        "foo [b.ts baz](../../.././/b.ts/~/baz.html) bar"
    );
    assert_eq!(
        links(&graph, &nodes, &resolver, "foo {@linkcode [b.ts].baz} bar"),
        "foo [`b.ts baz`](../../.././/b.ts/~/baz.html) bar"
    );
}

#[test]
fn markdown_alerts() {
    let graph = DocGraph::new();
    let nodes: Vec<Symbol> = Vec::new();
    let resolver = PathResolver;
    let ctx = RenderContext::new(&graph, &nodes, UrlResolveKind::AllSymbols, &resolver);

    let md = String::from_utf8(render_markdown(
        &ctx,
        "\n      > [!NOTE]\n      > foo\n      >\n      > bar".as_bytes(),
        true,
    ))
    .unwrap();

    assert!(md.contains("foo"));
    assert!(md.contains("bar"));

    let md = String::from_utf8(render_markdown(
        &ctx,
        "\n      > [!NOTE]\n      >\n      > foo\n      >\n      > bar".as_bytes(),
        true,
    ))
    .unwrap();

    assert!(md.contains("foo"));
    assert!(md.contains("bar"));
}
