//! The markdown tree model: node kinds, the tree decoded from the parser
//! collaborator's XML interchange form, and the trusted calls into the
//! markdown parser and HTML emitter.

use vstd::prelude::*;

verus! {

/// The node kinds this pipeline distinguishes. Kinds the dialect logic never
/// reads are carried as [`MdKind::Other`].
#[derive(Clone, Copy, Debug, PartialEq, Eq, Structural)]
pub enum MdKind {
    Document,
    BlockQuote,
    Paragraph,
    Heading,
    Text,
    Code,
    CodeBlock,
    HtmlBlock,
    HtmlInline,
    Emph,
    Strong,
    Strikethrough,
    Superscript,
    Link,
    Image,
    Math,
    Escaped,
    WikiLink,
    Underline,
    SoftBreak,
    LineBreak,
    Table,
    Other,
}

/// One node of the parsed markdown tree: kind, literal content (text and code
/// runs), link destination, source position (1-based line/column of first and
/// last byte) and children.
pub struct MdNode {
    pub kind: MdKind,
    pub literal: Vec<u8>,
    pub url: Vec<u8>,
    pub sl: usize,
    pub sc: usize,
    pub el: usize,
    pub ec: usize,
    pub children: Vec<MdNode>,
}

} // verus!

use vstd::string::StringSliceAdditionalSpecFns;

use crate::bytes::str_bytes;

verus! {

/// What the markdown parser's XML serialization returns: a pure function of
/// the input text, since the option set is fixed here.
pub uninterp spec fn xml_of(md: Seq<u8>) -> Seq<u8>;

/// What the HTML emitter returns for a markdown text under this library's
/// fixed option set: a pure function of the input text.
pub uninterp spec fn html_of(md: Seq<u8>) -> Seq<u8>;

/// Relies on comrak::markdown_to_commonmark_xml: serializes the parse of `md`
/// (under the fixed extension set of this pipeline, with source positions) to
/// CommonMark XML; the result depends on the input text alone.
#[verifier::external_body]
pub(crate) fn md_to_xml(md: &[u8]) -> (r: Vec<u8>)
    ensures
        r@ == xml_of(md@),
{
    let mut options = comrak::Options::default();
    options.extension.autolink = true;
    options.extension.description_lists = true;
    options.extension.strikethrough = true;
    options.extension.superscript = true;
    options.extension.table = true;
    options.extension.tagfilter = true;
    options.extension.tasklist = true;
    options.render.sourcepos = true;
    comrak::markdown_to_commonmark_xml(&String::from_utf8_lossy(md), &options).into_bytes()
}

/// Relies on comrak::markdown_to_html: renders `md` to HTML under the fixed
/// extension set, with raw HTML passed through (sanitization always follows
/// in this pipeline); the result depends on the input text alone.
#[verifier::external_body]
pub(crate) fn md_to_html(md: &[u8]) -> (r: Vec<u8>)
    ensures
        r@ == html_of(md@),
{
    let mut options = comrak::Options::default();
    options.extension.autolink = true;
    options.extension.description_lists = true;
    options.extension.strikethrough = true;
    options.extension.superscript = true;
    options.extension.table = true;
    options.extension.tagfilter = true;
    options.extension.tasklist = true;
    options.render.unsafe_ = true;
    comrak::markdown_to_html(&String::from_utf8_lossy(md), &options).into_bytes()
}

/// Spec-level twin of [`MdNode`].
pub ghost struct MdView {
    pub kind: MdKind,
    pub literal: Seq<u8>,
    pub url: Seq<u8>,
    pub sl: int,
    pub sc: int,
    pub el: int,
    pub ec: int,
    pub children: Seq<MdView>,
}

/// The view of one node.
pub open spec fn node_view(n: MdNode) -> MdView
    decreases n,
{
    MdView {
        kind: n.kind,
        literal: n.literal@,
        url: n.url@,
        sl: n.sl as int,
        sc: n.sc as int,
        el: n.el as int,
        ec: n.ec as int,
        children: children_view(n.children@),
    }
}

/// The views of a child list, in order.
pub open spec fn children_view(cs: Seq<MdNode>) -> Seq<MdView>
    decreases cs,
{
    if cs.len() == 0 {
        Seq::empty()
    } else {
        seq![node_view(cs[0])] + children_view(cs.drop_first())
    }
}

impl View for MdNode {
    type V = MdView;

    open spec fn view(&self) -> MdView {
        node_view(*self)
    }
}

/// A child list's view is elementwise the children's views.
pub broadcast proof fn lemma_children_view(cs: Seq<MdNode>)
    ensures
        (#[trigger] children_view(cs)).len() == cs.len(),
        forall|i: int| 0 <= i < cs.len() ==> children_view(cs)[i] == node_view(cs[i]),
    decreases cs,
{
    if cs.len() > 0 {
        lemma_children_view(cs.drop_first());
        assert forall|i: int| 0 <= i < cs.len() implies children_view(cs)[i] == node_view(
            cs[i],
        ) by {
            if i > 0 {
                assert(children_view(cs.drop_first())[i - 1] == node_view(cs.drop_first()[i
                    - 1]));
                assert(cs.drop_first()[i - 1] == cs[i]);
            }
        }
    }
}

/// Index of the first byte at or after `i` that is neither a space nor a
/// line break, the padding between serialized nodes.
pub open spec fn spec_skip_blank(s: Seq<u8>, i: int) -> int
    decreases s.len() - i,
{
    if i < 0 || i >= s.len() {
        i
    } else if s[i] == 32 || s[i] == 10 || s[i] == 13 {
        spec_skip_blank(s, i + 1)
    } else {
        i
    }
}

fn skip_blank(s: &[u8], i: usize) -> (r: usize)
    requires
        i <= s@.len(),
    ensures
        r == spec_skip_blank(s@, i as int),
        i <= r <= s@.len(),
{
    let mut k: usize = i;
    while k < s.len() && (s[k] == 32 || s[k] == 10 || s[k] == 13)
        invariant
            i <= k <= s@.len(),
            spec_skip_blank(s@, i as int) == spec_skip_blank(s@, k as int),
        decreases s.len() - k,
    {
        k += 1;
    }
    k
}

/// First `</` at or after `i`.
pub open spec fn spec_find_close(s: Seq<u8>, i: int) -> Option<int>
    decreases s.len() - i,
{
    if i < 0 || i >= s.len() {
        None
    } else if s[i] == 60 && i + 1 < s.len() && s[i + 1] == 47 {
        Some(i)
    } else {
        spec_find_close(s, i + 1)
    }
}

fn find_close(s: &[u8], from: usize) -> (r: Option<usize>)
    requires
        from <= s@.len(),
    ensures
        (match r {
            Some(u) => spec_find_close(s@, from as int) == Some(u as int) && from <= u && u + 1
                < s@.len(),
            None => spec_find_close(s@, from as int) is None,
        }),
{
    let mut k: usize = from;
    while k < s.len()
        invariant
            from <= k <= s@.len(),
            spec_find_close(s@, from as int) == spec_find_close(s@, k as int),
        decreases s.len() - k,
    {
        if s[k] == 60 && k + 1 < s.len() && s[k + 1] == 47 {
            return Some(k);
        }
        k += 1;
    }
    None
}

/// XML unescaping: `&quot;`, `&amp;`, `&lt;`, `&gt;` become the bytes they
/// stand for; any other `&` is kept as it is.
pub open spec fn spec_unescape(s: Seq<u8>) -> Seq<u8>
    decreases s.len(),
{
    if s.len() == 0 {
        Seq::empty()
    } else if s[0] == 38 {
        if s.len() >= 6 && s[1] == 113 && s[2] == 117 && s[3] == 111 && s[4] == 116 && s[5]
            == 59 {
            seq![34u8] + spec_unescape(s.skip(6))
        } else if s.len() >= 5 && s[1] == 97 && s[2] == 109 && s[3] == 112 && s[4] == 59 {
            seq![38u8] + spec_unescape(s.skip(5))
        } else if s.len() >= 4 && s[1] == 108 && s[2] == 116 && s[3] == 59 {
            seq![60u8] + spec_unescape(s.skip(4))
        } else if s.len() >= 4 && s[1] == 103 && s[2] == 116 && s[3] == 59 {
            seq![62u8] + spec_unescape(s.skip(4))
        } else {
            seq![38u8] + spec_unescape(s.skip(1))
        }
    } else {
        seq![s[0]] + spec_unescape(s.skip(1))
    }
}

fn unescape(s: &[u8], from: usize, to: usize) -> (r: Vec<u8>)
    requires
        from <= to <= s@.len(),
    ensures
        r@ == spec_unescape(s@.subrange(from as int, to as int)),
{
    let mut out: Vec<u8> = Vec::new();
    let mut k: usize = from;
    while k < to
        invariant
            from <= k <= to <= s@.len(),
            out@ + spec_unescape(s@.subrange(k as int, to as int)) == spec_unescape(
                s@.subrange(from as int, to as int),
            ),
        decreases to - k,
    {
        let ghost cur = s@.subrange(k as int, to as int);
        let b = s[k];
        if b == 38 {
            if to - k >= 6 && s[k + 1] == 113 && s[k + 2] == 117 && s[k + 3] == 111 && s[k + 4]
                == 116 && s[k + 5] == 59 {
                out.push(34);
                proof {
                    assert(cur.skip(6) =~= s@.subrange(k + 6, to as int));
                }
                k += 6;
            } else if to - k >= 5 && s[k + 1] == 97 && s[k + 2] == 109 && s[k + 3] == 112 && s[k
                + 4] == 59 {
                out.push(38);
                proof {
                    assert(cur.skip(5) =~= s@.subrange(k + 5, to as int));
                }
                k += 5;
            } else if to - k >= 4 && s[k + 1] == 108 && s[k + 2] == 116 && s[k + 3] == 59 {
                out.push(60);
                proof {
                    assert(cur.skip(4) =~= s@.subrange(k + 4, to as int));
                }
                k += 4;
            } else if to - k >= 4 && s[k + 1] == 103 && s[k + 2] == 116 && s[k + 3] == 59 {
                out.push(62);
                proof {
                    assert(cur.skip(4) =~= s@.subrange(k + 4, to as int));
                }
                k += 4;
            } else {
                out.push(38);
                proof {
                    assert(cur.skip(1) =~= s@.subrange(k + 1, to as int));
                }
                k += 1;
            }
        } else {
            out.push(b);
            proof {
                assert(cur.skip(1) =~= s@.subrange(k + 1, to as int));
            }
            k += 1;
        }
        assert(out@ + spec_unescape(s@.subrange(k as int, to as int)) =~= spec_unescape(
            s@.subrange(from as int, to as int),
        ));
    }
    proof {
        assert(s@.subrange(to as int, to as int) =~= Seq::<u8>::empty());
        assert(out@ =~= spec_unescape(s@.subrange(from as int, to as int)));
    }
    out
}

/// First byte at or after `i` that ends an element name: a space, `>`, `/`
/// or a line break.
pub open spec fn spec_name_end(s: Seq<u8>, i: int) -> int
    decreases s.len() - i,
{
    if i < 0 || i >= s.len() {
        i
    } else if s[i] == 32 || s[i] == 62 || s[i] == 47 || s[i] == 10 {
        i
    } else {
        spec_name_end(s, i + 1)
    }
}

fn name_end(s: &[u8], i: usize) -> (r: usize)
    requires
        i <= s@.len(),
    ensures
        r == spec_name_end(s@, i as int),
        i <= r <= s@.len(),
{
    let mut k: usize = i;
    while k < s.len() && s[k] != 32 && s[k] != 62 && s[k] != 47 && s[k] != 10
        invariant
            i <= k <= s@.len(),
            spec_name_end(s@, i as int) == spec_name_end(s@, k as int),
        decreases s.len() - k,
    {
        k += 1;
    }
    k
}

/// The value of the attribute introduced by `pat` (name plus `="`) in a tag
/// header, unescaped; empty when the attribute is absent.
pub open spec fn spec_attr_value(header: Seq<u8>, pat: Seq<u8>) -> Seq<u8> {
    match crate::bytes::spec_find(header, pat, 0) {
        Some(p) => {
            match crate::bytes::spec_find_byte(header, 34, p + pat.len()) {
                Some(v1) => {
                    if 0 <= p && p + pat.len() <= v1 <= header.len() {
                        spec_unescape(header.subrange(p + pat.len(), v1))
                    } else {
                        Seq::empty()
                    }
                },
                None => Seq::empty(),
            }
        },
        None => Seq::empty(),
    }
}

fn attr_value(header: &[u8], pat: &[u8]) -> (r: Vec<u8>)
    ensures
        r@ == spec_attr_value(header@, pat@),
{
    let n = header.len();
    match crate::bytes::find_subseq(header, pat, 0) {
        None => Vec::new(),
        Some(p) => {
            assert(p + pat@.len() <= n);
            let v0 = p + pat.len();
            match crate::bytes::find_byte(header, 34, v0) {
                None => Vec::new(),
                Some(v1) => unescape(header, v0, v1),
            }
        },
    }
}

/// Decimal accumulation mirroring [`parse_num`]: digits extend the value
/// until a non-digit; a value that would overflow the machine word collapses
/// to zero.
pub open spec fn spec_num(s: Seq<u8>, i: int, v: int, ok: bool) -> (int, int)
    decreases s.len() - i,
{
    if !(0 <= i < s.len() && 48 <= s[i] <= 57) {
        ((if ok {
            v
        } else {
            0
        }), i)
    } else {
        let d = s[i] - 48;
        if ok && v <= (usize::MAX as int - 9) / 10 {
            spec_num(s, i + 1, v * 10 + d, true)
        } else {
            spec_num(s, i + 1, 0, false)
        }
    }
}

/// Reads an unsigned decimal at `i`; stops at the first non-digit.
fn parse_num(s: &[u8], i: usize) -> (r: (usize, usize))
    requires
        i <= s@.len(),
    ensures
        (r.0 as int, r.1 as int) == spec_num(s@, i as int, 0, true),
        i <= r.1 <= s@.len(),
{
    let mut k: usize = i;
    let mut v: usize = 0;
    let mut ok = true;
    while k < s.len() && 48 <= s[k] && s[k] <= 57
        invariant
            i <= k <= s@.len(),
            ok ==> v as int <= usize::MAX as int,
            !ok ==> v == 0,
            spec_num(s@, i as int, 0, true) == spec_num(s@, k as int, v as int, ok),
        decreases s.len() - k,
    {
        let d = (s[k] - 48) as usize;
        if ok && v <= (usize::MAX - 9) / 10 {
            v = v * 10 + d;
        } else {
            ok = false;
            v = 0;
        }
        k += 1;
    }
    (if ok { v } else { 0 }, k)
}

/// The four numbers of a `sourcepos="a:b-c:d"` attribute; zeros when absent
/// or malformed.
pub open spec fn spec_sourcepos(header: Seq<u8>) -> (int, int, int, int) {
    let pat = crate::bytes::lit(" sourcepos=\"");
    match crate::bytes::spec_find(header, pat, 0) {
        None => (0, 0, 0, 0),
        Some(p) => {
            let v0 = p + pat.len();
            if !(0 <= v0 <= header.len()) {
                (0, 0, 0, 0)
            } else {
                let (sl, k1) = spec_num(header, v0, 0, true);
                if !(0 <= k1 < header.len() && header[k1] == 58) {
                    (0, 0, 0, 0)
                } else {
                    let (sc, k2) = spec_num(header, k1 + 1, 0, true);
                    if !(0 <= k2 < header.len() && header[k2] == 45) {
                        (0, 0, 0, 0)
                    } else {
                        let (el, k3) = spec_num(header, k2 + 1, 0, true);
                        if !(0 <= k3 < header.len() && header[k3] == 58) {
                            (0, 0, 0, 0)
                        } else {
                            let (ec, _k4) = spec_num(header, k3 + 1, 0, true);
                            (sl, sc, el, ec)
                        }
                    }
                }
            }
        },
    }
}

fn parse_sourcepos(header: &[u8]) -> (r: (usize, usize, usize, usize))
    ensures
        (r.0 as int, r.1 as int, r.2 as int, r.3 as int) == spec_sourcepos(header@),
{
    let n = header.len();
    let pat = str_bytes(" sourcepos=\"");
    match crate::bytes::find_subseq(header, pat.as_slice(), 0) {
        None => (0, 0, 0, 0),
        Some(p) => {
            assert(p + pat@.len() <= n);
            let v0 = p + pat.len();
            let (sl, k1) = parse_num(header, v0);
            if !(k1 < header.len() && header[k1] == 58) {
                return (0, 0, 0, 0);
            }
            let (sc, k2) = parse_num(header, k1 + 1);
            if !(k2 < header.len() && header[k2] == 45) {
                return (0, 0, 0, 0);
            }
            let (el, k3) = parse_num(header, k2 + 1);
            if !(k3 < header.len() && header[k3] == 58) {
                return (0, 0, 0, 0);
            }
            let (ec, _k4) = parse_num(header, k3 + 1);
            (sl, sc, el, ec)
        },
    }
}

/// The kind a serialized element name stands for.
pub open spec fn spec_kind_of(name: Seq<u8>) -> MdKind {
    if name == crate::bytes::lit("document") {
        MdKind::Document
    } else if name == crate::bytes::lit("block_quote") {
        MdKind::BlockQuote
    } else if name == crate::bytes::lit("paragraph") {
        MdKind::Paragraph
    } else if name == crate::bytes::lit("heading") {
        MdKind::Heading
    } else if name == crate::bytes::lit("text") {
        MdKind::Text
    } else if name == crate::bytes::lit("code") {
        MdKind::Code
    } else if name == crate::bytes::lit("code_block") {
        MdKind::CodeBlock
    } else if name == crate::bytes::lit("html_block") {
        MdKind::HtmlBlock
    } else if name == crate::bytes::lit("html_inline") {
        MdKind::HtmlInline
    } else if name == crate::bytes::lit("emph") {
        MdKind::Emph
    } else if name == crate::bytes::lit("strong") {
        MdKind::Strong
    } else if name == crate::bytes::lit("strikethrough") {
        MdKind::Strikethrough
    } else if name == crate::bytes::lit("superscript") {
        MdKind::Superscript
    } else if name == crate::bytes::lit("link") {
        MdKind::Link
    } else if name == crate::bytes::lit("image") {
        MdKind::Image
    } else if name == crate::bytes::lit("math") {
        MdKind::Math
    } else if name == crate::bytes::lit("escaped") {
        MdKind::Escaped
    } else if name == crate::bytes::lit("wikilink") {
        MdKind::WikiLink
    } else if name == crate::bytes::lit("underline") {
        MdKind::Underline
    } else if name == crate::bytes::lit("softbreak") {
        MdKind::SoftBreak
    } else if name == crate::bytes::lit("linebreak") {
        MdKind::LineBreak
    } else if name == crate::bytes::lit("table") {
        MdKind::Table
    } else {
        MdKind::Other
    }
}

fn kind_of_name(name: &[u8]) -> (r: MdKind)
    ensures
        r == spec_kind_of(name@),
{
    if crate::bytes::eq_bytes(name, str_bytes("document").as_slice()) {
        MdKind::Document
    } else if crate::bytes::eq_bytes(name, str_bytes("block_quote").as_slice()) {
        MdKind::BlockQuote
    } else if crate::bytes::eq_bytes(name, str_bytes("paragraph").as_slice()) {
        MdKind::Paragraph
    } else if crate::bytes::eq_bytes(name, str_bytes("heading").as_slice()) {
        MdKind::Heading
    } else if crate::bytes::eq_bytes(name, str_bytes("text").as_slice()) {
        MdKind::Text
    } else if crate::bytes::eq_bytes(name, str_bytes("code").as_slice()) {
        MdKind::Code
    } else if crate::bytes::eq_bytes(name, str_bytes("code_block").as_slice()) {
        MdKind::CodeBlock
    } else if crate::bytes::eq_bytes(name, str_bytes("html_block").as_slice()) {
        MdKind::HtmlBlock
    } else if crate::bytes::eq_bytes(name, str_bytes("html_inline").as_slice()) {
        MdKind::HtmlInline
    } else if crate::bytes::eq_bytes(name, str_bytes("emph").as_slice()) {
        MdKind::Emph
    } else if crate::bytes::eq_bytes(name, str_bytes("strong").as_slice()) {
        MdKind::Strong
    } else if crate::bytes::eq_bytes(name, str_bytes("strikethrough").as_slice()) {
        MdKind::Strikethrough
    } else if crate::bytes::eq_bytes(name, str_bytes("superscript").as_slice()) {
        MdKind::Superscript
    } else if crate::bytes::eq_bytes(name, str_bytes("link").as_slice()) {
        MdKind::Link
    } else if crate::bytes::eq_bytes(name, str_bytes("image").as_slice()) {
        MdKind::Image
    } else if crate::bytes::eq_bytes(name, str_bytes("math").as_slice()) {
        MdKind::Math
    } else if crate::bytes::eq_bytes(name, str_bytes("escaped").as_slice()) {
        MdKind::Escaped
    } else if crate::bytes::eq_bytes(name, str_bytes("wikilink").as_slice()) {
        MdKind::WikiLink
    } else if crate::bytes::eq_bytes(name, str_bytes("underline").as_slice()) {
        MdKind::Underline
    } else if crate::bytes::eq_bytes(name, str_bytes("softbreak").as_slice()) {
        MdKind::SoftBreak
    } else if crate::bytes::eq_bytes(name, str_bytes("linebreak").as_slice()) {
        MdKind::LineBreak
    } else if crate::bytes::eq_bytes(name, str_bytes("table").as_slice()) {
        MdKind::Table
    } else {
        MdKind::Other
    }
}

/// Element names whose serialized form carries literal content inline.
pub open spec fn spec_is_literal_name(name: Seq<u8>) -> bool {
    ||| name == crate::bytes::lit("text")
    ||| name == crate::bytes::lit("code")
    ||| name == crate::bytes::lit("code_block")
    ||| name == crate::bytes::lit("html_block")
    ||| name == crate::bytes::lit("html_inline")
    ||| name == crate::bytes::lit("raw")
    ||| name == crate::bytes::lit("math")
}

fn is_literal_name(name: &[u8]) -> (r: bool)
    ensures
        r == spec_is_literal_name(name@),
{
    crate::bytes::eq_bytes(name, str_bytes("text").as_slice()) || crate::bytes::eq_bytes(
        name,
        str_bytes("code").as_slice(),
    ) || crate::bytes::eq_bytes(name, str_bytes("code_block").as_slice())
        || crate::bytes::eq_bytes(name, str_bytes("html_block").as_slice())
        || crate::bytes::eq_bytes(name, str_bytes("html_inline").as_slice())
        || crate::bytes::eq_bytes(name, str_bytes("raw").as_slice()) || crate::bytes::eq_bytes(
        name,
        str_bytes("math").as_slice(),
    )
}

/// One serialized node decoded at or after `i`: `None` on a close tag or any
/// malformed input; otherwise the node and the index just past it.
pub open spec fn spec_parse_node(s: Seq<u8>, i: int) -> Option<(MdView, int)>
    decreases s.len() - i, 0int,
{
    let n = s.len() as int;
    if !(0 <= i <= n) {
        None
    } else {
        let i1r = spec_skip_blank(s, i);
        let i1 = if i <= i1r <= n {
            i1r
        } else {
            i
        };
        if !(i1 < n && s[i1] == 60) {
            None
        } else if !(i1 + 1 < n) || s[i1 + 1] == 47 {
            None
        } else {
            let jr = spec_name_end(s, i1 + 1);
            let j = if i1 + 1 <= jr <= n {
                jr
            } else {
                i1 + 1
            };
            let name = s.subrange(i1 + 1, j);
            match crate::bytes::spec_find_byte(s, 62, j) {
                None => None,
                Some(e) => {
                    if !(i1 < e < n && j <= e) {
                        None
                    } else {
                        let header = s.subrange(i1, e);
                        let self_close = s[e - 1] == 47;
                        let kind = spec_kind_of(name);
                        let (sl, sc, el, ec) = spec_sourcepos(header);
                        let url = spec_attr_value(header, crate::bytes::lit(" destination=\""));
                        if self_close {
                            Some(
                                (
                                    MdView {
                                        kind,
                                        literal: Seq::empty(),
                                        url,
                                        sl,
                                        sc,
                                        el,
                                        ec,
                                        children: Seq::empty(),
                                    },
                                    e + 1,
                                ),
                            )
                        } else if spec_is_literal_name(name) {
                            match spec_find_close(s, e + 1) {
                                None => None,
                                Some(c) => {
                                    if !(e + 1 <= c <= n) {
                                        None
                                    } else {
                                        let literal = spec_unescape(s.subrange(e + 1, c));
                                        match crate::bytes::spec_find_byte(s, 62, c) {
                                            None => None,
                                            Some(e2) => {
                                                if c <= e2 < n {
                                                    Some(
                                                        (
                                                            MdView {
                                                                kind,
                                                                literal,
                                                                url,
                                                                sl,
                                                                sc,
                                                                el,
                                                                ec,
                                                                children: Seq::empty(),
                                                            },
                                                            e2 + 1,
                                                        ),
                                                    )
                                                } else {
                                                    None
                                                }
                                            },
                                        }
                                    }
                                },
                            }
                        } else {
                            match spec_parse_children(s, e + 1) {
                                None => None,
                                Some((cs, after)) => Some(
                                    (
                                        MdView {
                                            kind,
                                            literal: Seq::empty(),
                                            url,
                                            sl,
                                            sc,
                                            el,
                                            ec,
                                            children: cs,
                                        },
                                        after,
                                    ),
                                ),
                            }
                        }
                    }
                },
            }
        }
    }
}

/// The children of a container, decoded until the matching close tag.
pub open spec fn spec_parse_children(s: Seq<u8>, k: int) -> Option<(Seq<MdView>, int)>
    decreases s.len() - k, 1int,
{
    let n = s.len() as int;
    if !(0 <= k <= n) {
        None
    } else {
        let k1r = spec_skip_blank(s, k);
        let k1 = if k <= k1r <= n {
            k1r
        } else {
            k
        };
        if k1 < n && s[k1] == 60 && k1 + 1 < n && s[k1 + 1] == 47 {
            match crate::bytes::spec_find_byte(s, 62, k1) {
                None => None,
                Some(e3) => {
                    if k1 <= e3 < n {
                        Some((Seq::empty(), e3 + 1))
                    } else {
                        None
                    }
                },
            }
        } else {
            match spec_parse_node(s, k1) {
                None => None,
                Some((c, k2)) => {
                    if k1 < k2 <= n {
                        match spec_parse_children(s, k2) {
                            None => None,
                            Some((rest, after)) => Some((seq![c] + rest, after)),
                        }
                    } else {
                        None
                    }
                },
            }
        }
    }
}

/// Decodes one serialized node; executable twin of [`spec_parse_node`].
fn parse_node(s: &[u8], i: usize) -> (r: Option<(MdNode, usize)>)
    requires
        i <= s@.len(),
    ensures
        (match r {
            Some(p) => spec_parse_node(s@, i as int) == Some((p.0@, p.1 as int)) && i < p.1
                <= s@.len(),
            None => spec_parse_node(s@, i as int) is None,
        }),
    decreases s@.len() - i, 0int,
{
    broadcast use lemma_children_view;

    let n = s.len();
    let i1 = skip_blank(s, i);
    if !(i1 < n && s[i1] == 60) {
        return None;
    }
    if !(i1 + 1 < n) || s[i1 + 1] == 47 {
        return None;
    }
    let j = name_end(s, i1 + 1);
    let name = crate::bytes::sub_vec(s, i1 + 1, j);
    let e = match crate::bytes::find_byte(s, 62, j) {
        Some(e) => e,
        None => {
            return None;
        },
    };
    if !(i1 < e) {
        return None;
    }
    let header = crate::bytes::sub_vec(s, i1, e);
    let self_close = s[e - 1] == 47;
    let kind = kind_of_name(name.as_slice());
    let (sl, sc, el, ec) = parse_sourcepos(header.as_slice());
    let dest_pat = str_bytes(" destination=\"");
    let url = attr_value(header.as_slice(), dest_pat.as_slice());
    if self_close {
        let node = MdNode { kind, literal: Vec::new(), url, sl, sc, el, ec, children: Vec::new() };
        proof {
            assert(children_view(node.children@) =~= Seq::<MdView>::empty());
        }
        return Some((node, e + 1));
    }
    if is_literal_name(name.as_slice()) {
        let c = match find_close(s, e + 1) {
            Some(c) => c,
            None => {
                return None;
            },
        };
        let literal = unescape(s, e + 1, c);
        let e2 = match crate::bytes::find_byte(s, 62, c) {
            Some(x) => x,
            None => {
                return None;
            },
        };
        let node = MdNode { kind, literal, url, sl, sc, el, ec, children: Vec::new() };
        proof {
            assert(children_view(node.children@) =~= Seq::<MdView>::empty());
        }
        return Some((node, e2 + 1));
    }
    match parse_children(s, e + 1) {
        None => None,
        Some((children, after)) => {
            let node = MdNode { kind, literal: Vec::new(), url, sl, sc, el, ec, children };
            Some((node, after))
        },
    }
}

/// Decodes a container's children; executable twin of
/// [`spec_parse_children`].
fn parse_children(s: &[u8], k0: usize) -> (r: Option<(Vec<MdNode>, usize)>)
    requires
        k0 <= s@.len(),
    ensures
        (match r {
            Some(p) => spec_parse_children(s@, k0 as int) == Some((children_view(p.0@), p.1
                as int)) && k0 < p.1 <= s@.len(),
            None => spec_parse_children(s@, k0 as int) is None,
        }),
    decreases s@.len() - k0, 1int,
{
    broadcast use lemma_children_view;

    let n = s.len();
    let mut children: Vec<MdNode> = Vec::new();
    let mut k: usize = k0;
    proof {
        assert(children_view(children@) =~= Seq::<MdView>::empty());
    }
    loop
        invariant
            k0 <= k <= n == s@.len(),
            (match spec_parse_children(s@, k as int) {
                Some((rest, af)) => spec_parse_children(s@, k0 as int) == Some(
                    (children_view(children@) + rest, af),
                ),
                None => spec_parse_children(s@, k0 as int) is None,
            }),
        decreases s@.len() - k, 0int,
    {
        let k1 = skip_blank(s, k);
        if k1 < n && s[k1] == 60 && k1 + 1 < n && s[k1 + 1] == 47 {
            let e3 = match crate::bytes::find_byte(s, 62, k1) {
                Some(x) => x,
                None => {
                    return None;
                },
            };
            proof {
                assert(children_view(children@) + Seq::<MdView>::empty() =~= children_view(
                    children@,
                ));
            }
            return Some((children, e3 + 1));
        }
        match parse_node(s, k1) {
            None => {
                return None;
            },
            Some((c, k2)) => {
                let ghost cv = c@;
                let ghost before = children@;
                children.push(c);
                proof {
                    lemma_children_view(children@);
                    lemma_children_view(before);
                    assert forall|t: int| 0 <= t < children@.len() implies children_view(
                        children@,
                    )[t] == (children_view(before) + seq![cv])[t] by {
                        if t < before.len() {
                            assert(children@[t] == before[t]);
                        } else {
                            assert(children@[t] == children@.last());
                        }
                    }
                    assert(children_view(children@) =~= children_view(before) + seq![cv]);
                    match spec_parse_children(s@, k2 as int) {
                        Some((rest2, af)) => {
                            assert(children_view(before) + (seq![cv] + rest2) =~= children_view(
                                children@,
                            ) + rest2);
                        },
                        None => {},
                    }
                }
                k = k2;
            },
        }
    }
}

/// The tree encoded by a whole serialized document: the two header lines,
/// then the document element.
pub open spec fn spec_decode_xml(xml: Seq<u8>) -> Option<MdView> {
    match crate::bytes::spec_find_byte(xml, 10, 0) {
        None => None,
        Some(a) => {
            if !(0 <= a < xml.len()) {
                None
            } else {
                match crate::bytes::spec_find_byte(xml, 10, a + 1) {
                    None => None,
                    Some(b) => {
                        if !(a < b < xml.len()) {
                            None
                        } else {
                            match spec_parse_node(xml, b + 1) {
                                Some((doc, _next)) => Some(doc),
                                None => None,
                            }
                        }
                    },
                }
            }
        },
    }
}

/// What decoding the parser's serialization of `md` yields: the pipeline's
/// tree of `md`, a function of the text alone.
pub open spec fn spec_parse_doc(md: Seq<u8>) -> Option<MdView> {
    spec_decode_xml(xml_of(md))
}

/// Decodes the XML serialization of a whole document. `None` on any
/// malformed input; the serialized form of the collaborating parser always
/// decodes.
pub fn decode_xml(xml: &[u8]) -> (r: Option<MdNode>)
    ensures
        (match r {
            Some(t) => spec_decode_xml(xml@) == Some(t@),
            None => spec_decode_xml(xml@) is None,
        }),
{
    let n = xml.len();
    let a = match crate::bytes::find_byte(xml, 10, 0) {
        Some(a) => a,
        None => {
            return None;
        },
    };
    assert(a < n);
    let b = match crate::bytes::find_byte(xml, 10, a + 1) {
        Some(b) => b,
        None => {
            return None;
        },
    };
    assert(b < n);
    match parse_node(xml, b + 1) {
        Some((doc, _next)) => Some(doc),
        None => None,
    }
}

/// Parses markdown through the collaborator and decodes its tree; the tree is
/// the fixed function [`spec_parse_doc`] of the input text.
pub fn parse_doc(md: &[u8]) -> (r: Option<MdNode>)
    ensures
        (match r {
            Some(t) => spec_parse_doc(md@) == Some(t@),
            None => spec_parse_doc(md@) is None,
        }),
{
    let xml = md_to_xml(md);
    decode_xml(xml.as_slice())
}

} // verus!
