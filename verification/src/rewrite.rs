//! The tree rewriter: blockquotes marked as alert callouts and links to video
//! files are replaced, in the markdown source, by raw-HTML blocks. Each
//! replacement is computed as a byte-range edit from the parsed tree's source
//! positions; the edits are then spliced into the text, which the HTML
//! emitter serializes with raw HTML passed through.

use vstd::prelude::*;
use vstd::string::StringSliceAdditionalSpecFns;

use crate::bytes::{find_byte, lit, push_all, spec_find_byte, str_bytes, sub_vec};
use crate::md::{children_view, html_of, lemma_children_view, md_to_html, node_view, MdKind, MdNode, MdView};

verus! {

/// The five alert callout kinds.
#[derive(Clone, Copy, Debug, PartialEq, Eq, Structural)]
pub enum AlertKind {
    Note,
    Tip,
    Important,
    Warning,
    Caution,
}

/// The marker kind named by the first whitespace-delimited token of a
/// blockquote's first text run.
pub open spec fn spec_marker_kind(head: Seq<u8>) -> Option<AlertKind> {
    if head == lit("[!NOTE]") {
        Some(AlertKind::Note)
    } else if head == lit("[!TIP]") {
        Some(AlertKind::Tip)
    } else if head == lit("[!IMPORTANT]") {
        Some(AlertKind::Important)
    } else if head == lit("[!WARNING]") {
        Some(AlertKind::Warning)
    } else if head == lit("[!CAUTION]") {
        Some(AlertKind::Caution)
    } else {
        None
    }
}

/// The default title of each alert kind.
pub open spec fn spec_default_title(kind: AlertKind) -> Seq<u8> {
    match kind {
        AlertKind::Note => lit("Note"),
        AlertKind::Tip => lit("Tip"),
        AlertKind::Important => lit("Important"),
        AlertKind::Warning => lit("Warning"),
        AlertKind::Caution => lit("Caution"),
    }
}

/// The class suffix of each alert kind.
pub open spec fn spec_alert_class(kind: AlertKind) -> Seq<u8> {
    match kind {
        AlertKind::Note => lit("note"),
        AlertKind::Tip => lit("tip"),
        AlertKind::Important => lit("important"),
        AlertKind::Warning => lit("warning"),
        AlertKind::Caution => lit("caution"),
    }
}

/// The inline vector icon shown beside each alert title.
pub open spec fn spec_alert_icon(kind: AlertKind) -> Seq<u8> {
    match kind {
        AlertKind::Note => lit(
            "<svg xmlns=\"http://www.w3.org/2000/svg\" width=\"16\" height=\"16\" viewBox=\"0 0 16 16\" fill=\"none\" stroke=\"currentColor\"><path d=\"M8 1a7 7 0 1 0 0 14A7 7 0 0 0 8 1Zm0 4v4m0 3h0\"/></svg>",
        ),
        AlertKind::Tip => lit(
            "<svg xmlns=\"http://www.w3.org/2000/svg\" width=\"16\" height=\"16\" viewBox=\"0 0 16 16\" fill=\"none\" stroke=\"currentColor\"><path d=\"M6 14h4m-5-3a5 5 0 1 1 6 0c-1 1-1 2-1 2H6s0-1-1-2Z\"/></svg>",
        ),
        AlertKind::Important => lit(
            "<svg xmlns=\"http://www.w3.org/2000/svg\" width=\"16\" height=\"16\" viewBox=\"0 0 16 16\" fill=\"none\" stroke=\"currentColor\"><path d=\"M2 2h12v9H9l-3 3v-3H2Zm6 2v3m0 2h0\"/></svg>",
        ),
        AlertKind::Warning => lit(
            "<svg xmlns=\"http://www.w3.org/2000/svg\" width=\"16\" height=\"16\" viewBox=\"0 0 16 16\" fill=\"none\" stroke=\"currentColor\"><path d=\"M8 2 1 14h14L8 2Zm0 5v3m0 2h0\"/></svg>",
        ),
        AlertKind::Caution => lit(
            "<svg xmlns=\"http://www.w3.org/2000/svg\" width=\"16\" height=\"16\" viewBox=\"0 0 16 16\" fill=\"none\" stroke=\"currentColor\"><path d=\"M5 1h6l4 4v6l-4 4H5l-4-4V5Zm3 3v4m0 3h0\"/></svg>",
        ),
    }
}

/// The marker and title carried by a blockquote's first text run: the token
/// before the first space names the kind, everything after the first space is
/// a custom title; without one, the kind's default title applies.
pub open spec fn spec_alert_head(text: Seq<u8>) -> Option<(AlertKind, Seq<u8>)> {
    match spec_find_byte(text, 32, 0) {
        Some(p) => {
            match spec_marker_kind(text.subrange(0, p)) {
                Some(kind) => Some((kind, text.subrange(p + 1, text.len() as int))),
                None => None,
            }
        },
        None => {
            match spec_marker_kind(text) {
                Some(kind) => Some((kind, spec_default_title(kind))),
                None => None,
            }
        },
    }
}

/// An alert callout: a blockquote whose first child is a paragraph whose
/// first child is a text run starting with one of the markers.
pub open spec fn spec_alert_of(n: MdView) -> Option<(AlertKind, Seq<u8>)> {
    if n.kind == MdKind::BlockQuote && n.children.len() >= 1 && n.children[0].kind
        == MdKind::Paragraph && n.children[0].children.len() >= 1
        && n.children[0].children[0].kind == MdKind::Text {
        spec_alert_head(n.children[0].children[0].literal)
    } else {
        None
    }
}

/// True when an URL names an embeddable video file.
pub open spec fn spec_is_video(url: Seq<u8>) -> bool {
    let n = url.len() as int;
    ||| (n >= 4 && url[n - 4] == 46 && url[n - 3] == 109 && url[n - 2] == 112 && url[n - 1]
        == 52)
    ||| (n >= 4 && url[n - 4] == 46 && url[n - 3] == 109 && url[n - 2] == 111 && url[n - 1]
        == 118)
}

/// Executable twin of [`spec_is_video`]: the URL ends in `.mp4` or `.mov`.
pub fn is_video(url: &[u8]) -> (r: bool)
    ensures
        r == spec_is_video(url@),
{
    let n = url.len();
    if n < 4 {
        return false;
    }
    (url[n - 4] == 46 && url[n - 3] == 109 && url[n - 2] == 112 && url[n - 1] == 52) || (url[n
        - 4] == 46 && url[n - 3] == 109 && url[n - 2] == 111 && url[n - 1] == 118)
}

/// The raw-HTML replacement of a video link.
pub open spec fn spec_video_html(url: Seq<u8>) -> Seq<u8> {
    lit("<video src=\"") + url + lit("\" controls></video>")
}

/// The raw-HTML replacement of an alert callout, given the HTML of its
/// remaining content.
pub open spec fn spec_alert_html(kind: AlertKind, title: Seq<u8>, body_html: Seq<u8>) -> Seq<u8> {
    lit("<div class=\"alert alert-") + spec_alert_class(kind) + lit("\"><div>") + spec_alert_icon(
        kind,
    ) + title + lit("</div><div>") + body_html + lit("</div></div>")
}

/// Byte offset where line `l` (1-based) starts; one past the end for the line
/// after the last line break.
pub open spec fn spec_line_start(s: Seq<u8>, l: int) -> int
    decreases l,
{
    if l <= 1 {
        0
    } else {
        match spec_find_byte(s, 10, spec_line_start(s, l - 1)) {
            Some(p) => p + 1,
            None => s.len() as int + 1,
        }
    }
}

fn line_start(s: &[u8], l: usize) -> (r: Option<usize>)
    ensures
        (match r {
            Some(u) => spec_line_start(s@, l as int) == u as int && u <= s@.len(),
            None => spec_line_start(s@, l as int) > s@.len(),
        }),
{
    let n = s.len();
    let mut k: usize = 1;
    let mut cur: usize = 0;
    while k < l
        invariant
            1 <= k,
            l >= 1 ==> k <= l,
            l == 0 ==> k == 1,
            n == s@.len(),
            cur == spec_line_start(s@, k as int),
            cur <= n,
        decreases l - k,
    {
        match find_byte(s, 10, cur) {
            Some(p) => {
                assert(p < n);
                cur = p + 1;
            },
            None => {
                assert(spec_line_start(s@, k + 1) == s@.len() + 1);
                proof {
                    lemma_line_start_grows(s@, k + 1, l as int);
                }
                return None;
            },
        }
        k += 1;
    }
    proof {
        assert(spec_line_start(s@, 0) == 0);
        assert(spec_line_start(s@, 1) == 0);
        if l >= 1 {
            assert(k == l);
        } else {
            assert(k == 1);
            assert(cur == spec_line_start(s@, 1));
        }
        assert(cur == spec_line_start(s@, l as int));
    }
    Some(cur)
}

/// Line starts stay within one past the text's end.
proof fn lemma_line_start_bound(s: Seq<u8>, l: int)
    requires
        1 <= l,
    ensures
        0 <= spec_line_start(s, l) <= s.len() + 1,
    decreases l,
{
    if l > 1 {
        lemma_line_start_bound(s, l - 1);
        let prev = spec_line_start(s, l - 1);
        match spec_find_byte(s, 10, prev) {
            Some(p) => {
                lemma_find_byte_at_least(s, 10, prev);
            },
            None => {},
        }
    }
}

/// Line starts never shrink as the line number grows.
proof fn lemma_line_start_grows(s: Seq<u8>, a: int, b: int)
    requires
        1 <= a <= b,
    ensures
        spec_line_start(s, a) <= spec_line_start(s, b),
    decreases b - a,
{
    lemma_line_start_bound(s, a);
    if a < b {
        lemma_line_start_grows(s, a, b - 1);
        let prev = spec_line_start(s, b - 1);
        lemma_line_start_bound(s, b - 1);
        match spec_find_byte(s, 10, prev) {
            Some(p) => {
                lemma_find_byte_at_least(s, 10, prev);
            },
            None => {},
        }
    }
}

/// A found byte lies at or after the search start.
proof fn lemma_find_byte_at_least(s: Seq<u8>, b: u8, i: int)
    requires
        spec_find_byte(s, b, i) is Some,
    ensures
        spec_find_byte(s, b, i)->0 >= i,
        spec_find_byte(s, b, i)->0 < s.len(),
    decreases s.len() - i,
{
    if !(i < 0 || i >= s.len()) && s[i] != b {
        lemma_find_byte_at_least(s, b, i + 1);
    }
}

/// The byte range `[start, end)` of a node, from its 1-based line/column
/// source position; `None` when the position is absent or out of bounds.
pub open spec fn spec_node_range(src: Seq<u8>, n: MdView) -> Option<(int, int)> {
    if n.sl < 1 || n.el < 1 || n.sc < 1 || n.ec < 1 {
        None
    } else {
        let a = spec_line_start(src, n.sl) + n.sc - 1;
        let b = spec_line_start(src, n.el) + n.ec;
        if 0 <= a <= b <= src.len() {
            Some((a, b))
        } else {
            None
        }
    }
}

pub fn node_range(src: &[u8], n: &MdNode) -> (r: Option<(usize, usize)>)
    ensures
        (match r {
            Some((a, b)) => spec_node_range(src@, n@) == Some((a as int, b as int)) && a <= b
                <= src@.len(),
            None => spec_node_range(src@, n@) is None,
        }),
{
    if n.sl < 1 || n.el < 1 || n.sc < 1 || n.ec < 1 {
        return None;
    }
    let la = match line_start(src, n.sl) {
        Some(x) => x,
        None => {
            return None;
        },
    };
    let lb = match line_start(src, n.el) {
        Some(x) => x,
        None => {
            return None;
        },
    };
    let m = src.len();
    if !(n.sc - 1 <= m - la) {
        return None;
    }
    let a = la + (n.sc - 1);
    if !(n.ec <= m - lb) {
        return None;
    }
    let b = lb + n.ec;
    if a <= b {
        Some((a, b))
    } else {
        None
    }
}

/// One leading blockquote marker removed from a line: up to three spaces,
/// `>`, and one optional space after it; a line without a marker is kept.
pub open spec fn spec_strip_quote(line: Seq<u8>) -> Seq<u8> {
    let i1 = if line.len() > 0 && line[0] == 32 {
        if line.len() > 1 && line[1] == 32 {
            if line.len() > 2 && line[2] == 32 {
                3int
            } else {
                2int
            }
        } else {
            1int
        }
    } else {
        0int
    };
    if i1 < line.len() && line[i1] == 62 {
        if i1 + 1 < line.len() && line[i1 + 1] == 32 {
            line.subrange(i1 + 2, line.len() as int)
        } else {
            line.subrange(i1 + 1, line.len() as int)
        }
    } else {
        line
    }
}

fn strip_quote(line: &[u8]) -> (r: Vec<u8>)
    ensures
        r@ == spec_strip_quote(line@),
{
    let n = line.len();
    let mut i1: usize = 0;
    if n > 0 && line[0] == 32 {
        i1 = 1;
        if n > 1 && line[1] == 32 {
            i1 = 2;
            if n > 2 && line[2] == 32 {
                i1 = 3;
            }
        }
    }
    if i1 < n && line[i1] == 62 {
        if i1 + 1 < n && line[i1 + 1] == 32 {
            sub_vec(line, i1 + 2, n)
        } else {
            sub_vec(line, i1 + 1, n)
        }
    } else {
        let r = sub_vec(line, 0, n);
        assert(line@.subrange(0, n as int) =~= line@);
        r
    }
}

/// A blockquote region with its markers removed, line by line.
pub open spec fn spec_dequote(s: Seq<u8>, i: int) -> Seq<u8>
    decreases s.len() - i,
{
    if i < 0 || i > s.len() {
        Seq::empty()
    } else {
        match spec_find_byte(s, 10, i) {
            Some(p) => {
                if i <= p < s.len() {
                    spec_strip_quote(s.subrange(i, p)) + seq![10u8] + spec_dequote(s, p + 1)
                } else {
                    Seq::empty()
                }
            },
            None => spec_strip_quote(s.subrange(i, s.len() as int)),
        }
    }
}

fn dequote(s: &[u8], from: usize) -> (r: Vec<u8>)
    requires
        from <= s@.len(),
    ensures
        r@ == spec_dequote(s@, from as int),
{
    let n = s.len();
    let mut out: Vec<u8> = Vec::new();
    let mut i: usize = from;
    loop
        invariant
            from <= i <= n == s@.len(),
            out@ + spec_dequote(s@, i as int) == spec_dequote(s@, from as int),
        decreases s@.len() - i,
    {
        match find_byte(s, 10, i) {
            Some(p) => {
                assert(p < n);
                let line = sub_vec(s, i, p);
                let stripped = strip_quote(line.as_slice());
                push_all(&mut out, stripped.as_slice());
                out.push(10);
                assert(out@ + spec_dequote(s@, p + 1) =~= spec_dequote(s@, from as int));
                i = p + 1;
            },
            None => {
                let line = sub_vec(s, i, s.len());
                let stripped = strip_quote(line.as_slice());
                push_all(&mut out, stripped.as_slice());
                assert(out@ =~= spec_dequote(s@, from as int));
                return out;
            },
        }
    }
}

/// Where the alert body's source begins inside the blockquote region
/// `[a, b)`: just after the marker text run when its position is known (so
/// inline content standing after the title on the marker line is kept),
/// otherwise after the region's first line.
pub open spec fn spec_alert_inner_start(src: Seq<u8>, n: MdView, a: int, b: int) -> int {
    let fallback = match spec_find_byte(src.subrange(a, b), 10, 0) {
        Some(p) => {
            if 0 <= p < b - a {
                a + p + 1
            } else {
                b
            }
        },
        None => b,
    };
    if n.children.len() >= 1 && n.children[0].children.len() >= 1 {
        match spec_node_range(src, n.children[0].children[0]) {
            Some((_ta, tb)) => {
                if a <= tb <= b {
                    tb
                } else {
                    fallback
                }
            },
            None => fallback,
        }
    } else {
        fallback
    }
}

/// The markdown re-rendered inside an alert: the blockquote region from the
/// end of the marker text run, with the quote markers stripped line by line.
pub open spec fn spec_alert_inner(src: Seq<u8>, start: int, b: int) -> Seq<u8> {
    if 0 <= start <= b <= src.len() {
        spec_dequote(src.subrange(start, b), 0)
    } else {
        Seq::empty()
    }
}

/// Spec-level view of one source edit.
pub ghost struct EditView {
    pub start: int,
    pub end: int,
    pub text: Seq<u8>,
}

/// One source edit: the byte range `[start, end)` is replaced by `text`.
pub struct Edit {
    pub start: usize,
    pub end: usize,
    pub text: Vec<u8>,
}

impl View for Edit {
    type V = EditView;

    open spec fn view(&self) -> EditView {
        EditView { start: self.start as int, end: self.end as int, text: self.text@ }
    }
}

/// The edits a node contributes, in document order: an alert callout or a
/// video link becomes one edit and its subtree is not scanned further;
/// everything else is scanned recursively.
pub open spec fn spec_edits_of(src: Seq<u8>, n: MdView) -> Seq<EditView>
    decreases n,
{
    match spec_alert_of(n) {
        Some((kind, title)) => {
            match spec_node_range(src, n) {
                Some((a, b)) => {
                    let st = spec_alert_inner_start(src, n, a, b);
                    seq![
                        EditView {
                            start: a,
                            end: b,
                            text: spec_alert_html(
                                kind,
                                title,
                                html_of(spec_alert_inner(src, st, b)),
                            ),
                        },
                    ]
                },
                None => Seq::empty(),
            }
        },
        None => {
            if n.kind == MdKind::Link && spec_is_video(n.url) {
                match spec_node_range(src, n) {
                    Some((a, b)) => seq![
                        EditView { start: a, end: b, text: spec_video_html(n.url) },
                    ],
                    None => Seq::empty(),
                }
            } else {
                spec_edits_of_children(src, n.children)
            }
        },
    }
}

pub open spec fn spec_edits_of_children(src: Seq<u8>, cs: Seq<MdView>) -> Seq<EditView>
    decreases cs,
{
    if cs.len() == 0 {
        Seq::empty()
    } else {
        spec_edits_of(src, cs[0]) + spec_edits_of_children(src, cs.drop_first())
    }
}

/// Whether a blockquote node is an alert callout, with its kind and title.
pub fn alert_of(n: &MdNode) -> (r: Option<(AlertKind, Vec<u8>)>)
    ensures
        (match r {
            Some((kind, title)) => spec_alert_of(n@) == Some((kind, title@)),
            None => spec_alert_of(n@) is None,
        }),
{
    broadcast use lemma_children_view;

    if !(matches!(n.kind, MdKind::BlockQuote) && n.children.len() >= 1) {
        return None;
    }
    let first = &n.children[0];
    if !(matches!(first.kind, MdKind::Paragraph) && first.children.len() >= 1) {
        return None;
    }
    let head_node = &first.children[0];
    proof {
        assert(n@.children[0] == node_view(n.children@[0]));
        assert(n@.children[0].children[0] == node_view(n.children@[0].children@[0]));
    }
    if !matches!(head_node.kind, MdKind::Text) {
        return None;
    }
    let text = &head_node.literal;
    let tl = text.len();
    match find_byte(text.as_slice(), 32, 0) {
        Some(p) => {
            assert(p < tl);
            let head = sub_vec(text.as_slice(), 0, p);
            match marker_kind(head.as_slice()) {
                Some(kind) => {
                    let title = sub_vec(text.as_slice(), p + 1, text.len());
                    Some((kind, title))
                },
                None => None,
            }
        },
        None => {
            match marker_kind(text.as_slice()) {
                Some(kind) => Some((kind, default_title(kind))),
                None => None,
            }
        },
    }
}

fn marker_kind(head: &[u8]) -> (r: Option<AlertKind>)
    ensures
        r == spec_marker_kind(head@),
{
    if crate::bytes::eq_bytes(head, str_bytes("[!NOTE]").as_slice()) {
        Some(AlertKind::Note)
    } else if crate::bytes::eq_bytes(head, str_bytes("[!TIP]").as_slice()) {
        Some(AlertKind::Tip)
    } else if crate::bytes::eq_bytes(head, str_bytes("[!IMPORTANT]").as_slice()) {
        Some(AlertKind::Important)
    } else if crate::bytes::eq_bytes(head, str_bytes("[!WARNING]").as_slice()) {
        Some(AlertKind::Warning)
    } else if crate::bytes::eq_bytes(head, str_bytes("[!CAUTION]").as_slice()) {
        Some(AlertKind::Caution)
    } else {
        None
    }
}

fn default_title(kind: AlertKind) -> (r: Vec<u8>)
    ensures
        r@ == spec_default_title(kind),
{
    match kind {
        AlertKind::Note => str_bytes("Note"),
        AlertKind::Tip => str_bytes("Tip"),
        AlertKind::Important => str_bytes("Important"),
        AlertKind::Warning => str_bytes("Warning"),
        AlertKind::Caution => str_bytes("Caution"),
    }
}

fn alert_class(kind: AlertKind) -> (r: Vec<u8>)
    ensures
        r@ == spec_alert_class(kind),
{
    match kind {
        AlertKind::Note => str_bytes("note"),
        AlertKind::Tip => str_bytes("tip"),
        AlertKind::Important => str_bytes("important"),
        AlertKind::Warning => str_bytes("warning"),
        AlertKind::Caution => str_bytes("caution"),
    }
}

fn alert_icon(kind: AlertKind) -> (r: Vec<u8>)
    ensures
        r@ == spec_alert_icon(kind),
{
    match kind {
        AlertKind::Note => str_bytes(
            "<svg xmlns=\"http://www.w3.org/2000/svg\" width=\"16\" height=\"16\" viewBox=\"0 0 16 16\" fill=\"none\" stroke=\"currentColor\"><path d=\"M8 1a7 7 0 1 0 0 14A7 7 0 0 0 8 1Zm0 4v4m0 3h0\"/></svg>",
        ),
        AlertKind::Tip => str_bytes(
            "<svg xmlns=\"http://www.w3.org/2000/svg\" width=\"16\" height=\"16\" viewBox=\"0 0 16 16\" fill=\"none\" stroke=\"currentColor\"><path d=\"M6 14h4m-5-3a5 5 0 1 1 6 0c-1 1-1 2-1 2H6s0-1-1-2Z\"/></svg>",
        ),
        AlertKind::Important => str_bytes(
            "<svg xmlns=\"http://www.w3.org/2000/svg\" width=\"16\" height=\"16\" viewBox=\"0 0 16 16\" fill=\"none\" stroke=\"currentColor\"><path d=\"M2 2h12v9H9l-3 3v-3H2Zm6 2v3m0 2h0\"/></svg>",
        ),
        AlertKind::Warning => str_bytes(
            "<svg xmlns=\"http://www.w3.org/2000/svg\" width=\"16\" height=\"16\" viewBox=\"0 0 16 16\" fill=\"none\" stroke=\"currentColor\"><path d=\"M8 2 1 14h14L8 2Zm0 5v3m0 2h0\"/></svg>",
        ),
        AlertKind::Caution => str_bytes(
            "<svg xmlns=\"http://www.w3.org/2000/svg\" width=\"16\" height=\"16\" viewBox=\"0 0 16 16\" fill=\"none\" stroke=\"currentColor\"><path d=\"M5 1h6l4 4v6l-4 4H5l-4-4V5Zm3 3v4m0 3h0\"/></svg>",
        ),
    }
}

/// Builds the raw-HTML replacement of an alert callout; the remaining content
/// is re-rendered through the HTML emitter.
fn alert_replacement(src: &[u8], start: usize, b: usize, kind: AlertKind, title: &[u8]) -> (r: Vec<
    u8,
>)
    requires
        start <= b <= src@.len(),
    ensures
        r@ == spec_alert_html(
            kind,
            title@,
            html_of(spec_alert_inner(src@, start as int, b as int)),
        ),
{
    let region = sub_vec(src, start, b);
    let inner = dequote(region.as_slice(), 0);
    assert(inner@ == spec_alert_inner(src@, start as int, b as int));
    let body_html = md_to_html(inner.as_slice());
    let mut out = str_bytes("<div class=\"alert alert-");
    let cls = alert_class(kind);
    push_all(&mut out, cls.as_slice());
    let mid = str_bytes("\"><div>");
    push_all(&mut out, mid.as_slice());
    let icon = alert_icon(kind);
    push_all(&mut out, icon.as_slice());
    push_all(&mut out, title);
    let mid2 = str_bytes("</div><div>");
    push_all(&mut out, mid2.as_slice());
    push_all(&mut out, body_html.as_slice());
    let tail = str_bytes("</div></div>");
    push_all(&mut out, tail.as_slice());
    assert(out@ =~= spec_alert_html(
        kind,
        title@,
        html_of(spec_alert_inner(src@, start as int, b as int)),
    ));
    out
}

/// Where the alert body's source begins, executable twin of
/// [`spec_alert_inner_start`].
fn alert_inner_start(src: &[u8], n: &MdNode, a: usize, b: usize) -> (r: usize)
    requires
        a <= b <= src@.len(),
    ensures
        r as int == spec_alert_inner_start(src@, n@, a as int, b as int),
        r <= b,
{
    broadcast use lemma_children_view;

    let region = sub_vec(src, a, b);
    let fallback = match find_byte(region.as_slice(), 10, 0) {
        Some(p) => a + p + 1,
        None => b,
    };
    assert(fallback <= b);
    if n.children.len() >= 1 && n.children[0].children.len() >= 1 {
        let text_node = &n.children[0].children[0];
        proof {
            assert(n@.children[0] == node_view(n.children@[0]));
            assert(n@.children[0].children[0] == node_view(n.children@[0].children@[0]));
        }
        match node_range(src, text_node) {
            Some((_ta, tb)) => {
                if a <= tb && tb <= b {
                    tb
                } else {
                    fallback
                }
            },
            None => fallback,
        }
    } else {
        fallback
    }
}

/// Collects the edits of a whole subtree, in document order.
pub fn collect_edits(src: &[u8], n: &MdNode, out: &mut Vec<Edit>)
    ensures
        final(out)@.map_values(|e: Edit| e@) == old(out)@.map_values(|e: Edit| e@)
            + spec_edits_of(src@, n@),
    decreases *n,
{
    broadcast use lemma_children_view;

    let ghost base = out@.map_values(|e: Edit| e@);
    match alert_of(n) {
        Some((kind, title)) => {
            match node_range(src, n) {
                Some((a, b)) => {
                    let st = alert_inner_start(src, n, a, b);
                    let text = alert_replacement(src, st, b, kind, title.as_slice());
                    let e = Edit { start: a, end: b, text };
                    out.push(e);
                    proof {
                        assert(out@.map_values(|e: Edit| e@) =~= base + spec_edits_of(src@, n@));
                    }
                },
                None => {
                    assert(out@.map_values(|e: Edit| e@) =~= base + spec_edits_of(src@, n@));
                },
            }
        },
        None => {
            let video = matches!(n.kind, MdKind::Link) && is_video(n.url.as_slice());
            if video {
                match node_range(src, n) {
                    Some((a, b)) => {
                        let mut text = str_bytes("<video src=\"");
                        push_all(&mut text, n.url.as_slice());
                        let tail = str_bytes("\" controls></video>");
                        push_all(&mut text, tail.as_slice());
                        assert(text@ =~= spec_video_html(n.url@));
                        let e = Edit { start: a, end: b, text };
                        out.push(e);
                        proof {
                            assert(out@.map_values(|e: Edit| e@) =~= base + spec_edits_of(
                                src@,
                                n@,
                            ));
                        }
                    },
                    None => {
                        assert(out@.map_values(|e: Edit| e@) =~= base + spec_edits_of(src@, n@));
                    },
                }
            } else {
                let ghost cs = n@.children;
                proof {
                    lemma_children_view(n.children@);
                }
                let mut i: usize = 0;
                while i < n.children.len()
                    invariant
                        0 <= i <= n.children@.len(),
                        cs == children_view(n.children@),
                        cs.len() == n.children@.len(),
                        out@.map_values(|e: Edit| e@) + spec_edits_of_children(
                            src@,
                            cs.skip(i as int),
                        ) == base + spec_edits_of_children(src@, cs.skip(0)),
                    decreases n.children@.len() - i,
                {
                    proof {
                        lemma_children_view(n.children@);
                        assert(cs.skip(i as int)[0] == cs[i as int]);
                        assert(cs[i as int] == node_view(n.children@[i as int]));
                        assert(cs.skip(i as int).drop_first() =~= cs.skip(i + 1));
                    }
                    collect_edits(src, &n.children[i], out);
                    i += 1;
                }
                proof {
                    assert(cs.skip(0) =~= cs);
                    assert(spec_edits_of_children(src@, cs.skip(cs.len() as int))
                        =~= Seq::<EditView>::empty());
                    assert(out@.map_values(|e: Edit| e@) =~= base + spec_edits_of(src@, n@));
                }
            }
        },
    }
}

/// The source with the edits applied left to right: each edit whose range
/// starts at or after the cursor and lies inside the text replaces its range;
/// any other edit is skipped, so the splice is total.
pub open spec fn spec_splice(src: Seq<u8>, edits: Seq<EditView>, ei: int, cur: int) -> Seq<u8>
    decreases edits.len() - ei,
{
    if cur < 0 || cur > src.len() {
        Seq::empty()
    } else if ei < 0 || ei >= edits.len() {
        src.subrange(cur, src.len() as int)
    } else {
        let e = edits[ei];
        if e.start < cur || e.start > e.end || e.end > src.len() {
            spec_splice(src, edits, ei + 1, cur)
        } else {
            src.subrange(cur, e.start) + e.text + spec_splice(src, edits, ei + 1, e.end)
        }
    }
}

/// Applies the edits to the source text.
pub fn splice(src: &[u8], edits: &Vec<Edit>) -> (r: Vec<u8>)
    ensures
        r@ == spec_splice(src@, edits@.map_values(|e: Edit| e@), 0, 0),
{
    let ghost evs = edits@.map_values(|e: Edit| e@);
    let mut out: Vec<u8> = Vec::new();
    let mut cur: usize = 0;
    let mut ei: usize = 0;
    while ei < edits.len()
        invariant
            0 <= ei <= edits@.len(),
            0 <= cur <= src@.len(),
            evs == edits@.map_values(|e: Edit| e@),
            out@ + spec_splice(src@, evs, ei as int, cur as int) == spec_splice(src@, evs, 0, 0),
        decreases edits@.len() - ei,
    {
        let e = &edits[ei];
        proof {
            assert(evs[ei as int] == edits@[ei as int]@);
        }
        if e.start < cur || e.start > e.end || e.end > src.len() {
            ei += 1;
        } else {
            let piece = sub_vec(src, cur, e.start);
            push_all(&mut out, piece.as_slice());
            push_all(&mut out, e.text.as_slice());
            cur = e.end;
            ei += 1;
            assert(out@ + spec_splice(src@, evs, ei as int, cur as int) =~= spec_splice(
                src@,
                evs,
                0,
                0,
            ));
        }
    }
    let tail = sub_vec(src, cur, src.len());
    push_all(&mut out, tail.as_slice());
    assert(out@ =~= spec_splice(src@, evs, 0, 0));
    out
}

/// Law: an alert callout with a valid source range is rewritten whole: its
/// one edit covers the blockquote's entire range and holds exactly the alert
/// container of its kind — `<div class="alert alert-KIND">` — with its title
/// and the re-rendered HTML of the remaining content; a marker without a
/// custom title carries the kind's default title by [`spec_alert_of`].
pub proof fn lemma_alert_edit(src: Seq<u8>, n: MdView, kind: AlertKind, title: Seq<u8>)
    requires
        spec_alert_of(n) == Some((kind, title)),
        spec_node_range(src, n) is Some,
    ensures
        ({
            let (a, b) = spec_node_range(src, n)->0;
            let st = spec_alert_inner_start(src, n, a, b);
            let es = spec_edits_of(src, n);
            &&& es.len() == 1
            &&& es[0].start == a
            &&& es[0].end == b
            &&& es[0].text == spec_alert_html(kind, title, html_of(spec_alert_inner(src, st, b)))
        }),
{
}

/// Law: a link whose URL ends in `.mp4` or `.mov` is replaced whole: its one
/// edit covers the link's entire source range and holds exactly the video
/// element with that URL as `src`, so the link is never also rendered as a
/// normal link.
pub proof fn lemma_video_edit(src: Seq<u8>, n: MdView)
    requires
        n.kind == MdKind::Link,
        spec_is_video(n.url),
        spec_node_range(src, n) is Some,
    ensures
        ({
            let (a, b) = spec_node_range(src, n)->0;
            let es = spec_edits_of(src, n);
            &&& es.len() == 1
            &&& es[0].start == a
            &&& es[0].end == b
            &&& es[0].text == spec_video_html(n.url)
        }),
{
    assert(spec_alert_of(n) is None);
}

} // verus!
