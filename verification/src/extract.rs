//! The two pruning passes: title-only extraction, which keeps a fixed
//! allow-list of inline-ish node kinds and discards everything else, and the
//! plain-text extractor, which flattens a tree to its literal text.

use vstd::prelude::*;

use crate::md::{children_view, lemma_children_view, node_view, MdKind, MdNode, MdView};
use crate::rewrite::{spec_alert_of, spec_is_video, EditView, Edit, is_video, node_range, spec_node_range};

verus! {

/// The node kinds kept by title-only extraction.
pub open spec fn spec_title_kind(k: MdKind) -> bool {
    ||| k == MdKind::Document
    ||| k == MdKind::Paragraph
    ||| k == MdKind::Heading
    ||| k == MdKind::Text
    ||| k == MdKind::Code
    ||| k == MdKind::HtmlInline
    ||| k == MdKind::Emph
    ||| k == MdKind::Strong
    ||| k == MdKind::Strikethrough
    ||| k == MdKind::Superscript
    ||| k == MdKind::Link
    ||| k == MdKind::Math
    ||| k == MdKind::Escaped
    ||| k == MdKind::WikiLink
    ||| k == MdKind::Underline
    ||| k == MdKind::SoftBreak
}

/// Executable twin of [`spec_title_kind`].
pub fn title_kind(k: MdKind) -> (r: bool)
    ensures
        r == spec_title_kind(k),
{
    matches!(
        k,
        MdKind::Document | MdKind::Paragraph | MdKind::Heading | MdKind::Text | MdKind::Code
            | MdKind::HtmlInline | MdKind::Emph | MdKind::Strong | MdKind::Strikethrough
            | MdKind::Superscript | MdKind::Link | MdKind::Math | MdKind::Escaped
            | MdKind::WikiLink | MdKind::Underline | MdKind::SoftBreak
    )
}

/// Index of the first child whose kind the title extraction keeps.
pub open spec fn spec_first_allowed(cs: Seq<MdView>, i: int) -> Option<int>
    decreases cs.len() - i,
{
    if i < 0 || i >= cs.len() {
        None
    } else if spec_title_kind(cs[i].kind) {
        Some(i)
    } else {
        spec_first_allowed(cs, i + 1)
    }
}

/// First top-level child that title-only extraction keeps.
pub fn first_allowed_child(n: &MdNode) -> (r: Option<usize>)
    ensures
        (match r {
            Some(u) => spec_first_allowed(n@.children, 0) == Some(u as int) && u
                < n.children@.len(),
            None => spec_first_allowed(n@.children, 0) is None,
        }),
{
    broadcast use lemma_children_view;

    let ghost cs = n@.children;
    proof {
        lemma_children_view(n.children@);
    }
    let mut i: usize = 0;
    while i < n.children.len()
        invariant
            0 <= i <= n.children@.len(),
            cs == children_view(n.children@),
            cs.len() == n.children@.len(),
            spec_first_allowed(cs, 0) == spec_first_allowed(cs, i as int),
        decreases n.children@.len() - i,
    {
        proof {
            lemma_children_view(n.children@);
            assert(cs[i as int] == node_view(n.children@[i as int]));
        }
        if title_kind(n.children[i].kind) {
            return Some(i);
        }
        i += 1;
    }
    None
}

/// The deletion edits of title-only pruning inside a kept node: every child
/// of a kind outside the allow-list is deleted whole (its subtree with it);
/// kept children are pruned recursively.
pub open spec fn spec_title_deletions(src: Seq<u8>, n: MdView) -> Seq<EditView>
    decreases n,
{
    spec_title_deletions_children(src, n.children)
}

pub open spec fn spec_title_deletions_children(src: Seq<u8>, cs: Seq<MdView>) -> Seq<EditView>
    decreases cs,
{
    if cs.len() == 0 {
        Seq::empty()
    } else {
        let head = if !spec_title_kind(cs[0].kind) {
            match spec_node_range(src, cs[0]) {
                Some((a, b)) => seq![EditView { start: a, end: b, text: Seq::empty() }],
                None => Seq::empty(),
            }
        } else {
            spec_title_deletions(src, cs[0])
        };
        head + spec_title_deletions_children(src, cs.drop_first())
    }
}

/// Collects the deletion edits of title-only pruning, in document order.
pub fn collect_title_deletions(src: &[u8], n: &MdNode, out: &mut Vec<Edit>)
    ensures
        final(out)@.map_values(|e: Edit| e@) == old(out)@.map_values(|e: Edit| e@)
            + spec_title_deletions(src@, n@),
    decreases *n,
{
    broadcast use lemma_children_view;

    let ghost base = out@.map_values(|e: Edit| e@);
    let ghost cs = n@.children;
    proof {
        lemma_children_view(n.children@);
    }
    let mut i: usize = 0;
    while i < n.children.len()
        invariant
            0 <= i <= n.children@.len(),
            cs == children_view(n.children@),
            cs.len() == n.children@.len(),
            out@.map_values(|e: Edit| e@) + spec_title_deletions_children(
                src@,
                cs.skip(i as int),
            ) == base + spec_title_deletions_children(src@, cs.skip(0)),
        decreases n.children@.len() - i,
    {
        proof {
            lemma_children_view(n.children@);
            assert(cs.skip(i as int)[0] == cs[i as int]);
            assert(cs[i as int] == node_view(n.children@[i as int]));
            assert(cs.skip(i as int).drop_first() =~= cs.skip(i + 1));
        }
        let child = &n.children[i];
        if !title_kind(child.kind) {
            match node_range(src, child) {
                Some((a, b)) => {
                    let e = Edit { start: a, end: b, text: Vec::new() };
                    out.push(e);
                },
                None => {},
            }
        } else {
            collect_title_deletions(src, child, out);
        }
        i += 1;
    }
    proof {
        assert(cs.skip(0) =~= cs);
        assert(spec_title_deletions_children(src@, cs.skip(cs.len() as int))
            =~= Seq::<EditView>::empty());
        assert(out@.map_values(|e: Edit| e@) =~= base + spec_title_deletions(src@, n@));
    }
}

/// The flattened text of a tree after the dialect rewrites: literal text and
/// inline-code content stay, every line or soft break becomes one space, and
/// the subtrees that the rewriter replaces by raw HTML (alert callouts, video
/// links) contribute nothing, as raw HTML carries no plain text.
pub open spec fn spec_strip_text(n: MdView) -> Seq<u8>
    decreases n,
{
    if spec_alert_of(n) is Some {
        Seq::empty()
    } else if n.kind == MdKind::Link && spec_is_video(n.url) {
        Seq::empty()
    } else if n.kind == MdKind::Text || n.kind == MdKind::Code {
        n.literal
    } else if n.kind == MdKind::SoftBreak || n.kind == MdKind::LineBreak {
        seq![32u8]
    } else {
        spec_strip_text_children(n.children)
    }
}

pub open spec fn spec_strip_text_children(cs: Seq<MdView>) -> Seq<u8>
    decreases cs,
{
    if cs.len() == 0 {
        Seq::empty()
    } else {
        spec_strip_text(cs[0]) + spec_strip_text_children(cs.drop_first())
    }
}

/// Flattens a tree to plain text, as [`spec_strip_text`] states.
pub fn strip_text(n: &MdNode, out: &mut Vec<u8>)
    ensures
        final(out)@ == old(out)@ + spec_strip_text(n@),
    decreases *n,
{
    broadcast use lemma_children_view;

    let ghost base = out@;
    match crate::rewrite::alert_of(n) {
        Some(_) => {
            assert(out@ =~= base + spec_strip_text(n@));
        },
        None => {
            if matches!(n.kind, MdKind::Link) && is_video(n.url.as_slice()) {
                assert(out@ =~= base + spec_strip_text(n@));
            } else if matches!(n.kind, MdKind::Text) || matches!(n.kind, MdKind::Code) {
                crate::bytes::push_all(out, n.literal.as_slice());
            } else if matches!(n.kind, MdKind::SoftBreak) || matches!(n.kind, MdKind::LineBreak) {
                out.push(32);
                assert(out@ =~= base + spec_strip_text(n@));
            } else {
                let ghost cs = n@.children;
                proof {
                    lemma_children_view(n.children@);
                }
                let mut i: usize = 0;
                while i < n.children.len()
                    invariant
                        0 <= i <= n.children@.len(),
                        cs == children_view(n.children@),
                        cs.len() == n.children@.len(),
                        out@ + spec_strip_text_children(cs.skip(i as int)) == base
                            + spec_strip_text_children(cs.skip(0)),
                    decreases n.children@.len() - i,
                {
                    proof {
                        lemma_children_view(n.children@);
                        assert(cs.skip(i as int)[0] == cs[i as int]);
                        assert(cs[i as int] == node_view(n.children@[i as int]));
                        assert(cs.skip(i as int).drop_first() =~= cs.skip(i + 1));
                    }
                    strip_text(&n.children[i], out);
                    i += 1;
                }
                proof {
                    assert(cs.skip(0) =~= cs);
                    assert(spec_strip_text_children(cs.skip(cs.len() as int))
                        =~= Seq::<u8>::empty());
                    assert(out@ =~= base + spec_strip_text(n@));
                }
            }
        },
    }
}

/// Law: title-only pruning discards a disallowed child whole — every child
/// whose kind is outside the allow-list and whose source range is known
/// contributes a deletion edit covering exactly its range.
pub proof fn lemma_title_prunes_disallowed(src: Seq<u8>, cs: Seq<MdView>, i: int)
    requires
        0 <= i < cs.len(),
        !spec_title_kind(cs[i].kind),
        spec_node_range(src, cs[i]) is Some,
    ensures
        ({
            let (a, b) = spec_node_range(src, cs[i])->0;
            let dels = spec_title_deletions_children(src, cs);
            exists|k: int|
                0 <= k < dels.len() && #[trigger] dels[k] == EditView {
                    start: a,
                    end: b,
                    text: Seq::empty(),
                }
        }),
    decreases i,
{
    let (a, b) = spec_node_range(src, cs[i])->0;
    let dels = spec_title_deletions_children(src, cs);
    if i == 0 {
        assert(dels[0] == EditView { start: a, end: b, text: Seq::empty() });
    } else {
        lemma_title_prunes_disallowed(src, cs.drop_first(), i - 1);
        let rest = spec_title_deletions_children(src, cs.drop_first());
        let k = choose|k: int|
            0 <= k < rest.len() && #[trigger] rest[k] == EditView {
                start: a,
                end: b,
                text: Seq::empty(),
            };
        let head = if !spec_title_kind(cs[0].kind) {
            match spec_node_range(src, cs[0]) {
                Some((a0, b0)) => seq![EditView { start: a0, end: b0, text: Seq::empty() }],
                None => Seq::<EditView>::empty(),
            }
        } else {
            spec_title_deletions(src, cs[0])
        };
        assert(cs.drop_first()[i - 1] == cs[i]);
        assert(dels == head + rest);
        assert(dels[head.len() + k] == EditView { start: a, end: b, text: Seq::empty() });
    }
}

} // verus!
