//! The sanitization stage: a fixed allow-list (kept in lockstep with the raw
//! HTML the rewriter emits) applied through the sanitizer collaborator, with
//! relative URLs offered to the resolver's URL-rewriting capability.

use vstd::prelude::*;

use ammonia::UrlRelative;

use crate::graph::ModuleId;
use std::borrow::Cow;

use crate::resolve::{rewrite_url_or_keep, spec_no_rewrite, HrefResolver};

verus! {

/// The additions this pipeline makes on top of the sanitizer's default
/// allow-list: extra tags, generic attributes, per-tag attributes and per-tag
/// class lists.
pub struct Policy {
    pub add_tags: Vec<&'static str>,
    pub generic_attrs: Vec<&'static str>,
    pub tag_attrs: Vec<(&'static str, Vec<&'static str>)>,
    pub allowed_classes: Vec<(&'static str, Vec<&'static str>)>,
    pub link_rel: &'static str,
}

/// The tags the pipeline's own HTML needs beyond the default allow-list.
pub open spec fn spec_policy_tags() -> Seq<Seq<char>> {
    seq!["video"@, "button"@, "svg"@, "path"@, "rect"@]
}

/// The per-tag attribute allow-list.
pub open spec fn spec_policy_tag_attrs() -> Seq<(Seq<char>, Seq<Seq<char>>)> {
    seq![
        ("button"@, seq!["data-copy"@]),
        (
            "svg"@,
            seq![
                "width"@,
                "height"@,
                "viewBox"@,
                "fill"@,
                "xmlns"@,
                "stroke"@,
                "stroke-width"@,
                "stroke-linecap"@,
                "stroke-linejoin"@,
            ],
        ),
        (
            "path"@,
            seq![
                "d"@,
                "fill"@,
                "fill-rule"@,
                "clip-rule"@,
                "stroke"@,
                "stroke-width"@,
                "stroke-linecap"@,
                "stroke-linejoin"@,
            ],
        ),
        ("rect"@, seq!["x"@, "y"@, "width"@, "height"@, "fill"@]),
        ("video"@, seq!["src"@, "controls"@]),
    ]
}

/// The per-tag class allow-list, covering the alert containers the rewriter
/// emits, highlighted code blocks and copy buttons.
pub open spec fn spec_policy_classes() -> Seq<(Seq<char>, Seq<Seq<char>>)> {
    seq![
        ("pre"@, seq!["highlight"@]),
        ("button"@, seq!["context_button"@]),
        (
            "div"@,
            seq![
                "alert"@,
                "alert-note"@,
                "alert-tip"@,
                "alert-important"@,
                "alert-warning"@,
                "alert-caution"@,
            ],
        ),
    ]
}

/// The whole policy, as spec-level data.
pub open spec fn spec_policy_ok(p: &Policy) -> bool {
    &&& p.add_tags.deep_view() == spec_policy_tags()
    &&& p.generic_attrs.deep_view() == seq!["id"@, "align"@]
    &&& p.tag_attrs.deep_view() == spec_policy_tag_attrs()
    &&& p.allowed_classes.deep_view() == spec_policy_classes()
    &&& p.link_rel@ == "nofollow"@
}

fn names(words: &[&'static str]) -> (r: Vec<&'static str>)
    ensures
        r.deep_view() == words@.map_values(|w: &str| w@),
{
    let mut out: Vec<&'static str> = Vec::new();
    let mut i: usize = 0;
    while i < words.len()
        invariant
            0 <= i <= words@.len(),
            out.deep_view() == words@.subrange(0, i as int).map_values(|w: &str| w@),
        decreases words.len() - i,
    {
        out.push(words[i]);
        proof {
            assert(words@.subrange(0, i + 1).map_values(|w: &str| w@) =~= words@.subrange(
                0,
                i as int,
            ).map_values(|w: &str| w@).push(words@[i as int]@));
            assert(out.deep_view() =~= words@.subrange(0, i + 1).map_values(|w: &str| w@));
        }
        i += 1;
    }
    proof {
        assert(words@.subrange(0, words@.len() as int) =~= words@);
    }
    out
}

/// Builds the fixed allow-list additions. The policy is immutable data; every
/// render call applies the same one.
pub fn allow_list() -> (r: Policy)
    ensures
        spec_policy_ok(&r),
{
    let add_tags = names(&["video", "button", "svg", "path", "rect"]);
    let generic_attrs = names(&["id", "align"]);
    let mut tag_attrs: Vec<(&'static str, Vec<&'static str>)> = Vec::new();
    tag_attrs.push(("button", names(&["data-copy"])));
    tag_attrs.push(
        (
            "svg",
            names(
                &[
                    "width",
                    "height",
                    "viewBox",
                    "fill",
                    "xmlns",
                    "stroke",
                    "stroke-width",
                    "stroke-linecap",
                    "stroke-linejoin",
                ],
            ),
        ),
    );
    tag_attrs.push(
        (
            "path",
            names(
                &[
                    "d",
                    "fill",
                    "fill-rule",
                    "clip-rule",
                    "stroke",
                    "stroke-width",
                    "stroke-linecap",
                    "stroke-linejoin",
                ],
            ),
        ),
    );
    tag_attrs.push(("rect", names(&["x", "y", "width", "height", "fill"])));
    tag_attrs.push(("video", names(&["src", "controls"])));
    let mut allowed_classes: Vec<(&'static str, Vec<&'static str>)> = Vec::new();
    allowed_classes.push(("pre", names(&["highlight"])));
    allowed_classes.push(("button", names(&["context_button"])));
    allowed_classes.push(
        (
            "div",
            names(
                &[
                    "alert",
                    "alert-note",
                    "alert-tip",
                    "alert-important",
                    "alert-warning",
                    "alert-caution",
                ],
            ),
        ),
    );
    let r = Policy { add_tags, generic_attrs, tag_attrs, allowed_classes, link_rel: "nofollow" };
    proof {
        assert(r.add_tags.deep_view() =~~= spec_policy_tags());
        assert(r.generic_attrs.deep_view() =~= seq!["id"@, "align"@]);
        assert(r.tag_attrs.deep_view() =~~= spec_policy_tag_attrs());
        assert(r.allowed_classes.deep_view() =~~= spec_policy_classes());
    }
    r
}

/// The shape of the URL evaluator handed to the sanitizer.
pub type UrlEval<'a> = Box<dyn for<'u> Fn(&'u str) -> Option<Cow<'u, str>> + Send + Sync + 'a>;

/// What the sanitizer returns for a fragment under this library's fixed
/// allow-list, when no URL rewriting takes place: a pure function of the
/// fragment.
pub uninterp spec fn clean_of(html: Seq<u8>) -> Seq<u8>;

/// Relies on ammonia::Builder: cleans the fragment against the default
/// allow-list extended by [`allow_list`], sets the policy's link `rel`, and
/// offers every relative URL to the resolver's rewriting capability together
/// with the module currently rendered. With a resolver that never rewrites,
/// the result is the fixed function [`clean_of`] of the fragment alone.
#[verifier::external_body]
pub(crate) fn clean_html<R: HrefResolver + Sync>(
    html: &[u8],
    policy: &Policy,
    current_file: Option<&ModuleId>,
    resolver: &R,
) -> (r: Vec<u8>)
    requires
        spec_policy_ok(policy),
    ensures
        spec_no_rewrite(resolver) ==> r@ == clean_of(html@),
{
    let mut b = ammonia::Builder::default();
    b.add_tags(policy.add_tags.iter().copied());
    b.add_generic_attributes(policy.generic_attrs.iter().copied());
    for (t, a) in policy.tag_attrs.iter() { b.add_tag_attributes(*t, a.iter().copied()); }
    for (t, c) in policy.allowed_classes.iter() { b.add_allowed_classes(*t, c.iter().copied()); }
    b.link_rel(Some(policy.link_rel));
    let f: UrlEval = Box::new(|u| Some(Cow::Owned(rewrite_url_or_keep(resolver, current_file, u))));
    b.url_relative(UrlRelative::Custom(Box::new(f)));
    b.clean(&String::from_utf8_lossy(html)).to_string().into_bytes()
}

} // verus!
