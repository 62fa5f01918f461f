//! Rendering of individual symbol kinds: what a variable declaration
//! contributes to its page.

use vstd::prelude::*;
use vstd::string::StringSliceAdditionalSpecFns;

use crate::bytes::{lit, str_bytes, sub_vec};
use crate::graph::Symbol;
use crate::render::{
    name_to_id, spec_name_to_id, AnchorCtx, DocEntryCtx, SectionCtx, SectionContentCtx,
};
use crate::resolve::{HrefResolver, RenderContext};

verus! {

/// Renders a variable's sections: one `Type` section holding the variable's
/// rendered type, or nothing when no type is attached.
pub fn render_variable<R: HrefResolver>(
    ctx: &RenderContext<R>,
    doc_node: &Symbol,
) -> (r: Vec<SectionCtx>)
    ensures
        (match doc_node.variable_def {
            Some(ref vd) => (match vd.ts_type {
                Some(ref t) => r@.len() == 1 && r@[0].title@ == lit("Type") && (match r@[0].content {
                    SectionContentCtx::DocEntry(es) => es@.len() == 1 && es@[0].id@
                        == spec_name_to_id(lit("variable"), doc_node.name@) && es@[0].content@
                        == t@,
                    _ => false,
                }),
                None => r@.len() == 0,
            }),
            None => r@.len() == 0,
        }),
{
    let vd = match &doc_node.variable_def {
        Some(vd) => vd,
        None => {
            return Vec::new();
        },
    };
    let ts_type = match &vd.ts_type {
        Some(t) => t,
        None => {
            return Vec::new();
        },
    };
    let kind = str_bytes("variable");
    let id = name_to_id(kind.as_slice(), doc_node.name.as_slice());
    let content = sub_vec(ts_type.as_slice(), 0, ts_type.len());
    proof {
        assert(ts_type@.subrange(0, ts_type@.len() as int) =~= ts_type@);
    }
    let entry = DocEntryCtx { id, name: Vec::new(), content };
    let mut entries: Vec<DocEntryCtx> = Vec::new();
    entries.push(entry);
    let title = str_bytes("Type");
    let section_kind = str_bytes("section");
    let anchor_id = name_to_id(section_kind.as_slice(), title.as_slice());
    let mut out: Vec<SectionCtx> = Vec::new();
    out.push(
        SectionCtx {
            title,
            anchor: AnchorCtx { id: anchor_id },
            content: SectionContentCtx::DocEntry(entries),
        },
    );
    out
}

} // verus!
