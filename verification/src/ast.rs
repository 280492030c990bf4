//! The document tree.
//!
//! An [`Element`] either owns a [`Span`] (which itself owns no bytes) or a
//! nested sequence of elements; no element ever owns the source buffer.

use vstd::prelude::*;

use crate::span::Span;

verus! {

/// An ordered sequence of elements; order is document order.
pub type Snippet = Vec<Element>;

/// One node of the parsed document tree.
#[derive(Debug, PartialEq)]
pub enum Element {
    /// A heading of level 1 through 6 and its inline contents.
    Heading { level: u8, contents: Snippet },
    /// A run of plain text, referenced by its span in the source.
    Text(Span),
    /// One logical line's worth of inline elements; empty for a blank line.
    Line(Snippet),
}

/// When `e` is a text run, its span is valid for the buffer `s`.
pub open spec fn inline_valid(e: Element, s: Seq<u8>) -> bool {
    e matches Element::Text(sp) ==> sp.valid_for(s)
}

/// Every text span reachable in `e` is valid for the buffer `s`, so
/// resolving any of them succeeds.
pub open spec fn elem_spans_valid(e: Element, s: Seq<u8>) -> bool {
    match e {
        Element::Text(sp) => sp.valid_for(s),
        Element::Line(v) => forall|i: int| 0 <= i < v@.len() ==> inline_valid(#[trigger] v@[i], s),
        Element::Heading { level, contents } => forall|i: int|
            0 <= i < contents@.len() ==> inline_valid(#[trigger] contents@[i], s),
    }
}

/// Two elements carry the same parsed content.  This is structural equality
/// stated over views, so it does not distinguish containers that hold the
/// same elements.
pub open spec fn elem_equiv(a: Element, b: Element) -> bool
    decreases a,
{
    match (a, b) {
        (Element::Text(s1), Element::Text(s2)) => s1 == s2,
        (Element::Line(v1), Element::Line(v2)) => {
            &&& v1@.len() == v2@.len()
            &&& forall|i: int| 0 <= i < v1@.len() ==> elem_equiv(#[trigger] v1@[i], v2@[i])
        },
        (
            Element::Heading { level: l1, contents: c1 },
            Element::Heading { level: l2, contents: c2 },
        ) => {
            &&& l1 == l2
            &&& c1@.len() == c2@.len()
            &&& forall|i: int| 0 <= i < c1@.len() ==> elem_equiv(#[trigger] c1@[i], c2@[i])
        },
        _ => false,
    }
}

} // verus!
