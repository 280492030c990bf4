//! Block-level classification of one logical line.
//!
//! The built-in rule: after leading indentation, a run of one to six `#`
//! characters followed by a space (or by the end of the line) makes the line
//! a heading of that level; every other non-blank line is a plain line.
//! Seven or more `#` characters exceed the maximum level and fall back to a
//! plain line.

use vstd::prelude::*;

verus! {

/// Indentation bytes skipped before classifying a line.
pub open spec fn is_indent_ws(b: u8) -> bool {
    b == 32 || b == 9
}

/// The first position in `[a, b)` holding a byte that is not indentation,
/// or `b` when the whole range is indentation.
pub open spec fn ws_end(s: Seq<u8>, a: int, b: int) -> int
    decreases b - a
    when 0 <= a <= b <= s.len()
{
    if a == b {
        b
    } else if is_indent_ws(s[a]) {
        ws_end(s, a + 1, b)
    } else {
        a
    }
}

/// The first position at or after `p` (up to `b`) holding a byte other
/// than `#`.
pub open spec fn hash_end(s: Seq<u8>, p: int, b: int) -> int
    decreases b - p
    when 0 <= p <= b <= s.len()
{
    if p == b {
        b
    } else if s[p] == 35 {
        hash_end(s, p + 1, b)
    } else {
        p
    }
}

/// The length of the line's leading `#` run, after indentation.
pub open spec fn heading_level(s: Seq<u8>, a: int, b: int) -> int {
    hash_end(s, ws_end(s, a, b), b) - ws_end(s, a, b)
}

/// The line `[a, b)` is a heading: one to six `#` characters after the
/// indentation, followed by a space or by the end of the line.
pub open spec fn is_heading(s: Seq<u8>, a: int, b: int) -> bool {
    let q = hash_end(s, ws_end(s, a, b), b);
    &&& 1 <= heading_level(s, a, b) <= 6
    &&& (q == b || s[q] == 32)
}

/// Where a heading's contents begin: one past the space that closes the
/// `#` run, or the end of the line when the run reaches it.
pub open spec fn body_start(s: Seq<u8>, a: int, b: int) -> int {
    let q = hash_end(s, ws_end(s, a, b), b);
    if q < b {
        q + 1
    } else {
        b
    }
}

/// A forward scan over indentation that stopped at `i` has found exactly
/// `ws_end(s, a, b)`.
proof fn lemma_ws_end_at(s: Seq<u8>, a: int, b: int, i: int)
    requires
        0 <= a <= i <= b <= s.len(),
        forall|j: int| a <= j < i ==> is_indent_ws(#[trigger] s[j]),
        i == b || !is_indent_ws(s[i]),
    ensures
        ws_end(s, a, b) == i,
    decreases i - a,
{
    if a < i {
        lemma_ws_end_at(s, a + 1, b, i);
    }
}

/// A forward scan over `#` bytes that stopped at `i` has found exactly
/// `hash_end(s, p, b)`.
proof fn lemma_hash_end_at(s: Seq<u8>, p: int, b: int, i: int)
    requires
        0 <= p <= i <= b <= s.len(),
        forall|j: int| p <= j < i ==> s[j] == 35,
        i == b || s[i] != 35,
    ensures
        hash_end(s, p, b) == i,
    decreases i - p,
{
    if p < i {
        lemma_hash_end_at(s, p + 1, b, i);
    }
}

/// Everything before `ws_end(s, a, b)` is indentation, and the result stays
/// within `[a, b]`.
pub proof fn lemma_ws_end_range(s: Seq<u8>, a: int, b: int)
    requires
        0 <= a <= b <= s.len(),
    ensures
        a <= ws_end(s, a, b) <= b,
        forall|j: int| a <= j < ws_end(s, a, b) ==> is_indent_ws(#[trigger] s[j]),
    decreases b - a,
{
    if a < b && is_indent_ws(s[a]) {
        lemma_ws_end_range(s, a + 1, b);
    }
}

/// Everything before `hash_end(s, p, b)` is a `#`, and the result stays
/// within `[p, b]`.
pub proof fn lemma_hash_end_range(s: Seq<u8>, p: int, b: int)
    requires
        0 <= p <= b <= s.len(),
    ensures
        p <= hash_end(s, p, b) <= b,
        forall|j: int| p <= j < hash_end(s, p, b) ==> s[j] == 35,
    decreases b - p,
{
    if p < b && s[p] == 35 {
        lemma_hash_end_range(s, p + 1, b);
    }
}

/// The block-level kind of one logical line.
#[derive(Debug, Clone, Copy, PartialEq, Eq, Structural)]
pub enum BlockKind {
    /// A heading of the given level, whose contents start at `body`.
    Heading { level: u8, body: usize },
    /// Any other content-bearing line.
    Plain,
}

/// Whether the byte at `i` is indentation.
fn indent_at(source: &[u8], i: usize) -> (r: bool)
    requires
        i < source@.len(),
    ensures
        r == is_indent_ws(source@[i as int]),
{
    let b = *vstd::slice::slice_index_get(source, i);
    b == 32 || b == 9
}

/// Classifies the line `[start, end)` by the built-in heading rule.
pub fn classify(source: &[u8], start: usize, end: usize) -> (r: BlockKind)
    requires
        start <= end <= source@.len(),
    ensures
        match r {
            BlockKind::Heading { level, body } => {
                &&& is_heading(source@, start as int, end as int)
                &&& level == heading_level(source@, start as int, end as int)
                &&& body == body_start(source@, start as int, end as int)
            },
            BlockKind::Plain => !is_heading(source@, start as int, end as int),
        },
{
    let mut p: usize = start;
    while p < end && indent_at(source, p)
        invariant
            start <= p <= end <= source@.len(),
            forall|j: int| start <= j < p ==> is_indent_ws(#[trigger] source@[j]),
        decreases end - p,
    {
        p = p + 1;
    }
    proof {
        lemma_ws_end_at(source@, start as int, end as int, p as int);
    }

    let mut q: usize = p;
    while q < end && *vstd::slice::slice_index_get(source, q) == 35
        invariant
            p <= q <= end <= source@.len(),
            forall|j: int| p <= j < q ==> source@[j] == 35,
        decreases end - q,
    {
        q = q + 1;
    }
    proof {
        lemma_hash_end_at(source@, p as int, end as int, q as int);
    }

    let run: usize = q - p;
    if 1 <= run && run <= 6 && (q == end || *vstd::slice::slice_index_get(source, q) == 32) {
        let body: usize = if q < end {
            q + 1
        } else {
            end
        };
        BlockKind::Heading { level: run as u8, body }
    } else {
        BlockKind::Plain
    }
}

} // verus!
