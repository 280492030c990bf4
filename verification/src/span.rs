//! Byte-offset spans into a source buffer.
//!
//! A [`Span`] is an uncoupled slice of some source text: it owns no bytes,
//! only a pair of offsets, and is resolved against the buffer it was scanned
//! from.  The offsets are inclusive at both ends, so a span always names at
//! least one byte.

use vstd::prelude::*;

use crate::utf8;

verus! {

/// An uncoupled slice of some source text.
#[derive(Debug, Clone, Copy, PartialEq, Eq, Structural)]
pub struct Span {
    /// Byte offset of the first byte of the referenced text.
    pub start: usize,
    /// Byte offset of the last byte of the referenced text (inclusive).
    pub end: usize,
}

impl Span {
    /// A span is well formed when its offsets are ordered.
    pub open spec fn wf(self) -> bool {
        self.start <= self.end
    }

    /// A span is valid for a buffer when it lies inside the buffer and both
    /// of its edges sit on character boundaries, so that resolving it cuts
    /// no encoded character in half.
    pub open spec fn valid_for(self, source: Seq<u8>) -> bool {
        &&& self.start <= self.end < source.len()
        &&& utf8::is_boundary(source, self.start as int)
        &&& utf8::is_boundary(source, self.end + 1)
    }

    /// The bytes a span names within a buffer.
    pub open spec fn bytes_of(self, source: Seq<u8>) -> Seq<u8> {
        source.subrange(self.start as int, self.end + 1)
    }

    /// Constructs the inclusive span `[start, end]`.
    pub fn new(start: usize, end: usize) -> (s: Self)
        requires
            start <= end,
        ensures
            s.start == start,
            s.end == end,
    {
        Self { start, end }
    }

    /// Constructs the one-byte span `[start, start]`.
    pub fn one(start: usize) -> (s: Self)
        ensures
            s.start == start,
            s.end == start,
    {
        Self { start, end: start }
    }

    /// Extends the span over the next consumed character, whose encoded
    /// width is `width` bytes.
    pub fn push(&mut self, width: usize)
        requires
            old(self).end + width <= usize::MAX,
        ensures
            final(self).start == old(self).start,
            final(self).end == old(self).end + width,
    {
        self.end = self.end + width;
    }

    /// Resolves the span against `source`, returning exactly the bytes at
    /// `[start, end]`, or `None` when the span runs out of bounds or either
    /// edge would split an encoded character.
    pub fn resolve<'a>(&self, source: &'a [u8]) -> (r: Option<&'a [u8]>)
        ensures
            match r {
                Some(bytes) => self.valid_for(source@) && bytes@ == self.bytes_of(source@),
                None => !self.valid_for(source@),
            },
    {
        if self.start > self.end || self.end >= source.len() {
            return None;
        }
        let first = *vstd::slice::slice_index_get(source, self.start);
        if first & 0xC0 == 0x80 {
            return None;
        }
        if self.end + 1 < source.len() {
            let after = *vstd::slice::slice_index_get(source, self.end + 1);
            if after & 0xC0 == 0x80 {
                return None;
            }
        }
        Some(vstd::slice::slice_subrange(source, self.start, self.end + 1))
    }

    /// Resolves the span against `source` without re-checking its edges; the
    /// caller must already know the span lies inside the buffer.
    pub fn resolve_unchecked<'a>(&self, source: &'a [u8]) -> (r: &'a [u8])
        requires
            self.start <= self.end < source@.len(),
        ensures
            r@ == self.bytes_of(source@),
    {
        // Binding the length makes its machine bound available to the
        // overflow check on `end + 1`.
        let _len: usize = source.len();
        vstd::slice::slice_subrange(source, self.start, self.end + 1)
    }
}

/// Law: resolving a span that is valid for a well-formed UTF-8 buffer yields
/// a contiguous, well-formed UTF-8 slice of that buffer.
pub proof fn lemma_resolve_well_formed(s: Span, source: Seq<u8>)
    requires
        utf8::is_utf8(source),
        s.valid_for(source),
    ensures
        utf8::is_utf8(s.bytes_of(source)),
{
    utf8::lemma_slice_utf8(source, s.start as int, s.end + 1);
}

} // verus!
