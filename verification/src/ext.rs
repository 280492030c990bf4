//! The extension registry: pluggable block- and inline-level recognizers.
//!
//! Recognizers are consulted in registration order; the first whose
//! predicate claims the current position wins, and a matched inline
//! recognizer must consume at least one byte before control returns to the
//! default text-run path.  A recognizer that claims a position but declines
//! to interpret it reports a reason, and the scanner falls back to plain
//! text for that position; the parse is never aborted.

use vstd::prelude::*;

use crate::ast::Element;
use crate::span::Span;

verus! {

/// A block-level recognizer, consulted on each content-bearing logical line
/// before the built-in heading rule.
pub trait BlockRule: Sized {
    /// The positions this rule claims: `claims(src, start, end)` says the
    /// rule will take charge of the whole line `[start, end)` of `src`.
    spec fn claims(&self, src: Seq<u8>, start: int, end: int) -> bool;

    /// Reports whether the rule claims the line `[start, end)`.
    fn recognizes(&self, source: &[u8], start: usize, end: usize) -> (r: bool)
        requires
            start <= end <= source@.len(),
        ensures
            r == self.claims(source@, start as int, end as int),
    ;

    /// Builds the single element this line becomes, or declines with a
    /// reason, in which case the line falls back to the built-in rules.
    fn construct(&self, source: &[u8], start: usize, end: usize) -> (r: Result<
        Element,
        &'static str,
    >)
        requires
            start <= end <= source@.len(),
            self.claims(source@, start as int, end as int),
    ;
}

/// An inline-level recognizer, consulted at each character position of a
/// content line before the default text-run path.
pub trait InlineRule: Sized {
    /// The positions this rule claims: `claims(src, pos, end)` says the rule
    /// will consume at least one byte at `pos` within the line `[.., end)`.
    spec fn claims(&self, src: Seq<u8>, pos: int, end: int) -> bool;

    /// Reports whether the rule claims position `pos`.
    fn recognizes(&self, source: &[u8], pos: usize, end: usize) -> (r: bool)
        requires
            pos < end <= source@.len(),
        ensures
            r == self.claims(source@, pos as int, end as int),
    ;

    /// Builds one element starting at `pos` and reports how many bytes it
    /// consumed, or declines with a reason, in which case the position falls
    /// back to the default text run.  A successful match consumes at least
    /// one byte and never runs past the line.
    fn construct(&self, source: &[u8], pos: usize, end: usize) -> (r: Result<
        (Element, usize),
        &'static str,
    >)
        requires
            pos < end <= source@.len(),
            self.claims(source@, pos as int, end as int),
        ensures
            r matches Ok(p) ==> 1 <= p.1 <= end - pos,
    ;
}

/// The empty extension: claims nothing, so every line and every character
/// takes the built-in path.  A parser carrying no registered recognizers
/// uses this as both of its rule types.
#[derive(Debug, Clone, Copy, PartialEq, Eq, Structural)]
pub struct NoExtensions;

impl BlockRule for NoExtensions {
    open spec fn claims(&self, src: Seq<u8>, start: int, end: int) -> bool {
        false
    }

    fn recognizes(&self, source: &[u8], start: usize, end: usize) -> (r: bool) {
        false
    }

    fn construct(&self, source: &[u8], start: usize, end: usize) -> (r: Result<
        Element,
        &'static str,
    >) {
        Err("the empty extension constructs nothing")
    }
}

impl InlineRule for NoExtensions {
    open spec fn claims(&self, src: Seq<u8>, pos: int, end: int) -> bool {
        false
    }

    fn recognizes(&self, source: &[u8], pos: usize, end: usize) -> (r: bool) {
        false
    }

    fn construct(&self, source: &[u8], pos: usize, end: usize) -> (r: Result<
        (Element, usize),
        &'static str,
    >) {
        Err("the empty extension constructs nothing")
    }
}

/// A sample block recognizer that claims block-quote lines (`>` first) but
/// declines to interpret them.  The driver reports the decline as a
/// recoverable `UnsupportedConstruct` and falls back to plain-text
/// treatment of the line.
#[derive(Debug, Clone, Copy, PartialEq, Eq, Structural)]
pub struct QuoteStub;

impl BlockRule for QuoteStub {
    open spec fn claims(&self, src: Seq<u8>, start: int, end: int) -> bool {
        start < end && src[start] == 62
    }

    fn recognizes(&self, source: &[u8], start: usize, end: usize) -> (r: bool) {
        start < end && *vstd::slice::slice_index_get(source, start) == 62
    }

    fn construct(&self, source: &[u8], start: usize, end: usize) -> (r: Result<
        Element,
        &'static str,
    >) {
        Err("block quotes are not interpreted")
    }
}

/// A sample inline recognizer: it claims every tab character and emits the
/// tab as a text element of its own, so surrounding runs are broken at
/// tabs instead of swallowing them.
#[derive(Debug, Clone, Copy, PartialEq, Eq, Structural)]
pub struct TabBreak;

impl InlineRule for TabBreak {
    open spec fn claims(&self, src: Seq<u8>, pos: int, end: int) -> bool {
        src[pos] == 9
    }

    fn recognizes(&self, source: &[u8], pos: usize, end: usize) -> (r: bool) {
        *vstd::slice::slice_index_get(source, pos) == 9
    }

    fn construct(&self, source: &[u8], pos: usize, end: usize) -> (r: Result<
        (Element, usize),
        &'static str,
    >)
        ensures
            r matches Ok(p) && p.0 == Element::Text(Span { start: pos, end: pos }) && p.1 == 1,
    {
        Ok((Element::Text(Span::one(pos)), 1))
    }
}

} // verus!
