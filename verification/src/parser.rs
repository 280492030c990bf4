//! The pull-based parser driver.
//!
//! The driver owns a borrowed source buffer, a line cursor and the growing
//! document.  Each step consumes exactly one logical line: the line is
//! segmented, classified, scanned, and appended to the document as one
//! element.  When no line remains, the step reports `EndOfInput` and the
//! accumulated document can be taken.

use vstd::prelude::*;
use vstd::string::StringSliceAdditionalSpecFns;

use crate::ast::{elem_equiv, elem_spans_valid, Element, Snippet};
use crate::block;
use crate::block::BlockKind;
use crate::ext::{BlockRule, InlineRule, NoExtensions};
use crate::scan;
use crate::segment;
use crate::utf8;

verus! {

/// The two step outcomes that are not a plain success.
#[derive(Debug, PartialEq)]
pub enum ParseError {
    /// Input is exhausted; the document is complete.  This is the expected
    /// terminal condition, not a failure.
    EndOfInput,
    /// A recognizer declined to interpret syntax it had claimed; the line
    /// fell back to plain-text treatment and parsing continued.
    UnsupportedConstruct(&'static str),
}

/// The byte offset at which logical line `k` starts (the source's length,
/// once `k` runs past the last line).
pub open spec fn line_start(s: Seq<u8>, k: int) -> int
    decreases k
    when k >= 0
{
    if k <= 0 {
        0
    } else {
        segment::next_cursor(s, line_start(s, k - 1))
    }
}

/// How many logical lines remain from cursor position `c`.
pub open spec fn line_count(s: Seq<u8>, c: int) -> int
    decreases s.len() - c
    when 0 <= c <= s.len()
    via line_count_decreases
{
    if c == s.len() {
        0
    } else {
        1 + line_count(s, segment::next_cursor(s, c))
    }
}

#[via_fn]
proof fn line_count_decreases(s: Seq<u8>, c: int) {
    if 0 <= c < s.len() {
        segment::lemma_find_nl_props(s, c);
    }
}

/// `e` is the element that the built-in rules produce for the logical line
/// starting at `c`: an empty line container for a blank line, a heading
/// with a scanned body for a heading line, and a line container holding the
/// scanned text otherwise.
pub open spec fn block_matches(e: Element, s: Seq<u8>, c: int) -> bool {
    let b = segment::content_end(s, c);
    if segment::is_blank(s, c) {
        e matches Element::Line(v) && v@.len() == 0
    } else if block::is_heading(s, c, b) {
        e matches Element::Heading { level, contents } && level == block::heading_level(s, c, b)
            && scan::is_text_run(contents@, block::body_start(s, c, b), b)
    } else {
        e matches Element::Line(v) && scan::is_text_run(v@, c, b)
    }
}

/// The pull-based parser: borrows the source for its whole lifetime and
/// accumulates one element per logical line.
pub struct Parser<'a, B: BlockRule, I: InlineRule> {
    /// The source buffer; immutably borrowed for the parser's lifetime.
    pub source: &'a [u8],
    /// Byte offset of the first unconsumed line.
    pub cursor: usize,
    /// How many logical lines have been consumed; starts at zero.
    pub line_number: usize,
    /// Registered block-level recognizers, in priority order.
    pub block_rules: Vec<B>,
    /// Registered inline-level recognizers, in priority order.
    pub inline_rules: Vec<I>,
    /// The document accumulated so far, one element per consumed line.
    pub elements: Snippet,
}

impl<'a> Parser<'a, NoExtensions, NoExtensions> {
    /// Starts a parser over `input` with no registered recognizers.
    pub fn from_str(input: &'a str) -> (p: Self)
        ensures
            p.wf(),
            p.no_rules(),
            p.source@ == input.spec_bytes(),
            p.cursor == 0,
            p.line_number == 0,
            p.elements@.len() == 0,
    {
        Parser {
            source: input.as_bytes(),
            cursor: 0,
            line_number: 0,
            block_rules: Vec::new(),
            inline_rules: Vec::new(),
            elements: Vec::new(),
        }
    }
}

impl<'a, B: BlockRule, I: InlineRule> Parser<'a, B, I> {
    /// The parser carries no registered recognizers, so every line takes
    /// the built-in path.
    pub open spec fn no_rules(self) -> bool {
        self.block_rules@.len() == 0 && self.inline_rules@.len() == 0
    }

    /// The driver's invariant: the cursor sits at the start of the next
    /// logical line, one element has been accumulated per consumed line,
    /// and — when no recognizers are registered — each element is exactly
    /// what the built-in rules produce for its line.
    pub open spec fn wf(self) -> bool {
        &&& self.cursor <= self.source@.len()
        &&& self.line_number <= self.cursor
        &&& self.cursor == line_start(self.source@, self.line_number as int)
        &&& forall|k: int|
            0 <= k < self.line_number ==> line_start(self.source@, k) < self.source@.len()
        &&& self.elements@.len() == self.line_number
        &&& self.no_rules() ==> forall|k: int|
            0 <= k < self.line_number ==> block_matches(
                #[trigger] self.elements@[k],
                self.source@,
                line_start(self.source@, k),
            )
    }

    /// Starts a parser over `input` with the given recognizers, consulted
    /// in the order given.
    pub fn with_rules(input: &'a str, block_rules: Vec<B>, inline_rules: Vec<I>) -> (p: Self)
        ensures
            p.wf(),
            p.source@ == input.spec_bytes(),
            p.cursor == 0,
            p.line_number == 0,
            p.elements@.len() == 0,
            p.block_rules == block_rules,
            p.inline_rules == inline_rules,
    {
        Parser {
            source: input.as_bytes(),
            cursor: 0,
            line_number: 0,
            block_rules,
            inline_rules,
            elements: Vec::new(),
        }
    }

    /// Parses the next logical line of the input, returning `None` on
    /// success.  `EndOfInput` is returned exactly when every line has been
    /// consumed; `UnsupportedConstruct` reports a declined recognizer on a
    /// line that was still appended by the built-in fallback.
    pub fn parse_line(&mut self) -> (r: Option<ParseError>)
        requires
            old(self).wf(),
        ensures
            final(self).wf(),
            final(self).source == old(self).source,
            final(self).block_rules == old(self).block_rules,
            final(self).inline_rules == old(self).inline_rules,
            (r matches Some(e) && e == ParseError::EndOfInput) <==> old(self).cursor == old(
                self,
            ).source@.len(),
            old(self).cursor == old(self).source@.len() ==> *final(self) == *old(self),
            old(self).cursor < old(self).source@.len() ==> {
                &&& final(self).line_number == old(self).line_number + 1
                &&& final(self).cursor == segment::next_cursor(
                    old(self).source@,
                    old(self).cursor as int,
                )
                &&& final(self).elements@.len() == old(self).elements@.len() + 1
                &&& final(self).elements@.subrange(0, old(self).elements@.len() as int) == old(
                    self,
                ).elements@
                &&& segment::is_blank(old(self).source@, old(self).cursor as int)
                    ==> (final(self).elements@.last() matches Element::Line(v) && v@.len() == 0)
                &&& old(self).no_rules() ==> block_matches(
                    final(self).elements@.last(),
                    old(self).source@,
                    old(self).cursor as int,
                ) && r is None
            },
    {
        let source = self.source;
        let len: usize = source.len();
        if self.cursor >= len {
            return Some(ParseError::EndOfInput);
        }

        let line = segment::next_line(source, self.cursor);
        let mut err: Option<&'static str> = None;
        let element: Element;

        if line.blank {
            element = Element::Line(Vec::new());
        } else {
            let mut claimed: Option<usize> = None;
            let mut k: usize = 0;
            while k < self.block_rules.len() && claimed.is_none()
                invariant
                    k <= self.block_rules@.len(),
                    self.cursor <= line.end <= source@.len(),
                    claimed matches Some(m) ==> m < self.block_rules@.len()
                        && self.block_rules@[m as int].claims(
                        source@,
                        self.cursor as int,
                        line.end as int,
                    ),
                decreases self.block_rules@.len() - k,
            {
                if self.block_rules[k].recognizes(source, self.cursor, line.end) {
                    claimed = Some(k);
                }
                k = k + 1;
            }

            let mut built: Option<Element> = None;
            if let Some(m) = claimed {
                match self.block_rules[m].construct(source, self.cursor, line.end) {
                    Ok(e) => {
                        built = Some(e);
                    },
                    Err(reason) => {
                        err = Some(reason);
                    },
                }
            }
            match built {
                Some(e) => {
                    element = e;
                },
                None => {
                    match block::classify(source, self.cursor, line.end) {
                        BlockKind::Heading { level, body } => {
                            let (contents, scan_err) = scan::scan_inline(
                                source,
                                body,
                                line.end,
                                &self.inline_rules,
                            );
                            if err.is_none() {
                                err = scan_err;
                            }
                            element = Element::Heading { level, contents };
                        },
                        BlockKind::Plain => {
                            let (texts, scan_err) = scan::scan_inline(
                                source,
                                self.cursor,
                                line.end,
                                &self.inline_rules,
                            );
                            if err.is_none() {
                                err = scan_err;
                            }
                            element = Element::Line(texts);
                        },
                    }
                },
            }
        }

        self.elements.push(element);
        self.cursor = line.next;
        self.line_number = self.line_number + 1;

        proof {
            let s = old(self).source@;
            let n = old(self).line_number as int;
            assert(line_start(s, n + 1) == segment::next_cursor(s, line_start(s, n)));
            assert(self.elements@.subrange(0, old(self).elements@.len() as int) =~= old(
                self,
            ).elements@);
            assert forall|j: int| 0 <= j < self.line_number implies line_start(s, j)
                < s.len() by {
                if j == n {
                    assert(line_start(s, n) == old(self).cursor);
                }
            }
            if self.no_rules() {
                assert forall|j: int| 0 <= j < self.line_number implies block_matches(
                    #[trigger] self.elements@[j],
                    s,
                    line_start(s, j),
                ) by {
                    if j < n {
                        assert(self.elements@[j] == old(self).elements@[j]);
                    } else {
                        assert(self.elements@[j] == self.elements@.last());
                        assert(line_start(s, n) == old(self).cursor);
                    }
                }
            }
        }

        match err {
            Some(reason) => Some(ParseError::UnsupportedConstruct(reason)),
            None => None,
        }
    }

    /// The number of logical lines consumed so far.
    pub fn line_number(&self) -> (n: usize)
        ensures
            n == self.line_number,
    {
        self.line_number
    }

    /// Hands the accumulated document to the caller; the parser is spent.
    pub fn into_document(self) -> (d: Snippet)
        ensures
            d == self.elements,
    {
        self.elements
    }
}

/// The offset of every logical line lies within the buffer (or at its end).
pub proof fn lemma_line_start_bounds(s: Seq<u8>, k: int)
    requires
        k >= 0,
    ensures
        0 <= line_start(s, k) <= s.len(),
    decreases k,
{
    if k > 0 {
        lemma_line_start_bounds(s, k - 1);
        segment::lemma_find_nl_props(s, line_start(s, k - 1));
    }
}

/// From line `k` of `n`, exactly `n - k` logical lines remain.
proof fn lemma_count_from(s: Seq<u8>, k: int, n: int)
    requires
        0 <= k <= n,
        forall|j: int| 0 <= j < n ==> line_start(s, j) < s.len(),
        line_start(s, n) == s.len(),
    ensures
        line_count(s, line_start(s, k)) == n - k,
    decreases n - k,
{
    lemma_line_start_bounds(s, k);
    if k < n {
        assert(line_start(s, k) < s.len());
        lemma_line_start_bounds(s, k + 1);
        lemma_count_from(s, k + 1, n);
        assert(line_start(s, k + 1) == segment::next_cursor(s, line_start(s, k)));
        assert(line_count(s, line_start(s, k)) == 1 + line_count(
            s,
            segment::next_cursor(s, line_start(s, k)),
        ));
    }
}

/// Law: stepping the driver to `EndOfInput` consumes every logical line
/// exactly once — an exhausted parser's line number is the number of
/// logical lines in its source.
pub proof fn lemma_each_line_once<B: BlockRule, I: InlineRule>(p: Parser<'_, B, I>)
    requires
        p.wf(),
        p.cursor == p.source@.len(),
    ensures
        p.line_number == line_count(p.source@, 0),
{
    lemma_count_from(p.source@, 0, p.line_number as int);
}

/// In a well-formed buffer, every logical line starts on a character
/// boundary: a line begins either at the buffer's start or right after a
/// one-byte `\n`.
proof fn lemma_line_start_boundary(s: Seq<u8>, k: int)
    requires
        utf8::is_utf8(s),
        k >= 0,
    ensures
        utf8::is_boundary(s, line_start(s, k)),
    decreases k,
{
    if k == 0 {
        utf8::lemma_start_boundary(s);
    } else {
        lemma_line_start_boundary(s, k - 1);
        lemma_line_start_bounds(s, k - 1);
        let c = line_start(s, k - 1);
        let t = segment::find_nl(s, c);
        segment::lemma_find_nl_props(s, c);
        if t < s.len() {
            utf8::lemma_continuation_range(s[t]);
            utf8::lemma_ascii_step(s, t);
        }
    }
}

/// The element that the built-in rules produce for a line starting on a
/// character boundary holds only spans that are valid for the buffer.
proof fn lemma_block_spans_valid(e: Element, s: Seq<u8>, c: int)
    requires
        utf8::is_utf8(s),
        s.len() <= usize::MAX,
        0 <= c <= s.len(),
        utf8::is_boundary(s, c),
        block_matches(e, s, c),
    ensures
        elem_spans_valid(e, s),
{
    let t = segment::find_nl(s, c);
    let b = segment::content_end(s, c);
    segment::lemma_find_nl_props(s, c);
    assert(c <= t <= s.len());
    assert(c <= b <= t);
    if b < s.len() {
        // The content ends right before a `\r` or `\n`, neither of which is
        // a continuation byte.
        utf8::lemma_continuation_range(s[b]);
    }
    assert(utf8::is_boundary(s, b));
    if !segment::is_blank(s, c) && block::is_heading(s, c, b) {
        let p = block::ws_end(s, c, b);
        block::lemma_ws_end_range(s, c, b);
        let q = block::hash_end(s, p, b);
        block::lemma_hash_end_range(s, p, b);
        assert forall|j: int| c <= j < q implies #[trigger] s[j] < 0x80 by {
            if j < p {
                assert(block::is_indent_ws(s[j]));
            } else {
                assert(s[j] == 35);
            }
        }
        utf8::lemma_ascii_run(s, c, q);
        if q < b {
            utf8::lemma_ascii_step(s, q);
        }
        assert(utf8::is_boundary(s, block::body_start(s, c, b)));
    }
}

/// Law: when the source is well-formed UTF-8 and only the built-in rules
/// ran, every text span in the accumulated document is valid for the
/// source, so resolving any of them succeeds.
pub proof fn lemma_document_spans_valid<B: BlockRule, I: InlineRule>(p: Parser<'_, B, I>)
    requires
        p.wf(),
        p.no_rules(),
        utf8::is_utf8(p.source@),
    ensures
        forall|k: int|
            0 <= k < p.elements@.len() ==> elem_spans_valid(#[trigger] p.elements@[k], p.source@),
{
    broadcast use vstd::slice::axiom_spec_len;

    let s = p.source@;
    assert(vstd::slice::spec_slice_len(p.source) == s.len());
    assert forall|k: int| 0 <= k < p.elements@.len() implies elem_spans_valid(
        #[trigger] p.elements@[k],
        s,
    ) by {
        lemma_line_start_boundary(s, k);
        lemma_line_start_bounds(s, k);
        lemma_block_spans_valid(p.elements@[k], s, line_start(s, k));
    }
}

/// Elements that the built-in rules produced for the same line of the same
/// source are structurally equal.
proof fn lemma_block_matches_equiv(e1: Element, e2: Element, s: Seq<u8>, c: int)
    requires
        block_matches(e1, s, c),
        block_matches(e2, s, c),
    ensures
        elem_equiv(e1, e2),
{
    let b = segment::content_end(s, c);
    if segment::is_blank(s, c) {
        match (e1, e2) {
            (Element::Line(v1), Element::Line(v2)) => {
                assert(elem_equiv(e1, e2));
            },
            _ => {
                assert(false);
            },
        }
    } else if block::is_heading(s, c, b) {
        match (e1, e2) {
            (
                Element::Heading { level: l1, contents: c1 },
                Element::Heading { level: l2, contents: c2 },
            ) => {
                lemma_text_run_equiv(c1@, c2@, block::body_start(s, c, b), b);
                assert(elem_equiv(e1, e2));
            },
            _ => {
                assert(false);
            },
        }
    } else {
        match (e1, e2) {
            (Element::Line(v1), Element::Line(v2)) => {
                lemma_text_run_equiv(v1@, v2@, c, b);
                assert(elem_equiv(e1, e2));
            },
            _ => {
                assert(false);
            },
        }
    }
}

/// Two default text-run scans of the same range are pointwise structurally
/// equal.
proof fn lemma_text_run_equiv(v1: Seq<Element>, v2: Seq<Element>, a: int, b: int)
    requires
        scan::is_text_run(v1, a, b),
        scan::is_text_run(v2, a, b),
    ensures
        v1.len() == v2.len(),
        forall|i: int| 0 <= i < v1.len() ==> elem_equiv(#[trigger] v1[i], v2[i]),
{
    if a < b {
        assert(v1[0] == v2[0]);
        assert(elem_equiv(v1[0], v2[0]));
        assert forall|i: int| 0 <= i < v1.len() implies elem_equiv(#[trigger] v1[i], v2[i]) by {
            assert(i == 0);
        }
    }
}

/// Law: parsing the same source twice with independent parsers yields
/// structurally equal documents.
pub proof fn lemma_parse_idempotent<B1: BlockRule, I1: InlineRule, B2: BlockRule, I2: InlineRule>(
    p1: Parser<'_, B1, I1>,
    p2: Parser<'_, B2, I2>,
)
    requires
        p1.wf(),
        p2.wf(),
        p1.no_rules(),
        p2.no_rules(),
        p1.source@ == p2.source@,
        p1.cursor == p1.source@.len(),
        p2.cursor == p2.source@.len(),
    ensures
        p1.elements@.len() == p2.elements@.len(),
        forall|k: int|
            0 <= k < p1.elements@.len() ==> elem_equiv(
                #[trigger] p1.elements@[k],
                p2.elements@[k],
            ),
{
    lemma_each_line_once(p1);
    lemma_each_line_once(p2);
    assert forall|k: int| 0 <= k < p1.elements@.len() implies elem_equiv(
        #[trigger] p1.elements@[k],
        p2.elements@[k],
    ) by {
        lemma_block_matches_equiv(
            p1.elements@[k],
            p2.elements@[k],
            p1.source@,
            line_start(p1.source@, k),
        );
    }
}

} // verus!
