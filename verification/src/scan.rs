//! The character scanner.
//!
//! The scanner walks one content line's bytes character by character,
//! keeping a single current text run.  At each position the registered
//! inline recognizers are consulted in priority order; the first claimant
//! closes the run and consumes its own element.  Otherwise the run is
//! opened (when the scanner is idle) or extended by the character's width.
//! At line end any open run is flushed as a final text element.

use vstd::prelude::*;

use crate::ast::Element;
use crate::ext::InlineRule;
use crate::span::Span;
use crate::utf8;

verus! {

/// How far the scanner advances over a character led by byte `b`: the
/// character's encoded width, or a single byte when `b` cannot lead a
/// character, so that the scan always makes progress.
pub open spec fn step_of(b: u8) -> int {
    if utf8::lead_width(b) == 0 {
        1
    } else {
        utf8::lead_width(b)
    }
}

/// Computes `step_of` on a live byte.
fn char_step(b: u8) -> (w: usize)
    ensures
        w == step_of(b),
        1 <= w <= 4,
{
    if b < 0x80 {
        1
    } else if b < 0xC2 {
        1
    } else if b < 0xE0 {
        2
    } else if b < 0xF0 {
        3
    } else if b < 0xF5 {
        4
    } else {
        1
    }
}

/// The scanner's two states: between runs, or inside a text run.
enum ScanState {
    Idle,
    InTextRun(Span),
}

/// `els` is exactly the default scan of the range `[a, b)`: nothing for an
/// empty range, and otherwise one text element spanning the whole range.
pub open spec fn is_text_run(els: Seq<Element>, a: int, b: int) -> bool {
    if a >= b {
        els.len() == 0
    } else {
        &&& els.len() == 1
        &&& els[0] == Element::Text(Span { start: a as usize, end: (b - 1) as usize })
    }
}

/// Scans the line range `[start, end)` of `source`, consulting `rules` in
/// priority order, and returns the ordered inline elements together with
/// the first reason any recognizer declined.  With no registered rules the
/// result is the default scan: one text run over the whole range.
pub fn scan_inline<I: InlineRule>(
    source: &[u8],
    start: usize,
    end: usize,
    rules: &Vec<I>,
) -> (r: (Vec<Element>, Option<&'static str>))
    requires
        start <= end <= source@.len(),
    ensures
        rules@.len() == 0 ==> is_text_run(r.0@, start as int, end as int) && r.1 is None,
{
    let len: usize = source.len();
    let mut out: Vec<Element> = Vec::new();
    let mut err: Option<&'static str> = None;
    let mut state = ScanState::Idle;
    let mut i: usize = start;

    while i < end
        invariant
            start <= i <= end <= len,
            len == source@.len(),
            state matches ScanState::InTextRun(sp) ==> sp.start <= sp.end < i,
            rules@.len() == 0 ==> {
                &&& out@.len() == 0
                &&& err is None
                &&& if i == start {
                    state is Idle
                } else {
                    state matches ScanState::InTextRun(sp) && sp.start == start && sp.end
                        == i - 1
                }
            },
        decreases end - i,
    {
        let mut matched: Option<usize> = None;
        let mut k: usize = 0;
        while k < rules.len() && matched.is_none()
            invariant
                k <= rules@.len(),
                i < end <= source@.len(),
                matched is None ==> forall|j: int|
                    0 <= j < k ==> !rules@[j].claims(source@, i as int, end as int),
                matched matches Some(m) ==> m < rules@.len() && rules@[m as int].claims(
                    source@,
                    i as int,
                    end as int,
                ),
            decreases rules@.len() - k,
        {
            if rules[k].recognizes(source, i, end) {
                matched = Some(k);
            }
            k = k + 1;
        }

        let mut take_text = true;
        if let Some(m) = matched {
            match rules[m].construct(source, i, end) {
                Ok((element, consumed)) => {
                    if let ScanState::InTextRun(sp) = state {
                        out.push(Element::Text(sp));
                        state = ScanState::Idle;
                    }
                    out.push(element);
                    i = i + consumed;
                    take_text = false;
                },
                Err(reason) => {
                    if err.is_none() {
                        err = Some(reason);
                    }
                },
            }
        }

        if take_text {
            let lead = *vstd::slice::slice_index_get(source, i);
            let step = char_step(lead);
            let consumed: usize = if step > end - i {
                end - i
            } else {
                step
            };
            match state {
                ScanState::Idle => {
                    let run = if consumed == 1 {
                        Span::one(i)
                    } else {
                        Span::new(i, i + consumed - 1)
                    };
                    state = ScanState::InTextRun(run);
                },
                ScanState::InTextRun(sp) => {
                    let mut run = sp;
                    run.push(consumed);
                    state = ScanState::InTextRun(run);
                },
            }
            i = i + consumed;
        }
    }

    if let ScanState::InTextRun(sp) = state {
        out.push(Element::Text(sp));
    }
    (out, err)
}

} // verus!
