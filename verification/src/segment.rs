//! Logical-line segmentation.
//!
//! The source is split on `\n` (the terminator is counted for offset
//! bookkeeping but excluded from the line's content), and a single trailing
//! `\r` is stripped, so `\r\n` and `\n` terminate identical content.  A bare
//! `\r` is never a terminator.  A line that is empty or holds only
//! whitespace is blank; blank lines are surfaced, never dropped, because
//! they are structurally significant to block parsing.

use vstd::prelude::*;

verus! {

/// The position of the first `\n` at or after `from`, or the buffer's
/// length when no newline remains.
pub open spec fn find_nl(s: Seq<u8>, from: int) -> int
    decreases s.len() - from
    when 0 <= from <= s.len()
{
    if from == s.len() {
        s.len() as int
    } else if s[from] == 10 {
        from
    } else {
        find_nl(s, from + 1)
    }
}

/// The cursor position of the line after the one starting at `c`: one past
/// the terminator, or the end of the buffer for an unterminated final line.
pub open spec fn next_cursor(s: Seq<u8>, c: int) -> int {
    if find_nl(s, c) < s.len() {
        find_nl(s, c) + 1
    } else {
        s.len() as int
    }
}

/// One past the last content byte of the line starting at `c`: the
/// terminator is excluded, and so is a single trailing `\r`.
pub open spec fn content_end(s: Seq<u8>, c: int) -> int {
    let t = find_nl(s, c);
    if t > c && s[t - 1] == 13 {
        t - 1
    } else {
        t
    }
}

/// Bytes that leave a line blank when nothing else is on it.
pub open spec fn is_line_ws(b: u8) -> bool {
    b == 32 || b == 9 || b == 13
}

/// The line starting at `c` is blank: it has no content bytes, or only
/// whitespace ones.
pub open spec fn is_blank(s: Seq<u8>, c: int) -> bool {
    forall|j: int| c <= j < content_end(s, c) ==> is_line_ws(#[trigger] s[j])
}

/// Everything strictly before `find_nl(s, from)` differs from `\n`, and the
/// found position holds `\n` unless it is the end of the buffer.
pub proof fn lemma_find_nl_props(s: Seq<u8>, from: int)
    requires
        0 <= from <= s.len(),
    ensures
        from <= find_nl(s, from) <= s.len(),
        find_nl(s, from) < s.len() ==> s[find_nl(s, from)] == 10,
        forall|j: int| from <= j < find_nl(s, from) ==> s[j] != 10,
    decreases s.len() - from,
{
    if from < s.len() && s[from] != 10 {
        lemma_find_nl_props(s, from + 1);
    }
}

/// A forward scan that saw no `\n` in `[from, i)` and stopped at `i` (on a
/// `\n` or at the end) has found exactly `find_nl(s, from)`.
pub proof fn lemma_find_nl_at(s: Seq<u8>, from: int, i: int)
    requires
        0 <= from <= i <= s.len(),
        forall|j: int| from <= j < i ==> s[j] != 10,
        i == s.len() || s[i] == 10,
    ensures
        find_nl(s, from) == i,
    decreases i - from,
{
    if from < i {
        lemma_find_nl_at(s, from + 1, i);
    }
}

/// One logical line, as handed from the segmenter to the classifier.
#[derive(Debug, Clone, Copy, PartialEq, Eq, Structural)]
pub struct LogicalLine {
    /// Byte offset of the line's first byte.
    pub start: usize,
    /// One past the line's last content byte (terminator and a single
    /// trailing `\r` excluded).
    pub end: usize,
    /// Whether the line is blank.
    pub blank: bool,
    /// Byte offset of the next line (one past this line's terminator).
    pub next: usize,
}

/// Segments the next logical line out of `source`, starting at `cursor`.
pub fn next_line(source: &[u8], cursor: usize) -> (line: LogicalLine)
    requires
        cursor < source@.len(),
    ensures
        line.start == cursor,
        line.end == content_end(source@, cursor as int),
        line.next == next_cursor(source@, cursor as int),
        line.blank == is_blank(source@, cursor as int),
        cursor < line.next <= source@.len(),
        line.start <= line.end <= source@.len(),
    {
    let len: usize = source.len();
    let mut i: usize = cursor;
    while i < len && *vstd::slice::slice_index_get(source, i) != 10
        invariant
            cursor <= i <= len,
            len == source@.len(),
            forall|j: int| cursor <= j < i ==> source@[j] != 10,
        decreases len - i,
    {
        i = i + 1;
    }
    proof {
        lemma_find_nl_at(source@, cursor as int, i as int);
    }
    let term: usize = i;
    let end: usize = if term > cursor && *vstd::slice::slice_index_get(source, term - 1) == 13 {
        term - 1
    } else {
        term
    };
    let next: usize = if term < len {
        term + 1
    } else {
        len
    };

    let mut blank = true;
    let mut k: usize = cursor;
    while k < end && blank
        invariant
            cursor <= k <= end <= len,
            len == source@.len(),
            blank ==> forall|j: int| cursor <= j < k ==> is_line_ws(#[trigger] source@[j]),
            !blank ==> !is_blank(source@, cursor as int),
            end == content_end(source@, cursor as int),
        decreases end - k,
    {
        let b = *vstd::slice::slice_index_get(source, k);
        if !(b == 32 || b == 9 || b == 13) {
            blank = false;
            assert(!is_line_ws(source@[k as int]));
        }
        k = k + 1;
    }

    LogicalLine { start: cursor, end, blank, next }
}

} // verus!
