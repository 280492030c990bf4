//! A specification of well-formed UTF-8 byte sequences.
//!
//! Spans produced by the scanner always begin on a character boundary and end
//! on the last byte of a character.  The lemmas here show that cutting a
//! well-formed buffer at such boundaries yields a well-formed buffer again,
//! which is what makes span resolution safe.

use vstd::prelude::*;

verus! {

/// A continuation byte: the second, third or fourth byte of an encoded character.
pub open spec fn is_continuation(b: u8) -> bool {
    b & 0xC0 == 0x80
}

/// The number of bytes a character occupies, read off its leading byte;
/// `0` for a byte that cannot lead a character.
pub open spec fn lead_width(b: u8) -> int {
    if b < 0x80 {
        1
    } else if b < 0xC2 {
        0
    } else if b < 0xE0 {
        2
    } else if b < 0xF0 {
        3
    } else if b < 0xF5 {
        4
    } else {
        0
    }
}

/// The character starting at `i` is completely and minimally encoded
/// (no overlong forms, no surrogates, no values beyond U+10FFFF).
pub open spec fn valid_char_at(s: Seq<u8>, i: int) -> bool {
    let w = lead_width(s[i]);
    &&& 1 <= w
    &&& i + w <= s.len()
    &&& forall|j: int| i < j < i + w ==> is_continuation(#[trigger] s[j])
    &&& (s[i] == 0xE0 ==> s[i + 1] >= 0xA0)
    &&& (s[i] == 0xED ==> s[i + 1] <= 0x9F)
    &&& (s[i] == 0xF0 ==> s[i + 1] >= 0x90)
    &&& (s[i] == 0xF4 ==> s[i + 1] <= 0x8F)
}

/// The suffix of `s` starting at `i` is a well-formed UTF-8 sequence.
pub open spec fn is_utf8_from(s: Seq<u8>, i: int) -> bool
    decreases s.len() - i
    when 0 <= i <= s.len()
{
    if i == s.len() {
        true
    } else {
        &&& valid_char_at(s, i)
        &&& is_utf8_from(s, i + lead_width(s[i]))
    }
}

/// The whole of `s` is a well-formed UTF-8 sequence.
pub open spec fn is_utf8(s: Seq<u8>) -> bool {
    is_utf8_from(s, 0)
}

/// `i` sits between two characters (or at either end) of `s`:
/// it is not in the interior of an encoded character.
pub open spec fn is_boundary(s: Seq<u8>, i: int) -> bool {
    i == s.len() || !is_continuation(s[i])
}

/// In a well-formed suffix, every boundary position is where some character
/// (or the end of the buffer) starts, so the suffix from there is well-formed too.
pub proof fn lemma_boundary_starts_char(s: Seq<u8>, i: int, a: int)
    requires
        0 <= i <= a <= s.len(),
        is_utf8_from(s, i),
        is_boundary(s, a),
    ensures
        is_utf8_from(s, a),
    decreases a - i,
{
    if i < a {
        let w = lead_width(s[i]);
        if a < i + w {
            assert(is_continuation(s[a]));
            assert(false);
        } else {
            lemma_boundary_starts_char(s, i + w, a);
        }
    }
}

/// Cutting a well-formed sequence at a boundary `b` keeps the part before `b`
/// well-formed: characters never straddle a boundary.
pub proof fn lemma_prefix_utf8(s: Seq<u8>, a: int, b: int, j: int)
    requires
        0 <= a <= j <= b <= s.len(),
        is_utf8_from(s, j),
        is_boundary(s, b),
    ensures
        is_utf8_from(s.subrange(a, b), j - a),
    decreases b - j,
{
    let t = s.subrange(a, b);
    if j == b {
        assert(j - a == t.len());
    } else {
        let w = lead_width(s[j]);
        if b < j + w {
            assert(is_continuation(s[b]));
            assert(false);
        }
        assert(t[j - a] == s[j]);
        assert(forall|d: int| 0 <= d < w ==> t[j - a + d] == s[#[trigger] (j + d)]);
        assert(valid_char_at(t, j - a));
        lemma_prefix_utf8(s, a, b, j + w);
        assert(is_utf8_from(t, j - a + w));
    }
}

/// A continuation byte is exactly one in the range `0x80..0xC0`.
pub proof fn lemma_continuation_range(b: u8)
    ensures
        is_continuation(b) <==> 0x80 <= b < 0xC0,
{
    assert((b & 0xC0 == 0x80) <==> (0x80 <= b < 0xC0)) by (bit_vector);
}

/// A well-formed buffer starts on a boundary.
pub proof fn lemma_start_boundary(s: Seq<u8>)
    requires
        is_utf8(s),
    ensures
        is_boundary(s, 0),
{
    if s.len() > 0 {
        assert(valid_char_at(s, 0));
        lemma_continuation_range(s[0]);
    }
}

/// In a well-formed buffer, the position right after a one-byte character
/// that starts on a boundary is again a boundary.
pub proof fn lemma_ascii_step(s: Seq<u8>, i: int)
    requires
        is_utf8(s),
        0 <= i < s.len(),
        is_boundary(s, i),
        s[i] < 0x80,
    ensures
        is_boundary(s, i + 1),
{
    lemma_boundary_starts_char(s, 0, i);
    assert(lead_width(s[i]) == 1);
    assert(is_utf8_from(s, i + 1));
    if i + 1 < s.len() {
        assert(valid_char_at(s, i + 1));
        lemma_continuation_range(s[i + 1]);
    }
}

/// Walking any run of one-byte characters from a boundary lands on a
/// boundary.
pub proof fn lemma_ascii_run(s: Seq<u8>, i: int, k: int)
    requires
        is_utf8(s),
        0 <= i <= k <= s.len(),
        is_boundary(s, i),
        forall|j: int| i <= j < k ==> #[trigger] s[j] < 0x80,
    ensures
        is_boundary(s, k),
    decreases k - i,
{
    if i < k {
        lemma_ascii_step(s, i);
        lemma_ascii_run(s, i + 1, k);
    }
}

/// Slicing a well-formed sequence between two boundaries yields a
/// well-formed sequence.
pub proof fn lemma_slice_utf8(s: Seq<u8>, a: int, b: int)
    requires
        0 <= a <= b <= s.len(),
        is_utf8(s),
        is_boundary(s, a),
        is_boundary(s, b),
    ensures
        is_utf8(s.subrange(a, b)),
{
    lemma_boundary_starts_char(s, 0, a);
    lemma_prefix_utf8(s, a, b, a);
}

} // verus!
