//! Top-1 extraction over raw output scores.
//!
//! A score is carried as the raw bit pattern of an IEEE-754 single-precision
//! value (a `u32`), so that the selection rule can be verified without any
//! floating-point arithmetic: the caller passes each score's bits and gets
//! back the winning bits together with the label index.  The comparison
//! below agrees with partial comparison of the encoded values: NaN compares
//! equal to everything (never greater), and otherwise the order follows the
//! encoded magnitudes, with positive and negative zero equal.

use vstd::prelude::*;

verus! {

/// The bits encode a NaN: exponent all ones and a nonzero mantissa.
pub open spec fn is_nan_bits(b: u32) -> bool {
    (b & 0x7f80_0000u32) == 0x7f80_0000u32 && (b & 0x007f_ffffu32) != 0u32
}

/// Order-preserving integer key of a non-NaN bit pattern: negative values
/// (sign bit set) map below zero, positive values map above, and the two
/// zero encodings share the key 0, exactly as the encoded values compare.
pub open spec fn score_key(b: u32) -> int {
    if b >= 0x8000_0000u32 {
        0x8000_0000 - b
    } else {
        b as int
    }
}

/// Strictly-greater under partial comparison: a NaN on either side is
/// treated as "equal", never as greater.
pub open spec fn score_gt(a: u32, b: u32) -> bool {
    &&& !is_nan_bits(a)
    &&& !is_nan_bits(b)
    &&& score_key(a) > score_key(b)
}

/// Tests whether the bits encode a NaN.
pub fn is_nan_score(b: u32) -> (r: bool)
    ensures
        r == is_nan_bits(b),
{
    (b & 0x7f80_0000u32) == 0x7f80_0000u32 && (b & 0x007f_ffffu32) != 0u32
}

/// Decides `score_gt(a, b)`.
pub fn score_greater(a: u32, b: u32) -> (r: bool)
    ensures
        r == score_gt(a, b),
{
    if is_nan_score(a) || is_nan_score(b) {
        false
    } else {
        let ka: i64 = if a >= 0x8000_0000u32 {
            0x8000_0000i64 - (a as i64)
        } else {
            a as i64
        };
        let kb: i64 = if b >= 0x8000_0000u32 {
            0x8000_0000i64 - (b as i64)
        } else {
            b as i64
        };
        ka > kb
    }
}

/// The running fold of the selection: starting from the best pair
/// `(bs, bi)` seen before position `i`, scan the rest of `s`; a later
/// score replaces the best only when strictly greater, so the first
/// maximum is kept on ties.
pub open spec fn top_acc(s: Seq<u32>, off: int, i: int, bs: u32, bi: int) -> (u32, int)
    decreases s.len() - i,
{
    if i < 0 || i >= s.len() {
        (bs, bi)
    } else if score_gt(s[i], bs) {
        top_acc(s, off, i + 1, s[i], off + i)
    } else {
        top_acc(s, off, i + 1, bs, bi)
    }
}

/// The top-1 pair of a score sequence: each score is labelled starting at
/// `off`, and the pair with the maximum score wins, ties broken by the
/// first maximum in iteration order.  An empty sequence has no result.
pub open spec fn top_one_spec(s: Seq<u32>, off: int) -> Option<(u32, int)> {
    if s.len() == 0 {
        None
    } else {
        Some(top_acc(s, off, 1, s[0], off))
    }
}

/// Extracts the top-scoring class from raw output scores.
///
/// Labels are paired with the scores starting at `index_offset`; the
/// returned pair is the first maximum under partial comparison, where a
/// NaN never beats the incumbent.  `None` is returned exactly when the
/// score sequence is empty.
pub fn top_one(scores: &Vec<u32>, index_offset: i32) -> (r: Option<(u32, i32)>)
    requires
        scores@.len() <= i32::MAX as int,
        index_offset + scores@.len() <= i32::MAX as int + 1,
    ensures
        r is None <==> scores@.len() == 0,
        match r {
            Option::None => scores@.len() == 0,
            Option::Some((bs, bi)) => top_one_spec(scores@, index_offset as int) == Some(
                (bs, bi as int),
            ),
        },
{
    let n = scores.len();
    if n == 0 {
        return None;
    }
    let mut bs: u32 = scores[0];
    let mut bi: i32 = index_offset;
    let mut i: usize = 1;
    while i < n
        invariant
            1 <= i <= n,
            n == scores@.len(),
            n <= i32::MAX as int,
            index_offset + n <= i32::MAX as int + 1,
            index_offset <= bi < index_offset + i,
            top_one_spec(scores@, index_offset as int) == Some(
                top_acc(scores@, index_offset as int, i as int, bs, bi as int),
            ),
        decreases n - i,
    {
        if score_greater(scores[i], bs) {
            bs = scores[i];
            bi = index_offset + (i as i32);
        }
        i = i + 1;
    }
    Some((bs, bi))
}

/// Helper induction for `lemma_top_one_first_max`: the fold keeps the
/// first maximum once the prefix already satisfies that description.
proof fn lemma_top_acc_first_max(s: Seq<u32>, off: int, i: int, bs: u32, bi: int)
    requires
        forall|j: int| 0 <= j < s.len() ==> !is_nan_bits(#[trigger] s[j]),
        !is_nan_bits(bs),
        1 <= i <= s.len(),
        off <= bi < off + i,
        s[bi - off] == bs,
        forall|j: int| 0 <= j < i ==> score_key(#[trigger] s[j]) <= score_key(bs),
        forall|j: int| 0 <= j < bi - off ==> score_key(#[trigger] s[j]) < score_key(bs),
    ensures
        ({
            let (fs, fi) = top_acc(s, off, i, bs, bi);
            &&& off <= fi < off + s.len()
            &&& s[fi - off] == fs
            &&& forall|j: int| 0 <= j < s.len() ==> score_key(#[trigger] s[j]) <= score_key(fs)
            &&& forall|j: int| 0 <= j < fi - off ==> score_key(#[trigger] s[j]) < score_key(fs)
        }),
    decreases s.len() - i,
{
    if i < s.len() {
        if score_gt(s[i], bs) {
            lemma_top_acc_first_max(s, off, i + 1, s[i], off + i);
        } else {
            lemma_top_acc_first_max(s, off, i + 1, bs, bi);
        }
    }
}

/// Law: on NaN-free scores the selected pair is the first maximum.
///
/// The winning label points at a score that no other score exceeds, and
/// every score before the winner is strictly smaller, so ties are broken
/// in favour of the earliest maximum.
pub proof fn lemma_top_one_first_max(s: Seq<u32>, off: int)
    requires
        s.len() > 0,
        forall|j: int| 0 <= j < s.len() ==> !is_nan_bits(#[trigger] s[j]),
    ensures
        ({
            let (fs, fi) = top_one_spec(s, off)->Some_0;
            &&& off <= fi < off + s.len()
            &&& s[fi - off] == fs
            &&& forall|j: int| 0 <= j < s.len() ==> score_key(#[trigger] s[j]) <= score_key(fs)
            &&& forall|j: int| 0 <= j < fi - off ==> score_key(#[trigger] s[j]) < score_key(fs)
        }),
{
    lemma_top_acc_first_max(s, off, 1, s[0], off);
}

} // verus!
