use vstd::prelude::*;

use crate::folds::{
    bounded, lemma_bounded_subrange, lemma_sq_euclid_range_bound, lemma_sq_euclid_range_split,
    lemma_sq_euclid_range_subrange, lemma_sq_term_bound, mag2, spec_sq_euclid, sq_euclid_range,
    MAX_DIM, MAX_MAG,
};
use crate::math::AutoMath;
use crate::utils::rollup_scalar_x8;

verus! {

/// One unrolled stride of eight squared differences, written out term by
/// term.
proof fn lemma_sq_euclid_unroll8(x: Seq<i64>, y: Seq<i64>, a: int)
    requires
        0 <= a,
        a + 8 <= x.len(),
        a + 8 <= y.len(),
    ensures
        sq_euclid_range(x, y, a, a + 8) == (x[a] - y[a]) * (x[a] - y[a]) + (x[a + 1] - y[a + 1]) * (
        x[a + 1] - y[a + 1]) + (x[a + 2] - y[a + 2]) * (x[a + 2] - y[a + 2]) + (x[a + 3] - y[a + 3])
            * (x[a + 3] - y[a + 3]) + (x[a + 4] - y[a + 4]) * (x[a + 4] - y[a + 4]) + (x[a + 5] - y[
            a + 5]) * (x[a + 5] - y[a + 5]) + (x[a + 6] - y[a + 6]) * (x[a + 6] - y[a + 6]) + (x[a
            + 7] - y[a + 7]) * (x[a + 7] - y[a + 7]),
{
    assert(sq_euclid_range(x, y, a, a) == 0);
    assert(sq_euclid_range(x, y, a, a + 1) == sq_euclid_range(x, y, a, a) + (x[a] - y[a]) * (x[a]
        - y[a]));
    assert(sq_euclid_range(x, y, a, a + 2) == sq_euclid_range(x, y, a, a + 1) + (x[a + 1] - y[a
        + 1]) * (x[a + 1] - y[a + 1]));
    assert(sq_euclid_range(x, y, a, a + 3) == sq_euclid_range(x, y, a, a + 2) + (x[a + 2] - y[a
        + 2]) * (x[a + 2] - y[a + 2]));
    assert(sq_euclid_range(x, y, a, a + 4) == sq_euclid_range(x, y, a, a + 3) + (x[a + 3] - y[a
        + 3]) * (x[a + 3] - y[a + 3]));
    assert(sq_euclid_range(x, y, a, a + 5) == sq_euclid_range(x, y, a, a + 4) + (x[a + 4] - y[a
        + 4]) * (x[a + 4] - y[a + 4]));
    assert(sq_euclid_range(x, y, a, a + 6) == sq_euclid_range(x, y, a, a + 5) + (x[a + 5] - y[a
        + 5]) * (x[a + 5] - y[a + 5]));
    assert(sq_euclid_range(x, y, a, a + 7) == sq_euclid_range(x, y, a, a + 6) + (x[a + 6] - y[a
        + 6]) * (x[a + 6] - y[a + 6]));
    assert(sq_euclid_range(x, y, a, a + 8) == sq_euclid_range(x, y, a, a + 7) + (x[a + 7] - y[a
        + 7]) * (x[a + 7] - y[a + 7]));
}

/// Computes the squared Euclidean distance of two equal-length vectors with
/// the portable backend: the leading `len % 8` elements first, then the
/// rest in strides of eight kept in eight independent accumulators, merged
/// at the very end by the balanced pairwise reduction.
pub fn xany_fallback_euclidean(x: &[i64], y: &[i64]) -> (r: i64)
    requires
        x@.len() == y@.len(),
        x@.len() <= MAX_DIM,
        bounded(x@),
        bounded(y@),
    ensures
        r as int == spec_sq_euclid(x@, y@),
{
    let len = x.len();
    let mut offset: usize = len % 8;
    let mut total: i64 = 0;

    if offset != 0 {
        let mut i: usize = 0;
        while i < offset
            invariant
                i <= offset,
                offset < 8,
                offset <= len,
                len == x@.len(),
                len == y@.len(),
                bounded(x@),
                bounded(y@),
                total as int == sq_euclid_range(x@, y@, 0, i as int),
            decreases offset - i,
        {
            proof {
                lemma_sq_euclid_range_bound(x@, y@, 0, i as int);
                lemma_sq_term_bound(x@[i as int] as int, y@[i as int] as int);
            }
            let diff = x[i] - y[i];
            total = total + diff * diff;
            i = i + 1;
        }
    }

    let mut acc1: i64 = 0;
    let mut acc2: i64 = 0;
    let mut acc3: i64 = 0;
    let mut acc4: i64 = 0;
    let mut acc5: i64 = 0;
    let mut acc6: i64 = 0;
    let mut acc7: i64 = 0;
    let mut acc8: i64 = 0;
    let ghost rem = offset as int;

    while offset < len
        invariant
            rem <= offset <= len,
            (len - offset) % 8 == 0,
            len == x@.len(),
            len == y@.len(),
            len <= MAX_DIM,
            bounded(x@),
            bounded(y@),
            0 <= rem,
            total as int == sq_euclid_range(x@, y@, 0, rem),
            acc1 + acc2 + acc3 + acc4 + acc5 + acc6 + acc7 + acc8 == sq_euclid_range(
                x@,
                y@,
                rem,
                offset as int,
            ),
            0 <= acc1 <= (offset as int) * (4 * mag2()),
            0 <= acc2 <= (offset as int) * (4 * mag2()),
            0 <= acc3 <= (offset as int) * (4 * mag2()),
            0 <= acc4 <= (offset as int) * (4 * mag2()),
            0 <= acc5 <= (offset as int) * (4 * mag2()),
            0 <= acc6 <= (offset as int) * (4 * mag2()),
            0 <= acc7 <= (offset as int) * (4 * mag2()),
            0 <= acc8 <= (offset as int) * (4 * mag2()),
        decreases len - offset,
    {
        proof {
            let o = offset as int;
            lemma_sq_euclid_range_split(x@, y@, rem, o, o + 8);
            lemma_sq_term_bound(x@[o] as int, y@[o] as int);
            lemma_sq_term_bound(x@[o + 1] as int, y@[o + 1] as int);
            lemma_sq_term_bound(x@[o + 2] as int, y@[o + 2] as int);
            lemma_sq_term_bound(x@[o + 3] as int, y@[o + 3] as int);
            lemma_sq_term_bound(x@[o + 4] as int, y@[o + 4] as int);
            lemma_sq_term_bound(x@[o + 5] as int, y@[o + 5] as int);
            lemma_sq_term_bound(x@[o + 6] as int, y@[o + 6] as int);
            lemma_sq_term_bound(x@[o + 7] as int, y@[o + 7] as int);
            lemma_sq_euclid_unroll8(x@, y@, o);
        }
        let d1 = x[offset] - y[offset];
        let d2 = x[offset + 1] - y[offset + 1];
        let d3 = x[offset + 2] - y[offset + 2];
        let d4 = x[offset + 3] - y[offset + 3];
        let d5 = x[offset + 4] - y[offset + 4];
        let d6 = x[offset + 5] - y[offset + 5];
        let d7 = x[offset + 6] - y[offset + 6];
        let d8 = x[offset + 7] - y[offset + 7];
        acc1 = acc1 + d1 * d1;
        acc2 = acc2 + d2 * d2;
        acc3 = acc3 + d3 * d3;
        acc4 = acc4 + d4 * d4;
        acc5 = acc5 + d5 * d5;
        acc6 = acc6 + d6 * d6;
        acc7 = acc7 + d7 * d7;
        acc8 = acc8 + d8 * d8;
        offset = offset + 8;
    }

    proof {
        lemma_sq_euclid_range_split(x@, y@, 0, rem, len as int);
        lemma_sq_euclid_range_bound(x@, y@, 0, rem);
        lemma_sq_euclid_range_bound(x@, y@, rem, len as int);
    }
    let reduced = rollup_scalar_x8::<AutoMath>(acc1, acc2, acc3, acc4, acc5, acc6, acc7, acc8);
    total + reduced
}

/// One lane of the 256-bit backend layout: the squared differences of eight
/// consecutive element pairs, the model of one wide register operation.
fn sq_euclid_lane8(x: &[i64], y: &[i64], base: usize) -> (r: i64)
    requires
        x@.len() == y@.len(),
        base + 8 <= x@.len(),
        bounded(x@),
        bounded(y@),
    ensures
        r as int == sq_euclid_range(x@, y@, base as int, base as int + 8),
        0 <= r as int <= 8 * (4 * mag2()),
{
    proof {
        let b = base as int;
        lemma_sq_term_bound(x@[b] as int, y@[b] as int);
        lemma_sq_term_bound(x@[b + 1] as int, y@[b + 1] as int);
        lemma_sq_term_bound(x@[b + 2] as int, y@[b + 2] as int);
        lemma_sq_term_bound(x@[b + 3] as int, y@[b + 3] as int);
        lemma_sq_term_bound(x@[b + 4] as int, y@[b + 4] as int);
        lemma_sq_term_bound(x@[b + 5] as int, y@[b + 5] as int);
        lemma_sq_term_bound(x@[b + 6] as int, y@[b + 6] as int);
        lemma_sq_term_bound(x@[b + 7] as int, y@[b + 7] as int);
        lemma_sq_euclid_unroll8(x@, y@, b);
    }
    let d1 = x[base] - y[base];
    let d2 = x[base + 1] - y[base + 1];
    let d3 = x[base + 2] - y[base + 2];
    let d4 = x[base + 3] - y[base + 3];
    let d5 = x[base + 4] - y[base + 4];
    let d6 = x[base + 5] - y[base + 5];
    let d7 = x[base + 6] - y[base + 6];
    let d8 = x[base + 7] - y[base + 7];
    d1 * d1 + d2 * d2 + d3 * d3 + d4 * d4 + d5 * d5 + d6 * d6 + d7 * d7 + d8 * d8
}

/// A 64-element block splits into its eight lanes.
proof fn lemma_sq_euclid_block64(x: Seq<i64>, y: Seq<i64>, o: int)
    requires
        0 <= o,
        o + 64 <= x.len(),
        o + 64 <= y.len(),
    ensures
        sq_euclid_range(x, y, o, o + 64) == sq_euclid_range(x, y, o, o + 8) + sq_euclid_range(
            x,
            y,
            o + 8,
            o + 16,
        ) + sq_euclid_range(x, y, o + 16, o + 24) + sq_euclid_range(x, y, o + 24, o + 32)
            + sq_euclid_range(x, y, o + 32, o + 40) + sq_euclid_range(x, y, o + 40, o + 48)
            + sq_euclid_range(x, y, o + 48, o + 56) + sq_euclid_range(x, y, o + 56, o + 64),
{
    lemma_sq_euclid_range_split(x, y, o, o + 8, o + 64);
    lemma_sq_euclid_range_split(x, y, o + 8, o + 16, o + 64);
    lemma_sq_euclid_range_split(x, y, o + 16, o + 24, o + 64);
    lemma_sq_euclid_range_split(x, y, o + 24, o + 32, o + 64);
    lemma_sq_euclid_range_split(x, y, o + 32, o + 40, o + 64);
    lemma_sq_euclid_range_split(x, y, o + 40, o + 48, o + 64);
    lemma_sq_euclid_range_split(x, y, o + 48, o + 56, o + 64);
}

/// The aligned main loop of the 256-bit backend: consumes the vectors from
/// `start` (a block boundary) to the end in 64-element blocks, eight lanes
/// per block held in eight independent accumulators.
fn avx2_euclidean_blocks(x: &[i64], y: &[i64], start: usize) -> (r: i64)
    requires
        x@.len() == y@.len(),
        x@.len() <= MAX_DIM,
        bounded(x@),
        bounded(y@),
        start <= x@.len(),
        (x@.len() - start) % 64 == 0,
    ensures
        r as int == sq_euclid_range(x@, y@, start as int, x@.len() as int),
{
    let len = x.len();
    let mut offset = start;
    let mut acc1: i64 = 0;
    let mut acc2: i64 = 0;
    let mut acc3: i64 = 0;
    let mut acc4: i64 = 0;
    let mut acc5: i64 = 0;
    let mut acc6: i64 = 0;
    let mut acc7: i64 = 0;
    let mut acc8: i64 = 0;

    while offset < len
        invariant
            start <= offset <= len,
            (len - offset) % 64 == 0,
            len == x@.len(),
            len == y@.len(),
            len <= MAX_DIM,
            bounded(x@),
            bounded(y@),
            acc1 + acc2 + acc3 + acc4 + acc5 + acc6 + acc7 + acc8 == sq_euclid_range(
                x@,
                y@,
                start as int,
                offset as int,
            ),
            0 <= acc1 <= (offset as int) * (4 * mag2()),
            0 <= acc2 <= (offset as int) * (4 * mag2()),
            0 <= acc3 <= (offset as int) * (4 * mag2()),
            0 <= acc4 <= (offset as int) * (4 * mag2()),
            0 <= acc5 <= (offset as int) * (4 * mag2()),
            0 <= acc6 <= (offset as int) * (4 * mag2()),
            0 <= acc7 <= (offset as int) * (4 * mag2()),
            0 <= acc8 <= (offset as int) * (4 * mag2()),
        decreases len - offset,
    {
        proof {
            let o = offset as int;
            lemma_sq_euclid_range_split(x@, y@, start as int, o, o + 64);
            lemma_sq_euclid_block64(x@, y@, o);
        }
        acc1 = acc1 + sq_euclid_lane8(x, y, offset);
        acc2 = acc2 + sq_euclid_lane8(x, y, offset + 8);
        acc3 = acc3 + sq_euclid_lane8(x, y, offset + 16);
        acc4 = acc4 + sq_euclid_lane8(x, y, offset + 24);
        acc5 = acc5 + sq_euclid_lane8(x, y, offset + 32);
        acc6 = acc6 + sq_euclid_lane8(x, y, offset + 40);
        acc7 = acc7 + sq_euclid_lane8(x, y, offset + 48);
        acc8 = acc8 + sq_euclid_lane8(x, y, offset + 56);
        offset = offset + 64;
    }

    rollup_scalar_x8::<AutoMath>(acc1, acc2, acc3, acc4, acc5, acc6, acc7, acc8)
}

/// Computes the squared Euclidean distance of two 512-element vectors with
/// the 256-bit backend layout: eight 64-element blocks, no remainder.
pub fn x512_avx2_euclidean(x: &[i64], y: &[i64]) -> (r: i64)
    requires
        x@.len() == 512,
        y@.len() == 512,
        bounded(x@),
        bounded(y@),
    ensures
        r as int == spec_sq_euclid(x@, y@),
{
    avx2_euclidean_blocks(x, y, 0)
}

/// Computes the squared Euclidean distance of two 768-element vectors with
/// the 256-bit backend layout: twelve 64-element blocks, no remainder.
pub fn x768_avx2_euclidean(x: &[i64], y: &[i64]) -> (r: i64)
    requires
        x@.len() == 768,
        y@.len() == 768,
        bounded(x@),
        bounded(y@),
    ensures
        r as int == spec_sq_euclid(x@, y@),
{
    avx2_euclidean_blocks(x, y, 0)
}

/// Computes the squared Euclidean distance of two 1024-element vectors with
/// the 256-bit backend layout: sixteen 64-element blocks, no remainder.
pub fn x1024_avx2_euclidean(x: &[i64], y: &[i64]) -> (r: i64)
    requires
        x@.len() == 1024,
        y@.len() == 1024,
        bounded(x@),
        bounded(y@),
    ensures
        r as int == spec_sq_euclid(x@, y@),
{
    avx2_euclidean_blocks(x, y, 0)
}

/// Computes the squared Euclidean distance of two equal-length vectors with
/// the 256-bit backend layout: the leading `len % 64` elements go through
/// the portable kernel first, so the main loop always runs on a
/// block-aligned stride.
pub fn xany_avx2_euclidean(x: &[i64], y: &[i64]) -> (r: i64)
    requires
        x@.len() == y@.len(),
        x@.len() <= MAX_DIM,
        bounded(x@),
        bounded(y@),
    ensures
        r as int == spec_sq_euclid(x@, y@),
{
    let len = x.len();
    let offset_from = len % 64;
    let mut total: i64 = 0;

    if offset_from != 0 {
        let x_subsection = &x[0..offset_from];
        let y_subsection = &y[0..offset_from];
        proof {
            lemma_bounded_subrange(x@, 0, offset_from as int);
            lemma_bounded_subrange(y@, 0, offset_from as int);
            lemma_sq_euclid_range_subrange(x@, y@, 0, offset_from as int, offset_from as int);
        }
        total = xany_fallback_euclidean(x_subsection, y_subsection);
    }

    let main = avx2_euclidean_blocks(x, y, offset_from);
    proof {
        lemma_sq_euclid_range_split(x@, y@, 0, offset_from as int, len as int);
        lemma_sq_euclid_range_bound(x@, y@, 0, offset_from as int);
        lemma_sq_euclid_range_bound(x@, y@, offset_from as int, len as int);
    }
    total + main
}

} // verus!
