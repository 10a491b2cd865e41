use vstd::prelude::*;

use crate::arch::{Auto, SelectedArch};
use crate::cosine::{spec_cosine_distance, x1024_avx2_cosine, x512_avx2_cosine, x768_avx2_cosine};
use crate::dot::{x1024_avx2_dot, x512_avx2_dot, x768_avx2_dot, xany_avx2_dot, xany_fallback_dot};
use crate::euclidean::{
    x1024_avx2_euclidean, x512_avx2_euclidean, x768_avx2_euclidean, xany_avx2_euclidean,
    xany_fallback_euclidean,
};
use crate::folds::{bounded, spec_min, spec_sq_euclid, spec_dot, MAX_DIM, MAX_MAG};
use crate::min::{spec_col_min, uniform_rows, xany_avx512_min_horizontal, xany_avx512_min_vertical};
use crate::test_utils::simple_cosine;
use crate::transforms::{
    xany_fallback_nofma_add_value, xany_fallback_nofma_div_value, xany_fallback_nofma_mul_value,
    xany_fallback_nofma_sub_value,
};

verus! {

// The dispatch facade: callers hand in the capability token resolved once
// at setup and never branch on hardware themselves. Every backend's kernel
// carries the same exact contract, so whichever one the token selects, the
// caller sees the same mathematical value: cross-backend agreement is part
// of each facade function's postcondition, not a matter of luck.

/// Any two squared-Euclidean results for the same inputs agree, whichever
/// backend produced them and whether a fixed-length or the
/// arbitrary-length kernel ran: every such kernel's postcondition pins its
/// result to `spec_sq_euclid`, the premise this law takes for each result.
pub proof fn lemma_euclidean_backends_agree(x: Seq<i64>, y: Seq<i64>, r1: int, r2: int)
    requires
        r1 == spec_sq_euclid(x, y),
        r2 == spec_sq_euclid(x, y),
    ensures
        r1 == r2,
{
}

/// Any two dot-product results for the same inputs agree, whichever
/// backend produced them and whether a fixed-length or the
/// arbitrary-length kernel ran.
pub proof fn lemma_dot_backends_agree(x: Seq<i64>, y: Seq<i64>, r1: int, r2: int)
    requires
        r1 == spec_dot(x, y),
        r2 == spec_dot(x, y),
    ensures
        r1 == r2,
{
}

/// Any two cosine-distance results for the same inputs agree, whichever
/// backend produced them and whether a fixed-length or the one-pass
/// kernel ran.
pub proof fn lemma_cosine_backends_agree(x: Seq<i64>, y: Seq<i64>, r1: int, r2: int)
    requires
        r1 == spec_cosine_distance(x, y),
        r2 == spec_cosine_distance(x, y),
    ensures
        r1 == r2,
{
}

/// Computes the squared Euclidean distance of two equal-length vectors
/// with the fastest backend the token proved available, taking the
/// fixed-length fast path for the common embedding sizes.
pub fn euclidean(token: Auto, x: &[i64], y: &[i64]) -> (r: i64)
    requires
        x@.len() == y@.len(),
        x@.len() <= MAX_DIM,
        bounded(x@),
        bounded(y@),
    ensures
        r as int == spec_sq_euclid(x@, y@),
{
    match token.selected() {
        SelectedArch::Fallback => xany_fallback_euclidean(x, y),
        _ => {
            if x.len() == 512 {
                x512_avx2_euclidean(x, y)
            } else if x.len() == 768 {
                x768_avx2_euclidean(x, y)
            } else if x.len() == 1024 {
                x1024_avx2_euclidean(x, y)
            } else {
                xany_avx2_euclidean(x, y)
            }
        },
    }
}

/// Computes the dot product of two equal-length vectors with the fastest
/// backend the token proved available, taking the fixed-length fast path
/// for the common embedding sizes.
pub fn dot_product(token: Auto, x: &[i64], y: &[i64]) -> (r: i64)
    requires
        x@.len() == y@.len(),
        x@.len() <= MAX_DIM,
        bounded(x@),
        bounded(y@),
    ensures
        r as int == spec_dot(x@, y@),
{
    match token.selected() {
        SelectedArch::Fallback => xany_fallback_dot(x, y),
        _ => {
            if x.len() == 512 {
                x512_avx2_dot(x, y)
            } else if x.len() == 768 {
                x768_avx2_dot(x, y)
            } else if x.len() == 1024 {
                x1024_avx2_dot(x, y)
            } else {
                xany_avx2_dot(x, y)
            }
        },
    }
}

/// Computes the cosine distance of two equal-length vectors with the
/// fastest backend the token proved available: the fixed-length dot
/// kernels for the common embedding sizes, the one-pass reference
/// otherwise.
pub fn cosine_distance(token: Auto, x: &[i64], y: &[i64]) -> (r: i64)
    requires
        x@.len() == y@.len(),
        x@.len() <= MAX_DIM,
        bounded(x@),
        bounded(y@),
    ensures
        r as int == spec_cosine_distance(x@, y@),
{
    match token.selected() {
        SelectedArch::Fallback => simple_cosine(x, y),
        _ => {
            if x.len() == 512 {
                x512_avx2_cosine(x, y)
            } else if x.len() == 768 {
                x768_avx2_cosine(x, y)
            } else if x.len() == 1024 {
                x1024_avx2_cosine(x, y)
            } else {
                simple_cosine(x, y)
            }
        },
    }
}

/// Computes the minimum element of a vector. The wide-block reduction is
/// the engine's only minimum implementation, so every token selects it;
/// the result is exact either way.
pub fn horizontal_min(token: Auto, x: &[i64]) -> (r: i64)
    ensures
        r as int == spec_min(x@),
{
    let _ = token;
    xany_avx512_min_horizontal(x)
}

/// Computes the element-wise minimum across the rows of a matrix of equal
/// widths. The wide-block reduction is the engine's only minimum
/// implementation, so every token selects it; the result is exact either
/// way.
pub fn vertical_min(token: Auto, rows: &[Vec<i64>]) -> (r: Vec<i64>)
    requires
        rows@.len() >= 1,
        uniform_rows(rows@, rows@[0]@.len() as int),
    ensures
        r@.len() == rows@[0]@.len(),
        forall|j: int| 0 <= j < rows@[0]@.len() ==> #[trigger] r@[j] as int == spec_col_min(rows@, j),
{
    let _ = token;
    xany_avx512_min_vertical(rows)
}

/// Multiplies every element of the buffer by `k` in place.
pub fn scale_in_place(buf: &mut Vec<i64>, k: i64)
    requires
        bounded(old(buf)@),
        -MAX_MAG <= k <= MAX_MAG,
    ensures
        final(buf)@.len() == old(buf)@.len(),
        forall|i: int| 0 <= i < final(buf)@.len() ==> #[trigger] final(buf)@[i] as int == old(buf)@[i] * k,
{
    xany_fallback_nofma_mul_value(buf, k)
}

/// Adds `k` to every element of the buffer in place.
pub fn add_in_place(buf: &mut Vec<i64>, k: i64)
    requires
        bounded(old(buf)@),
        -MAX_MAG <= k <= MAX_MAG,
    ensures
        final(buf)@.len() == old(buf)@.len(),
        forall|i: int| 0 <= i < final(buf)@.len() ==> #[trigger] final(buf)@[i] as int == old(buf)@[i] + k,
{
    xany_fallback_nofma_add_value(buf, k)
}

/// Subtracts `k` from every element of the buffer in place.
pub fn sub_in_place(buf: &mut Vec<i64>, k: i64)
    requires
        bounded(old(buf)@),
        -MAX_MAG <= k <= MAX_MAG,
    ensures
        final(buf)@.len() == old(buf)@.len(),
        forall|i: int| 0 <= i < final(buf)@.len() ==> #[trigger] final(buf)@[i] as int == old(buf)@[i] - k,
{
    xany_fallback_nofma_sub_value(buf, k)
}

/// Divides every element of the buffer by the nonzero `k` in place, with
/// the Euclidean quotient.
pub fn div_in_place(buf: &mut Vec<i64>, k: i64)
    requires
        bounded(old(buf)@),
        k != 0,
        -MAX_MAG <= k <= MAX_MAG,
    ensures
        final(buf)@.len() == old(buf)@.len(),
        forall|i: int|
            0 <= i < final(buf)@.len() ==> #[trigger] final(buf)@[i] as int == old(buf)@[i] as int
                / k as int,
{
    xany_fallback_nofma_div_value(buf, k)
}

} // verus!
