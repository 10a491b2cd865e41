use vstd::prelude::*;

use crate::dot::{x1024_avx2_dot, x512_avx2_dot, x768_avx2_dot};
use crate::folds::{
    bounded, is_zero_vec, lemma_dot_range_bound, lemma_dot_range_self_nonneg,
    lemma_dot_range_self_positive, lemma_dot_range_zero_left, spec_dot,
};
use crate::math::StdMath;
use crate::utils::{cosine, spec_cosine};

verus! {

/// The cosine distance of two equal-length vectors: derived from the dot
/// product and the two self inner products, never computed directly.
pub open spec fn spec_cosine_distance(x: Seq<i64>, y: Seq<i64>) -> int {
    spec_cosine(spec_dot(x, y), spec_dot(x, x), spec_dot(y, y))
}

/// Two all-zero vectors are at cosine distance zero: both norms vanish and
/// the first degenerate branch applies.
pub proof fn lemma_cosine_zero_zero(x: Seq<i64>, y: Seq<i64>)
    requires
        x.len() == y.len(),
        is_zero_vec(x),
        is_zero_vec(y),
    ensures
        spec_cosine_distance(x, y) == 0,
{
    lemma_dot_range_zero_left(x, x, 0, x.len() as int);
    lemma_dot_range_zero_left(y, y, 0, y.len() as int);
}

/// An all-zero vector is at cosine distance one from any vector with a
/// nonzero element: exactly one norm vanishes and the second degenerate
/// branch applies.
pub proof fn lemma_cosine_zero_nonzero(x: Seq<i64>, y: Seq<i64>, j: int)
    requires
        x.len() == y.len(),
        is_zero_vec(x),
        0 <= j < y.len(),
        y[j] != 0,
    ensures
        spec_cosine_distance(x, y) == 1,
{
    lemma_dot_range_zero_left(x, x, 0, x.len() as int);
    lemma_dot_range_self_positive(y, j);
}

/// Computes the cosine distance of two 512-element vectors with the
/// 256-bit backend layout, through its fixed-length dot kernel.
pub fn x512_avx2_cosine(x: &[i64], y: &[i64]) -> (r: i64)
    requires
        x@.len() == 512,
        y@.len() == 512,
        bounded(x@),
        bounded(y@),
    ensures
        r as int == spec_cosine_distance(x@, y@),
{
    let norm_x = x512_avx2_dot(x, x);
    let norm_y = x512_avx2_dot(y, y);
    let dot_product = x512_avx2_dot(x, y);

    proof {
        lemma_dot_range_self_nonneg(x@, 0, 512);
        lemma_dot_range_self_nonneg(y@, 0, 512);
        lemma_dot_range_bound(x@, x@, 0, 512);
        lemma_dot_range_bound(y@, y@, 0, 512);
        lemma_dot_range_bound(x@, y@, 0, 512);
    }
    cosine::<StdMath>(dot_product, norm_x, norm_y)
}

/// Computes the cosine distance of two 768-element vectors with the
/// 256-bit backend layout, through its fixed-length dot kernel.
pub fn x768_avx2_cosine(x: &[i64], y: &[i64]) -> (r: i64)
    requires
        x@.len() == 768,
        y@.len() == 768,
        bounded(x@),
        bounded(y@),
    ensures
        r as int == spec_cosine_distance(x@, y@),
{
    let norm_x = x768_avx2_dot(x, x);
    let norm_y = x768_avx2_dot(y, y);
    let dot_product = x768_avx2_dot(x, y);

    proof {
        lemma_dot_range_self_nonneg(x@, 0, 768);
        lemma_dot_range_self_nonneg(y@, 0, 768);
        lemma_dot_range_bound(x@, x@, 0, 768);
        lemma_dot_range_bound(y@, y@, 0, 768);
        lemma_dot_range_bound(x@, y@, 0, 768);
    }
    cosine::<StdMath>(dot_product, norm_x, norm_y)
}

/// Computes the cosine distance of two 1024-element vectors with the
/// 256-bit backend layout, through its fixed-length dot kernel.
pub fn x1024_avx2_cosine(x: &[i64], y: &[i64]) -> (r: i64)
    requires
        x@.len() == 1024,
        y@.len() == 1024,
        bounded(x@),
        bounded(y@),
    ensures
        r as int == spec_cosine_distance(x@, y@),
{
    let norm_x = x1024_avx2_dot(x, x);
    let norm_y = x1024_avx2_dot(y, y);
    let dot_product = x1024_avx2_dot(x, y);

    proof {
        lemma_dot_range_self_nonneg(x@, 0, 1024);
        lemma_dot_range_self_nonneg(y@, 0, 1024);
        lemma_dot_range_bound(x@, x@, 0, 1024);
        lemma_dot_range_bound(y@, y@, 0, 1024);
        lemma_dot_range_bound(x@, y@, 0, 1024);
    }
    cosine::<StdMath>(dot_product, norm_x, norm_y)
}

} // verus!
