use vstd::prelude::*;

use rand::Rng;
use rand::SeedableRng;

use crate::cosine::spec_cosine_distance;
use crate::folds::{
    bounded, dot_range, lemma_dot_range_bound, lemma_dot_range_self_nonneg, lemma_sq_euclid_range_bound,
    lemma_sq_term_bound, lemma_term_bound, spec_dot, spec_sq_euclid, sq_euclid_range, MAX_DIM,
    MAX_MAG,
};
use crate::math::AutoMath;
use crate::utils::cosine;

verus! {

const SEED: u64 = 34535345353;

/// The type of the deterministic generator behind the sample vectors.
#[verifier::external_type_specification]
#[verifier::external_body]
pub struct ExChaCha8Rng(rand_chacha::ChaCha8Rng);

/// Relies on rand's SeedableRng::seed_from_u64 for ChaCha8Rng: builds a
/// generator from the given seed.
#[verifier::external_body]
fn chacha_from_seed(seed: u64) -> rand_chacha::ChaCha8Rng {
    rand_chacha::ChaCha8Rng::seed_from_u64(seed)
}

/// Relies on rand's Rng::gen for i64: draws the generator's next value.
/// Nothing is assumed of what comes back.
#[verifier::external_body]
fn chacha_next_i64(rng: &mut rand_chacha::ChaCha8Rng) -> i64 {
    rng.gen()
}

/// Masks an arbitrary draw down to the kernels' admitted magnitude.
fn mask_to_mag(v: i64) -> (r: i64)
    ensures
        -MAX_MAG <= r <= MAX_MAG,
{
    let m = v & 0x3FFFF;
    proof {
        assert(0 <= v & 0x3FFFF <= 0x3FFFF) by (bit_vector);
    }
    m - 131072
}

/// Two deterministic sample vectors of the given length, every element
/// within the kernels' admitted magnitude.
pub fn get_sample_vectors(size: usize) -> (r: (Vec<i64>, Vec<i64>))
    ensures
        r.0@.len() == size,
        r.1@.len() == size,
        bounded(r.0@),
        bounded(r.1@),
{
    let mut rng = chacha_from_seed(SEED);

    let mut x: Vec<i64> = Vec::new();
    let mut y: Vec<i64> = Vec::new();
    let mut i: usize = 0;
    while i < size
        invariant
            i <= size,
            x@.len() == i,
            y@.len() == i,
            bounded(x@),
            bounded(y@),
        decreases size - i,
    {
        let a = mask_to_mag(chacha_next_i64(&mut rng));
        let b = mask_to_mag(chacha_next_i64(&mut rng));
        x.push(a);
        y.push(b);
        i = i + 1;
    }

    (x, y)
}

/// The naive reference dot product: one pass, one accumulator.
pub fn simple_dot(x: &[i64], y: &[i64]) -> (r: i64)
    requires
        x@.len() == y@.len(),
        x@.len() <= MAX_DIM,
        bounded(x@),
        bounded(y@),
    ensures
        r as int == spec_dot(x@, y@),
{
    let len = x.len();
    let mut dot_product: i64 = 0;
    let mut i: usize = 0;
    while i < len
        invariant
            i <= len,
            len == x@.len(),
            len == y@.len(),
            len <= MAX_DIM,
            bounded(x@),
            bounded(y@),
            dot_product as int == dot_range(x@, y@, 0, i as int),
        decreases len - i,
    {
        proof {
            lemma_dot_range_bound(x@, y@, 0, i as int);
            lemma_term_bound(x@[i as int] as int, y@[i as int] as int);
        }
        dot_product = dot_product + x[i] * y[i];
        i = i + 1;
    }
    dot_product
}

/// The naive reference squared Euclidean distance: one pass, one
/// accumulator.
pub fn simple_euclidean(x: &[i64], y: &[i64]) -> (r: i64)
    requires
        x@.len() == y@.len(),
        x@.len() <= MAX_DIM,
        bounded(x@),
        bounded(y@),
    ensures
        r as int == spec_sq_euclid(x@, y@),
{
    let len = x.len();
    let mut dist: i64 = 0;
    let mut i: usize = 0;
    while i < len
        invariant
            i <= len,
            len == x@.len(),
            len == y@.len(),
            len <= MAX_DIM,
            bounded(x@),
            bounded(y@),
            dist as int == sq_euclid_range(x@, y@, 0, i as int),
        decreases len - i,
    {
        proof {
            lemma_sq_euclid_range_bound(x@, y@, 0, i as int);
            lemma_sq_term_bound(x@[i as int] as int, y@[i as int] as int);
        }
        let diff = x[i] - y[i];
        dist = dist + diff * diff;
        i = i + 1;
    }
    dist
}

/// The naive reference cosine distance: one pass accumulating the dot
/// product and both norms, then the shared degenerate-norm combiner.
pub fn simple_cosine(x: &[i64], y: &[i64]) -> (r: i64)
    requires
        x@.len() == y@.len(),
        x@.len() <= MAX_DIM,
        bounded(x@),
        bounded(y@),
    ensures
        r as int == spec_cosine_distance(x@, y@),
{
    let len = x.len();
    let mut dot_product: i64 = 0;
    let mut norm_x: i64 = 0;
    let mut norm_y: i64 = 0;
    let mut i: usize = 0;
    while i < len
        invariant
            i <= len,
            len == x@.len(),
            len == y@.len(),
            len <= MAX_DIM,
            bounded(x@),
            bounded(y@),
            dot_product as int == dot_range(x@, y@, 0, i as int),
            norm_x as int == dot_range(x@, x@, 0, i as int),
            norm_y as int == dot_range(y@, y@, 0, i as int),
        decreases len - i,
    {
        proof {
            lemma_dot_range_bound(x@, y@, 0, i as int);
            lemma_dot_range_bound(x@, x@, 0, i as int);
            lemma_dot_range_bound(y@, y@, 0, i as int);
            lemma_term_bound(x@[i as int] as int, y@[i as int] as int);
            lemma_term_bound(x@[i as int] as int, x@[i as int] as int);
            lemma_term_bound(y@[i as int] as int, y@[i as int] as int);
        }
        dot_product = dot_product + x[i] * y[i];
        norm_x = norm_x + x[i] * x[i];
        norm_y = norm_y + y[i] * y[i];
        i = i + 1;
    }

    proof {
        lemma_dot_range_self_nonneg(x@, 0, len as int);
        lemma_dot_range_self_nonneg(y@, 0, len as int);
        lemma_dot_range_bound(x@, y@, 0, len as int);
        lemma_dot_range_bound(x@, x@, 0, len as int);
        lemma_dot_range_bound(y@, y@, 0, len as int);
    }
    cosine::<AutoMath>(dot_product, norm_x, norm_y)
}

} // verus!
