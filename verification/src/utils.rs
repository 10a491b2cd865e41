use vstd::prelude::*;

use crate::math::Math;
use crate::roots::{isqrt_u128, spec_isqrt};

verus! {

/// Largest magnitude the cosine combiner accepts for a dot product or a
/// norm; every value the kernels can produce stays well under it, and any
/// product of two norms stays under the square-root primitive's cap.
#[verifier::inline]
pub open spec fn norm_cap() -> int {
    288230376151711743
}

/// The cosine distance derived from a dot product and the two self inner
/// products, over the exact carrier: the square root is the integer square
/// root and the division is Euclidean. The two degenerate branches are the
/// deliberate convention for all-zero vectors: both norms zero gives
/// distance zero, exactly one norm zero gives distance one, and they also
/// keep every division away from zero.
pub open spec fn spec_cosine(dot_product: int, norm_x: int, norm_y: int) -> int {
    if norm_x == 0 && norm_y == 0 {
        0
    } else if norm_x == 0 || norm_y == 0 {
        1
    } else {
        1 - dot_product / (spec_isqrt((norm_x * norm_y) as nat) as int)
    }
}

/// First half of a kernel block: lanes 1 through 4.
pub const CHUNK_0: usize = 0;

/// Second half of a kernel block: lanes 5 through 8.
pub const CHUNK_1: usize = 1;

/// Largest magnitude a single accumulator may reach before the reduction
/// primitives are applied; eight such values always sum without overflow.
pub const ACC_CAP: i64 = 576460752303423488;

/// The four lane start offsets of one half-block of the 256-bit backend
/// layout: lanes of eight elements, thirty-two elements per half-block.
pub fn offsets_avx2<const CHUNK: usize>(base: usize) -> (r: [usize; 4])
    requires
        CHUNK <= 1,
        base <= crate::folds::MAX_DIM,
    ensures
        r@[0] == base + CHUNK * 32,
        r@[1] == base + CHUNK * 32 + 8,
        r@[2] == base + CHUNK * 32 + 16,
        r@[3] == base + CHUNK * 32 + 24,
{
    [base + CHUNK * 32, base + CHUNK * 32 + 8, base + CHUNK * 32 + 16, base + CHUNK * 32 + 24]
}

/// The four lane start offsets of one half-block of the 512-bit backend
/// layout: lanes of sixteen elements, sixty-four elements per half-block.
pub fn offsets_avx512<const CHUNK: usize>(base: usize) -> (r: [usize; 4])
    requires
        CHUNK <= 1,
        base <= crate::folds::MAX_DIM,
    ensures
        r@[0] == base + CHUNK * 64,
        r@[1] == base + CHUNK * 64 + 16,
        r@[2] == base + CHUNK * 64 + 32,
        r@[3] == base + CHUNK * 64 + 48,
{
    [base + CHUNK * 64, base + CHUNK * 64 + 16, base + CHUNK * 64 + 32, base + CHUNK * 64 + 48]
}

/// Sums eight accumulators into one value with a balanced pairwise-merge
/// tree: neighbours first, then the four partial sums, then the last two.
/// This fixed merge order is what every kernel's final reduction uses.
pub fn rollup_scalar_x8<M: Math>(
    acc1: i64,
    acc2: i64,
    acc3: i64,
    acc4: i64,
    acc5: i64,
    acc6: i64,
    acc7: i64,
    acc8: i64,
) -> (r: i64)
    requires
        -ACC_CAP <= acc1 <= ACC_CAP,
        -ACC_CAP <= acc2 <= ACC_CAP,
        -ACC_CAP <= acc3 <= ACC_CAP,
        -ACC_CAP <= acc4 <= ACC_CAP,
        -ACC_CAP <= acc5 <= ACC_CAP,
        -ACC_CAP <= acc6 <= ACC_CAP,
        -ACC_CAP <= acc7 <= ACC_CAP,
        -ACC_CAP <= acc8 <= ACC_CAP,
    ensures
        r as int == acc1 + acc2 + acc3 + acc4 + acc5 + acc6 + acc7 + acc8,
{
    let m1: i64 = acc1 + acc2;
    let m3: i64 = acc3 + acc4;
    let m5: i64 = acc5 + acc6;
    let m7: i64 = acc7 + acc8;

    let n1: i64 = m1 + m3;
    let n5: i64 = m5 + m7;

    n1 + n5
}

/// Combines a dot product and the two self inner products into the cosine
/// distance, reproducing the three-way degenerate-norm branch exactly.
pub fn cosine<M: Math>(dot_product: i64, norm_x: i64, norm_y: i64) -> (r: i64)
    requires
        -norm_cap() <= dot_product <= norm_cap(),
        0 <= norm_x <= norm_cap(),
        0 <= norm_y <= norm_cap(),
    ensures
        r as int == spec_cosine(dot_product as int, norm_x as int, norm_y as int),
{
    if norm_x == 0 && norm_y == 0 {
        0
    } else if norm_x == 0 || norm_y == 0 {
        1
    } else {
        proof {
            assert((norm_x as int) * (norm_y as int) < 83076749736557242056487941267521536int)
                by (nonlinear_arith)
                requires
                    0 <= norm_x <= 288230376151711743int,
                    0 <= norm_y <= 288230376151711743int,
            ;
            assert(1 <= (norm_x as int) * (norm_y as int)) by (nonlinear_arith)
                requires
                    1 <= norm_x,
                    1 <= norm_y,
            ;
        }
        let prod: u128 = (norm_x as u128) * (norm_y as u128);
        let root = isqrt_u128(prod);
        proof {
            if root == 0 {
                assert(prod < 1);
            }
        }
        let divisor = root as i64;
        proof {
            let q = dot_product as int / divisor as int;
            assert(-norm_cap() <= q <= norm_cap()) by (nonlinear_arith)
                requires
                    -norm_cap() <= dot_product <= norm_cap(),
                    1 <= divisor,
                    q == dot_product as int / divisor as int,
            ;
        }
        let quotient = dot_product.checked_div_euclid(divisor).unwrap();
        1 - quotient
    }
}

} // verus!
