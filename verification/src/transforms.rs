use vstd::prelude::*;

use crate::folds::{bounded, lemma_term_bound, MAX_MAG};
use crate::math::{FastMath, Math, StdMath};

verus! {

/// Multiplies each element in the provided mutable vector by `multiplier`:
/// the leading `len % 8` elements one by one, then the rest in unrolled
/// strides of eight.
fn xany_fallback_mul_impl<M: Math>(arr: &mut Vec<i64>, multiplier: i64)
    requires
        bounded(old(arr)@),
        -MAX_MAG <= multiplier <= MAX_MAG,
    ensures
        final(arr)@.len() == old(arr)@.len(),
        forall|i: int|
            0 <= i < final(arr)@.len() ==> #[trigger] final(arr)@[i] as int == old(arr)@[i] * multiplier,
{
    let len = arr.len();
    let mut offset_from: usize = len % 8;

    if offset_from != 0 {
        let mut i: usize = 0;
        while i < offset_from
            invariant
                i <= offset_from,
                offset_from <= len,
                len == arr@.len(),
            len == old(arr)@.len(),
                len == old(arr)@.len(),
                -MAX_MAG <= multiplier <= MAX_MAG,
                forall|j: int| i as int <= j < len ==> #[trigger] arr@[j] == old(arr)@[j],
                bounded(old(arr)@),
                forall|j: int|
                    0 <= j < i as int ==> #[trigger] arr@[j] as int == old(arr)@[j] * multiplier,
            decreases offset_from - i,
        {
            proof {
                lemma_term_bound(arr@[i as int] as int, multiplier as int);
            }
            let updated = arr[i] * multiplier;
            arr.set(i, updated);
            i = i + 1;
        }
    }

    while offset_from < len
        invariant
            offset_from <= len,
            (len - offset_from) % 8 == 0,
            len == arr@.len(),
            len == old(arr)@.len(),
            -MAX_MAG <= multiplier <= MAX_MAG,
            forall|j: int| offset_from as int <= j < len ==> #[trigger] arr@[j] == old(arr)@[j],
            bounded(old(arr)@),
            forall|j: int|
                0 <= j < offset_from as int ==> #[trigger] arr@[j] as int == old(arr)@[j]
                    * multiplier,
        decreases len - offset_from,
    {
        proof {
            let o = offset_from as int;
            lemma_term_bound(arr@[o] as int, multiplier as int);
            lemma_term_bound(arr@[o + 1] as int, multiplier as int);
            lemma_term_bound(arr@[o + 2] as int, multiplier as int);
            lemma_term_bound(arr@[o + 3] as int, multiplier as int);
            lemma_term_bound(arr@[o + 4] as int, multiplier as int);
            lemma_term_bound(arr@[o + 5] as int, multiplier as int);
            lemma_term_bound(arr@[o + 6] as int, multiplier as int);
            lemma_term_bound(arr@[o + 7] as int, multiplier as int);
        }
        let x1 = arr[offset_from] * multiplier;
        let x2 = arr[offset_from + 1] * multiplier;
        let x3 = arr[offset_from + 2] * multiplier;
        let x4 = arr[offset_from + 3] * multiplier;
        let x5 = arr[offset_from + 4] * multiplier;
        let x6 = arr[offset_from + 5] * multiplier;
        let x7 = arr[offset_from + 6] * multiplier;
        let x8 = arr[offset_from + 7] * multiplier;

        arr.set(offset_from, x1);
        arr.set(offset_from + 1, x2);
        arr.set(offset_from + 2, x3);
        arr.set(offset_from + 3, x4);
        arr.set(offset_from + 4, x5);
        arr.set(offset_from + 5, x6);
        arr.set(offset_from + 6, x7);
        arr.set(offset_from + 7, x8);

        offset_from = offset_from + 8;
    }
}

/// Adds `value` to each element in the provided mutable vector: the
/// leading `len % 8` elements one by one, then the rest in unrolled
/// strides of eight.
fn xany_fallback_add_impl<M: Math>(arr: &mut Vec<i64>, value: i64)
    requires
        bounded(old(arr)@),
        -MAX_MAG <= value <= MAX_MAG,
    ensures
        final(arr)@.len() == old(arr)@.len(),
        forall|i: int| 0 <= i < final(arr)@.len() ==> #[trigger] final(arr)@[i] as int == old(arr)@[i] + value,
{
    let len = arr.len();
    let mut offset_from: usize = len % 8;

    if offset_from != 0 {
        let mut i: usize = 0;
        while i < offset_from
            invariant
                i <= offset_from,
                offset_from <= len,
                len == arr@.len(),
            len == old(arr)@.len(),
                len == old(arr)@.len(),
                -MAX_MAG <= value <= MAX_MAG,
                forall|j: int| i as int <= j < len ==> #[trigger] arr@[j] == old(arr)@[j],
                bounded(old(arr)@),
                forall|j: int|
                    0 <= j < i as int ==> #[trigger] arr@[j] as int == old(arr)@[j] + value,
            decreases offset_from - i,
        {
            let updated = arr[i] + value;
            arr.set(i, updated);
            i = i + 1;
        }
    }

    while offset_from < len
        invariant
            offset_from <= len,
            (len - offset_from) % 8 == 0,
            len == arr@.len(),
            len == old(arr)@.len(),
            -MAX_MAG <= value <= MAX_MAG,
            forall|j: int| offset_from as int <= j < len ==> #[trigger] arr@[j] == old(arr)@[j],
            bounded(old(arr)@),
            forall|j: int|
                0 <= j < offset_from as int ==> #[trigger] arr@[j] as int == old(arr)@[j] + value,
        decreases len - offset_from,
    {
        let x1 = arr[offset_from] + value;
        let x2 = arr[offset_from + 1] + value;
        let x3 = arr[offset_from + 2] + value;
        let x4 = arr[offset_from + 3] + value;
        let x5 = arr[offset_from + 4] + value;
        let x6 = arr[offset_from + 5] + value;
        let x7 = arr[offset_from + 6] + value;
        let x8 = arr[offset_from + 7] + value;

        arr.set(offset_from, x1);
        arr.set(offset_from + 1, x2);
        arr.set(offset_from + 2, x3);
        arr.set(offset_from + 3, x4);
        arr.set(offset_from + 4, x5);
        arr.set(offset_from + 5, x6);
        arr.set(offset_from + 6, x7);
        arr.set(offset_from + 7, x8);

        offset_from = offset_from + 8;
    }
}

/// Subtracts `value` from each element in the provided mutable vector: the
/// leading `len % 8` elements one by one, then the rest in unrolled
/// strides of eight.
fn xany_fallback_sub_impl<M: Math>(arr: &mut Vec<i64>, value: i64)
    requires
        bounded(old(arr)@),
        -MAX_MAG <= value <= MAX_MAG,
    ensures
        final(arr)@.len() == old(arr)@.len(),
        forall|i: int| 0 <= i < final(arr)@.len() ==> #[trigger] final(arr)@[i] as int == old(arr)@[i] - value,
{
    let len = arr.len();
    let mut offset_from: usize = len % 8;

    if offset_from != 0 {
        let mut i: usize = 0;
        while i < offset_from
            invariant
                i <= offset_from,
                offset_from <= len,
                len == arr@.len(),
            len == old(arr)@.len(),
                len == old(arr)@.len(),
                -MAX_MAG <= value <= MAX_MAG,
                forall|j: int| i as int <= j < len ==> #[trigger] arr@[j] == old(arr)@[j],
                bounded(old(arr)@),
                forall|j: int|
                    0 <= j < i as int ==> #[trigger] arr@[j] as int == old(arr)@[j] - value,
            decreases offset_from - i,
        {
            let updated = arr[i] - value;
            arr.set(i, updated);
            i = i + 1;
        }
    }

    while offset_from < len
        invariant
            offset_from <= len,
            (len - offset_from) % 8 == 0,
            len == arr@.len(),
            len == old(arr)@.len(),
            -MAX_MAG <= value <= MAX_MAG,
            forall|j: int| offset_from as int <= j < len ==> #[trigger] arr@[j] == old(arr)@[j],
            bounded(old(arr)@),
            forall|j: int|
                0 <= j < offset_from as int ==> #[trigger] arr@[j] as int == old(arr)@[j] - value,
        decreases len - offset_from,
    {
        let x1 = arr[offset_from] - value;
        let x2 = arr[offset_from + 1] - value;
        let x3 = arr[offset_from + 2] - value;
        let x4 = arr[offset_from + 3] - value;
        let x5 = arr[offset_from + 4] - value;
        let x6 = arr[offset_from + 5] - value;
        let x7 = arr[offset_from + 6] - value;
        let x8 = arr[offset_from + 7] - value;

        arr.set(offset_from, x1);
        arr.set(offset_from + 1, x2);
        arr.set(offset_from + 2, x3);
        arr.set(offset_from + 3, x4);
        arr.set(offset_from + 4, x5);
        arr.set(offset_from + 5, x6);
        arr.set(offset_from + 6, x7);
        arr.set(offset_from + 7, x8);

        offset_from = offset_from + 8;
    }
}

/// Divides each element in the provided mutable vector by `divider`, with
/// the Euclidean quotient: over the exact carrier a division is a
/// division, not a multiplication by a rounded reciprocal.
fn xany_fallback_div_impl<M: Math>(arr: &mut Vec<i64>, divider: i64)
    requires
        bounded(old(arr)@),
        divider != 0,
        -MAX_MAG <= divider <= MAX_MAG,
    ensures
        final(arr)@.len() == old(arr)@.len(),
        forall|i: int|
            0 <= i < final(arr)@.len() ==> #[trigger] final(arr)@[i] as int == old(arr)@[i] as int
                / divider as int,
{
    let len = arr.len();
    let mut i: usize = 0;
    while i < len
        invariant
            i <= len,
            len == arr@.len(),
            len == old(arr)@.len(),
            divider != 0,
            -MAX_MAG <= divider <= MAX_MAG,
            forall|j: int| i as int <= j < len ==> #[trigger] arr@[j] == old(arr)@[j],
            bounded(old(arr)@),
            forall|j: int|
                0 <= j < i as int ==> #[trigger] arr@[j] as int == old(arr)@[j] as int
                    / divider as int,
        decreases len - i,
    {
        proof {
            let v = arr@[i as int] as int;
            let d = divider as int;
            assert(-MAX_MAG - 1 <= v / d <= MAX_MAG as int + 1) by (nonlinear_arith)
                requires
                    -MAX_MAG <= v <= MAX_MAG,
                    d != 0,
            ;
        }
        let updated = arr[i].checked_div_euclid(divider).unwrap();
        arr.set(i, updated);
        i = i + 1;
    }
}

/// Multiplies each element of the vector by `multiplier`, with standard
/// sequential arithmetic.
pub fn xany_fallback_nofma_mul_value(arr: &mut Vec<i64>, multiplier: i64)
    requires
        bounded(old(arr)@),
        -MAX_MAG <= multiplier <= MAX_MAG,
    ensures
        final(arr)@.len() == old(arr)@.len(),
        forall|i: int|
            0 <= i < final(arr)@.len() ==> #[trigger] final(arr)@[i] as int == old(arr)@[i] * multiplier,
{
    xany_fallback_mul_impl::<StdMath>(arr, multiplier)
}

/// Multiplies each element of the vector by `multiplier`, with fused
/// arithmetic.
pub fn xany_fallback_fma_mul_value(arr: &mut Vec<i64>, multiplier: i64)
    requires
        bounded(old(arr)@),
        -MAX_MAG <= multiplier <= MAX_MAG,
    ensures
        final(arr)@.len() == old(arr)@.len(),
        forall|i: int|
            0 <= i < final(arr)@.len() ==> #[trigger] final(arr)@[i] as int == old(arr)@[i] * multiplier,
{
    xany_fallback_mul_impl::<FastMath>(arr, multiplier)
}

/// Adds `value` to each element of the vector, with standard sequential
/// arithmetic.
pub fn xany_fallback_nofma_add_value(arr: &mut Vec<i64>, value: i64)
    requires
        bounded(old(arr)@),
        -MAX_MAG <= value <= MAX_MAG,
    ensures
        final(arr)@.len() == old(arr)@.len(),
        forall|i: int| 0 <= i < final(arr)@.len() ==> #[trigger] final(arr)@[i] as int == old(arr)@[i] + value,
{
    xany_fallback_add_impl::<StdMath>(arr, value)
}

/// Adds `value` to each element of the vector, with fused arithmetic.
pub fn xany_fallback_fma_add_value(arr: &mut Vec<i64>, value: i64)
    requires
        bounded(old(arr)@),
        -MAX_MAG <= value <= MAX_MAG,
    ensures
        final(arr)@.len() == old(arr)@.len(),
        forall|i: int| 0 <= i < final(arr)@.len() ==> #[trigger] final(arr)@[i] as int == old(arr)@[i] + value,
{
    xany_fallback_add_impl::<FastMath>(arr, value)
}

/// Subtracts `value` from each element of the vector, with standard
/// sequential arithmetic.
pub fn xany_fallback_nofma_sub_value(arr: &mut Vec<i64>, value: i64)
    requires
        bounded(old(arr)@),
        -MAX_MAG <= value <= MAX_MAG,
    ensures
        final(arr)@.len() == old(arr)@.len(),
        forall|i: int| 0 <= i < final(arr)@.len() ==> #[trigger] final(arr)@[i] as int == old(arr)@[i] - value,
{
    xany_fallback_sub_impl::<StdMath>(arr, value)
}

/// Subtracts `value` from each element of the vector, with fused
/// arithmetic.
pub fn xany_fallback_fma_sub_value(arr: &mut Vec<i64>, value: i64)
    requires
        bounded(old(arr)@),
        -MAX_MAG <= value <= MAX_MAG,
    ensures
        final(arr)@.len() == old(arr)@.len(),
        forall|i: int| 0 <= i < final(arr)@.len() ==> #[trigger] final(arr)@[i] as int == old(arr)@[i] - value,
{
    xany_fallback_sub_impl::<FastMath>(arr, value)
}

/// Divides each element of the vector by `divider`, with standard
/// sequential arithmetic.
pub fn xany_fallback_nofma_div_value(arr: &mut Vec<i64>, divider: i64)
    requires
        bounded(old(arr)@),
        divider != 0,
        -MAX_MAG <= divider <= MAX_MAG,
    ensures
        final(arr)@.len() == old(arr)@.len(),
        forall|i: int|
            0 <= i < final(arr)@.len() ==> #[trigger] final(arr)@[i] as int == old(arr)@[i] as int
                / divider as int,
{
    xany_fallback_div_impl::<StdMath>(arr, divider)
}

/// Divides each element of the vector by `divider`, with fused arithmetic.
pub fn xany_fallback_fma_div_value(arr: &mut Vec<i64>, divider: i64)
    requires
        bounded(old(arr)@),
        divider != 0,
        -MAX_MAG <= divider <= MAX_MAG,
    ensures
        final(arr)@.len() == old(arr)@.len(),
        forall|i: int|
            0 <= i < final(arr)@.len() ==> #[trigger] final(arr)@[i] as int == old(arr)@[i] as int
                / divider as int,
{
    xany_fallback_div_impl::<FastMath>(arr, divider)
}

/// Scaling by a nonzero factor and then dividing by it restores every
/// element exactly: the per-element statement behind the in-place
/// transforms' round trip.
pub proof fn lemma_scale_then_divide_restores(v: int, k: int)
    requires
        k != 0,
    ensures
        (v * k) / k == v,
{
    assert((v * k) / k == v) by (nonlinear_arith)
        requires
            k != 0,
    ;
}

} // verus!
