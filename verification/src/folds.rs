use vstd::prelude::*;

verus! {

/// Largest element magnitude the arithmetic kernels accept. Together with
/// `MAX_DIM` it keeps every partial accumulator well inside the carrier's
/// range, so the kernels compute the stated mathematical value exactly.
pub const MAX_MAG: i64 = 262144;

/// Largest vector length the arithmetic kernels accept.
pub const MAX_DIM: usize = 1048576;

/// The square of `MAX_MAG`, written as a literal so that every bound stays
/// within linear arithmetic; `lemma_mag2` ties it to the definition.
#[verifier::inline]
pub open spec fn mag2() -> int {
    68719476736
}

/// `mag2` is the square of the element bound.
pub proof fn lemma_mag2()
    ensures
        mag2() == MAX_MAG as int * MAX_MAG as int,
{
    assert(MAX_MAG as int * MAX_MAG as int == 68719476736int);
}

/// Every element of `s` has magnitude at most `MAX_MAG`.
pub open spec fn bounded(s: Seq<i64>) -> bool {
    forall|i: int| 0 <= i < s.len() ==> -MAX_MAG <= #[trigger] s[i] <= MAX_MAG
}

/// Inner product of `x[a..b]` and `y[a..b]`.
pub open spec fn dot_range(x: Seq<i64>, y: Seq<i64>, a: int, b: int) -> int
    decreases b - a,
{
    if b <= a {
        0
    } else {
        dot_range(x, y, a, b - 1) + x[b - 1] * y[b - 1]
    }
}

/// The inner product of two equal-length vectors.
pub open spec fn spec_dot(x: Seq<i64>, y: Seq<i64>) -> int {
    dot_range(x, y, 0, x.len() as int)
}

/// Sum of squared differences over `x[a..b]` and `y[a..b]`.
pub open spec fn sq_euclid_range(x: Seq<i64>, y: Seq<i64>, a: int, b: int) -> int
    decreases b - a,
{
    if b <= a {
        0
    } else {
        sq_euclid_range(x, y, a, b - 1) + (x[b - 1] - y[b - 1]) * (x[b - 1] - y[b - 1])
    }
}

/// The squared Euclidean distance of two equal-length vectors.
pub open spec fn spec_sq_euclid(x: Seq<i64>, y: Seq<i64>) -> int {
    sq_euclid_range(x, y, 0, x.len() as int)
}

/// The smaller of two integers.
pub open spec fn min2(a: int, b: int) -> int {
    if a <= b {
        a
    } else {
        b
    }
}

/// Minimum of `s[a..b]`, starting from the carrier's greatest value (the
/// exact model of the floating-point positive-infinity identity).
pub open spec fn min_range(s: Seq<i64>, a: int, b: int) -> int
    decreases b - a,
{
    if b <= a {
        i64::MAX as int
    } else {
        min2(min_range(s, a, b - 1), s[b - 1] as int)
    }
}

/// The minimum of a vector (the identity element if it is empty).
pub open spec fn spec_min(s: Seq<i64>) -> int {
    min_range(s, 0, s.len() as int)
}

/// Splitting an inner-product range at any midpoint splits its value.
pub proof fn lemma_dot_range_split(x: Seq<i64>, y: Seq<i64>, a: int, m: int, b: int)
    requires
        a <= m <= b,
    ensures
        dot_range(x, y, a, b) == dot_range(x, y, a, m) + dot_range(x, y, m, b),
    decreases b - m,
{
    if m < b {
        lemma_dot_range_split(x, y, a, m, b - 1);
    }
}

/// Splitting a squared-distance range at any midpoint splits its value.
pub proof fn lemma_sq_euclid_range_split(x: Seq<i64>, y: Seq<i64>, a: int, m: int, b: int)
    requires
        a <= m <= b,
    ensures
        sq_euclid_range(x, y, a, b) == sq_euclid_range(x, y, a, m) + sq_euclid_range(x, y, m, b),
    decreases b - m,
{
    if m < b {
        lemma_sq_euclid_range_split(x, y, a, m, b - 1);
    }
}

/// A product of two bounded factors is bounded by the product of the bounds.
pub proof fn lemma_mul_bound(a: int, b: int, cap: int)
    requires
        -cap <= a <= cap,
        -cap <= b <= cap,
        0 <= cap,
    ensures
        -cap * cap <= a * b <= cap * cap,
{
    assert(-cap * cap <= a * b <= cap * cap) by (nonlinear_arith)
        requires
            -cap <= a <= cap,
            -cap <= b <= cap,
            0 <= cap,
    ;
}

/// One product of two admitted elements never exceeds the squared bound.
pub proof fn lemma_term_bound(a: int, b: int)
    requires
        -MAX_MAG <= a <= MAX_MAG,
        -MAX_MAG <= b <= MAX_MAG,
    ensures
        -mag2() <= a * b <= mag2(),
{
    lemma_mul_bound(a, b, MAX_MAG as int);
    lemma_mag2();
}

/// One squared difference of two admitted elements is nonnegative and never
/// exceeds four times the squared bound.
pub proof fn lemma_sq_term_bound(a: int, b: int)
    requires
        -MAX_MAG <= a <= MAX_MAG,
        -MAX_MAG <= b <= MAX_MAG,
    ensures
        0 <= (a - b) * (a - b) <= 4 * mag2(),
{
    let cap = MAX_MAG as int;
    lemma_mul_bound(a - b, a - b, 2 * cap);
    assert(0 <= (a - b) * (a - b)) by (nonlinear_arith);
    assert(2 * cap * (2 * cap) == 4 * (cap * cap)) by (nonlinear_arith);
    lemma_mag2();
}

/// An inner product over bounded vectors grows by at most the squared bound
/// per element.
pub proof fn lemma_dot_range_bound(x: Seq<i64>, y: Seq<i64>, a: int, b: int)
    requires
        a <= b,
        0 <= a,
        b <= x.len(),
        b <= y.len(),
        bounded(x),
        bounded(y),
    ensures
        -(b - a) * mag2() <= dot_range(x, y, a, b) <= (b - a) * mag2(),
    decreases b - a,
{
    if a < b {
        lemma_dot_range_bound(x, y, a, b - 1);
        lemma_term_bound(x[b - 1] as int, y[b - 1] as int);
    }
}

/// A squared distance over bounded vectors grows by at most four times the
/// squared bound per element, and never falls below zero.
pub proof fn lemma_sq_euclid_range_bound(x: Seq<i64>, y: Seq<i64>, a: int, b: int)
    requires
        a <= b,
        0 <= a,
        b <= x.len(),
        b <= y.len(),
        bounded(x),
        bounded(y),
    ensures
        0 <= sq_euclid_range(x, y, a, b) <= (b - a) * (4 * mag2()),
    decreases b - a,
{
    if a < b {
        lemma_sq_euclid_range_bound(x, y, a, b - 1);
        lemma_sq_term_bound(x[b - 1] as int, y[b - 1] as int);
    }
}

/// An inner product over a carved-out subrange equals the inner product
/// over the same positions of the full vectors.
pub proof fn lemma_dot_range_subrange(x: Seq<i64>, y: Seq<i64>, a: int, b: int, m: int)
    requires
        0 <= a <= m <= b,
        b <= x.len(),
        b <= y.len(),
    ensures
        dot_range(x.subrange(a, b), y.subrange(a, b), 0, m - a) == dot_range(x, y, a, m),
    decreases m - a,
{
    if a < m {
        lemma_dot_range_subrange(x, y, a, b, m - 1);
    }
}

/// A squared distance over a carved-out subrange equals the squared
/// distance over the same positions of the full vectors.
pub proof fn lemma_sq_euclid_range_subrange(x: Seq<i64>, y: Seq<i64>, a: int, b: int, m: int)
    requires
        0 <= a <= m <= b,
        b <= x.len(),
        b <= y.len(),
    ensures
        sq_euclid_range(x.subrange(a, b), y.subrange(a, b), 0, m - a) == sq_euclid_range(
            x,
            y,
            a,
            m,
        ),
    decreases m - a,
{
    if a < m {
        lemma_sq_euclid_range_subrange(x, y, a, b, m - 1);
    }
}

/// A subrange of a bounded vector is bounded.
pub proof fn lemma_bounded_subrange(s: Seq<i64>, a: int, b: int)
    requires
        0 <= a <= b <= s.len(),
        bounded(s),
    ensures
        bounded(s.subrange(a, b)),
{
    assert forall|i: int| 0 <= i < s.subrange(a, b).len() implies -MAX_MAG <= #[trigger] s.subrange(
        a,
        b,
    )[i] <= MAX_MAG by {
        assert(s.subrange(a, b)[i] == s[a + i]);
    }
}

/// Every element of `s` is zero.
pub open spec fn is_zero_vec(s: Seq<i64>) -> bool {
    forall|i: int| 0 <= i < s.len() ==> #[trigger] s[i] == 0
}

/// A vector's inner product with itself is a sum of squares, so it never
/// falls below zero.
pub proof fn lemma_dot_range_self_nonneg(x: Seq<i64>, a: int, b: int)
    requires
        0 <= a <= b,
        b <= x.len(),
    ensures
        0 <= dot_range(x, x, a, b),
    decreases b - a,
{
    if a < b {
        lemma_dot_range_self_nonneg(x, a, b - 1);
        assert(0 <= x[b - 1] * x[b - 1]) by (nonlinear_arith);
    }
}

/// An inner product whose left vector is all zeroes is zero.
pub proof fn lemma_dot_range_zero_left(x: Seq<i64>, y: Seq<i64>, a: int, b: int)
    requires
        0 <= a <= b,
        b <= x.len(),
        b <= y.len(),
        is_zero_vec(x),
    ensures
        dot_range(x, y, a, b) == 0,
    decreases b - a,
{
    if a < b {
        lemma_dot_range_zero_left(x, y, a, b - 1);
    }
}

/// A vector with a nonzero element has a self inner product of at least
/// one.
pub proof fn lemma_dot_range_self_positive(x: Seq<i64>, j: int)
    requires
        0 <= j < x.len(),
        x[j] != 0,
    ensures
        1 <= dot_range(x, x, 0, x.len() as int),
{
    let n = x.len() as int;
    lemma_dot_range_split(x, x, 0, j, n);
    lemma_dot_range_split(x, x, j, j + 1, n);
    lemma_dot_range_self_nonneg(x, 0, j);
    lemma_dot_range_self_nonneg(x, j + 1, n);
    assert(dot_range(x, x, j, j) == 0);
    assert(dot_range(x, x, j, j + 1) == dot_range(x, x, j, j) + x[j] * x[j]);
    assert(1 <= x[j] * x[j]) by (nonlinear_arith)
        requires
            x[j] != 0,
    ;
}

/// The minimum over a split range is the smaller of the two parts' minima.
pub proof fn lemma_min_range_split(s: Seq<i64>, a: int, m: int, b: int)
    requires
        a <= m <= b,
    ensures
        min_range(s, a, b) == min2(min_range(s, a, m), min_range(s, m, b)),
    decreases b - m,
{
    if m < b {
        lemma_min_range_split(s, a, m, b - 1);
    }
}

/// The range minimum is no larger than any element of the range, and is
/// either the identity or one of the elements.
pub proof fn lemma_min_range_members(s: Seq<i64>, a: int, b: int)
    requires
        0 <= a <= b,
        b <= s.len(),
    ensures
        forall|i: int| a <= i < b ==> min_range(s, a, b) <= #[trigger] s[i],
        min_range(s, a, b) == i64::MAX as int || exists|i: int|
            a <= i < b && min_range(s, a, b) == #[trigger] s[i],
        i64::MIN as int <= min_range(s, a, b) <= i64::MAX as int,
    decreases b - a,
{
    if a < b {
        lemma_min_range_members(s, a, b - 1);
    }
}

} // verus!
