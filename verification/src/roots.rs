use vstd::prelude::*;

verus! {

/// The integer square root, defined by counting up: the largest `r` with
/// `r * r <= n`.
pub open spec fn spec_isqrt(n: nat) -> nat
    decreases n,
{
    if n == 0 {
        0
    } else {
        let r = spec_isqrt((n - 1) as nat);
        if (r + 1) * (r + 1) <= n {
            r + 1
        } else {
            r
        }
    }
}

/// The defining bracket of the integer square root.
pub proof fn lemma_isqrt_bounds(n: nat)
    ensures
        spec_isqrt(n) * spec_isqrt(n) <= n,
        n < (spec_isqrt(n) + 1) * (spec_isqrt(n) + 1),
    decreases n,
{
    let s = spec_isqrt(n);
    if n > 0 {
        lemma_isqrt_bounds((n - 1) as nat);
        let r = spec_isqrt((n - 1) as nat);
        assert(s == if (r + 1) * (r + 1) <= n {
            r + 1
        } else {
            r
        });
        if (r + 1) * (r + 1) <= n {
            assert(n < (s + 1) * (s + 1)) by (nonlinear_arith)
                requires
                    s == r + 1,
                    n <= (r + 1) * (r + 1) + 1,
                    0 <= r,
            ;
        } else {
            assert(n < (s + 1) * (s + 1)) by (nonlinear_arith)
                requires
                    s == r,
                    n < (r + 1) * (r + 1),
            ;
        }
    } else {
        assert(s == 0);
        assert(n < (s + 1) * (s + 1)) by (nonlinear_arith)
            requires
                s == 0,
                n == 0,
        ;
    }
}

/// Any value satisfying the bracket is the integer square root.
pub proof fn lemma_isqrt_unique(n: nat, r: nat)
    requires
        r * r <= n,
        n < (r + 1) * (r + 1),
    ensures
        r == spec_isqrt(n),
{
    let s = spec_isqrt(n);
    lemma_isqrt_bounds(n);
    if r < s {
        assert((r + 1) * (r + 1) <= s * s) by (nonlinear_arith)
            requires
                r + 1 <= s,
                0 <= r,
        ;
    }
    if s < r {
        assert((s + 1) * (s + 1) <= r * r) by (nonlinear_arith)
            requires
                s + 1 <= r,
                0 <= s,
        ;
    }
}

/// Largest argument the executable square root accepts: any product of two
/// norms the kernels can produce stays under it.
pub open spec fn isqrt_arg_cap() -> int {
    83076749736557242056487941267521536
}

/// Computes the integer square root by bisection: the bracket `lo * lo <= n
/// < (hi + 1) * (hi + 1)` narrows until it pins the root.
pub fn isqrt_u128(n: u128) -> (r: u128)
    requires
        n < isqrt_arg_cap(),
    ensures
        r as nat == spec_isqrt(n as nat),
        r * r <= n,
        n < (r + 1) * (r + 1),
        r < 288230376151711744,
{
    let mut lo: u128 = 0;
    let mut hi: u128 = 288230376151711743;

    proof {
        assert((288230376151711743int + 1) * (288230376151711743int + 1) > n) by (nonlinear_arith)
            requires
                n < 83076749736557242056487941267521536int,
        ;
    }
    while lo < hi
        invariant
            lo <= hi,
            hi <= 288230376151711743,
            lo * lo <= n,
            n < (hi + 1) * (hi + 1),
        decreases hi - lo,
    {
        let mid: u128 = lo + (hi - lo + 1) / 2;
        proof {
            assert(mid * mid <= 288230376151711743int * 288230376151711743int)
                by (nonlinear_arith)
                requires
                    0 <= mid <= 288230376151711743int,
            ;
        }
        if mid * mid <= n {
            lo = mid;
        } else {
            hi = mid - 1;
        }
    }

    proof {
        lemma_isqrt_unique(n as nat, lo as nat);
    }
    lo
}

} // verus!
