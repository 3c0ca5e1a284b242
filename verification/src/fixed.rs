use vstd::prelude::*;
use vstd::arithmetic::div_mod::{lemma_fundamental_div_mod, lemma_mod_division_less_than_divisor};

verus! {

/// Extra precision factor applied to squared norms before the square root is
/// taken, so that normalization keeps about twenty extra bits of direction.
pub const NORM_PREC: i64 = 1_048_576;

/// `NORM_PREC * NORM_PREC`.
pub const NORM_PREC_SQ: i128 = 1_099_511_627_776;

/// `SCALE * NORM_PREC`.
pub const SCALE_PREC: i128 = 1_048_576_000_000;

/// The greatest `r` with `r * r <= n`.
pub open spec fn floor_sqrt(n: nat) -> nat
    decreases n,
{
    if n == 0 {
        0
    } else {
        let r = floor_sqrt((n - 1) as nat);
        if (r + 1) * (r + 1) <= n {
            r + 1
        } else {
            r
        }
    }
}

/// `floor_sqrt(n)` really brackets `n` between two adjacent squares.
pub proof fn lemma_floor_sqrt_bracket(n: nat)
    ensures
        floor_sqrt(n) * floor_sqrt(n) <= n,
        n < (floor_sqrt(n) + 1) * (floor_sqrt(n) + 1),
    decreases n,
{
    if n == 0 {
        assert(floor_sqrt(0) == 0);
        assert((0nat + 1) * (0nat + 1) == 1) by (nonlinear_arith);
    } else {
        let m = (n - 1) as nat;
        let p = floor_sqrt(m);
        lemma_floor_sqrt_bracket(m);
        if (p + 1) * (p + 1) <= n {
            assert(floor_sqrt(n) == p + 1);
            assert(n <= (p + 1) * (p + 1));
            assert((p + 1) * (p + 1) < (p + 2) * (p + 2)) by (nonlinear_arith);
            assert(n < (p + 2) * (p + 2));
        } else {
            assert(floor_sqrt(n) == p);
            assert(p * p <= m);
            assert(n < (p + 1) * (p + 1));
        }
    }
}

/// Any `r` bracketed between the same adjacent squares is `floor_sqrt(n)`.
pub proof fn lemma_floor_sqrt_unique(n: nat, r: nat)
    requires
        r * r <= n,
        n < (r + 1) * (r + 1),
    ensures
        r == floor_sqrt(n),
{
    lemma_floor_sqrt_bracket(n);
    let f = floor_sqrt(n);
    if r < f {
        assert((r + 1) * (r + 1) <= f * f) by (nonlinear_arith)
            requires r + 1 <= f;
    }
    if f < r {
        assert((f + 1) * (f + 1) <= r * r) by (nonlinear_arith)
            requires f + 1 <= r;
    }
}

/// Floor of the square root, by bisection.
pub fn isqrt(n: u128) -> (r: u128)
    requires
        n <= 10_000_000_000_000_000_000_000_000_000_000,
    ensures
        r == floor_sqrt(n as nat),
        r * r <= n < (r + 1) * (r + 1),
{
    if n == 0 {
        proof {
            assert((0nat + 1) * (0nat + 1) == 1) by (nonlinear_arith);
            lemma_floor_sqrt_unique(0nat, 0nat);
        }
        return 0;
    }
    let mut lo: u128 = 0;
    let mut hi: u128 = 3_170_000_000_000_000;
    proof {
        assert(n < 3_170_000_000_000_000u128 * 3_170_000_000_000_000u128);
    }
    while lo + 1 < hi
        invariant
            lo < hi <= 3_170_000_000_000_000,
            lo * lo <= n,
            n < hi * hi,
        decreases hi - lo,
    {
        let mid = lo + (hi - lo) / 2;
        assert(lo < mid < hi);
        assert(mid * mid <= 3_170_000_000_000_000 * 3_170_000_000_000_000) by (nonlinear_arith)
            requires mid <= 3_170_000_000_000_000u128;
        if mid * mid <= n {
            lo = mid;
        } else {
            hi = mid;
        }
    }
    proof { lemma_floor_sqrt_unique(n as nat, lo as nat) }
    lo
}

/// The Euclidean quotient and remainder of `a` by positive `b` bracket `a`.
pub proof fn lemma_div_bracket(a: int, b: int)
    requires
        b >= 1,
    ensures
        b * (a / b) <= a < b * (a / b) + b,
        a >= 0 ==> 0 <= a / b <= a,
        a < 0 ==> a <= a / b <= 0,
{
    lemma_fundamental_div_mod(a, b);
    lemma_mod_division_less_than_divisor(a, b);
    let q = a / b;
    let r = a % b;
    if a >= 0 {
        assert(0 <= q <= a) by (nonlinear_arith)
            requires a == b * q + r, 0 <= r < b, 1 <= b, a >= 0;
    } else {
        assert(a <= q <= 0) by (nonlinear_arith)
            requires a == b * q + r, 0 <= r < b, 1 <= b, a < 0;
    }
}

/// Euclidean (floor, for positive divisors) division on wide integers.
pub fn div_floor(a: i128, b: i128) -> (q: i128)
    requires
        1 <= b,
    ensures
        q == a as int / b as int,
{
    proof { lemma_div_bracket(a as int, b as int) }
    let r = a.checked_div_euclid(b);
    r.unwrap()
}

/// Euclidean division on the narrow fixed-point representation.
pub fn div_floor_i64(a: i64, b: i64) -> (q: i64)
    requires
        1 <= b,
    ensures
        q == a as int / b as int,
{
    proof { lemma_div_bracket(a as int, b as int) }
    let r = a.checked_div_euclid(b);
    r.unwrap()
}

} // verus!
