use vstd::prelude::*;
use vstd::arithmetic::div_mod::{lemma_fundamental_div_mod, lemma_mod_division_less_than_divisor};
use crate::SCALE;
use crate::fixed::{div_floor_i64, lemma_div_bracket};

verus! {

/// Angles are kept in tenths of a degree, so a full turn is 3600 counts.
pub const FULL_TURN: i64 = 3600;

/// A quarter turn in tenths of a degree.
pub const QUARTER_TURN: i64 = 900;

/// Rational approximation of the sine over the first half turn
/// (`x` in tenths of a degree, `0 <= x <= 1800`), at fixed-point scale.
/// It is exact at 0, 900 and 1800, and within 0.2% of the scale elsewhere.
pub open spec fn sin_half_turn(x: int) -> int {
    let u = x * (1800 - x);
    (4 * u * (SCALE as int)) / (4_050_000 - u)
}

/// Sine of a reduced angle (`0 <= r < 3600`), by odd symmetry of the half turns.
pub open spec fn sin_reduced(r: int) -> int {
    if r < 1800 {
        sin_half_turn(r)
    } else {
        -sin_half_turn(r - 1800)
    }
}

/// Sine of an angle in tenths of a degree, at fixed-point scale.
pub open spec fn sin_deg(a: int) -> int {
    sin_reduced(a % 3600)
}

/// Cosine of an angle in tenths of a degree, at fixed-point scale.
pub open spec fn cos_deg(a: int) -> int {
    sin_deg(a + 900)
}

/// The product `x * (1800 - x)` stays within `[0, 810_000]` on the half turn.
proof fn lemma_arch_range(x: int)
    requires
        0 <= x <= 1800,
    ensures
        0 <= x * (1800 - x) <= 810_000,
{
    assert(0 <= x * (1800 - x) <= 810_000) by (nonlinear_arith)
        requires 0 <= x <= 1800;
}

/// The half-turn sine stays within `[0, SCALE]`.
pub proof fn lemma_sin_half_range(x: int)
    requires
        0 <= x <= 1800,
    ensures
        0 <= sin_half_turn(x) <= SCALE,
{
    let u = x * (1800 - x);
    let num = 4 * u * (SCALE as int);
    let den = 4_050_000 - u;
    lemma_arch_range(x);
    assert(0 <= num) by (nonlinear_arith)
        requires 0 <= u, num == 4 * u * 1_000_000;
    lemma_div_bracket(num, den);
    let q = num / den;
    assert(num <= 1_000_000 * den) by (nonlinear_arith)
        requires u <= 810_000, num == 4 * u * 1_000_000, den == 4_050_000 - u;
    assert(q <= 1_000_000) by (nonlinear_arith)
        requires den * q <= num, num <= 1_000_000 * den, den >= 1;
}

/// The reduced sine stays within `[-SCALE, SCALE]`.
pub proof fn lemma_sin_reduced_range(r: int)
    requires
        0 <= r < 3600,
    ensures
        -SCALE <= sin_reduced(r) <= SCALE,
{
    if r < 1800 {
        lemma_sin_half_range(r);
    } else {
        lemma_sin_half_range(r - 1800);
    }
}

/// The sine of any angle stays within `[-SCALE, SCALE]`.
pub proof fn lemma_sin_deg_range(a: int)
    ensures
        -SCALE <= sin_deg(a) <= SCALE,
{
    lemma_mod_division_less_than_divisor(a, 3600);
    lemma_sin_reduced_range(a % 3600);
}

/// The cosine of any angle stays within `[-SCALE, SCALE]`.
pub proof fn lemma_cos_deg_range(a: int)
    ensures
        -SCALE <= cos_deg(a) <= SCALE,
{
    lemma_sin_deg_range(a + 900);
}

/// On the middle of the half turn the sine is at least 0.7 of the scale.
proof fn lemma_sin_half_lower(x: int)
    requires
        450 <= x <= 1350,
    ensures
        sin_half_turn(x) >= 700_000,
{
    let u = x * (1800 - x);
    let num = 4 * u * (SCALE as int);
    let den = 4_050_000 - u;
    assert(607_500 <= u <= 810_000) by (nonlinear_arith)
        requires 450 <= x <= 1350, u == x * (1800 - x);
    lemma_div_bracket(num, den);
    let q = num / den;
    assert(num >= 700_000 * den) by (nonlinear_arith)
        requires u >= 607_500, num == 4 * u * 1_000_000, den == 4_050_000 - u;
    assert(q >= 700_000) by (nonlinear_arith)
        requires den * q + den > num, num >= 700_000 * den, den >= 1;
}

/// A sine that is at least 17 thousandths of the scale, away from the poles:
/// the cosine of any pitch that stays a degree short of a quarter turn.
pub proof fn lemma_cos_pitch_lower(p: int)
    requires
        -890 <= p <= 890,
    ensures
        17_000 <= cos_deg(p) <= SCALE,
{
    let x = p + 900;
    assert(x == 3600 * 0 + x) by (nonlinear_arith);
    lemma_fundamental_div_mod_converse(x, 3600, 0, x);
    assert(x % 3600 == x);
    let u = x * (1800 - x);
    let num = 4 * u * (SCALE as int);
    let den = 4_050_000 - u;
    assert(17_900 <= u <= 810_000) by (nonlinear_arith)
        requires 10 <= x <= 1790, u == x * (1800 - x);
    lemma_div_bracket(num, den);
    let q = num / den;
    assert(num >= 17_000 * den) by (nonlinear_arith)
        requires u >= 17_900, num == 4 * u * 1_000_000, den == 4_050_000 - u;
    assert(q >= 17_000) by (nonlinear_arith)
        requires den * q + den > num, num >= 17_000 * den, den >= 1;
    lemma_sin_half_range(x);
}

/// Whatever the angle, the sine or the cosine is at least 0.7 of the scale
/// in magnitude: the heading never loses both horizontal axes at once.
pub proof fn lemma_axis_lower(a: int)
    ensures
        sin_deg(a) >= 700_000 || sin_deg(a) <= -700_000 || cos_deg(a) >= 700_000 || cos_deg(a)
            <= -700_000,
{
    let r = a % 3600;
    lemma_mod_division_less_than_divisor(a, 3600);
    lemma_shift_quarter(a);
    let rc = (a + 900) % 3600;
    if 450 <= r <= 1350 {
        lemma_sin_half_lower(r);
    } else if 2250 <= r <= 3150 {
        lemma_sin_half_lower(r - 1800);
    } else if r < 450 {
        // rc == r + 900, in the middle of the first half turn
        lemma_sin_half_lower(rc);
    } else if r < 2250 {
        // 1350 < r < 2250: rc == r + 900 or r - 2700, in the second half turn
        lemma_sin_half_lower(rc - 1800);
    } else {
        // 3150 < r < 3600: rc == r - 2700, in the first half turn
        lemma_sin_half_lower(rc);
    }
}

/// Reducing the angle commutes with moving a quarter turn ahead.
proof fn lemma_shift_quarter(a: int)
    ensures
        (a + 900) % 3600 == if a % 3600 + 900 < 3600 {
            a % 3600 + 900
        } else {
            a % 3600 + 900 - 3600
        },
{
    let r = a % 3600;
    lemma_mod_division_less_than_divisor(a, 3600);
    lemma_fundamental_div_mod(a, 3600);
    let q = a / 3600;
    if r + 900 < 3600 {
        assert(a + 900 == 3600 * q + (r + 900));
        lemma_fundamental_div_mod_converse(a + 900, 3600, q, r + 900);
    } else {
        assert(a + 900 == 3600 * (q + 1) + (r + 900 - 3600)) by (nonlinear_arith)
            requires a == 3600 * q + r;
        lemma_fundamental_div_mod_converse(a + 900, 3600, q + 1, r + 900 - 3600);
    }
}

/// A division bracket pins down the Euclidean quotient and remainder.
pub(crate) proof fn lemma_fundamental_div_mod_converse(x: int, d: int, q: int, r: int)
    requires
        d >= 1,
        0 <= r < d,
        x == d * q + r,
    ensures
        x % d == r,
        x / d == q,
{
    lemma_fundamental_div_mod(x, d);
    lemma_mod_division_less_than_divisor(x, d);
    let q2 = x / d;
    let r2 = x % d;
    assert(q == q2 && r == r2) by (nonlinear_arith)
        requires
            x == d * q + r,
            x == d * q2 + r2,
            0 <= r < d,
            0 <= r2 < d,
            d >= 1;
}

/// Reduces an angle to `[0, 3600)` tenths of a degree.
fn reduce(a: i64) -> (r: i64)
    ensures
        r == a as int % 3600,
        0 <= r < 3600,
{
    proof {
        lemma_mod_division_less_than_divisor(a as int, 3600);
    }
    a.checked_rem_euclid(FULL_TURN).unwrap()
}

/// Sine of a reduced angle.
fn sin_reduced_fx(r: i64) -> (s: i64)
    requires
        0 <= r < 3600,
    ensures
        s == sin_reduced(r as int),
        -SCALE <= s <= SCALE,
{
    proof {
        lemma_sin_reduced_range(r as int);
    }
    let x: i64 = if r < 1800 { r } else { r - 1800 };
    proof {
        lemma_arch_range(x as int);
        lemma_sin_half_range(x as int);
    }
    let u: i64 = x * (1800 - x);
    let num: i64 = 4 * u * SCALE;
    let den: i64 = 4_050_000 - u;
    let s0 = div_floor_i64(num, den);
    if r < 1800 {
        s0
    } else {
        -s0
    }
}

/// Sine of an angle in tenths of a degree, at fixed-point scale.
pub fn sin_fx(a: i64) -> (s: i64)
    ensures
        s == sin_deg(a as int),
        -SCALE <= s <= SCALE,
{
    let r = reduce(a);
    sin_reduced_fx(r)
}

/// Cosine of an angle in tenths of a degree, at fixed-point scale.
pub fn cos_fx(a: i64) -> (c: i64)
    ensures
        c == cos_deg(a as int),
        -SCALE <= c <= SCALE,
{
    let r = reduce(a);
    proof {
        lemma_shift_quarter(a as int);
    }
    let rc: i64 = if r + QUARTER_TURN < FULL_TURN {
        r + QUARTER_TURN
    } else {
        r + QUARTER_TURN - FULL_TURN
    };
    sin_reduced_fx(rc)
}

} // verus!
