use vstd::prelude::*;
use crate::SCALE;
use vstd::arithmetic::mul::lemma_mul_is_distributive_add;
use crate::fixed::{
    div_floor, div_floor_i64, floor_sqrt, isqrt, lemma_div_bracket, lemma_floor_sqrt_bracket,
    NORM_PREC_SQ, SCALE_PREC,
};

verus! {

/// A vector of world space, in fixed-point raw counts (`SCALE` counts per unit).
#[derive(Clone, Copy, PartialEq, Eq, Structural, Debug)]
pub struct Vec3 {
    pub x: i64,
    pub y: i64,
    pub z: i64,
}

/// Largest coordinate magnitude accepted where a vector is normalized.
pub const COORD_MAX: i64 = 1_500_000_000;

/// The squared Euclidean length, in squared raw counts.
pub open spec fn norm_sq(v: Vec3) -> int {
    v.x * v.x + v.y * v.y + v.z * v.z
}

/// The scalar product, in squared raw counts.
pub open spec fn dot(a: Vec3, b: Vec3) -> int {
    a.x * b.x + a.y * b.y + a.z * b.z
}

/// The cross product, brought back to the common scale.
pub open spec fn cross_spec(a: Vec3, b: Vec3) -> Vec3 {
    Vec3 {
        x: ((a.y * b.z - a.z * b.y) / (SCALE as int)) as i64,
        y: ((a.z * b.x - a.x * b.z) / (SCALE as int)) as i64,
        z: ((a.x * b.y - a.y * b.x) / (SCALE as int)) as i64,
    }
}

/// The vector scaled to length `SCALE`: each coordinate is carried to the
/// working precision and divided by the square root of the squared norm
/// taken at that same precision.
pub open spec fn normalize_spec(v: Vec3) -> Vec3 {
    let l = floor_sqrt((norm_sq(v) * (NORM_PREC_SQ as int)) as nat) as int;
    Vec3 {
        x: ((v.x * (SCALE_PREC as int)) / l) as i64,
        y: ((v.y * (SCALE_PREC as int)) / l) as i64,
        z: ((v.z * (SCALE_PREC as int)) / l) as i64,
    }
}

/// A vector whose length is the scale, up to the normalization error:
/// its squared norm is within seven parts per million of the exact square.
pub open spec fn unit_ish(w: Vec3) -> bool {
    &&& 1_000_000_000_000 - 6_000_000 <= norm_sq(w) <= 1_000_000_000_000 + 7_000_000
    &&& -SCALE <= w.x <= SCALE
    &&& -SCALE <= w.y <= SCALE
    &&& -SCALE <= w.z <= SCALE
}

impl Vec3 {
    /// Componentwise sum.
    pub fn add(self, o: Vec3) -> (r: Vec3)
        requires
            i64::MIN <= self.x + o.x <= i64::MAX,
            i64::MIN <= self.y + o.y <= i64::MAX,
            i64::MIN <= self.z + o.z <= i64::MAX,
        ensures
            r.x == self.x + o.x,
            r.y == self.y + o.y,
            r.z == self.z + o.z,
    {
        Vec3 { x: self.x + o.x, y: self.y + o.y, z: self.z + o.z }
    }

    /// Componentwise difference.
    pub fn sub(self, o: Vec3) -> (r: Vec3)
        requires
            i64::MIN <= self.x - o.x <= i64::MAX,
            i64::MIN <= self.y - o.y <= i64::MAX,
            i64::MIN <= self.z - o.z <= i64::MAX,
        ensures
            r.x == self.x - o.x,
            r.y == self.y - o.y,
            r.z == self.z - o.z,
    {
        Vec3 { x: self.x - o.x, y: self.y - o.y, z: self.z - o.z }
    }

    /// Cross product of two fixed-point vectors, at the common scale.
    pub fn cross(self, o: Vec3) -> (r: Vec3)
        requires
            -2_000_000_000 <= self.x <= 2_000_000_000,
            -2_000_000_000 <= self.y <= 2_000_000_000,
            -2_000_000_000 <= self.z <= 2_000_000_000,
            -2_000_000_000 <= o.x <= 2_000_000_000,
            -2_000_000_000 <= o.y <= 2_000_000_000,
            -2_000_000_000 <= o.z <= 2_000_000_000,
        ensures
            r == cross_spec(self, o),
    {
        proof {
            lemma_cross_term(self.y as int, o.z as int, self.z as int, o.y as int);
            lemma_cross_term(self.z as int, o.x as int, self.x as int, o.z as int);
            lemma_cross_term(self.x as int, o.y as int, self.y as int, o.x as int);
        }
        let nx: i64 = self.y * o.z - self.z * o.y;
        let ny: i64 = self.z * o.x - self.x * o.z;
        let nz: i64 = self.x * o.y - self.y * o.x;
        let rx = div_floor_i64(nx, SCALE);
        let ry = div_floor_i64(ny, SCALE);
        let rz = div_floor_i64(nz, SCALE);
        proof {
            lemma_div_bracket(nx as int, SCALE as int);
            lemma_div_bracket(ny as int, SCALE as int);
            lemma_div_bracket(nz as int, SCALE as int);
        }
        Vec3 { x: rx, y: ry, z: rz }
    }
}

/// One term of a cross product stays within the signed 64-bit range.
proof fn lemma_cross_term(a: int, b: int, c: int, d: int)
    by (nonlinear_arith)
    requires
        -2_000_000_000 <= a <= 2_000_000_000,
        -2_000_000_000 <= b <= 2_000_000_000,
        -2_000_000_000 <= c <= 2_000_000_000,
        -2_000_000_000 <= d <= 2_000_000_000,
    ensures
        -8_000_000_000_000_000_000 <= a * b - c * d <= 8_000_000_000_000_000_000,
        -4_000_000_000_000_000_000 <= a * b <= 4_000_000_000_000_000_000,
        -4_000_000_000_000_000_000 <= c * d <= 4_000_000_000_000_000_000,
{
}

/// One scaled coordinate of a normalized vector, between its division bracket
/// and the coordinate bound, stays within `[-SCALE, SCALE]`.
proof fn lemma_comp_range(a: int, l: int, w: int)
    by (nonlinear_arith)
    requires
        l >= 1,
        l * w <= a < l * w + l,
        -(1_000_000 * l) <= a <= 1_000_000 * l,
    ensures
        -1_000_000 <= w <= 1_000_000,
{
}

/// The square of one scaled coordinate, against the square of the exact ratio.
proof fn lemma_comp_sq(a: int, l: int, w: int)
    by (nonlinear_arith)
    requires
        l >= 1,
        l * w <= a < l * w + l,
        -(1_000_000 * l) <= a <= 1_000_000 * l,
    ensures
        a * a - 2_000_000 * (l * l) <= (l * w) * (l * w) <= a * a + 2_000_001 * (l * l),
{
}

/// A coordinate carried to the working precision stays within the square
/// root of the squared norm at that precision.
proof fn lemma_coord_small(c: int, o1: int, o2: int, l: int, m: int)
    requires
        m == (c * c + o1 * o1 + o2 * o2) * (NORM_PREC_SQ as int),
        m < (l + 1) * (l + 1),
        l >= 0,
    ensures
        -(1_000_000 * l) <= c * 1_048_576_000_000 <= 1_000_000 * l,
{
    let a = 1_048_576 * c;
    assert(a * a <= m) by (nonlinear_arith)
        requires
            m == (c * c + o1 * o1 + o2 * o2) * 1_099_511_627_776,
            a == 1_048_576 * c;
    assert(-l <= a <= l) by (nonlinear_arith)
        requires
            a * a <= m,
            m < (l + 1) * (l + 1),
            l >= 0;
    assert(c * 1_048_576_000_000 == 1_000_000 * a);
}

/// The precise squared norm, its square root and the division brackets of the
/// three coordinates, gathered for the lemmas below.
proof fn setup_normalize(v: Vec3) -> (r: (int, int, int, int, int))
    requires
        102_400 <= norm_sq(v),
        -COORD_MAX <= v.x <= COORD_MAX,
        -COORD_MAX <= v.y <= COORD_MAX,
        -COORD_MAX <= v.z <= COORD_MAX,
    ensures
        ({
            let (l, m, wx, wy, wz) = r;
            &&& m == norm_sq(v) * (NORM_PREC_SQ as int)
            &&& l == floor_sqrt(m as nat) as int
            &&& l * l <= m < (l + 1) * (l + 1)
            &&& 335_544_320 <= l <= 2_800_000_000_000_000
            &&& wx == (v.x * (SCALE_PREC as int)) / l
            &&& wy == (v.y * (SCALE_PREC as int)) / l
            &&& wz == (v.z * (SCALE_PREC as int)) / l
            &&& normalize_spec(v) == (Vec3 { x: wx as i64, y: wy as i64, z: wz as i64 })
            &&& -1_000_000 <= wx <= 1_000_000
            &&& -1_000_000 <= wy <= 1_000_000
            &&& -1_000_000 <= wz <= 1_000_000
            &&& -(1_000_000 * l) <= v.x * (SCALE_PREC as int) <= 1_000_000 * l
            &&& -(1_000_000 * l) <= v.y * (SCALE_PREC as int) <= 1_000_000 * l
            &&& -(1_000_000 * l) <= v.z * (SCALE_PREC as int) <= 1_000_000 * l
            &&& l * wx <= v.x * (SCALE_PREC as int) < l * wx + l
            &&& l * wy <= v.y * (SCALE_PREC as int) < l * wy + l
            &&& l * wz <= v.z * (SCALE_PREC as int) < l * wz + l
            &&& norm_sq(v) <= 6_750_000_000_000_000_000
        }),
{
    let n = norm_sq(v);
    assert(n <= 6_750_000_000_000_000_000) by (nonlinear_arith)
        requires
            n == v.x * v.x + v.y * v.y + v.z * v.z,
            -1_500_000_000 <= v.x <= 1_500_000_000,
            -1_500_000_000 <= v.y <= 1_500_000_000,
            -1_500_000_000 <= v.z <= 1_500_000_000;
    let m = n * (NORM_PREC_SQ as int);
    assert(112_589_990_684_262_400 <= m <= 7_421_703_487_488_000_000_000_000_000_000)
        by (nonlinear_arith)
        requires
            102_400 <= n <= 6_750_000_000_000_000_000,
            m == n * 1_099_511_627_776;
    assert(m as nat as int == m);
    let l = floor_sqrt(m as nat) as int;
    lemma_floor_sqrt_bracket(m as nat);
    assert(l * l <= m < (l + 1) * (l + 1));
    assert(l >= 335_544_320) by (nonlinear_arith)
        requires
            m >= 112_589_990_684_262_400,
            m < (l + 1) * (l + 1),
            l >= 0;
    assert(l <= 2_800_000_000_000_000) by (nonlinear_arith)
        requires
            l * l <= m,
            m <= 7_421_703_487_488_000_000_000_000_000_000,
            l >= 0;
    let ax = v.x * (SCALE_PREC as int);
    let ay = v.y * (SCALE_PREC as int);
    let az = v.z * (SCALE_PREC as int);
    lemma_coord_small(v.x as int, v.y as int, v.z as int, l, m);
    lemma_coord_small(v.y as int, v.x as int, v.z as int, l, m);
    lemma_coord_small(v.z as int, v.x as int, v.y as int, l, m);
    assert(ax == 1_000_000 * (1_048_576 * v.x));
    assert(ay == 1_000_000 * (1_048_576 * v.y));
    assert(az == 1_000_000 * (1_048_576 * v.z));
    let wx = ax / l;
    let wy = ay / l;
    let wz = az / l;
    lemma_div_bracket(ax, l);
    lemma_div_bracket(ay, l);
    lemma_div_bracket(az, l);
    lemma_comp_range(ax, l, wx);
    lemma_comp_range(ay, l, wy);
    lemma_comp_range(az, l, wz);
    (l, m, wx, wy, wz)
}

/// Normalization yields a vector of length `SCALE`, up to seven parts per
/// million of the squared norm.
pub proof fn lemma_normalize_bounds(v: Vec3)
    requires
        102_400 <= norm_sq(v),
        -COORD_MAX <= v.x <= COORD_MAX,
        -COORD_MAX <= v.y <= COORD_MAX,
        -COORD_MAX <= v.z <= COORD_MAX,
    ensures
        unit_ish(normalize_spec(v)),
{
    let (l, m, wx, wy, wz) = setup_normalize(v);
    let ax = v.x * (SCALE_PREC as int);
    let ay = v.y * (SCALE_PREC as int);
    let az = v.z * (SCALE_PREC as int);
    lemma_comp_sq(ax, l, wx);
    lemma_comp_sq(ay, l, wy);
    lemma_comp_sq(az, l, wz);
    let ssum = (l * wx) * (l * wx) + (l * wy) * (l * wy) + (l * wz) * (l * wz);
    assert(ax * ax + ay * ay + az * az == m * 1_000_000_000_000) by (nonlinear_arith)
        requires
            ax == v.x * 1_048_576_000_000,
            ay == v.y * 1_048_576_000_000,
            az == v.z * 1_048_576_000_000,
            m == (v.x * v.x + v.y * v.y + v.z * v.z) * 1_099_511_627_776;
    assert(m * 1_000_000_000_000 - 6_000_000 * (l * l) <= ssum <= m * 1_000_000_000_000
        + 6_000_003 * (l * l));
    let q = wx * wx + wy * wy + wz * wz;
    assert((l * wx) * (l * wx) == (l * l) * (wx * wx)) by (nonlinear_arith);
    assert((l * wy) * (l * wy) == (l * l) * (wy * wy)) by (nonlinear_arith);
    assert((l * wz) * (l * wz) == (l * l) * (wz * wz)) by (nonlinear_arith);
    lemma_mul_is_distributive_add(l * l, wx * wx, wy * wy + wz * wz);
    lemma_mul_is_distributive_add(l * l, wy * wy, wz * wz);
    assert(ssum == (l * l) * q);
    assert(1_000_000_000_000 - 6_000_000 <= q <= 1_000_000_000_000 + 7_000_000)
        by (nonlinear_arith)
        requires
            (l * l) * q >= m * 1_000_000_000_000 - 6_000_000 * (l * l),
            (l * l) * q <= m * 1_000_000_000_000 + 6_000_003 * (l * l),
            l * l <= m < (l + 1) * (l + 1),
            335_544_320 <= l <= 2_800_000_000_000_000;
    assert(norm_sq(normalize_spec(v)) == q);
}

/// One term of a scalar product, taken against the rounded rather than the
/// exact scaled coordinate, moves by at most the bound of the other factor.
proof fn lemma_ortho_term(u: int, a: int, lw: int, l: int)
    by (nonlinear_arith)
    requires
        l >= 1,
        lw <= a < lw + l,
        -1_100_000 <= u <= 1_100_000,
    ensures
        -(1_100_000 * l) <= u * lw - u * a <= 1_100_000 * l,
        -(1_100_000 * l) <= a * u - u * lw <= 1_100_000 * l,
{
}

/// Normalization keeps an exactly orthogonal direction nearly orthogonal:
/// against any vector of at most unit-and-a-tenth length that the input is
/// orthogonal to, the scalar product of the result stays within
/// `3_300_003` squared counts, about three millionths of the scale squared.
pub proof fn lemma_normalize_ortho(v: Vec3, u: Vec3)
    requires
        102_400 <= norm_sq(v),
        -COORD_MAX <= v.x <= COORD_MAX,
        -COORD_MAX <= v.y <= COORD_MAX,
        -COORD_MAX <= v.z <= COORD_MAX,
        -1_100_000 <= u.x <= 1_100_000,
        -1_100_000 <= u.y <= 1_100_000,
        -1_100_000 <= u.z <= 1_100_000,
        dot(v, u) == 0,
    ensures
        -3_300_003 <= dot(normalize_spec(v), u) <= 3_300_003,
{
    let (l, m, wx, wy, wz) = setup_normalize(v);
    let ax = v.x * (SCALE_PREC as int);
    let ay = v.y * (SCALE_PREC as int);
    let az = v.z * (SCALE_PREC as int);
    assert(ax * u.x + ay * u.y + az * u.z == 0) by (nonlinear_arith)
        requires
            ax == v.x * 1_048_576_000_000,
            ay == v.y * 1_048_576_000_000,
            az == v.z * 1_048_576_000_000,
            v.x * u.x + v.y * u.y + v.z * u.z == 0;
    let d = wx * u.x + wy * u.y + wz * u.z;
    lemma_ortho_term(u.x as int, ax, l * wx, l);
    lemma_ortho_term(u.y as int, ay, l * wy, l);
    lemma_ortho_term(u.z as int, az, l * wz, l);
    assert(l * (wx * u.x) == u.x * (l * wx)) by (nonlinear_arith);
    assert(l * (wy * u.y) == u.y * (l * wy)) by (nonlinear_arith);
    assert(l * (wz * u.z) == u.z * (l * wz)) by (nonlinear_arith);
    lemma_mul_is_distributive_add(l, wx * u.x, wy * u.y + wz * u.z);
    lemma_mul_is_distributive_add(l, wy * u.y, wz * u.z);
    assert(l * d == u.x * (l * wx) + u.y * (l * wy) + u.z * (l * wz));
    assert(-(3_300_000 * l) <= l * d - (ax * u.x + ay * u.y + az * u.z) <= 3_300_000 * l);
    assert(-3_300_003 <= d <= 3_300_003) by (nonlinear_arith)
        requires
            -(3_300_000 * l) <= l * d <= 3_300_000 * l,
            l >= 1;
    assert(dot(normalize_spec(v), u) == d);
}

/// Normalizing a vector whose `y` coordinate is zero keeps it zero.
pub proof fn lemma_normalize_zero_y(v: Vec3)
    requires
        102_400 <= norm_sq(v),
        -COORD_MAX <= v.x <= COORD_MAX,
        -COORD_MAX <= v.y <= COORD_MAX,
        -COORD_MAX <= v.z <= COORD_MAX,
        v.y == 0,
    ensures
        normalize_spec(v).y == 0,
{
    let (l, m, wx, wy, wz) = setup_normalize(v);
    assert(v.y * (SCALE_PREC as int) == 0) by (nonlinear_arith)
        requires v.y == 0;
    assert(wy == 0) by (nonlinear_arith)
        requires
            l >= 1,
            l * wy <= 0 < l * wy + l;
}

/// A vector that keeps at least an 8192th of its squared norm in the
/// horizontal plane is normalized to a vector that keeps a sizeable
/// horizontal part: no heading collapses onto the vertical axis.
pub proof fn lemma_normalize_horizontal(v: Vec3)
    requires
        102_400 <= norm_sq(v),
        -COORD_MAX <= v.x <= COORD_MAX,
        -COORD_MAX <= v.y <= COORD_MAX,
        -COORD_MAX <= v.z <= COORD_MAX,
        8_192 * (v.x * v.x + v.z * v.z) >= norm_sq(v),
    ensures
        ({
            let w = normalize_spec(v);
            w.x * w.x + w.z * w.z >= 61_000_000
        }),
{
    let (l, m, wx, wy, wz) = setup_normalize(v);
    let ax = v.x * (SCALE_PREC as int);
    let az = v.z * (SCALE_PREC as int);
    let n = norm_sq(v);
    if v.x * v.x >= v.z * v.z {
        assert(16_384 * (v.x * v.x) >= n) by (nonlinear_arith)
            requires
                8_192 * (v.x * v.x + v.z * v.z) >= n,
                v.x * v.x >= v.z * v.z;
        lemma_big_comp(v.x as int, ax, l, m, n, wx);
        assert(wx * wx + wz * wz >= 61_000_000) by (nonlinear_arith)
            requires wx * wx >= 61_000_000;
    } else {
        assert(16_384 * (v.z * v.z) >= n) by (nonlinear_arith)
            requires
                8_192 * (v.x * v.x + v.z * v.z) >= n,
                v.z * v.z > v.x * v.x;
        lemma_big_comp(v.z as int, az, l, m, n, wz);
        assert(wx * wx + wz * wz >= 61_000_000) by (nonlinear_arith)
            requires wz * wz >= 61_000_000;
    }
    assert(normalize_spec(v).x as int == wx && normalize_spec(v).z as int == wz);
}

/// A coordinate that carries at least a 16384th of the squared norm is
/// normalized to at least 7812 counts in magnitude.
proof fn lemma_big_comp(c: int, a: int, l: int, m: int, n: int, w: int)
    requires
        a == c * 1_048_576_000_000,
        m == n * 1_099_511_627_776,
        16_384 * (c * c) >= n,
        n >= 102_400,
        l * l <= m,
        l >= 1,
        l * w <= a < l * w + l,
    ensures
        w * w >= 61_027_344,
{
    assert((128 * 1_048_576 * c) * (128 * 1_048_576 * c) >= m) by (nonlinear_arith)
        requires
            m == n * 1_099_511_627_776,
            16_384 * (c * c) >= n;
    if c >= 0 {
        assert(128 * 1_048_576 * c >= l) by (nonlinear_arith)
            requires
                (128 * 1_048_576 * c) * (128 * 1_048_576 * c) >= l * l,
                c >= 0,
                l >= 1;
        assert(128 * a >= 1_000_000 * l) by (nonlinear_arith)
            requires
                a == c * 1_048_576_000_000,
                128 * 1_048_576 * c >= l;
        assert(w >= 7_812) by (nonlinear_arith)
            requires
                128 * a >= 1_000_000 * l,
                l * w + l > a,
                l >= 1;
        assert(w * w >= 61_027_344) by (nonlinear_arith)
            requires w >= 7_812;
    } else {
        assert(128 * 1_048_576 * (-c) >= l) by (nonlinear_arith)
            requires
                (128 * 1_048_576 * c) * (128 * 1_048_576 * c) >= l * l,
                c < 0,
                l >= 1;
        assert(128 * a <= -(1_000_000 * l)) by (nonlinear_arith)
            requires
                a == c * 1_048_576_000_000,
                128 * 1_048_576 * (-c) >= l;
        assert(w <= -7_812) by (nonlinear_arith)
            requires
                128 * a <= -(1_000_000 * l),
                l * w <= a,
                l >= 1;
        assert(w * w >= 61_027_344) by (nonlinear_arith)
            requires w <= -7_812;
    }
}

/// One coordinate of the normalized vector.
fn norm_comp(vi: i64, l: i128) -> (w: i64)
    requires
        l >= 1,
        -(1_000_000 * l) <= vi * (SCALE_PREC as int) <= 1_000_000 * l,
    ensures
        w == (vi * (SCALE_PREC as int)) / (l as int),
        -SCALE <= w <= SCALE,
{
    proof {
        assert(vi * (SCALE_PREC as int) == (vi as i128) * SCALE_PREC);
    }
    let a: i128 = (vi as i128) * SCALE_PREC;
    let q = div_floor(a, l);
    proof {
        lemma_div_bracket(a as int, l as int);
        lemma_comp_range(a as int, l as int, q as int);
    }
    q as i64
}

/// Scales a vector to length `SCALE` (one world unit), rounding each
/// coordinate down at a millionth of the scale.
pub fn normalize(v: Vec3) -> (w: Vec3)
    requires
        102_400 <= norm_sq(v),
        -COORD_MAX <= v.x <= COORD_MAX,
        -COORD_MAX <= v.y <= COORD_MAX,
        -COORD_MAX <= v.z <= COORD_MAX,
    ensures
        w == normalize_spec(v),
        unit_ish(w),
{
    proof {
        lemma_normalize_bounds(v);
    }
    let ghost (gl, gm, gwx, gwy, gwz) = setup_normalize(v);
    let vx = v.x as i128;
    let vy = v.y as i128;
    let vz = v.z as i128;
    proof {
        assert(vx * vx <= 2_250_000_000_000_000_000 && vy * vy <= 2_250_000_000_000_000_000
            && vz * vz <= 2_250_000_000_000_000_000) by (nonlinear_arith)
            requires
                -1_500_000_000 <= vx <= 1_500_000_000,
                -1_500_000_000 <= vy <= 1_500_000_000,
                -1_500_000_000 <= vz <= 1_500_000_000;
        assert(vx * vx >= 0 && vy * vy >= 0 && vz * vz >= 0) by (nonlinear_arith);
    }
    let n: i128 = vx * vx + vy * vy + vz * vz;
    assert(n == norm_sq(v));
    proof {
        assert(0 <= n * 1_099_511_627_776 <= 7_421_703_487_488_000_000_000_000_000_000)
            by (nonlinear_arith)
            requires
                102_400 <= n <= 6_750_000_000_000_000_000;
    }
    let m: i128 = n * NORM_PREC_SQ;
    proof {
        assert(m == gm);
    }
    let lm: u128 = isqrt(m as u128);
    proof {
        assert(m as u128 as nat == gm as nat);
        assert(lm == gl);
    }
    let l: i128 = lm as i128;
    let wx = norm_comp(v.x, l);
    let wy = norm_comp(v.y, l);
    let wz = norm_comp(v.z, l);
    Vec3 { x: wx, y: wy, z: wz }
}

} // verus!
