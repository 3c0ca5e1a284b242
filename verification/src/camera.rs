use vstd::prelude::*;
use vstd::arithmetic::div_mod::lemma_div_multiples_vanish;
use crate::SCALE;
use crate::fixed::div_floor_i64;
use crate::mat4::Mat4;
use crate::trig::{
    cos_deg, cos_fx, lemma_axis_lower, lemma_cos_pitch_lower, lemma_fundamental_div_mod_converse,
    sin_deg, sin_fx,
};
use crate::vec3::{
    cross_spec, dot, lemma_normalize_bounds, lemma_normalize_horizontal, lemma_normalize_ortho,
    lemma_normalize_zero_y, norm_sq, normalize, normalize_spec, unit_ish, Vec3,
};

verus! {

/// Raw counts a movement call covers: 0.05 of a world unit.
pub const SPEED: i64 = 50_000;

/// Tenths of a degree one count of pointer motion turns the view by: 0.1 degree.
pub const SENSITIVITY: i64 = 1;

/// The field of view, in tenths of a degree: 45 degrees.
pub const FOV: i64 = 450;

/// The near clipping plane, in raw counts: 0.1 of a unit.
pub const NEAR: i64 = 100_000;

/// The far clipping plane, in raw counts: 100 units.
pub const FAR: i64 = 100_000_000;

/// The pitch never leaves `[-PITCH_LIMIT, PITCH_LIMIT]`: 89 degrees.
pub const PITCH_LIMIT: i64 = 890;

/// Positions stay within a million units of the origin on each axis.
pub const POS_LIMIT: i64 = 1_000_000_000_000;

/// The world up direction, one unit along the `y` axis.
pub open spec fn world_up() -> Vec3 {
    Vec3 { x: 0, y: SCALE, z: 0 }
}

fn world_up_fx() -> (u: Vec3)
    ensures
        u == world_up(),
{
    Vec3 { x: 0, y: SCALE, z: 0 }
}

/// The pitch brought back to the closed band around the horizon.
pub open spec fn clamp_pitch(p: int) -> int {
    if p > PITCH_LIMIT {
        PITCH_LIMIT as int
    } else if p < -PITCH_LIMIT {
        -PITCH_LIMIT as int
    } else {
        p
    }
}

/// The viewing direction rebuilt from the spherical angles, before it is
/// brought back to unit length.
pub open spec fn front_raw_of(yaw: int, pitch: int) -> Vec3 {
    Vec3 {
        x: ((cos_deg(yaw) * cos_deg(pitch)) / (SCALE as int)) as i64,
        y: sin_deg(pitch) as i64,
        z: ((sin_deg(yaw) * cos_deg(pitch)) / (SCALE as int)) as i64,
    }
}

/// The unit viewing direction of a pair of angles.
pub open spec fn front_of_angles(yaw: int, pitch: int) -> Vec3 {
    normalize_spec(front_raw_of(yaw, pitch))
}

/// The unit right-hand direction of a viewing direction: its cross product
/// with the world up, brought back to unit length.
pub open spec fn right_of_front(f: Vec3) -> Vec3 {
    normalize_spec(Vec3 { x: (-f.z) as i64, y: 0, z: f.x })
}

/// The sum of two fixed-point vectors.
pub open spec fn vec_add(a: Vec3, b: Vec3) -> Vec3 {
    Vec3 { x: (a.x + b.x) as i64, y: (a.y + b.y) as i64, z: (a.z + b.z) as i64 }
}

/// The difference of two fixed-point vectors.
pub open spec fn vec_sub(a: Vec3, b: Vec3) -> Vec3 {
    Vec3 { x: (a.x - b.x) as i64, y: (a.y - b.y) as i64, z: (a.z - b.z) as i64 }
}

/// The raw counts one movement call covers along a unit direction.
pub open spec fn step_vec(dir: Vec3, speed: int) -> Vec3 {
    Vec3 {
        x: ((dir.x * speed) / (SCALE as int)) as i64,
        y: ((dir.y * speed) / (SCALE as int)) as i64,
        z: ((dir.z * speed) / (SCALE as int)) as i64,
    }
}

/// A first-person fly camera: a position, an orientation held authoritatively
/// as yaw and pitch angles, and the unit basis vectors derived from them.
pub struct Camera {
    pub position: Vec3,
    pub front: Vec3,
    pub up: Vec3,
    pub right: Vec3,
    pub yaw: i64,
    pub pitch: i64,
    pub speed: i64,
    pub sensitivity: i64,
    pub fov: i64,
    pub aspect_ratio: i64,
    pub near: i64,
    pub far: i64,
}

impl Camera {
    /// The camera invariant: the pitch is clamped a degree short of the poles,
    /// the up reference is the world up, the scale constants are the ones set
    /// at construction, `front` and `right` are unit vectors up to the
    /// normalization error, `right` lies in the horizontal plane and is
    /// orthogonal to `front` up to the same error, and the position is in
    /// bounds.
    pub open spec fn wf(self) -> bool {
        &&& -PITCH_LIMIT <= self.pitch <= PITCH_LIMIT
        &&& self.up == world_up()
        &&& self.speed == SPEED
        &&& self.sensitivity == SENSITIVITY
        &&& self.fov == FOV
        &&& self.near == NEAR
        &&& self.far == FAR
        &&& 1 <= self.aspect_ratio <= 1_000_000_000
        &&& unit_ish(self.front)
        &&& unit_ish(self.right)
        &&& self.right.y == 0
        &&& -3_300_003 <= dot(self.right, self.front) <= 3_300_003
        &&& -POS_LIMIT <= self.position.x <= POS_LIMIT
        &&& -POS_LIMIT <= self.position.y <= POS_LIMIT
        &&& -POS_LIMIT <= self.position.z <= POS_LIMIT
    }

    /// The basis vectors agree with the angles: this holds after every
    /// rotation, but not necessarily at construction, where `front` comes
    /// from the look-at target while the angles take fixed initial values.
    pub open spec fn oriented(self) -> bool {
        &&& self.front == front_of_angles(self.yaw as int, self.pitch as int)
        &&& self.right == right_of_front(self.front)
    }
}

/// What a construction yields: the viewing direction toward the target, the
/// right-hand direction derived from it, fixed initial angles and the
/// default scale constants.
pub open spec fn new_spec(position: Vec3, target: Vec3, aspect_ratio: i64) -> Camera {
    let f = normalize_spec(vec_sub(target, position));
    Camera {
        position,
        front: f,
        up: world_up(),
        right: right_of_front(f),
        yaw: -900i64,
        pitch: 0,
        speed: SPEED,
        sensitivity: SENSITIVITY,
        fov: FOV,
        aspect_ratio,
        near: NEAR,
        far: FAR,
    }
}

/// What a rotation yields: the yaw moved freely, the pitch moved and clamped,
/// and the basis rebuilt from the new angles; everything else is kept.
pub open spec fn rotate_spec(c: Camera, dx: int, dy: int) -> Camera {
    let yaw2 = c.yaw + dx * c.sensitivity;
    let pitch2 = clamp_pitch(c.pitch + dy * c.sensitivity);
    let f = front_of_angles(yaw2, pitch2);
    Camera {
        position: c.position,
        front: f,
        up: c.up,
        right: right_of_front(f),
        yaw: yaw2 as i64,
        pitch: pitch2 as i64,
        speed: c.speed,
        sensitivity: c.sensitivity,
        fov: c.fov,
        aspect_ratio: c.aspect_ratio,
        near: c.near,
        far: c.far,
    }
}

/// The camera moved to a new position, everything else kept.
pub open spec fn with_position(c: Camera, p: Vec3) -> Camera {
    Camera {
        position: p,
        front: c.front,
        up: c.up,
        right: c.right,
        yaw: c.yaw,
        pitch: c.pitch,
        speed: c.speed,
        sensitivity: c.sensitivity,
        fov: c.fov,
        aspect_ratio: c.aspect_ratio,
        near: c.near,
        far: c.far,
    }
}

/// The camera's own up direction: the up reference orthogonalized against
/// the heading, as the right-handed look-at transform recomputes it — the
/// cross product of the right and front directions.
pub open spec fn camera_up(c: Camera) -> Vec3 {
    cross_spec(c.right, c.front)
}

/// The right-handed look-at transform of a camera: rows are the right, the
/// recomputed camera up and the reversed front directions, the last column
/// carries the position projected on them.
pub open spec fn view_matrix_spec(c: Camera) -> Mat4 {
    Mat4 {
        m00: c.right.x,
        m01: c.right.y,
        m02: c.right.z,
        m03: ((-dot(c.right, c.position)) / (SCALE as int)) as i64,
        m10: camera_up(c).x,
        m11: camera_up(c).y,
        m12: camera_up(c).z,
        m13: ((-dot(camera_up(c), c.position)) / (SCALE as int)) as i64,
        m20: (-c.front.x) as i64,
        m21: (-c.front.y) as i64,
        m22: (-c.front.z) as i64,
        m23: (dot(c.front, c.position) / (SCALE as int)) as i64,
        m30: 0,
        m31: 0,
        m32: 0,
        m33: SCALE,
    }
}

/// The right-handed perspective transform of a camera, from its field of
/// view, aspect ratio and clipping planes.
pub open spec fn projection_matrix_spec(c: Camera) -> Mat4 {
    let sh = sin_deg(c.fov / 2);
    let ch = cos_deg(c.fov / 2);
    let fcot = (ch * (SCALE as int)) / sh;
    Mat4 {
        m00: ((fcot * (SCALE as int)) / (c.aspect_ratio as int)) as i64,
        m01: 0,
        m02: 0,
        m03: 0,
        m10: 0,
        m11: fcot as i64,
        m12: 0,
        m13: 0,
        m20: 0,
        m21: 0,
        m22: (-(((c.far + c.near) * (SCALE as int)) / (c.far - c.near))) as i64,
        m23: (-((2 * c.far * c.near) / (c.far - c.near))) as i64,
        m30: 0,
        m31: 0,
        m32: (-(SCALE as int)) as i64,
        m33: 0,
    }
}

/// The unit right-hand direction of a unit viewing direction that keeps a
/// sizeable horizontal part.
fn right_from(f: Vec3) -> (r: Vec3)
    requires
        unit_ish(f),
        f.x * f.x + f.z * f.z >= 61_000_000,
    ensures
        r == right_of_front(f),
        unit_ish(r),
        r.y == 0,
        -3_300_003 <= dot(r, f) <= 3_300_003,
{
    let up = world_up_fx();
    let rr = f.cross(up);
    proof {
        assert(f.y * up.z == 0 && f.z * up.x == 0 && f.x * up.z == 0 && f.y * up.x == 0)
            by (nonlinear_arith)
            requires up.x == 0, up.z == 0;
        assert(f.z * up.y == 1_000_000 * (f.z as int) && f.x * up.y == 1_000_000 * (f.x as int))
            by (nonlinear_arith)
            requires up.y == 1_000_000;
        lemma_div_multiples_vanish(-(f.z as int), 1_000_000);
        lemma_div_multiples_vanish(f.x as int, 1_000_000);
        assert(0 - 1_000_000 * (f.z as int) == 1_000_000 * (-(f.z as int)));
        assert(rr.x == -f.z && rr.y == 0 && rr.z == f.x);
        assert(norm_sq(rr) >= 61_000_000 && norm_sq(rr) <= 3_000_000_000_000) by (nonlinear_arith)
            requires
                rr.x == -(f.z as int),
                rr.y == 0,
                rr.z == f.x,
                f.x * f.x + f.z * f.z >= 61_000_000,
                -1_000_000 <= f.x <= 1_000_000,
                -1_000_000 <= f.z <= 1_000_000,
                norm_sq(rr) == rr.x * rr.x + rr.y * rr.y + rr.z * rr.z;
        assert(dot(rr, f) == 0) by (nonlinear_arith)
            requires
                rr.x == -(f.z as int),
                rr.y == 0,
                rr.z == f.x,
                dot(rr, f) == rr.x * f.x + rr.y * f.y + rr.z * f.z;
        lemma_normalize_ortho(rr, f);
        lemma_normalize_zero_y(rr);
        lemma_normalize_bounds(rr);
    }
    let r = normalize(rr);
    r
}

impl Camera {
    /// Builds a camera at `position` looking toward `target`, with the given
    /// fixed-point aspect ratio. The angles take the fixed initial values of
    /// a quarter turn back in yaw and a level pitch; the basis comes from the
    /// target. The target must be distinct from the position and must not sit
    /// on the vertical axis through it, else the basis degenerates.
    pub fn new(position: Vec3, target: Vec3, aspect_ratio: i64) -> (c: Camera)
        requires
            -700_000_000 <= position.x <= 700_000_000,
            -700_000_000 <= position.y <= 700_000_000,
            -700_000_000 <= position.z <= 700_000_000,
            -700_000_000 <= target.x <= 700_000_000,
            -700_000_000 <= target.y <= 700_000_000,
            -700_000_000 <= target.z <= 700_000_000,
            norm_sq(vec_sub(target, position)) >= 102_400,
            8_192 * ((target.x - position.x) * (target.x - position.x) + (target.z - position.z)
                * (target.z - position.z)) >= norm_sq(vec_sub(target, position)),
            1 <= aspect_ratio <= 1_000_000_000,
        ensures
            c == new_spec(position, target, aspect_ratio),
            c.wf(),
    {
        let d = target.sub(position);
        proof {
            assert(d == vec_sub(target, position));
            lemma_normalize_bounds(d);
            lemma_normalize_horizontal(d);
        }
        let f = normalize(d);
        let r = right_from(f);
        Camera {
            position,
            front: f,
            up: world_up_fx(),
            right: r,
            yaw: -900i64,
            pitch: 0,
            speed: SPEED,
            sensitivity: SENSITIVITY,
            fov: FOV,
            aspect_ratio,
            near: NEAR,
            far: FAR,
        }
    }

    /// Turns the view by the given pointer-motion counts: the yaw moves
    /// freely, the pitch is clamped a degree short of the poles, and the
    /// basis vectors are rebuilt from the angles.
    pub fn rotate(&mut self, x_offset: i32, y_offset: i32)
        requires
            old(self).wf(),
            i64::MIN <= old(self).yaw + x_offset * old(self).sensitivity <= i64::MAX,
        ensures
            *final(self) == rotate_spec(*old(self), x_offset as int, y_offset as int),
            final(self).wf(),
            final(self).oriented(),
    {
        let s = self.sensitivity;
        proof {
            assert((x_offset as i64) * s == x_offset as int && (y_offset as i64) * s
                == y_offset as int) by (nonlinear_arith)
                requires s == 1;
        }
        self.yaw = self.yaw + (x_offset as i64) * s;
        let p = self.pitch + (y_offset as i64) * s;
        self.pitch = if p > PITCH_LIMIT {
            PITCH_LIMIT
        } else if p < -PITCH_LIMIT {
            -PITCH_LIMIT
        } else {
            p
        };
        let cy = cos_fx(self.yaw);
        let sy = sin_fx(self.yaw);
        let cp = cos_fx(self.pitch);
        let sp = sin_fx(self.pitch);
        proof {
            lemma_unit_prod(cy as int, cp as int);
            lemma_unit_prod(sy as int, cp as int);
        }
        let rx = div_floor_i64(cy * cp, SCALE);
        let rz = div_floor_i64(sy * cp, SCALE);
        proof {
            lemma_quot_range(cy * cp, rx as int);
            lemma_quot_range(sy * cp, rz as int);
        }
        let raw = Vec3 { x: rx, y: sp, z: rz };
        proof {
            assert(raw == front_raw_of(self.yaw as int, self.pitch as int));
            lemma_cos_pitch_lower(self.pitch as int);
            lemma_axis_lower(self.yaw as int);
            lemma_raw_feed(cy as int, sy as int, cp as int, sp as int, rx as int, rz as int);
            assert(norm_sq(raw) == rx * rx + sp * sp + rz * rz);
            lemma_normalize_bounds(raw);
            lemma_normalize_horizontal(raw);
        }
        let f = normalize(raw);
        let r = right_from(f);
        self.front = f;
        self.right = r;
    }

    /// Moves one speed step along the viewing direction.
    pub fn move_forward(&mut self)
        requires
            old(self).wf(),
            -POS_LIMIT + SPEED <= old(self).position.x <= POS_LIMIT - SPEED,
            -POS_LIMIT + SPEED <= old(self).position.y <= POS_LIMIT - SPEED,
            -POS_LIMIT + SPEED <= old(self).position.z <= POS_LIMIT - SPEED,
        ensures
            *final(self) == with_position(
                *old(self),
                vec_add(old(self).position, step_vec(old(self).front, SPEED as int)),
            ),
            final(self).wf(),
    {
        let st = step(self.front, self.speed);
        self.position = self.position.add(st);
    }

    /// Moves one speed step against the viewing direction.
    pub fn move_backward(&mut self)
        requires
            old(self).wf(),
            -POS_LIMIT + SPEED <= old(self).position.x <= POS_LIMIT - SPEED,
            -POS_LIMIT + SPEED <= old(self).position.y <= POS_LIMIT - SPEED,
            -POS_LIMIT + SPEED <= old(self).position.z <= POS_LIMIT - SPEED,
        ensures
            *final(self) == with_position(
                *old(self),
                vec_sub(old(self).position, step_vec(old(self).front, SPEED as int)),
            ),
            final(self).wf(),
    {
        let st = step(self.front, self.speed);
        self.position = self.position.sub(st);
    }

    /// Moves one speed step against the right-hand direction.
    pub fn strafe_left(&mut self)
        requires
            old(self).wf(),
            -POS_LIMIT + SPEED <= old(self).position.x <= POS_LIMIT - SPEED,
            -POS_LIMIT + SPEED <= old(self).position.y <= POS_LIMIT - SPEED,
            -POS_LIMIT + SPEED <= old(self).position.z <= POS_LIMIT - SPEED,
        ensures
            *final(self) == with_position(
                *old(self),
                vec_sub(old(self).position, step_vec(old(self).right, SPEED as int)),
            ),
            final(self).wf(),
    {
        let st = step(self.right, self.speed);
        self.position = self.position.sub(st);
    }

    /// Moves one speed step along the right-hand direction.
    pub fn strafe_right(&mut self)
        requires
            old(self).wf(),
            -POS_LIMIT + SPEED <= old(self).position.x <= POS_LIMIT - SPEED,
            -POS_LIMIT + SPEED <= old(self).position.y <= POS_LIMIT - SPEED,
            -POS_LIMIT + SPEED <= old(self).position.z <= POS_LIMIT - SPEED,
        ensures
            *final(self) == with_position(
                *old(self),
                vec_add(old(self).position, step_vec(old(self).right, SPEED as int)),
            ),
            final(self).wf(),
    {
        let st = step(self.right, self.speed);
        self.position = self.position.add(st);
    }

    /// The look-at transform of the current state. A pure reading.
    pub fn view_matrix(&self) -> (m: Mat4)
        requires
            self.wf(),
        ensures
            m == view_matrix_spec(*self),
    {
        let cu = self.right.cross(self.front);
        proof {
            lemma_cross_unit_bound(self.right, self.front);
        }
        let tr = dot_fx(self.right, self.position);
        let tu = dot_fx(cu, self.position);
        let tf = dot_fx(self.front, self.position);
        Mat4 {
            m00: self.right.x,
            m01: self.right.y,
            m02: self.right.z,
            m03: div_floor_i64(-tr, SCALE),
            m10: cu.x,
            m11: cu.y,
            m12: cu.z,
            m13: div_floor_i64(-tu, SCALE),
            m20: -self.front.x,
            m21: -self.front.y,
            m22: -self.front.z,
            m23: div_floor_i64(tf, SCALE),
            m30: 0,
            m31: 0,
            m32: 0,
            m33: SCALE,
        }
    }

    /// The perspective transform of the construction-time parameters.
    /// A pure reading.
    pub fn projection_matrix(&self) -> (m: Mat4)
        requires
            self.wf(),
        ensures
            m == projection_matrix_spec(*self),
    {
        let half = div_floor_i64(self.fov, 2);
        assert(half == 225);
        let sh = sin_fx(half);
        let ch = cos_fx(half);
        proof {
            lemma_fov_half_values();
        }
        assert(sh == 383_561 && ch == 923_076);
        proof {
            assert(923_076int * 1_000_000 == 923_076_000_000) by (nonlinear_arith);
            assert(923_076_000_000int == 383_561 * 2_406_595 + 15_205) by (nonlinear_arith);
            lemma_fundamental_div_mod_converse(923_076_000_000, 383_561, 2_406_595, 15_205);
        }
        let fcot = div_floor_i64(ch * SCALE, sh);
        assert(fcot == 2_406_595);
        proof {
            assert(2_406_595int * 1_000_000 == 2_406_595_000_000) by (nonlinear_arith);
        }
        let m00 = div_floor_i64(fcot * SCALE, self.aspect_ratio);
        proof {
            crate::fixed::lemma_div_bracket(fcot * SCALE, self.aspect_ratio as int);
            assert(100_100_000int * 1_000_000 == 100_100_000_000_000) by (nonlinear_arith);
            assert(100_100_000_000_000int == 99_900_000 * 1_002_002 + 200_000) by (nonlinear_arith);
            lemma_fundamental_div_mod_converse(100_100_000_000_000, 99_900_000, 1_002_002, 200_000);
            assert(2 * 100_000_000int * 100_000 == 20_000_000_000_000) by (nonlinear_arith);
            assert(20_000_000_000_000int == 99_900_000 * 200_200 + 20_000_000) by (nonlinear_arith);
            lemma_fundamental_div_mod_converse(20_000_000_000_000, 99_900_000, 200_200, 20_000_000);
        }
        let wide = div_floor_i64((self.far + self.near) * SCALE, self.far - self.near);
        assert(wide == 1_002_002);
        let deep = div_floor_i64(2 * self.far * self.near, self.far - self.near);
        assert(deep == 200_200);
        Mat4 {
            m00,
            m01: 0,
            m02: 0,
            m03: 0,
            m10: 0,
            m11: fcot,
            m12: 0,
            m13: 0,
            m20: 0,
            m21: 0,
            m22: -wide,
            m23: -deep,
            m30: 0,
            m31: 0,
            m32: -SCALE,
            m33: 0,
        }
    }
}

/// The raw step one movement call covers along a unit direction.
fn step(dir: Vec3, speed: i64) -> (st: Vec3)
    requires
        unit_ish(dir),
        speed == SPEED,
    ensures
        st == step_vec(dir, speed as int),
        -SPEED <= st.x <= SPEED,
        -SPEED <= st.y <= SPEED,
        -SPEED <= st.z <= SPEED,
{
    proof {
        lemma_step_prod(dir.x as int);
        lemma_step_prod(dir.y as int);
        lemma_step_prod(dir.z as int);
    }
    let sx = div_floor_i64(dir.x * speed, SCALE);
    let sy = div_floor_i64(dir.y * speed, SCALE);
    let sz = div_floor_i64(dir.z * speed, SCALE);
    proof {
        lemma_step_range(dir.x * speed, sx as int);
        lemma_step_range(dir.y * speed, sy as int);
        lemma_step_range(dir.z * speed, sz as int);
    }
    Vec3 { x: sx, y: sy, z: sz }
}

/// The product of a unit coordinate and the speed stays within range.
proof fn lemma_step_prod(c: int)
    by (nonlinear_arith)
    requires
        -1_000_000 <= c <= 1_000_000,
    ensures
        -50_000_000_000 <= c * 50_000 <= 50_000_000_000,
{
}

/// A step coordinate divided back to raw counts stays within one speed.
proof fn lemma_step_range(a: int, q: int)
    requires
        -50_000_000_000 <= a <= 50_000_000_000,
        q == a / 1_000_000,
    ensures
        -50_000 <= q <= 50_000,
{
    crate::fixed::lemma_div_bracket(a, 1_000_000);
    assert(-50_000 <= q <= 50_000) by (nonlinear_arith)
        requires
            1_000_000 * q <= a < 1_000_000 * q + 1_000_000,
            -50_000_000_000 <= a <= 50_000_000_000;
}

/// The product of two fixed-point values of at most unit magnitude.
proof fn lemma_unit_prod(a: int, b: int)
    by (nonlinear_arith)
    requires
        -1_000_000 <= a <= 1_000_000,
        -1_000_000 <= b <= 1_000_000,
    ensures
        -1_000_000_000_000 <= a * b <= 1_000_000_000_000,
{
}

/// A product of unit values divided by the scale stays within the unit.
proof fn lemma_quot_range(a: int, q: int)
    requires
        -1_000_000_000_000 <= a <= 1_000_000_000_000,
        q == a / 1_000_000,
    ensures
        -1_000_000 <= q <= 1_000_000,
{
    crate::fixed::lemma_div_bracket(a, 1_000_000);
    assert(-1_000_000 <= q <= 1_000_000) by (nonlinear_arith)
        requires
            1_000_000 * q <= a < 1_000_000 * q + 1_000_000,
            -1_000_000_000_000 <= a <= 1_000_000_000_000;
}

/// The rebuilt direction keeps a sizeable horizontal part: one of the two
/// horizontal trigonometric products is large, because the cosine of the
/// pitch is bounded away from zero and one of the yaw's sine and cosine is
/// at least 0.7 of the scale.
proof fn lemma_raw_feed(cy: int, sy: int, cp: int, sp: int, rx: int, rz: int)
    requires
        17_000 <= cp <= 1_000_000,
        -1_000_000 <= cy <= 1_000_000,
        -1_000_000 <= sy <= 1_000_000,
        -1_000_000 <= sp <= 1_000_000,
        cy >= 700_000 || cy <= -700_000 || sy >= 700_000 || sy <= -700_000,
        1_000_000 * rx <= cy * cp < 1_000_000 * rx + 1_000_000,
        1_000_000 * rz <= sy * cp < 1_000_000 * rz + 1_000_000,
    ensures
        rx * rx + sp * sp + rz * rz >= 102_400,
        8_192 * (rx * rx + rz * rz) >= rx * rx + sp * sp + rz * rz,
{
    if cy >= 700_000 || cy <= -700_000 {
        lemma_big_quot(cy, cp, rx);
        assert(rx * rx + rz * rz >= 141_610_000) by (nonlinear_arith)
            requires rx * rx >= 141_610_000;
    } else {
        lemma_big_quot(sy, cp, rz);
        assert(rx * rx + rz * rz >= 141_610_000) by (nonlinear_arith)
            requires rz * rz >= 141_610_000;
    }
    assert(sp * sp <= 1_000_000_000_000) by (nonlinear_arith)
        requires -1_000_000 <= sp <= 1_000_000;
    assert(rx * rx >= 0 && rz * rz >= 0 && sp * sp >= 0) by (nonlinear_arith);
    assert(8_192 * (rx * rx + rz * rz) >= rx * rx + sp * sp + rz * rz) by (nonlinear_arith)
        requires
            rx * rx + rz * rz >= 141_610_000,
            sp * sp <= 1_000_000_000_000,
            rx * rx >= 0,
            rz * rz >= 0;
}

/// A trigonometric product of a large factor and the bounded-away cosine,
/// divided by the scale, keeps a large square.
proof fn lemma_big_quot(c: int, cp: int, q: int)
    requires
        17_000 <= cp <= 1_000_000,
        c >= 700_000 || c <= -700_000,
        -1_000_000 <= c <= 1_000_000,
        1_000_000 * q <= c * cp < 1_000_000 * q + 1_000_000,
    ensures
        q * q >= 141_610_000,
{
    if c >= 700_000 {
        assert(c * cp >= 11_900_000_000) by (nonlinear_arith)
            requires c >= 700_000, cp >= 17_000;
        assert(q >= 11_900) by (nonlinear_arith)
            requires
                1_000_000 * q + 1_000_000 > c * cp,
                c * cp >= 11_900_000_000;
        assert(q * q >= 141_610_000) by (nonlinear_arith)
            requires q >= 11_900;
    } else {
        assert(c * cp <= -11_900_000_000) by (nonlinear_arith)
            requires c <= -700_000, cp >= 17_000;
        assert(q <= -11_900) by (nonlinear_arith)
            requires
                1_000_000 * q <= c * cp,
                c * cp <= -11_900_000_000;
        assert(q * q >= 141_610_000) by (nonlinear_arith)
            requires q <= -11_900;
    }
}

/// The half field of view has these exact fixed-point sine and cosine.
proof fn lemma_fov_half_values()
    ensures
        sin_deg(225) == 383_561,
        cos_deg(225) == 923_076,
{
    assert(225int == 3600 * 0 + 225) by (nonlinear_arith);
    lemma_fundamental_div_mod_converse(225, 3600, 0, 225);
    assert(225int % 3600 == 225);
    assert(225int * (1800 - 225) == 354_375) by (nonlinear_arith);
    assert(4 * 354_375int * 1_000_000 == 1_417_500_000_000) by (nonlinear_arith);
    assert(1_417_500_000_000int == 3_695_625 * 383_561 + 2_379_375) by (nonlinear_arith);
    lemma_fundamental_div_mod_converse(1_417_500_000_000, 3_695_625, 383_561, 2_379_375);
    assert(sin_deg(225) == 383_561);
    assert(1_125int == 3600 * 0 + 1_125) by (nonlinear_arith);
    lemma_fundamental_div_mod_converse(1_125, 3600, 0, 1_125);
    assert(1_125int % 3600 == 1_125);
    assert(1_125int * (1800 - 1_125) == 759_375) by (nonlinear_arith);
    assert(4 * 759_375int * 1_000_000 == 3_037_500_000_000) by (nonlinear_arith);
    assert(3_037_500_000_000int == 3_290_625 * 923_076 + 3_037_500) by (nonlinear_arith);
    lemma_fundamental_div_mod_converse(3_037_500_000_000, 3_290_625, 923_076, 3_037_500);
    assert(cos_deg(225) == 923_076);
}

/// The cross product of two unit-scale vectors keeps every coordinate
/// within twice the scale.
proof fn lemma_cross_unit_bound(a: Vec3, b: Vec3)
    requires
        unit_ish(a),
        unit_ish(b),
    ensures
        -2_000_000 <= cross_spec(a, b).x <= 2_000_000,
        -2_000_000 <= cross_spec(a, b).y <= 2_000_000,
        -2_000_000 <= cross_spec(a, b).z <= 2_000_000,
{
    lemma_cross_comp(a.y as int, b.z as int, a.z as int, b.y as int);
    lemma_cross_comp(a.z as int, b.x as int, a.x as int, b.z as int);
    lemma_cross_comp(a.x as int, b.y as int, a.y as int, b.x as int);
}

/// One coordinate of such a cross product.
proof fn lemma_cross_comp(p: int, q: int, r: int, t: int)
    requires
        -1_000_000 <= p <= 1_000_000,
        -1_000_000 <= q <= 1_000_000,
        -1_000_000 <= r <= 1_000_000,
        -1_000_000 <= t <= 1_000_000,
    ensures
        -2_000_000 <= (p * q - r * t) / 1_000_000 <= 2_000_000,
{
    assert(-2_000_000_000_000 <= p * q - r * t <= 2_000_000_000_000) by (nonlinear_arith)
        requires
            -1_000_000 <= p <= 1_000_000,
            -1_000_000 <= q <= 1_000_000,
            -1_000_000 <= r <= 1_000_000,
            -1_000_000 <= t <= 1_000_000;
    let n = p * q - r * t;
    crate::fixed::lemma_div_bracket(n, 1_000_000);
    assert(-2_000_000 <= n / 1_000_000 <= 2_000_000) by (nonlinear_arith)
        requires
            1_000_000 * (n / 1_000_000) <= n < 1_000_000 * (n / 1_000_000) + 1_000_000,
            -2_000_000_000_000 <= n <= 2_000_000_000_000;
}

/// The scalar product of a unit-scale vector and an in-bounds position.
fn dot_fx(a: Vec3, b: Vec3) -> (d: i64)
    requires
        -2_000_000 <= a.x <= 2_000_000,
        -2_000_000 <= a.y <= 2_000_000,
        -2_000_000 <= a.z <= 2_000_000,
        -POS_LIMIT <= b.x <= POS_LIMIT,
        -POS_LIMIT <= b.y <= POS_LIMIT,
        -POS_LIMIT <= b.z <= POS_LIMIT,
    ensures
        d == dot(a, b),
        -6_000_000_000_000_000_000 <= d <= 6_000_000_000_000_000_000,
{
    proof {
        lemma_dot_prod(a.x as int, b.x as int);
        lemma_dot_prod(a.y as int, b.y as int);
        lemma_dot_prod(a.z as int, b.z as int);
    }
    a.x * b.x + a.y * b.y + a.z * b.z
}

/// One term of the position projection stays within range.
proof fn lemma_dot_prod(a: int, b: int)
    by (nonlinear_arith)
    requires
        -2_000_000 <= a <= 2_000_000,
        -1_000_000_000_000 <= b <= 1_000_000_000_000,
    ensures
        -2_000_000_000_000_000_000 <= a * b <= 2_000_000_000_000_000_000,
{
}

} // verus!
