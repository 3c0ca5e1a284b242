use vstd::prelude::*;
use crate::camera::{
    clamp_pitch, rotate_spec, step_vec, vec_add, vec_sub, with_position, Camera, PITCH_LIMIT,
    SPEED,
};
use crate::vec3::{dot, norm_sq, Vec3};

verus! {

/// However the view is turned, the pitch stays within a degree of the poles.
pub proof fn lemma_rotate_pitch_clamped(c: Camera, dx: int, dy: int)
    ensures
        -PITCH_LIMIT <= rotate_spec(c, dx, dy).pitch <= PITCH_LIMIT,
{
    let p2 = clamp_pitch(c.pitch + dy * c.sensitivity);
    assert(-890 <= p2 <= 890);
}

/// The viewing direction of a well-formed camera is of unit length, up to
/// seven parts per million of the squared scale.
pub proof fn lemma_front_unit_length(c: Camera)
    requires
        c.wf(),
    ensures
        1_000_000_000_000 - 6_000_000 <= norm_sq(c.front) <= 1_000_000_000_000 + 7_000_000,
{
}

/// The right-hand direction of a well-formed camera is exactly orthogonal to
/// the world up, and orthogonal to the viewing direction up to a few
/// millionths of the squared scale.
pub proof fn lemma_right_orthogonal(c: Camera)
    requires
        c.wf(),
    ensures
        dot(c.right, c.up) == 0,
        -3_300_003 <= dot(c.right, c.front) <= 3_300_003,
{
    assert(dot(c.right, c.up) == 0) by (nonlinear_arith)
        requires
            dot(c.right, c.up) == c.right.x * c.up.x + c.right.y * c.up.y + c.right.z * c.up.z,
            c.right.y == 0,
            c.up.x == 0,
            c.up.z == 0;
}

/// A rotation by no counts leaves a camera whose basis agrees with its
/// angles exactly as it stands: yaw, pitch, front and right are unchanged.
pub proof fn lemma_rotate_zero_identity(c: Camera)
    requires
        c.wf(),
        c.oriented(),
    ensures
        rotate_spec(c, 0, 0) == c,
{
    assert(0 * c.sensitivity == 0) by (nonlinear_arith);
    assert(clamp_pitch(c.pitch + 0) == c.pitch);
    assert(rotate_spec(c, 0, 0).front == c.front);
    assert(rotate_spec(c, 0, 0).right == c.right);
}

/// Two full upward swings of a thousand counts saturate the pitch at the
/// upper clamp, and symmetrically downward at the lower clamp, from any
/// well-formed starting state.
pub proof fn lemma_pitch_saturates(c: Camera)
    requires
        c.wf(),
    ensures
        rotate_spec(rotate_spec(c, 0, 1000), 0, 1000).pitch == PITCH_LIMIT,
        rotate_spec(rotate_spec(c, 0, -1000), 0, -1000).pitch == -PITCH_LIMIT,
{
    assert(0 * c.sensitivity == 0 && 1000 * c.sensitivity == 1000 && (-1000) * c.sensitivity
        == -1000) by (nonlinear_arith)
        requires c.sensitivity == 1;
    let c1 = rotate_spec(c, 0, 1000);
    assert(c1.sensitivity == c.sensitivity && 110 <= c1.pitch <= 890);
    let d1 = rotate_spec(c, 0, -1000);
    assert(d1.sensitivity == c.sensitivity && -890 <= d1.pitch <= -110);
}

/// A strafe to the right and then a strafe to the left return the camera to
/// exactly the state it stood in: the two steps are taken along the same
/// right-hand direction and cancel, rounding included.
pub proof fn lemma_strafe_round_trip(c: Camera)
    requires
        c.wf(),
        -1_000_000_000_000 + 50_000 <= c.position.x <= 1_000_000_000_000 - 50_000,
        -1_000_000_000_000 + 50_000 <= c.position.y <= 1_000_000_000_000 - 50_000,
        -1_000_000_000_000 + 50_000 <= c.position.z <= 1_000_000_000_000 - 50_000,
    ensures
        ({
            let right_step = step_vec(c.right, SPEED as int);
            let c1 = with_position(c, vec_add(c.position, right_step));
            let c2 = with_position(c1, vec_sub(c1.position, step_vec(c1.right, SPEED as int)));
            c2 == c
        }),
{
    let s = step_vec(c.right, SPEED as int);
    lemma_step_in_bounds(c.right);
    let c1 = with_position(c, vec_add(c.position, s));
    assert(c1.right == c.right);
    assert(c1.position.x == c.position.x + s.x);
    let c2 = with_position(c1, vec_sub(c1.position, s));
    assert(c2.position.x == c.position.x && c2.position.y == c.position.y && c2.position.z
        == c.position.z);
    assert(c2.position == c.position);
}

/// The same cancellation for a forward move followed by a backward move:
/// both steps are taken along the same viewing direction.
pub proof fn lemma_walk_round_trip(c: Camera)
    requires
        c.wf(),
        -1_000_000_000_000 + 50_000 <= c.position.x <= 1_000_000_000_000 - 50_000,
        -1_000_000_000_000 + 50_000 <= c.position.y <= 1_000_000_000_000 - 50_000,
        -1_000_000_000_000 + 50_000 <= c.position.z <= 1_000_000_000_000 - 50_000,
    ensures
        ({
            let front_step = step_vec(c.front, SPEED as int);
            let c1 = with_position(c, vec_add(c.position, front_step));
            let c2 = with_position(c1, vec_sub(c1.position, step_vec(c1.front, SPEED as int)));
            c2 == c
        }),
{
    let s = step_vec(c.front, SPEED as int);
    lemma_step_in_bounds(c.front);
    let c1 = with_position(c, vec_add(c.position, s));
    let c2 = with_position(c1, vec_sub(c1.position, s));
    assert(c2.position == c.position);
}

/// A step along a unit direction covers at most one speed of raw counts on
/// each axis.
proof fn lemma_step_in_bounds(dir: Vec3)
    requires
        -1_000_000 <= dir.x <= 1_000_000,
        -1_000_000 <= dir.y <= 1_000_000,
        -1_000_000 <= dir.z <= 1_000_000,
    ensures
        -50_000 <= step_vec(dir, SPEED as int).x <= 50_000,
        -50_000 <= step_vec(dir, SPEED as int).y <= 50_000,
        -50_000 <= step_vec(dir, SPEED as int).z <= 50_000,
{
    lemma_step_coord(dir.x as int);
    lemma_step_coord(dir.y as int);
    lemma_step_coord(dir.z as int);
}

/// One coordinate of such a step.
proof fn lemma_step_coord(c: int)
    requires
        -1_000_000 <= c <= 1_000_000,
    ensures
        -50_000 <= (c * 50_000) / 1_000_000 <= 50_000,
{
    assert(-50_000_000_000 <= c * 50_000 <= 50_000_000_000) by (nonlinear_arith)
        requires -1_000_000 <= c <= 1_000_000;
    crate::fixed::lemma_div_bracket(c * 50_000, 1_000_000);
    assert(-50_000 <= (c * 50_000) / 1_000_000 <= 50_000) by (nonlinear_arith)
        requires
            1_000_000 * ((c * 50_000) / 1_000_000) <= c * 50_000 < 1_000_000 * ((c * 50_000)
                / 1_000_000) + 1_000_000,
            -50_000_000_000 <= c * 50_000 <= 50_000_000_000;
}

} // verus!
