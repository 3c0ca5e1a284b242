use flycam::camera::Camera;
use flycam::vec3::Vec3;
use flycam::SCALE;

/// The demo setup: eye three units behind the origin, looking at it,
/// in a 800 by 600 window.
fn demo_camera() -> Camera {
    Camera::new(
        Vec3 { x: 0, y: 0, z: 3 * SCALE },
        Vec3 { x: 0, y: 0, z: 0 },
        (800 * SCALE) / 600,
    )
}

#[test]
fn construction_defaults() {
    let c = demo_camera();
    assert_eq!(c.position, Vec3 { x: 0, y: 0, z: 3 * SCALE });
    assert_eq!(c.front, Vec3 { x: 0, y: 0, z: -SCALE });
    assert_eq!(c.right, Vec3 { x: SCALE, y: 0, z: 0 });
    assert_eq!(c.up, Vec3 { x: 0, y: SCALE, z: 0 });
    assert_eq!(c.yaw, -900);
    assert_eq!(c.pitch, 0);
    assert_eq!(c.speed, 50_000);
    assert_eq!(c.sensitivity, 1);
    assert_eq!(c.fov, 450);
    assert_eq!(c.aspect_ratio, 1_333_333);
    assert_eq!(c.near, 100_000);
    assert_eq!(c.far, 100_000_000);
}

#[test]
fn view_matrix_of_the_demo_pose() {
    // Looking down the negative z axis from (0, 0, 3): the rotation rows are
    // the identity basis and the translation moves the world three units
    // toward the viewer.
    let c = demo_camera();
    let m = c.view_matrix();
    assert_eq!(
        [m.m00, m.m01, m.m02, m.m03],
        [SCALE, 0, 0, 0],
    );
    assert_eq!(
        [m.m10, m.m11, m.m12, m.m13],
        [0, SCALE, 0, 0],
    );
    assert_eq!(
        [m.m20, m.m21, m.m22, m.m23],
        [0, 0, SCALE, -3 * SCALE],
    );
    assert_eq!(
        [m.m30, m.m31, m.m32, m.m33],
        [0, 0, 0, SCALE],
    );
}

#[test]
fn view_matrix_orthogonalizes_the_up_row() {
    // Tilted thirty degrees up: the second row of the look-at transform is
    // the recomputed camera up (the cross of right and front), not the world
    // up, and its translation projects the eye on that row.
    let mut c = demo_camera();
    c.rotate(0, 300);
    let m = c.view_matrix();
    assert_eq!([m.m00, m.m01, m.m02, m.m03], [SCALE, 0, 0, 0]);
    assert_eq!([m.m10, m.m11, m.m12, m.m13], [0, 865_735, 500_503, -1_501_509]);
    assert_eq!([m.m20, m.m21, m.m22, m.m23], [0, -500_503, 865_735, -2_597_205]);
    assert_eq!([m.m30, m.m31, m.m32, m.m33], [0, 0, 0, SCALE]);
}

#[test]
fn projection_matrix_of_the_demo_parameters() {
    let c = demo_camera();
    let m = c.projection_matrix();
    assert_eq!([m.m00, m.m01, m.m02, m.m03], [1_804_946, 0, 0, 0]);
    assert_eq!([m.m10, m.m11, m.m12, m.m13], [0, 2_406_595, 0, 0]);
    assert_eq!([m.m20, m.m21, m.m22, m.m23], [0, 0, -1_002_002, -200_200]);
    assert_eq!([m.m30, m.m31, m.m32, m.m33], [0, 0, -SCALE, 0]);
}

#[test]
fn moving_forward_decreases_z_by_exactly_one_speed() {
    let mut c = demo_camera();
    c.move_forward();
    assert_eq!(c.position.x, 0);
    assert_eq!(c.position.y, 0);
    assert_eq!(c.position.z, 3 * SCALE - 50_000);
}

#[test]
fn moving_back_and_forth_returns_home() {
    let mut c = demo_camera();
    c.move_forward();
    c.move_backward();
    assert_eq!(c.position, Vec3 { x: 0, y: 0, z: 3 * SCALE });
}

#[test]
fn strafing_right_then_left_returns_home() {
    let mut c = demo_camera();
    c.strafe_right();
    c.strafe_left();
    assert_eq!(c.position, Vec3 { x: 0, y: 0, z: 3 * SCALE });
}

#[test]
fn strafing_round_trip_survives_a_skew_heading() {
    let mut c = demo_camera();
    // A heading where every basis coordinate is rounded.
    c.rotate(123, 47);
    let home = c.position;
    c.strafe_right();
    c.strafe_left();
    assert_eq!(c.position, home);
    c.move_forward();
    c.move_backward();
    assert_eq!(c.position, home);
}

#[test]
fn rotation_by_nothing_changes_nothing() {
    let mut c = demo_camera();
    c.rotate(123, 47);
    let yaw = c.yaw;
    let pitch = c.pitch;
    let front = c.front;
    let right = c.right;
    c.rotate(0, 0);
    assert_eq!(c.yaw, yaw);
    assert_eq!(c.pitch, pitch);
    assert_eq!(c.front, front);
    assert_eq!(c.right, right);
}

#[test]
fn pitch_saturates_at_89_degrees() {
    let mut c = demo_camera();
    c.rotate(0, 1000);
    c.rotate(0, 1000);
    assert_eq!(c.pitch, 890);
    let mut c = demo_camera();
    c.rotate(0, -1000);
    c.rotate(0, -1000);
    assert_eq!(c.pitch, -890);
}

#[test]
fn pitch_stays_clamped_through_any_sequence() {
    let mut c = demo_camera();
    for (dx, dy) in [
        (0, 2_000_000),
        (40_000, -4_000_000),
        (-313, 777),
        (99, -99),
        (7200, 890),
        (-7200, -890),
    ] {
        c.rotate(dx, dy);
        assert!(c.pitch >= -890, "pitch {} below the clamp", c.pitch);
        assert!(c.pitch <= 890, "pitch {} above the clamp", c.pitch);
    }
}

#[test]
fn front_stays_unit_length_after_rotations() {
    let mut c = demo_camera();
    let unit = SCALE * SCALE;
    for (dx, dy) in [(0, 0), (450, 0), (0, 889), (12_345, -2_000), (-1, 1), (100_000, 100_000)] {
        c.rotate(dx, dy);
        let f = c.front;
        let n = f.x * f.x + f.y * f.y + f.z * f.z;
        assert!(n >= unit - 6_000_000, "front norm too short: {n}");
        assert!(n <= unit + 7_000_000, "front norm too long: {n}");
    }
}

#[test]
fn right_stays_orthogonal_after_rotations() {
    let mut c = demo_camera();
    for (dx, dy) in [(0, 0), (450, 0), (0, 889), (12_345, -2_000), (-1, 1)] {
        c.rotate(dx, dy);
        // Exactly horizontal, so exactly orthogonal to the world up.
        assert_eq!(c.right.y, 0);
        let d = c.right.x * c.front.x + c.right.y * c.front.y + c.right.z * c.front.z;
        assert!(d.abs() <= 3_300_003, "right not orthogonal to front: {d}");
    }
}

#[test]
fn yaw_accumulates_without_wrapping() {
    let mut c = demo_camera();
    c.rotate(100, 0);
    assert_eq!(c.yaw, -800);
    c.rotate(7200, 0);
    assert_eq!(c.yaw, 6400);
}

#[test]
fn a_full_turn_of_yaw_restores_the_heading() {
    let mut c = demo_camera();
    c.rotate(17, 5);
    let front = c.front;
    let right = c.right;
    let yaw = c.yaw;
    c.rotate(3600, 0);
    assert_eq!(c.yaw, yaw + 3600);
    assert_eq!(c.front, front);
    assert_eq!(c.right, right);
}

#[test]
fn turning_to_look_along_x_is_exact() {
    let mut c = demo_camera();
    // From yaw -900 to yaw 0: the heading swings to the positive x axis.
    c.rotate(900, 0);
    assert_eq!(c.yaw, 0);
    assert_eq!(c.front, Vec3 { x: SCALE, y: 0, z: 0 });
    assert_eq!(c.right, Vec3 { x: 0, y: 0, z: SCALE });
}

#[test]
fn construction_toward_positive_x_is_exact() {
    let c = Camera::new(
        Vec3 { x: 0, y: 0, z: 3 * SCALE },
        Vec3 { x: SCALE, y: 0, z: 3 * SCALE },
        1_333_333,
    );
    assert_eq!(c.front, Vec3 { x: SCALE, y: 0, z: 0 });
    assert_eq!(c.right, Vec3 { x: 0, y: 0, z: SCALE });
    assert_eq!(c.yaw, -900);
    assert_eq!(c.pitch, 0);
}

#[test]
fn first_rotation_snaps_to_the_initial_angles() {
    // Construction takes the basis from the target but leaves the angles at
    // their fixed initial values; the first rotation, however small, rebuilds
    // the basis from the angles and snaps the heading back to the negative
    // z axis.
    let mut c = Camera::new(
        Vec3 { x: 0, y: 0, z: 3 * SCALE },
        Vec3 { x: SCALE, y: 0, z: 3 * SCALE },
        1_333_333,
    );
    assert_eq!(c.front, Vec3 { x: SCALE, y: 0, z: 0 });
    c.rotate(0, 0);
    assert_eq!(c.front, Vec3 { x: 0, y: 0, z: -SCALE });
    assert_eq!(c.right, Vec3 { x: SCALE, y: 0, z: 0 });
}

#[test]
fn a_skew_rotation_lands_on_its_exact_basis() {
    // From the default heading, half a quarter turn left and thirty degrees
    // up: every coordinate of the rebuilt basis is pinned by the fixed-point
    // arithmetic, down to the last count.
    let mut c = demo_camera();
    c.rotate(450, 300);
    assert_eq!(c.yaw, -450);
    assert_eq!(c.pitch, 300);
    assert_eq!(c.front, Vec3 { x: 611_900, y: 501_154, z: -611_902 });
    assert_eq!(c.right, Vec3 { x: 707_107, y: 0, z: 707_105 });
}
