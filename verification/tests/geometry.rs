//! Tests of the fixed-point geometry and of intent resolution.

use tank_sim::input::{
    apply_radial_deadzone, normalize_trigger, pick_axis, GamepadSample, InputDevice,
    InputState, KeyboardSample,
};
use tank_sim::math::{
    angle_difference, clamp_i64, isqrt, mul_div, point_in_bounds, push_outside_rect,
    rect_contains, rotate_towards, signed_angle_delta, sin_milli, timer_sub, urad_to_millideg,
    vec2, vec2_angle, vec2_distance, vec2_from_angle, vec2_length, vec2_normalize, within,
    wrap_angle, Rect, FULL_TURN, HALF_TURN, QUARTER_TURN,
};

#[test]
fn isqrt_exact_values() {
    assert_eq!(isqrt(0), 0);
    assert_eq!(isqrt(1), 1);
    assert_eq!(isqrt(3), 1);
    assert_eq!(isqrt(4), 2);
    assert_eq!(isqrt(999_999), 999);
    assert_eq!(isqrt(1_000_000), 1000);
    assert_eq!(isqrt(i64::MAX), 3_037_000_499);
}

#[test]
fn mul_div_truncates_toward_zero() {
    assert_eq!(mul_div(7, 1, 2), 3);
    assert_eq!(mul_div(-7, 1, 2), -3);
    assert_eq!(mul_div(-7, 3, 2), -10);
    assert_eq!(mul_div(1_100_000, 100, 120), 916_666);
}

#[test]
fn timers_clamp_at_zero() {
    assert_eq!(timer_sub(100, 30), 70);
    assert_eq!(timer_sub(100, 100), 0);
    assert_eq!(timer_sub(100, 300), 0);
    assert_eq!(clamp_i64(5, 0, 3), 3);
    assert_eq!(clamp_i64(-5, 0, 3), 0);
}

#[test]
fn distance_of_three_four_five_triangle() {
    let a = vec2(0, 0);
    let b = vec2(300_000, 400_000);
    assert_eq!(vec2_distance(a, b), 500_000);
    assert_eq!(vec2_length(b), 500_000);
    assert!(within(a, b, 500_001));
    assert!(!within(a, b, 500_000));
}

#[test]
fn wrap_angle_covers_negatives() {
    assert_eq!(wrap_angle(0), 0);
    assert_eq!(wrap_angle(FULL_TURN), 0);
    assert_eq!(wrap_angle(FULL_TURN + 5), 5);
    assert_eq!(wrap_angle(-1), FULL_TURN - 1);
    assert_eq!(wrap_angle(-FULL_TURN), 0);
}

#[test]
fn angle_difference_wraps_shortest_way() {
    assert_eq!(angle_difference(0, HALF_TURN / 2), HALF_TURN / 2);
    assert_eq!(angle_difference(FULL_TURN - 100, 100), 200);
    assert_eq!(signed_angle_delta(100, FULL_TURN - 100), -200);
}

#[test]
fn rotate_towards_reaches_and_clamps() {
    // Within reach: land exactly on the target.
    assert_eq!(rotate_towards(0, 1000, 2000), 1000);
    // Out of reach: step by the maximum toward the target.
    assert_eq!(rotate_towards(0, 10_000, 2000), 2000);
    // Shortest way across the wrap.
    assert_eq!(rotate_towards(100, FULL_TURN - 100, 50), 50);
}

#[test]
fn sine_hits_quarter_turn_exactly() {
    assert_eq!(sin_milli(0), 0);
    assert_eq!(sin_milli(QUARTER_TURN), 1000);
    assert_eq!(sin_milli(HALF_TURN), 0);
    assert!(sin_milli(HALF_TURN + QUARTER_TURN) <= -990);
    let d = vec2_from_angle(0);
    assert_eq!(d.x, 1000);
    assert_eq!(d.y, 0);
}

#[test]
fn polar_angle_of_axes() {
    assert_eq!(vec2_angle(vec2(1000, 0)), 0);
    let up = vec2_angle(vec2(0, 1000));
    assert!((up - QUARTER_TURN).abs() < 2000);
    let left = vec2_angle(vec2(-1000, 0));
    assert!((left - HALF_TURN).abs() < 2000);
    assert_eq!(vec2_angle(vec2(0, 0)), 0);
}

#[test]
fn millidegrees_of_half_turn() {
    assert_eq!(urad_to_millideg(0), 0);
    assert_eq!(urad_to_millideg(HALF_TURN), 180_000);
    assert_eq!(urad_to_millideg(QUARTER_TURN), 90_000);
}

#[test]
fn normalize_keeps_direction() {
    let v = vec2_normalize(vec2(300, 400));
    assert_eq!(v, vec2(600, 800));
    let z = vec2_normalize(vec2(0, 0));
    assert_eq!(z, vec2(0, 0));
    let n = vec2_normalize(vec2(-5_000_000, 0));
    assert_eq!(n, vec2(-1000, 0));
}

#[test]
fn rect_containment_is_boundary_inclusive() {
    let r = Rect { x: 0, y: 0, w: 100, h: 50 };
    assert!(rect_contains(&r, vec2(0, 0)));
    assert!(rect_contains(&r, vec2(100, 50)));
    assert!(!rect_contains(&r, vec2(101, 50)));
    assert!(point_in_bounds(vec2(50, 25), &r));
}

#[test]
fn push_outside_rect_exits_nearest_edge() {
    let r = Rect { x: 0, y: 0, w: 1000, h: 1000 };
    // Outside points are unmoved.
    assert_eq!(push_outside_rect(vec2(-5, 500), r, 10), vec2(-5, 500));
    // A point near the left edge leaves through it, margin included.
    let pushed = push_outside_rect(vec2(100, 500), r, 10);
    assert_eq!(pushed, vec2(-10, 500));
    // A point near the bottom edge leaves downward.
    let down = push_outside_rect(vec2(500, 900), r, 10);
    assert_eq!(down, vec2(500, 1010));
    // The result is outside the rectangle.
    assert!(!rect_contains(&r, pushed));
}

#[test]
fn pick_axis_prefers_last_device() {
    assert_eq!(pick_axis(InputDevice::KeyboardMouse, 500, -500), 500);
    assert_eq!(pick_axis(InputDevice::KeyboardMouse, 0, -500), -500);
    assert_eq!(pick_axis(InputDevice::Gamepad, 500, -500), -500);
    assert_eq!(pick_axis(InputDevice::Gamepad, 500, 0), 500);
}

#[test]
fn start_pressed_tracks_devices() {
    let mut st = InputState::new();
    assert_eq!(st.last_device(), InputDevice::KeyboardMouse);
    assert!(!st.gamepad_available());
    assert!(st.start_pressed(false, true, false));
    // A gamepad press counts only while a gamepad is connected.
    assert!(!st.start_pressed(false, false, true));
    assert!(st.start_pressed(true, false, true));
    assert_eq!(st.last_device(), InputDevice::Gamepad);
    assert!(st.gamepad_available());
}

#[test]
fn player_input_arbitration() {
    let mut st = InputState::new();
    let kb = KeyboardSample { turn: 1000, movement: -1000, wants_fire: false, active: true };
    let gp = GamepadSample {
        turn: 0,
        movement: 0,
        aim_dir: None,
        wants_fire: false,
        active: false,
    };
    let intent = st.player_input(true, kb, gp);
    assert_eq!(intent.turn, 1000);
    assert_eq!(intent.movement, -1000);
    assert!(intent.use_mouse_aim);
    assert!(intent.aim_dir.is_none());

    let kb_idle = KeyboardSample { turn: 0, movement: 0, wants_fire: false, active: false };
    let gp_live = GamepadSample {
        turn: -300,
        movement: 700,
        aim_dir: Some(vec2(1000, 0)),
        wants_fire: true,
        active: true,
    };
    let intent2 = st.player_input(true, kb_idle, gp_live);
    assert_eq!(intent2.turn, -300);
    assert_eq!(intent2.movement, 700);
    assert!(!intent2.use_mouse_aim);
    assert_eq!(intent2.aim_dir, Some(vec2(1000, 0)));
    assert!(intent2.wants_fire);
}

#[test]
fn radial_deadzone_zeroes_small_sticks() {
    assert_eq!(apply_radial_deadzone(vec2(100, 100), 200), vec2(0, 0));
    let big = apply_radial_deadzone(vec2(1000, 0), 200);
    assert_eq!(big, vec2(1000, 0));
}

#[test]
fn trigger_normalization() {
    assert_eq!(normalize_trigger(-1000), 0);
    assert_eq!(normalize_trigger(0), 0);
    assert_eq!(normalize_trigger(500), 500);
    assert_eq!(normalize_trigger(1500), 1000);
}
