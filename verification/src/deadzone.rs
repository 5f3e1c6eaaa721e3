//! Cleaning up what a controller at rest reports, and coarse steps for what is sent back.

use crate::gamepad::GamepadReport;
use vstd::prelude::*;

verus! {

/// Radius within which the left stick counts as untouched.
pub const LEFT_STICK_DEADZONE: i16 = 7849;

/// Radius within which the right stick counts as untouched.
pub const RIGHT_STICK_DEADZONE: i16 = 8689;

/// Value below which a trigger counts as untouched.
pub const TRIGGER_THRESHOLD: u8 = 30;

/// Step between two rumble strengths.
///
/// A trigger is continuous; without steps one pull would send a hundred packets.
pub const RUMBLE_STEP: u8 = 16;

/// A stick position with a round dead zone in the middle: closer than `deadzone` it is
/// zero on both axes, else it is left as it is.
pub open spec fn outside_radius(x: i16, y: i16, deadzone: i16) -> (i16, i16) {
    if x * x + y * y < deadzone * deadzone {
        (0, 0)
    } else {
        (x, y)
    }
}

/// A trigger value, zero below the threshold.
pub open spec fn above_threshold(v: u8) -> u8 {
    if v < TRIGGER_THRESHOLD {
        0
    } else {
        v
    }
}

/// A report without the jitter of sticks and triggers at rest.
#[verifier::opaque]
pub open spec fn settled(r: GamepadReport) -> GamepadReport {
    let left = outside_radius(r.left_stick_x, r.left_stick_y, LEFT_STICK_DEADZONE);
    let right = outside_radius(r.right_stick_x, r.right_stick_y, RIGHT_STICK_DEADZONE);
    GamepadReport {
        left_stick_x: left.0,
        left_stick_y: left.1,
        right_stick_x: right.0,
        right_stick_y: right.1,
        left_trigger: above_threshold(r.left_trigger),
        right_trigger: above_threshold(r.right_trigger),
        ..r
    }
}

/// The rumble strength for a trigger value: the step it lies on, or full strength on the
/// last step.
pub open spec fn rumble(trigger: u8) -> u8 {
    if trigger >= 240 {
        255
    } else {
        (trigger - trigger % 16) as u8
    }
}

/// Sets a stick position to zero where it is closer to the middle than `deadzone`.
pub fn radial_deadzone(x: i16, y: i16, deadzone: i16) -> (r: (i16, i16))
    ensures
        r == outside_radius(x, y, deadzone),
{
    let x2: i64 = x as i64;
    let y2: i64 = y as i64;
    let dz: i64 = deadzone as i64;
    proof {
        lemma_square_range(x);
        lemma_square_range(y);
        lemma_square_range(deadzone);
    }
    if x2 * x2 + y2 * y2 < dz * dz {
        (0, 0)
    } else {
        (x, y)
    }
}

proof fn lemma_square_range(v: i16)
    ensures
        0 <= v * v <= 1073741824,
{
    assert(0 <= v * v <= 1073741824) by (nonlinear_arith)
        requires
            -32768 <= v <= 32767,
    ;
}

/// Takes the jitter of sticks and triggers at rest out of a report.
pub fn apply_deadzone(r: GamepadReport) -> (s: GamepadReport)
    ensures
        s == settled(r),
        (s.left_stick_x, s.left_stick_y) == outside_radius(
            r.left_stick_x,
            r.left_stick_y,
            LEFT_STICK_DEADZONE,
        ),
        (s.right_stick_x, s.right_stick_y) == outside_radius(
            r.right_stick_x,
            r.right_stick_y,
            RIGHT_STICK_DEADZONE,
        ),
        s.left_trigger == above_threshold(r.left_trigger),
        s.right_trigger == above_threshold(r.right_trigger),
        s == (GamepadReport {
            left_stick_x: s.left_stick_x,
            left_stick_y: s.left_stick_y,
            right_stick_x: s.right_stick_x,
            right_stick_y: s.right_stick_y,
            left_trigger: s.left_trigger,
            right_trigger: s.right_trigger,
            ..r
        }),
{
    reveal(settled);
    let (left_stick_x, left_stick_y) = radial_deadzone(
        r.left_stick_x,
        r.left_stick_y,
        LEFT_STICK_DEADZONE,
    );
    let (right_stick_x, right_stick_y) = radial_deadzone(
        r.right_stick_x,
        r.right_stick_y,
        RIGHT_STICK_DEADZONE,
    );
    let left_trigger: u8 = if r.left_trigger < TRIGGER_THRESHOLD {
        0
    } else {
        r.left_trigger
    };
    let right_trigger: u8 = if r.right_trigger < TRIGGER_THRESHOLD {
        0
    } else {
        r.right_trigger
    };
    GamepadReport {
        left_stick_x,
        left_stick_y,
        right_stick_x,
        right_stick_y,
        left_trigger,
        right_trigger,
        ..r
    }
}

/// The rumble strength for a trigger value, in steps of [`RUMBLE_STEP`].
pub fn rumble_level(trigger: u8) -> (r: u8)
    ensures
        r == rumble(trigger),
{
    // A trigger that is pulled all the way gives full strength, not 240.
    if trigger > 255 - RUMBLE_STEP {
        255
    } else {
        trigger / RUMBLE_STEP * RUMBLE_STEP
    }
}

// ── Laws ─────────────────────────────────────────────────────────────────────

/// A stick comes out either untouched or in the middle, and a second pass changes nothing.
pub proof fn lemma_radius_is_idempotent(x: i16, y: i16, deadzone: i16)
    ensures
        ({
            let (a, b) = outside_radius(x, y, deadzone);
            &&& (a, b) == (x, y) || (a, b) == (0i16, 0i16)
            &&& outside_radius(a, b, deadzone) == (a, b)
        }),
{
}

/// Cleaning a clean report changes nothing.
pub proof fn lemma_settled_is_idempotent(r: GamepadReport)
    ensures
        settled(settled(r)) == settled(r),
{
    reveal(settled);
    lemma_radius_is_idempotent(r.left_stick_x, r.left_stick_y, LEFT_STICK_DEADZONE);
    lemma_radius_is_idempotent(r.right_stick_x, r.right_stick_y, RIGHT_STICK_DEADZONE);
}

/// Sticks within their radius and triggers below the threshold, however they tremble, give
/// the same report.
pub proof fn lemma_jitter_is_removed(r: GamepadReport, s: GamepadReport)
    requires
        r.left_stick_x * r.left_stick_x + r.left_stick_y * r.left_stick_y < 7849 * 7849,
        s.left_stick_x * s.left_stick_x + s.left_stick_y * s.left_stick_y < 7849 * 7849,
        r.right_stick_x * r.right_stick_x + r.right_stick_y * r.right_stick_y < 8689 * 8689,
        s.right_stick_x * s.right_stick_x + s.right_stick_y * s.right_stick_y < 8689 * 8689,
        r.left_trigger < 30 && s.left_trigger < 30,
        r.right_trigger < 30 && s.right_trigger < 30,
        s == (GamepadReport {
            left_stick_x: s.left_stick_x,
            left_stick_y: s.left_stick_y,
            right_stick_x: s.right_stick_x,
            right_stick_y: s.right_stick_y,
            left_trigger: s.left_trigger,
            right_trigger: s.right_trigger,
            ..r
        }),
    ensures
        settled(r) == settled(s),
{
    reveal(settled);
}

/// A report without anything in it stays as it is.
pub proof fn lemma_idle_is_settled()
    ensures
        settled(crate::gamepad::idle_report()) == crate::gamepad::idle_report(),
{
    reveal(settled);
    assert(0int * 0int == 0) by (nonlinear_arith);
}

/// Buttons pass through unchanged.
pub proof fn lemma_buttons_are_kept(r: GamepadReport)
    ensures
        settled(r).named_buttons() == r.named_buttons(),
{
    reveal(settled);
}

/// Rumble strength never falls while the trigger is pulled further, runs from nothing to
/// full strength, and takes no more than sixteen values.
pub proof fn lemma_rumble(t: u8, u: u8)
    ensures
        t <= u ==> rumble(t) <= rumble(u),
        rumble(0) == 0,
        rumble(255) == 255,
        rumble(t) == 255 || rumble(t) % 16 == 0 && rumble(t) <= 224,
        rumble(rumble(t)) == rumble(t),
{
}

/// A stick is set to the middle exactly when its distance from it is less than the radius;
/// at the radius and beyond it comes out unchanged on both axes, whatever its direction.
pub proof fn lemma_only_the_distance_counts(x: i16, y: i16, deadzone: i16)
    ensures
        x * x + y * y >= deadzone * deadzone ==> outside_radius(x, y, deadzone) == (x, y),
        x * x + y * y < deadzone * deadzone ==> outside_radius(x, y, deadzone) == (0i16, 0i16),
{
}

/// Two stick positions equally far from the middle are both kept or both set to it.
pub proof fn lemma_equal_distances_fare_alike(x: i16, y: i16, z: i16, w: i16, deadzone: i16)
    requires
        x * x + y * y == z * z + w * w,
    ensures
        outside_radius(x, y, deadzone) == (x, y) <==> outside_radius(z, w, deadzone) == (z, w),
{
    assert(x * x + y * y == 0 ==> x == 0 && y == 0) by (nonlinear_arith);
    assert(z * z + w * w == 0 ==> z == 0 && w == 0) by (nonlinear_arith);
    assert(x == 0 && y == 0 ==> x * x + y * y == 0) by (nonlinear_arith);
    assert(z == 0 && w == 0 ==> z * z + w * w == 0) by (nonlinear_arith);
}

/// The left stick is kept from a distance of 7849 on and the right one from 8689 on, each
/// on its own, the triggers from 30 on; below that they are zero.
pub proof fn lemma_what_is_kept(r: GamepadReport)
    ensures
        ({
            let s = settled(r);
            let left = r.left_stick_x * r.left_stick_x + r.left_stick_y * r.left_stick_y;
            let right = r.right_stick_x * r.right_stick_x + r.right_stick_y * r.right_stick_y;
            &&& left >= 7849 * 7849 ==> s.left_stick_x == r.left_stick_x && s.left_stick_y
                == r.left_stick_y
            &&& left < 7849 * 7849 ==> s.left_stick_x == 0 && s.left_stick_y == 0
            &&& right >= 8689 * 8689 ==> s.right_stick_x == r.right_stick_x && s.right_stick_y
                == r.right_stick_y
            &&& right < 8689 * 8689 ==> s.right_stick_x == 0 && s.right_stick_y == 0
            &&& s.left_trigger == r.left_trigger || s.left_trigger == 0 && r.left_trigger < 30
            &&& s.right_trigger == r.right_trigger || s.right_trigger == 0 && r.right_trigger < 30
            &&& r.left_trigger < 30 ==> s.left_trigger == 0
            &&& r.right_trigger < 30 ==> s.right_trigger == 0
        }),
{
    reveal(settled);
    assert(7849i16 * 7849i16 == 61606801) by (nonlinear_arith);
    assert(8689i16 * 8689i16 == 75498721) by (nonlinear_arith);
}

/// No button is touched.
pub proof fn lemma_every_button_is_kept(r: GamepadReport)
    ensures
        ({
            let s = settled(r);
            &&& s.dpad_up == r.dpad_up && s.dpad_down == r.dpad_down
            &&& s.dpad_left == r.dpad_left && s.dpad_right == r.dpad_right
            &&& s.a == r.a && s.b == r.b && s.x == r.x && s.y == r.y
            &&& s.left_bumper == r.left_bumper && s.right_bumper == r.right_bumper
            &&& s.left_stick_press == r.left_stick_press
            &&& s.right_stick_press == r.right_stick_press
            &&& s.start == r.start && s.back == r.back && s.guide == r.guide
        }),
{
    reveal(settled);
}

/// The rumble strength is the largest multiple of 16 that the trigger reaches; from 240 on
/// it is full.
pub proof fn lemma_rumble_is_the_step_below(t: u8)
    ensures
        t < 240 ==> rumble(t) % 16 == 0 && rumble(t) <= t < rumble(t) + 16,
        t >= 240 ==> rumble(t) == 255,
{
}

/// Two trigger values give the same rumble strength exactly when they lie between the same
/// multiples of 16.
pub proof fn lemma_rumble_steps(t: u8, u: u8)
    ensures
        rumble(t) == rumble(u) <==> t / 16 == u / 16,
{
}

} // verus!
