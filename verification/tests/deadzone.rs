use gamepad_host::deadzone::{apply_deadzone, radial_deadzone, rumble_level};
use gamepad_host::gamepad::GamepadReport;

#[test]
fn stick_inside_the_radius_is_zero() {
    assert_eq!(radial_deadzone(7848, 0, 7849), (0, 0));
    assert_eq!(radial_deadzone(-5000, 5000, 7849), (0, 0));
}

#[test]
fn stick_on_or_outside_the_radius_is_kept() {
    assert_eq!(radial_deadzone(7849, 0, 7849), (7849, 0));
    assert_eq!(radial_deadzone(0, -7849, 7849), (0, -7849));
    assert_eq!(radial_deadzone(6000, 6000, 7849), (6000, 6000));
    assert_eq!(radial_deadzone(-32768, -32768, 32767), (-32768, -32768));
}

#[test]
fn radius_of_zero_keeps_everything() {
    assert_eq!(radial_deadzone(0, 0, 0), (0, 0));
    assert_eq!(radial_deadzone(1, -1, 0), (1, -1));
}

#[test]
fn each_stick_has_its_own_radius() {
    let raw = GamepadReport {
        left_stick_x: 8000,
        right_stick_x: 8000,
        ..GamepadReport::default()
    };
    let clean = apply_deadzone(raw);
    assert_eq!(clean.left_stick_x, 8000);
    assert_eq!(clean.right_stick_x, 0);
}

#[test]
fn triggers_have_a_threshold() {
    let raw = GamepadReport {
        left_trigger: 29,
        right_trigger: 30,
        ..GamepadReport::default()
    };
    let clean = apply_deadzone(raw);
    assert_eq!(clean.left_trigger, 0);
    assert_eq!(clean.right_trigger, 30);
}

#[test]
fn cleaning_keeps_the_buttons() {
    let raw = GamepadReport {
        a: true,
        guide: true,
        dpad_left: true,
        left_stick_y: 100,
        ..GamepadReport::default()
    };
    let expected = GamepadReport {
        a: true,
        guide: true,
        dpad_left: true,
        ..GamepadReport::default()
    };
    assert_eq!(apply_deadzone(raw), expected);
}

#[test]
fn cleaning_twice_is_cleaning_once() {
    let raw = GamepadReport {
        left_stick_x: 5000,
        left_stick_y: -7000,
        right_stick_x: 10,
        left_trigger: 200,
        right_trigger: 3,
        ..GamepadReport::default()
    };
    let clean = apply_deadzone(raw);
    assert_eq!(apply_deadzone(clean), clean);
    assert_eq!(clean.left_stick_x, 5000);
    assert_eq!(clean.left_stick_y, -7000);
}

#[test]
fn jitter_disappears() {
    let trembling = GamepadReport {
        left_stick_x: -300,
        left_stick_y: 512,
        right_stick_x: 77,
        left_trigger: 2,
        ..GamepadReport::default()
    };
    assert_eq!(apply_deadzone(trembling), GamepadReport::default());
}

#[test]
fn rumble_comes_in_steps() {
    assert_eq!(rumble_level(0), 0);
    assert_eq!(rumble_level(15), 0);
    assert_eq!(rumble_level(16), 16);
    assert_eq!(rumble_level(100), 96);
    assert_eq!(rumble_level(239), 224);
}

#[test]
fn rumble_is_full_on_the_last_step() {
    assert_eq!(rumble_level(240), 255);
    assert_eq!(rumble_level(255), 255);
}

#[test]
fn rumble_never_falls_and_has_sixteen_values() {
    let mut seen: Vec<u8> = Vec::new();
    for trigger in 0..=255u8 {
        let level = rumble_level(trigger);
        if seen.last() != Some(&level) {
            assert!(seen.iter().all(|s| *s < level));
            seen.push(level);
        }
        assert_eq!(rumble_level(level), level);
    }
    assert_eq!(seen.len(), 16);
}
