use gamepad_host::color::{axis_to_level, hsv_to_rgb, stick_hue, stick_magnitude, sticks_to_rgb};
use gamepad_host::gamepad::GamepadReport;

fn sticks(left_x: i16, left_y: i16, right_y: i16) -> GamepadReport {
    GamepadReport {
        left_stick_x: left_x,
        left_stick_y: left_y,
        right_stick_y: right_y,
        ..GamepadReport::default()
    }
}

#[test]
fn hue_of_the_main_directions() {
    for a in [1i16, 100, 32767] {
        assert_eq!(stick_hue(a, 0), 0);
        assert_eq!(stick_hue(0, a), 384);
        assert_eq!(stick_hue(-a, 0), 768);
        assert_eq!(stick_hue(0, -a), 1152);
    }
    assert_eq!(stick_hue(0, 0), 0);
}

#[test]
fn hue_of_the_diagonals() {
    assert_eq!(stick_hue(1, 1), 192);
    assert_eq!(stick_hue(-1, 1), 576);
    assert_eq!(stick_hue(-1, -1), 960);
    assert_eq!(stick_hue(1, -1), 1344);
    assert_eq!(stick_hue(-32768, -32768), 960);
}

#[test]
fn hue_between_the_directions() {
    assert_eq!(stick_hue(10, 30), 288);
    assert_eq!(stick_hue(12345, -6789), 1400);
}

#[test]
fn hue_just_below_the_right_wraps_to_zero() {
    assert_eq!(stick_hue(32767, -1), 0);
}

#[test]
fn hue_of_the_opposite_direction() {
    for (x, y) in [(10i16, 30i16), (300, -7), (-5000, 20000), (32767, -1)] {
        assert_eq!(stick_hue(-x, -y), (stick_hue(x, y) + 768) % 1536);
    }
}

#[test]
fn hue_does_not_depend_on_the_distance() {
    for (x, y) in [(10i16, 30i16), (-17, 5), (3, -80)] {
        assert_eq!(stick_hue(x * 100, y * 100), stick_hue(x, y));
    }
}

#[test]
fn hue_follows_the_stick_round() {
    let upper = [(100i16, 0i16), (90, 10), (50, 50), (10, 90), (0, 100), (-10, 90), (-90, 10), (-100, 0)];
    for pair in upper.windows(2) {
        assert!(stick_hue(pair[0].0, pair[0].1) < stick_hue(pair[1].0, pair[1].1));
    }
}

#[test]
fn hue_is_close_to_the_angle() {
    for degrees in 0..360 {
        let angle = (degrees as f64).to_radians();
        let x = (angle.cos() * 32000.0) as i16;
        let y = (angle.sin() * 32000.0) as i16;
        let hue = stick_hue(x, y);
        assert!(hue < 1536);
        let mut off = hue as f64 * 360.0 / 1536.0 - degrees as f64;
        if off < -180.0 {
            off += 360.0;
        }
        assert!(off.abs() <= 4.5, "{} degrees off at {}", off, degrees);
    }
}

#[test]
fn magnitude_values() {
    assert_eq!(stick_magnitude(0, 0), 0);
    assert_eq!(stick_magnitude(3, 4), 0);
    assert_eq!(stick_magnitude(128, 0), 0);
    assert_eq!(stick_magnitude(129, 0), 1);
    assert_eq!(stick_magnitude(20000, 0), 155);
    assert_eq!(stick_magnitude(12000, -9000), 116);
    assert_eq!(stick_magnitude(16384, 16384), 180);
}

#[test]
fn magnitude_is_full_at_the_edge() {
    assert_eq!(stick_magnitude(32767, 0), 255);
    assert_eq!(stick_magnitude(0, -32768), 255);
    assert_eq!(stick_magnitude(-32768, -32768), 255);
}

#[test]
fn slider_values() {
    assert_eq!(axis_to_level(-32768), 0);
    assert_eq!(axis_to_level(-1), 127);
    assert_eq!(axis_to_level(0), 127);
    assert_eq!(axis_to_level(1), 127);
    assert_eq!(axis_to_level(12345), 175);
    assert_eq!(axis_to_level(32767), 255);
}

#[test]
fn slider_never_goes_back() {
    let mut last = 0;
    for v in i16::MIN..=i16::MAX {
        let level = axis_to_level(v);
        assert!(level >= last);
        last = level;
    }
}

#[test]
fn pure_colours_of_the_sectors() {
    assert_eq!(hsv_to_rgb(0, 255, 255), (255, 0, 0));
    assert_eq!(hsv_to_rgb(256, 255, 255), (255, 255, 0));
    assert_eq!(hsv_to_rgb(512, 255, 255), (0, 255, 0));
    assert_eq!(hsv_to_rgb(768, 255, 255), (0, 255, 255));
    assert_eq!(hsv_to_rgb(1024, 255, 255), (0, 0, 255));
    assert_eq!(hsv_to_rgb(1280, 255, 255), (255, 0, 255));
    assert_eq!(hsv_to_rgb(1535, 255, 255), (255, 0, 0));
}

#[test]
fn mixed_colours() {
    assert_eq!(hsv_to_rgb(384, 255, 255), (127, 255, 0));
    assert_eq!(hsv_to_rgb(1152, 255, 255), (128, 0, 255));
    assert_eq!(hsv_to_rgb(100, 128, 200), (200, 139, 99));
    assert_eq!(hsv_to_rgb(700, 33, 77), (67, 77, 74));
    assert_eq!(hsv_to_rgb(5000, 10, 250), (245, 250, 240));
}

#[test]
fn no_saturation_is_white() {
    for h in [0u16, 300, 777, 1535] {
        assert_eq!(hsv_to_rgb(h, 0, 99), (99, 99, 99));
    }
}

#[test]
fn no_brightness_is_off() {
    for h in [0u16, 300, 777, 1535] {
        assert_eq!(hsv_to_rgb(h, 200, 0), (0, 0, 0));
    }
}

#[test]
fn full_saturation_leaves_one_channel_off() {
    for h in 0..1536 {
        let (r, g, b) = hsv_to_rgb(h, 255, 200);
        assert!(r == 0 || g == 0 || b == 0);
        assert!(r == 200 || g == 200 || b == 200);
    }
}

#[test]
fn sticks_at_rest_give_half_white() {
    assert_eq!(sticks_to_rgb(&GamepadReport::default()), (127, 127, 127));
}

#[test]
fn sticks_pick_hue_saturation_and_brightness() {
    assert_eq!(sticks_to_rgb(&sticks(32767, 0, 32767)), (255, 0, 0));
    assert_eq!(sticks_to_rgb(&sticks(0, 32767, 0)), (63, 127, 0));
    assert_eq!(sticks_to_rgb(&sticks(-32768, 0, 32767)), (0, 255, 255));
    assert_eq!(sticks_to_rgb(&sticks(0, -32768, 32767)), (128, 0, 255));
    assert_eq!(sticks_to_rgb(&sticks(12000, -9000, 5000)), (146, 79, 122));
    assert_eq!(sticks_to_rgb(&sticks(-20000, 20000, -10000)), (12, 88, 31));
}

#[test]
fn right_stick_at_the_bottom_is_off() {
    assert_eq!(sticks_to_rgb(&sticks(20000, 20000, -32768)), (0, 0, 0));
}
