use gamepad_host::led::level_color;

#[test]
fn lamp_off_and_full() {
    assert_eq!(level_color(0), (0, 0, 0));
    assert_eq!(level_color(255), (255, 255, 255));
}

#[test]
fn lamp_is_gamma_corrected() {
    assert_eq!(level_color(128), (37, 37, 37));
    assert_eq!(level_color(200), (129, 129, 129));
    assert_eq!(level_color(27), (0, 0, 0));
    assert_eq!(level_color(28), (1, 1, 1));
}

#[test]
fn lamp_is_never_darker_for_a_higher_level() {
    let mut last = 0;
    for level in 0..=255u8 {
        let (r, g, b) = level_color(level);
        assert!(r == g && g == b);
        assert!(r >= last);
        last = r;
    }
}
