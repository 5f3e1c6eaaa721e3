use gamepad_host::ds5::{
    decode_battery, decode_hat, is_dualsense, parse_extra, parse_input, parse_touch, stick_axis,
    stick_axis_inverted, ChargeState, Ds5Extra, Ds5Host, TouchPoint, DS5_MAX_PACKET,
};
use gamepad_host::errors::{GamepadError, HidError, PipeError};
use gamepad_host::gamepad::GamepadReport;
use gamepad_host::usb_host::{DeviceDescriptor, EnumerationInfo};

fn device(vendor_id: u16, product_id: u16) -> EnumerationInfo {
    EnumerationInfo {
        device_address: 1,
        device_desc: DeviceDescriptor { vendor_id, product_id },
    }
}

fn packet() -> Vec<u8> {
    let mut p = vec![0u8; DS5_MAX_PACKET];
    p[0] = 0x01;
    p[1..5].copy_from_slice(&[0x80; 4]);
    p[8] = 8;
    p[33] = 0x80;
    p[37] = 0x80;
    p
}

#[test]
fn ds5_axis_values() {
    assert_eq!(stick_axis(0), -32768);
    assert_eq!(stick_axis(0x80), 0);
    assert_eq!(stick_axis(0x81), 256);
    assert_eq!(stick_axis(255), 32512);
}

#[test]
fn ds5_inverted_axis_values() {
    assert_eq!(stick_axis_inverted(0), 32767);
    assert_eq!(stick_axis_inverted(1), 32512);
    assert_eq!(stick_axis_inverted(0x80), 0);
    assert_eq!(stick_axis_inverted(255), -32512);
}

#[test]
fn ds5_axes_run_in_opposite_directions() {
    for v in 1..=255u8 {
        assert!(stick_axis(v) > stick_axis(v - 1));
        assert!(stick_axis_inverted(v) < stick_axis_inverted(v - 1));
        assert_eq!(stick_axis_inverted(v), -stick_axis(v));
    }
}

#[test]
fn hat_positions() {
    assert_eq!(decode_hat(0), (true, false, false, false));
    assert_eq!(decode_hat(1), (true, false, false, true));
    assert_eq!(decode_hat(2), (false, false, false, true));
    assert_eq!(decode_hat(3), (false, true, false, true));
    assert_eq!(decode_hat(4), (false, true, false, false));
    assert_eq!(decode_hat(5), (false, true, true, false));
    assert_eq!(decode_hat(6), (false, false, true, false));
    assert_eq!(decode_hat(7), (true, false, true, false));
}

#[test]
fn hat_released() {
    for hat in 8..=255u8 {
        assert_eq!(decode_hat(hat), (false, false, false, false));
    }
}

#[test]
fn half_a_turn_of_the_hat() {
    for hat in 0..8u8 {
        let (up, down, left, right) = decode_hat(hat);
        assert_eq!(decode_hat((hat + 4) % 8), (down, up, right, left));
    }
}

#[test]
fn touch_points() {
    assert_eq!(
        parse_touch(&[0x05, 0xc0, 0xc3, 0x21]),
        TouchPoint { active: true, id: 5, x: 960, y: 540 }
    );
    assert_eq!(
        parse_touch(&[0xff, 0xff, 0xff, 0xff]),
        TouchPoint { active: false, id: 127, x: 4095, y: 4095 }
    );
    assert_eq!(
        parse_touch(&[0x80, 0x01, 0x10, 0x00]),
        TouchPoint { active: false, id: 0, x: 1, y: 1 }
    );
}

#[test]
fn touch_points_are_read_back() {
    for (id, x, y) in [(0u8, 0u16, 0u16), (127, 4095, 4095), (5, 1919, 1079), (64, 256, 17)] {
        let bytes = [id, (x % 256) as u8, (x / 256) as u8 | ((y % 16) as u8) << 4, (y / 16) as u8];
        assert_eq!(parse_touch(&bytes), TouchPoint { active: true, id, x, y });
    }
}

#[test]
fn battery_levels() {
    assert_eq!(decode_battery(0x00), (5, ChargeState::Discharging));
    assert_eq!(decode_battery(0x07), (75, ChargeState::Discharging));
    assert_eq!(decode_battery(0x09), (95, ChargeState::Discharging));
    assert_eq!(decode_battery(0x0a), (100, ChargeState::Discharging));
    assert_eq!(decode_battery(0x0f), (100, ChargeState::Discharging));
    assert_eq!(decode_battery(0x15), (55, ChargeState::Charging));
}

#[test]
fn battery_states() {
    assert_eq!(decode_battery(0x23), (100, ChargeState::Full));
    assert_eq!(decode_battery(0xa5), (0, ChargeState::TemperatureError));
    assert_eq!(decode_battery(0xb5), (0, ChargeState::TemperatureError));
    assert_eq!(decode_battery(0xf5), (0, ChargeState::ChargingError));
    assert_eq!(decode_battery(0x35), (0, ChargeState::Unknown(3)));
    assert_eq!(decode_battery(0xc0), (0, ChargeState::Unknown(12)));
}

#[test]
fn battery_is_a_percentage() {
    for status in 0..=255u8 {
        assert!(decode_battery(status).0 <= 100);
    }
}

#[test]
fn ds5_at_rest() {
    assert_eq!(parse_input(&packet()), Some(GamepadReport::default()));
}

#[test]
fn ds5_buttons() {
    let mut p = packet();
    p[8] = 0x58;
    p[9] = 0b0101_0001;
    p[10] = 0x07;
    assert_eq!(
        parse_input(&p),
        Some(GamepadReport {
            x: true,
            b: true,
            left_bumper: true,
            back: true,
            left_stick_press: true,
            guide: true,
            ..GamepadReport::default()
        })
    );
    p[8] = 0xa3;
    p[9] = 0b1010_1110;
    p[10] = 0x06;
    assert_eq!(
        parse_input(&p),
        Some(GamepadReport {
            dpad_down: true,
            dpad_right: true,
            a: true,
            y: true,
            right_bumper: true,
            start: true,
            right_stick_press: true,
            ..GamepadReport::default()
        })
    );
}

#[test]
fn ds5_sticks_and_triggers() {
    let mut p = packet();
    p[1..7].copy_from_slice(&[0, 0, 255, 255, 17, 230]);
    let r = parse_input(&p).unwrap();
    assert_eq!(r.left_stick_x, -32768);
    assert_eq!(r.left_stick_y, 32767);
    assert_eq!(r.right_stick_x, 32512);
    assert_eq!(r.right_stick_y, -32512);
    assert_eq!(r.left_trigger, 17);
    assert_eq!(r.right_trigger, 230);
}

#[test]
fn ds5_packets_that_are_no_input() {
    let mut p = packet();
    assert!(parse_input(&p[..11]).is_some());
    assert!(parse_input(&p[..10]).is_none());
    assert!(parse_extra(&p[..54]).is_some());
    assert!(parse_extra(&p[..53]).is_none());
    p[0] = 0x31;
    assert!(parse_input(&p).is_none());
    assert!(parse_extra(&p).is_none());
    assert!(parse_input(&[]).is_none());
}

#[test]
fn ds5_extra_data() {
    let mut p = packet();
    p[10] = 0x06;
    p[16..22].copy_from_slice(&[0x01, 0x00, 0xfe, 0xff, 0x00, 0x00]);
    p[22..28].copy_from_slice(&[0x00, 0x00, 0x00, 0x20, 0x28, 0x00]);
    p[28..32].copy_from_slice(&[0x78, 0x56, 0x34, 0x12]);
    p[33..37].copy_from_slice(&[0x00, 0xc0, 0xc3, 0x21]);
    p[53] = 0x07;
    assert_eq!(
        parse_extra(&p),
        Some(Ds5Extra {
            touchpad_press: true,
            mic_mute: true,
            touch: [
                TouchPoint { active: true, id: 0, x: 960, y: 540 },
                TouchPoint { active: false, id: 0, x: 0, y: 0 },
            ],
            gyro: [1, -2, 0],
            accel: [0, 8192, 40],
            sensor_timestamp: 0x12345678,
            battery_percent: 75,
            charge_state: ChargeState::Discharging,
        })
    );
}

#[test]
fn ds5_decoding_looks_at_the_first_bytes_only() {
    let p = packet();
    let mut q = packet();
    q[7] = 99;
    for byte in q[11..].iter_mut() {
        *byte = 0xee;
    }
    assert_eq!(parse_input(&p), parse_input(&q));
    let mut r = packet();
    for byte in r[54..].iter_mut() {
        *byte = 0xee;
    }
    assert_eq!(parse_extra(&p), parse_extra(&r));
}

#[test]
fn ds5_extra_text() {
    let mut extra = Ds5Extra {
        touch: [TouchPoint { active: true, id: 0, x: 960, y: 540 }, TouchPoint::default()],
        gyro: [1, -2, 0],
        accel: [0, 8192, 40],
        battery_percent: 75,
        ..Ds5Extra::default()
    };
    assert_eq!(
        extra.to_string(),
        "touch=[#0(960,540)] gyro=(1, -2, 0) accel=(0, 8192, 40) bat=75% Discharging"
    );
    extra.touch[1] = TouchPoint { active: true, id: 17, x: 1, y: 2 };
    extra.touchpad_press = true;
    extra.mic_mute = true;
    extra.charge_state = ChargeState::Unknown(12);
    extra.battery_percent = 0;
    assert_eq!(
        extra.to_string(),
        "touch=[#0(960,540) #17(1,2)] Pad Mic gyro=(1, -2, 0) accel=(0, 8192, 40) bat=0% Unknown(12)"
    );
    extra.touch[0].active = false;
    extra.mic_mute = false;
    extra.charge_state = ChargeState::Full;
    assert_eq!(
        extra.to_string(),
        "touch=[#17(1,2)] Pad gyro=(1, -2, 0) accel=(0, 8192, 40) bat=0% Full"
    );
}

#[test]
fn charge_state_text_is_that_of_debug() {
    let all = [
        ChargeState::Discharging,
        ChargeState::Charging,
        ChargeState::Full,
        ChargeState::TemperatureError,
        ChargeState::ChargingError,
        ChargeState::Unknown(7),
    ];
    for charge_state in all {
        let extra = Ds5Extra { charge_state, ..Ds5Extra::default() };
        assert_eq!(
            extra.to_string(),
            format!("touch=[] gyro=(0, 0, 0) accel=(0, 0, 0) bat=0% {:?}", charge_state)
        );
    }
}

#[test]
fn dualsense_by_its_numbers() {
    assert!(is_dualsense(&device(0x054c, 0x0ce6)));
    assert!(is_dualsense(&device(0x054c, 0x0df2)));
    assert!(!is_dualsense(&device(0x054c, 0x09cc)));
    assert!(!is_dualsense(&device(0x045e, 0x0ce6)));
}

#[test]
fn ds5_registration() {
    let ds5 = device(0x054c, 0x0ce6);
    let host = Ds5Host::try_register(&ds5, Ok(())).unwrap();
    assert_eq!(*host.extra(), Ds5Extra::default());
    assert_eq!(
        Ds5Host::try_register(&device(1, 2), Ok(())).unwrap_err(),
        GamepadError::NotSupported
    );
    assert_eq!(
        Ds5Host::try_register(&ds5, Err(HidError::NoInterface)).unwrap_err(),
        GamepadError::NotSupported
    );
    assert_eq!(Ds5Host::try_register(&ds5, Err(HidError::NoPipe)).unwrap_err(), GamepadError::NoPipe);
    assert_eq!(
        Ds5Host::try_register(&ds5, Err(HidError::Transfer(PipeError::Stall))).unwrap_err(),
        GamepadError::Transfer(PipeError::Stall)
    );
}

#[test]
fn ds5_extra_is_that_of_the_last_full_report() {
    let mut host = Ds5Host::try_register(&device(0x054c, 0x0ce6), Ok(())).unwrap();
    let mut p = packet();
    p[53] = 0x07;
    assert_eq!(host.poll(&p), Some(GamepadReport::default()));
    assert_eq!(host.extra().battery_percent, 75);
    p[53] = 0x03;
    assert_eq!(host.poll(&p[..20]), Some(GamepadReport::default()));
    assert_eq!(host.extra().battery_percent, 75);
    p[0] = 0x02;
    assert_eq!(host.poll(&p), None);
    assert_eq!(host.extra().battery_percent, 75);
    p[0] = 0x01;
    assert_eq!(host.poll(&p), Some(GamepadReport::default()));
    assert_eq!(host.extra().battery_percent, 35);
}
