use gamepad_host::errors::{GamepadError, HidError, PipeError};
use gamepad_host::gamepad::{Candidate, Gamepad, GamepadReport, OutputRequest};
use gamepad_host::usb_host::{DeviceDescriptor, EnumerationInfo};
use gamepad_host::xinput::{OpenedPipes, PipeInfo, PipePlan, XInputHost};

const XINPUT: [u8; 32] = [
    9, 2, 32, 0, 1, 1, 0, 0xa0, 0xfa, 9, 4, 0, 0, 2, 0xff, 0x5d, 0x01, 0, 7, 5, 0x81, 3, 32, 0, 4, 7, 5, 0x02, 3, 32,
    0, 8,
];
const KEYBOARD: [u8; 25] = [
    9, 2, 25, 0, 1, 1, 0, 0xa0, 0xfa, 9, 4, 0, 0, 1, 0x03, 0x01, 0x01, 0, 7, 5, 0x81, 3, 8, 0, 10,
];
const OPENED: OpenedPipes = OpenedPipes { input: true, output: true };
const REFUSED: OpenedPipes = OpenedPipes { input: false, output: false };

fn named(vendor_id: u16, product_id: u16) -> EnumerationInfo {
    EnumerationInfo {
        device_address: 7,
        device_desc: DeviceDescriptor { vendor_id, product_id },
    }
}

fn xbox() -> EnumerationInfo {
    named(0x045e, 0x028e)
}

fn sony() -> EnumerationInfo {
    named(0x054c, 0x0ce6)
}

fn ds5_pad() -> Gamepad {
    Gamepad::try_register(&KEYBOARD, &sony(), &REFUSED, Ok(())).unwrap()
}

fn xinput_pad() -> Gamepad {
    Gamepad::try_register(&XINPUT, &xbox(), &OPENED, Err(HidError::NoInterface)).unwrap()
}

#[test]
fn report_text_of_the_example() {
    let r = GamepadReport {
        a: true,
        left_bumper: true,
        right_trigger: 255,
        right_stick_x: 12000,
        right_stick_y: -9000,
        ..GamepadReport::default()
    };
    assert_eq!(r.to_string(), "buttons=[A LB] LT=0 RT=255 L=(0, 0) R=(12000, -9000)");
}

#[test]
fn report_text_without_buttons() {
    assert_eq!(GamepadReport::default().to_string(), "buttons=[] LT=0 RT=0 L=(0, 0) R=(0, 0)");
}

#[test]
fn report_text_with_all_buttons() {
    let r = GamepadReport {
        dpad_up: true,
        dpad_down: true,
        dpad_left: true,
        dpad_right: true,
        a: true,
        b: true,
        x: true,
        y: true,
        left_bumper: true,
        right_bumper: true,
        left_stick_press: true,
        right_stick_press: true,
        start: true,
        back: true,
        guide: true,
        left_trigger: 7,
        right_trigger: 80,
        left_stick_x: -32768,
        left_stick_y: 32767,
        right_stick_x: 1,
        right_stick_y: -1,
    };
    assert_eq!(
        r.to_string(),
        "buttons=[A B X Y LB RB LS RS Start Back Guide Up Down Left Right] LT=7 RT=80 L=(-32768, 32767) R=(1, -1)"
    );
}

#[test]
fn candidates() {
    assert_eq!(
        Gamepad::candidate(&XINPUT, &xbox()),
        Ok(Candidate::XInput(PipePlan {
            input: PipeInfo { address: 0x81, max_packet_size: 32, interval_ms: 4 },
            output: Some(PipeInfo { address: 0x02, max_packet_size: 32, interval_ms: 8 }),
        }))
    );
    assert_eq!(Gamepad::candidate(&KEYBOARD, &sony()), Ok(Candidate::Ds5));
    assert_eq!(Gamepad::candidate(&KEYBOARD, &xbox()), Err(GamepadError::NotSupported));
}

#[test]
fn xinput_comes_before_the_numbers_of_a_dualsense() {
    assert!(matches!(Gamepad::candidate(&XINPUT, &sony()), Ok(Candidate::XInput(_))));
    assert!(matches!(
        Gamepad::try_register(&XINPUT, &sony(), &OPENED, Ok(())),
        Ok(Gamepad::XInput(_))
    ));
    assert!(matches!(
        Gamepad::try_register(&XINPUT, &sony(), &REFUSED, Ok(())),
        Err(GamepadError::NoPipe)
    ));
}

#[test]
fn registration_by_protocol() {
    assert!(matches!(xinput_pad(), Gamepad::XInput(XInputHost { has_output: true })));
    assert_eq!(xinput_pad().protocol(), "XInput");
    assert!(matches!(ds5_pad(), Gamepad::Ds5(_)));
    assert_eq!(ds5_pad().protocol(), "DualSense");
}

#[test]
fn registration_errors() {
    let err = |r: Result<Gamepad, GamepadError>| r.unwrap_err();
    assert_eq!(
        err(Gamepad::try_register(&KEYBOARD, &xbox(), &OPENED, Ok(()))),
        GamepadError::NotSupported
    );
    assert_eq!(
        err(Gamepad::try_register(&KEYBOARD, &sony(), &OPENED, Err(HidError::NoInterface))),
        GamepadError::NotSupported
    );
    assert_eq!(
        err(Gamepad::try_register(&KEYBOARD, &sony(), &OPENED, Err(HidError::NoPipe))),
        GamepadError::NoPipe
    );
    assert_eq!(
        err(Gamepad::try_register(
            &KEYBOARD,
            &sony(),
            &OPENED,
            Err(HidError::Transfer(PipeError::Timeout))
        )),
        GamepadError::Transfer(PipeError::Timeout)
    );
}

#[test]
fn only_what_was_asked_for_counts() {
    assert!(Gamepad::try_register(&XINPUT, &xbox(), &OPENED, Err(HidError::NoPipe)).is_ok());
    assert!(Gamepad::try_register(&KEYBOARD, &sony(), &REFUSED, Ok(())).is_ok());
}

#[test]
fn unsearchable_bytes_are_told_apart() {
    assert!(Gamepad::candidate_if_searchable(&XINPUT[..20], &xbox()).is_none());
    assert!(Gamepad::register_if_searchable(&XINPUT[..20], &xbox(), &OPENED, Ok(())).is_none());
    assert_eq!(
        Gamepad::candidate_if_searchable(&KEYBOARD, &sony()),
        Some(Ok(Candidate::Ds5))
    );
    assert!(matches!(
        Gamepad::register_if_searchable(&XINPUT, &xbox(), &OPENED, Ok(())),
        Some(Ok(Gamepad::XInput(_)))
    ));
}

#[test]
fn packets_go_to_the_right_decoder() {
    let mut xinput_packet = [0u8; 20];
    xinput_packet[1] = 0x14;
    xinput_packet[3] = 0x10;
    let mut ds5_packet = [0u8; 64];
    ds5_packet[0] = 0x01;
    ds5_packet[1..5].copy_from_slice(&[0x80; 4]);
    ds5_packet[8] = 0x28;
    ds5_packet[53] = 0x07;
    let pressed = GamepadReport { a: true, ..GamepadReport::default() };

    let mut pad = xinput_pad();
    assert_eq!(pad.poll(&xinput_packet), Some(pressed));
    assert_eq!(pad.poll(&ds5_packet), None);

    let mut pad = ds5_pad();
    assert_eq!(pad.poll(&ds5_packet), Some(pressed));
    assert_eq!(pad.poll(&xinput_packet), None);
    match pad {
        Gamepad::Ds5(host) => assert_eq!(host.extra().battery_percent, 75),
        Gamepad::XInput(_) => panic!("wrong protocol"),
    }
}

#[test]
fn output_requests_for_xinput() {
    let pad = xinput_pad();
    assert!(matches!(
        pad.set_rumble(1, 2),
        Ok(OutputRequest::XInput(p)) if p == [0x00, 0x08, 0x00, 1, 2, 0x00, 0x00, 0x00]
    ));
    assert!(matches!(
        pad.stop_rumble(),
        Ok(OutputRequest::XInput(p)) if p == [0x00, 0x08, 0x00, 0, 0, 0x00, 0x00, 0x00]
    ));
    assert!(matches!(
        pad.set_player_index(3),
        Ok(OutputRequest::XInput(p)) if p == [0x01, 0x03, 0x08]
    ));
    let mute = Gamepad::XInput(XInputHost { has_output: false });
    assert!(matches!(mute.set_rumble(1, 2), Err(GamepadError::NotSupported)));
    assert!(matches!(mute.stop_rumble(), Err(GamepadError::NotSupported)));
    assert!(matches!(mute.set_player_index(1), Err(GamepadError::NotSupported)));
}

#[test]
fn output_requests_for_a_dualsense() {
    let pad = ds5_pad();
    assert!(matches!(
        pad.set_rumble(1, 2),
        Ok(OutputRequest::Ds5Rumble { strong: 1, weak: 2 })
    ));
    assert!(matches!(
        pad.stop_rumble(),
        Ok(OutputRequest::Ds5Rumble { strong: 0, weak: 0 })
    ));
}

#[test]
fn player_numbers_of_a_dualsense() {
    let pad = ds5_pad();
    for (index, shown) in [(0u8, 0u8), (1, 1), (4, 4), (5, 5), (6, 0), (255, 0)] {
        assert!(matches!(
            pad.set_player_index(index),
            Ok(OutputRequest::Ds5PlayerIndex(n)) if n == shown
        ));
    }
}

#[test]
fn only_a_dualsense_has_a_light_bar() {
    assert!(ds5_pad().has_lightbar());
    assert!(!xinput_pad().has_lightbar());
}

#[test]
fn different_reports_have_different_texts() {
    let mut reports = vec![GamepadReport::default()];
    for n in 0..15 {
        let mut r = GamepadReport::default();
        let buttons = [
            &mut r.dpad_up,
            &mut r.dpad_down,
            &mut r.dpad_left,
            &mut r.dpad_right,
            &mut r.a,
            &mut r.b,
            &mut r.x,
            &mut r.y,
            &mut r.left_bumper,
            &mut r.right_bumper,
            &mut r.left_stick_press,
            &mut r.right_stick_press,
            &mut r.start,
            &mut r.back,
            &mut r.guide,
        ];
        for (i, button) in buttons.into_iter().enumerate() {
            *button = i == n;
        }
        reports.push(r);
    }
    let idle = GamepadReport::default();
    reports.push(GamepadReport { left_trigger: 1, ..idle });
    reports.push(GamepadReport { right_trigger: 1, ..idle });
    for v in [1i16, -1, 11, -11] {
        reports.push(GamepadReport { left_stick_x: v, ..idle });
        reports.push(GamepadReport { left_stick_y: v, ..idle });
        reports.push(GamepadReport { right_stick_x: v, ..idle });
        reports.push(GamepadReport { right_stick_y: v, ..idle });
    }
    for p in &reports {
        for q in &reports {
            assert_eq!(p.to_string() == q.to_string(), p == q);
        }
    }
}
