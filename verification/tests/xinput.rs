use gamepad_host::descriptor::{EndpointDescriptor, Interface, InterfaceDescriptor};
use gamepad_host::errors::GamepadError;
use gamepad_host::gamepad::GamepadReport;
use gamepad_host::xinput::{
    find_xinput, is_searchable, parse_standard_input, pick_endpoints, select_xinput, InterruptEndpoint,
    OpenedPipes, PipeInfo, PipePlan, XInputHost, XInputInterfaceInfo, XINPUT_MAX_PACKET,
};

fn config_of(parts: &[&[u8]]) -> Vec<u8> {
    let body: Vec<u8> = parts.concat();
    let total = (9 + body.len()) as u16;
    let mut out = vec![9, 2, total.to_le_bytes()[0], total.to_le_bytes()[1], 1, 1, 0, 0xa0, 0xfa];
    out.extend_from_slice(&body);
    out
}

const PAD: [u8; 9] = [9, 4, 0, 0, 2, 0xff, 0x5d, 0x01, 0];
const HID: [u8; 9] = [9, 4, 1, 0, 1, 0x03, 0x00, 0x00, 0];
const IN_81: [u8; 7] = [7, 5, 0x81, 3, 32, 0, 4];
const OUT_02: [u8; 7] = [7, 5, 0x02, 3, 32, 0, 8];
const IN_83: [u8; 7] = [7, 5, 0x83, 3, 64, 0, 1];
const BULK_84: [u8; 7] = [7, 5, 0x84, 2, 64, 0, 0];

fn ep(address: u8, attributes: u8, interval: u8) -> EndpointDescriptor {
    EndpointDescriptor {
        len: 7,
        descriptor_type: 5,
        endpoint_address: address,
        attributes,
        max_packet_size: 32,
        interval,
    }
}

fn iface(class: u8, subclass: u8, protocol: u8, endpoints: Vec<EndpointDescriptor>) -> Interface {
    Interface {
        descriptor: InterfaceDescriptor {
            len: 9,
            descriptor_type: 4,
            interface_number: 0,
            alternate_setting: 0,
            num_endpoints: endpoints.len() as u8,
            interface_class: class,
            interface_subclass: subclass,
            interface_protocol: protocol,
            interface_name: 0,
            body: Vec::new(),
        },
        endpoints,
    }
}

fn interrupt(address: u8, max_packet_size: u16, interval: u8) -> InterruptEndpoint {
    InterruptEndpoint { address, max_packet_size, interval }
}

fn input_packet() -> Vec<u8> {
    let mut p = vec![0u8; 20];
    p[1] = 0x14;
    p
}

#[test]
fn interface_is_found() {
    let bytes = config_of(&[&PAD, &[3, 0x21, 0], &IN_81, &OUT_02]);
    assert!(is_searchable(&bytes));
    assert_eq!(
        find_xinput(&bytes),
        Some(XInputInterfaceInfo {
            interrupt_in: interrupt(0x81, 32, 4),
            interrupt_out: Some(interrupt(0x02, 32, 8)),
        })
    );
}

#[test]
fn outward_endpoint_is_optional() {
    let bytes = config_of(&[&PAD, &IN_81]);
    assert_eq!(
        find_xinput(&bytes),
        Some(XInputInterfaceInfo {
            interrupt_in: interrupt(0x81, 32, 4),
            interrupt_out: None,
        })
    );
}

#[test]
fn interface_without_inward_endpoint_is_passed_over() {
    let bytes = config_of(&[&PAD, &OUT_02]);
    assert_eq!(find_xinput(&bytes), None);
    let bytes = config_of(&[&PAD, &OUT_02, &BULK_84, &PAD, &IN_83]);
    assert_eq!(
        find_xinput(&bytes),
        Some(XInputInterfaceInfo {
            interrupt_in: interrupt(0x83, 64, 1),
            interrupt_out: None,
        })
    );
}

#[test]
fn first_usable_interface_is_taken() {
    let bytes = config_of(&[&HID, &IN_83, &PAD, &IN_81, &OUT_02, &PAD, &IN_83]);
    assert_eq!(find_xinput(&bytes).unwrap().interrupt_in, interrupt(0x81, 32, 4));
}

#[test]
fn other_interfaces_are_not_taken() {
    assert_eq!(find_xinput(&config_of(&[&HID, &IN_83])), None);
    assert_eq!(find_xinput(&config_of(&[])), None);
    assert_eq!(find_xinput(&[]), None);
}

#[test]
fn interfaces_that_do_not_matter_need_not_be_readable() {
    let endless = [9u8, 4, 1, 0, 5, 0x03, 0x00, 0x00, 0];
    let bytes = config_of(&[&PAD, &IN_81, &OUT_02, &endless, &[0; 12]]);
    assert!(is_searchable(&bytes));
    assert_eq!(find_xinput(&bytes).unwrap().interrupt_in, interrupt(0x81, 32, 4));
    let endless_pad = [9u8, 4, 1, 0, 5, 0xff, 0x5d, 0x01, 0];
    assert!(!is_searchable(&config_of(&[&endless_pad, &OUT_02, &[0; 12]])));
    assert!(is_searchable(&config_of(&[&PAD, &IN_81, &OUT_02, &endless_pad, &[0; 12]])));
}

#[test]
fn truncated_bytes_cannot_be_searched() {
    let bytes = config_of(&[&PAD, &IN_81, &OUT_02]);
    assert!(!is_searchable(&bytes[..20]));
}

#[test]
fn all_three_codes_count() {
    let eps = vec![ep(0x81, 3, 4)];
    assert!(select_xinput(&iface(0xff, 0x5d, 0x01, eps.clone())).is_some());
    assert!(select_xinput(&iface(0xfe, 0x5d, 0x01, eps.clone())).is_none());
    assert!(select_xinput(&iface(0xff, 0x5e, 0x01, eps.clone())).is_none());
    assert!(select_xinput(&iface(0xff, 0x5d, 0x02, eps)).is_none());
}

#[test]
fn first_interrupt_endpoint_of_each_direction() {
    let eps = vec![ep(0x85, 2, 1), ep(0x01, 3, 2), ep(0x82, 3, 3), ep(0x02, 3, 4), ep(0x83, 0x0f, 5)];
    let (inward, outward) = pick_endpoints(&eps);
    assert_eq!(inward, Some(interrupt(0x82, 32, 3)));
    assert_eq!(outward, Some(interrupt(0x01, 32, 2)));
    assert_eq!(pick_endpoints(&vec![ep(0x81, 1, 1)]), (None, None));
}

#[test]
fn xinput_buttons() {
    let mut p = input_packet();
    p[2] = 0b0000_0001;
    assert_eq!(
        parse_standard_input(&p),
        Some(GamepadReport { dpad_up: true, ..GamepadReport::default() })
    );
    p[2] = 0b1010_1010;
    p[3] = 0b0101_0101;
    assert_eq!(
        parse_standard_input(&p),
        Some(GamepadReport {
            dpad_down: true,
            dpad_right: true,
            back: true,
            right_stick_press: true,
            left_bumper: true,
            guide: true,
            a: true,
            x: true,
            ..GamepadReport::default()
        })
    );
    p[2] = 0b0101_0101;
    p[3] = 0b1010_1010;
    assert_eq!(
        parse_standard_input(&p),
        Some(GamepadReport {
            dpad_up: true,
            dpad_left: true,
            start: true,
            left_stick_press: true,
            right_bumper: true,
            b: true,
            y: true,
            ..GamepadReport::default()
        })
    );
}

#[test]
fn xinput_triggers_and_sticks() {
    let mut p = input_packet();
    p[4] = 12;
    p[5] = 255;
    p[6..14].copy_from_slice(&[0x01, 0x00, 0xff, 0xff, 0x00, 0x80, 0xff, 0x7f]);
    let r = parse_standard_input(&p).unwrap();
    assert_eq!(r.left_trigger, 12);
    assert_eq!(r.right_trigger, 255);
    assert_eq!(r.left_stick_x, 1);
    assert_eq!(r.left_stick_y, -1);
    assert_eq!(r.right_stick_x, -32768);
    assert_eq!(r.right_stick_y, 32767);
}

#[test]
fn xinput_packets_that_are_no_input() {
    let host = XInputHost { has_output: true };
    assert_eq!(host.poll(&[0x01, 0x03, 0x06]), None);
    assert_eq!(host.poll(&[]), None);
    let mut p = input_packet();
    assert_eq!(host.poll(&p), Some(GamepadReport::default()));
    assert_eq!(host.poll(&p[..19]), None);
    p[0] = 1;
    assert_eq!(host.poll(&p), None);
    p[0] = 0;
    p[1] = 0x13;
    assert_eq!(host.poll(&p), None);
}

#[test]
fn xinput_extension_is_ignored() {
    let mut p = input_packet();
    p[3] = 0x10;
    let short = parse_standard_input(&p);
    p.extend_from_slice(&[0xaa; 12]);
    assert_eq!(p.len(), 32);
    assert_eq!(parse_standard_input(&p), short);
    assert!(short.unwrap().a);
    assert!(p.len() <= XINPUT_MAX_PACKET);
}

#[test]
fn pipes_are_planned() {
    let bytes = config_of(&[&PAD, &IN_81, &OUT_02]);
    assert_eq!(
        XInputHost::plan_pipes(&bytes),
        Ok(PipePlan {
            input: PipeInfo { address: 0x81, max_packet_size: 32, interval_ms: 4 },
            output: Some(PipeInfo { address: 0x02, max_packet_size: 32, interval_ms: 8 }),
        })
    );
    let odd = [7u8, 5, 0xf1, 3, 8, 0, 1];
    let odd_out = [7u8, 5, 0x72, 3, 8, 0, 1];
    let plan = XInputHost::plan_pipes(&config_of(&[&PAD, &odd, &odd_out])).unwrap();
    assert_eq!(plan.input.address, 0x81);
    assert_eq!(plan.output.unwrap().address, 0x02);
    assert_eq!(XInputHost::plan_pipes(&config_of(&[&HID, &IN_83])), Err(GamepadError::NotSupported));
}

#[test]
fn xinput_registration() {
    let both = config_of(&[&PAD, &IN_81, &OUT_02]);
    let only_in = config_of(&[&PAD, &IN_81]);
    let none = config_of(&[&HID, &IN_83]);
    let yes = OpenedPipes { input: true, output: true };
    let half = OpenedPipes { input: true, output: false };
    let no = OpenedPipes { input: false, output: true };
    assert_eq!(XInputHost::try_register(&both, &yes), Ok(XInputHost { has_output: true }));
    assert_eq!(XInputHost::try_register(&both, &half), Err(GamepadError::NoPipe));
    assert_eq!(XInputHost::try_register(&both, &no), Err(GamepadError::NoPipe));
    assert_eq!(XInputHost::try_register(&only_in, &half), Ok(XInputHost { has_output: false }));
    assert_eq!(XInputHost::try_register(&none, &yes), Err(GamepadError::NotSupported));
}

#[test]
fn xinput_rumble_packet() {
    let host = XInputHost { has_output: true };
    assert_eq!(host.set_rumble(200, 100), Ok(vec![0x00, 0x08, 0x00, 200, 100, 0x00, 0x00, 0x00]));
    let mute = XInputHost { has_output: false };
    assert_eq!(mute.set_rumble(200, 100), Err(GamepadError::NotSupported));
}

#[test]
fn xinput_lamp_packet() {
    let host = XInputHost { has_output: true };
    assert_eq!(host.set_player_index(0), Ok(vec![0x01, 0x03, 0x00]));
    assert_eq!(host.set_player_index(1), Ok(vec![0x01, 0x03, 0x06]));
    assert_eq!(host.set_player_index(4), Ok(vec![0x01, 0x03, 0x09]));
    assert_eq!(host.set_player_index(5), Ok(vec![0x01, 0x03, 0x00]));
    assert_eq!(host.set_player_index(255), Ok(vec![0x01, 0x03, 0x00]));
    let mute = XInputHost { has_output: false };
    assert_eq!(mute.set_player_index(1), Err(GamepadError::NotSupported));
}
