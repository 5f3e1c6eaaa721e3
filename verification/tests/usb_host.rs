use gamepad_host::errors::{EnumerationError, PipeError};
use gamepad_host::usb_host::{
    describe_config, enumerate, enumerate_if_readable, print_config, DeviceDescriptor, EnumerationInfo, Port,
    PortAction, PortEvent,
};

const CONFIG: [u8; 32] = [
    9, 2, 32, 0, 1, 1, 0, 0xa0, 0xfa, 9, 4, 0, 0, 2, 0xff, 0x5d, 0x01, 0, 7, 5, 0x81, 3, 32, 0, 4, 7, 5, 0x02, 3, 0x2c,
    1, 8,
];

fn xbox_at(device_address: u8) -> EnumerationInfo {
    EnumerationInfo {
        device_address,
        device_desc: DeviceDescriptor { vendor_id: 0x045e, product_id: 0x028e },
    }
}

const CONFIG_LINES: [&str; 4] = [
    "configuration: interfaces=1, total_len=32, value=1",
    "interface: num=0, alt=0, class=0xff, subclass=0x5d, protocol=0x01, endpoints=2",
    "  endpoint: addr=0x81, num=1, in=true, type=3, max_packet=32, interval=4",
    "  endpoint: addr=0x02, num=2, in=false, type=3, max_packet=300, interval=8",
];

#[test]
fn port_gives_addresses_back() {
    let mut port = Port::new();
    assert_eq!(port.on_event(PortEvent::Connected), PortAction { free: None, enumerate: true });
    assert!(port.on_enumerated(Some(xbox_at(1))));
    assert_eq!(port.device_addr, Some(1));
    assert_eq!(port.on_event(PortEvent::Disconnected), PortAction { free: Some(1), enumerate: false });
    assert_eq!(port.on_event(PortEvent::Disconnected), PortAction { free: None, enumerate: false });
}

#[test]
fn port_frees_the_old_address_before_a_new_device() {
    let mut port = Port::new();
    port.on_event(PortEvent::Connected);
    port.on_enumerated(Some(xbox_at(4)));
    assert_eq!(port.on_event(PortEvent::Connected), PortAction { free: Some(4), enumerate: true });
    assert!(!port.on_enumerated(None));
    assert_eq!(port.device_addr, None);
}

#[test]
fn port_ignores_other_events() {
    let mut port = Port::new();
    port.on_event(PortEvent::Connected);
    port.on_enumerated(Some(xbox_at(2)));
    assert_eq!(port.on_event(PortEvent::Other), PortAction { free: None, enumerate: false });
    assert_eq!(port.device_addr, Some(2));
}

#[test]
fn port_loses_no_address() {
    let mut port = Port::new();
    let mut given = Vec::new();
    let mut freed = Vec::new();
    let turns = [(0, Some(1)), (0, None), (0, Some(2)), (1, None), (2, None), (0, Some(3)), (0, Some(4))];
    for (kind, address) in turns {
        let event = match kind {
            0 => PortEvent::Connected,
            1 => PortEvent::Disconnected,
            _ => PortEvent::Other,
        };
        let action = port.on_event(event);
        freed.extend(action.free);
        if action.enumerate {
            given.extend(address);
            assert_eq!(port.on_enumerated(address.map(xbox_at)), address.is_some());
        }
    }
    assert_eq!(given, vec![1, 2, 3, 4]);
    assert_eq!(freed, vec![1, 2, 3]);
    assert_eq!(port.device_addr, Some(4));
}

#[test]
fn configuration_lines() {
    assert_eq!(print_config(&CONFIG), CONFIG_LINES);
}

#[test]
fn line_for_bytes_that_are_no_configuration() {
    assert_eq!(print_config(&[18, 1, 0]), ["parse configuration failed: InvalidDescriptor"]);
    assert_eq!(describe_config(&None), ["parse configuration failed: InvalidDescriptor"]);
}

#[test]
fn enumeration_that_went_well() {
    let mut buf = [0u8; 512];
    buf[..32].copy_from_slice(&CONFIG);
    let r = enumerate(Ok((xbox_at(3), 32)), &buf);
    assert_eq!(r.device, Some((xbox_at(3), 32)));
    assert!(!r.warning);
    assert_eq!(r.lines[0], "device enumerated: VID=045e, PID=028e, addr=3, config_len=32");
    assert_eq!(r.lines[1..], CONFIG_LINES);
}

#[test]
fn device_that_vanishes_is_no_warning() {
    let r = enumerate(Err(EnumerationError::Transfer(PipeError::Disconnected)), &[0; 8]);
    assert_eq!(r.device, None);
    assert!(!r.warning);
    assert_eq!(r.lines, ["device disconnected during enumeration"]);
}

#[test]
fn other_enumeration_errors_are_warnings() {
    let cases = [
        (EnumerationError::Transfer(PipeError::Timeout), "enumeration error: Transfer(Timeout)"),
        (EnumerationError::InvalidDescriptor, "enumeration error: InvalidDescriptor"),
        (
            EnumerationError::ConfigBufferTooSmall(600),
            "enumeration error: ConfigBufferTooSmall(600)",
        ),
        (EnumerationError::NoPipe, "enumeration error: NoPipe"),
        (EnumerationError::RequestFailed, "enumeration error: RequestFailed"),
    ];
    for (e, line) in cases {
        let r = enumerate(Err(e), &[]);
        assert_eq!(r.device, None);
        assert!(r.warning);
        assert_eq!(r.lines, [line]);
    }
}

#[test]
fn unreadable_outcomes_are_told_apart() {
    assert!(enumerate_if_readable(Ok((xbox_at(1), 33)), &CONFIG).is_none());
    assert!(enumerate_if_readable(Ok((xbox_at(1), 31)), &CONFIG).is_none());
    let r = enumerate_if_readable(Ok((xbox_at(1), 32)), &CONFIG).unwrap();
    assert_eq!(r.lines.len(), 5);
    assert!(enumerate_if_readable(Err(EnumerationError::NoPipe), &[]).is_some());
}
