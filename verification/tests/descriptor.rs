use gamepad_host::descriptor::{
    is_config_readable, is_endpoints_readable, is_outline_readable, read_configuration, read_outline,
    EndpointDescriptor, InterfaceDescriptor,
};

/// A configuration descriptor with the given descriptors behind its header.
fn config(parts: &[&[u8]]) -> Vec<u8> {
    let body: Vec<u8> = parts.concat();
    let total = (9 + body.len()) as u16;
    let mut out = vec![9, 2, total.to_le_bytes()[0], total.to_le_bytes()[1], 2, 1, 0, 0xa0, 0xfa];
    out.extend_from_slice(&body);
    out
}

fn interface(number: u8, endpoints: u8, class: u8, subclass: u8, protocol: u8) -> [u8; 9] {
    [9, 4, number, 0, endpoints, class, subclass, protocol, 0]
}

fn endpoint(address: u8, attributes: u8, size: u16, interval: u8) -> [u8; 7] {
    [7, 5, address, attributes, size.to_le_bytes()[0], size.to_le_bytes()[1], interval]
}

fn bare_interface(num_endpoints: u8, body: &[u8]) -> InterfaceDescriptor {
    InterfaceDescriptor {
        len: 9,
        descriptor_type: 4,
        interface_number: 0,
        alternate_setting: 0,
        num_endpoints,
        interface_class: 3,
        interface_subclass: 0,
        interface_protocol: 0,
        interface_name: 0,
        body: body.to_vec(),
    }
}

#[test]
fn configuration_is_taken_apart() {
    let bytes = config(&[
        &interface(0, 2, 0xff, 0x5d, 0x01),
        &[5, 0x21, 1, 2, 3],
        &endpoint(0x81, 3, 32, 4),
        &endpoint(0x02, 3, 32, 8),
        &interface(1, 1, 3, 0, 0),
        &endpoint(0x83, 3, 64, 1),
    ]);
    assert!(is_config_readable(&bytes));
    let c = read_configuration(&bytes).unwrap();
    assert_eq!(c.total_len, 53);
    assert_eq!(c.num_interfaces, 2);
    assert_eq!(c.configuration_value, 1);
    assert_eq!(c.interfaces.len(), 2);

    let first = &c.interfaces[0];
    assert_eq!(first.descriptor.interface_number, 0);
    assert_eq!(first.descriptor.interface_class, 0xff);
    assert_eq!(first.descriptor.interface_subclass, 0x5d);
    assert_eq!(first.descriptor.interface_protocol, 0x01);
    assert_eq!(first.descriptor.body.len(), 19);
    assert_eq!(
        first.endpoints,
        vec![
            EndpointDescriptor {
                len: 7,
                descriptor_type: 5,
                endpoint_address: 0x81,
                attributes: 3,
                max_packet_size: 32,
                interval: 4,
            },
            EndpointDescriptor {
                len: 7,
                descriptor_type: 5,
                endpoint_address: 0x02,
                attributes: 3,
                max_packet_size: 32,
                interval: 8,
            },
        ]
    );

    let second = &c.interfaces[1];
    assert_eq!(second.descriptor.interface_number, 1);
    assert_eq!(second.endpoints.len(), 1);
    assert_eq!(second.endpoints[0].endpoint_address, 0x83);
    assert_eq!(second.endpoints[0].max_packet_size, 64);
}

#[test]
fn header_fields_come_from_their_places() {
    let bytes = config(&[&interface(0, 0, 3, 0, 0)]);
    let outline = read_outline(&bytes).unwrap();
    assert_eq!(outline.header.len, 9);
    assert_eq!(outline.header.descriptor_type, 2);
    assert_eq!(outline.header.total_len, 18);
    assert_eq!(outline.header.num_interfaces, 2);
    assert_eq!(outline.header.configuration_value, 1);
    assert_eq!(outline.header.configuration_name, 0);
    assert_eq!(outline.header.attributes, 0xa0);
    assert_eq!(outline.header.max_power, 0xfa);
    assert_eq!(outline.header.body, interface(0, 0, 3, 0, 0).to_vec());
    assert_eq!(outline.interfaces.len(), 1);
}

#[test]
fn bytes_behind_the_total_length_do_not_count() {
    let mut bytes = config(&[&interface(0, 0, 3, 0, 0)]);
    bytes.extend_from_slice(&interface(1, 0, 3, 0, 0));
    assert!(is_config_readable(&bytes));
    assert_eq!(read_configuration(&bytes).unwrap().interfaces.len(), 1);
}

#[test]
fn endpoints_beyond_the_announced_number_do_not_count() {
    let bytes = config(&[&interface(0, 1, 3, 0, 0), &endpoint(0x81, 3, 8, 1), &endpoint(0x82, 3, 8, 1)]);
    let c = read_configuration(&bytes).unwrap();
    assert_eq!(c.interfaces[0].endpoints.len(), 1);
    assert_eq!(c.interfaces[0].endpoints[0].endpoint_address, 0x81);
}

#[test]
fn other_bytes_are_no_configuration() {
    let device = [18u8, 1, 0, 2, 0xff, 0xff, 0xff, 8, 0x5e, 0x04];
    assert!(is_config_readable(&device));
    assert!(read_configuration(&device).is_none());
    let short = [9u8, 2, 9, 0, 0, 1, 0, 0];
    assert!(is_config_readable(&short));
    assert!(read_configuration(&short).is_none());
    assert!(is_config_readable(&[]));
    assert!(read_configuration(&[]).is_none());
}

#[test]
fn empty_configuration_has_no_interfaces() {
    let bytes = config(&[]);
    assert!(is_config_readable(&bytes));
    assert_eq!(read_configuration(&bytes).unwrap().interfaces.len(), 0);
}

#[test]
fn truncated_configuration_is_not_readable() {
    let bytes = config(&[&interface(0, 1, 3, 0, 0), &endpoint(0x81, 3, 8, 1)]);
    assert!(!is_outline_readable(&bytes[..bytes.len() - 1]));
    assert!(!is_config_readable(&bytes[..bytes.len() - 1]));
}

#[test]
fn header_longer_than_everything_is_not_readable() {
    let mut bytes = config(&[&interface(0, 0, 3, 0, 0)]);
    bytes[0] = 19;
    assert!(!is_outline_readable(&bytes));
}

#[test]
fn length_of_one_before_the_first_interface_is_not_readable() {
    let bytes = config(&[&[1], &interface(0, 0, 3, 0, 0)]);
    assert!(!is_outline_readable(&bytes));
}

#[test]
fn length_of_zero_before_the_first_interface_ends_the_search() {
    let bytes = config(&[&[0, 0], &interface(0, 0, 3, 0, 0)]);
    assert!(is_config_readable(&bytes));
    assert_eq!(read_configuration(&bytes).unwrap().interfaces.len(), 0);
}

#[test]
fn overlong_first_interface_is_not_readable() {
    let mut part = interface(0, 0, 3, 0, 0);
    part[0] = 10;
    assert!(!is_outline_readable(&config(&[&part])));
}

#[test]
fn padding_behind_the_last_endpoint_is_readable() {
    let bytes = config(&[&interface(0, 1, 3, 0, 0), &endpoint(0x81, 3, 8, 1), &[0; 16]]);
    assert!(is_config_readable(&bytes));
    let c = read_configuration(&bytes).unwrap();
    assert_eq!(c.interfaces.len(), 1);
    assert_eq!(c.interfaces[0].endpoints.len(), 1);
}

#[test]
fn padding_in_place_of_an_endpoint_is_not_readable() {
    let bytes = config(&[&interface(0, 2, 3, 0, 0), &endpoint(0x81, 3, 8, 1), &[0; 16]]);
    assert!(is_outline_readable(&bytes));
    assert!(!is_config_readable(&bytes));
}

#[test]
fn endpoint_search_ends_or_not() {
    assert!(is_endpoints_readable(&bare_interface(0, &[0; 9])));
    assert!(!is_endpoints_readable(&bare_interface(1, &[0; 9])));
    assert!(is_endpoints_readable(&bare_interface(1, &[0; 6])));
    assert!(is_endpoints_readable(&bare_interface(3, &[0, 5, 0x81, 3, 8, 0, 1])));
    assert!(is_endpoints_readable(&bare_interface(3, &[1, 1, 1, 1, 1, 1, 1, 1, 1])));
    assert!(is_endpoints_readable(&bare_interface(1, &[200, 5, 0x81, 3, 8, 0, 1])));
    assert!(is_endpoints_readable(&bare_interface(1, &endpoint(0x81, 3, 8, 1))));
}

#[test]
fn endpoint_without_length_is_found_again_and_again() {
    let bytes = config(&[&interface(0, 3, 3, 0, 0), &[0, 5, 0x81, 3, 8, 0, 1]]);
    assert!(is_config_readable(&bytes));
    let c = read_configuration(&bytes).unwrap();
    assert_eq!(c.interfaces[0].endpoints.len(), 3);
    assert_eq!(c.interfaces[0].endpoints[2].endpoint_address, 0x81);
}

#[test]
fn endpoint_fields() {
    let ep = EndpointDescriptor {
        len: 7,
        descriptor_type: 5,
        endpoint_address: 0x8a,
        attributes: 0x0f,
        max_packet_size: 64,
        interval: 1,
    };
    assert!(ep.is_in());
    assert_eq!(ep.ep_number(), 10);
    assert_eq!(ep.transfer_type(), 3);
    let out = EndpointDescriptor { endpoint_address: 0x75, attributes: 0x02, ..ep };
    assert!(!out.is_in());
    assert_eq!(out.ep_number(), 5);
    assert_eq!(out.transfer_type(), 2);
}

/// Where the next interface descriptor begins, at `at` or behind it.
fn next_interface(body: &[u8], mut at: usize) -> usize {
    while at < body.len() && body[at] != 0 && at + body[at] as usize <= body.len() {
        if body[at] > 1 && body[at + 1] == 4 {
            return at;
        }
        at += body[at] as usize;
    }
    body.len()
}

/// The places of the interfaces, each with the end of the bytes that belong to it.
fn interface_places(body: &[u8]) -> Vec<(usize, usize)> {
    let first = next_interface(body, 0);
    let mut at = if first < body.len() { first } else { 0 };
    let mut places = Vec::new();
    while at + 9 <= body.len() && body[at + 1] == 4 {
        let end = next_interface(body, at + body[at] as usize);
        places.push((at, end));
        at = end;
    }
    places
}

/// The places of the endpoints; `None` where looking for them does not end.
fn endpoint_places(wanted: u8, body: &[u8]) -> Option<Vec<usize>> {
    let mut places = Vec::new();
    let mut at = 0;
    while places.len() < wanted as usize && at + 7 <= body.len() && at + body[at] as usize <= body.len() {
        if body[at + 1] == 5 {
            places.push(at);
        } else if body[at] == 0 {
            return None;
        }
        at += body[at] as usize;
    }
    Some(places)
}

#[test]
fn bytes_of_all_kinds_are_taken_apart() {
    let mut state: u32 = 0x2545_f491;
    let mut draw = |n: u32| {
        state ^= state << 13;
        state ^= state >> 17;
        state ^= state << 5;
        state % n
    };
    let mut interfaces = 0;
    let mut endpoints = 0;
    let mut unreadable = 0;
    for _ in 0..20000 {
        let mut body = Vec::new();
        for _ in 0..draw(8) {
            let kind = [4u8, 4, 5, 5, 5, 0x21, 0][draw(7) as usize];
            let natural = match kind {
                4 => 9u8,
                5 => 7,
                _ => 2 + draw(8) as u8,
            };
            let len = match draw(12) {
                0 => draw(12) as u8,
                _ => natural,
            };
            body.extend_from_slice(&[len, kind]);
            for place in 2..natural {
                body.push(if kind == 4 && place == 4 { draw(4) as u8 } else { draw(256) as u8 });
            }
        }
        let cut = draw(4) as usize;
        if draw(6) == 0 && cut <= body.len() {
            body.truncate(body.len() - cut);
        }
        let bytes = config(&[&body]);
        if !is_outline_readable(&bytes) {
            unreadable += 1;
            continue;
        }
        let places = interface_places(&body);
        let outline = read_outline(&bytes).unwrap();
        assert_eq!(outline.interfaces.len(), places.len());
        let mut readable = true;
        for (found, (at, end)) in outline.interfaces.iter().zip(&places) {
            assert_eq!(found.len, body[*at]);
            assert_eq!(found.descriptor_type, 4);
            assert_eq!(found.interface_number, body[at + 2]);
            assert_eq!(found.alternate_setting, body[at + 3]);
            assert_eq!(found.num_endpoints, body[at + 4]);
            assert_eq!(found.interface_class, body[at + 5]);
            assert_eq!(found.interface_subclass, body[at + 6]);
            assert_eq!(found.interface_protocol, body[at + 7]);
            assert_eq!(found.interface_name, body[at + 8]);
            assert_eq!(found.body, body[at + body[*at] as usize..*end].to_vec());
            let ends = endpoint_places(found.num_endpoints, &found.body).is_some();
            assert_eq!(is_endpoints_readable(found), ends);
            readable = readable && ends;
        }
        assert_eq!(is_config_readable(&bytes), readable);
        if !readable {
            unreadable += 1;
            continue;
        }
        interfaces += places.len();
        for i in read_configuration(&bytes).unwrap().interfaces {
            let own = &i.descriptor.body;
            let places = endpoint_places(i.descriptor.num_endpoints, own).unwrap();
            assert!(i.endpoints.len() <= i.descriptor.num_endpoints as usize);
            assert_eq!(i.endpoints.len(), places.len());
            for (ep, at) in i.endpoints.iter().zip(places) {
                assert_eq!(ep.len, own[at]);
                assert_eq!(ep.descriptor_type, 5);
                assert_eq!(ep.endpoint_address, own[at + 2]);
                assert_eq!(ep.attributes, own[at + 3]);
                assert_eq!(ep.max_packet_size, u16::from_le_bytes([own[at + 4], own[at + 5]]));
                assert_eq!(ep.interval, own[at + 6]);
                endpoints += 1;
            }
        }
    }
    assert!(
        interfaces > 5000 && endpoints > 5000 && unreadable > 100,
        "{} {} {}",
        interfaces,
        endpoints,
        unreadable
    );
}
