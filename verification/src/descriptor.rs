//! Reading the configuration descriptor of a device.
//!
//! The bytes are taken apart by the iterators of `embassy_usb_host`; this module turns
//! what they yield into plain data and says on which bytes they may be run.

use crate::bytes;
use embassy_usb_host::descriptor as usb;
use vstd::prelude::*;

verus! {

/// The header of a configuration descriptor, with the descriptors that follow it.
#[derive(Debug)]
pub struct ConfigurationHeader {
    /// Length of the header.
    pub len: u8,
    /// Descriptor type.
    pub descriptor_type: u8,
    /// Length of the header and everything after it.
    pub total_len: u16,
    /// Number of interfaces.
    pub num_interfaces: u8,
    /// The value that selects this configuration.
    pub configuration_value: u8,
    /// Index of the string that names the configuration.
    pub configuration_name: u8,
    /// Power attributes.
    pub attributes: u8,
    /// Power draw.
    pub max_power: u8,
    /// The descriptors after the header.
    pub body: Vec<u8>,
}

/// An interface descriptor, with the descriptors that belong to the interface.
#[derive(Debug)]
pub struct InterfaceDescriptor {
    /// Length of the descriptor.
    pub len: u8,
    /// Descriptor type.
    pub descriptor_type: u8,
    /// Number of the interface.
    pub interface_number: u8,
    /// Which alternate setting this is.
    pub alternate_setting: u8,
    /// Number of endpoints.
    pub num_endpoints: u8,
    /// Class code.
    pub interface_class: u8,
    /// Subclass code.
    pub interface_subclass: u8,
    /// Protocol code.
    pub interface_protocol: u8,
    /// Index of the string that names the interface.
    pub interface_name: u8,
    /// The descriptors up to the next interface.
    pub body: Vec<u8>,
}

/// What an [`InterfaceDescriptor`] holds.
pub struct InterfaceDescriptorView {
    pub len: u8,
    pub descriptor_type: u8,
    pub interface_number: u8,
    pub alternate_setting: u8,
    pub num_endpoints: u8,
    pub interface_class: u8,
    pub interface_subclass: u8,
    pub interface_protocol: u8,
    pub interface_name: u8,
    pub body: Seq<u8>,
}

impl View for InterfaceDescriptor {
    type V = InterfaceDescriptorView;

    open spec fn view(&self) -> InterfaceDescriptorView {
        InterfaceDescriptorView {
            len: self.len,
            descriptor_type: self.descriptor_type,
            interface_number: self.interface_number,
            alternate_setting: self.alternate_setting,
            num_endpoints: self.num_endpoints,
            interface_class: self.interface_class,
            interface_subclass: self.interface_subclass,
            interface_protocol: self.interface_protocol,
            interface_name: self.interface_name,
            body: self.body@,
        }
    }
}

/// An endpoint descriptor.
#[derive(Clone, Copy, Debug, PartialEq, Eq, Structural)]
pub struct EndpointDescriptor {
    /// Length of the descriptor.
    pub len: u8,
    /// Descriptor type.
    pub descriptor_type: u8,
    /// Number of the endpoint, with the direction in the top bit.
    pub endpoint_address: u8,
    /// Transfer type and what goes with it.
    pub attributes: u8,
    /// Largest packet.
    pub max_packet_size: u16,
    /// Polling interval.
    pub interval: u8,
}

impl EndpointDescriptor {
    /// Whether data flows from the device to the host.
    pub open spec fn spec_is_in(self) -> bool {
        bytes::has_bit(self.endpoint_address, 7)
    }

    /// Whether data flows from the device to the host.
    pub fn is_in(&self) -> (r: bool)
        ensures
            r == self.spec_is_in(),
    {
        bytes::bit(self.endpoint_address, 7)
    }

    /// The number of the endpoint, without its direction.
    pub fn ep_number(&self) -> (r: u8)
        ensures
            r == self.endpoint_address % 16,
    {
        self.endpoint_address % 16
    }

    /// The transfer type: 0 control, 1 isochronous, 2 bulk, 3 interrupt.
    pub fn transfer_type(&self) -> (r: u8)
        ensures
            r == self.attributes % 4,
    {
        self.attributes % 4
    }
}

// ── Which bytes can be read ──────────────────────────────────────────────────

/// The bytes start with a configuration descriptor.
pub open spec fn is_configuration(data: Seq<u8>) -> bool {
    data.len() >= 9 && data[1] == 2
}

/// The length that a configuration descriptor gives for itself and what follows.
pub open spec fn total_length(data: Seq<u8>) -> int {
    bytes::le_u16(data[2], data[3])
}

/// The descriptors after the header of a configuration descriptor.
pub open spec fn body_of(data: Seq<u8>) -> Seq<u8> {
    data.subrange(data[0] as int, total_length(data))
}

/// Going from descriptor to descriptor by their length bytes, starting at `at`, one meets
/// no length of one byte before the first interface descriptor. The walk ends at a length
/// of zero and at a descriptor that is not there in full.
pub open spec fn start_found(body: Seq<u8>, at: int) -> bool
    decreases body.len() - at,
{
    if at < 0 || at >= body.len() || body[at] == 0 || at + body[at] > body.len() {
        true
    } else if body[at] == 1 {
        false
    } else if body[at + 1] == 4 {
        true
    } else {
        start_found(body, at + body[at])
    }
}

/// The interfaces can be found: the walk to the first one goes well, and an interface
/// descriptor that comes first of all is there in full.
pub open spec fn interfaces_readable(body: Seq<u8>) -> bool {
    &&& start_found(body, 0)
    &&& body.len() >= 9 && body[1] == 4 ==> body[0] <= body.len()
}

/// Looking for `wanted` endpoint descriptors from `at` on comes to an end: before they are
/// found or fewer than seven bytes are left, no length of zero is met, except on an
/// endpoint descriptor, which is then found again and again.
pub open spec fn endpoints_end(wanted: nat, body: Seq<u8>, at: int) -> bool
    decreases body.len() - at,
{
    if wanted == 0 || at < 0 || at + 7 > body.len() {
        true
    } else if body[at] == 0 {
        body[at + 1] == 5
    } else if at + body[at] > body.len() {
        true
    } else if body[at + 1] == 5 {
        endpoints_end((wanted - 1) as nat, body, at + body[at])
    } else {
        endpoints_end(wanted, body, at + body[at])
    }
}

/// The endpoints of an interface can be found.
pub open spec fn endpoints_readable(d: InterfaceDescriptorView) -> bool {
    endpoints_end(d.num_endpoints as nat, d.body, 0)
}

/// A configuration descriptor that is there in full, as far as its own length fields say.
pub open spec fn header_fits(data: Seq<u8>) -> bool {
    is_configuration(data) ==> data[0] <= total_length(data) <= data.len()
}

/// The bytes are either no configuration descriptor, or one whose interfaces can be found.
pub open spec fn outline_readable(data: Seq<u8>) -> bool {
    &&& header_fits(data)
    &&& is_configuration(data) ==> interfaces_readable(body_of(data))
}

/// The bytes are either no configuration descriptor, or one whose interfaces can be found,
/// with all their endpoints.
pub open spec fn config_readable(data: Seq<u8>) -> bool {
    &&& outline_readable(data)
    &&& is_configuration(data) ==> forall|i: int|
        0 <= i < interfaces_in(body_of(data)).len() ==> endpoints_readable(
            #[trigger] interfaces_in(body_of(data))[i],
        )
}

/// Tells whether the interfaces in a configuration descriptor can be found.
pub fn is_outline_readable(data: &[u8]) -> (r: bool)
    ensures
        r == outline_readable(data@),
{
    if data.len() < 9 || data[1] != 2 {
        return true;
    }
    let start: usize = data[0] as usize;
    let end: usize = bytes::u16_from_le(data[2], data[3]) as usize;
    if start > end || end > data.len() {
        return false;
    }
    let ghost body = body_of(data@);
    if end - start >= 9 && data[start + 1] == 4 && data[start] as usize > end - start {
        assert(body[1] == 4 && body[0] > body.len());
        return false;
    }
    let mut at: usize = start;
    while at < end
        invariant
            start <= at <= end <= data.len(),
            is_configuration(data@),
            header_fits(data@),
            body == body_of(data@),
            body == data@.subrange(start as int, end as int),
            body.len() >= 9 && body[1] == 4 ==> body[0] <= body.len(),
            start_found(body, 0) == start_found(body, at - start),
        decreases end - at,
    {
        let len: usize = data[at] as usize;
        assert(body[at - start] == len);
        if len == 0 || len > end - at {
            return true;
        }
        if len == 1 {
            return false;
        }
        assert(body[at - start + 1] == data@[at + 1]);
        if data[at + 1] == 4 {
            return true;
        }
        at += len;
    }
    true
}

/// Tells whether the endpoints of an interface can be found.
pub fn is_endpoints_readable(d: &InterfaceDescriptor) -> (r: bool)
    ensures
        r == endpoints_readable(d@),
{
    let body = &d.body;
    let mut wanted: u8 = d.num_endpoints;
    let mut at: usize = 0;
    while wanted > 0 && at < body.len() && body.len() - at >= 7
        invariant
            body@ == d.body@,
            endpoints_readable(d@) == endpoints_end(wanted as nat, body@, at as int),
        decreases body.len() - at,
    {
        let len: usize = body[at] as usize;
        if len == 0 {
            return body[at + 1] == 5;
        }
        if len > body.len() - at {
            return true;
        }
        if body[at + 1] == 5 {
            wanted -= 1;
        }
        at += len;
    }
    true
}

// ── Taking a configuration apart ─────────────────────────────────────────────

/// Where the next interface descriptor begins, at `at` or behind it: one goes from
/// descriptor to descriptor by their length bytes, up to a length of zero or a descriptor
/// that is not there in full. The end of the bytes where there is none.
pub open spec fn next_interface(body: Seq<u8>, at: int) -> int
    decreases body.len() - at,
{
    if at < 0 || at >= body.len() || body[at] == 0 || at + body[at] > body.len() {
        body.len() as int
    } else if body[at] > 1 && body[at + 1] == 4 {
        at
    } else {
        next_interface(body, at + body[at])
    }
}

/// The interface descriptor at `at`; the bytes between it and `end` belong to the interface.
pub open spec fn interface_at(body: Seq<u8>, at: int, end: int) -> InterfaceDescriptorView {
    InterfaceDescriptorView {
        len: body[at],
        descriptor_type: body[at + 1],
        interface_number: body[at + 2],
        alternate_setting: body[at + 3],
        num_endpoints: body[at + 4],
        interface_class: body[at + 5],
        interface_subclass: body[at + 6],
        interface_protocol: body[at + 7],
        interface_name: body[at + 8],
        body: body.subrange(at + body[at], end),
    }
}

/// The interfaces from `at` on, where an interface descriptor begins or nothing is left.
/// To each belong the bytes up to the next.
pub open spec fn interfaces_from(body: Seq<u8>, at: int) -> Seq<InterfaceDescriptorView>
    decreases body.len() - at,
{
    if at < 0 || at + 9 > body.len() || body[at + 1] != 4 {
        Seq::empty()
    } else {
        let end = next_interface(body, at + body[at]);
        proof {
            lemma_next_interface(body, at + body[at]);
        }
        seq![interface_at(body, at, end)] + interfaces_from(body, end)
    }
}

/// The interfaces in the bytes behind the header of a configuration descriptor.
pub open spec fn interfaces_in(body: Seq<u8>) -> Seq<InterfaceDescriptorView> {
    let first = next_interface(body, 0);
    interfaces_from(
        body,
        if first < body.len() {
            first
        } else {
            0
        },
    )
}

/// The endpoint descriptor at `at`.
pub open spec fn endpoint_at(body: Seq<u8>, at: int) -> EndpointDescriptor {
    EndpointDescriptor {
        len: body[at],
        descriptor_type: body[at + 1],
        endpoint_address: body[at + 2],
        attributes: body[at + 3],
        max_packet_size: bytes::le_u16(body[at + 4], body[at + 5]) as u16,
        interval: body[at + 6],
    }
}

/// The first `wanted` endpoints from `at` on, as far as there are so many.
pub open spec fn endpoints_from(wanted: nat, body: Seq<u8>, at: int) -> Seq<EndpointDescriptor>
    decreases wanted, body.len() - at,
{
    if wanted == 0 || at < 0 || at + 7 > body.len() {
        Seq::empty()
    } else if at + body[at] > body.len() {
        Seq::empty()
    } else if body[at + 1] == 5 {
        seq![endpoint_at(body, at)] + endpoints_from((wanted - 1) as nat, body, at + body[at])
    } else if body[at] == 0 {
        Seq::empty()
    } else {
        endpoints_from(wanted, body, at + body[at])
    }
}

/// The endpoints in the bytes that belong to an interface.
pub open spec fn endpoints_in(d: InterfaceDescriptorView) -> Seq<EndpointDescriptor> {
    endpoints_from(d.num_endpoints as nat, d.body, 0)
}

/// The search for the next interface descriptor never goes back, and what it finds is one
/// that is there in full.
pub proof fn lemma_next_interface(body: Seq<u8>, at: int)
    ensures
        next_interface(body, at) <= body.len(),
        next_interface(body, at) >= at || next_interface(body, at) == body.len(),
        next_interface(body, at) < body.len() ==> {
            let found = next_interface(body, at);
            0 <= found && body[found] >= 2 && body[found + 1] == 4 && found + body[found]
                <= body.len()
        },
    decreases body.len() - at,
{
    if !(at < 0 || at >= body.len() || body[at] == 0 || at + body[at] > body.len()) && !(body[at]
        > 1 && body[at + 1] == 4) {
        lemma_next_interface(body, at + body[at]);
    }
}

/// The views of a list of interface descriptors.
pub open spec fn interface_views(list: Seq<InterfaceDescriptor>) -> Seq<InterfaceDescriptorView> {
    list.map_values(|i: InterfaceDescriptor| i@)
}

/// Calls `ConfigurationDescriptor::try_from_slice` of `embassy_usb_host`.
///
/// Trusted: it accepts the bytes exactly when there are nine of them and the second is
/// the type of a configuration descriptor; it then reads the fields from their fixed
/// places, and what follows the header is what lies between the header's own length and
/// the total length. It panics where these two are not in order or reach past the end.
#[verifier::external_body]
fn read_header(data: &[u8]) -> (r: Option<ConfigurationHeader>)
    requires
        header_fits(data@),
    ensures
        r is Some <==> is_configuration(data@),
        r matches Some(h) ==> {
            &&& h.len == data@[0]
            &&& h.descriptor_type == data@[1]
            &&& h.total_len == total_length(data@)
            &&& h.num_interfaces == data@[4]
            &&& h.configuration_value == data@[5]
            &&& h.configuration_name == data@[6]
            &&& h.attributes == data@[7]
            &&& h.max_power == data@[8]
            &&& h.body@ == body_of(data@)
        },
{
    let c = usb::ConfigurationDescriptor::try_from_slice(data).ok()?;
    Some(ConfigurationHeader {
        len: c.len,
        descriptor_type: c.descriptor_type,
        total_len: c.total_len,
        num_interfaces: c.num_interfaces,
        configuration_value: c.configuration_value,
        configuration_name: c.configuration_name,
        attributes: c.attributes,
        max_power: c.max_power,
        body: c.buffer.to_vec(),
    })
}

/// Calls `ConfigurationDescriptor::iter_interface` of `embassy_usb_host` and runs the
/// iterator to its end.
///
/// Trusted: it yields the interfaces one after the other, starting with the first one that
/// is met going from descriptor to descriptor, or at the first byte where none is met; each
/// holds the bytes between its own descriptor and the next interface descriptor. Only the
/// bytes behind the header count. Where the interfaces are not readable, it indexes past the
/// end of a slice.
#[verifier::external_body]
fn list_interfaces(h: &ConfigurationHeader) -> (r: Vec<InterfaceDescriptor>)
    requires
        interfaces_readable(h.body@),
    ensures
        interface_views(r@) == interfaces_in(h.body@),
{
    let (len, descriptor_type, total_len) = (h.len, h.descriptor_type, h.total_len);
    let (num_interfaces, configuration_value) = (h.num_interfaces, h.configuration_value);
    let (configuration_name, attributes) = (h.configuration_name, h.attributes);
    let (max_power, buffer) = (h.max_power, h.body.as_slice());
    let c = usb::ConfigurationDescriptor { len, descriptor_type, total_len, num_interfaces,
        configuration_value, configuration_name, attributes, max_power, buffer };
    c.iter_interface().map(|i| InterfaceDescriptor {
        len: i.len, descriptor_type: i.descriptor_type, interface_number: i.interface_number,
        alternate_setting: i.alternate_setting, num_endpoints: i.num_endpoints,
        interface_class: i.interface_class, interface_subclass: i.interface_subclass,
        interface_protocol: i.interface_protocol, interface_name: i.interface_name,
        body: i.buffer.to_vec(),
    }).collect()
}

/// Calls `InterfaceDescriptor::iter_endpoints` of `embassy_usb_host` and runs the
/// iterator to its end.
///
/// Trusted: it goes from descriptor to descriptor through the bytes that belong to the
/// interface and yields those that are endpoint descriptors, as many as the interface
/// announces at most, until fewer than seven bytes are left. Where the endpoints are not
/// readable, it does not end.
#[verifier::external_body]
pub(crate) fn list_endpoints(d: &InterfaceDescriptor) -> (r: Vec<EndpointDescriptor>)
    requires
        endpoints_readable(d@),
    ensures
        r@ == endpoints_in(d@),
{
    let i = usb::InterfaceDescriptor {
        len: d.len, descriptor_type: d.descriptor_type, interface_number: d.interface_number,
        alternate_setting: d.alternate_setting, num_endpoints: d.num_endpoints,
        interface_class: d.interface_class, interface_subclass: d.interface_subclass,
        interface_protocol: d.interface_protocol, interface_name: d.interface_name,
        buffer: d.body.as_slice(),
    };
    i.iter_endpoints().map(|e| EndpointDescriptor {
        len: e.len, descriptor_type: e.descriptor_type, endpoint_address: e.endpoint_address,
        attributes: e.attributes, max_packet_size: e.max_packet_size, interval: e.interval,
    }).collect()
}

/// An interface with its endpoints.
#[derive(Debug)]
pub struct Interface {
    /// The descriptor of the interface.
    pub descriptor: InterfaceDescriptor,
    /// The endpoints, in the order of the configuration descriptor.
    pub endpoints: Vec<EndpointDescriptor>,
}

/// What an [`Interface`] holds.
pub struct InterfaceView {
    pub descriptor: InterfaceDescriptorView,
    pub endpoints: Seq<EndpointDescriptor>,
}

impl View for Interface {
    type V = InterfaceView;

    open spec fn view(&self) -> InterfaceView {
        InterfaceView { descriptor: self.descriptor@, endpoints: self.endpoints@ }
    }
}

/// A configuration descriptor, taken apart.
#[derive(Debug)]
pub struct Configuration {
    /// Length of the header and everything after it.
    pub total_len: u16,
    /// Number of interfaces.
    pub num_interfaces: u8,
    /// The value that selects this configuration.
    pub configuration_value: u8,
    /// The interfaces, in the order of the configuration descriptor.
    pub interfaces: Vec<Interface>,
}

/// What a [`Configuration`] holds.
pub struct ConfigurationView {
    pub total_len: int,
    pub num_interfaces: u8,
    pub configuration_value: u8,
    pub interfaces: Seq<InterfaceView>,
}

impl View for Configuration {
    type V = ConfigurationView;

    open spec fn view(&self) -> ConfigurationView {
        ConfigurationView {
            total_len: self.total_len as int,
            num_interfaces: self.num_interfaces,
            configuration_value: self.configuration_value,
            interfaces: self.interfaces@.map_values(|i: Interface| i@),
        }
    }
}

/// An interface together with its endpoints.
pub open spec fn with_endpoints(d: InterfaceDescriptorView) -> InterfaceView {
    InterfaceView { descriptor: d, endpoints: endpoints_in(d) }
}

/// What the bytes of a configuration descriptor hold; `None` where they are none.
pub open spec fn parsed_configuration(data: Seq<u8>) -> Option<ConfigurationView> {
    if is_configuration(data) {
        Some(
            ConfigurationView {
                total_len: total_length(data),
                num_interfaces: data[4],
                configuration_value: data[5],
                interfaces: interfaces_in(body_of(data)).map_values(
                    |d: InterfaceDescriptorView| with_endpoints(d),
                ),
            },
        )
    } else {
        None
    }
}

/// The header of a configuration descriptor, with the interface descriptors behind it.
#[derive(Debug)]
pub struct Outline {
    /// The header.
    pub header: ConfigurationHeader,
    /// The interface descriptors, in order.
    pub interfaces: Vec<InterfaceDescriptor>,
}

/// Finds the interfaces in a configuration descriptor; `None` where the bytes are none.
pub fn read_outline(data: &[u8]) -> (r: Option<Outline>)
    requires
        outline_readable(data@),
    ensures
        r is Some <==> is_configuration(data@),
        r matches Some(outline) ==> {
            &&& outline.header.len == data@[0]
            &&& outline.header.descriptor_type == data@[1]
            &&& outline.header.total_len == total_length(data@)
            &&& outline.header.num_interfaces == data@[4]
            &&& outline.header.configuration_value == data@[5]
            &&& outline.header.configuration_name == data@[6]
            &&& outline.header.attributes == data@[7]
            &&& outline.header.max_power == data@[8]
            &&& outline.header.body@ == body_of(data@)
            &&& interface_views(outline.interfaces@) == interfaces_in(body_of(data@))
        },
{
    match read_header(data) {
        Some(header) => {
            let interfaces = list_interfaces(&header);
            Some(Outline { header, interfaces })
        },
        None => None,
    }
}

/// Tells whether a configuration descriptor can be taken apart.
pub fn is_config_readable(data: &[u8]) -> (r: bool)
    ensures
        r == config_readable(data@),
{
    if !is_outline_readable(data) {
        return false;
    }
    let outline = match read_outline(data) {
        Some(outline) => outline,
        None => return true,
    };
    let ghost views = interfaces_in(body_of(data@));
    let mut i: usize = 0;
    while i < outline.interfaces.len()
        invariant
            i <= outline.interfaces.len(),
            is_configuration(data@),
            views == interfaces_in(body_of(data@)),
            interface_views(outline.interfaces@) == views,
            forall|k: int| 0 <= k < i ==> endpoints_readable(#[trigger] views[k]),
        decreases outline.interfaces.len() - i,
    {
        assert(views[i as int] == interface_views(outline.interfaces@)[i as int]);
        if !is_endpoints_readable(&outline.interfaces[i]) {
            assert(!endpoints_readable(views[i as int]));
            return false;
        }
        i += 1;
    }
    assert(views.len() == outline.interfaces@.len());
    true
}

/// Takes a configuration descriptor apart; `None` where the bytes are none.
///
/// On bytes that are not readable the outside iterators panic or do not end:
/// see [`is_config_readable`].
pub fn read_configuration(data: &[u8]) -> (r: Option<Configuration>)
    requires
        config_readable(data@),
    ensures
        r is Some <==> parsed_configuration(data@) is Some,
        r matches Some(c) ==> parsed_configuration(data@) == Some(c@),
{
    let outline = match read_outline(data) {
        Some(outline) => outline,
        None => return None,
    };
    let header = outline.header;
    let found = outline.interfaces;
    let ghost views = interfaces_in(body_of(data@));
    assert(interface_views(found@) == views);
    let mut interfaces: Vec<Interface> = Vec::new();
    for descriptor in iter: found
        invariant
            interface_views(iter.seq()) == views,
            forall|i: int| 0 <= i < views.len() ==> endpoints_readable(#[trigger] views[i]),
            interfaces@.len() == iter.index(),
            forall|i: int|
                0 <= i < interfaces@.len() ==> (#[trigger] interfaces@[i])@ == with_endpoints(
                    views[i],
                ),
    {
        let ghost k = iter.index();
        assert(interface_views(iter.seq())[k] == descriptor@);
        assert(endpoints_readable(views[k]));
        let endpoints = list_endpoints(&descriptor);
        interfaces.push(Interface { descriptor, endpoints });
    }
    let config = Configuration {
        total_len: header.total_len,
        num_interfaces: header.num_interfaces,
        configuration_value: header.configuration_value,
        interfaces,
    };
    assert(config@.interfaces =~= parsed_configuration(data@)->0.interfaces);
    Some(config)
}

// ── Laws ─────────────────────────────────────────────────────────────────────

/// What follows the total length of a configuration descriptor does not count.
pub proof fn lemma_bytes_behind_do_not_count(data: Seq<u8>, more: Seq<u8>)
    requires
        is_configuration(data),
        header_fits(data),
    ensures
        config_readable(data + more) == config_readable(data),
        parsed_configuration(data + more) == parsed_configuration(data),
{
    assert forall|i: int| 0 <= i < data.len() implies (data + more)[i] == data[i] by {}
    assert(body_of(data + more) =~= body_of(data));
}

/// What is found from `at` on are interface descriptors.
proof fn lemma_interfaces_from(body: Seq<u8>, at: int)
    ensures
        forall|i: int|
            0 <= i < interfaces_from(body, at).len() ==> (#[trigger] interfaces_from(
                body,
                at,
            )[i]).descriptor_type == 4,
    decreases body.len() - at,
{
    if !(at < 0 || at + 9 > body.len() || body[at + 1] != 4) {
        let end = next_interface(body, at + body[at]);
        lemma_next_interface(body, at + body[at]);
        lemma_interfaces_from(body, end);
        let rest = interfaces_from(body, end);
        assert forall|i: int| 0 <= i < interfaces_from(body, at).len() implies (
        #[trigger] interfaces_from(body, at)[i]).descriptor_type == 4 by {
            if i > 0 {
                assert(interfaces_from(body, at)[i] == rest[i - 1]);
            }
        }
    }
}

/// Every interface of a configuration is an interface descriptor.
pub proof fn lemma_interfaces_are_interfaces(body: Seq<u8>)
    ensures
        forall|i: int|
            0 <= i < interfaces_in(body).len() ==> (#[trigger] interfaces_in(
                body,
            )[i]).descriptor_type == 4,
{
    lemma_interfaces_from(body, 0);
    lemma_interfaces_from(body, next_interface(body, 0));
}

/// At most the wanted number of endpoints is found, and all are endpoint descriptors.
proof fn lemma_endpoints_from(wanted: nat, body: Seq<u8>, at: int)
    ensures
        endpoints_from(wanted, body, at).len() <= wanted,
        forall|i: int|
            0 <= i < endpoints_from(wanted, body, at).len() ==> (#[trigger] endpoints_from(
                wanted,
                body,
                at,
            )[i]).descriptor_type == 5,
    decreases wanted, body.len() - at,
{
    if !(wanted == 0 || at < 0 || at + 7 > body.len()) && at + body[at] <= body.len() {
        if body[at + 1] == 5 {
            let rest = endpoints_from((wanted - 1) as nat, body, at + body[at]);
            lemma_endpoints_from((wanted - 1) as nat, body, at + body[at]);
            assert forall|i: int| 0 <= i < endpoints_from(wanted, body, at).len() implies (
            #[trigger] endpoints_from(wanted, body, at)[i]).descriptor_type == 5 by {
                if i > 0 {
                    assert(endpoints_from(wanted, body, at)[i] == rest[i - 1]);
                }
            }
        } else if body[at] != 0 {
            lemma_endpoints_from(wanted, body, at + body[at]);
        }
    }
}

/// An interface has no more endpoints than it announces, and all of them are endpoint
/// descriptors.
pub proof fn lemma_endpoints_are_endpoints(d: InterfaceDescriptorView)
    ensures
        endpoints_in(d).len() <= d.num_endpoints,
        forall|i: int|
            0 <= i < endpoints_in(d).len() ==> (#[trigger] endpoints_in(d)[i]).descriptor_type == 5,
{
    lemma_endpoints_from(d.num_endpoints as nat, d.body, 0);
}

/// The header of a configuration descriptor: nine bytes with a 2 in the second place; the
/// total length in the third and fourth, low byte first, then the number of interfaces and
/// the value.
pub proof fn lemma_header_places(data: Seq<u8>)
    ensures
        parsed_configuration(data) is Some <==> data.len() >= 9 && data[1] == 2,
        parsed_configuration(data) matches Some(c) ==> c.total_len == data[2] + 256 * data[3]
            && c.num_interfaces == data[4] && c.configuration_value == data[5],
{
}

/// Bytes in front of the place where the search begins do not count.
proof fn lemma_endpoints_shift(wanted: nat, front: Seq<u8>, body: Seq<u8>, at: int)
    requires
        at >= 0,
    ensures
        endpoints_from(wanted, front + body, front.len() + at) == endpoints_from(wanted, body, at),
        endpoints_end(wanted, front + body, front.len() + at) == endpoints_end(wanted, body, at),
    decreases wanted, body.len() - at,
{
    let all = front + body;
    let k = front.len() + at;
    if wanted > 0 && at + 7 <= body.len() {
        assert(all[k + 0] == body[at + 0] && all[k + 1] == body[at + 1]);
        assert(all[k + 2] == body[at + 2] && all[k + 3] == body[at + 3]);
        assert(all[k + 4] == body[at + 4] && all[k + 5] == body[at + 5]);
        assert(all[k + 6] == body[at + 6]);
        if at + body[at] <= body.len() {
            if body[at + 1] == 5 {
                lemma_endpoints_shift((wanted - 1) as nat, front, body, at + body[at]);
                if body[at] > 0 {
                    lemma_endpoints_shift(wanted, front, body, at + body[at]);
                }
            } else if body[at] != 0 {
                lemma_endpoints_shift(wanted, front, body, at + body[at]);
            }
        }
    }
}

/// An endpoint descriptor of seven bytes that comes first is the first endpoint: length,
/// type, address, attributes, packet size with the low byte first, and interval. The others
/// are those of the bytes behind it.
pub proof fn lemma_endpoint_comes_first(
    wanted: nat,
    address: u8,
    attributes: u8,
    lo: u8,
    hi: u8,
    interval: u8,
    rest: Seq<u8>,
)
    requires
        wanted > 0,
    ensures
        ({
            let body = seq![7u8, 5, address, attributes, lo, hi, interval] + rest;
            let found = endpoints_from(wanted, body, 0);
            &&& found.len() >= 1
            &&& found[0].len == 7 && found[0].descriptor_type == 5
            &&& found[0].endpoint_address == address && found[0].attributes == attributes
            &&& found[0].max_packet_size == lo + 256 * hi && found[0].interval == interval
            &&& found.drop_first() == endpoints_from((wanted - 1) as nat, rest, 0)
            &&& endpoints_end(wanted, body, 0) == endpoints_end((wanted - 1) as nat, rest, 0)
        }),
{
    let front = seq![7u8, 5, address, attributes, lo, hi, interval];
    let body = front + rest;
    lemma_endpoints_shift((wanted - 1) as nat, front, rest, 0);
    assert(body[0] == 7 && body[1] == 5 && body[2] == address && body[3] == attributes && body[4]
        == lo && body[5] == hi && body[6] == interval);
    let found = endpoints_from(wanted, body, 0);
    assert(found.drop_first() =~= endpoints_from((wanted - 1) as nat, body, 7));
}

/// A descriptor of another kind that comes first is passed over, provided that it has a
/// length.
pub proof fn lemma_other_descriptors_are_passed_over(wanted: nat, front: Seq<u8>, rest: Seq<u8>)
    requires
        front.len() >= 7,
        front[0] == front.len(),
        front[1] != 5,
    ensures
        endpoints_from(wanted, front + rest, 0) == endpoints_from(wanted, rest, 0),
        endpoints_end(wanted, front + rest, 0) == endpoints_end(wanted, rest, 0),
{
    lemma_endpoints_shift(wanted, front, rest, 0);
    assert((front + rest)[0] == front[0] && (front + rest)[1] == front[1]);
}

/// Bytes in front of the place where the search begins do not count.
proof fn lemma_next_shift(front: Seq<u8>, body: Seq<u8>, at: int)
    requires
        at >= 0,
    ensures
        next_interface(front + body, front.len() + at) == front.len() + next_interface(body, at),
        start_found(front + body, front.len() + at) == start_found(body, at),
    decreases body.len() - at,
{
    let all = front + body;
    let k = front.len() + at;
    if at < body.len() {
        assert(all[k] == body[at]);
        if body[at] != 0 && at + body[at] <= body.len() {
            if body[at] > 1 {
                assert(all[k + 1] == body[at + 1]);
            }
            lemma_next_shift(front, body, at + body[at]);
        }
    }
}

proof fn lemma_interfaces_shift(front: Seq<u8>, body: Seq<u8>, at: int)
    requires
        at >= 0,
        at + 9 <= body.len() && body[at + 1] == 4 ==> at + body[at] <= body.len(),
    ensures
        interfaces_from(front + body, front.len() + at) =~= interfaces_from(body, at),
    decreases body.len() - at,
{
    let all = front + body;
    let k = front.len() + at;
    if at + 9 <= body.len() {
        assert(all[k + 0] == body[at + 0] && all[k + 1] == body[at + 1] && all[k + 2] == body[at
            + 2]);
        assert(all[k + 3] == body[at + 3] && all[k + 4] == body[at + 4] && all[k + 5] == body[at
            + 5]);
        assert(all[k + 6] == body[at + 6] && all[k + 7] == body[at + 7] && all[k + 8] == body[at
            + 8]);
        if body[at + 1] == 4 {
            lemma_next_shift(front, body, at + body[at]);
            lemma_next_interface(body, at + body[at]);
            let end = next_interface(body, at + body[at]);
            assert(all.subrange(k + body[at], front.len() + end) =~= body.subrange(
                at + body[at],
                end,
            ));
            lemma_interfaces_shift(front, body, end);
        }
    }
}

/// An interface descriptor of nine bytes that comes first is the first interface: number,
/// alternate setting, number of endpoints, class, subclass, protocol and name in their
/// places. The bytes up to the next interface descriptor are its own, and the other
/// interfaces are those from there on.
pub proof fn lemma_interface_comes_first(head: Seq<u8>, rest: Seq<u8>)
    requires
        head.len() == 9,
        head[0] == 9,
        head[1] == 4,
    ensures
        ({
            let found = interfaces_in(head + rest);
            let end = next_interface(rest, 0);
            &&& interfaces_readable(head + rest)
            &&& found.len() >= 1
            &&& found[0].interface_number == head[2] && found[0].alternate_setting == head[3]
            &&& found[0].num_endpoints == head[4] && found[0].interface_class == head[5]
            &&& found[0].interface_subclass == head[6] && found[0].interface_protocol == head[7]
            &&& found[0].interface_name == head[8]
            &&& found[0].body == rest.take(end)
            &&& found.drop_first() == interfaces_from(rest, end)
        }),
{
    let body = head + rest;
    let end = next_interface(rest, 0);
    assert(body[0] == 9 && body[1] == 4 && body[2] == head[2] && body[3] == head[3] && body[4]
        == head[4]);
    assert(body[5] == head[5] && body[6] == head[6] && body[7] == head[7] && body[8] == head[8]);
    lemma_next_shift(head, rest, 0);
    lemma_next_interface(rest, 0);
    lemma_interfaces_shift(head, rest, end);
    assert(next_interface(body, 0) == 0);
    assert(body.subrange(9, 9 + end) =~= rest.take(end));
    let found = interfaces_in(body);
    assert(found =~= seq![interface_at(body, 0, 9 + end)] + interfaces_from(body, 9 + end));
    assert(found.drop_first() =~= interfaces_from(rest, end));
}

/// What is taken apart are the bytes between the end of the header, as the header gives it,
/// and the total length.
pub proof fn lemma_where_the_body_is(data: Seq<u8>)
    requires
        is_configuration(data),
        header_fits(data),
    ensures
        body_of(data).len() == data[2] + 256 * data[3] - data[0],
        forall|i: int|
            0 <= i < body_of(data).len() ==> #[trigger] body_of(data)[i] == data[data[0] + i],
{
}

/// A configuration has the interfaces that its bytes hold, in order, each with its own
/// endpoints.
pub proof fn lemma_what_a_configuration_holds(data: Seq<u8>, c: ConfigurationView)
    requires
        parsed_configuration(data) == Some(c),
    ensures
        c.interfaces.len() == interfaces_in(body_of(data)).len(),
        forall|i: int|
            0 <= i < c.interfaces.len() ==> (#[trigger] c.interfaces[i]).descriptor == interfaces_in(
                body_of(data),
            )[i] && c.interfaces[i].endpoints == endpoints_from(
                c.interfaces[i].descriptor.num_endpoints as nat,
                c.interfaces[i].descriptor.body,
                0,
            ),
{
}

} // verus!
