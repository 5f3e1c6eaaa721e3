//! The USB port itself: devices that come and go, and what they say of themselves.

use crate::descriptor;
use crate::descriptor::{Configuration, EndpointDescriptor, Interface};
use crate::errors::{EnumerationError, PipeError};
use crate::text;
use vstd::prelude::*;
use vstd::string::StringExecFns;

verus! {

/// The part of a device descriptor that tells devices apart.
#[derive(Clone, Copy, Debug, PartialEq, Eq, Structural)]
pub struct DeviceDescriptor {
    /// Vendor number.
    pub vendor_id: u16,
    /// Product number.
    pub product_id: u16,
}

/// What is known of a device once it has been enumerated.
#[derive(Clone, Copy, Debug, PartialEq, Eq, Structural)]
pub struct EnumerationInfo {
    /// The address that the device was given.
    pub device_address: u8,
    /// What the device says it is.
    pub device_desc: DeviceDescriptor,
}

// ── Devices that come and go ─────────────────────────────────────────────────

/// What happens on the root port.
#[derive(Clone, Copy, Debug, PartialEq, Eq, Structural)]
pub enum PortEvent {
    /// A device was plugged in.
    Connected,
    /// The device was unplugged.
    Disconnected,
    /// Something that concerns no device.
    Other,
}

/// What to do about an event on the root port.
#[derive(Clone, Copy, Debug, PartialEq, Eq, Structural)]
pub struct PortAction {
    /// Give this address back to the bus.
    pub free: Option<u8>,
    /// Then enumerate the device.
    pub enumerate: bool,
}

/// The root port.
#[derive(Clone, Copy, Debug, PartialEq, Eq, Structural)]
pub struct Port {
    /// The address of the device that was enumerated last, until it is given back.
    pub device_addr: Option<u8>,
}

impl Port {
    /// The port before any device came.
    pub open spec fn empty() -> Port {
        Port { device_addr: None }
    }

    /// The port after an event.
    pub open spec fn after(self, event: PortEvent) -> Port {
        match event {
            PortEvent::Connected | PortEvent::Disconnected => Port { device_addr: None },
            PortEvent::Other => self,
        }
    }

    /// The address that an event sets free.
    pub open spec fn freed_by(self, event: PortEvent) -> Option<u8> {
        match event {
            PortEvent::Connected | PortEvent::Disconnected => self.device_addr,
            PortEvent::Other => None,
        }
    }

    /// The port once a device was enumerated, or could not be.
    pub open spec fn with_device(self, address: Option<u8>) -> Port {
        match address {
            Some(_) => Port { device_addr: address },
            None => self,
        }
    }

    /// The port before any device came.
    pub fn new() -> (p: Port)
        ensures
            p == Port::empty(),
    {
        Port { device_addr: None }
    }

    /// Takes note of an event. The address of the device before is given back as soon as
    /// that device is gone or another one is there.
    pub fn on_event(&mut self, event: PortEvent) -> (a: PortAction)
        ensures
            *final(self) == old(self).after(event),
            a.free == old(self).freed_by(event),
            a.enumerate == (event == PortEvent::Connected),
    {
        match event {
            PortEvent::Connected => {
                let free = self.device_addr;
                self.device_addr = None;
                PortAction { free, enumerate: true }
            },
            PortEvent::Disconnected => {
                let free = self.device_addr;
                self.device_addr = None;
                PortAction { free, enumerate: false }
            },
            PortEvent::Other => PortAction { free: None, enumerate: false },
        }
    }

    /// Takes note of the device that was enumerated, if it could be, and tells whether
    /// there is one to look at.
    pub fn on_enumerated(&mut self, device: Option<EnumerationInfo>) -> (there: bool)
        ensures
            *final(self) == old(self).with_device(
                match device {
                    Some(info) => Some(info.device_address),
                    None => None,
                },
            ),
            there == (device is Some),
    {
        match device {
            Some(info) => {
                self.device_addr = Some(info.device_address);
                true
            },
            None => false,
        }
    }
}

/// One turn of the port: an event, and where a device was plugged in, the address that it
/// was given, if it could be enumerated.
pub enum PortTurn {
    Connected(Option<u8>),
    Disconnected,
    Other,
}

impl PortTurn {
    /// The event of the turn.
    pub open spec fn event(self) -> PortEvent {
        match self {
            PortTurn::Connected(_) => PortEvent::Connected,
            PortTurn::Disconnected => PortEvent::Disconnected,
            PortTurn::Other => PortEvent::Other,
        }
    }

    /// The address that was given out in the turn.
    pub open spec fn assigned(self) -> Option<u8> {
        match self {
            PortTurn::Connected(address) => address,
            _ => None,
        }
    }
}

/// At most one address, as a list.
pub open spec fn listed(address: Option<u8>) -> Seq<u8> {
    match address {
        Some(a) => seq![a],
        None => Seq::empty(),
    }
}

/// The port after some turns.
pub open spec fn port_after(turns: Seq<PortTurn>) -> Port
    decreases turns.len(),
{
    if turns.len() == 0 {
        Port::empty()
    } else {
        port_after(turns.drop_last()).after(turns.last().event()).with_device(
            turns.last().assigned(),
        )
    }
}

/// The addresses that were given out in some turns.
pub open spec fn assigned_in(turns: Seq<PortTurn>) -> Seq<u8>
    decreases turns.len(),
{
    if turns.len() == 0 {
        Seq::empty()
    } else {
        assigned_in(turns.drop_last()) + listed(turns.last().assigned())
    }
}

/// The addresses that were given back in some turns.
pub open spec fn freed_in(turns: Seq<PortTurn>) -> Seq<u8>
    decreases turns.len(),
{
    if turns.len() == 0 {
        Seq::empty()
    } else {
        freed_in(turns.drop_last()) + listed(
            port_after(turns.drop_last()).freed_by(turns.last().event()),
        )
    }
}

/// No address is lost and none is given back twice: those that were given out are, in
/// order, those that were given back and the one that is still held.
pub proof fn lemma_addresses_are_given_back(turns: Seq<PortTurn>)
    ensures
        assigned_in(turns) == freed_in(turns) + listed(port_after(turns).device_addr),
    decreases turns.len(),
{
    if turns.len() > 0 {
        lemma_addresses_are_given_back(turns.drop_last());
    }
    assert(assigned_in(turns) =~= freed_in(turns) + listed(port_after(turns).device_addr));
}

/// Once a device is unplugged, no address is held.
pub proof fn lemma_nothing_is_held_after_removal(turns: Seq<PortTurn>)
    requires
        turns.len() > 0,
        turns.last() is Disconnected,
    ensures
        port_after(turns).device_addr is None,
        assigned_in(turns) == freed_in(turns),
{
    lemma_addresses_are_given_back(turns);
    assert(freed_in(turns) + Seq::empty() =~= freed_in(turns));
}

// ── What a device says of itself ─────────────────────────────────────────────

/// The lines of text in a list of strings.
pub open spec fn lines_of(lines: Seq<String>) -> Seq<Seq<char>> {
    lines.map_values(|s: String| s@)
}

/// A byte in hexadecimal, with its prefix.
pub open spec fn hex_byte(n: u8) -> Seq<char> {
    "0x"@ + text::hex(n as nat, 2)
}

/// The truth value as text.
pub open spec fn bool_text(b: bool) -> Seq<char> {
    if b {
        "true"@
    } else {
        "false"@
    }
}

/// The line about a configuration.
pub open spec fn configuration_line(c: descriptor::ConfigurationView) -> Seq<char> {
    "configuration: interfaces="@ + text::decimal(c.num_interfaces as nat) + ", total_len="@
        + text::decimal(c.total_len as nat) + ", value="@ + text::decimal(
        c.configuration_value as nat,
    )
}

/// The line about an interface.
pub open spec fn interface_line(d: descriptor::InterfaceDescriptorView) -> Seq<char> {
    "interface: num="@ + text::decimal(d.interface_number as nat) + ", alt="@ + text::decimal(
        d.alternate_setting as nat,
    ) + ", class="@ + hex_byte(d.interface_class) + ", subclass="@ + hex_byte(d.interface_subclass)
        + ", protocol="@ + hex_byte(d.interface_protocol) + ", endpoints="@ + text::decimal(
        d.num_endpoints as nat,
    )
}

/// The line about an endpoint.
pub open spec fn endpoint_line(e: EndpointDescriptor) -> Seq<char> {
    "  endpoint: addr="@ + hex_byte(e.endpoint_address) + ", num="@ + text::decimal(
        (e.endpoint_address % 16) as nat,
    ) + ", in="@ + bool_text(e.spec_is_in()) + ", type="@ + text::decimal((e.attributes % 4) as nat)
        + ", max_packet="@ + text::decimal(e.max_packet_size as nat) + ", interval="@
        + text::decimal(e.interval as nat)
}

/// The lines about an interface and its endpoints.
pub open spec fn interface_lines(i: descriptor::InterfaceView) -> Seq<Seq<char>> {
    seq![interface_line(i.descriptor)] + i.endpoints.map_values(
        |e: EndpointDescriptor| endpoint_line(e),
    )
}

/// The lines about some interfaces, one after the other.
pub open spec fn all_interface_lines(interfaces: Seq<descriptor::InterfaceView>) -> Seq<Seq<char>>
    decreases interfaces.len(),
{
    if interfaces.len() == 0 {
        Seq::empty()
    } else {
        all_interface_lines(interfaces.drop_last()) + interface_lines(interfaces.last())
    }
}

/// The lines about a configuration descriptor that was taken apart, or could not be.
pub open spec fn config_lines(config: Option<descriptor::ConfigurationView>) -> Seq<Seq<char>> {
    match config {
        None => seq!["parse configuration failed: InvalidDescriptor"@],
        Some(c) => seq![configuration_line(c)] + all_interface_lines(c.interfaces),
    }
}

fn push_hex_prefixed(out: &mut String, n: u8)
    ensures
        final(out)@ == old(out)@ + hex_byte(n),
{
    out.append("0x");
    text::push_hex_byte(out, n);
    assert(out@ =~= old(out)@ + hex_byte(n));
}

fn describe_endpoint(e: &EndpointDescriptor) -> (s: String)
    ensures
        s@ == endpoint_line(*e),
{
    let mut out = String::new();
    out.append("  endpoint: addr=");
    push_hex_prefixed(&mut out, e.endpoint_address);
    out.append(", num=");
    text::push_decimal(&mut out, e.ep_number() as u64);
    out.append(", in=");
    if e.is_in() {
        out.append("true");
    } else {
        out.append("false");
    }
    out.append(", type=");
    text::push_decimal(&mut out, e.transfer_type() as u64);
    out.append(", max_packet=");
    text::push_decimal(&mut out, e.max_packet_size as u64);
    out.append(", interval=");
    text::push_decimal(&mut out, e.interval as u64);
    assert(out@ =~= endpoint_line(*e));
    out
}

fn describe_interface(d: &descriptor::InterfaceDescriptor) -> (s: String)
    ensures
        s@ == interface_line(d@),
{
    let mut out = String::new();
    out.append("interface: num=");
    text::push_decimal(&mut out, d.interface_number as u64);
    out.append(", alt=");
    text::push_decimal(&mut out, d.alternate_setting as u64);
    out.append(", class=");
    push_hex_prefixed(&mut out, d.interface_class);
    out.append(", subclass=");
    push_hex_prefixed(&mut out, d.interface_subclass);
    out.append(", protocol=");
    push_hex_prefixed(&mut out, d.interface_protocol);
    out.append(", endpoints=");
    text::push_decimal(&mut out, d.num_endpoints as u64);
    assert(out@ =~= interface_line(d@));
    out
}

fn push_interface(lines: &mut Vec<String>, i: &Interface)
    ensures
        lines_of(final(lines)@) == lines_of(old(lines)@) + interface_lines(i@),
{
    let ghost before = lines_of(lines@);
    lines.push(describe_interface(&i.descriptor));
    assert(lines_of(lines@) =~= before + seq![interface_line(i.descriptor@)]);
    let mut k: usize = 0;
    while k < i.endpoints.len()
        invariant
            k <= i.endpoints.len(),
            lines_of(lines@) =~= before + interface_lines(i@).take(k + 1),
        decreases i.endpoints.len() - k,
    {
        let ghost so_far = lines_of(lines@);
        lines.push(describe_endpoint(&i.endpoints[k]));
        assert(lines_of(lines@) =~= so_far.push(endpoint_line(i.endpoints@[k as int])));
        k += 1;
    }
    assert(interface_lines(i@).take(k + 1) =~= interface_lines(i@));
}

/// Describes a configuration and its interfaces, one line each.
pub fn describe_config(config: &Option<Configuration>) -> (lines: Vec<String>)
    ensures
        lines_of(lines@) == config_lines(
            match *config {
                Some(c) => Some(c@),
                None => None,
            },
        ),
{
    let mut lines: Vec<String> = Vec::new();
    match config {
        None => {
            let mut out = String::new();
            out.append("parse configuration failed: InvalidDescriptor");
            assert(out@ =~= "parse configuration failed: InvalidDescriptor"@);
            lines.push(out);
            assert(lines_of(lines@) =~= config_lines(None));
        },
        Some(c) => {
            let mut out = String::new();
            out.append("configuration: interfaces=");
            text::push_decimal(&mut out, c.num_interfaces as u64);
            out.append(", total_len=");
            text::push_decimal(&mut out, c.total_len as u64);
            out.append(", value=");
            text::push_decimal(&mut out, c.configuration_value as u64);
            assert(out@ =~= configuration_line(c@));
            lines.push(out);
            let ghost head = seq![configuration_line(c@)];
            let ghost all = c@.interfaces;
            let mut k: usize = 0;
            assert(lines_of(lines@) =~= head + all_interface_lines(all.take(0)));
            while k < c.interfaces.len()
                invariant
                    k <= c.interfaces.len(),
                    all == c@.interfaces,
                    lines_of(lines@) == head + all_interface_lines(all.take(k as int)),
                decreases c.interfaces.len() - k,
            {
                push_interface(&mut lines, &c.interfaces[k]);
                proof {
                    assert(all.take(k + 1).drop_last() =~= all.take(k as int));
                    assert(all.take(k + 1).last() == c.interfaces@[k as int]@);
                    assert(lines_of(lines@) =~= head + all_interface_lines(all.take(k + 1)));
                }
                k += 1;
            }
            assert(all.take(k as int) =~= all);
        },
    }
    lines
}

/// Describes the interfaces and endpoints in a configuration descriptor, one line each.
pub fn print_config(config_bytes: &[u8]) -> (lines: Vec<String>)
    requires
        descriptor::config_readable(config_bytes@),
    ensures
        lines_of(lines@) == config_lines(descriptor::parsed_configuration(config_bytes@)),
{
    let config = descriptor::read_configuration(config_bytes);
    describe_config(&config)
}

/// How enumerating a device went.
#[derive(Debug)]
pub struct Enumerated {
    /// The device and the length of its configuration descriptor, where it went well.
    pub device: Option<(EnumerationInfo, usize)>,
    /// There is something to be warned of.
    pub warning: bool,
    /// What there is to say.
    pub lines: Vec<String>,
}

/// The line about a device that was enumerated.
pub open spec fn device_line(info: EnumerationInfo, config_len: usize) -> Seq<char> {
    "device enumerated: VID="@ + text::hex(info.device_desc.vendor_id as nat, 4) + ", PID="@
        + text::hex(info.device_desc.product_id as nat, 4) + ", addr="@ + text::decimal(
        info.device_address as nat,
    ) + ", config_len="@ + text::decimal(config_len as nat)
}

/// Whether the buffer holds as much of a configuration descriptor as enumerating gave, in a
/// form that can be taken apart.
pub open spec fn outcome_readable(
    outcome: Result<(EnumerationInfo, usize), EnumerationError>,
    config_buf: Seq<u8>,
) -> bool {
    outcome matches Ok((_, len)) ==> len <= config_buf.len() && descriptor::config_readable(
        config_buf.take(len as int),
    )
}

/// The lines about how enumerating a device went.
pub open spec fn outcome_lines(
    outcome: Result<(EnumerationInfo, usize), EnumerationError>,
    config_buf: Seq<u8>,
) -> Seq<Seq<char>> {
    match outcome {
        Ok((info, len)) => seq![device_line(info, len)] + config_lines(
            descriptor::parsed_configuration(config_buf.take(len as int)),
        ),
        Err(EnumerationError::Transfer(PipeError::Disconnected)) => seq![
            "device disconnected during enumeration"@,
        ],
        Err(e) => seq!["enumeration error: "@ + e.text()],
    }
}

/// There is something to be warned of.
pub open spec fn is_warning(outcome: Result<(EnumerationInfo, usize), EnumerationError>) -> bool {
    match outcome {
        Ok(_) => false,
        Err(EnumerationError::Transfer(PipeError::Disconnected)) => false,
        Err(_) => true,
    }
}

/// The device that there is to look at.
pub open spec fn found_device(
    outcome: Result<(EnumerationInfo, usize), EnumerationError>,
) -> Option<(EnumerationInfo, usize)> {
    match outcome {
        Ok(device) => Some(device),
        Err(_) => None,
    }
}

/// Judges how enumerating a device went: `outcome` is what the bus returned, with the
/// length of the configuration descriptor that it put into `config_buf`.
///
/// A device that vanishes half way is nothing to be warned of: some switch their identity
/// like this and come back.
pub fn enumerate(
    outcome: Result<(EnumerationInfo, usize), EnumerationError>,
    config_buf: &[u8],
) -> (r: Enumerated)
    requires
        outcome_readable(outcome, config_buf@),
    ensures
        r.device == found_device(outcome),
        r.warning == is_warning(outcome),
        r.device == (match outcome {
            Ok(device) => Some(device),
            Err(_) => None,
        }),
        r.warning == (outcome matches Err(e) && e != EnumerationError::Transfer(
            PipeError::Disconnected,
        )),
        lines_of(r.lines@) == outcome_lines(outcome, config_buf@),
{
    let mut first = String::new();
    match outcome {
        Ok((info, len)) => {
            first.append("device enumerated: VID=");
            text::push_hex_word(&mut first, info.device_desc.vendor_id);
            first.append(", PID=");
            text::push_hex_word(&mut first, info.device_desc.product_id);
            first.append(", addr=");
            text::push_decimal(&mut first, info.device_address as u64);
            first.append(", config_len=");
            text::push_decimal(&mut first, len as u64);
            assert(first@ =~= device_line(info, len));
            let config = &config_buf[0..len];
            assert(config@ =~= config_buf@.take(len as int));
            let mut rest = print_config(config);
            let mut lines: Vec<String> = Vec::new();
            lines.push(first);
            let ghost more = rest@;
            lines.append(&mut rest);
            assert(lines_of(lines@) =~= seq![device_line(info, len)] + lines_of(more));
            Enumerated { device: Some((info, len)), warning: false, lines }
        },
        Err(EnumerationError::Transfer(PipeError::Disconnected)) => {
            first.append("device disconnected during enumeration");
            assert(first@ =~= "device disconnected during enumeration"@);
            let mut lines: Vec<String> = Vec::new();
            lines.push(first);
            assert(lines_of(lines@) =~= outcome_lines(outcome, config_buf@));
            Enumerated { device: None, warning: false, lines }
        },
        Err(e) => {
            first.append("enumeration error: ");
            e.push_to(&mut first);
            assert(first@ =~= "enumeration error: "@ + e.text());
            let mut lines: Vec<String> = Vec::new();
            lines.push(first);
            assert(lines_of(lines@) =~= outcome_lines(outcome, config_buf@));
            Enumerated { device: None, warning: true, lines }
        },
    }
}

/// As [`enumerate`], for any outcome: `None` where the buffer does not hold what it should.
pub fn enumerate_if_readable(
    outcome: Result<(EnumerationInfo, usize), EnumerationError>,
    config_buf: &[u8],
) -> (r: Option<Enumerated>)
    ensures
        r is Some <==> outcome_readable(outcome, config_buf@),
        r matches Some(e) ==> {
            &&& e.device == found_device(outcome)
            &&& e.warning == is_warning(outcome)
            &&& e.device == (match outcome {
                Ok(device) => Some(device),
                Err(_) => None,
            })
            &&& e.warning == (outcome matches Err(e) && e != EnumerationError::Transfer(
                PipeError::Disconnected,
            ))
            &&& lines_of(e.lines@) == outcome_lines(outcome, config_buf@)
        },
{
    match outcome {
        Ok((_, len)) => {
            if len > config_buf.len() {
                return None;
            }
            let config = &config_buf[0..len];
            assert(config@ =~= config_buf@.take(len as int));
            if !descriptor::is_config_readable(config) {
                return None;
            }
        },
        Err(_) => {},
    }
    Some(enumerate(outcome, config_buf))
}

// ── What the lines say ───────────────────────────────────────────────────────

/// Neither a prefixed byte nor a truth value has a comma in it.
proof fn lemma_values_have_no_comma(n: u8, b: bool)
    ensures
        !hex_byte(n).contains(','),
        !bool_text(b).contains(','),
{
    text::lemma_numbers_have_no_comma(n as nat, 2);
    reveal_strlit("0x");
    reveal_strlit("true");
    reveal_strlit("false");
    let h = text::hex(n as nat, 2);
    assert forall|i: int| 0 <= i < hex_byte(n).len() implies hex_byte(n)[i] != ',' by {
        if i >= 2 {
            assert(hex_byte(n)[i] == h[i - 2]);
        }
    }
}

/// Different bytes look different, and so do the truth values.
proof fn lemma_values_are_faithful(m: u8, n: u8, b: bool, c: bool)
    ensures
        hex_byte(m) == hex_byte(n) ==> m == n,
        bool_text(b) == bool_text(c) ==> b == c,
{
    text::lemma_hex_means_the_number(m as nat);
    text::lemma_hex_means_the_number(n as nat);
    reveal_strlit("true");
    reveal_strlit("false");
    assert("true"@.len() == 4 && "false"@.len() == 5);
    if hex_byte(m) == hex_byte(n) {
        text::lemma_same_lengths("0x"@, text::hex(m as nat, 2), "0x"@, text::hex(n as nat, 2));
    }
}

/// The line about a configuration gives the number of interfaces, the total length and the
/// value, each behind its own label, and nothing can be read from it but these.
pub proof fn lemma_configuration_line(
    c: descriptor::ConfigurationView,
    interfaces: nat,
    total_len: nat,
    value: nat,
)
    requires
        c.total_len >= 0,
    ensures
        configuration_line(c) == text::labelled(
            seq![
                ("configuration: interfaces="@, text::decimal(interfaces)),
                (", total_len="@, text::decimal(total_len)),
                (", value="@, text::decimal(value)),
            ],
        ) <==> c.num_interfaces == interfaces && c.total_len == total_len && c.configuration_value == value,
{
    reveal_strlit(", total_len=");
    reveal_strlit(", value=");
    let given = seq![
        ("configuration: interfaces="@, text::decimal(interfaces)),
        (", total_len="@, text::decimal(total_len)),
        (", value="@, text::decimal(value)),
    ];
    let own = seq![
        ("configuration: interfaces="@, text::decimal(c.num_interfaces as nat)),
        (", total_len="@, text::decimal(c.total_len as nat)),
        (", value="@, text::decimal(c.configuration_value as nat)),
    ];
    text::lemma_labelled_push(own.take(2), own[2].0, own[2].1);
    assert(own.take(2).push((own[2].0, own[2].1)) =~= own.take(3));
    text::lemma_labelled_push(own.take(1), own[1].0, own[1].1);
    assert(own.take(1).push((own[1].0, own[1].1)) =~= own.take(2));
    text::lemma_labelled_push(own.take(0), own[0].0, own[0].1);
    assert(own.take(0).push((own[0].0, own[0].1)) =~= own.take(1));
    assert(own.take(3) =~= own);
    assert(own.take(0) =~= Seq::empty());
    assert(text::labelled(own.take(0)) + own[0].0 =~= own[0].0);
    assert(configuration_line(c) == text::labelled(own));
    text::lemma_numbers_have_no_comma(interfaces, 4);
    text::lemma_numbers_have_no_comma(total_len, 4);
    text::lemma_numbers_have_no_comma(value, 4);
    text::lemma_numbers_have_no_comma(c.num_interfaces as nat, 4);
    text::lemma_numbers_have_no_comma(c.total_len as nat, 4);
    text::lemma_numbers_have_no_comma(c.configuration_value as nat, 4);
    if configuration_line(c) == text::labelled(given) {
        text::lemma_labelled_is_faithful(own, given);
        assert(own[0].1 == given[0].1);
        assert(own[1].1 == given[1].1);
        assert(own[2].1 == given[2].1);
        text::lemma_decimal_is_faithful(c.num_interfaces as nat, interfaces);
        text::lemma_decimal_is_faithful(c.total_len as nat, total_len);
        text::lemma_decimal_is_faithful(c.configuration_value as nat, value);
    }
}

/// The line about an interface gives number, alternate setting, class, subclass, protocol and
/// number of endpoints, each behind its own label, and nothing can be read from it but these.
pub proof fn lemma_interface_line(
    d: descriptor::InterfaceDescriptorView,
    num: u8,
    alt: u8,
    class: u8,
    subclass: u8,
    protocol: u8,
    endpoints: u8,
)
    ensures
        interface_line(d) == text::labelled(
            seq![
                ("interface: num="@, text::decimal(num as nat)),
                (", alt="@, text::decimal(alt as nat)),
                (", class="@, hex_byte(class)),
                (", subclass="@, hex_byte(subclass)),
                (", protocol="@, hex_byte(protocol)),
                (", endpoints="@, text::decimal(endpoints as nat)),
            ],
        ) <==> d.interface_number == num && d.alternate_setting == alt && d.interface_class == class
            && d.interface_subclass == subclass && d.interface_protocol == protocol && d.num_endpoints == endpoints,
{
    reveal_strlit(", alt=");
    reveal_strlit(", class=");
    reveal_strlit(", subclass=");
    reveal_strlit(", protocol=");
    reveal_strlit(", endpoints=");
    let given = seq![
        ("interface: num="@, text::decimal(num as nat)),
        (", alt="@, text::decimal(alt as nat)),
        (", class="@, hex_byte(class)),
        (", subclass="@, hex_byte(subclass)),
        (", protocol="@, hex_byte(protocol)),
        (", endpoints="@, text::decimal(endpoints as nat)),
    ];
    let own = seq![
        ("interface: num="@, text::decimal(d.interface_number as nat)),
        (", alt="@, text::decimal(d.alternate_setting as nat)),
        (", class="@, hex_byte(d.interface_class)),
        (", subclass="@, hex_byte(d.interface_subclass)),
        (", protocol="@, hex_byte(d.interface_protocol)),
        (", endpoints="@, text::decimal(d.num_endpoints as nat)),
    ];
    text::lemma_labelled_push(own.take(5), own[5].0, own[5].1);
    assert(own.take(5).push((own[5].0, own[5].1)) =~= own.take(6));
    text::lemma_labelled_push(own.take(4), own[4].0, own[4].1);
    assert(own.take(4).push((own[4].0, own[4].1)) =~= own.take(5));
    text::lemma_labelled_push(own.take(3), own[3].0, own[3].1);
    assert(own.take(3).push((own[3].0, own[3].1)) =~= own.take(4));
    text::lemma_labelled_push(own.take(2), own[2].0, own[2].1);
    assert(own.take(2).push((own[2].0, own[2].1)) =~= own.take(3));
    text::lemma_labelled_push(own.take(1), own[1].0, own[1].1);
    assert(own.take(1).push((own[1].0, own[1].1)) =~= own.take(2));
    text::lemma_labelled_push(own.take(0), own[0].0, own[0].1);
    assert(own.take(0).push((own[0].0, own[0].1)) =~= own.take(1));
    assert(own.take(6) =~= own);
    assert(own.take(0) =~= Seq::empty());
    assert(text::labelled(own.take(0)) + own[0].0 =~= own[0].0);
    assert(interface_line(d) == text::labelled(own));
    text::lemma_numbers_have_no_comma(num as nat, 4);
    text::lemma_numbers_have_no_comma(alt as nat, 4);
    text::lemma_numbers_have_no_comma(endpoints as nat, 4);
    text::lemma_numbers_have_no_comma(d.interface_number as nat, 4);
    text::lemma_numbers_have_no_comma(d.alternate_setting as nat, 4);
    text::lemma_numbers_have_no_comma(d.num_endpoints as nat, 4);
    lemma_values_have_no_comma(class, true);
    lemma_values_have_no_comma(subclass, true);
    lemma_values_have_no_comma(protocol, true);
    lemma_values_have_no_comma(d.interface_class, true);
    lemma_values_have_no_comma(d.interface_subclass, true);
    lemma_values_have_no_comma(d.interface_protocol, true);
    if interface_line(d) == text::labelled(given) {
        text::lemma_labelled_is_faithful(own, given);
        assert(own[0].1 == given[0].1);
        assert(own[1].1 == given[1].1);
        assert(own[2].1 == given[2].1);
        assert(own[3].1 == given[3].1);
        assert(own[4].1 == given[4].1);
        assert(own[5].1 == given[5].1);
        text::lemma_decimal_is_faithful(d.interface_number as nat, num as nat);
        text::lemma_decimal_is_faithful(d.alternate_setting as nat, alt as nat);
        text::lemma_decimal_is_faithful(d.num_endpoints as nat, endpoints as nat);
        lemma_values_are_faithful(d.interface_class, class, true, true);
        lemma_values_are_faithful(d.interface_subclass, subclass, true, true);
        lemma_values_are_faithful(d.interface_protocol, protocol, true, true);
    }
}

/// The line about an endpoint gives its address, its number, whether it is inward, its transfer
/// type, packet size and interval, each behind its own label; number and direction are the
/// low half and the top bit of the address, the type the two low bits of the attributes.
pub proof fn lemma_endpoint_line(
    e: EndpointDescriptor,
    addr: u8,
    num: u8,
    inward: bool,
    kind: u8,
    max_packet: u16,
    interval: u8,
)
    ensures
        endpoint_line(e) == text::labelled(
            seq![
                ("  endpoint: addr="@, hex_byte(addr)),
                (", num="@, text::decimal(num as nat)),
                (", in="@, bool_text(inward)),
                (", type="@, text::decimal(kind as nat)),
                (", max_packet="@, text::decimal(max_packet as nat)),
                (", interval="@, text::decimal(interval as nat)),
            ],
        ) <==> e.endpoint_address == addr && num == addr % 16 && inward == (addr >= 128) && kind
            == e.attributes % 4 && e.max_packet_size == max_packet && e.interval == interval,
{
    reveal_strlit(", num=");
    reveal_strlit(", in=");
    reveal_strlit(", type=");
    reveal_strlit(", max_packet=");
    reveal_strlit(", interval=");
    let given = seq![
        ("  endpoint: addr="@, hex_byte(addr)),
        (", num="@, text::decimal(num as nat)),
        (", in="@, bool_text(inward)),
        (", type="@, text::decimal(kind as nat)),
        (", max_packet="@, text::decimal(max_packet as nat)),
        (", interval="@, text::decimal(interval as nat)),
    ];
    let own = seq![
        ("  endpoint: addr="@, hex_byte(e.endpoint_address)),
        (", num="@, text::decimal((e.endpoint_address % 16) as nat)),
        (", in="@, bool_text(e.spec_is_in())),
        (", type="@, text::decimal((e.attributes % 4) as nat)),
        (", max_packet="@, text::decimal(e.max_packet_size as nat)),
        (", interval="@, text::decimal(e.interval as nat)),
    ];
    text::lemma_labelled_push(own.take(5), own[5].0, own[5].1);
    assert(own.take(5).push((own[5].0, own[5].1)) =~= own.take(6));
    text::lemma_labelled_push(own.take(4), own[4].0, own[4].1);
    assert(own.take(4).push((own[4].0, own[4].1)) =~= own.take(5));
    text::lemma_labelled_push(own.take(3), own[3].0, own[3].1);
    assert(own.take(3).push((own[3].0, own[3].1)) =~= own.take(4));
    text::lemma_labelled_push(own.take(2), own[2].0, own[2].1);
    assert(own.take(2).push((own[2].0, own[2].1)) =~= own.take(3));
    text::lemma_labelled_push(own.take(1), own[1].0, own[1].1);
    assert(own.take(1).push((own[1].0, own[1].1)) =~= own.take(2));
    text::lemma_labelled_push(own.take(0), own[0].0, own[0].1);
    assert(own.take(0).push((own[0].0, own[0].1)) =~= own.take(1));
    assert(own.take(6) =~= own);
    assert(own.take(0) =~= Seq::empty());
    assert(text::labelled(own.take(0)) + own[0].0 =~= own[0].0);
    assert(endpoint_line(e) == text::labelled(own));
    text::lemma_numbers_have_no_comma(num as nat, 4);
    text::lemma_numbers_have_no_comma(kind as nat, 4);
    text::lemma_numbers_have_no_comma(max_packet as nat, 4);
    text::lemma_numbers_have_no_comma(interval as nat, 4);
    text::lemma_numbers_have_no_comma((e.endpoint_address % 16) as nat, 4);
    text::lemma_numbers_have_no_comma((e.attributes % 4) as nat, 4);
    text::lemma_numbers_have_no_comma(e.max_packet_size as nat, 4);
    text::lemma_numbers_have_no_comma(e.interval as nat, 4);
    lemma_values_have_no_comma(addr, inward);
    lemma_values_have_no_comma(e.endpoint_address, e.spec_is_in());
    let a = e.endpoint_address;
    assert((a >> 7) % 2 == 1 <==> a >= 128) by (bit_vector);
    if endpoint_line(e) == text::labelled(given) {
        text::lemma_labelled_is_faithful(own, given);
        assert(own[0].1 == given[0].1);
        assert(own[1].1 == given[1].1);
        assert(own[2].1 == given[2].1);
        assert(own[3].1 == given[3].1);
        assert(own[4].1 == given[4].1);
        assert(own[5].1 == given[5].1);
        text::lemma_decimal_is_faithful((e.endpoint_address % 16) as nat, num as nat);
        text::lemma_decimal_is_faithful((e.attributes % 4) as nat, kind as nat);
        text::lemma_decimal_is_faithful(e.max_packet_size as nat, max_packet as nat);
        text::lemma_decimal_is_faithful(e.interval as nat, interval as nat);
        lemma_values_are_faithful(e.endpoint_address, addr, e.spec_is_in(), inward);
    }
}

/// The line about a device gives its vendor and product numbers in four hexadecimal digits,
/// its address and the length of its configuration descriptor, each behind its own label.
pub proof fn lemma_device_line(
    info: EnumerationInfo,
    config_len: usize,
    vid: u16,
    pid: u16,
    addr: u8,
    len: usize,
)
    ensures
        device_line(info, config_len) == text::labelled(
            seq![
                ("device enumerated: VID="@, text::hex(vid as nat, 4)),
                (", PID="@, text::hex(pid as nat, 4)),
                (", addr="@, text::decimal(addr as nat)),
                (", config_len="@, text::decimal(len as nat)),
            ],
        ) <==> info.device_desc.vendor_id == vid && info.device_desc.product_id == pid
            && info.device_address == addr && config_len == len,
{
    reveal_strlit(", PID=");
    reveal_strlit(", addr=");
    reveal_strlit(", config_len=");
    let given = seq![
        ("device enumerated: VID="@, text::hex(vid as nat, 4)),
        (", PID="@, text::hex(pid as nat, 4)),
        (", addr="@, text::decimal(addr as nat)),
        (", config_len="@, text::decimal(len as nat)),
    ];
    let own = seq![
        ("device enumerated: VID="@, text::hex(info.device_desc.vendor_id as nat, 4)),
        (", PID="@, text::hex(info.device_desc.product_id as nat, 4)),
        (", addr="@, text::decimal(info.device_address as nat)),
        (", config_len="@, text::decimal(config_len as nat)),
    ];
    text::lemma_labelled_push(own.take(3), own[3].0, own[3].1);
    assert(own.take(3).push((own[3].0, own[3].1)) =~= own.take(4));
    text::lemma_labelled_push(own.take(2), own[2].0, own[2].1);
    assert(own.take(2).push((own[2].0, own[2].1)) =~= own.take(3));
    text::lemma_labelled_push(own.take(1), own[1].0, own[1].1);
    assert(own.take(1).push((own[1].0, own[1].1)) =~= own.take(2));
    text::lemma_labelled_push(own.take(0), own[0].0, own[0].1);
    assert(own.take(0).push((own[0].0, own[0].1)) =~= own.take(1));
    assert(own.take(4) =~= own);
    assert(own.take(0) =~= Seq::empty());
    assert(text::labelled(own.take(0)) + own[0].0 =~= own[0].0);
    assert(device_line(info, config_len) == text::labelled(own));
    text::lemma_numbers_have_no_comma(vid as nat, 4);
    text::lemma_numbers_have_no_comma(pid as nat, 4);
    text::lemma_numbers_have_no_comma(addr as nat, 4);
    text::lemma_numbers_have_no_comma(len as nat, 4);
    text::lemma_numbers_have_no_comma(info.device_desc.vendor_id as nat, 4);
    text::lemma_numbers_have_no_comma(info.device_desc.product_id as nat, 4);
    text::lemma_numbers_have_no_comma(info.device_address as nat, 4);
    text::lemma_numbers_have_no_comma(config_len as nat, 4);
    if device_line(info, config_len) == text::labelled(given) {
        text::lemma_labelled_is_faithful(own, given);
        assert(own[0].1 == given[0].1);
        assert(own[1].1 == given[1].1);
        assert(own[2].1 == given[2].1);
        assert(own[3].1 == given[3].1);
        text::lemma_decimal_is_faithful(info.device_address as nat, addr as nat);
        text::lemma_decimal_is_faithful(config_len as nat, len as nat);
        text::lemma_hex_means_the_number(info.device_desc.vendor_id as nat);
        text::lemma_hex_means_the_number(info.device_desc.product_id as nat);
        text::lemma_hex_means_the_number(vid as nat);
        text::lemma_hex_means_the_number(pid as nat);
    }
}

/// The lines about two lists of interfaces, one behind the other, are the lines about each;
/// an interface has its own line and one for each endpoint, in order.
pub proof fn lemma_lines_go_in_order(
    v: Seq<descriptor::InterfaceView>,
    w: Seq<descriptor::InterfaceView>,
)
    ensures
        all_interface_lines(v + w) == all_interface_lines(v) + all_interface_lines(w),
        v.len() == 1 ==> {
            let lines = all_interface_lines(v);
            &&& lines.len() == 1 + v[0].endpoints.len()
            &&& lines[0] == interface_line(v[0].descriptor)
            &&& forall|i: int|
                0 <= i < v[0].endpoints.len() ==> lines[i + 1] == endpoint_line(
                    #[trigger] v[0].endpoints[i],
                )
        },
        v.len() == 0 ==> all_interface_lines(v).len() == 0,
    decreases w.len(),
{
    reveal_with_fuel(all_interface_lines, 2);
    if w.len() > 0 {
        lemma_lines_go_in_order(v, w.drop_last());
        assert((v + w).drop_last() =~= v + w.drop_last());
        assert(all_interface_lines(v + w) =~= all_interface_lines(v) + all_interface_lines(w));
    } else {
        assert(v + w =~= v);
        assert(all_interface_lines(v) + all_interface_lines(w) =~= all_interface_lines(v));
    }
    if v.len() == 1 {
        assert(v.drop_last() =~= Seq::empty());
        assert(all_interface_lines(v) =~= interface_lines(v[0]));
    }
}

/// A configuration that was taken apart has its own line first and then those of its
/// interfaces; one that was not has a single line that says so.
pub proof fn lemma_configuration_lines(config: Option<descriptor::ConfigurationView>)
    ensures
        config is None ==> config_lines(config).len() == 1 && config_lines(config)[0]
            == "parse configuration failed: InvalidDescriptor"@,
        config matches Some(c) ==> config_lines(config).len() == 1 + all_interface_lines(
            c.interfaces,
        ).len() && config_lines(config)[0] == configuration_line(c) && config_lines(
            config,
        ).drop_first() == all_interface_lines(c.interfaces),
{
    if let Some(c) = config {
        assert(config_lines(config).drop_first() =~= all_interface_lines(c.interfaces));
    }
}

/// A device that was enumerated has its own line first and then those of the bytes that were
/// got; a failure has one line, which names it, but for a device that vanished.
pub proof fn lemma_outcome_lines(
    outcome: Result<(EnumerationInfo, usize), EnumerationError>,
    config_buf: Seq<u8>,
)
    ensures
        ({
            let lines = outcome_lines(outcome, config_buf);
            &&& lines.len() >= 1
            &&& outcome matches Ok((info, len)) ==> lines[0] == device_line(info, len)
                && lines.drop_first() == config_lines(
                descriptor::parsed_configuration(config_buf.take(len as int)),
            )
            &&& outcome matches Err(e) ==> lines.len() == 1 && (if e == EnumerationError::Transfer(
                PipeError::Disconnected,
            ) {
                lines[0] == "device disconnected during enumeration"@
            } else {
                lines[0] == "enumeration error: "@ + e.text()
            })
        }),
{
    if let Ok((info, len)) = outcome {
        let rest = config_lines(descriptor::parsed_configuration(config_buf.take(len as int)));
        assert(outcome_lines(outcome, config_buf).drop_first() =~= rest);
    }
}

/// Whatever happens on the port, the address that is held is that of the device that was
/// plugged in last and could be enumerated; without such a device none is held. What concerns
/// no device changes nothing and frees nothing.
pub proof fn lemma_which_address_is_held(turns: Seq<PortTurn>, p: Port)
    requires
        turns.len() > 0,
    ensures
        turns.last() matches PortTurn::Connected(address) ==> port_after(turns).device_addr == address,
        turns.last() is Disconnected ==> port_after(turns).device_addr is None,
        turns.last() is Other ==> port_after(turns) == port_after(turns.drop_last())
            && freed_in(turns) == freed_in(turns.drop_last()),
        port_after(Seq::empty()).device_addr is None,
        p.after(PortEvent::Other) == p && p.freed_by(PortEvent::Other) is None,
        p.freed_by(PortEvent::Connected) == p.device_addr,
        p.freed_by(PortEvent::Disconnected) == p.device_addr,
{
    if turns.last() is Other {
        assert(freed_in(turns) =~= freed_in(turns.drop_last()));
    }
}

/// A failure is warned of unless the device vanished, a success never; there is a device to
/// look at exactly after a success, and it is the one that was found.
pub proof fn lemma_what_is_warned_of(outcome: Result<(EnumerationInfo, usize), EnumerationError>)
    ensures
        is_warning(outcome) <==> outcome is Err && outcome->Err_0 != EnumerationError::Transfer(
            PipeError::Disconnected,
        ),
        found_device(outcome) is Some <==> outcome is Ok,
        found_device(outcome) matches Some(device) ==> outcome == Ok::<
            (EnumerationInfo, usize),
            EnumerationError,
        >(device),
{
}

/// The lines of a list of strings are those of the strings, one by one.
pub proof fn lemma_lines_of(lines: Seq<String>)
    ensures
        lines_of(lines).len() == lines.len(),
        forall|i: int| 0 <= i < lines.len() ==> lines_of(lines)[i] == (#[trigger] lines[i])@,
{
}

} // verus!
