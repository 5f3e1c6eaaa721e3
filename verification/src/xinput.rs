//! The wired protocol of the Xbox 360 controller.
//!
//! An input report has this form; what follows byte 19 belongs to the vendor.
//!
//! | bytes  | content                                                     |
//! |--------|-------------------------------------------------------------|
//! | 0      | message type, 0x00 for input                                |
//! | 1      | length, 0x14                                                |
//! | 2      | bits 0 to 7: up, down, left, right, Start, Back, LS, RS     |
//! | 3      | bits 0 to 2: LB, RB, Guide; bits 4 to 7: A, B, X, Y         |
//! | 4, 5   | left and right trigger                                      |
//! | 6-13   | left X, left Y, right X, right Y, 16 bits each, low first   |
//! | 14-19  | reserved                                                    |

use crate::bytes;
use crate::descriptor;
use crate::descriptor::{EndpointDescriptor, Interface, InterfaceDescriptor};
use crate::errors::GamepadError;
use crate::gamepad::GamepadReport;
use vstd::prelude::*;

verus! {

/// Class code of the interface: vendor specific.
pub const XINPUT_IFACE_CLASS: u8 = 0xFF;

/// Subclass code of the interface.
pub const XINPUT_IFACE_SUBCLASS: u8 = 0x5D;

/// Protocol code of the interface.
pub const XINPUT_IFACE_PROTOCOL: u8 = 0x01;

/// The transfer type of interrupt endpoints.
pub const TRANSFER_TYPE_INTERRUPT: u8 = 3;

/// Message type of an input report.
pub const XINPUT_MSG_INPUT: u8 = 0x00;

/// Length of an input report.
pub const XINPUT_INPUT_LEN: u8 = 0x14;

/// The largest packet that a full-speed interrupt endpoint carries.
pub const XINPUT_MAX_PACKET: usize = 64;

/// Message type of a rumble packet.
pub const XINPUT_MSG_RUMBLE: u8 = 0x00;

/// Length of a rumble packet.
pub const XINPUT_RUMBLE_LEN: u8 = 0x08;

/// Message type of a lamp packet.
pub const XINPUT_MSG_LED: u8 = 0x01;

/// Length of a lamp packet.
pub const XINPUT_LED_LEN: u8 = 0x03;

/// The lamp value for all lamps off.
pub const XINPUT_LED_OFF: u8 = 0x00;

/// The lamp value for the lamp of player one; those of the others follow.
pub const XINPUT_LED_PLAYER_BASE: u8 = 0x06;

/// The highest player number that has a lamp.
pub const XINPUT_PLAYER_MAX: u8 = 4;

// ── Finding the interface ────────────────────────────────────────────────────

/// An interrupt endpoint.
#[derive(Clone, Copy, Debug, PartialEq, Eq, Structural)]
pub struct InterruptEndpoint {
    /// Address with the direction bit, such as 0x81.
    pub address: u8,
    /// Largest packet.
    pub max_packet_size: u16,
    /// Polling interval.
    pub interval: u8,
}

/// The endpoints of an interface that speaks this protocol.
#[derive(Clone, Copy, Debug, PartialEq, Eq, Structural)]
pub struct XInputInterfaceInfo {
    /// Where input comes from.
    pub interrupt_in: InterruptEndpoint,
    /// Where rumble and lamp packets go; some devices have none.
    pub interrupt_out: Option<InterruptEndpoint>,
}

/// What is kept of an endpoint descriptor.
pub open spec fn interrupt_endpoint(ep: EndpointDescriptor) -> InterruptEndpoint {
    InterruptEndpoint {
        address: ep.endpoint_address,
        max_packet_size: ep.max_packet_size,
        interval: ep.interval,
    }
}

/// An interrupt endpoint that carries data in the given direction.
pub open spec fn is_interrupt(ep: EndpointDescriptor, inward: bool) -> bool {
    ep.attributes % 4 == TRANSFER_TYPE_INTERRUPT && ep.spec_is_in() == inward
}

/// The first offer that is one.
pub open spec fn first_of<T>(offers: Seq<Option<T>>) -> Option<T>
    decreases offers.len(),
{
    if offers.len() == 0 {
        None
    } else if offers[0] is Some {
        offers[0]
    } else {
        first_of(offers.drop_first())
    }
}

/// What an endpoint offers: itself, where it is an interrupt endpoint of the direction.
pub open spec fn endpoint_offer(ep: EndpointDescriptor, inward: bool) -> Option<InterruptEndpoint> {
    if is_interrupt(ep, inward) {
        Some(interrupt_endpoint(ep))
    } else {
        None
    }
}

/// The first interrupt endpoint of the given direction.
pub open spec fn first_interrupt(eps: Seq<EndpointDescriptor>, inward: bool) -> Option<
    InterruptEndpoint,
> {
    first_of(eps.map_values(|ep: EndpointDescriptor| endpoint_offer(ep, inward)))
}

/// The interface carries the class, subclass and protocol codes of this protocol.
pub open spec fn speaks_xinput(d: descriptor::InterfaceDescriptorView) -> bool {
    &&& d.interface_class == XINPUT_IFACE_CLASS
    &&& d.interface_subclass == XINPUT_IFACE_SUBCLASS
    &&& d.interface_protocol == XINPUT_IFACE_PROTOCOL
}

/// What an interface offers: its endpoints, where it carries the codes and has an inward
/// interrupt endpoint.
pub open spec fn offered(i: descriptor::InterfaceView) -> Option<XInputInterfaceInfo> {
    if !speaks_xinput(i.descriptor) {
        None
    } else {
        match first_interrupt(i.endpoints, true) {
            Some(interrupt_in) => Some(
                XInputInterfaceInfo {
                    interrupt_in,
                    interrupt_out: first_interrupt(i.endpoints, false),
                },
            ),
            None => None,
        }
    }
}

/// What the first interface offers that offers anything.
pub open spec fn first_xinput(interfaces: Seq<descriptor::InterfaceView>) -> Option<
    XInputInterfaceInfo,
> {
    first_of(interfaces.map_values(|i: descriptor::InterfaceView| offered(i)))
}

/// The interface that a configuration descriptor offers for this protocol.
pub open spec fn xinput_interface(config_desc: Seq<u8>) -> Option<XInputInterfaceInfo> {
    match descriptor::parsed_configuration(config_desc) {
        Some(config) => first_xinput(config.interfaces),
        None => None,
    }
}

/// The endpoints can be found of every interface with the codes, up to the first one that
/// offers something.
pub open spec fn matches_readable(interfaces: Seq<descriptor::InterfaceDescriptorView>) -> bool
    decreases interfaces.len(),
{
    if interfaces.len() == 0 {
        true
    } else if !speaks_xinput(interfaces[0]) {
        matches_readable(interfaces.drop_first())
    } else {
        descriptor::endpoints_readable(interfaces[0]) && (offered(
            descriptor::with_endpoints(interfaces[0]),
        ) is Some || matches_readable(interfaces.drop_first()))
    }
}

/// The bytes are either no configuration descriptor, or one that can be searched for an
/// interface of this protocol.
pub open spec fn searchable(config_desc: Seq<u8>) -> bool {
    &&& descriptor::outline_readable(config_desc)
    &&& descriptor::is_configuration(config_desc) ==> matches_readable(
        descriptor::interfaces_in(descriptor::body_of(config_desc)),
    )
}

/// Picks the first interrupt endpoint of each direction: the inward one, then the outward.
pub fn pick_endpoints(eps: &Vec<EndpointDescriptor>) -> (r: (
    Option<InterruptEndpoint>,
    Option<InterruptEndpoint>,
))
    ensures
        r.0 == first_interrupt(eps@, true),
        r.1 == first_interrupt(eps@, false),
{
    let mut interrupt_in: Option<InterruptEndpoint> = None;
    let mut interrupt_out: Option<InterruptEndpoint> = None;
    let ghost inward = eps@.map_values(|ep: EndpointDescriptor| endpoint_offer(ep, true));
    let ghost outward = eps@.map_values(|ep: EndpointDescriptor| endpoint_offer(ep, false));
    let mut i: usize = 0;
    assert(inward.skip(0) =~= inward);
    assert(outward.skip(0) =~= outward);
    while i < eps.len()
        invariant
            i <= eps.len(),
            inward == eps@.map_values(|ep: EndpointDescriptor| endpoint_offer(ep, true)),
            outward == eps@.map_values(|ep: EndpointDescriptor| endpoint_offer(ep, false)),
            first_of(inward) == (if interrupt_in is Some {
                interrupt_in
            } else {
                first_of(inward.skip(i as int))
            }),
            first_of(outward) == (if interrupt_out is Some {
                interrupt_out
            } else {
                first_of(outward.skip(i as int))
            }),
        decreases eps.len() - i,
    {
        let ep = eps[i];
        assert(inward.skip(i as int).drop_first() =~= inward.skip(i + 1));
        assert(inward.skip(i as int)[0] == endpoint_offer(ep, true));
        assert(outward.skip(i as int).drop_first() =~= outward.skip(i + 1));
        assert(outward.skip(i as int)[0] == endpoint_offer(ep, false));
        if ep.transfer_type() == TRANSFER_TYPE_INTERRUPT {
            let found = InterruptEndpoint {
                address: ep.endpoint_address,
                max_packet_size: ep.max_packet_size,
                interval: ep.interval,
            };
            if ep.is_in() {
                if interrupt_in.is_none() {
                    interrupt_in = Some(found);
                }
            } else if interrupt_out.is_none() {
                interrupt_out = Some(found);
            }
        }
        i += 1;
    }
    assert(inward.skip(i as int).len() == 0);
    assert(outward.skip(i as int).len() == 0);
    (interrupt_in, interrupt_out)
}

/// Tells whether an interface carries the codes of this protocol.
fn carries_codes(d: &InterfaceDescriptor) -> (r: bool)
    ensures
        r == speaks_xinput(d@),
{
    d.interface_class == XINPUT_IFACE_CLASS && d.interface_subclass == XINPUT_IFACE_SUBCLASS
        && d.interface_protocol == XINPUT_IFACE_PROTOCOL
}

/// Picks the endpoints of an interface that speaks this protocol.
///
/// An interface without an inward interrupt endpoint is of no use; one without an outward
/// endpoint is.
pub fn select_xinput(iface: &Interface) -> (r: Option<XInputInterfaceInfo>)
    ensures
        r == offered(iface@),
{
    if !carries_codes(&iface.descriptor) {
        return None;
    }
    let (interrupt_in, interrupt_out) = pick_endpoints(&iface.endpoints);
    match interrupt_in {
        Some(interrupt_in) => Some(XInputInterfaceInfo { interrupt_in, interrupt_out }),
        None => None,
    }
}

/// Looks in a configuration descriptor for an interface that speaks this protocol.
///
/// Only interfaces with the right codes are looked into, and none behind the first that
/// can be used.
pub fn find_xinput(config_desc: &[u8]) -> (r: Option<XInputInterfaceInfo>)
    requires
        searchable(config_desc@),
    ensures
        r == xinput_interface(config_desc@),
{
    let outline = match descriptor::read_outline(config_desc) {
        Some(outline) => outline,
        None => return None,
    };
    let ghost views = descriptor::interfaces_in(descriptor::body_of(config_desc@));
    let ghost offers = views.map_values(
        |d: descriptor::InterfaceDescriptorView| offered(descriptor::with_endpoints(d)),
    );
    proof {
        assert(views.skip(0) =~= views);
        assert(offers.skip(0) =~= offers);
        let interfaces = descriptor::parsed_configuration(config_desc@)->0.interfaces;
        assert(interfaces.map_values(|i: descriptor::InterfaceView| offered(i)) =~= offers);
        assert(xinput_interface(config_desc@) == first_of(offers));
    }
    assert(descriptor::interface_views(outline.interfaces@) == views);
    for descriptor in iter: outline.interfaces
        invariant
            descriptor::interface_views(iter.seq()) == views,
            offers == views.map_values(
                |d: descriptor::InterfaceDescriptorView| offered(descriptor::with_endpoints(d)),
            ),
            matches_readable(views.skip(iter.index())),
            xinput_interface(config_desc@) == first_of(offers.skip(iter.index())),
    {
        let ghost k = iter.index();
        assert(descriptor::interface_views(iter.seq())[k] == descriptor@);
        assert(views.skip(k)[0] == descriptor@);
        assert(views.skip(k).drop_first() =~= views.skip(k + 1));
        assert(offers.skip(k)[0] == offered(descriptor::with_endpoints(descriptor@)));
        assert(offers.skip(k).drop_first() =~= offers.skip(k + 1));
        if carries_codes(&descriptor) {
            let endpoints = descriptor::list_endpoints(&descriptor);
            let found = select_xinput(&Interface { descriptor, endpoints });
            if found.is_some() {
                return found;
            }
        }
    }
    assert(offers.skip(offers.len() as int).len() == 0);
    None
}

/// Tells whether a configuration descriptor can be searched for an interface of this
/// protocol.
pub fn is_searchable(config_desc: &[u8]) -> (r: bool)
    ensures
        r == searchable(config_desc@),
{
    if !descriptor::is_outline_readable(config_desc) {
        return false;
    }
    let outline = match descriptor::read_outline(config_desc) {
        Some(outline) => outline,
        None => return true,
    };
    let ghost views = descriptor::interfaces_in(descriptor::body_of(config_desc@));
    assert(views.skip(0) =~= views);
    assert(descriptor::interface_views(outline.interfaces@) == views);
    for descriptor in iter: outline.interfaces
        invariant
            descriptor::interface_views(iter.seq()) == views,
            views == descriptor::interfaces_in(descriptor::body_of(config_desc@)),
            descriptor::outline_readable(config_desc@),
            descriptor::is_configuration(config_desc@),
            matches_readable(views) == matches_readable(views.skip(iter.index())),
    {
        let ghost k = iter.index();
        assert(descriptor::interface_views(iter.seq())[k] == descriptor@);
        assert(views.skip(k)[0] == descriptor@);
        assert(views.skip(k).drop_first() =~= views.skip(k + 1));
        if carries_codes(&descriptor) {
            if !descriptor::is_endpoints_readable(&descriptor) {
                return false;
            }
            let endpoints = descriptor::list_endpoints(&descriptor);
            if select_xinput(&Interface { descriptor, endpoints }).is_some() {
                return true;
            }
        }
    }
    assert(views.skip(views.len() as int).len() == 0);
    true
}

/// A configuration descriptor that can be taken apart can be searched.
pub proof fn lemma_readable_is_searchable(config_desc: Seq<u8>)
    requires
        descriptor::config_readable(config_desc),
    ensures
        searchable(config_desc),
{
    lemma_all_readable(descriptor::interfaces_in(descriptor::body_of(config_desc)));
}

proof fn lemma_all_readable(interfaces: Seq<descriptor::InterfaceDescriptorView>)
    ensures
        (forall|i: int|
            0 <= i < interfaces.len() ==> descriptor::endpoints_readable(#[trigger] interfaces[i]))
            ==> matches_readable(interfaces),
    decreases interfaces.len(),
{
    if interfaces.len() > 0 {
        let rest = interfaces.drop_first();
        lemma_all_readable(rest);
        assert forall|i: int| 0 <= i < rest.len() implies #[trigger] rest[i] == interfaces[i
            + 1] by {}
    }
}

/// The first offer is found exactly when there is one, and none comes before it.
proof fn lemma_first_of<T>(offers: Seq<Option<T>>)
    ensures
        first_of(offers) is None ==> forall|i: int|
            0 <= i < offers.len() ==> #[trigger] offers[i] is None,
        first_of(offers) is Some ==> exists|k: int| is_first(offers, k),
    decreases offers.len(),
{
    if offers.len() > 0 {
        if offers[0] is Some {
            assert(is_first(offers, 0));
        } else {
            let rest = offers.drop_first();
            lemma_first_of(rest);
            assert forall|i: int| 1 <= i < offers.len() implies #[trigger] offers[i] == rest[i
                - 1] by {}
            if first_of(rest) is Some {
                let k = choose|k: int| is_first(rest, k);
                assert(offers[k + 1] == rest[k]);
                assert forall|i: int| 0 <= i < k + 1 implies #[trigger] offers[i] is None by {
                    if i > 0 {
                        assert(offers[i] == rest[i - 1]);
                    }
                }
                assert(is_first(offers, k + 1));
            }
        }
    }
}

/// The offer at `k` is the first one.
pub open spec fn is_first<T>(offers: Seq<Option<T>>, k: int) -> bool {
    &&& 0 <= k < offers.len()
    &&& offers[k] is Some
    &&& offers[k] == first_of(offers)
    &&& forall|i: int| 0 <= i < k ==> #[trigger] offers[i] is None
}

/// Of each direction the first interrupt endpoint counts: an endpoint is found exactly
/// when there is one, and none that comes before it would do.
pub proof fn lemma_first_interrupt(eps: Seq<EndpointDescriptor>, inward: bool)
    ensures
        match first_interrupt(eps, inward) {
            None => forall|i: int| 0 <= i < eps.len() ==> !is_interrupt(#[trigger] eps[i], inward),
            Some(found) => exists|k: int|
                0 <= k < eps.len() && is_interrupt(#[trigger] eps[k], inward) && found
                    == interrupt_endpoint(eps[k]) && forall|i: int|
                    0 <= i < k ==> !is_interrupt(#[trigger] eps[i], inward),
        },
{
    let offers = eps.map_values(|ep: EndpointDescriptor| endpoint_offer(ep, inward));
    lemma_first_of(offers);
    assert forall|i: int| 0 <= i < eps.len() implies offers[i] == endpoint_offer(
        #[trigger] eps[i],
        inward,
    ) by {}
    if first_of(offers) is Some {
        let k = choose|k: int| is_first(offers, k);
        assert(offers[k] == endpoint_offer(eps[k], inward));
        assert forall|i: int| 0 <= i < k implies !is_interrupt(#[trigger] eps[i], inward) by {
            assert(offers[i] is None);
        }
    }
}

/// The first interface that offers something is taken: something is found exactly when an
/// interface offers it, and none that comes before that one offers anything.
pub proof fn lemma_first_xinput(interfaces: Seq<descriptor::InterfaceView>)
    ensures
        match first_xinput(interfaces) {
            None => forall|i: int|
                0 <= i < interfaces.len() ==> offered(#[trigger] interfaces[i]) is None,
            Some(info) => exists|k: int|
                0 <= k < interfaces.len() && offered(#[trigger] interfaces[k]) == Some(info)
                    && forall|i: int| 0 <= i < k ==> offered(#[trigger] interfaces[i]) is None,
        },
{
    let offers = interfaces.map_values(|i: descriptor::InterfaceView| offered(i));
    lemma_first_of(offers);
    assert forall|i: int| 0 <= i < interfaces.len() implies offers[i] == offered(
        #[trigger] interfaces[i],
    ) by {}
    if first_of(offers) is Some {
        let k = choose|k: int| is_first(offers, k);
        assert(offers[k] == offered(interfaces[k]));
        assert forall|i: int| 0 <= i < k implies offered(#[trigger] interfaces[i]) is None by {
            assert(offers[i] is None);
        }
    }
}

// ── Input ────────────────────────────────────────────────────────────────────

/// The packet is an input report: long enough, and marked as one.
pub open spec fn is_input(data: Seq<u8>) -> bool {
    data.len() >= XINPUT_INPUT_LEN && data[0] == XINPUT_MSG_INPUT && data[1] == XINPUT_INPUT_LEN
}

/// `r` is what an input report says.
pub open spec fn decodes_to(data: Seq<u8>, r: GamepadReport) -> bool {
    &&& r.dpad_up == bytes::has_bit(data[2], 0)
    &&& r.dpad_down == bytes::has_bit(data[2], 1)
    &&& r.dpad_left == bytes::has_bit(data[2], 2)
    &&& r.dpad_right == bytes::has_bit(data[2], 3)
    &&& r.start == bytes::has_bit(data[2], 4)
    &&& r.back == bytes::has_bit(data[2], 5)
    &&& r.left_stick_press == bytes::has_bit(data[2], 6)
    &&& r.right_stick_press == bytes::has_bit(data[2], 7)
    &&& r.left_bumper == bytes::has_bit(data[3], 0)
    &&& r.right_bumper == bytes::has_bit(data[3], 1)
    &&& r.guide == bytes::has_bit(data[3], 2)
    &&& r.a == bytes::has_bit(data[3], 4)
    &&& r.b == bytes::has_bit(data[3], 5)
    &&& r.x == bytes::has_bit(data[3], 6)
    &&& r.y == bytes::has_bit(data[3], 7)
    &&& r.left_trigger == data[4]
    &&& r.right_trigger == data[5]
    &&& r.left_stick_x == bytes::le_i16(data[6], data[7])
    &&& r.left_stick_y == bytes::le_i16(data[8], data[9])
    &&& r.right_stick_x == bytes::le_i16(data[10], data[11])
    &&& r.right_stick_y == bytes::le_i16(data[12], data[13])
}

/// Decodes an input report; `None` where the packet is none.
///
/// What follows the first twenty bytes is not looked at.
pub fn parse_standard_input(data: &[u8]) -> (r: Option<GamepadReport>)
    ensures
        r is Some <==> is_input(data@),
        r matches Some(report) ==> decodes_to(data@, report),
{
    if data.len() < XINPUT_INPUT_LEN as usize || data[0] != XINPUT_MSG_INPUT || data[1]
        != XINPUT_INPUT_LEN {
        return None;
    }
    Some(
        GamepadReport {
            dpad_up: bytes::bit(data[2], 0),
            dpad_down: bytes::bit(data[2], 1),
            dpad_left: bytes::bit(data[2], 2),
            dpad_right: bytes::bit(data[2], 3),
            start: bytes::bit(data[2], 4),
            back: bytes::bit(data[2], 5),
            left_stick_press: bytes::bit(data[2], 6),
            right_stick_press: bytes::bit(data[2], 7),
            left_bumper: bytes::bit(data[3], 0),
            right_bumper: bytes::bit(data[3], 1),
            guide: bytes::bit(data[3], 2),
            a: bytes::bit(data[3], 4),
            b: bytes::bit(data[3], 5),
            x: bytes::bit(data[3], 6),
            y: bytes::bit(data[3], 7),
            left_trigger: data[4],
            right_trigger: data[5],
            left_stick_x: bytes::i16_from_le(data[6], data[7]),
            left_stick_y: bytes::i16_from_le(data[8], data[9]),
            right_stick_x: bytes::i16_from_le(data[10], data[11]),
            right_stick_y: bytes::i16_from_le(data[12], data[13]),
        },
    )
}

/// A packet says one thing only.
pub proof fn lemma_decoding_is_unique(data: Seq<u8>, r1: GamepadReport, r2: GamepadReport)
    requires
        decodes_to(data, r1),
        decodes_to(data, r2),
    ensures
        r1 == r2,
{
}

/// What a device appends behind the first twenty bytes changes nothing: packets that
/// agree on those are both input reports or both not, and say the same.
pub proof fn lemma_extension_is_ignored(a: Seq<u8>, b: Seq<u8>)
    requires
        a.len() >= 20,
        b.len() >= 20,
        a.take(20) == b.take(20),
    ensures
        is_input(a) == is_input(b),
        forall|r: GamepadReport| decodes_to(a, r) == decodes_to(b, r),
{
    assert forall|i: int| 0 <= i < 20 implies a[i] == b[i] by {
        assert(a[i] == a.take(20)[i]);
        assert(b[i] == b.take(20)[i]);
    }
}

// ── The driver ───────────────────────────────────────────────────────────────

/// An interrupt pipe to be opened.
#[derive(Clone, Copy, Debug, PartialEq, Eq, Structural)]
pub struct PipeInfo {
    /// Endpoint number, with the direction in the top bit.
    pub address: u8,
    /// Largest packet.
    pub max_packet_size: u16,
    /// Polling interval.
    pub interval_ms: u8,
}

/// The pipes that a controller needs.
#[derive(Clone, Copy, Debug, PartialEq, Eq, Structural)]
pub struct PipePlan {
    /// For input.
    pub input: PipeInfo,
    /// For rumble and lamps, where the device has an endpoint for them.
    pub output: Option<PipeInfo>,
}

/// Which of the planned pipes the bus granted.
#[derive(Clone, Copy, Debug, PartialEq, Eq, Structural)]
pub struct OpenedPipes {
    /// The pipe for input.
    pub input: bool,
    /// The pipe for output; of no matter where none was planned.
    pub output: bool,
}

/// The pipe for an endpoint: its number, under the direction that the pipe is used in.
pub open spec fn pipe_info(ep: InterruptEndpoint, inward: bool) -> PipeInfo {
    PipeInfo {
        address: (ep.address % 16 + (if inward {
            128int
        } else {
            0
        })) as u8,
        max_packet_size: ep.max_packet_size,
        interval_ms: ep.interval,
    }
}

/// The pipes for an interface.
pub open spec fn pipe_plan(info: XInputInterfaceInfo) -> PipePlan {
    PipePlan {
        input: pipe_info(info.interrupt_in, true),
        output: match info.interrupt_out {
            Some(ep) => Some(pipe_info(ep, false)),
            None => None,
        },
    }
}

fn plan_pipe(ep: &InterruptEndpoint, inward: bool) -> (r: PipeInfo)
    ensures
        r == pipe_info(*ep, inward),
{
    let number: u8 = ep.address % 16;
    PipeInfo {
        address: if inward {
            number + 128
        } else {
            number
        },
        max_packet_size: ep.max_packet_size,
        interval_ms: ep.interval,
    }
}

/// The lamp value for a player number.
pub open spec fn lamp_value(index: u8) -> u8 {
    if 1 <= index <= XINPUT_PLAYER_MAX {
        (XINPUT_LED_PLAYER_BASE + index - 1) as u8
    } else {
        XINPUT_LED_OFF
    }
}

/// A controller that speaks this protocol.
#[derive(Clone, Copy, Debug, PartialEq, Eq, Structural)]
pub struct XInputHost {
    /// The device takes rumble and lamp packets.
    pub has_output: bool,
}

/// What becomes of a device with the given interface when its pipes are asked for.
pub open spec fn registered(
    interface: Option<XInputInterfaceInfo>,
    opened: OpenedPipes,
) -> Result<XInputHost, GamepadError> {
    match interface {
        None => Err(GamepadError::NotSupported),
        Some(info) => if opened.input && (info.interrupt_out is Some ==> opened.output) {
            Ok(XInputHost { has_output: info.interrupt_out is Some })
        } else {
            Err(GamepadError::NoPipe)
        },
    }
}

impl XInputHost {
    /// The pipes to open for a device; [`GamepadError::NotSupported`] where it has no
    /// interface of this protocol.
    pub fn plan_pipes(config_desc: &[u8]) -> (r: Result<PipePlan, GamepadError>)
        requires
            searchable(config_desc@),
        ensures
            r == (match xinput_interface(config_desc@) {
                Some(info) => Ok(pipe_plan(info)),
                None => Err(GamepadError::NotSupported),
            }),
    {
        match find_xinput(config_desc) {
            None => Err(GamepadError::NotSupported),
            Some(info) => {
                let input = plan_pipe(&info.interrupt_in, true);
                let output = match info.interrupt_out {
                    Some(ep) => Some(plan_pipe(&ep, false)),
                    None => None,
                };
                Ok(PipePlan { input, output })
            },
        }
    }

    /// Takes charge of a device for which the pipes of [`XInputHost::plan_pipes`] were
    /// asked for. Nothing has to be sent to the device first.
    ///
    /// [`GamepadError::NotSupported`] where the device has no interface of this protocol,
    /// [`GamepadError::NoPipe`] where a pipe was refused.
    pub fn try_register(config_desc: &[u8], opened: &OpenedPipes) -> (r: Result<
        XInputHost,
        GamepadError,
    >)
        requires
            searchable(config_desc@),
        ensures
            r == registered(xinput_interface(config_desc@), *opened),
    {
        let info = match find_xinput(config_desc) {
            Some(info) => info,
            None => return Err(GamepadError::NotSupported),
        };
        if !opened.input {
            return Err(GamepadError::NoPipe);
        }
        // A device without an outward endpoint is of use too: it only cannot rumble.
        match info.interrupt_out {
            Some(_) => if opened.output {
                Ok(XInputHost { has_output: true })
            } else {
                Err(GamepadError::NoPipe)
            },
            None => Ok(XInputHost { has_output: false }),
        }
    }

    /// Looks at a packet that came in. `None`: it is no input report, read on.
    pub fn poll(&self, packet: &[u8]) -> (r: Option<GamepadReport>)
        ensures
            r is Some <==> is_input(packet@),
            r matches Some(report) ==> decodes_to(packet@, report),
    {
        parse_standard_input(packet)
    }

    /// The packet that sets both motors, the slow strong one and the fast weak one.
    ///
    /// [`GamepadError::NotSupported`] where the device takes no packets.
    pub fn set_rumble(&self, strong: u8, weak: u8) -> (r: Result<Vec<u8>, GamepadError>)
        ensures
            match r {
                Ok(packet) => self.has_output && packet@ == seq![
                    0x00u8,
                    0x08,
                    0x00,
                    strong,
                    weak,
                    0x00,
                    0x00,
                    0x00,
                ],
                Err(e) => !self.has_output && e == GamepadError::NotSupported,
            },
    {
        self.send(vec![XINPUT_MSG_RUMBLE, XINPUT_RUMBLE_LEN, 0x00, strong, weak, 0x00, 0x00, 0x00])
    }

    /// The packet that lights the lamp of a player, 1 to 4; every other number puts the
    /// lamps out.
    ///
    /// [`GamepadError::NotSupported`] where the device takes no packets.
    pub fn set_player_index(&self, index: u8) -> (r: Result<Vec<u8>, GamepadError>)
        ensures
            match r {
                Ok(packet) => self.has_output && packet@ == seq![
                    0x01u8,
                    0x03,
                    lamp_value(index),
                ],
                Err(e) => !self.has_output && e == GamepadError::NotSupported,
            },
    {
        let value: u8 = if 1 <= index && index <= XINPUT_PLAYER_MAX {
            XINPUT_LED_PLAYER_BASE + index - 1
        } else {
            XINPUT_LED_OFF
        };
        self.send(vec![XINPUT_MSG_LED, XINPUT_LED_LEN, value])
    }

    /// Lets a packet through to the outward endpoint, where there is one.
    fn send(&self, packet: Vec<u8>) -> (r: Result<Vec<u8>, GamepadError>)
        ensures
            match r {
                Ok(p) => self.has_output && p@ == packet@,
                Err(e) => !self.has_output && e == GamepadError::NotSupported,
            },
    {
        if self.has_output {
            Ok(packet)
        } else {
            Err(GamepadError::NotSupported)
        }
    }
}

/// The lamp values of players one to four are 6 to 9, and no other number lights a lamp.
pub proof fn lemma_lamps(index: u8)
    ensures
        1 <= index <= 4 ==> lamp_value(index) == 5 + index,
        !(1 <= index <= 4) ==> lamp_value(index) == 0,
{
}

/// The pipe for input always carries the inward direction bit and the pipe for output
/// never does, whatever the descriptor said; both keep the endpoint number.
pub proof fn lemma_pipe_directions(info: XInputInterfaceInfo)
    ensures
        bytes::has_bit(pipe_plan(info).input.address, 7),
        pipe_plan(info).input.address % 16 == info.interrupt_in.address % 16,
        pipe_plan(info).output matches Some(out) ==> {
            &&& !bytes::has_bit(out.address, 7)
            &&& out.address == info.interrupt_out->0.address % 16
        },
{
    let a = pipe_plan(info).input.address;
    assert((a >> 7) % 2 == 1) by (bit_vector)
        requires
            a >= 128,
    ;
    if let Some(out) = pipe_plan(info).output {
        let b = out.address;
        assert((b >> 7) % 2 == 0) by (bit_vector)
            requires
                b < 128,
        ;
    }
}

/// A packet is an input report exactly when it has twenty bytes or more and starts with 0
/// and 20.
pub proof fn lemma_which_packets_are_input(data: Seq<u8>)
    ensures
        is_input(data) <==> data.len() >= 20 && data[0] == 0 && data[1] == 20,
{
}

/// The button bytes can be put together again from a decoded report: each button weighs the
/// power of two that the layout gives it. In the second byte one bit belongs to no button.
pub proof fn lemma_buttons_weigh_their_bits(data: Seq<u8>, r: GamepadReport)
    requires
        decodes_to(data, r),
    ensures
        data[2] == bytes::weight(r.dpad_up, 1) + bytes::weight(r.dpad_down, 2) + bytes::weight(
            r.dpad_left,
            4,
        ) + bytes::weight(r.dpad_right, 8) + bytes::weight(r.start, 16) + bytes::weight(r.back, 32)
            + bytes::weight(r.left_stick_press, 64) + bytes::weight(r.right_stick_press, 128),
        data[3] - bytes::weight(r.left_bumper, 1) - bytes::weight(r.right_bumper, 2)
            - bytes::weight(r.guide, 4) - bytes::weight(r.a, 16) - bytes::weight(r.b, 32)
            - bytes::weight(r.x, 64) - bytes::weight(r.y, 128) == bytes::weight(
            (data[3] / 8) % 2 == 1,
            8,
        ),
{
    bytes::lemma_bits_make_the_byte(data[2]);
    bytes::lemma_bits_make_the_byte(data[3]);
    let b = data[3];
    assert((b >> 3) % 2 == (b / 8) % 2) by (bit_vector);
}

/// The triggers are bytes 4 and 5, and the bytes of the four axes can be had again from a
/// decoded report: left X at 6, left Y at 8, right X at 10, right Y at 12, each the
/// remainder by 256 and then the rest.
pub proof fn lemma_axes_give_their_bytes(data: Seq<u8>, r: GamepadReport)
    requires
        decodes_to(data, r),
    ensures
        r.left_trigger == data[4],
        r.right_trigger == data[5],
        (r.left_stick_x as int) % 256 == data[6] && (r.left_stick_x as int / 256) % 256 == data[7],
        (r.left_stick_y as int) % 256 == data[8] && (r.left_stick_y as int / 256) % 256 == data[9],
        (r.right_stick_x as int) % 256 == data[10] && (r.right_stick_x as int / 256) % 256
            == data[11],
        (r.right_stick_y as int) % 256 == data[12] && (r.right_stick_y as int / 256) % 256
            == data[13],
{
    bytes::lemma_two_signed_bytes(data[6], data[7]);
    bytes::lemma_two_signed_bytes(data[8], data[9]);
    bytes::lemma_two_signed_bytes(data[10], data[11]);
    bytes::lemma_two_signed_bytes(data[12], data[13]);
}

/// An interface offers something exactly when it carries the codes 0xFF, 0x5D and 0x01 and
/// has an endpoint with both low attribute bits and the top address bit set.
pub proof fn lemma_what_makes_an_offer(i: descriptor::InterfaceView)
    ensures
        offered(i) is Some <==> i.descriptor.interface_class == 255 && i.descriptor.interface_subclass
            == 93 && i.descriptor.interface_protocol == 1 && exists|k: int|
            0 <= k < i.endpoints.len() && (#[trigger] i.endpoints[k]).attributes % 4 == 3
                && i.endpoints[k].endpoint_address >= 128,
{
    lemma_first_interrupt(i.endpoints, true);
    assert forall|k: int| 0 <= k < i.endpoints.len() implies (is_interrupt(
        #[trigger] i.endpoints[k],
        true,
    ) <==> i.endpoints[k].attributes % 4 == 3 && i.endpoints[k].endpoint_address >= 128) by {
        let a = i.endpoints[k].endpoint_address;
        assert((a >> 7) % 2 == 1 <==> a >= 128) by (bit_vector);
    }
}

/// What is offered are the first interrupt endpoint of either direction, with address,
/// packet size and interval as in the descriptor.
pub proof fn lemma_what_is_offered(i: descriptor::InterfaceView, info: XInputInterfaceInfo)
    requires
        offered(i) == Some(info),
    ensures
        exists|k: int|
            0 <= k < i.endpoints.len() && (#[trigger] i.endpoints[k]).endpoint_address
                == info.interrupt_in.address && i.endpoints[k].max_packet_size
                == info.interrupt_in.max_packet_size && i.endpoints[k].interval
                == info.interrupt_in.interval && is_interrupt(i.endpoints[k], true) && forall|j: int|
                0 <= j < k ==> !is_interrupt(#[trigger] i.endpoints[j], true),
        match info.interrupt_out {
            None => forall|j: int|
                0 <= j < i.endpoints.len() ==> !is_interrupt(#[trigger] i.endpoints[j], false),
            Some(out) => exists|k: int|
                0 <= k < i.endpoints.len() && (#[trigger] i.endpoints[k]).endpoint_address
                    == out.address && i.endpoints[k].max_packet_size == out.max_packet_size
                    && i.endpoints[k].interval == out.interval && is_interrupt(
                    i.endpoints[k],
                    false,
                ) && forall|j: int|
                    0 <= j < k ==> !is_interrupt(#[trigger] i.endpoints[j], false),
        },
{
    lemma_first_interrupt(i.endpoints, true);
    lemma_first_interrupt(i.endpoints, false);
}

/// An interrupt endpoint has both low attribute bits set; it is inward exactly when its
/// address has the top bit.
pub proof fn lemma_what_is_an_interrupt_endpoint(ep: EndpointDescriptor, inward: bool)
    ensures
        is_interrupt(ep, inward) <==> ep.attributes % 4 == 3 && (ep.endpoint_address >= 128)
            == inward,
{
    let a = ep.endpoint_address;
    assert((a >> 7) % 2 == 1 <==> a >= 128) by (bit_vector);
}

/// Pipes keep packet size and interval of their endpoints; a pipe for output is planned
/// exactly when there is an endpoint for it.
pub proof fn lemma_pipes_keep_the_rest(info: XInputInterfaceInfo)
    ensures
        pipe_plan(info).input.max_packet_size == info.interrupt_in.max_packet_size,
        pipe_plan(info).input.interval_ms == info.interrupt_in.interval,
        pipe_plan(info).input.address == 128 + info.interrupt_in.address % 16,
        pipe_plan(info).output is Some <==> info.interrupt_out is Some,
        pipe_plan(info).output matches Some(out) ==> {
            &&& out.address == info.interrupt_out->0.address % 16
            &&& out.max_packet_size == info.interrupt_out->0.max_packet_size
            &&& out.interval_ms == info.interrupt_out->0.interval
        },
{
}

/// A device is taken charge of exactly when it has the interface and every planned pipe was
/// granted; it takes output exactly when it has an endpoint for it. It is not supported
/// exactly when it lacks the interface, and otherwise short of a pipe.
pub proof fn lemma_when_registered(interface: Option<XInputInterfaceInfo>, opened: OpenedPipes)
    ensures
        registered(interface, opened) is Ok <==> interface is Some && opened.input && (
        interface->0.interrupt_out is None || opened.output),
        registered(interface, opened) matches Ok(host) ==> host.has_output
            == interface->0.interrupt_out is Some,
        registered(interface, opened) == Err::<XInputHost, GamepadError>(GamepadError::NotSupported)
            <==> interface is None,
        registered(interface, opened) is Err && interface is Some ==> registered(interface, opened)
            == Err::<XInputHost, GamepadError>(GamepadError::NoPipe),
{
}

/// In a configuration descriptor something is found exactly when one of its interfaces
/// offers something, and then it is what the first such interface offers.
pub proof fn lemma_what_is_found(config_desc: Seq<u8>, c: descriptor::ConfigurationView)
    requires
        descriptor::parsed_configuration(config_desc) == Some(c),
    ensures
        match xinput_interface(config_desc) {
            None => forall|i: int|
                0 <= i < c.interfaces.len() ==> offered(#[trigger] c.interfaces[i]) is None,
            Some(info) => exists|k: int|
                0 <= k < c.interfaces.len() && offered(#[trigger] c.interfaces[k]) == Some(info)
                    && forall|i: int| 0 <= i < k ==> offered(#[trigger] c.interfaces[i]) is None,
        },
{
    lemma_first_xinput(c.interfaces);
}

/// In bytes that are no configuration descriptor nothing is found.
pub proof fn lemma_nothing_is_found_elsewhere(bytes: Seq<u8>)
    requires
        bytes.len() < 9 || bytes[1] != 2,
    ensures
        xinput_interface(bytes) is None,
{
}

} // verus!
