//! The DualSense controller over USB.
//!
//! The device is an ordinary human interface device and needs no handshake. An input
//! report has this form (64 bytes in practice).
//!
//! | bytes  | content                                                        |
//! |--------|----------------------------------------------------------------|
//! | 0      | report number, 0x01 for input                                  |
//! | 1, 2   | left stick X and Y, 0x80 in the middle, Y grows downwards      |
//! | 3, 4   | right stick X and Y                                            |
//! | 5, 6   | left and right trigger                                         |
//! | 7      | sequence number                                                |
//! | 8      | bits 0 to 3: hat; bits 4 to 7: square, cross, circle, triangle |
//! | 9      | bits 0 to 7: L1, R1, L2, R2, Create, Options, L3, R3           |
//! | 10     | bit 0: PS; bit 1: touch pad pressed; bit 2: microphone         |
//! | 16-21  | gyroscope X, Y, Z, 16 bits each, low byte first                |
//! | 22-27  | accelerometer X, Y, Z                                          |
//! | 28-31  | sensor time stamp, 32 bits, low byte first                     |
//! | 33-40  | two touch points of four bytes                                 |
//! | 53     | bits 0 to 3: battery level; bits 4 to 7: charging state        |

use crate::bytes;
use crate::errors::{GamepadError, HidError};
use crate::gamepad::GamepadReport;
use crate::text;
use crate::usb_host::EnumerationInfo;
use vstd::prelude::*;
use vstd::string::StringExecFns;

verus! {

/// Vendor number of Sony Interactive Entertainment.
pub const SONY_VID: u16 = 0x054C;

/// Product number of the DualSense.
pub const DUALSENSE_PID: u16 = 0x0CE6;

/// Product number of the DualSense Edge.
pub const DUALSENSE_EDGE_PID: u16 = 0x0DF2;

/// The number of the input report.
pub const DS5_INPUT_REPORT_ID: u8 = 0x01;

/// How many bytes the buttons, sticks and triggers take.
pub const DS5_BASE_LEN: usize = 11;

/// How many bytes everything takes, up to the battery.
pub const DS5_EXTRA_LEN: usize = 54;

/// The highest player number that the lamps can show.
pub const DS5_PLAYER_MAX: u8 = 5;

/// The largest packet.
pub const DS5_MAX_PACKET: usize = 64;

/// A point of the touch pad, which measures 1920 by 1080 from its upper left corner.
#[derive(Clone, Copy, Debug, PartialEq, Eq, Structural)]
pub struct TouchPoint {
    /// A finger is there.
    pub active: bool,
    /// Number of the touch; it changes when the finger is lifted and put down again.
    pub id: u8,
    /// From the left.
    pub x: u16,
    /// From the top.
    pub y: u16,
}

/// The point of an untouched pad before anything was read.
pub open spec fn no_touch() -> TouchPoint {
    TouchPoint { active: false, id: 0, x: 0, y: 0 }
}

impl Default for TouchPoint {
    fn default() -> (r: Self)
        ensures
            r == no_touch(),
    {
        TouchPoint { active: false, id: 0, x: 0, y: 0 }
    }
}

/// What the battery is doing.
#[derive(Clone, Copy, Debug, PartialEq, Eq, Structural)]
pub enum ChargeState {
    /// Feeding the controller.
    Discharging,
    /// Being charged.
    Charging,
    /// Charged.
    Full,
    /// Too hot or too cold to be charged.
    TemperatureError,
    /// Charging has failed.
    ChargingError,
    /// A value that has no known meaning.
    Unknown(u8),
}

impl Default for ChargeState {
    fn default() -> (r: Self)
        ensures
            r == ChargeState::Discharging,
    {
        ChargeState::Discharging
    }
}

/// What a DualSense reports beyond [`GamepadReport`].
#[derive(Clone, Copy, Debug, PartialEq, Eq)]
pub struct Ds5Extra {
    /// The touch pad is pressed; it is one big button.
    pub touchpad_press: bool,
    /// The microphone button is pressed.
    pub mic_mute: bool,
    /// The two touch points.
    pub touch: [TouchPoint; 2],
    /// Gyroscope X, Y, Z, not calibrated.
    pub gyro: [i16; 3],
    /// Accelerometer X, Y, Z, not calibrated.
    pub accel: [i16; 3],
    /// The device's own clock.
    pub sensor_timestamp: u32,
    /// Battery level in percent.
    pub battery_percent: u8,
    /// What the battery is doing.
    pub charge_state: ChargeState,
}

/// What a [`Ds5Extra`] holds.
pub struct Ds5ExtraView {
    pub touchpad_press: bool,
    pub mic_mute: bool,
    pub touch: Seq<TouchPoint>,
    pub gyro: Seq<int>,
    pub accel: Seq<int>,
    pub sensor_timestamp: int,
    pub battery_percent: int,
    pub charge_state: ChargeState,
}

impl View for Ds5Extra {
    type V = Ds5ExtraView;

    open spec fn view(&self) -> Ds5ExtraView {
        Ds5ExtraView {
            touchpad_press: self.touchpad_press,
            mic_mute: self.mic_mute,
            touch: self.touch@,
            gyro: self.gyro@.map_values(|v: i16| v as int),
            accel: self.accel@.map_values(|v: i16| v as int),
            sensor_timestamp: self.sensor_timestamp as int,
            battery_percent: self.battery_percent as int,
            charge_state: self.charge_state,
        }
    }
}

/// What is known before anything was read.
pub open spec fn no_extra() -> Ds5ExtraView {
    Ds5ExtraView {
        touchpad_press: false,
        mic_mute: false,
        touch: seq![no_touch(), no_touch()],
        gyro: seq![0, 0, 0],
        accel: seq![0, 0, 0],
        sensor_timestamp: 0,
        battery_percent: 0,
        charge_state: ChargeState::Discharging,
    }
}

impl Default for Ds5Extra {
    fn default() -> (r: Self)
        ensures
            r@ == no_extra(),
    {
        let r = Ds5Extra {
            touchpad_press: false,
            mic_mute: false,
            touch: [TouchPoint::default(), TouchPoint::default()],
            gyro: [0, 0, 0],
            accel: [0, 0, 0],
            sensor_timestamp: 0,
            battery_percent: 0,
            charge_state: ChargeState::Discharging,
        };
        assert(r@.touch =~= no_extra().touch);
        assert(r@.gyro =~= no_extra().gyro);
        assert(r@.accel =~= no_extra().accel);
        r
    }
}

// ── Decoding ─────────────────────────────────────────────────────────────────

/// A stick axis of eight bits on the scale of [`GamepadReport`].
pub open spec fn axis(v: u8) -> int {
    (v - 128) * 256
}

/// The same with the direction turned round, for axes that grow downwards; the one value
/// that would not fit is cut to the largest that does.
pub open spec fn axis_inverted(v: u8) -> int {
    if axis(v) < -32767 {
        32767
    } else {
        -axis(v)
    }
}

/// Puts a stick axis of eight bits on the scale of [`GamepadReport`].
///
/// The steps are 256 apart, since the device sends no more than eight bits.
pub fn stick_axis(v: u8) -> (r: i16)
    ensures
        r == axis(v),
{
    (v as i16 - 128) * 256
}

/// The same for an axis that grows downwards, turned round.
pub fn stick_axis_inverted(v: u8) -> (r: i16)
    ensures
        r == axis_inverted(v),
{
    let raw: i16 = stick_axis(v);
    // The lowest value has no counterpart above zero.
    if raw < -32767 {
        32767
    } else {
        -raw
    }
}

/// The directions that a hat position stands for: up, down, left, right.
///
/// Positions 0 to 7 go clockwise from the top in steps of 45 degrees; every other value
/// means that the hat is released.
pub open spec fn hat_directions(hat: u8) -> (bool, bool, bool, bool) {
    (
        hat == 7 || hat == 0 || hat == 1,
        hat == 3 || hat == 4 || hat == 5,
        hat == 5 || hat == 6 || hat == 7,
        hat == 1 || hat == 2 || hat == 3,
    )
}

/// Splits a hat position into up, down, left and right.
pub fn decode_hat(hat: u8) -> (r: (bool, bool, bool, bool))
    ensures
        r == hat_directions(hat),
{
    match hat {
        0 => (true, false, false, false),
        1 => (true, false, false, true),
        2 => (false, false, false, true),
        3 => (false, true, false, true),
        4 => (false, true, false, false),
        5 => (false, true, true, false),
        6 => (false, false, true, false),
        7 => (true, false, true, false),
        _ => (false, false, false, false),
    }
}

/// The touch point that four bytes stand for: number and lifted bit, low byte of X, high
/// half byte of X below the low half byte of Y, high byte of Y.
pub open spec fn touch_point(b0: u8, b1: u8, b2: u8, b3: u8) -> TouchPoint {
    TouchPoint {
        active: !bytes::has_bit(b0, 7),
        id: b0 % 128,
        x: (b1 + 256 * (b2 % 16)) as u16,
        y: (b2 / 16 + 16 * b3) as u16,
    }
}

/// Decodes a touch point from its four bytes.
pub fn parse_touch(p: &[u8]) -> (r: TouchPoint)
    requires
        p@.len() >= 4,
    ensures
        r == touch_point(p@[0], p@[1], p@[2], p@[3]),
{
    TouchPoint {
        active: !bytes::bit(p[0], 7),
        id: p[0] % 128,
        x: p[1] as u16 + 256 * (p[2] % 16) as u16,
        y: (p[2] / 16) as u16 + 16 * p[3] as u16,
    }
}

/// The percentage for a battery level.
pub open spec fn level_percent(level: int) -> int {
    if level * 10 + 5 <= 100 {
        level * 10 + 5
    } else {
        100
    }
}

/// What a status byte says: percentage and charging state.
pub open spec fn battery(status: u8) -> (int, ChargeState) {
    let percent: int = level_percent((status % 16) as int);
    let state: u8 = status / 16;
    if state == 0 {
        (percent, ChargeState::Discharging)
    } else if state == 1 {
        (percent, ChargeState::Charging)
    } else if state == 2 {
        (100, ChargeState::Full)
    } else if state == 0xA || state == 0xB {
        (0, ChargeState::TemperatureError)
    } else if state == 0xF {
        (0, ChargeState::ChargingError)
    } else {
        (0, ChargeState::Unknown(state))
    }
}

/// Decodes the status byte into percentage and charging state.
pub fn decode_battery(status: u8) -> (r: (u8, ChargeState))
    ensures
        r.0 == battery(status).0,
        r.1 == battery(status).1,
{
    let level: u8 = status % 16;
    let percent: u8 = if level < 10 {
        level * 10 + 5
    } else {
        100
    };
    match status / 16 {
        0x0 => (percent, ChargeState::Discharging),
        0x1 => (percent, ChargeState::Charging),
        0x2 => (100, ChargeState::Full),
        0xA | 0xB => (0, ChargeState::TemperatureError),
        0xF => (0, ChargeState::ChargingError),
        other => (0, ChargeState::Unknown(other)),
    }
}

/// The packet is an input report that holds buttons, sticks and triggers.
pub open spec fn is_input(data: Seq<u8>) -> bool {
    data.len() >= DS5_BASE_LEN && data[0] == DS5_INPUT_REPORT_ID
}

/// The packet is an input report that holds everything.
pub open spec fn is_full_input(data: Seq<u8>) -> bool {
    data.len() >= DS5_EXTRA_LEN && data[0] == DS5_INPUT_REPORT_ID
}

/// `r` is what an input report says.
pub open spec fn decodes_to(data: Seq<u8>, r: GamepadReport) -> bool {
    &&& (r.dpad_up, r.dpad_down, r.dpad_left, r.dpad_right) == hat_directions(data[8] % 16)
    &&& r.x == bytes::has_bit(data[8], 4)
    &&& r.a == bytes::has_bit(data[8], 5)
    &&& r.b == bytes::has_bit(data[8], 6)
    &&& r.y == bytes::has_bit(data[8], 7)
    &&& r.left_bumper == bytes::has_bit(data[9], 0)
    &&& r.right_bumper == bytes::has_bit(data[9], 1)
    &&& r.back == bytes::has_bit(data[9], 4)
    &&& r.start == bytes::has_bit(data[9], 5)
    &&& r.left_stick_press == bytes::has_bit(data[9], 6)
    &&& r.right_stick_press == bytes::has_bit(data[9], 7)
    &&& r.guide == bytes::has_bit(data[10], 0)
    &&& r.left_trigger == data[5]
    &&& r.right_trigger == data[6]
    &&& r.left_stick_x == axis(data[1])
    &&& r.left_stick_y == axis_inverted(data[2])
    &&& r.right_stick_x == axis(data[3])
    &&& r.right_stick_y == axis_inverted(data[4])
}

/// What a full input report says beyond [`GamepadReport`].
pub open spec fn extra_of(data: Seq<u8>) -> Ds5ExtraView {
    Ds5ExtraView {
        touchpad_press: bytes::has_bit(data[10], 1),
        mic_mute: bytes::has_bit(data[10], 2),
        touch: seq![
            touch_point(data[33], data[34], data[35], data[36]),
            touch_point(data[37], data[38], data[39], data[40]),
        ],
        gyro: seq![
            bytes::le_i16(data[16], data[17]),
            bytes::le_i16(data[18], data[19]),
            bytes::le_i16(data[20], data[21]),
        ],
        accel: seq![
            bytes::le_i16(data[22], data[23]),
            bytes::le_i16(data[24], data[25]),
            bytes::le_i16(data[26], data[27]),
        ],
        sensor_timestamp: bytes::le_u32(data[28], data[29], data[30], data[31]),
        battery_percent: battery(data[53]).0,
        charge_state: battery(data[53]).1,
    }
}

/// Decodes the buttons, sticks and triggers; `None` where the packet is no input report.
pub fn parse_input(data: &[u8]) -> (r: Option<GamepadReport>)
    ensures
        r is Some <==> is_input(data@),
        r matches Some(report) ==> decodes_to(data@, report),
{
    if data.len() < DS5_BASE_LEN || data[0] != DS5_INPUT_REPORT_ID {
        return None;
    }
    let (dpad_up, dpad_down, dpad_left, dpad_right) = decode_hat(data[8] % 16);
    Some(
        GamepadReport {
            dpad_up,
            dpad_down,
            dpad_left,
            dpad_right,
            x: bytes::bit(data[8], 4),
            a: bytes::bit(data[8], 5),
            b: bytes::bit(data[8], 6),
            y: bytes::bit(data[8], 7),
            left_bumper: bytes::bit(data[9], 0),
            right_bumper: bytes::bit(data[9], 1),
            back: bytes::bit(data[9], 4),
            start: bytes::bit(data[9], 5),
            left_stick_press: bytes::bit(data[9], 6),
            right_stick_press: bytes::bit(data[9], 7),
            guide: bytes::bit(data[10], 0),
            left_trigger: data[5],
            right_trigger: data[6],
            left_stick_x: stick_axis(data[1]),
            left_stick_y: stick_axis_inverted(data[2]),
            right_stick_x: stick_axis(data[3]),
            right_stick_y: stick_axis_inverted(data[4]),
        },
    )
}

/// Decodes what only a DualSense reports; `None` where the packet is too short or no
/// input report.
pub fn parse_extra(data: &[u8]) -> (r: Option<Ds5Extra>)
    ensures
        r is Some <==> is_full_input(data@),
        r matches Some(extra) ==> extra@ == extra_of(data@),
{
    if data.len() < DS5_EXTRA_LEN || data[0] != DS5_INPUT_REPORT_ID {
        return None;
    }
    let (battery_percent, charge_state) = decode_battery(data[53]);
    let extra = Ds5Extra {
        touchpad_press: bytes::bit(data[10], 1),
        mic_mute: bytes::bit(data[10], 2),
        touch: [parse_touch(&data[33..37]), parse_touch(&data[37..41])],
        gyro: [
            bytes::i16_from_le(data[16], data[17]),
            bytes::i16_from_le(data[18], data[19]),
            bytes::i16_from_le(data[20], data[21]),
        ],
        accel: [
            bytes::i16_from_le(data[22], data[23]),
            bytes::i16_from_le(data[24], data[25]),
            bytes::i16_from_le(data[26], data[27]),
        ],
        sensor_timestamp: bytes::u32_from_le(data[28], data[29], data[30], data[31]),
        battery_percent,
        charge_state,
    };
    assert(extra@.touch =~= extra_of(data@).touch);
    assert(extra@.gyro =~= extra_of(data@).gyro);
    assert(extra@.accel =~= extra_of(data@).accel);
    Some(extra)
}

// ── Text ─────────────────────────────────────────────────────────────────────

impl ChargeState {
    /// The name of the state, with what it carries in round brackets.
    pub open spec fn text(self) -> Seq<char> {
        match self {
            ChargeState::Discharging => "Discharging"@,
            ChargeState::Charging => "Charging"@,
            ChargeState::Full => "Full"@,
            ChargeState::TemperatureError => "TemperatureError"@,
            ChargeState::ChargingError => "ChargingError"@,
            ChargeState::Unknown(n) => "Unknown("@ + text::decimal(n as nat) + ")"@,
        }
    }

    /// Appends the name of the state, with what it carries in round brackets.
    fn push_to(&self, out: &mut String)
        ensures
            final(out)@ == old(out)@ + self.text(),
    {
        match self {
            ChargeState::Discharging => {
                out.append("Discharging");
            },
            ChargeState::Charging => {
                out.append("Charging");
            },
            ChargeState::Full => {
                out.append("Full");
            },
            ChargeState::TemperatureError => {
                out.append("TemperatureError");
            },
            ChargeState::ChargingError => {
                out.append("ChargingError");
            },
            ChargeState::Unknown(n) => {
                out.append("Unknown(");
                text::push_decimal(out, *n as u64);
                out.append(")");
            },
        }
        assert(out@ =~= old(out)@ + self.text());
    }
}

impl TouchPoint {
    /// The touch as text: its number and where it is.
    pub open spec fn text(self) -> Seq<char> {
        "#"@ + text::decimal(self.id as nat) + "("@ + text::decimal(self.x as nat) + ","@
            + text::decimal(self.y as nat) + ")"@
    }

    /// Appends the touch as text: its number and where it is.
    fn push_to(&self, out: &mut String)
        ensures
            final(out)@ == old(out)@ + self.text(),
    {
        out.append("#");
        text::push_decimal(out, self.id as u64);
        out.append("(");
        text::push_decimal(out, self.x as u64);
        out.append(",");
        text::push_decimal(out, self.y as u64);
        out.append(")");
        assert(out@ =~= old(out)@ + self.text());
    }
}

/// Three numbers in round brackets.
pub open spec fn triple_text(v: Seq<int>) -> Seq<char> {
    "("@ + text::signed_decimal(v[0]) + ", "@ + text::signed_decimal(v[1]) + ", "@
        + text::signed_decimal(v[2]) + ")"@
}

/// Appends three numbers in round brackets.
fn push_triple(out: &mut String, v: &[i16; 3])
    ensures
        final(out)@ == old(out)@ + triple_text(v@.map_values(|v: i16| v as int)),
{
    out.append("(");
    text::push_signed(out, v[0] as i64);
    out.append(", ");
    text::push_signed(out, v[1] as i64);
    out.append(", ");
    text::push_signed(out, v[2] as i64);
    out.append(")");
    assert(out@ =~= old(out)@ + triple_text(v@.map_values(|v: i16| v as int)));
}

/// Those of two touches that are active, with a space between them.
pub open spec fn touches_text(touch: Seq<TouchPoint>) -> Seq<char> {
    text::spaced(
        text::chosen(
            seq![(touch[0].active, touch[0].text()), (touch[1].active, touch[1].text())],
        ),
    )
}

/// Appends those of two touches that are active, with a space between them.
fn push_touches(out: &mut String, touch: &[TouchPoint; 2])
    ensures
        final(out)@ == old(out)@ + touches_text(touch@),
{
    proof {
        reveal_with_fuel(text::chosen, 3);
        reveal_with_fuel(text::spaced, 3);
        let both = seq![(touch[0].active, touch[0].text()), (touch[1].active, touch[1].text())];
        assert(both.drop_last() =~= seq![(touch[0].active, touch[0].text())]);
        assert(both.drop_last().drop_last() =~= Seq::empty());
    }
    if touch[0].active {
        touch[0].push_to(out);
        if touch[1].active {
            out.append(" ");
        }
    }
    if touch[1].active {
        touch[1].push_to(out);
    }
    assert(out@ =~= old(out)@ + touches_text(touch@));
}

impl Ds5ExtraView {
    /// The data as one line of text; only those touches are shown that are active.
    pub open spec fn text(self) -> Seq<char> {
        "touch=["@ + touches_text(self.touch) + "]"@ + (if self.touchpad_press {
            " Pad"@
        } else {
            Seq::empty()
        }) + (if self.mic_mute {
            " Mic"@
        } else {
            Seq::empty()
        }) + " gyro="@ + triple_text(self.gyro) + " accel="@ + triple_text(self.accel) + " bat="@
            + text::decimal(self.battery_percent as nat) + "% "@ + self.charge_state.text()
    }
}

impl Ds5Extra {
    /// The data as one line, such as
    /// `touch=[#0(960,540)] gyro=(1, -2, 0) accel=(0, 8192, 40) bat=75% Discharging`.
    pub fn to_string(&self) -> (s: String)
        ensures
            s@ == self@.text(),
    {
        let mut out = String::new();
        out.append("touch=[");
        push_touches(&mut out, &self.touch);
        out.append("]");
        if self.touchpad_press {
            out.append(" Pad");
        }
        if self.mic_mute {
            out.append(" Mic");
        }
        out.append(" gyro=");
        push_triple(&mut out, &self.gyro);
        out.append(" accel=");
        push_triple(&mut out, &self.accel);
        out.append(" bat=");
        text::push_decimal(&mut out, self.battery_percent as u64);
        out.append("% ");
        self.charge_state.push_to(&mut out);
        assert(out@ =~= self@.text());
        out
    }
}

// ── The driver ───────────────────────────────────────────────────────────────

/// The device is a DualSense by its vendor and product numbers.
pub open spec fn dualsense(info: EnumerationInfo) -> bool {
    info.device_desc.vendor_id == SONY_VID && (info.device_desc.product_id == DUALSENSE_PID
        || info.device_desc.product_id == DUALSENSE_EDGE_PID)
}

/// Tells whether a device is a DualSense.
///
/// Its interface looks like that of any other human interface device, so only the vendor
/// and product numbers tell.
pub fn is_dualsense(enum_info: &EnumerationInfo) -> (r: bool)
    ensures
        r == dualsense(*enum_info),
{
    let desc = &enum_info.device_desc;
    desc.vendor_id == SONY_VID && (desc.product_id == DUALSENSE_PID || desc.product_id
        == DUALSENSE_EDGE_PID)
}

/// Why a device is not taken charge of, given how opening it as a human interface device
/// went; `None` where it is.
pub open spec fn refusal(info: EnumerationInfo, hid: Result<(), HidError>) -> Option<GamepadError> {
    if !dualsense(info) {
        Some(GamepadError::NotSupported)
    } else {
        match hid {
            Ok(_) => None,
            Err(HidError::Transfer(e)) => Some(GamepadError::Transfer(e)),
            Err(HidError::NoInterface) => Some(GamepadError::NotSupported),
            Err(HidError::NoPipe) => Some(GamepadError::NoPipe),
        }
    }
}

/// What is known beyond [`GamepadReport`] once a packet was read. Only a full input
/// report changes it.
pub open spec fn refreshed(extra: Ds5ExtraView, packet: Seq<u8>) -> Ds5ExtraView {
    if is_full_input(packet) {
        extra_of(packet)
    } else {
        extra
    }
}

/// The player number that the lamps show for `index`; 0 is none.
pub open spec fn shown_player(index: u8) -> u8 {
    if 1 <= index <= DS5_PLAYER_MAX {
        index
    } else {
        0
    }
}

/// A DualSense.
#[derive(Clone, Copy, Debug)]
pub struct Ds5Host {
    /// What was last read beyond [`GamepadReport`].
    pub latest: Ds5Extra,
}

impl Ds5Host {
    /// Takes charge of a device, given how opening it as a human interface device went.
    /// Nothing has to be sent to the device first.
    ///
    /// [`GamepadError::NotSupported`] where the device is no DualSense or has no such
    /// interface, [`GamepadError::NoPipe`] where no pipe was free.
    pub fn try_register(enum_info: &EnumerationInfo, hid: Result<(), HidError>) -> (r: Result<
        Ds5Host,
        GamepadError,
    >)
        ensures
            match r {
                Ok(host) => refusal(*enum_info, hid) is None && host.latest@ == no_extra(),
                Err(e) => refusal(*enum_info, hid) == Some(e),
            },
    {
        if !is_dualsense(enum_info) {
            return Err(GamepadError::NotSupported);
        }
        match hid {
            Ok(_) => Ok(Ds5Host { latest: Ds5Extra::default() }),
            Err(e) => Err(GamepadError::from(e)),
        }
    }

    /// Looks at a packet that came in. `None`: it is no input report, read on.
    ///
    /// A report that is too short for it leaves the rest of the data as it was.
    pub fn poll(&mut self, packet: &[u8]) -> (r: Option<GamepadReport>)
        ensures
            r is Some <==> is_input(packet@),
            r matches Some(report) ==> decodes_to(packet@, report),
            final(self).latest@ == refreshed(old(self).latest@, packet@),
    {
        match parse_input(packet) {
            Some(report) => {
                if let Some(extra) = parse_extra(packet) {
                    self.latest = extra;
                }
                Some(report)
            },
            None => None,
        }
    }

    /// What was last read beyond [`GamepadReport`]: touch pad, sensors, battery.
    pub fn extra(&self) -> (r: &Ds5Extra)
        ensures
            *r == self.latest,
    {
        &self.latest
    }
}

// ── Laws ─────────────────────────────────────────────────────────────────────

/// A packet says one thing only.
pub proof fn lemma_decoding_is_unique(data: Seq<u8>, r1: GamepadReport, r2: GamepadReport)
    requires
        decodes_to(data, r1),
        decodes_to(data, r2),
    ensures
        r1 == r2,
{
}

/// A packet that holds everything holds the buttons, sticks and triggers too.
pub proof fn lemma_full_input_is_input(data: Seq<u8>)
    requires
        is_full_input(data),
    ensures
        is_input(data),
{
}

/// A packet that is passed over, being no input report, changes nothing.
pub proof fn lemma_skipped_packet_changes_nothing(extra: Ds5ExtraView, packet: Seq<u8>)
    requires
        !is_input(packet),
    ensures
        refreshed(extra, packet) == extra,
{
}

/// Buttons, sticks and triggers depend on the first eleven bytes alone.
pub proof fn lemma_base_prefix(a: Seq<u8>, b: Seq<u8>)
    requires
        a.len() >= 11,
        b.len() >= 11,
        a.take(11) == b.take(11),
    ensures
        is_input(a) == is_input(b),
        forall|r: GamepadReport| decodes_to(a, r) == decodes_to(b, r),
{
    assert forall|i: int| 0 <= i < 11 implies a[i] == b[i] by {
        assert(a[i] == a.take(11)[i]);
        assert(b[i] == b.take(11)[i]);
    }
}

/// Everything that is decoded depends on the first fifty-four bytes alone.
pub proof fn lemma_extra_prefix(a: Seq<u8>, b: Seq<u8>)
    requires
        a.len() >= 54,
        b.len() >= 54,
        a.take(54) == b.take(54),
    ensures
        is_full_input(a) == is_full_input(b),
        extra_of(a) == extra_of(b),
{
    assert forall|i: int| 0 <= i < 54 implies a[i] == b[i] by {
        assert(a[i] == a.take(54)[i]);
        assert(b[i] == b.take(54)[i]);
    }
    assert(extra_of(a).touch =~= extra_of(b).touch);
    assert(extra_of(a).gyro =~= extra_of(b).gyro);
    assert(extra_of(a).accel =~= extra_of(b).accel);
}

/// Both ways of reading an axis stay in the range of a report, rest at zero, and run in
/// opposite directions: a larger raw value is further right or further down.
pub proof fn lemma_axes(v: u8, w: u8)
    ensures
        -32768 <= axis(v) <= 32767,
        -32767 <= axis_inverted(v) <= 32767,
        axis(128) == 0 && axis_inverted(128) == 0,
        v < w ==> axis(v) < axis(w) && axis_inverted(v) > axis_inverted(w),
        v > 0 ==> axis_inverted(v) == -axis(v),
{
}

/// No hat position presses two opposite directions, and the positions 0 to 7 are just
/// those that press any.
pub proof fn lemma_hat_is_consistent(hat: u8)
    ensures
        ({
            let (up, down, left, right) = hat_directions(hat);
            !(up && down) && !(left && right) && (hat < 8 <==> up || down || left || right)
        }),
{
}

/// Half a turn of the hat swaps up with down and left with right.
pub proof fn lemma_hat_half_turn(hat: u8)
    requires
        hat < 8,
    ensures
        ({
            let (up, down, left, right) = hat_directions(hat);
            hat_directions(((hat + 4) % 8) as u8) == (down, up, right, left)
        }),
{
}

/// The battery level is a percentage, a full battery is at 100, and one that reports an
/// error or an unknown state is at 0.
pub proof fn lemma_battery(status: u8)
    ensures
        0 <= battery(status).0 <= 100,
        battery(status).1 is Full ==> battery(status).0 == 100,
        battery(status).1 is TemperatureError || battery(status).1 is ChargingError || battery(
            status,
        ).1 is Unknown ==> battery(status).0 == 0,
{
}

/// The four bytes that stand for a touch point.
pub open spec fn touch_bytes(t: TouchPoint) -> (u8, u8, u8, u8) {
    (
        (if t.active {
            t.id as int
        } else {
            t.id + 128
        }) as u8,
        (t.x % 256) as u8,
        (t.x / 256 + 16 * (t.y % 16)) as u8,
        (t.y / 16) as u8,
    )
}

/// A touch point has seven bits for its number and twelve for each coordinate, and every
/// such point has its own four bytes, from which it is read back.
pub proof fn lemma_touch_round_trip(t: TouchPoint)
    requires
        t.id < 128,
        t.x < 4096,
        t.y < 4096,
    ensures
        ({
            let (b0, b1, b2, b3) = touch_bytes(t);
            touch_point(b0, b1, b2, b3) == t
        }),
{
    let (b0, b1, b2, b3) = touch_bytes(t);
    assert((b0 >> 7) % 2 == b0 / 128) by (bit_vector);
}

/// What is read from four bytes keeps within seven and twelve bits, and gives the same
/// four bytes again.
pub proof fn lemma_touch_bytes_round_trip(b0: u8, b1: u8, b2: u8, b3: u8)
    ensures
        ({
            let t = touch_point(b0, b1, b2, b3);
            t.id < 128 && t.x < 4096 && t.y < 4096 && touch_bytes(t) == (b0, b1, b2, b3)
        }),
{
    assert((b0 >> 7) % 2 == b0 / 128) by (bit_vector);
}

/// What is known beyond [`GamepadReport`] after some packets were read one by one.
pub open spec fn extra_after(start: Ds5ExtraView, packets: Seq<Seq<u8>>) -> Ds5ExtraView
    decreases packets.len(),
{
    if packets.len() == 0 {
        start
    } else {
        refreshed(extra_after(start, packets.drop_last()), packets.last())
    }
}

/// The data beyond [`GamepadReport`] is that of the most recent full input report: the
/// packets that came after it do not count.
pub proof fn lemma_extra_is_most_recent(start: Ds5ExtraView, packets: Seq<Seq<u8>>, k: int)
    requires
        0 <= k < packets.len(),
        is_full_input(packets[k]),
        forall|j: int| k < j < packets.len() ==> !is_full_input(#[trigger] packets[j]),
    ensures
        extra_after(start, packets) == extra_of(packets[k]),
    decreases packets.len(),
{
    if k < packets.len() - 1 {
        lemma_extra_is_most_recent(start, packets.drop_last(), k);
    }
}

/// As long as no full input report was read, nothing changes.
pub proof fn lemma_extra_is_kept(start: Ds5ExtraView, packets: Seq<Seq<u8>>)
    requires
        forall|j: int| 0 <= j < packets.len() ==> !is_full_input(#[trigger] packets[j]),
    ensures
        extra_after(start, packets) == start,
    decreases packets.len(),
{
    if packets.len() > 0 {
        assert(!is_full_input(packets.last()));
        lemma_extra_is_kept(start, packets.drop_last());
    }
}

/// A packet is an input report exactly when it has eleven bytes or more and starts with 1;
/// it holds everything exactly when it moreover has fifty-four.
pub proof fn lemma_which_packets_are_input(data: Seq<u8>)
    ensures
        is_input(data) <==> data.len() >= 11 && data[0] == 1,
        is_full_input(data) <==> data.len() >= 54 && data[0] == 1,
{
}

/// An axis grows by 256 with each step of its byte, from the lowest value on; turned round
/// it falls by as much, but for the first step, which is one short.
pub proof fn lemma_axis_steps(v: u8)
    ensures
        axis(v) == 256 * v - 32768,
        axis_inverted(v) + axis(v) == (if v == 0 {
            -1int
        } else {
            0
        }),
{
}

/// The stick and trigger bytes can be had again from a decoded report: left X from byte 1,
/// left Y from 2, right X from 3, right Y from 4, left trigger 5, right trigger 6. X grows
/// with its byte, Y falls.
pub proof fn lemma_sticks_give_their_bytes(data: Seq<u8>, r: GamepadReport)
    requires
        decodes_to(data, r),
    ensures
        r.left_stick_x == 256 * (data[1] - 128),
        r.left_stick_y == 256 * (128 - data[2]) || data[2] == 0 && r.left_stick_y == 32767,
        r.right_stick_x == 256 * (data[3] - 128),
        r.right_stick_y == 256 * (128 - data[4]) || data[4] == 0 && r.right_stick_y == 32767,
        r.left_trigger == data[5],
        r.right_trigger == data[6],
{
}

/// Changing one stick byte changes one axis, in its direction, and nothing else.
pub proof fn lemma_each_stick_byte_moves_one_axis(
    data: Seq<u8>,
    v: u8,
    before: GamepadReport,
    after: GamepadReport,
    k: int,
)
    requires
        data.len() >= 11,
        1 <= k <= 4,
        decodes_to(data, before),
        decodes_to(data.update(k, v), after),
    ensures
        k == 1 ==> after == (GamepadReport { left_stick_x: after.left_stick_x, ..before }) && (v
            > data[1] <==> after.left_stick_x > before.left_stick_x),
        k == 2 ==> after == (GamepadReport { left_stick_y: after.left_stick_y, ..before }) && (v
            > data[2] <==> after.left_stick_y < before.left_stick_y),
        k == 3 ==> after == (GamepadReport { right_stick_x: after.right_stick_x, ..before }) && (v
            > data[3] <==> after.right_stick_x > before.right_stick_x),
        k == 4 ==> after == (GamepadReport { right_stick_y: after.right_stick_y, ..before }) && (v
            > data[4] <==> after.right_stick_y < before.right_stick_y),
{
}

/// The button bytes can be put together again from a decoded report: each button weighs the
/// power of two that the layout gives it. The hat takes the low half of byte 8, the triggers
/// as buttons two bits of byte 9, and in byte 10 only the lowest bit counts here.
pub proof fn lemma_buttons_weigh_their_bits(data: Seq<u8>, r: GamepadReport)
    requires
        decodes_to(data, r),
    ensures
        data[8] - data[8] % 16 == bytes::weight(r.x, 16) + bytes::weight(r.a, 32) + bytes::weight(
            r.b,
            64,
        ) + bytes::weight(r.y, 128),
        data[9] % 4 == bytes::weight(r.left_bumper, 1) + bytes::weight(r.right_bumper, 2),
        data[9] - data[9] % 16 == bytes::weight(r.back, 16) + bytes::weight(r.start, 32)
            + bytes::weight(r.left_stick_press, 64) + bytes::weight(r.right_stick_press, 128),
        data[10] % 2 == bytes::weight(r.guide, 1),
{
    bytes::lemma_bits_make_the_parts(data[8]);
    bytes::lemma_bits_make_the_parts(data[9]);
    bytes::lemma_bits_make_the_parts(data[10]);
}

/// The low half of byte 8 is a direction, clockwise from the top in steps of 45 degrees: the
/// directional pad is up for 7, 0 and 1, right for 1 to 3, down for 3 to 5, left for 5 to 7.
pub proof fn lemma_hat_of_a_report(data: Seq<u8>, r: GamepadReport)
    requires
        decodes_to(data, r),
    ensures
        ({
            let hat = data[8] % 16;
            &&& r.dpad_up <==> hat == 7 || hat <= 1
            &&& r.dpad_right <==> 1 <= hat <= 3
            &&& r.dpad_down <==> 3 <= hat <= 5
            &&& r.dpad_left <==> 5 <= hat <= 7
        }),
{
}

/// A quarter turn clockwise takes up to right, right to down, down to left and left to up.
pub proof fn lemma_hat_quarter_turn(hat: u8)
    requires
        hat < 8,
    ensures
        ({
            let (up, down, left, right) = hat_directions(hat);
            hat_directions(((hat + 2) % 8) as u8) == (left, right, down, up)
        }),
        hat_directions(0) == (true, false, false, false),
        hat_directions(1) == (true, false, false, true),
{
}

/// The bytes of a touch point can be had again from it: the number with 128 for a lifted
/// finger, then X with its low byte first, then Y, in twelve bits each.
pub proof fn lemma_touch_gives_its_bytes(b0: u8, b1: u8, b2: u8, b3: u8)
    ensures
        ({
            let t = touch_point(b0, b1, b2, b3);
            &&& b0 == t.id + bytes::weight(!t.active, 128) && t.id < 128
            &&& b1 == t.x % 256
            &&& b2 == t.x / 256 + 16 * (t.y % 16)
            &&& b3 == t.y / 16
        }),
{
    assert((b0 >> 7) % 2 == b0 / 128) by (bit_vector);
}

/// A battery that feeds the controller or is being charged is at five percent and ten more
/// for each of its levels up to nine, and at 100 beyond. The high half of the status is the
/// state.
pub proof fn lemma_battery_levels(status: u8)
    ensures
        status < 32 && status % 16 <= 9 ==> battery(status).0 == 10 * (status % 16) + 5,
        status < 32 && status % 16 >= 10 ==> battery(status).0 == 100,
        battery(status).1 is Discharging <==> status < 16,
        battery(status).1 is Charging <==> 16 <= status < 32,
        battery(status).1 is Full <==> 32 <= status < 48,
        battery(status).1 is TemperatureError <==> 160 <= status < 192,
        battery(status).1 is ChargingError <==> status >= 240,
        battery(status).1 matches ChargeState::Unknown(n) ==> n == status / 16,
{
}

/// The sensor bytes can be had again from the data: gyroscope from 16 on, accelerometer from
/// 22 on, X, Y, Z with two bytes each, then the time stamp from 28 on, low bytes first.
pub proof fn lemma_sensors_give_their_bytes(data: Seq<u8>)
    ensures
        ({
            let e = extra_of(data);
            &&& e.gyro.len() == 3 && e.accel.len() == 3
            &&& e.gyro[0] % 256 == data[16] && (e.gyro[0] / 256) % 256 == data[17]
            &&& e.gyro[1] % 256 == data[18] && (e.gyro[1] / 256) % 256 == data[19]
            &&& e.gyro[2] % 256 == data[20] && (e.gyro[2] / 256) % 256 == data[21]
            &&& e.accel[0] % 256 == data[22] && (e.accel[0] / 256) % 256 == data[23]
            &&& e.accel[1] % 256 == data[24] && (e.accel[1] / 256) % 256 == data[25]
            &&& e.accel[2] % 256 == data[26] && (e.accel[2] / 256) % 256 == data[27]
            &&& forall|i: int| 0 <= i < 3 ==> -32768 <= #[trigger] e.gyro[i] <= 32767
            &&& forall|i: int| 0 <= i < 3 ==> -32768 <= #[trigger] e.accel[i] <= 32767
            &&& e.sensor_timestamp % 256 == data[28]
            &&& (e.sensor_timestamp / 256) % 256 == data[29]
            &&& (e.sensor_timestamp / 65536) % 256 == data[30]
            &&& e.sensor_timestamp / 16777216 == data[31]
        }),
{
    bytes::lemma_two_signed_bytes(data[16], data[17]);
    bytes::lemma_two_signed_bytes(data[18], data[19]);
    bytes::lemma_two_signed_bytes(data[20], data[21]);
    bytes::lemma_two_signed_bytes(data[22], data[23]);
    bytes::lemma_two_signed_bytes(data[24], data[25]);
    bytes::lemma_two_signed_bytes(data[26], data[27]);
    bytes::lemma_four_bytes(data[28], data[29], data[30], data[31]);
}

/// Of byte 10 the second bit is the touch pad and the third the microphone. The touch points
/// are those of bytes 33 to 36 and 37 to 40, and the battery is that of byte 53.
pub proof fn lemma_where_the_rest_is(data: Seq<u8>)
    ensures
        ({
            let e = extra_of(data);
            &&& (data[10] / 2) % 4 == bytes::weight(e.touchpad_press, 1) + bytes::weight(
                e.mic_mute,
                2,
            )
            &&& e.touch == seq![
                touch_point(data[33], data[34], data[35], data[36]),
                touch_point(data[37], data[38], data[39], data[40]),
            ]
            &&& (e.battery_percent, e.charge_state) == battery(data[53])
        }),
{
    bytes::lemma_bits_make_the_parts(data[10]);
}

/// A DualSense is refused exactly when its numbers are not Sony's 0x054C with 0x0CE6 or
/// 0x0DF2, or opening it failed; a failed transfer and the want of a pipe are passed on, the
/// want of an interface means that it is not supported.
pub proof fn lemma_when_refused(info: EnumerationInfo, hid: Result<(), HidError>)
    ensures
        ({
            let known = info.device_desc.vendor_id == 0x054C && (info.device_desc.product_id == 0x0CE6
                || info.device_desc.product_id == 0x0DF2);
            &&& dualsense(info) <==> known
            &&& refusal(info, hid) is None <==> known && hid is Ok
            &&& !known ==> refusal(info, hid) == Some(GamepadError::NotSupported)
            &&& known ==> (hid matches Err(HidError::Transfer(e)) ==> refusal(info, hid) == Some(
                GamepadError::Transfer(e),
            ))
            &&& known && hid == Err::<(), HidError>(HidError::NoInterface) ==> refusal(info, hid)
                == Some(GamepadError::NotSupported)
            &&& known && hid == Err::<(), HidError>(HidError::NoPipe) ==> refusal(info, hid) == Some(
                GamepadError::NoPipe,
            )
        }),
{
}

/// The lamps show the numbers 1 to 5 as they are and nothing for every other.
pub proof fn lemma_shown_players(index: u8)
    ensures
        shown_player(index) == index || shown_player(index) == 0 && index > 5,
        index > 5 ==> shown_player(index) == 0,
{
}

/// The text of a touch is a hash sign and its number, then X and Y in round brackets with a
/// comma between them; nothing can be read from it but these.
pub proof fn lemma_touch_text(t: TouchPoint, id: nat, x: nat, y: nat)
    ensures
        t.text() == "#"@ + (text::decimal(id) + seq!['('] + (text::decimal(x) + seq![',']
            + (text::decimal(y) + seq![')'] + Seq::empty()))) <==> t.id == id && t.x == x && t.y == y,
{
    reveal_strlit("(");
    reveal_strlit(",");
    reveal_strlit(")");
    assert("("@ =~= seq!['(']);
    assert(","@ =~= seq![',']);
    assert(")"@ =~= seq![')']);
    let (a, b, c) = (
        text::decimal(t.id as nat),
        text::decimal(t.x as nat),
        text::decimal(t.y as nat),
    );
    let (d, e, f) = (text::decimal(id), text::decimal(x), text::decimal(y));
    let own = a + seq!['('] + (b + seq![','] + (c + seq![')'] + Seq::empty()));
    let given = d + seq!['('] + (e + seq![','] + (f + seq![')'] + Seq::empty()));
    let (open, comma, close) = (seq!['('], seq![','], seq![')']);
    assert("#"@ + a + open + b + comma + c + close =~= "#"@ + (a + open + (b + comma + (c + close
        + Seq::empty()))));
    text::lemma_decimal_digits(t.id as nat);
    text::lemma_decimal_digits(t.x as nat);
    text::lemma_decimal_digits(t.y as nat);
    text::lemma_decimal_digits(id);
    text::lemma_decimal_digits(x);
    text::lemma_decimal_digits(y);
    if t.text() == "#"@ + given {
        text::lemma_same_lengths("#"@, own, "#"@, given);
        text::lemma_split_at_first(
            a,
            b + seq![','] + (c + seq![')'] + Seq::empty()),
            d,
            e + seq![','] + (f + seq![')'] + Seq::empty()),
            '(',
        );
        text::lemma_split_at_first(
            b,
            c + seq![')'] + Seq::empty(),
            e,
            f + seq![')'] + Seq::empty(),
            ',',
        );
        text::lemma_split_at_first(c, Seq::empty(), f, Seq::empty(), ')');
        text::lemma_decimal_is_faithful(t.id as nat, id);
        text::lemma_decimal_is_faithful(t.x as nat, x);
        text::lemma_decimal_is_faithful(t.y as nat, y);
    }
}

/// Of two touches those are shown that are active, the first before the second, with a space
/// between them where both are.
pub proof fn lemma_active_touches_are_shown(t: TouchPoint, u: TouchPoint)
    ensures
        ({
            let shown = touches_text(seq![t, u]);
            &&& t.active && u.active ==> shown == t.text() + seq![' '] + u.text()
            &&& t.active && !u.active ==> shown == t.text()
            &&& !t.active && u.active ==> shown == u.text()
            &&& !t.active && !u.active ==> shown.len() == 0
        }),
{
    let v = seq![(t.active, t.text())];
    let w = seq![(u.active, u.text())];
    assert(seq![(t.active, t.text()), (u.active, u.text())] =~= v + w);
    text::lemma_choosing_goes_in_order(v, w);
    text::lemma_choosing_goes_in_order(w, Seq::empty());
    text::lemma_spacing_goes_in_order(text::chosen(v), text::chosen(w));
    text::lemma_spacing_goes_in_order(text::chosen(w), Seq::empty());
    if !t.active {
        assert(text::chosen(v) + text::chosen(w) =~= text::chosen(w));
    }
    if !u.active {
        assert(text::chosen(v) + text::chosen(w) =~= text::chosen(v));
    }
}

/// What stands where in the text of the data: behind the touches the words for the touch pad
/// and the microphone, each exactly when it is pressed, then gyroscope, accelerometer,
/// battery and charging state, each behind its own label.
pub proof fn lemma_text_of_the_data(v: Ds5ExtraView)
    ensures
        ({
            let battery = " bat="@ + (text::decimal(v.battery_percent as nat) + ("% "@
                + v.charge_state.text()));
            let sensors = " gyro="@ + (triple_text(v.gyro) + (" accel="@ + (triple_text(v.accel)
                + battery)));
            let words = if v.touchpad_press && v.mic_mute {
                " Pad"@ + (" Mic"@ + sensors)
            } else if v.touchpad_press {
                " Pad"@ + sensors
            } else if v.mic_mute {
                " Mic"@ + sensors
            } else {
                sensors
            };
            v.text() == "touch=["@ + (touches_text(v.touch) + ("]"@ + words))
        }),
{
    let (t, g, a) = (touches_text(v.touch), triple_text(v.gyro), triple_text(v.accel));
    let (b, c) = (text::decimal(v.battery_percent as nat), v.charge_state.text());
    let (k0, k1, k2, k3, k4, k5) = ("touch=["@, "]"@, " gyro="@, " accel="@, " bat="@, "% "@);
    let pad = if v.touchpad_press {
        " Pad"@
    } else {
        Seq::empty()
    };
    let mic = if v.mic_mute {
        " Mic"@
    } else {
        Seq::empty()
    };
    text::lemma_regroup(k0 + t + k1 + pad + mic + k2 + g + k3 + a + k4 + b, k5, c);
    text::lemma_regroup(k0 + t + k1 + pad + mic + k2 + g + k3 + a + k4, b, k5 + c);
    text::lemma_regroup(k0 + t + k1 + pad + mic + k2 + g + k3 + a, k4, b + (k5 + c));
    let battery = k4 + (b + (k5 + c));
    text::lemma_regroup(k0 + t + k1 + pad + mic + k2 + g + k3, a, battery);
    text::lemma_regroup(k0 + t + k1 + pad + mic + k2 + g, k3, a + battery);
    text::lemma_regroup(k0 + t + k1 + pad + mic + k2, g, k3 + (a + battery));
    text::lemma_regroup(k0 + t + k1 + pad + mic, k2, g + (k3 + (a + battery)));
    let sensors = k2 + (g + (k3 + (a + battery)));
    text::lemma_regroup(k0 + t + k1 + pad, mic, sensors);
    text::lemma_regroup(k0 + t + k1, pad, mic + sensors);
    text::lemma_regroup(k0 + t, k1, pad + (mic + sensors));
    text::lemma_regroup(k0, t, k1 + (pad + (mic + sensors)));
    if !v.mic_mute {
        assert(mic + sensors =~= sensors);
    }
    if !v.touchpad_press {
        assert(pad + (mic + sensors) =~= mic + sensors);
    }
}

/// The names of the charging states tell them apart, and that of an unknown one tells its
/// number.
pub proof fn lemma_charge_names_are_faithful(c: ChargeState, d: ChargeState)
    ensures
        c.text() == d.text() <==> c == d,
{
    reveal_strlit("Discharging");
    reveal_strlit("Charging");
    reveal_strlit("Full");
    reveal_strlit("TemperatureError");
    reveal_strlit("ChargingError");
    reveal_strlit("Unknown(");
    reveal_strlit(")");
    assert(c.text()[0] == (match c {
        ChargeState::Discharging => 'D',
        ChargeState::Charging => 'C',
        ChargeState::Full => 'F',
        ChargeState::TemperatureError => 'T',
        ChargeState::ChargingError => 'C',
        ChargeState::Unknown(_) => 'U',
    }));
    assert(d.text()[0] == (match d {
        ChargeState::Discharging => 'D',
        ChargeState::Charging => 'C',
        ChargeState::Full => 'F',
        ChargeState::TemperatureError => 'T',
        ChargeState::ChargingError => 'C',
        ChargeState::Unknown(_) => 'U',
    }));
    assert("Charging"@.len() == 8 && "ChargingError"@.len() == 13);
    if c.text() == d.text() {
        if let (ChargeState::Unknown(m), ChargeState::Unknown(n)) = (c, d) {
            let (a, b) = (text::decimal(m as nat), text::decimal(n as nat));
            let k = "Unknown("@;
            text::lemma_regroup(k, a, ")"@);
            text::lemma_regroup(k, b, ")"@);
            text::lemma_same_lengths(k, a + ")"@, k, b + ")"@);
            assert((a + ")"@).len() == a.len() + 1);
            assert((b + ")"@).len() == b.len() + 1);
            text::lemma_same_lengths(a, ")"@, b, ")"@);
            text::lemma_decimal_is_faithful(m as nat, n as nat);
        }
    }
}

/// Three numbers in round brackets stand in order, with a comma and a space between them.
pub proof fn lemma_triple_text(v: Seq<int>, x: int, y: int, z: int)
    ensures
        triple_text(v) == "("@ + (text::signed_decimal(x) + seq![','] + (" "@ + (text::signed_decimal(
            y,
        ) + seq![','] + (" "@ + (text::signed_decimal(z) + seq![')'] + Seq::empty()))))) <==> v[0]
            == x && v[1] == y && v[2] == z,
{
    reveal_strlit(", ");
    reveal_strlit(" ");
    reveal_strlit(")");
    assert(", "@ =~= seq![','] + " "@);
    assert(")"@ =~= seq![')']);
    let (a, b, c) = (
        text::signed_decimal(v[0]),
        text::signed_decimal(v[1]),
        text::signed_decimal(v[2]),
    );
    let (d, e, f) = (text::signed_decimal(x), text::signed_decimal(y), text::signed_decimal(z));
    let (open, comma, space, close) = ("("@, seq![','], " "@, seq![')']);
    let own1 = c + close + Seq::empty();
    let own2 = b + comma + (space + own1);
    let own3 = a + comma + (space + own2);
    assert(open + a + (comma + space) + b + (comma + space) + c + close =~= open + own3);
    let given1 = f + close + Seq::empty();
    let given2 = e + comma + (space + given1);
    let given3 = d + comma + (space + given2);
    if triple_text(v) == open + given3 {
        text::lemma_signed_chars(v[0]);
        text::lemma_signed_chars(v[1]);
        text::lemma_signed_chars(v[2]);
        text::lemma_signed_chars(x);
        text::lemma_signed_chars(y);
        text::lemma_signed_chars(z);
        text::lemma_same_lengths(open, own3, open, given3);
        text::lemma_split_at_first(a, space + own2, d, space + given2, ',');
        text::lemma_same_lengths(space, own2, space, given2);
        text::lemma_split_at_first(b, space + own1, e, space + given1, ',');
        text::lemma_same_lengths(space, own1, space, given1);
        text::lemma_split_at_first(c, Seq::empty(), f, Seq::empty(), ')');
        text::lemma_signed_is_faithful(v[0], x);
        text::lemma_signed_is_faithful(v[1], y);
        text::lemma_signed_is_faithful(v[2], z);
    }
}

/// Before anything was read nothing is known: no finger, no motion, no charge.
pub proof fn lemma_nothing_is_known_at_first()
    ensures
        ({
            let e = no_extra();
            &&& !e.touchpad_press && !e.mic_mute && e.touch.len() == 2
            &&& forall|i: int|
                0 <= i < 2 ==> !(#[trigger] e.touch[i]).active && e.touch[i].id == 0 && e.touch[i].x == 0
                    && e.touch[i].y == 0
            &&& e.gyro == seq![0int, 0, 0] && e.accel == seq![0int, 0, 0]
            &&& e.sensor_timestamp == 0 && e.battery_percent == 0 && e.charge_state is Discharging
        }),
{
}

} // verus!
