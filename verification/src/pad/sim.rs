//! Simulated HID input reports for exercising the controller path without hardware:
//! build Xbox, DualSense, Switch or Steam Controller report bytes, parse them into a
//! `PadFrame`, and encode the `CLPD` bytes the host receives.
use vstd::prelude::*;
use crate::pad::parse::{parse_input_report, ps_face_bits, ps_upper_bits, spec_parse_input_report, INPUT_BT, INPUT_USB};
use crate::pad::parse_steam::{parse_steam_input_report, spec_parse_steam_input_report, STEAM_REPORT_ID};
use crate::pad::parse_switch::{
    parse_switch_input_report, spec_parse_switch_input_report, switch_left_bits, switch_right_bits,
    switch_shared_bits, SWITCH_REPORT_ID,
};
use crate::pad::parse_steam::{steam_face_bits, steam_menu_bits, steam_other_bits};
use crate::pad::parse_xbox::{parse_xbox_input_report, spec_parse_xbox_input_report, XBOX_REPORT_ID};
use crate::proto::buttons::{
    CIRCLE, CREATE, CROSS, DPAD_DOWN, DPAD_LEFT, DPAD_RIGHT, DPAD_UP, L1, L2, L3, MUTE, OPTIONS, PS,
    R1, R2, R3, SQUARE, TOUCH, TRIANGLE,
};
use crate::proto::pad_frame::{input_frame, spec_pad_decode, spec_pad_encode, PadCodecError, PadFrame};

verus! {

/// Which face / shoulder / system button to press in a simulated report. The names
/// are positions on the DualSense diamond (Xbox A is `Cross`, and so on).
#[derive(Debug, Clone, Copy, PartialEq, Eq, Structural)]
pub enum SimButton {
    Cross,
    Circle,
    Square,
    Triangle,
    L1,
    R1,
    L2,
    R2,
    Create,
    Options,
    L3,
    R3,
    Ps,
    Touch,
    Mute,
    DpadUp,
    DpadDown,
    DpadLeft,
    DpadRight,
}

/// The wire button bit of a simulated button.
pub open spec fn spec_pad_bit(b: SimButton) -> u32 {
    match b {
        SimButton::Cross => CROSS,
        SimButton::Circle => CIRCLE,
        SimButton::Square => SQUARE,
        SimButton::Triangle => TRIANGLE,
        SimButton::L1 => L1,
        SimButton::R1 => R1,
        SimButton::L2 => L2,
        SimButton::R2 => R2,
        SimButton::Create => CREATE,
        SimButton::Options => OPTIONS,
        SimButton::L3 => L3,
        SimButton::R3 => R3,
        SimButton::Ps => PS,
        SimButton::Touch => TOUCH,
        SimButton::Mute => MUTE,
        SimButton::DpadUp => DPAD_UP,
        SimButton::DpadDown => DPAD_DOWN,
        SimButton::DpadLeft => DPAD_LEFT,
        SimButton::DpadRight => DPAD_RIGHT,
    }
}

impl SimButton {
    pub fn pad_bit(self) -> (r: u32)
        ensures
            r == spec_pad_bit(self),
    {
        match self {
            SimButton::Cross => CROSS,
            SimButton::Circle => CIRCLE,
            SimButton::Square => SQUARE,
            SimButton::Triangle => TRIANGLE,
            SimButton::L1 => L1,
            SimButton::R1 => R1,
            SimButton::L2 => L2,
            SimButton::R2 => R2,
            SimButton::Create => CREATE,
            SimButton::Options => OPTIONS,
            SimButton::L3 => L3,
            SimButton::R3 => R3,
            SimButton::Ps => PS,
            SimButton::Touch => TOUCH,
            SimButton::Mute => MUTE,
            SimButton::DpadUp => DPAD_UP,
            SimButton::DpadDown => DPAD_DOWN,
            SimButton::DpadLeft => DPAD_LEFT,
            SimButton::DpadRight => DPAD_RIGHT,
        }
    }
}

/// Buttons exercised on every native path.
pub const SHARED_BUTTONS: [SimButton; 17] = [
    SimButton::Cross,
    SimButton::Circle,
    SimButton::Square,
    SimButton::Triangle,
    SimButton::L1,
    SimButton::R1,
    SimButton::L2,
    SimButton::R2,
    SimButton::Create,
    SimButton::Options,
    SimButton::L3,
    SimButton::R3,
    SimButton::Ps,
    SimButton::DpadUp,
    SimButton::DpadDown,
    SimButton::DpadLeft,
    SimButton::DpadRight,
];

/// DualSense-only extras (no equivalent in the other report layouts).
pub const DUALSENSE_ONLY_BUTTONS: [SimButton; 2] = [SimButton::Touch, SimButton::Mute];

/// `n` zero bytes.
pub open spec fn zeros(n: nat) -> Seq<u8> {
    Seq::new(n, |_i: int| 0u8)
}

fn zero_report(n: usize) -> (r: Vec<u8>)
    ensures
        r@ == zeros(n as nat),
{
    let mut v: Vec<u8> = Vec::with_capacity(n);
    let mut i: usize = 0;
    while i < n
        invariant
            i <= n,
            v@ == zeros(i as nat),
        decreases n - i,
    {
        v.push(0);
        i += 1;
        assert(v@ =~= zeros(i as nat));
    }
    v
}

// ---- Xbox -------------------------------------------------------------------

/// Neutral unified (17-byte) Xbox state report: sticks centred at `0x8000`,
/// triggers released, hat released (0), no buttons.
pub open spec fn spec_xbox_neutral() -> Seq<u8> {
    zeros(17).update(0, XBOX_REPORT_ID).update(2, 0x80).update(4, 0x80).update(6, 0x80).update(8, 0x80)
}

/// The Xbox report with one button pressed; a trigger is pulled fully (1023) so its
/// digital bit latches, and Touch / Mute leave the report neutral.
pub open spec fn spec_xbox_press(b: SimButton) -> Seq<u8> {
    let n = spec_xbox_neutral();
    match b {
        SimButton::Cross => n.update(14, 0x01),
        SimButton::Circle => n.update(14, 0x02),
        SimButton::Square => n.update(14, 0x04),
        SimButton::Triangle => n.update(14, 0x08),
        SimButton::L1 => n.update(14, 0x10),
        SimButton::R1 => n.update(14, 0x20),
        SimButton::Create => n.update(14, 0x40),
        SimButton::Options => n.update(14, 0x80),
        SimButton::Ps => n.update(15, 0x10),
        SimButton::L3 => n.update(15, 0x20),
        SimButton::R3 => n.update(15, 0x40),
        SimButton::L2 => n.update(9, 0xFF).update(10, 0x03),
        SimButton::R2 => n.update(11, 0xFF).update(12, 0x03),
        SimButton::DpadUp => n.update(13, 1),
        SimButton::DpadRight => n.update(13, 3),
        SimButton::DpadDown => n.update(13, 5),
        SimButton::DpadLeft => n.update(13, 7),
        SimButton::Touch | SimButton::Mute => n,
    }
}

/// A full-range `i16` stick value as the `u16` centred on `0x8000` the report carries.
pub open spec fn xbox_stick_u16(v: i16) -> int {
    v + 32768
}

pub open spec fn spec_xbox_with_sticks(lx: i16, ly: i16, rx: i16, ry: i16) -> Seq<u8> {
    spec_xbox_neutral().update(1, (xbox_stick_u16(lx) % 256) as u8).update(
        2,
        (xbox_stick_u16(lx) / 256) as u8,
    ).update(3, (xbox_stick_u16(ly) % 256) as u8).update(4, (xbox_stick_u16(ly) / 256) as u8).update(
        5,
        (xbox_stick_u16(rx) % 256) as u8,
    ).update(6, (xbox_stick_u16(rx) / 256) as u8).update(7, (xbox_stick_u16(ry) % 256) as u8).update(
        8,
        (xbox_stick_u16(ry) / 256) as u8,
    )
}

/// Neutral Xbox HID report.
pub fn xbox_neutral_report() -> (r: Vec<u8>)
    ensures
        r@ == spec_xbox_neutral(),
{
    let mut raw = zero_report(17);
    raw[0] = XBOX_REPORT_ID;
    raw[2] = 0x80;
    raw[4] = 0x80;
    raw[6] = 0x80;
    raw[8] = 0x80;
    raw
}

/// Press one Xbox button (or set the hat) on a neutral report.
pub fn xbox_press(btn: SimButton) -> (r: Vec<u8>)
    ensures
        r@ == spec_xbox_press(btn),
{
    let mut raw = xbox_neutral_report();
    match btn {
        SimButton::Cross => raw[14] = 0x01,
        SimButton::Circle => raw[14] = 0x02,
        SimButton::Square => raw[14] = 0x04,
        SimButton::Triangle => raw[14] = 0x08,
        SimButton::L1 => raw[14] = 0x10,
        SimButton::R1 => raw[14] = 0x20,
        SimButton::Create => raw[14] = 0x40,
        SimButton::Options => raw[14] = 0x80,
        SimButton::Ps => raw[15] = 0x10,
        SimButton::L3 => raw[15] = 0x20,
        SimButton::R3 => raw[15] = 0x40,
        SimButton::L2 => {
            raw[9] = 0xFF;
            raw[10] = 0x03;
        },
        SimButton::R2 => {
            raw[11] = 0xFF;
            raw[12] = 0x03;
        },
        SimButton::DpadUp => raw[13] = 1,
        SimButton::DpadRight => raw[13] = 3,
        SimButton::DpadDown => raw[13] = 5,
        SimButton::DpadLeft => raw[13] = 7,
        SimButton::Touch | SimButton::Mute => {},
    }
    raw
}

fn stick_bytes(v: i16) -> (r: (u8, u8))
    ensures
        r.0 == (xbox_stick_u16(v) % 256) as u8,
        r.1 == (xbox_stick_u16(v) / 256) as u8,
{
    let u: u32 = (v as i32 + 32768) as u32;
    ((u % 256) as u8, (u / 256) as u8)
}

/// An Xbox report with the four sticks set from full-range `i16` values.
pub fn xbox_with_sticks(lx: i16, ly: i16, rx: i16, ry: i16) -> (r: Vec<u8>)
    ensures
        r@ == spec_xbox_with_sticks(lx, ly, rx, ry),
{
    let mut raw = xbox_neutral_report();
    let (a, b) = stick_bytes(lx);
    raw[1] = a;
    raw[2] = b;
    let (a, b) = stick_bytes(ly);
    raw[3] = a;
    raw[4] = b;
    let (a, b) = stick_bytes(rx);
    raw[5] = a;
    raw[6] = b;
    let (a, b) = stick_bytes(ry);
    raw[7] = a;
    raw[8] = b;
    raw
}

/// Client side: Xbox HID bytes to a normalised frame.
pub fn simulate_xbox_frame(raw: &[u8]) -> (r: Option<PadFrame>)
    ensures
        r == spec_parse_xbox_input_report(raw@),
{
    parse_xbox_input_report(raw)
}

// ---- DualSense --------------------------------------------------------------

/// Neutral DualSense USB input report: sticks centred, d-pad released (nibble 8).
pub open spec fn spec_dualsense_usb_neutral() -> Seq<u8> {
    zeros(64).update(0, INPUT_USB).update(1, 128).update(2, 128).update(3, 128).update(4, 128).update(8, 0x08)
}

/// Neutral DualSense Bluetooth report: `0x31`, the `0x01` tag, then the USB-shaped body.
pub open spec fn spec_dualsense_bt_neutral() -> Seq<u8> {
    zeros(78).update(0, INPUT_BT).update(1, 0x01).update(2, 128).update(3, 128).update(4, 128).update(
        5,
        128,
    ).update(9, 0x08)
}

/// The DualSense USB report with one button pressed; L2/R2 also pull the analog
/// trigger fully, and the d-pad entries set the hat nibble.
pub open spec fn spec_dualsense_usb_press(b: SimButton) -> Seq<u8> {
    let n = spec_dualsense_usb_neutral();
    match b {
        SimButton::Square => n.update(8, 0x18),
        SimButton::Cross => n.update(8, 0x28),
        SimButton::Circle => n.update(8, 0x48),
        SimButton::Triangle => n.update(8, 0x88),
        SimButton::L1 => n.update(9, 0x01),
        SimButton::R1 => n.update(9, 0x02),
        SimButton::L2 => n.update(9, 0x04).update(5, 255),
        SimButton::R2 => n.update(9, 0x08).update(6, 255),
        SimButton::Create => n.update(9, 0x10),
        SimButton::Options => n.update(9, 0x20),
        SimButton::L3 => n.update(9, 0x40),
        SimButton::R3 => n.update(9, 0x80),
        SimButton::Ps => n.update(10, 0x01),
        SimButton::Touch => n.update(10, 0x02),
        SimButton::Mute => n.update(10, 0x04),
        SimButton::DpadUp => n.update(8, 0x00),
        SimButton::DpadDown => n.update(8, 0x04),
        SimButton::DpadLeft => n.update(8, 0x06),
        SimButton::DpadRight => n.update(8, 0x02),
    }
}

/// Neutral DualSense USB input report.
pub fn dualsense_usb_neutral_report() -> (r: Vec<u8>)
    ensures
        r@ == spec_dualsense_usb_neutral(),
{
    let mut raw = zero_report(64);
    raw[0] = INPUT_USB;
    raw[1] = 128;
    raw[2] = 128;
    raw[3] = 128;
    raw[4] = 128;
    raw[8] = 0x08;
    raw
}

/// Neutral DualSense Bluetooth input report.
pub fn dualsense_bt_neutral_report() -> (r: Vec<u8>)
    ensures
        r@ == spec_dualsense_bt_neutral(),
{
    let mut raw = zero_report(78);
    raw[0] = INPUT_BT;
    raw[1] = 0x01;
    raw[2] = 128;
    raw[3] = 128;
    raw[4] = 128;
    raw[5] = 128;
    raw[9] = 0x08;
    raw
}

/// Press one DualSense USB button, d-pad direction or digital trigger.
pub fn dualsense_usb_press(btn: SimButton) -> (r: Vec<u8>)
    ensures
        r@ == spec_dualsense_usb_press(btn),
{
    let mut raw = dualsense_usb_neutral_report();
    match btn {
        SimButton::Square => raw[8] = 0x18,
        SimButton::Cross => raw[8] = 0x28,
        SimButton::Circle => raw[8] = 0x48,
        SimButton::Triangle => raw[8] = 0x88,
        SimButton::L1 => raw[9] = 0x01,
        SimButton::R1 => raw[9] = 0x02,
        SimButton::L2 => {
            raw[9] = 0x04;
            raw[5] = 255;
        },
        SimButton::R2 => {
            raw[9] = 0x08;
            raw[6] = 255;
        },
        SimButton::Create => raw[9] = 0x10,
        SimButton::Options => raw[9] = 0x20,
        SimButton::L3 => raw[9] = 0x40,
        SimButton::R3 => raw[9] = 0x80,
        SimButton::Ps => raw[10] = 0x01,
        SimButton::Touch => raw[10] = 0x02,
        SimButton::Mute => raw[10] = 0x04,
        SimButton::DpadUp => raw[8] = 0x00,
        SimButton::DpadDown => raw[8] = 0x04,
        SimButton::DpadLeft => raw[8] = 0x06,
        SimButton::DpadRight => raw[8] = 0x02,
    }
    raw
}

/// A DualSense USB report with the four sticks set.
pub fn dualsense_usb_with_sticks(lx: u8, ly: u8, rx: u8, ry: u8) -> (r: Vec<u8>)
    ensures
        r@ == spec_dualsense_usb_neutral().update(1, lx).update(2, ly).update(3, rx).update(4, ry),
{
    let mut raw = dualsense_usb_neutral_report();
    raw[1] = lx;
    raw[2] = ly;
    raw[3] = rx;
    raw[4] = ry;
    raw
}

/// Client side: DualSense HID bytes to a normalised frame.
pub fn simulate_dualsense_frame(raw: &[u8]) -> (r: Option<PadFrame>)
    ensures
        r == spec_parse_input_report(raw@),
{
    parse_input_report(raw)
}

// ---- Switch -----------------------------------------------------------------

/// Neutral Switch full-mode report (`0x30`) with both sticks packed at `0x800`.
pub open spec fn spec_switch_neutral() -> Seq<u8> {
    zeros(49).update(0, SWITCH_REPORT_ID).update(7, 0x08).update(8, 0x80).update(10, 0x08).update(11, 0x80)
}

/// The Switch report with one button pressed (Touch / Mute have no Switch button).
pub open spec fn spec_switch_press(b: SimButton) -> Seq<u8> {
    let n = spec_switch_neutral();
    match b {
        SimButton::Cross => n.update(3, 0x08),
        SimButton::Circle => n.update(3, 0x04),
        SimButton::Square => n.update(3, 0x02),
        SimButton::Triangle => n.update(3, 0x01),
        SimButton::R1 => n.update(3, 0x40),
        SimButton::R2 => n.update(3, 0x80),
        SimButton::L1 => n.update(5, 0x40),
        SimButton::L2 => n.update(5, 0x80),
        SimButton::Create => n.update(4, 0x01),
        SimButton::Options => n.update(4, 0x02),
        SimButton::R3 => n.update(4, 0x04),
        SimButton::L3 => n.update(4, 0x08),
        SimButton::Ps => n.update(4, 0x10),
        SimButton::DpadUp => n.update(5, 0x02),
        SimButton::DpadDown => n.update(5, 0x01),
        SimButton::DpadLeft => n.update(5, 0x08),
        SimButton::DpadRight => n.update(5, 0x04),
        SimButton::Touch | SimButton::Mute => n,
    }
}

/// Neutral Switch standard report.
pub fn switch_neutral_report() -> (r: Vec<u8>)
    ensures
        r@ == spec_switch_neutral(),
{
    let mut raw = zero_report(49);
    raw[0] = SWITCH_REPORT_ID;
    raw[7] = 0x08;
    raw[8] = 0x80;
    raw[10] = 0x08;
    raw[11] = 0x80;
    raw
}

/// Press one Switch button on a neutral report.
pub fn switch_press(btn: SimButton) -> (r: Vec<u8>)
    ensures
        r@ == spec_switch_press(btn),
{
    let mut raw = switch_neutral_report();
    match btn {
        SimButton::Cross => raw[3] = 0x08,
        SimButton::Circle => raw[3] = 0x04,
        SimButton::Square => raw[3] = 0x02,
        SimButton::Triangle => raw[3] = 0x01,
        SimButton::R1 => raw[3] = 0x40,
        SimButton::R2 => raw[3] = 0x80,
        SimButton::L1 => raw[5] = 0x40,
        SimButton::L2 => raw[5] = 0x80,
        SimButton::Create => raw[4] = 0x01,
        SimButton::Options => raw[4] = 0x02,
        SimButton::R3 => raw[4] = 0x04,
        SimButton::L3 => raw[4] = 0x08,
        SimButton::Ps => raw[4] = 0x10,
        SimButton::DpadUp => raw[5] = 0x02,
        SimButton::DpadDown => raw[5] = 0x01,
        SimButton::DpadLeft => raw[5] = 0x08,
        SimButton::DpadRight => raw[5] = 0x04,
        SimButton::Touch | SimButton::Mute => {},
    }
    raw
}

/// Client side: Switch HID bytes to a normalised frame.
pub fn simulate_switch_frame(raw: &[u8]) -> (r: Option<PadFrame>)
    ensures
        r == spec_parse_switch_input_report(raw@),
{
    parse_switch_input_report(raw)
}

// ---- Steam Controller -------------------------------------------------------

/// Neutral Steam Controller report (`0x01`): pads centred, triggers up.
pub open spec fn spec_steam_neutral() -> Seq<u8> {
    zeros(64).update(0, STEAM_REPORT_ID)
}

/// The Steam Controller report with one button pressed; L2/R2 also pull the analog
/// trigger fully (Touch / Mute have no Steam Controller button).
pub open spec fn spec_steam_press(b: SimButton) -> Seq<u8> {
    let n = spec_steam_neutral();
    match b {
        SimButton::Cross => n.update(8, 0x80),
        SimButton::Circle => n.update(8, 0x20),
        SimButton::Square => n.update(8, 0x40),
        SimButton::Triangle => n.update(8, 0x10),
        SimButton::L1 => n.update(8, 0x08),
        SimButton::R1 => n.update(8, 0x04),
        SimButton::L2 => n.update(8, 0x02).update(11, 255),
        SimButton::R2 => n.update(8, 0x01).update(12, 255),
        SimButton::Create => n.update(9, 0x10),
        SimButton::Options => n.update(9, 0x40),
        SimButton::Ps => n.update(9, 0x20),
        SimButton::L3 => n.update(10, 0x40),
        SimButton::R3 => n.update(10, 0x04),
        SimButton::DpadUp => n.update(9, 0x01),
        SimButton::DpadDown => n.update(9, 0x08),
        SimButton::DpadLeft => n.update(9, 0x04),
        SimButton::DpadRight => n.update(9, 0x02),
        SimButton::Touch | SimButton::Mute => n,
    }
}

/// Neutral Steam Controller report.
pub fn steam_neutral_report() -> (r: Vec<u8>)
    ensures
        r@ == spec_steam_neutral(),
{
    let mut raw = zero_report(64);
    raw[0] = STEAM_REPORT_ID;
    raw
}

/// Press one Steam Controller button on a neutral report.
pub fn steam_press(btn: SimButton) -> (r: Vec<u8>)
    ensures
        r@ == spec_steam_press(btn),
{
    let mut raw = steam_neutral_report();
    match btn {
        SimButton::Cross => raw[8] = 0x80,
        SimButton::Circle => raw[8] = 0x20,
        SimButton::Square => raw[8] = 0x40,
        SimButton::Triangle => raw[8] = 0x10,
        SimButton::L1 => raw[8] = 0x08,
        SimButton::R1 => raw[8] = 0x04,
        SimButton::L2 => {
            raw[8] = 0x02;
            raw[11] = 255;
        },
        SimButton::R2 => {
            raw[8] = 0x01;
            raw[12] = 255;
        },
        SimButton::Create => raw[9] = 0x10,
        SimButton::Options => raw[9] = 0x40,
        SimButton::Ps => raw[9] = 0x20,
        SimButton::L3 => raw[10] = 0x40,
        SimButton::R3 => raw[10] = 0x04,
        SimButton::DpadUp => raw[9] = 0x01,
        SimButton::DpadDown => raw[9] = 0x08,
        SimButton::DpadLeft => raw[9] = 0x04,
        SimButton::DpadRight => raw[9] = 0x02,
        SimButton::Touch | SimButton::Mute => {},
    }
    raw
}

/// Client side: Steam Controller HID bytes to a normalised frame.
pub fn simulate_steam_frame(raw: &[u8]) -> (r: Option<PadFrame>)
    ensures
        r == spec_parse_steam_input_report(raw@),
{
    parse_steam_input_report(raw)
}

// ---- Wire -------------------------------------------------------------------

/// Encode a frame the way the client sends it on the `pad` DataChannel.
pub fn encode_clpd(frame: &PadFrame) -> (r: Vec<u8>)
    ensures
        r@ == spec_pad_encode(*frame),
{
    let mut out: Vec<u8> = Vec::new();
    frame.encode(&mut out);
    assert(out@ =~= spec_pad_encode(*frame));
    out
}

/// Host side: `CLPD` bytes to a frame (what the host decodes before injecting).
pub fn decode_clpd(data: &[u8]) -> (r: Result<PadFrame, PadCodecError>)
    ensures
        r == spec_pad_decode(data@),
{
    PadFrame::decode(data)
}

/// The buttons a simulated press of `b` should read as on a pad without a touchpad
/// or mute button: that button's bit, nothing for Touch and Mute.
pub open spec fn pressed_bits(b: SimButton) -> u32 {
    if b == SimButton::Touch || b == SimButton::Mute {
        0
    } else {
        spec_pad_bit(b)
    }
}

proof fn lemma_switch_byte_bits()
    by (bit_vector)
    ensures
        switch_right_bits(0u8) == 0,
        switch_right_bits(0x08u8) == CROSS,
        switch_right_bits(0x04u8) == CIRCLE,
        switch_right_bits(0x02u8) == SQUARE,
        switch_right_bits(0x01u8) == TRIANGLE,
        switch_right_bits(0x40u8) == R1,
        switch_right_bits(0x80u8) == R2,
        switch_shared_bits(0u8) == 0,
        switch_shared_bits(0x01u8) == CREATE,
        switch_shared_bits(0x02u8) == OPTIONS,
        switch_shared_bits(0x04u8) == R3,
        switch_shared_bits(0x08u8) == L3,
        switch_shared_bits(0x10u8) == PS,
        switch_left_bits(0u8) == 0,
        switch_left_bits(0x40u8) == L1,
        switch_left_bits(0x80u8) == L2,
        switch_left_bits(0x02u8) == DPAD_UP,
        switch_left_bits(0x01u8) == DPAD_DOWN,
        switch_left_bits(0x08u8) == DPAD_LEFT,
        switch_left_bits(0x04u8) == DPAD_RIGHT,
{
}

/// Every simulated Switch press parses to a frame holding just that button (none for
/// Touch and Mute, which a Switch pad lacks), with centred sticks and no triggers.
pub proof fn lemma_switch_press_parses(b: SimButton)
    ensures
        spec_parse_switch_input_report(spec_switch_press(b)) == Some(input_frame(pressed_bits(b), 128, 128, 128, 128, 0, 0)),
{
    lemma_switch_byte_bits();
    let r = spec_switch_press(b);
    assert(r.len() == 49);
    assert(r[0] == SWITCH_REPORT_ID && r[6] == 0 && r[7] == 0x08 && r[8] == 0x80 && r[9] == 0 && r[10] == 0x08
        && r[11] == 0x80);
}

proof fn lemma_steam_byte_bits()
    by (bit_vector)
    ensures
        steam_face_bits(0u8) + steam_menu_bits(0u8) + steam_other_bits(0u8, 0u8, 0u8, 0u8, 0u8) == 0,
        steam_face_bits(0x80u8) + steam_menu_bits(0u8) + steam_other_bits(0x80u8, 0u8, 0u8, 0u8, 0u8) == CROSS,
        steam_face_bits(0x20u8) + steam_menu_bits(0u8) + steam_other_bits(0x20u8, 0u8, 0u8, 0u8, 0u8) == CIRCLE,
        steam_face_bits(0x40u8) + steam_menu_bits(0u8) + steam_other_bits(0x40u8, 0u8, 0u8, 0u8, 0u8) == SQUARE,
        steam_face_bits(0x10u8) + steam_menu_bits(0u8) + steam_other_bits(0x10u8, 0u8, 0u8, 0u8, 0u8) == TRIANGLE,
        steam_face_bits(0x08u8) + steam_menu_bits(0u8) + steam_other_bits(0x08u8, 0u8, 0u8, 0u8, 0u8) == L1,
        steam_face_bits(0x04u8) + steam_menu_bits(0u8) + steam_other_bits(0x04u8, 0u8, 0u8, 0u8, 0u8) == R1,
        steam_face_bits(0x02u8) + steam_menu_bits(0u8) + steam_other_bits(0x02u8, 0u8, 0u8, 255u8, 0u8) == L2,
        steam_face_bits(0x01u8) + steam_menu_bits(0u8) + steam_other_bits(0x01u8, 0u8, 0u8, 0u8, 255u8) == R2,
        steam_face_bits(0u8) + steam_menu_bits(0x10u8) + steam_other_bits(0u8, 0x10u8, 0u8, 0u8, 0u8) == CREATE,
        steam_face_bits(0u8) + steam_menu_bits(0x40u8) + steam_other_bits(0u8, 0x40u8, 0u8, 0u8, 0u8) == OPTIONS,
        steam_face_bits(0u8) + steam_menu_bits(0x20u8) + steam_other_bits(0u8, 0x20u8, 0u8, 0u8, 0u8) == PS,
        steam_face_bits(0u8) + steam_menu_bits(0u8) + steam_other_bits(0u8, 0u8, 0x40u8, 0u8, 0u8) == L3,
        steam_face_bits(0u8) + steam_menu_bits(0u8) + steam_other_bits(0u8, 0u8, 0x04u8, 0u8, 0u8) == R3,
        steam_face_bits(0u8) + steam_menu_bits(0x01u8) + steam_other_bits(0u8, 0x01u8, 0u8, 0u8, 0u8) == DPAD_UP,
        steam_face_bits(0u8) + steam_menu_bits(0x08u8) + steam_other_bits(0u8, 0x08u8, 0u8, 0u8, 0u8) == DPAD_DOWN,
        steam_face_bits(0u8) + steam_menu_bits(0x04u8) + steam_other_bits(0u8, 0x04u8, 0u8, 0u8, 0u8) == DPAD_LEFT,
        steam_face_bits(0u8) + steam_menu_bits(0x02u8) + steam_other_bits(0u8, 0x02u8, 0u8, 0u8, 0u8) == DPAD_RIGHT,
{
}

/// Every simulated Steam Controller press parses to a frame holding just that button
/// (none for Touch and Mute), with centred pads; an L2 or R2 press also pulls that
/// analog trigger fully.
pub proof fn lemma_steam_press_parses(b: SimButton)
    ensures
        spec_parse_steam_input_report(spec_steam_press(b)) == Some(
            input_frame(
                pressed_bits(b),
                128,
                128,
                128,
                128,
                if b == SimButton::L2 { 255 } else { 0 },
                if b == SimButton::R2 { 255 } else { 0 },
            ),
        ),
{
    lemma_steam_byte_bits();
    let r = spec_steam_press(b);
    assert(r.len() == 64);
    assert(r[0] == STEAM_REPORT_ID && r[16] == 0 && r[17] == 0 && r[18] == 0 && r[19] == 0 && r[20] == 0
        && r[21] == 0 && r[22] == 0 && r[23] == 0);
}

proof fn lemma_dualsense_byte_bits()
    by (bit_vector)
    ensures
        ps_face_bits(0x08u8) == 0 && (0x08u8 & 0x0Fu8) == 8,
        ps_face_bits(0x18u8) == SQUARE && (0x18u8 & 0x0Fu8) == 8,
        ps_face_bits(0x28u8) == CROSS && (0x28u8 & 0x0Fu8) == 8,
        ps_face_bits(0x48u8) == CIRCLE && (0x48u8 & 0x0Fu8) == 8,
        ps_face_bits(0x88u8) == TRIANGLE && (0x88u8 & 0x0Fu8) == 8,
        ps_face_bits(0x00u8) == 0 && (0x00u8 & 0x0Fu8) == 0,
        ps_face_bits(0x04u8) == 0 && (0x04u8 & 0x0Fu8) == 4,
        ps_face_bits(0x06u8) == 0 && (0x06u8 & 0x0Fu8) == 6,
        ps_face_bits(0x02u8) == 0 && (0x02u8 & 0x0Fu8) == 2,
        ps_upper_bits(0u8) == 0,
        ps_upper_bits(0x01u8) == L1,
        ps_upper_bits(0x02u8) == R1,
        ps_upper_bits(0x04u8) == L2,
        ps_upper_bits(0x08u8) == R2,
        ps_upper_bits(0x10u8) == CREATE,
        ps_upper_bits(0x20u8) == OPTIONS,
        ps_upper_bits(0x40u8) == L3,
        ps_upper_bits(0x80u8) == R3,
        (0u8 & 1u8) == 0 && (0u8 & 2u8) == 0 && (0u8 & 4u8) == 0,
        (1u8 & 1u8) != 0 && (1u8 & 2u8) == 0 && (1u8 & 4u8) == 0,
        (2u8 & 1u8) == 0 && (2u8 & 2u8) != 0 && (2u8 & 4u8) == 0,
        (4u8 & 1u8) == 0 && (4u8 & 2u8) == 0 && (4u8 & 4u8) != 0,
{
}

/// Every simulated DualSense USB press parses to a frame holding just that button,
/// with centred sticks; an L2 or R2 press also pulls that analog trigger fully.
pub proof fn lemma_dualsense_press_parses(b: SimButton)
    ensures
        spec_parse_input_report(spec_dualsense_usb_press(b)) == Some(
            input_frame(
                spec_pad_bit(b),
                128,
                128,
                128,
                128,
                if b == SimButton::L2 { 255 } else { 0 },
                if b == SimButton::R2 { 255 } else { 0 },
            ),
        ),
{
    lemma_dualsense_byte_bits();
    let r = spec_dualsense_usb_press(b);
    assert(r.len() == 64);
    assert(r[0] == INPUT_USB && r[1] == 128 && r[2] == 128 && r[3] == 128 && r[4] == 128);
}

} // verus!
