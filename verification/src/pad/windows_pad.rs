//! The pad states the Windows backends inject: an Xbox 360 (XInput) gamepad and a
//! DualShock 4 report, each computed from a wire `PadFrame`.
use vstd::prelude::*;
use crate::pad::map_frame::{dpad_nibble, spec_dpad_nibble, stick_u8_to_i16};
use crate::proto::buttons::{
    CIRCLE, CREATE, CROSS, DPAD_DOWN, DPAD_LEFT, DPAD_RIGHT, DPAD_UP, L1, L2, L3, OPTIONS, PS, R1,
    R2, R3, SQUARE, TOUCH, TRIANGLE,
};
use crate::proto::pad_frame::PadFrame;

verus! {

/// XInput button bits (`XINPUT_GAMEPAD_*`).
pub const XBUTTON_UP: u16 = 0x0001;
pub const XBUTTON_DOWN: u16 = 0x0002;
pub const XBUTTON_LEFT: u16 = 0x0004;
pub const XBUTTON_RIGHT: u16 = 0x0008;
pub const XBUTTON_START: u16 = 0x0010;
pub const XBUTTON_BACK: u16 = 0x0020;
pub const XBUTTON_LTHUMB: u16 = 0x0040;
pub const XBUTTON_RTHUMB: u16 = 0x0080;
pub const XBUTTON_LB: u16 = 0x0100;
pub const XBUTTON_RB: u16 = 0x0200;
pub const XBUTTON_GUIDE: u16 = 0x0400;
pub const XBUTTON_A: u16 = 0x1000;
pub const XBUTTON_B: u16 = 0x2000;
pub const XBUTTON_X: u16 = 0x4000;
pub const XBUTTON_Y: u16 = 0x8000;

/// `v` when button bit `bit` is set in `b`, else 0.
pub open spec fn bit16(b: u32, bit: u32, v: int) -> int {
    if b & bit != 0 { v } else { 0 }
}

/// An Xbox 360 gamepad state.
#[derive(Debug, Clone, Copy, PartialEq, Eq, Structural)]
pub struct XGamepad {
    pub buttons: u16,
    pub left_trigger: u8,
    pub right_trigger: u8,
    pub thumb_lx: i16,
    pub thumb_ly: i16,
    pub thumb_rx: i16,
    pub thumb_ry: i16,
}

/// XInput buttons of a wire button mask, by position (CROSS is A, and so on).
pub open spec fn xinput_face_bits(b: u32) -> int {
    bit16(b, CROSS, 0x1000) + bit16(b, CIRCLE, 0x2000) + bit16(b, SQUARE, 0x4000) + bit16(b, TRIANGLE, 0x8000)
        + bit16(b, L1, 0x0100) + bit16(b, R1, 0x0200) + bit16(b, CREATE, 0x0020) + bit16(b, OPTIONS, 0x0010)
}

pub open spec fn xinput_other_bits(b: u32) -> int {
    bit16(b, L3, 0x0040) + bit16(b, R3, 0x0080) + bit16(b, PS, 0x0400) + bit16(b, DPAD_UP, 0x0001) + bit16(
        b,
        DPAD_DOWN,
        0x0002,
    ) + bit16(b, DPAD_LEFT, 0x0004) + bit16(b, DPAD_RIGHT, 0x0008)
}

/// The Xbox 360 state of a frame: buttons by position, analog triggers as they are,
/// sticks recentred on 0 with Y flipped (XInput's up is positive).
pub open spec fn spec_xbox360_gamepad(f: PadFrame) -> XGamepad {
    XGamepad {
        buttons: (xinput_face_bits(f.buttons) + xinput_other_bits(f.buttons)) as u16,
        left_trigger: f.l2,
        right_trigger: f.r2,
        thumb_lx: ((f.lx - 128) * 256) as i16,
        thumb_ly: ((255 - f.ly - 128) * 256) as i16,
        thumb_rx: ((f.rx - 128) * 256) as i16,
        thumb_ry: ((255 - f.ry - 128) * 256) as i16,
    }
}

fn bit16_exec(b: u32, bit: u32, v: u16) -> (r: u16)
    ensures
        r == bit16(b, bit, v as int),
{
    if b & bit != 0 {
        v
    } else {
        0
    }
}

fn xinput_face(b: u32) -> (r: u16)
    ensures
        r == xinput_face_bits(b),
{
    let x = bit16_exec(b, CROSS, XBUTTON_A) + bit16_exec(b, CIRCLE, XBUTTON_B) + bit16_exec(b, SQUARE, XBUTTON_X)
        + bit16_exec(b, TRIANGLE, XBUTTON_Y);
    let y = bit16_exec(b, L1, XBUTTON_LB) + bit16_exec(b, R1, XBUTTON_RB) + bit16_exec(b, CREATE, XBUTTON_BACK)
        + bit16_exec(b, OPTIONS, XBUTTON_START);
    x + y
}

fn xinput_other(b: u32) -> (r: u16)
    ensures
        r == xinput_other_bits(b),
{
    let x = bit16_exec(b, L3, XBUTTON_LTHUMB) + bit16_exec(b, R3, XBUTTON_RTHUMB) + bit16_exec(b, PS, XBUTTON_GUIDE);
    let y = bit16_exec(b, DPAD_UP, XBUTTON_UP) + bit16_exec(b, DPAD_DOWN, XBUTTON_DOWN) + bit16_exec(
        b,
        DPAD_LEFT,
        XBUTTON_LEFT,
    ) + bit16_exec(b, DPAD_RIGHT, XBUTTON_RIGHT);
    x + y
}

/// The Xbox 360 gamepad state the ViGEm backend submits for a frame.
pub fn xbox360_gamepad(frame: &PadFrame) -> (r: XGamepad)
    ensures
        r == spec_xbox360_gamepad(*frame),
{
    XGamepad {
        buttons: xinput_face(frame.buttons) + xinput_other(frame.buttons),
        left_trigger: frame.l2,
        right_trigger: frame.r2,
        thumb_lx: stick_u8_to_i16(frame.lx),
        thumb_ly: stick_u8_to_i16(255 - frame.ly),
        thumb_rx: stick_u8_to_i16(frame.rx),
        thumb_ry: stick_u8_to_i16(255 - frame.ry),
    }
}

/// A DualShock 4 input report.
#[derive(Debug, Clone, Copy, PartialEq, Eq, Structural)]
pub struct Ds4Report {
    pub thumb_lx: u8,
    pub thumb_ly: u8,
    pub thumb_rx: u8,
    pub thumb_ry: u8,
    pub buttons: u16,
    pub special: u8,
    pub trigger_l: u8,
    pub trigger_r: u8,
}

/// DS4 button word: the hat in the low nibble, face buttons in bits 4..7, shoulders,
/// digital triggers, Share/Options and stick clicks in bits 8..15.
pub open spec fn ds4_button_bits(b: u32) -> int {
    spec_dpad_nibble(b) + bit16(b, SQUARE, 0x10) + bit16(b, CROSS, 0x20) + bit16(b, CIRCLE, 0x40) + bit16(
        b,
        TRIANGLE,
        0x80,
    ) + bit16(b, L1, 0x100) + bit16(b, R1, 0x200) + bit16(b, L2, 0x400) + bit16(b, R2, 0x800)
}

pub open spec fn ds4_upper_bits(b: u32) -> int {
    bit16(b, CREATE, 0x1000) + bit16(b, OPTIONS, 0x2000) + bit16(b, L3, 0x4000) + bit16(b, R3, 0x8000)
}

/// The DualShock 4 report of a frame: sticks and triggers as they are, the button
/// word, and PS / touchpad in the special byte.
pub open spec fn spec_ds4_report(f: PadFrame) -> Ds4Report {
    Ds4Report {
        thumb_lx: f.lx,
        thumb_ly: f.ly,
        thumb_rx: f.rx,
        thumb_ry: f.ry,
        buttons: (ds4_button_bits(f.buttons) + ds4_upper_bits(f.buttons)) as u16,
        special: (bit16(f.buttons, PS, 1) + bit16(f.buttons, TOUCH, 2)) as u8,
        trigger_l: f.l2,
        trigger_r: f.r2,
    }
}

/// The DS4 hat value of the d-pad bits (0 up, clockwise, 8 released).
pub fn ds4_dpad_hat(b: u32) -> (r: u16)
    ensures
        r == spec_dpad_nibble(b),
{
    dpad_nibble(b) as u16
}

fn ds4_lower(b: u32) -> (r: u16)
    ensures
        r == ds4_button_bits(b),
{
    let x = ds4_dpad_hat(b) + bit16_exec(b, SQUARE, 0x10) + bit16_exec(b, CROSS, 0x20) + bit16_exec(b, CIRCLE, 0x40)
        + bit16_exec(b, TRIANGLE, 0x80);
    let y = bit16_exec(b, L1, 0x100) + bit16_exec(b, R1, 0x200) + bit16_exec(b, L2, 0x400) + bit16_exec(b, R2, 0x800);
    x + y
}

/// The DualShock 4 report the ViGEm backend submits for a frame.
pub fn ds4_report(frame: &PadFrame) -> (r: Ds4Report)
    ensures
        r == spec_ds4_report(*frame),
{
    let b = frame.buttons;
    let upper = bit16_exec(b, CREATE, 0x1000) + bit16_exec(b, OPTIONS, 0x2000) + bit16_exec(b, L3, 0x4000)
        + bit16_exec(b, R3, 0x8000);
    let special = (bit16_exec(b, PS, 1) + bit16_exec(b, TOUCH, 2)) as u8;
    Ds4Report {
        thumb_lx: frame.lx,
        thumb_ly: frame.ly,
        thumb_rx: frame.rx,
        thumb_ry: frame.ry,
        buttons: ds4_lower(b) + upper,
        special,
        trigger_l: frame.l2,
        trigger_r: frame.r2,
    }
}

} // verus!
