//! Map a `PadFrame` onto the DualSense USB input report the virtual pad injects.
use vstd::prelude::*;
use crate::proto::buttons::{
    CIRCLE, CREATE, CROSS, DPAD_DOWN, DPAD_LEFT, DPAD_RIGHT, DPAD_UP, L1, L2, L3, MUTE, OPTIONS, PS,
    R1, R2, R3, SQUARE, TOUCH, TRIANGLE,
};
use crate::proto::pad_frame::PadFrame;
use crate::pad::parse::{ps_mask, spec_parse_input_report};
use crate::pad::sim::zeros;
use crate::proto::pad_frame::input_frame;

verus! {

/// `v` when button bit `bit` is set in `b`, else 0.
pub open spec fn bit8(b: u32, bit: u32, v: int) -> int {
    if b & bit != 0 { v } else { 0 }
}

/// The DualSense hat position of the d-pad bits of `b`: 0 up, clockwise to 7 up-left,
/// 8 released (also for impossible combinations such as up and down together).
pub open spec fn spec_dpad_nibble(b: u32) -> u8 {
    let u = b & DPAD_UP != 0;
    let d = b & DPAD_DOWN != 0;
    let l = b & DPAD_LEFT != 0;
    let r = b & DPAD_RIGHT != 0;
    if u && !d && !l && !r {
        0
    } else if u && !d && !l && r {
        1
    } else if !u && !d && !l && r {
        2
    } else if !u && d && !l && r {
        3
    } else if !u && d && !l && !r {
        4
    } else if !u && d && l && !r {
        5
    } else if !u && !d && l && !r {
        6
    } else if u && !d && l && !r {
        7
    } else {
        8
    }
}

/// First button byte: hat nibble plus the face buttons in the high nibble.
pub open spec fn face_byte(b: u32) -> int {
    spec_dpad_nibble(b) + bit8(b, SQUARE, 0x10) + bit8(b, CROSS, 0x20) + bit8(b, CIRCLE, 0x40) + bit8(
        b,
        TRIANGLE,
        0x80,
    )
}

/// Second button byte: shoulders, digital triggers, Create/Options, stick clicks.
pub open spec fn upper_byte(b: u32) -> int {
    bit8(b, L1, 0x01) + bit8(b, R1, 0x02) + bit8(b, L2, 0x04) + bit8(b, R2, 0x08) + bit8(b, CREATE, 0x10)
        + bit8(b, OPTIONS, 0x20) + bit8(b, L3, 0x40) + bit8(b, R3, 0x80)
}

/// Third button byte: PS, touchpad click, mute.
pub open spec fn extra_byte(b: u32) -> int {
    bit8(b, PS, 0x01) + bit8(b, TOUCH, 0x02) + bit8(b, MUTE, 0x04)
}

/// The 64-byte DualSense USB input report of a frame.
pub open spec fn spec_dualsense_usb_report(f: PadFrame) -> Seq<u8> {
    zeros(64).update(0, 0x01).update(1, f.lx).update(2, f.ly).update(3, f.rx).update(4, f.ry).update(
        5,
        f.l2,
    ).update(6, f.r2).update(8, face_byte(f.buttons) as u8).update(9, upper_byte(f.buttons) as u8).update(
        10,
        extra_byte(f.buttons) as u8,
    )
}

fn bit8_exec(b: u32, bit: u32, v: u8) -> (r: u8)
    ensures
        r == bit8(b, bit, v as int),
{
    if b & bit != 0 {
        v
    } else {
        0
    }
}

/// The hat nibble of the d-pad bits of `b` (see [`spec_dpad_nibble`]).
pub fn dpad_nibble(b: u32) -> (r: u8)
    ensures
        r == spec_dpad_nibble(b),
{
    let u = b & DPAD_UP != 0;
    let d = b & DPAD_DOWN != 0;
    let l = b & DPAD_LEFT != 0;
    let r = b & DPAD_RIGHT != 0;
    if u && !d && !l && !r {
        0
    } else if u && !d && !l && r {
        1
    } else if !u && !d && !l && r {
        2
    } else if !u && d && !l && r {
        3
    } else if !u && d && !l && !r {
        4
    } else if !u && d && l && !r {
        5
    } else if !u && !d && l && !r {
        6
    } else if u && !d && l && !r {
        7
    } else {
        8
    }
}

fn face_byte_exec(b: u32) -> (r: u8)
    ensures
        r == face_byte(b),
{
    dpad_nibble(b) + bit8_exec(b, SQUARE, 0x10) + bit8_exec(b, CROSS, 0x20) + bit8_exec(b, CIRCLE, 0x40)
        + bit8_exec(b, TRIANGLE, 0x80)
}

fn upper_byte_exec(b: u32) -> (r: u8)
    ensures
        r == upper_byte(b),
{
    let x = bit8_exec(b, L1, 0x01) + bit8_exec(b, R1, 0x02) + bit8_exec(b, L2, 0x04) + bit8_exec(b, R2, 0x08);
    let y = bit8_exec(b, CREATE, 0x10) + bit8_exec(b, OPTIONS, 0x20) + bit8_exec(b, L3, 0x40) + bit8_exec(
        b,
        R3,
        0x80,
    );
    x + y
}

/// DualSense USB input report (id `0x01`, 64 bytes) for the virtual pad.
pub fn pad_frame_to_dualsense_usb_report(frame: &PadFrame) -> (r: [u8; 64])
    ensures
        r@ == spec_dualsense_usb_report(*frame),
{
    let mut r = [0u8; 64];
    r[0] = 0x01;
    r[1] = frame.lx;
    r[2] = frame.ly;
    r[3] = frame.rx;
    r[4] = frame.ry;
    r[5] = frame.l2;
    r[6] = frame.r2;
    r[8] = face_byte_exec(frame.buttons);
    r[9] = upper_byte_exec(frame.buttons);
    r[10] = bit8_exec(frame.buttons, PS, 0x01) + bit8_exec(frame.buttons, TOUCH, 0x02) + bit8_exec(
        frame.buttons,
        MUTE,
        0x04,
    );
    assert(r@ =~= spec_dualsense_usb_report(*frame));
    r
}

/// XInput-style stick (centre 0) from a DualSense `u8` (centre 128).
pub fn stick_u8_to_i16(v: u8) -> (r: i16)
    ensures
        r == (v - 128) * 256,
{
    let centered: i32 = v as i32 - 128;
    (centered * 256) as i16
}

/// The button bits a DualSense report can carry: everything but the reserved bit 15.
pub const DUALSENSE_BUTTONS: u32 = 0xF7FFF;

/// The d-pad bits of `b` name a hat position (no opposite directions together).
pub open spec fn valid_dpad(b: u32) -> bool {
    spec_dpad_nibble(b) != 8 || b & 0xF0000 == 0
}

proof fn lemma_report_button_bytes(b: u32)
    by (bit_vector)
    requires
        valid_dpad(b),
    ensures
        ps_mask(
            face_byte(b) as u8,
            upper_byte(b) as u8,
            (extra_byte(b) as u8) & 1 != 0,
            (extra_byte(b) as u8) & 2 != 0,
            (extra_byte(b) as u8) & 4 != 0,
        ) == b & 0xF7FFF,
{
}

/// The report the virtual pad injects parses back to the frame it came from: sticks,
/// triggers and every DualSense button, when the d-pad names a hat position.
pub proof fn lemma_dualsense_report_roundtrip(f: PadFrame)
    requires
        valid_dpad(f.buttons),
    ensures
        spec_parse_input_report(spec_dualsense_usb_report(f)) == Some(
            input_frame(f.buttons & DUALSENSE_BUTTONS, f.lx, f.ly, f.rx, f.ry, f.l2, f.r2),
        ),
{
    lemma_report_button_bytes(f.buttons);
}

} // verus!
