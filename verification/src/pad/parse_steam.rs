//! Steam Controller (V1) HID input reports into a `PadFrame`.
//!
//! Report `0x01` (64 bytes): button bytes at 8, 9 and 10, the analog triggers at
//! 11 and 12, then the left pad / joystick and the right pad as little-endian `i16`
//! pairs at 16..24 (Y negated on the wire). The left pad doubles as the left stick
//! and the pad clicks are L3 / R3. Face buttons map by position onto the DualSense
//! diamond: A to CROSS, B to CIRCLE, X to SQUARE, Y to TRIANGLE.
use vstd::prelude::*;
use crate::proto::buttons::{
    bit_if, flag, CIRCLE, CREATE, CROSS, DPAD_DOWN, DPAD_LEFT, DPAD_RIGHT, DPAD_UP, L1, L2, L3,
    OPTIONS, PS, R1, R2, R3, SQUARE, TRIANGLE,
};
use crate::proto::pad_frame::{input_frame, PadFrame};
use crate::proto::wire::{i16_from_bits, le16, read_i16_le};

verus! {

pub const STEAM_REPORT_ID: u8 = 0x01;
/// Minimum report length (id byte through the right-pad Y).
pub const STEAM_MIN_LEN: usize = 24;

/// A full-range `i16` axis (centre 0) as a `u8` centred on 128.
pub open spec fn steam_axis(v: int) -> u8 {
    ((v + 32768) / 256) as u8
}

/// Two's-complement negation of an `i16`, where `-32768` stays itself.
pub open spec fn neg_wrapping(v: i16) -> int {
    if v == -32768 { -32768 } else { -v }
}

/// Face buttons and shoulders of button byte 8.
pub open spec fn steam_face_bits(b8: u8) -> int {
    bit_if(b8 & 0x80 != 0, CROSS) + bit_if(b8 & 0x20 != 0, CIRCLE) + bit_if(b8 & 0x40 != 0, SQUARE)
        + bit_if(b8 & 0x10 != 0, TRIANGLE) + bit_if(b8 & 0x08 != 0, L1) + bit_if(b8 & 0x04 != 0, R1)
}

/// Menu row of button byte 9: menu left, Steam logo, menu right.
pub open spec fn steam_menu_bits(b9: u8) -> int {
    bit_if(b9 & 0x10 != 0, CREATE) + bit_if(b9 & 0x20 != 0, PS) + bit_if(b9 & 0x40 != 0, OPTIONS)
}

/// D-pad, pad clicks and triggers (analog past `0x10`, or the digital ZL/ZR bits).
pub open spec fn steam_other_bits(b8: u8, b9: u8, b10: u8, l2: u8, r2: u8) -> int {
    bit_if(b9 & 0x01 != 0, DPAD_UP) + bit_if(b9 & 0x02 != 0, DPAD_RIGHT) + bit_if(
        b9 & 0x04 != 0,
        DPAD_LEFT,
    ) + bit_if(b9 & 0x08 != 0, DPAD_DOWN) + bit_if(b10 & 0x04 != 0, R3) + bit_if(b10 & 0x40 != 0, L3)
        + bit_if(l2 > 0x10 || b8 & 0x02 != 0, L2) + bit_if(r2 > 0x10 || b8 & 0x01 != 0, R2)
}

/// What a Steam Controller report parses to; `None` for another id or under 24 bytes.
pub open spec fn spec_parse_steam_input_report(raw: Seq<u8>) -> Option<PadFrame> {
    if raw.len() < STEAM_MIN_LEN || raw[0] != STEAM_REPORT_ID {
        None
    } else {
        Some(
            input_frame(
                (steam_face_bits(raw[8]) + steam_menu_bits(raw[9]) + steam_other_bits(raw[8], raw[9], raw[10], raw[11], raw[12])) as u32,
                steam_axis(i16_from_bits(le16(raw, 16)) as int),
                steam_axis(neg_wrapping(i16_from_bits(le16(raw, 18)))),
                steam_axis(i16_from_bits(le16(raw, 20)) as int),
                steam_axis(neg_wrapping(i16_from_bits(le16(raw, 22)))),
                raw[11],
                raw[12],
            ),
        )
    }
}

fn axis_to_u8(v: i32) -> (r: u8)
    requires
        -32768 <= v <= 32768,
    ensures
        r == steam_axis(v as int),
{
    ((v + 32768) / 256) as u8
}

fn neg_wrap(v: i16) -> (r: i32)
    ensures
        r == neg_wrapping(v),
{
    if v == -32768 {
        -32768
    } else {
        -(v as i32)
    }
}

fn steam_face_buttons(b8: u8) -> (r: u32)
    ensures
        r == steam_face_bits(b8),
{
    let x = flag(b8 & 0x80 != 0, CROSS) + flag(b8 & 0x20 != 0, CIRCLE) + flag(b8 & 0x40 != 0, SQUARE);
    let y = flag(b8 & 0x10 != 0, TRIANGLE) + flag(b8 & 0x08 != 0, L1) + flag(b8 & 0x04 != 0, R1);
    x + y
}

fn steam_menu_buttons(b9: u8) -> (r: u32)
    ensures
        r == steam_menu_bits(b9),
{
    flag(b9 & 0x10 != 0, CREATE) + flag(b9 & 0x20 != 0, PS) + flag(b9 & 0x40 != 0, OPTIONS)
}

fn steam_other_buttons(b8: u8, b9: u8, b10: u8, l2: u8, r2: u8) -> (r: u32)
    ensures
        r == steam_other_bits(b8, b9, b10, l2, r2),
{
    let x = flag(b9 & 0x01 != 0, DPAD_UP) + flag(b9 & 0x02 != 0, DPAD_RIGHT) + flag(
        b9 & 0x04 != 0,
        DPAD_LEFT,
    ) + flag(b9 & 0x08 != 0, DPAD_DOWN);
    let y = flag(b10 & 0x04 != 0, R3) + flag(b10 & 0x40 != 0, L3);
    let z = flag(l2 > 0x10 || b8 & 0x02 != 0, L2) + flag(r2 > 0x10 || b8 & 0x01 != 0, R2);
    x + y + z
}

/// Parse a Steam Controller state report.
pub fn parse_steam_input_report(raw: &[u8]) -> (r: Option<PadFrame>)
    ensures
        r == spec_parse_steam_input_report(raw@),
{
    if raw.len() < STEAM_MIN_LEN || raw[0] != STEAM_REPORT_ID {
        return None;
    }
    let lx = axis_to_u8(read_i16_le(raw, 16) as i32);
    let ly = axis_to_u8(neg_wrap(read_i16_le(raw, 18)));
    let rx = axis_to_u8(read_i16_le(raw, 20) as i32);
    let ry = axis_to_u8(neg_wrap(read_i16_le(raw, 22)));
    let buttons = steam_face_buttons(raw[8]) + steam_menu_buttons(raw[9]) + steam_other_buttons(
        raw[8],
        raw[9],
        raw[10],
        raw[11],
        raw[12],
    );
    Some(
        PadFrame {
            seq: 0,
            buttons,
            lx,
            ly,
            rx,
            ry,
            l2: raw[11],
            r2: raw[12],
            gx: 0,
            gy: 0,
            gz: 0,
            touch_active: 0,
            touch_x: 0,
            touch_y: 0,
            client_ts_ms: 0,
        },
    )
}

} // verus!
