//! Xbox One / Series controller HID input reports into a `PadFrame`.
//!
//! The state packet (report `0x01`) holds both sticks as little-endian `u16`
//! centred on `0x8000`, both triggers as little-endian 10-bit values, a hat nibble
//! (`1..=8` clockwise from up, `0` released) and the button bytes. A 15-byte body is
//! the first Xbox One S layout (second button byte: stick clicks only, guide in
//! report `0x02`); a longer body is the unified layout (View/Menu/Guide/clicks, then
//! Share). Face buttons map by position onto the DualSense diamond:
//! A to CROSS, B to CIRCLE, X to SQUARE, Y to TRIANGLE.
use vstd::prelude::*;
use crate::proto::buttons::{
    bit_if, flag, hat_bits, hat_buttons, CIRCLE, CREATE, CROSS, L1, L2, L3, OPTIONS, PS, R1, R2, R3,
    SQUARE, TRIANGLE,
};
use crate::proto::pad_frame::{input_frame, PadFrame};
use crate::proto::wire::{le16, read_u16_le};

verus! {

/// Main state packet report id (sticks, triggers, hat, buttons).
pub const XBOX_REPORT_ID: u8 = 0x01;
/// Guide (Xbox button) report id, used by older firmware.
pub const XBOX_GUIDE_REPORT_ID: u8 = 0x02;
/// Minimum body length of a state packet (after the report id).
pub const MIN_BODY_LEN: usize = 15;

/// A `u16` stick centred on `0x8000` as a `u8` centred on 128: its high byte.
pub open spec fn xbox_stick(v: int) -> u8 {
    (v / 256) as u8
}

/// A 10-bit trigger (values above 1023 clamp) as a `u8`.
pub open spec fn xbox_trigger(v: int) -> u8 {
    ((if v < 1023 { v } else { 1023 }) / 4) as u8
}

/// Face buttons and shoulders of the first button byte.
pub open spec fn xbox_face_bits(a: u8) -> int {
    bit_if(a & 0x01 != 0, CROSS) + bit_if(a & 0x02 != 0, CIRCLE) + bit_if(a & 0x04 != 0, SQUARE)
        + bit_if(a & 0x08 != 0, TRIANGLE) + bit_if(a & 0x10 != 0, L1) + bit_if(a & 0x20 != 0, R1)
}

/// Menu-row buttons and stick clicks from the button bytes `a`, `b`, `c`; `legacy`
/// is the 15-byte layout, where `b` holds only the stick clicks.
pub open spec fn xbox_system_bits(a: u8, b: u8, c: u8, legacy: bool) -> int {
    bit_if(a & 0x40 != 0 || (!legacy && (b & 0x04 != 0 || c & 0x01 != 0)), CREATE)
        + bit_if(a & 0x80 != 0 || (!legacy && b & 0x08 != 0), OPTIONS)
        + bit_if(!legacy && b & 0x10 != 0, PS)
        + bit_if(if legacy { b & 0x01 != 0 } else { b & 0x20 != 0 }, L3)
        + bit_if(if legacy { b & 0x02 != 0 } else { b & 0x40 != 0 }, R3)
}

/// D-pad bits of an Xbox hat nibble (`1..=8` clockwise from up).
pub open spec fn xbox_hat_bits(h: int) -> int {
    if 1 <= h <= 8 { hat_bits(h - 1) as int } else { 0 }
}

/// The frame a state-packet body parses to; triggers past `0x10` also set the
/// digital L2/R2 bits.
pub open spec fn spec_parse_state_packet(body: Seq<u8>) -> Option<PadFrame> {
    if body.len() < MIN_BODY_LEN {
        None
    } else {
        let l2 = xbox_trigger(le16(body, 8));
        let r2 = xbox_trigger(le16(body, 10));
        let legacy = body.len() == 15;
        let c: u8 = if body.len() > 15 { body[15] } else { 0 };
        let mask = xbox_face_bits(body[13]) + xbox_system_bits(body[13], body[14], c, legacy)
            + bit_if(l2 > 0x10, L2) + bit_if(r2 > 0x10, R2) + xbox_hat_bits((body[12] & 0x0F) as int);
        Some(
            input_frame(
                mask as u32,
                xbox_stick(le16(body, 0)),
                xbox_stick(le16(body, 2)),
                xbox_stick(le16(body, 4)),
                xbox_stick(le16(body, 6)),
                l2,
                r2,
            ),
        )
    }
}

/// What an Xbox report parses to: a state packet, a guide packet (neutral frame with
/// PS pressed when bit 0 of its byte is set), or `None` for other ids and short reports.
pub open spec fn spec_parse_xbox_input_report(raw: Seq<u8>) -> Option<PadFrame> {
    if raw.len() < 2 {
        None
    } else if raw[0] == XBOX_REPORT_ID {
        spec_parse_state_packet(raw.subrange(1, raw.len() as int))
    } else if raw[0] == XBOX_GUIDE_REPORT_ID {
        Some(input_frame(bit_if(raw[1] & 0x01 != 0, PS), 128, 128, 128, 128, 0, 0))
    } else {
        None
    }
}

fn xbox_stick_u8(v: u16) -> (r: u8)
    ensures
        r == xbox_stick(v as int),
{
    (v / 256) as u8
}

fn xbox_trigger_u8(v: u16) -> (r: u8)
    ensures
        r == xbox_trigger(v as int),
{
    let m: u16 = if v < 1023 { v } else { 1023 };
    (m / 4) as u8
}

fn xbox_face_buttons(a: u8) -> (r: u32)
    ensures
        r == xbox_face_bits(a),
{
    let x = flag(a & 0x01 != 0, CROSS) + flag(a & 0x02 != 0, CIRCLE) + flag(a & 0x04 != 0, SQUARE);
    let y = flag(a & 0x08 != 0, TRIANGLE) + flag(a & 0x10 != 0, L1) + flag(a & 0x20 != 0, R1);
    x + y
}

fn xbox_system_buttons(a: u8, b: u8, c: u8, legacy: bool) -> (r: u32)
    ensures
        r == xbox_system_bits(a, b, c, legacy),
{
    let create = flag(a & 0x40 != 0 || (!legacy && (b & 0x04 != 0 || c & 0x01 != 0)), CREATE);
    let options = flag(a & 0x80 != 0 || (!legacy && b & 0x08 != 0), OPTIONS);
    let ps = flag(!legacy && b & 0x10 != 0, PS);
    let l3 = flag(
        if legacy {
            b & 0x01 != 0
        } else {
            b & 0x20 != 0
        },
        L3,
    );
    let r3 = flag(
        if legacy {
            b & 0x02 != 0
        } else {
            b & 0x40 != 0
        },
        R3,
    );
    create + options + ps + l3 + r3
}

fn xbox_hat_buttons(h: u8) -> (r: u32)
    ensures
        r == xbox_hat_bits(h as int),
{
    if 1 <= h && h <= 8 {
        hat_buttons(h - 1)
    } else {
        0
    }
}

/// Parse a state-packet body (the bytes after report id `0x01`).
pub fn parse_state_packet(body: &[u8]) -> (r: Option<PadFrame>)
    ensures
        r == spec_parse_state_packet(body@),
{
    if body.len() < MIN_BODY_LEN {
        return None;
    }
    let l2 = xbox_trigger_u8(read_u16_le(body, 8));
    let r2 = xbox_trigger_u8(read_u16_le(body, 10));
    let legacy = body.len() == 15;
    let c: u8 = if body.len() > 15 { body[15] } else { 0 };
    let face = xbox_face_buttons(body[13]);
    let system = xbox_system_buttons(body[13], body[14], c, legacy);
    let triggers = flag(l2 > 0x10, L2) + flag(r2 > 0x10, R2);
    let hat = xbox_hat_buttons(body[12] & 0x0F);
    Some(
        PadFrame {
            seq: 0,
            buttons: face + system + triggers + hat,
            lx: xbox_stick_u8(read_u16_le(body, 0)),
            ly: xbox_stick_u8(read_u16_le(body, 2)),
            rx: xbox_stick_u8(read_u16_le(body, 4)),
            ry: xbox_stick_u8(read_u16_le(body, 6)),
            l2,
            r2,
            gx: 0,
            gy: 0,
            gz: 0,
            touch_active: 0,
            touch_x: 0,
            touch_y: 0,
            client_ts_ms: 0,
        },
    )
}

/// Parse a raw hidraw report from an Xbox One / Series controller.
pub fn parse_xbox_input_report(raw: &[u8]) -> (r: Option<PadFrame>)
    ensures
        r == spec_parse_xbox_input_report(raw@),
{
    if raw.len() < 2 {
        return None;
    }
    if raw[0] == XBOX_REPORT_ID {
        let body = vstd::slice::slice_subrange(raw, 1, raw.len());
        parse_state_packet(body)
    } else if raw[0] == XBOX_GUIDE_REPORT_ID {
        Some(
            PadFrame {
                seq: 0,
                buttons: flag(raw[1] & 0x01 != 0, PS),
                lx: 128,
                ly: 128,
                rx: 128,
                ry: 128,
                l2: 0,
                r2: 0,
                gx: 0,
                gy: 0,
                gz: 0,
                touch_active: 0,
                touch_x: 0,
                touch_y: 0,
                client_ts_ms: 0,
            },
        )
    } else {
        None
    }
}

} // verus!
