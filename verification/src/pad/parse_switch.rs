//! Nintendo Switch controller HID input reports into a `PadFrame`.
//!
//! In standard full report mode (`0x30`) the Pro Controller and the Joy-Cons send:
//! report id, timer, battery, three button bytes, the left and right sticks as two
//! 12-bit axes packed into three bytes each, then the vibrator byte. Face buttons
//! map by position onto the DualSense diamond: X to SQUARE, A to CROSS, B to CIRCLE,
//! Y to TRIANGLE; Capture has no DualSense equivalent and is left unmapped.
use vstd::prelude::*;
use crate::proto::buttons::{
    bit_if, flag, CIRCLE, CREATE, CROSS, DPAD_DOWN, DPAD_LEFT, DPAD_RIGHT, DPAD_UP, L1, L2, L3,
    OPTIONS, PS, R1, R2, R3, SQUARE, TRIANGLE,
};
use crate::proto::pad_frame::{input_frame, PadFrame};

verus! {

pub const SWITCH_REPORT_ID: u8 = 0x30;
/// Minimum report length (id + header through the vibrator byte).
pub const SWITCH_MIN_LEN: usize = 13;

/// The X axis of a packed stick group, as a `u8` centred on 128: the 12-bit value
/// (low byte plus the low nibble of the middle byte) divided by 16.
pub open spec fn packed_x(b0: u8, b1: u8) -> u8 {
    ((b0 + 256 * (b1 % 16)) / 16) as u8
}

/// The Y axis of a packed stick group as a `u8`: the top 8 of its 12 bits, which are
/// the third byte.
pub open spec fn packed_y(b2: u8) -> u8 {
    b2
}

/// Buttons of the first (right-hand) button byte.
pub open spec fn switch_right_bits(b3: u8) -> int {
    bit_if(b3 & 0x01 != 0, TRIANGLE) + bit_if(b3 & 0x02 != 0, SQUARE) + bit_if(b3 & 0x04 != 0, CIRCLE)
        + bit_if(b3 & 0x08 != 0, CROSS) + bit_if(b3 & 0x40 != 0, R1) + bit_if(b3 & 0x80 != 0, R2)
}

/// Buttons of the shared (middle) button byte.
pub open spec fn switch_shared_bits(b4: u8) -> int {
    bit_if(b4 & 0x01 != 0, CREATE) + bit_if(b4 & 0x02 != 0, OPTIONS) + bit_if(b4 & 0x04 != 0, R3)
        + bit_if(b4 & 0x08 != 0, L3) + bit_if(b4 & 0x10 != 0, PS)
}

/// Buttons of the third (left-hand) button byte.
pub open spec fn switch_left_bits(b5: u8) -> int {
    bit_if(b5 & 0x40 != 0, L1) + bit_if(b5 & 0x80 != 0, L2) + bit_if(b5 & 0x01 != 0, DPAD_DOWN)
        + bit_if(b5 & 0x02 != 0, DPAD_UP) + bit_if(b5 & 0x04 != 0, DPAD_RIGHT) + bit_if(
        b5 & 0x08 != 0,
        DPAD_LEFT,
    )
}

/// What a Switch report parses to; `None` for another report id or under 13 bytes.
pub open spec fn spec_parse_switch_input_report(raw: Seq<u8>) -> Option<PadFrame> {
    if raw.len() < SWITCH_MIN_LEN || raw[0] != SWITCH_REPORT_ID {
        None
    } else {
        Some(
            input_frame(
                (switch_right_bits(raw[3]) + switch_shared_bits(raw[4]) + switch_left_bits(raw[5])) as u32,
                packed_x(raw[6], raw[7]),
                packed_y(raw[8]),
                packed_x(raw[9], raw[10]),
                packed_y(raw[11]),
                0,
                0,
            ),
        )
    }
}

/// Unpack the two 12-bit axes of a packed stick group into `u8`s: `(x, y)`.
pub fn packed_stick(b0: u8, b1: u8, b2: u8) -> (r: (u8, u8))
    ensures
        r == (packed_x(b0, b1), packed_y(b2)),
{
    let x: u16 = ((b0 as u16) | (((b1 & 0x0F) as u16) << 8u16)) >> 4u16;
    let y: u16 = (((b1 as u16) >> 4u16) | ((b2 as u16) << 4u16)) >> 4u16;
    assert(x == (b0 + 256 * (b1 % 16)) / 16 && x < 256) by (bit_vector)
        requires
            x == ((b0 as u16) | (((b1 & 0x0F) as u16) << 8u16)) >> 4u16,
    ;
    assert(y == b2) by (bit_vector)
        requires
            y == (((b1 as u16) >> 4u16) | ((b2 as u16) << 4u16)) >> 4u16,
    ;
    (x as u8, y as u8)
}

fn switch_right_buttons(b3: u8) -> (r: u32)
    ensures
        r == switch_right_bits(b3),
{
    let x = flag(b3 & 0x01 != 0, TRIANGLE) + flag(b3 & 0x02 != 0, SQUARE) + flag(b3 & 0x04 != 0, CIRCLE);
    let y = flag(b3 & 0x08 != 0, CROSS) + flag(b3 & 0x40 != 0, R1) + flag(b3 & 0x80 != 0, R2);
    x + y
}

fn switch_shared_buttons(b4: u8) -> (r: u32)
    ensures
        r == switch_shared_bits(b4),
{
    let x = flag(b4 & 0x01 != 0, CREATE) + flag(b4 & 0x02 != 0, OPTIONS) + flag(b4 & 0x04 != 0, R3);
    x + flag(b4 & 0x08 != 0, L3) + flag(b4 & 0x10 != 0, PS)
}

fn switch_left_buttons(b5: u8) -> (r: u32)
    ensures
        r == switch_left_bits(b5),
{
    let x = flag(b5 & 0x40 != 0, L1) + flag(b5 & 0x80 != 0, L2) + flag(b5 & 0x01 != 0, DPAD_DOWN);
    let y = flag(b5 & 0x02 != 0, DPAD_UP) + flag(b5 & 0x04 != 0, DPAD_RIGHT) + flag(
        b5 & 0x08 != 0,
        DPAD_LEFT,
    );
    x + y
}

/// Parse a standard full-mode (`0x30`) Switch input report.
pub fn parse_switch_input_report(raw: &[u8]) -> (r: Option<PadFrame>)
    ensures
        r == spec_parse_switch_input_report(raw@),
{
    if raw.len() < SWITCH_MIN_LEN || raw[0] != SWITCH_REPORT_ID {
        return None;
    }
    let (lx, ly) = packed_stick(raw[6], raw[7], raw[8]);
    let (rx, ry) = packed_stick(raw[9], raw[10], raw[11]);
    let buttons = switch_right_buttons(raw[3]) + switch_shared_buttons(raw[4]) + switch_left_buttons(
        raw[5],
    );
    Some(
        PadFrame {
            seq: 0,
            buttons,
            lx,
            ly,
            rx,
            ry,
            l2: 0,
            r2: 0,
            gx: 0,
            gy: 0,
            gz: 0,
            touch_active: 0,
            touch_x: 0,
            touch_y: 0,
            client_ts_ms: 0,
        },
    )
}

} // verus!
