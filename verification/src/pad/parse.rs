//! DualSense USB (`0x01`) and Bluetooth (`0x31`) input reports into a `PadFrame`.
//! Button nibble and stick offsets follow the hid-playstation layout.
use vstd::prelude::*;
use crate::proto::buttons::{
    bit_if, flag, hat_bits, hat_buttons, CIRCLE, CREATE, CROSS, L1, L2, L3, MUTE, OPTIONS, PS, R1,
    R2, R3, SQUARE, TOUCH, TRIANGLE,
};
use crate::proto::pad_frame::{input_frame, PadFrame};

verus! {

pub const INPUT_USB: u8 = 0x01;
pub const INPUT_BT: u8 = 0x31;

/// Face buttons in the high nibble of a PlayStation button byte.
pub open spec fn ps_face_bits(bl: u8) -> int {
    bit_if(bl & 0x10 != 0, SQUARE) + bit_if(bl & 0x20 != 0, CROSS) + bit_if(bl & 0x40 != 0, CIRCLE)
        + bit_if(bl & 0x80 != 0, TRIANGLE)
}

/// Shoulders, digital triggers, Create/Options and stick clicks of the second button byte.
pub open spec fn ps_upper_bits(bh: u8) -> int {
    bit_if(bh & 0x01 != 0, L1) + bit_if(bh & 0x02 != 0, R1) + bit_if(bh & 0x04 != 0, L2)
        + bit_if(bh & 0x08 != 0, R2) + bit_if(bh & 0x10 != 0, CREATE) + bit_if(bh & 0x20 != 0, OPTIONS)
        + bit_if(bh & 0x40 != 0, L3) + bit_if(bh & 0x80 != 0, R3)
}

/// Button mask of a PlayStation report: face buttons in the high nibble of `bl`,
/// the d-pad hat in its low nibble, shoulders/triggers/menu/sticks in `bh`, and the
/// PS, touchpad and mute buttons as given.
pub open spec fn ps_mask(bl: u8, bh: u8, ps: bool, touch: bool, mute: bool) -> u32 {
    (ps_face_bits(bl) + ps_upper_bits(bh) + bit_if(ps, PS) + bit_if(touch, TOUCH) + bit_if(mute, MUTE)
        + hat_bits((bl & 0x0F) as int)) as u32
}

/// Offset of the USB-shaped body inside a DualSense report, if the report id allows one:
/// after the id byte for USB, after the id and an optional `0x01` tag for Bluetooth,
/// or the whole buffer for a bare payload of at least 9 bytes.
pub open spec fn ds_body_start(raw: Seq<u8>) -> Option<int> {
    if raw.len() == 0 {
        None
    } else if raw[0] == INPUT_USB {
        Some(1)
    } else if raw[0] == INPUT_BT {
        if raw.len() < 3 {
            None
        } else if raw[1] == 0x01 {
            Some(2)
        } else {
            Some(1)
        }
    } else if raw.len() >= 9 {
        Some(0)
    } else {
        None
    }
}

/// What a DualSense report parses to: sticks and triggers from the first six body
/// bytes, buttons from body bytes 7..10; `None` when the body is under 10 bytes.
pub open spec fn spec_parse_input_report(raw: Seq<u8>) -> Option<PadFrame> {
    match ds_body_start(raw) {
        None => None,
        Some(o) => if raw.len() - o < 10 {
            None
        } else {
            Some(
                input_frame(
                    ps_mask(raw[o + 7], raw[o + 8], raw[o + 9] & 1 != 0, raw[o + 9] & 2 != 0, raw[o + 9] & 4 != 0),
                    raw[o],
                    raw[o + 1],
                    raw[o + 2],
                    raw[o + 3],
                    raw[o + 4],
                    raw[o + 5],
                ),
            )
        },
    }
}

fn ps_face_buttons(bl: u8) -> (r: u32)
    ensures
        r == ps_face_bits(bl),
{
    flag(bl & 0x10 != 0, SQUARE) + flag(bl & 0x20 != 0, CROSS) + flag(bl & 0x40 != 0, CIRCLE) + flag(
        bl & 0x80 != 0,
        TRIANGLE,
    )
}

fn ps_upper_buttons(bh: u8) -> (r: u32)
    ensures
        r == ps_upper_bits(bh),
{
    let a = flag(bh & 0x01 != 0, L1) + flag(bh & 0x02 != 0, R1) + flag(bh & 0x04 != 0, L2) + flag(
        bh & 0x08 != 0,
        R2,
    );
    let b = flag(bh & 0x10 != 0, CREATE) + flag(bh & 0x20 != 0, OPTIONS) + flag(bh & 0x40 != 0, L3)
        + flag(bh & 0x80 != 0, R3);
    a + b
}

/// The button mask of [`ps_mask`].
pub fn ps_buttons(bl: u8, bh: u8, ps: bool, touch: bool, mute: bool) -> (r: u32)
    ensures
        r == ps_mask(bl, bh, ps, touch, mute),
{
    let face = ps_face_buttons(bl);
    let upper = ps_upper_buttons(bh);
    let extra = flag(ps, PS) + flag(touch, TOUCH) + flag(mute, MUTE);
    let hat = hat_buttons(bl & 0x0F);
    face + upper + extra + hat
}

/// Parse a DualSense input report (USB, Bluetooth, or a bare USB payload).
pub fn parse_input_report(raw: &[u8]) -> (r: Option<PadFrame>)
    ensures
        r == spec_parse_input_report(raw@),
{
    if raw.len() == 0 {
        return None;
    }
    let o: usize = if raw[0] == INPUT_USB {
        1
    } else if raw[0] == INPUT_BT {
        if raw.len() < 3 {
            return None;
        }
        if raw[1] == 0x01 {
            2
        } else {
            1
        }
    } else if raw.len() >= 9 {
        0
    } else {
        return None;
    };
    if raw.len() - o < 10 {
        return None;
    }
    let bx = raw[o + 9];
    let buttons = ps_buttons(raw[o + 7], raw[o + 8], bx & 1 != 0, bx & 2 != 0, bx & 4 != 0);
    Some(
        PadFrame {
            seq: 0,
            buttons,
            lx: raw[o],
            ly: raw[o + 1],
            rx: raw[o + 2],
            ry: raw[o + 3],
            l2: raw[o + 4],
            r2: raw[o + 5],
            gx: 0,
            gy: 0,
            gz: 0,
            touch_active: 0,
            touch_x: 0,
            touch_y: 0,
            client_ts_ms: 0,
        },
    )
}

} // verus!
