//! DualShock 4 (PS4) USB/Bluetooth input report into a `PadFrame`.
//! Offsets follow hid-sony for report `0x01`.
use vstd::prelude::*;
use crate::pad::parse::{ps_buttons, ps_mask};
use crate::proto::pad_frame::{input_frame, PadFrame};

verus! {

pub const DS4_USB: u8 = 0x01;
pub const DS4_BT: u8 = 0x11;

/// Offset of the USB-shaped body inside a DualShock 4 report: after the id byte for
/// USB, after id and two header bytes for Bluetooth (which needs at least 4 bytes),
/// or the whole buffer for a bare payload of at least 10 bytes.
pub open spec fn ds4_body_start(raw: Seq<u8>) -> Option<int> {
    if raw.len() == 0 {
        None
    } else if raw[0] == DS4_USB {
        Some(1)
    } else if raw[0] == DS4_BT {
        if raw.len() < 4 {
            None
        } else {
            Some(3)
        }
    } else if raw.len() >= 10 {
        Some(0)
    } else {
        None
    }
}

/// What a DualShock 4 report parses to: sticks from body bytes 0..4, buttons from 4..7,
/// triggers from 7 and 8; `None` when the body is under 10 bytes.
pub open spec fn spec_parse_ds4_input_report(raw: Seq<u8>) -> Option<PadFrame> {
    match ds4_body_start(raw) {
        None => None,
        Some(o) => if raw.len() - o < 10 {
            None
        } else {
            Some(
                input_frame(
                    ps_mask(raw[o + 4], raw[o + 5], raw[o + 6] & 1 != 0, raw[o + 6] & 2 != 0, false),
                    raw[o],
                    raw[o + 1],
                    raw[o + 2],
                    raw[o + 3],
                    raw[o + 7],
                    raw[o + 8],
                ),
            )
        },
    }
}

/// Parse a DualShock 4 input report.
pub fn parse_ds4_input_report(raw: &[u8]) -> (r: Option<PadFrame>)
    ensures
        r == spec_parse_ds4_input_report(raw@),
{
    if raw.len() == 0 {
        return None;
    }
    let o: usize = if raw[0] == DS4_USB {
        1
    } else if raw[0] == DS4_BT {
        if raw.len() < 4 {
            return None;
        }
        3
    } else if raw.len() >= 10 {
        0
    } else {
        return None;
    };
    if raw.len() - o < 10 {
        return None;
    }
    let bx = raw[o + 6];
    let buttons = ps_buttons(raw[o + 4], raw[o + 5], bx & 1 != 0, bx & 2 != 0, false);
    Some(
        PadFrame {
            seq: 0,
            buttons,
            lx: raw[o],
            ly: raw[o + 1],
            rx: raw[o + 2],
            ry: raw[o + 3],
            l2: raw[o + 7],
            r2: raw[o + 8],
            gx: 0,
            gy: 0,
            gz: 0,
            touch_active: 0,
            touch_x: 0,
            touch_y: 0,
            client_ts_ms: 0,
        },
    )
}

/// Where a DualShock 4 report's sticks and analog triggers come from: a USB report
/// (`0x01`, at least 11 bytes) has the sticks in bytes 1..=4, the left trigger in byte
/// 8 and the right trigger in byte 9; a Bluetooth report (`0x11`, at least 13 bytes)
/// has them two bytes further on; a bare payload (at least 10 bytes, not starting
/// with either id) has them at 0..=3, 7 and 8.
pub proof fn lemma_ds4_axes(raw: Seq<u8>)
    ensures
        raw.len() >= 11 && raw[0] == 0x01 ==> (spec_parse_ds4_input_report(raw) matches Some(f) && f.lx == raw[1]
            && f.ly == raw[2] && f.rx == raw[3] && f.ry == raw[4] && f.l2 == raw[8] && f.r2 == raw[9]),
        raw.len() >= 13 && raw[0] == 0x11 ==> (spec_parse_ds4_input_report(raw) matches Some(f) && f.lx == raw[3]
            && f.ly == raw[4] && f.rx == raw[5] && f.ry == raw[6] && f.l2 == raw[10] && f.r2 == raw[11]),
        raw.len() >= 10 && raw[0] != 0x01 && raw[0] != 0x11 ==> (spec_parse_ds4_input_report(raw) matches Some(f)
            && f.lx == raw[0] && f.ly == raw[1] && f.rx == raw[2] && f.ry == raw[3] && f.l2 == raw[7] && f.r2
            == raw[8]),
{
}

} // verus!
