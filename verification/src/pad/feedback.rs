//! Host rumble / lightbar / adaptive-trigger feedback as the player's DualSense USB
//! output report (`0x02`).
use vstd::prelude::*;
use crate::pad::sim::zeros;
use crate::proto::pad_frame::PadFeedback;

verus! {

/// USB DualSense output report size (report id + common + reserved).
pub const DS_USB_OUTPUT_LEN: usize = 63;
/// Bit flags in `valid_flag0` (byte 1).
pub const FLAG0_COMPATIBLE_VIBRATION: u8 = 1;
pub const FLAG0_HAPTICS_SELECT: u8 = 2;
pub const FLAG0_RIGHT_TRIGGER: u8 = 4;
pub const FLAG0_LEFT_TRIGGER: u8 = 8;
/// Bit flags in `valid_flag1` (byte 2).
pub const FLAG1_MIC_MUTE_LED: u8 = 1;
pub const FLAG1_POWER_SAVE: u8 = 2;
pub const FLAG1_LIGHTBAR: u8 = 4;
pub const FLAG1_RELEASE_LEDS: u8 = 8;
pub const FLAG1_PLAYER_INDICATOR: u8 = 16;

/// `base` with the first `min(src.len(), max)` bytes of `src` written from `at` on.
pub open spec fn overlay(base: Seq<u8>, at: int, src: Seq<u8>, max: int) -> Seq<u8> {
    let n = if src.len() < max { src.len() as int } else { max };
    Seq::new(base.len(), |i: int| if at <= i < at + n { src[i - at] } else { base[i] })
}

/// The empty output report: id `0x02`, everything else 0.
pub open spec fn empty_output() -> Seq<u8> {
    zeros(63).update(0, 0x02)
}

/// The output report for a feedback message. A raw report is copied (cut to 63 bytes,
/// zero padded) and keeps id `0x02` when it is empty or starts with 0; other messages
/// set their valid flags and fields, everything else 0.
pub open spec fn spec_build_usb_output_report(fb: PadFeedback) -> Seq<u8> {
    match fb {
        PadFeedback::RawOutput { report } => {
            let o = overlay(zeros(63), 0, report@, 63);
            if report@.len() == 0 || report@[0] == 0 { o.update(0, 0x02) } else { o }
        },
        PadFeedback::Rumble { large, small } => empty_output().update(1, 3).update(3, small).update(4, large),
        PadFeedback::Lightbar { r, g, b } => empty_output().update(2, FLAG1_LIGHTBAR).update(45, r).update(
            46,
            g,
        ).update(47, b),
        PadFeedback::PlayerLed { mask } => empty_output().update(2, FLAG1_PLAYER_INDICATOR).update(44, mask),
        PadFeedback::AdaptiveTriggers { left_mode, left_params, right_mode, right_params } => overlay(
            overlay(empty_output().update(1, 12).update(11, right_mode).update(22, left_mode), 12, right_params@, 10),
            23,
            left_params@,
            10,
        ),
    }
}

/// Write up to `max` leading bytes of `src` into `buf` from `at` on.
fn copy_into(buf: &mut [u8; 63], at: usize, src: &Vec<u8>, max: usize)
    requires
        at + max <= 63,
    ensures
        final(buf)@ == overlay(old(buf)@, at as int, src@, max as int),
{
    let n: usize = if src.len() < max { src.len() } else { max };
    let ghost start = buf@;
    let mut i: usize = 0;
    while i < n
        invariant
            i <= n,
            n <= max,
            n <= src@.len(),
            at + max <= 63,
            buf@.len() == 63,
            start.len() == 63,
            forall|k: int|
                0 <= k < 63 ==> #[trigger] buf@[k] == (if at <= k < at + i { src@[k - at] } else { start[k] }),
        decreases n - i,
    {
        buf[at + i] = src[i];
        i += 1;
    }
    assert(buf@ =~= overlay(start, at as int, src@, max as int));
}

/// Build a DualSense USB output report from structured feedback.
pub fn build_usb_output_report(fb: &PadFeedback) -> (r: [u8; 63])
    ensures
        r@ == spec_build_usb_output_report(*fb),
{
    let mut buf = [0u8; 63];
    assert(buf@ =~= zeros(63));
    match fb {
        PadFeedback::RawOutput { report } => {
            copy_into(&mut buf, 0, report, 63);
            if report.len() == 0 || buf[0] == 0 {
                buf[0] = 0x02;
            }
        },
        PadFeedback::Rumble { large, small } => {
            buf[0] = 0x02;
            buf[1] = FLAG0_COMPATIBLE_VIBRATION + FLAG0_HAPTICS_SELECT;
            buf[3] = *small;
            buf[4] = *large;
        },
        PadFeedback::Lightbar { r, g, b } => {
            buf[0] = 0x02;
            buf[2] = FLAG1_LIGHTBAR;
            buf[45] = *r;
            buf[46] = *g;
            buf[47] = *b;
        },
        PadFeedback::PlayerLed { mask } => {
            buf[0] = 0x02;
            buf[2] = FLAG1_PLAYER_INDICATOR;
            buf[44] = *mask;
        },
        PadFeedback::AdaptiveTriggers { left_mode, left_params, right_mode, right_params } => {
            buf[0] = 0x02;
            buf[1] = FLAG0_RIGHT_TRIGGER + FLAG0_LEFT_TRIGGER;
            buf[11] = *right_mode;
            buf[22] = *left_mode;
            copy_into(&mut buf, 12, right_params, 10);
            copy_into(&mut buf, 23, left_params, 10);
        },
    }
    assert(buf@ =~= spec_build_usb_output_report(*fb));
    buf
}

} // verus!
