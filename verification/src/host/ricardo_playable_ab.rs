//! The integer side of the "playable" reference session (720p60 at 5 Mbps, no shed,
//! no freeze) that the streaming path must keep reachable.
use vstd::prelude::*;
use crate::host::link_gov::EncodeTarget;
use crate::proto::signal::{spec_p720_60, StreamPreset};

verus! {

pub const SHED_PCT: u32 = 0;
pub const ENCODER_W: u32 = 1280;
pub const ENCODER_H: u32 = 720;
pub const ENCODER_FPS: u32 = 60;
pub const ENCODER_KBPS: u32 = 5_000;
pub const FREEZE_FRAMES: u32 = 0;
/// Soft ceiling on shed for live comparisons.
pub const MAX_SHED_PCT: u32 = 8;

/// The encode target of the preset friends joined with that night (720p60).
pub fn playable_preset() -> (t: EncodeTarget)
    ensures
        t == (EncodeTarget {
            width: spec_p720_60().width,
            height: spec_p720_60().height,
            fps: spec_p720_60().fps,
            bitrate_kbps: spec_p720_60().bitrate_kbps,
        }),
{
    let p = StreamPreset::p720_60();
    EncodeTarget { width: p.width, height: p.height, fps: p.fps, bitrate_kbps: p.bitrate_kbps }
}

} // verus!
