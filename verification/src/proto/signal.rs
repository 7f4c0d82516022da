//! Stream presets and roles of the signaling protocol.
use vstd::prelude::*;
use crate::proto::text::{ascii_lower, ascii_lower_range, chars_of, eq_lit, trim, trim_bounds};

verus! {

/// Which side of a session a peer is.
#[derive(Debug, Clone, Copy, PartialEq, Eq, Structural)]
pub enum Role {
    Host,
    Player,
}

/// Resolution, frame rate and bitrate of a stream.
#[derive(Debug, Clone, Copy, PartialEq, Eq, Structural)]
pub struct StreamPreset {
    pub width: u32,
    pub height: u32,
    pub fps: u32,
    pub bitrate_kbps: u32,
}

/// 1080p at 60 fps, 18 Mbps (screen text needs the headroom).
pub open spec fn spec_p1080_60() -> StreamPreset {
    StreamPreset { width: 1920, height: 1080, fps: 60, bitrate_kbps: 18_000 }
}

/// 1080p at 30 fps, 10 Mbps.
pub open spec fn spec_p1080_30() -> StreamPreset {
    StreamPreset { width: 1920, height: 1080, fps: 30, bitrate_kbps: 10_000 }
}

/// 720p at 60 fps, 5 Mbps (holds 60 fps on a three-friend WAN).
pub open spec fn spec_p720_60() -> StreamPreset {
    StreamPreset { width: 1280, height: 720, fps: 60, bitrate_kbps: 5_000 }
}

/// 720p at 30 fps, 5 Mbps.
pub open spec fn spec_p720_30() -> StreamPreset {
    StreamPreset { width: 1280, height: 720, fps: 30, bitrate_kbps: 5_000 }
}

/// The preset a name selects (case-insensitive, surrounding white space ignored).
pub open spec fn spec_preset_parse(name: Seq<char>) -> Option<StreamPreset> {
    let n = ascii_lower(trim(name));
    if n == "1080p60"@ || n == "hd60"@ {
        Some(spec_p1080_60())
    } else if n == "1080p30"@ || n == "hd30"@ {
        Some(spec_p1080_30())
    } else if n == "720p60"@ {
        Some(spec_p720_60())
    } else if n == "720p30"@ || n == "default"@ {
        Some(spec_p720_30())
    } else {
        None
    }
}

impl StreamPreset {
    pub fn p1080_60() -> (r: Self)
        ensures
            r == spec_p1080_60(),
    {
        StreamPreset { width: 1920, height: 1080, fps: 60, bitrate_kbps: 18_000 }
    }

    pub fn p1080_30() -> (r: Self)
        ensures
            r == spec_p1080_30(),
    {
        StreamPreset { width: 1920, height: 1080, fps: 30, bitrate_kbps: 10_000 }
    }

    pub fn p720_60() -> (r: Self)
        ensures
            r == spec_p720_60(),
    {
        StreamPreset { width: 1280, height: 720, fps: 60, bitrate_kbps: 5_000 }
    }

    pub fn p720_30() -> (r: Self)
        ensures
            r == spec_p720_30(),
    {
        StreamPreset { width: 1280, height: 720, fps: 30, bitrate_kbps: 5_000 }
    }

    /// Parse a preset name: `1080p60`/`hd60`, `1080p30`/`hd30`, `720p60`,
    /// `720p30`/`default`.
    pub fn parse(name: &str) -> (r: Option<Self>)
        ensures
            r == spec_preset_parse(name@),
    {
        let v = chars_of(name);
        let (a, b) = trim_bounds(&v);
        let n = ascii_lower_range(&v, a, b);
        if eq_lit(&n, "1080p60") || eq_lit(&n, "hd60") {
            Some(Self::p1080_60())
        } else if eq_lit(&n, "1080p30") || eq_lit(&n, "hd30") {
            Some(Self::p1080_30())
        } else if eq_lit(&n, "720p60") {
            Some(Self::p720_60())
        } else if eq_lit(&n, "720p30") || eq_lit(&n, "default") {
            Some(Self::p720_30())
        } else {
            None
        }
    }
}

} // verus!
