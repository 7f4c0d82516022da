//! Latency-critical WebRTC parameters.
use vstd::prelude::*;

verus! {

/// URI negotiated in SDP and stamped on every outbound H.264 packet.
pub const PLAYOUT_DELAY_URI: &'static str = "http://www.webrtc.org/experiments/rtp-hdrext/playout-delay";

/// Gaming target: play as soon as a full frame is assembled (min and max delay 0).
pub fn gaming_playout_delay() -> (r: (u16, u16))
    ensures
        r == (0u16, 0u16),
{
    (0, 0)
}

} // verus!
