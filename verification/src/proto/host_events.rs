//! Host-to-player control messages on the pad channel.
use vstd::prelude::*;

verus! {

/// A control message the host may send a player.
#[derive(Debug, Clone, PartialEq, Eq)]
pub enum HostToPlayer {
    SessionReady { preset: String },
    EmulatorHint { name: String },
    LatencyProbe { t_ms: u64 },
}

} // verus!
