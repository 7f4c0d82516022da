//! Host command-line settings.
use vstd::prelude::*;
use crate::proto::signal::{spec_p1080_60, spec_preset_parse, StreamPreset};

verus! {

/// The host's settings (the command line and environment fill them).
#[derive(Debug, Clone)]
pub struct HostArgs {
    pub signaling: String,
    pub session_id: String,
    pub pin: String,
    pub device_name: String,
    pub preset: String,
    pub emulator: String,
    /// Frames per second while the motion detector sees a still screen.
    pub idle_fps: u32,
    pub bluetooth_pad: bool,
}

impl HostArgs {
    /// The stream preset named by `preset`, 1080p60 when the name is unknown.
    pub fn stream_preset(&self) -> (r: StreamPreset)
        ensures
            r == (match spec_preset_parse(self.preset@) {
                Some(p) => p,
                None => spec_p1080_60(),
            }),
    {
        match StreamPreset::parse(self.preset.as_str()) {
            Some(p) => p,
            None => StreamPreset::p1080_60(),
        }
    }
}

} // verus!
