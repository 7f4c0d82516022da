//! Wire formats shared by the host and the player: the `CLPD` pad frame, the
//! `CLVD` video fragments with XOR parity, and the integer fields they are built from.
pub mod buttons;
pub mod host_events;
pub mod pad_frame;
pub mod signal;
pub mod stun;
pub mod text;
pub mod video_frame;
pub mod wire;

pub use pad_frame::{PadCodecError, PadFrame, PAD_CHANNEL, PAD_MAGIC};
