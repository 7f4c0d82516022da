//! Couchlink co-play: wire formats, controller report parsing, and the host's
//! streaming decisions, each stated as a contract and proved.
pub mod host;
pub mod pad;
pub mod proto;

pub use proto::{PadCodecError, PadFrame, PAD_CHANNEL, PAD_MAGIC};
