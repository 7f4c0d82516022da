//! Host side: the streaming decisions of the host.
pub mod capture;
pub mod capture_link;
pub mod config;
pub mod cursor;
pub mod emulator_keymap;
pub mod emulator_pad;
pub mod encode;
pub mod frame_loop;
pub mod invite;
pub mod latency;
pub mod latency_live_sim;
pub mod link_gov;
pub mod motion;
pub mod nat_punch;
pub mod ricardo_playable_ab;
pub mod scale;
pub mod session;
pub mod signaling_client;
pub mod wan3_math;
pub mod webrtc_peer;
