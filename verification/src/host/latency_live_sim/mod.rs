//! Session replays: live-metric regressions of the host's governor and fan-out
//! accounting, run without a browser.
pub mod death_spiral;
pub mod governor;
