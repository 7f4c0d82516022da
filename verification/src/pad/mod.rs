//! Controller side: report parsers for physical pads, simulated reports, and the
//! framing towards the Windows virtual-pad companion.
pub mod devices;
pub mod feedback;
pub mod linux_uhid;
pub mod map_frame;
pub mod parse;
pub mod parse_ds4;
pub mod parse_steam;
pub mod parse_switch;
pub mod parse_xbox;
pub mod recognize;
pub mod sim;
pub mod vhid_client;
pub mod vhid_proto;
pub mod virtual_pad;
pub mod windows_pad;
