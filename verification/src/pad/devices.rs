//! Vendor and product ids of the controllers the client reads natively, from the
//! kernel drivers (`hid-playstation`, `hid-microsoft`/`xpad`, `hid-nintendo`,
//! `hid-steam`).
use vstd::prelude::*;

verus! {

pub const SONY_VID: u16 = 0x054C;
pub const PID_DUALSENSE: u16 = 0x0CE6;
pub const PID_DUALSENSE_EDGE: u16 = 0x0DF2;
/// Product string emulators expect of a DualSense.
pub const DUALSENSE_PRODUCT_NAME: &'static str = "DualSense Wireless Controller";
pub const USB_REPORT_LEN: usize = 64;
pub const BT_REPORT_LEN: usize = 78;

/// DualShock 4 (PS4) product ids: classified, but not read by the native reader.
pub const PID_DUALSHOCK4_V1: u16 = 0x05C4;
pub const PID_DUALSHOCK4_V2: u16 = 0x09CC;
pub const PID_DUALSHOCK4_DONGLE: u16 = 0x0BA0;
pub const DUALSHOCK4_PIDS: [u16; 3] = [PID_DUALSHOCK4_V1, PID_DUALSHOCK4_V2, PID_DUALSHOCK4_DONGLE];

pub const MICROSOFT_VID: u16 = 0x045E;
/// Xbox One S controller (USB).
pub const PID_XBOX_ONE_S: u16 = 0x02FD;
/// Xbox One S controller (Bluetooth).
pub const PID_XBOX_ONE_S_BT: u16 = 0x02E0;
/// Xbox Wireless Controller (model 1708 and later, USB).
pub const PID_XBOX_WIRELESS: u16 = 0x02FF;
/// Xbox Series X|S controller (USB).
pub const PID_XBOX_SERIES: u16 = 0x0B12;
/// Xbox Series X|S controller (Bluetooth).
pub const PID_XBOX_SERIES_BT: u16 = 0x0B13;
/// Xbox Elite Wireless Controller Series 2.
pub const PID_XBOX_ELITE_2: u16 = 0x0B00;
/// Known Xbox product ids, USB and Bluetooth pairings alike.
pub const XBOX_KNOWN_PIDS: [u16; 6] = [
    PID_XBOX_ONE_S,
    PID_XBOX_ONE_S_BT,
    PID_XBOX_WIRELESS,
    PID_XBOX_SERIES,
    PID_XBOX_SERIES_BT,
    PID_XBOX_ELITE_2,
];
pub const XBOX_PRODUCT_NAME: &'static str = "Xbox Wireless Controller";

pub const NINTENDO_VID: u16 = 0x057E;
/// Nintendo Switch Pro Controller.
pub const PID_SWITCH_PRO: u16 = 0x2009;
/// Joy-Con (L).
pub const PID_JOYCON_L: u16 = 0x2006;
/// Joy-Con (R).
pub const PID_JOYCON_R: u16 = 0x2007;
/// Joy-Con pair presented over a charging grip (USB).
pub const PID_JOYCON_CHARGE_GRIP: u16 = 0x2008;
pub const SWITCH_KNOWN_PIDS: [u16; 4] = [PID_SWITCH_PRO, PID_JOYCON_L, PID_JOYCON_R, PID_JOYCON_CHARGE_GRIP];
pub const SWITCH_PRODUCT_NAME: &'static str = "Nintendo Switch Pro Controller";

pub const VALVE_VID: u16 = 0x28DE;
/// Steam Controller wireless dongle.
pub const PID_STEAM_CONTROLLER_DONGLE: u16 = 0x1102;
/// Steam Controller over Bluetooth.
pub const PID_STEAM_CONTROLLER_BT: u16 = 0x1105;
/// Steam Controller wired / via the wireless receiver.
pub const PID_STEAM_CONTROLLER: u16 = 0x1106;
pub const STEAM_KNOWN_PIDS: [u16; 3] = [PID_STEAM_CONTROLLER_DONGLE, PID_STEAM_CONTROLLER_BT, PID_STEAM_CONTROLLER];
pub const STEAM_PRODUCT_NAME: &'static str = "Steam Controller";
/// Feature report commands that take a Steam Controller out of its mouse/keyboard
/// emulation into gamepad mode.
pub const ID_CLEAR_DIGITAL_MAPPINGS: u8 = 0x81;
pub const ID_SET_SETTINGS_VALUES: u8 = 0x87;
pub const SETTING_LEFT_TRACKPAD_MODE: u8 = 8;
pub const SETTING_RIGHT_TRACKPAD_MODE: u8 = 9;
/// Trackpad mode "none" disables the absolute-mouse emulation.
pub const TRACKPAD_MODE_NONE: u16 = 7;

/// Display label of a Nintendo controller by product id.
pub open spec fn spec_label_for_pid(pid: u16) -> Seq<char> {
    if pid == PID_JOYCON_L {
        "Joy-Con (L)"@
    } else if pid == PID_JOYCON_R {
        "Joy-Con (R)"@
    } else if pid == PID_JOYCON_CHARGE_GRIP {
        "Joy-Con Pair (Charging Grip)"@
    } else {
        SWITCH_PRODUCT_NAME@
    }
}

/// Per-controller display labels of Nintendo pads, keyed by pid (the Pro Controller
/// name for anything else).
pub fn label_for_pid(pid: u16) -> (r: &'static str)
    ensures
        r@ == spec_label_for_pid(pid),
{
    if pid == PID_JOYCON_L {
        "Joy-Con (L)"
    } else if pid == PID_JOYCON_R {
        "Joy-Con (R)"
    } else if pid == PID_JOYCON_CHARGE_GRIP {
        "Joy-Con Pair (Charging Grip)"
    } else {
        SWITCH_PRODUCT_NAME
    }
}

} // verus!
