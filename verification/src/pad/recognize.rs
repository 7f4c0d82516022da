//! Controller identity recognition: the vendor/product rules the native readers use
//! to decide a pad is one of ours. Every supported Xbox, DualSense, Switch and Steam
//! Controller product is accepted; lookalikes such as the DualShock 4 are classified
//! but not read natively.
use vstd::prelude::*;
use crate::pad::devices::{
    label_for_pid, spec_label_for_pid, DUALSENSE_PRODUCT_NAME, DUALSHOCK4_PIDS, MICROSOFT_VID,
    NINTENDO_VID, PID_DUALSENSE, PID_DUALSENSE_EDGE, PID_DUALSHOCK4_DONGLE, PID_DUALSHOCK4_V1,
    PID_DUALSHOCK4_V2, PID_XBOX_ELITE_2, PID_XBOX_ONE_S, PID_XBOX_ONE_S_BT, PID_XBOX_SERIES,
    PID_XBOX_SERIES_BT, PID_XBOX_WIRELESS, SONY_VID, STEAM_KNOWN_PIDS, STEAM_PRODUCT_NAME,
    SWITCH_KNOWN_PIDS, VALVE_VID, XBOX_KNOWN_PIDS, XBOX_PRODUCT_NAME,
};
use crate::proto::text::{
    chars_of, find_from, first_from, has_prefix, lemma_first_from_range, lit_at, parse_hex,
    push_range, spec_parse_hex, trim, trim_bounds,
};

verus! {

/// Which physical pad family a vendor/product pair maps to.
#[derive(Debug, Clone, Copy, PartialEq, Eq, Structural)]
pub enum ControllerFamily {
    Xbox,
    DualSense,
    /// PS4 DualShock 4: known, but the native reader does not parse it.
    DualShock4,
    Switch,
    SteamController,
    Unknown,
}

/// A named Xbox product accepted on the native path.
#[derive(Debug, Clone, Copy, PartialEq, Eq, Structural)]
pub enum XboxVariant {
    OneSUsb,
    OneSBluetooth,
    Wireless1708,
    SeriesUsb,
    SeriesBluetooth,
    EliteSeries2,
}

pub open spec fn spec_xbox_pid(v: XboxVariant) -> u16 {
    match v {
        XboxVariant::OneSUsb => PID_XBOX_ONE_S,
        XboxVariant::OneSBluetooth => PID_XBOX_ONE_S_BT,
        XboxVariant::Wireless1708 => PID_XBOX_WIRELESS,
        XboxVariant::SeriesUsb => PID_XBOX_SERIES,
        XboxVariant::SeriesBluetooth => PID_XBOX_SERIES_BT,
        XboxVariant::EliteSeries2 => PID_XBOX_ELITE_2,
    }
}

pub open spec fn spec_xbox_label(v: XboxVariant) -> Seq<char> {
    match v {
        XboxVariant::OneSUsb => "Xbox One S (USB)"@,
        XboxVariant::OneSBluetooth => "Xbox One S (Bluetooth)"@,
        XboxVariant::Wireless1708 => "Xbox Wireless Controller (1708+)"@,
        XboxVariant::SeriesUsb => "Xbox Series X|S (USB)"@,
        XboxVariant::SeriesBluetooth => "Xbox Series X|S (Bluetooth)"@,
        XboxVariant::EliteSeries2 => "Xbox Elite Wireless Series 2"@,
    }
}

/// Every Xbox variant, in the order of [`XBOX_KNOWN_PIDS`].
pub const XBOX_VARIANTS: [XboxVariant; 6] = [
    XboxVariant::OneSUsb,
    XboxVariant::OneSBluetooth,
    XboxVariant::Wireless1708,
    XboxVariant::SeriesUsb,
    XboxVariant::SeriesBluetooth,
    XboxVariant::EliteSeries2,
];

impl XboxVariant {
    pub fn pid(self) -> (r: u16)
        ensures
            r == spec_xbox_pid(self),
    {
        match self {
            XboxVariant::OneSUsb => PID_XBOX_ONE_S,
            XboxVariant::OneSBluetooth => PID_XBOX_ONE_S_BT,
            XboxVariant::Wireless1708 => PID_XBOX_WIRELESS,
            XboxVariant::SeriesUsb => PID_XBOX_SERIES,
            XboxVariant::SeriesBluetooth => PID_XBOX_SERIES_BT,
            XboxVariant::EliteSeries2 => PID_XBOX_ELITE_2,
        }
    }

    pub fn label(self) -> (r: &'static str)
        ensures
            r@ == spec_xbox_label(self),
    {
        match self {
            XboxVariant::OneSUsb => "Xbox One S (USB)",
            XboxVariant::OneSBluetooth => "Xbox One S (Bluetooth)",
            XboxVariant::Wireless1708 => "Xbox Wireless Controller (1708+)",
            XboxVariant::SeriesUsb => "Xbox Series X|S (USB)",
            XboxVariant::SeriesBluetooth => "Xbox Series X|S (Bluetooth)",
            XboxVariant::EliteSeries2 => "Xbox Elite Wireless Series 2",
        }
    }
}

pub open spec fn spec_is_supported_xbox(vid: u16, pid: u16) -> bool {
    vid == MICROSOFT_VID && XBOX_KNOWN_PIDS@.contains(pid)
}

pub open spec fn spec_is_supported_dualsense(vid: u16, pid: u16) -> bool {
    vid == SONY_VID && (pid == PID_DUALSENSE || pid == PID_DUALSENSE_EDGE)
}

pub open spec fn spec_is_dualshock4(vid: u16, pid: u16) -> bool {
    vid == SONY_VID && DUALSHOCK4_PIDS@.contains(pid)
}

pub open spec fn spec_is_supported_switch(vid: u16, pid: u16) -> bool {
    vid == NINTENDO_VID && SWITCH_KNOWN_PIDS@.contains(pid)
}

pub open spec fn spec_is_supported_steam_controller(vid: u16, pid: u16) -> bool {
    vid == VALVE_VID && STEAM_KNOWN_PIDS@.contains(pid)
}

pub open spec fn spec_is_native_supported(vid: u16, pid: u16) -> bool {
    spec_is_supported_xbox(vid, pid) || spec_is_supported_dualsense(vid, pid) || spec_is_supported_switch(
        vid,
        pid,
    ) || spec_is_supported_steam_controller(vid, pid)
}

pub open spec fn spec_classify(vid: u16, pid: u16) -> ControllerFamily {
    if spec_is_supported_xbox(vid, pid) {
        ControllerFamily::Xbox
    } else if spec_is_supported_dualsense(vid, pid) {
        ControllerFamily::DualSense
    } else if spec_is_dualshock4(vid, pid) {
        ControllerFamily::DualShock4
    } else if spec_is_supported_switch(vid, pid) {
        ControllerFamily::Switch
    } else if spec_is_supported_steam_controller(vid, pid) {
        ControllerFamily::SteamController
    } else {
        ControllerFamily::Unknown
    }
}

/// The Xbox variant with product id `pid`, if any.
pub open spec fn spec_xbox_variant(pid: u16) -> Option<XboxVariant> {
    if pid == PID_XBOX_ONE_S {
        Some(XboxVariant::OneSUsb)
    } else if pid == PID_XBOX_ONE_S_BT {
        Some(XboxVariant::OneSBluetooth)
    } else if pid == PID_XBOX_WIRELESS {
        Some(XboxVariant::Wireless1708)
    } else if pid == PID_XBOX_SERIES {
        Some(XboxVariant::SeriesUsb)
    } else if pid == PID_XBOX_SERIES_BT {
        Some(XboxVariant::SeriesBluetooth)
    } else if pid == PID_XBOX_ELITE_2 {
        Some(XboxVariant::EliteSeries2)
    } else {
        None
    }
}

/// Human label for logs and the tester UI.
pub open spec fn spec_product_label(vid: u16, pid: u16) -> Option<Seq<char>> {
    match spec_classify(vid, pid) {
        ControllerFamily::Xbox => Some(
            match spec_xbox_variant(pid) {
                Some(v) => spec_xbox_label(v),
                None => XBOX_PRODUCT_NAME@,
            },
        ),
        ControllerFamily::DualSense => Some(
            if pid == PID_DUALSENSE_EDGE {
                "DualSense Edge"@
            } else {
                DUALSENSE_PRODUCT_NAME@
            },
        ),
        ControllerFamily::DualShock4 => Some("DualShock 4"@),
        ControllerFamily::Switch => Some(spec_label_for_pid(pid)),
        ControllerFamily::SteamController => Some(STEAM_PRODUCT_NAME@),
        ControllerFamily::Unknown => None,
    }
}

/// True when `pid` is one of `pids`.
fn pid_in(pids: &[u16], pid: u16) -> (r: bool)
    ensures
        r == pids@.contains(pid),
{
    let mut i: usize = 0;
    while i < pids.len()
        invariant
            i <= pids@.len(),
            forall|k: int| 0 <= k < i ==> pids@[k] != pid,
        decreases pids.len() - i,
    {
        if pids[i] == pid {
            return true;
        }
        i += 1;
    }
    false
}

pub fn is_supported_xbox(vid: u16, pid: u16) -> (r: bool)
    ensures
        r == spec_is_supported_xbox(vid, pid),
{
    vid == MICROSOFT_VID && pid_in(&XBOX_KNOWN_PIDS, pid)
}

pub fn is_supported_dualsense(vid: u16, pid: u16) -> (r: bool)
    ensures
        r == spec_is_supported_dualsense(vid, pid),
{
    vid == SONY_VID && (pid == PID_DUALSENSE || pid == PID_DUALSENSE_EDGE)
}

pub fn is_dualshock4(vid: u16, pid: u16) -> (r: bool)
    ensures
        r == spec_is_dualshock4(vid, pid),
{
    vid == SONY_VID && pid_in(&DUALSHOCK4_PIDS, pid)
}

pub fn is_supported_switch(vid: u16, pid: u16) -> (r: bool)
    ensures
        r == spec_is_supported_switch(vid, pid),
{
    vid == NINTENDO_VID && pid_in(&SWITCH_KNOWN_PIDS, pid)
}

pub fn is_supported_steam_controller(vid: u16, pid: u16) -> (r: bool)
    ensures
        r == spec_is_supported_steam_controller(vid, pid),
{
    vid == VALVE_VID && pid_in(&STEAM_KNOWN_PIDS, pid)
}

/// Native hidraw capture accept list: Xbox, DualSense / Edge, Switch, Steam Controller.
/// A DualShock 4 is recognised and labelled but not on this list: it is read through
/// the browser's standard gamepad mapping, not natively.
pub fn is_native_supported(vid: u16, pid: u16) -> (r: bool)
    ensures
        r == spec_is_native_supported(vid, pid),
{
    is_supported_xbox(vid, pid) || is_supported_dualsense(vid, pid) || is_supported_switch(vid, pid)
        || is_supported_steam_controller(vid, pid)
}

pub fn xbox_variant(pid: u16) -> (r: Option<XboxVariant>)
    ensures
        r == spec_xbox_variant(pid),
{
    if pid == PID_XBOX_ONE_S {
        Some(XboxVariant::OneSUsb)
    } else if pid == PID_XBOX_ONE_S_BT {
        Some(XboxVariant::OneSBluetooth)
    } else if pid == PID_XBOX_WIRELESS {
        Some(XboxVariant::Wireless1708)
    } else if pid == PID_XBOX_SERIES {
        Some(XboxVariant::SeriesUsb)
    } else if pid == PID_XBOX_SERIES_BT {
        Some(XboxVariant::SeriesBluetooth)
    } else if pid == PID_XBOX_ELITE_2 {
        Some(XboxVariant::EliteSeries2)
    } else {
        None
    }
}

pub fn classify(vid: u16, pid: u16) -> (r: ControllerFamily)
    ensures
        r == spec_classify(vid, pid),
{
    if is_supported_xbox(vid, pid) {
        ControllerFamily::Xbox
    } else if is_supported_dualsense(vid, pid) {
        ControllerFamily::DualSense
    } else if is_dualshock4(vid, pid) {
        ControllerFamily::DualShock4
    } else if is_supported_switch(vid, pid) {
        ControllerFamily::Switch
    } else if is_supported_steam_controller(vid, pid) {
        ControllerFamily::SteamController
    } else {
        ControllerFamily::Unknown
    }
}

/// Human label for logs and the tester UI; `None` for an unknown pad.
pub fn product_label(vid: u16, pid: u16) -> (r: Option<&'static str>)
    ensures
        match r {
            Some(s) => spec_product_label(vid, pid) == Some(s@),
            None => spec_product_label(vid, pid) is None,
        },
{
    match classify(vid, pid) {
        ControllerFamily::Xbox => Some(
            match xbox_variant(pid) {
                Some(v) => v.label(),
                None => XBOX_PRODUCT_NAME,
            },
        ),
        ControllerFamily::DualSense => {
            if pid == PID_DUALSENSE_EDGE {
                Some("DualSense Edge")
            } else {
                Some(DUALSENSE_PRODUCT_NAME)
            }
        },
        ControllerFamily::DualShock4 => Some("DualShock 4"),
        ControllerFamily::Switch => Some(label_for_pid(pid)),
        ControllerFamily::SteamController => Some(STEAM_PRODUCT_NAME),
        ControllerFamily::Unknown => None,
    }
}

/// Every Xbox variant is recognised, classified as Xbox, and labelled by its own name.
pub proof fn lemma_xbox_variants_recognized(v: XboxVariant)
    ensures
        spec_is_supported_xbox(MICROSOFT_VID, spec_xbox_pid(v)),
        spec_classify(MICROSOFT_VID, spec_xbox_pid(v)) == ControllerFamily::Xbox,
        spec_xbox_variant(spec_xbox_pid(v)) == Some(v),
        spec_product_label(MICROSOFT_VID, spec_xbox_pid(v)) == Some(spec_xbox_label(v)),
{
    assert(XBOX_KNOWN_PIDS@[0] == PID_XBOX_ONE_S);
    assert(XBOX_KNOWN_PIDS@[1] == PID_XBOX_ONE_S_BT);
    assert(XBOX_KNOWN_PIDS@[2] == PID_XBOX_WIRELESS);
    assert(XBOX_KNOWN_PIDS@[3] == PID_XBOX_SERIES);
    assert(XBOX_KNOWN_PIDS@[4] == PID_XBOX_SERIES_BT);
    assert(XBOX_KNOWN_PIDS@[5] == PID_XBOX_ELITE_2);
}

/// A DualShock 4 is classified as such but never read natively.
pub proof fn lemma_dualshock4_not_native(pid: u16)
    requires
        DUALSHOCK4_PIDS@.contains(pid),
    ensures
        spec_classify(SONY_VID, pid) == ControllerFamily::DualShock4,
        !spec_is_native_supported(SONY_VID, pid),
        spec_product_label(SONY_VID, pid) == Some("DualShock 4"@),
{
    let i = choose|i: int| 0 <= i < 3 && DUALSHOCK4_PIDS@[i] == pid;
    assert(DUALSHOCK4_PIDS@[0] == PID_DUALSHOCK4_V1);
    assert(DUALSHOCK4_PIDS@[1] == PID_DUALSHOCK4_V2);
    assert(DUALSHOCK4_PIDS@[2] == PID_DUALSHOCK4_DONGLE);
}

/// The fields of a sysfs `HID_ID=BBBB:VVVVVVVV:PPPPPPPP` line: the trimmed line must
/// start with `HID_ID=`; the rest, cut at `:`, must give at least three pieces, the
/// first three each a hexadecimal `u16`.
pub open spec fn spec_parse_hid_id(line: Seq<char>) -> Option<(int, int, int)> {
    let t = trim(line);
    if !has_prefix(t, "HID_ID="@) {
        None
    } else {
        let raw = t.subrange(7, t.len() as int);
        let c1 = first_from(raw, ':', 0);
        let c2 = first_from(raw, ':', c1 + 1);
        let c3 = first_from(raw, ':', c2 + 1);
        let end = if c3 < 0 { raw.len() as int } else { c3 };
        if c1 < 0 || c2 < 0 {
            None
        } else {
            match (
                spec_parse_hex(raw.subrange(0, c1), 0xFFFF),
                spec_parse_hex(raw.subrange(c1 + 1, c2), 0xFFFF),
                spec_parse_hex(raw.subrange(c2 + 1, end), 0xFFFF),
            ) {
                (Some(bus), Some(vid), Some(pid)) => Some((bus, vid, pid)),
                _ => None,
            }
        }
    }
}

/// Parses a sysfs `HID_ID=BBBB:VVVVVVVV:PPPPPPPP` line into (bus, vendor, product).
pub fn parse_hid_id_line(line: &str) -> (r: Option<(u16, u16, u16)>)
    ensures
        match r {
            Some((bus, vid, pid)) => spec_parse_hid_id(line@) == Some((bus as int, vid as int, pid as int)),
            None => spec_parse_hid_id(line@) is None,
        },
{
    let v = chars_of(line);
    let (a, b) = trim_bounds(&v);
    let mut t: Vec<char> = Vec::new();
    push_range(&mut t, &v, a, b);
    assert(t@ =~= trim(line@));
    if !lit_at(&t, 0, "HID_ID=") {
        return None;
    }
    proof {
        reveal_strlit("HID_ID=");
    }
    let mut raw: Vec<char> = Vec::new();
    push_range(&mut raw, &t, 7, t.len());
    let n = raw.len();
    let c1 = match find_from(&raw, 0, ':') {
        None => {
            return None;
        },
        Some(i) => i,
    };
    proof {
        lemma_first_from_range(raw@, ':', 0);
    }
    let c2 = match find_from(&raw, c1 + 1, ':') {
        None => {
            return None;
        },
        Some(i) => i,
    };
    proof {
        lemma_first_from_range(raw@, ':', c1 + 1);
    }
    let c3 = find_from(&raw, c2 + 1, ':');
    proof {
        lemma_first_from_range(raw@, ':', c2 + 1);
    }
    let end: usize = match c3 {
        Some(i) => i,
        None => n,
    };
    let bus = parse_hex(&raw, 0, c1, 0xFFFF);
    let vid = parse_hex(&raw, c1 + 1, c2, 0xFFFF);
    let pid = parse_hex(&raw, c2 + 1, end, 0xFFFF);
    match (bus, vid, pid) {
        (Some(bus), Some(vid), Some(pid)) => Some((bus as u16, vid as u16, pid as u16)),
        _ => None,
    }
}

} // verus!
