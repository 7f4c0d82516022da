//! The virtual DualSense the host presents as a Bluetooth gamepad: its identity,
//! the backend choice, and the order in which the Linux backends are tried (VHID
//! companion, then `/dev/uhid`, then `uinput`).
use vstd::prelude::*;
use crate::pad::devices::{DUALSENSE_PRODUCT_NAME, PID_DUALSENSE, SONY_VID};
use vstd::string::StringSliceAdditionalSpecFns;
use crate::proto::buttons;
use crate::proto::pad_frame::{PadFeedback, PadFrame};
use crate::proto::text::{ascii_lower, ascii_lower_range, chars_of, eq_lit};

verus! {

#[derive(Debug, Clone, Copy, PartialEq, Eq, Structural)]
pub enum VirtualPadBackend {
    /// The VHID companion first, then the platform fallbacks.
    Auto,
    DualSense,
    Ds4,
    Xbox360,
    Noop,
}

/// The backend a `COUCHLINK_VIRTUAL_PAD` value names (any ASCII case); anything
/// else is `Auto`.
pub open spec fn spec_backend_from_name(name: Seq<char>) -> VirtualPadBackend {
    let l = ascii_lower(name);
    if l == "dualsense"@ || l == "ds"@ || l == "ds5"@ {
        VirtualPadBackend::DualSense
    } else if l == "ds4"@ || l == "dualshock4"@ || l == "ps4"@ {
        VirtualPadBackend::Ds4
    } else if l == "xbox"@ || l == "xbox360"@ || l == "x360"@ {
        VirtualPadBackend::Xbox360
    } else if l == "noop"@ || l == "none"@ || l == "off"@ {
        VirtualPadBackend::Noop
    } else {
        VirtualPadBackend::Auto
    }
}

impl VirtualPadBackend {
    /// The backend named by a `COUCHLINK_VIRTUAL_PAD` value.
    pub fn from_name(name: &str) -> (r: Self)
        ensures
            r == spec_backend_from_name(name@),
    {
        let v = chars_of(name);
        let l = ascii_lower_range(&v, 0, v.len());
        assert(v@.subrange(0, v@.len() as int) =~= v@);
        if eq_lit(&l, "dualsense") || eq_lit(&l, "ds") || eq_lit(&l, "ds5") {
            VirtualPadBackend::DualSense
        } else if eq_lit(&l, "ds4") || eq_lit(&l, "dualshock4") || eq_lit(&l, "ps4") {
            VirtualPadBackend::Ds4
        } else if eq_lit(&l, "xbox") || eq_lit(&l, "xbox360") || eq_lit(&l, "x360") {
            VirtualPadBackend::Xbox360
        } else if eq_lit(&l, "noop") || eq_lit(&l, "none") || eq_lit(&l, "off") {
            VirtualPadBackend::Noop
        } else {
            VirtualPadBackend::Auto
        }
    }
}

#[derive(Debug, Clone)]
pub struct VirtualPadConfig {
    pub name: String,
    pub vendor: u16,
    pub product: u16,
    pub version: u16,
    /// Bluetooth bus type, so udev and emulators treat the pad as wireless.
    pub as_bluetooth: bool,
    pub backend: VirtualPadBackend,
}

impl VirtualPadConfig {
    /// The host's pad identity: a Bluetooth DualSense, on `backend`.
    pub fn with_backend(backend: VirtualPadBackend) -> (c: Self)
        ensures
            c.name@ == DUALSENSE_PRODUCT_NAME@,
            c.vendor == SONY_VID,
            c.product == PID_DUALSENSE,
            c.version == 0x0111,
            c.as_bluetooth,
            c.backend == backend,
    {
        VirtualPadConfig {
            name: DUALSENSE_PRODUCT_NAME.to_string(),
            vendor: SONY_VID,
            product: PID_DUALSENSE,
            version: 0x0111,
            as_bluetooth: true,
            backend,
        }
    }
}

/// `COUCHLINK_DS_VHID` asks for the companion: `1`, `tcp`, `force` or `auto` in any
/// ASCII case.
pub open spec fn spec_vhid_env_enabled(value: Seq<char>) -> bool {
    let l = ascii_lower(value);
    l == "1"@ || l == "tcp"@ || l == "force"@ || l == "auto"@
}

/// Whether a `COUCHLINK_DS_VHID` value asks for the companion.
pub fn vhid_env_enabled(value: &str) -> (r: bool)
    ensures
        r == spec_vhid_env_enabled(value@),
{
    let v = chars_of(value);
    let l = ascii_lower_range(&v, 0, v.len());
    assert(v@.subrange(0, v@.len() as int) =~= v@);
    eq_lit(&l, "1") || eq_lit(&l, "tcp") || eq_lit(&l, "force") || eq_lit(&l, "auto")
}

/// Which Linux backends to try for a configured pad, in order.
#[derive(Debug, Clone, Copy, PartialEq, Eq, Structural)]
pub struct LinuxPadPlan {
    /// Inject nothing.
    pub noop: bool,
    /// Try the VHID companion first.
    pub try_vhid: bool,
    /// A companion that cannot be reached is an error, not a reason to fall back.
    pub vhid_required: bool,
    /// Try `/dev/uhid` before `uinput`.
    pub try_uhid: bool,
}

/// The Linux backend order for `backend`, given whether `COUCHLINK_DS_VHID` asks for
/// the companion, whether this is WSL, and whether `/dev/uhid` exists. `uinput` is
/// always the last resort.
pub fn linux_pad_plan(backend: VirtualPadBackend, env_vhid: bool, wsl: bool, uhid_available: bool) -> (p: LinuxPadPlan)
    ensures
        p.noop == (backend == VirtualPadBackend::Noop),
        !p.noop ==> p.try_vhid == (backend == VirtualPadBackend::DualSense || env_vhid || (backend
            == VirtualPadBackend::Auto && wsl)),
        !p.noop ==> p.vhid_required == (backend == VirtualPadBackend::DualSense && wsl),
        !p.noop ==> p.try_uhid == ((backend == VirtualPadBackend::Auto || backend == VirtualPadBackend::DualSense)
            && uhid_available),
        p.noop ==> !p.try_vhid && !p.vhid_required && !p.try_uhid,
{
    match backend {
        VirtualPadBackend::Noop => LinuxPadPlan { noop: true, try_vhid: false, vhid_required: false, try_uhid: false },
        _ => {
            let is_ds = match backend {
                VirtualPadBackend::DualSense => true,
                _ => false,
            };
            let is_auto = match backend {
                VirtualPadBackend::Auto => true,
                _ => false,
            };
            LinuxPadPlan {
                noop: false,
                try_vhid: is_ds || env_vhid || (is_auto && wsl),
                vhid_required: is_ds && wsl,
                try_uhid: (is_auto || is_ds) && uhid_available,
            }
        },
    }
}

/// An absolute axis range for the `uinput` device.
#[derive(Debug, Clone, Copy, PartialEq, Eq, Structural)]
pub struct AbsRange {
    pub min: i32,
    pub max: i32,
    pub fuzz: i32,
    pub flat: i32,
}

/// Stick axes: 0 to 255 with a small flat zone around the centre.
pub fn stick_range() -> (r: AbsRange)
    ensures
        r == (AbsRange { min: 0, max: 255, fuzz: 0, flat: 15 }),
{
    AbsRange { min: 0, max: 255, fuzz: 0, flat: 15 }
}

/// Trigger axes: 0 to 255.
pub fn trigger_range() -> (r: AbsRange)
    ensures
        r == (AbsRange { min: 0, max: 255, fuzz: 0, flat: 0 }),
{
    AbsRange { min: 0, max: 255, fuzz: 0, flat: 0 }
}

pub const EV_SYN: u16 = 0x00;
pub const EV_KEY: u16 = 0x01;
pub const EV_ABS: u16 = 0x03;
pub const SYN_REPORT: u16 = 0;

pub const BTN_SOUTH: u16 = 0x130;
pub const BTN_EAST: u16 = 0x131;
pub const BTN_NORTH: u16 = 0x133;
pub const BTN_WEST: u16 = 0x134;
pub const BTN_TL: u16 = 0x136;
pub const BTN_TR: u16 = 0x137;
pub const BTN_TL2: u16 = 0x138;
pub const BTN_TR2: u16 = 0x139;
pub const BTN_SELECT: u16 = 0x13a;
pub const BTN_START: u16 = 0x13b;
pub const BTN_MODE: u16 = 0x13c;
pub const BTN_THUMBL: u16 = 0x13d;
pub const BTN_THUMBR: u16 = 0x13e;
pub const BTN_DPAD_UP: u16 = 0x220;
pub const BTN_DPAD_DOWN: u16 = 0x221;
pub const BTN_DPAD_LEFT: u16 = 0x222;
pub const BTN_DPAD_RIGHT: u16 = 0x223;

pub const ABS_X: u16 = 0x00;
pub const ABS_Y: u16 = 0x01;
pub const ABS_Z: u16 = 0x02;
pub const ABS_RX: u16 = 0x03;
pub const ABS_RY: u16 = 0x04;
pub const ABS_RZ: u16 = 0x05;

/// A key event: pressed is 1, released 0.
pub open spec fn key_event(code: u16, b: u32, bit: u32) -> (u16, u16, i32) {
    (EV_KEY, code, if b & bit != 0 { 1i32 } else { 0i32 })
}

/// The `uinput` events that present one frame: every button as a key, the sticks
/// and triggers as absolute axes, then a sync report.
pub open spec fn spec_uinput_events(f: PadFrame) -> Seq<(u16, u16, i32)> {
    let b = f.buttons;
    seq![
        key_event(BTN_WEST, b, buttons::SQUARE),
        key_event(BTN_SOUTH, b, buttons::CROSS),
        key_event(BTN_EAST, b, buttons::CIRCLE),
        key_event(BTN_NORTH, b, buttons::TRIANGLE),
        key_event(BTN_TL, b, buttons::L1),
        key_event(BTN_TR, b, buttons::R1),
        key_event(BTN_TL2, b, buttons::L2),
        key_event(BTN_TR2, b, buttons::R2),
        key_event(BTN_SELECT, b, buttons::CREATE),
        key_event(BTN_START, b, buttons::OPTIONS),
        key_event(BTN_THUMBL, b, buttons::L3),
        key_event(BTN_THUMBR, b, buttons::R3),
        key_event(BTN_MODE, b, buttons::PS),
        key_event(BTN_DPAD_UP, b, buttons::DPAD_UP),
        key_event(BTN_DPAD_DOWN, b, buttons::DPAD_DOWN),
        key_event(BTN_DPAD_LEFT, b, buttons::DPAD_LEFT),
        key_event(BTN_DPAD_RIGHT, b, buttons::DPAD_RIGHT),
        (EV_ABS, ABS_X, f.lx as i32),
        (EV_ABS, ABS_Y, f.ly as i32),
        (EV_ABS, ABS_RX, f.rx as i32),
        (EV_ABS, ABS_RY, f.ry as i32),
        (EV_ABS, ABS_Z, f.l2 as i32),
        (EV_ABS, ABS_RZ, f.r2 as i32),
        (EV_SYN, SYN_REPORT, 0i32),
    ]
}

fn push_key(out: &mut Vec<(u16, u16, i32)>, code: u16, b: u32, bit: u32)
    ensures
        final(out)@ == old(out)@.push(key_event(code, b, bit)),
{
    out.push((EV_KEY, code, if b & bit != 0 { 1 } else { 0 }));
}

/// The `uinput` events (type, code, value) that inject `frame` into the pad.
pub fn uinput_events(frame: &PadFrame) -> (r: Vec<(u16, u16, i32)>)
    ensures
        r@ == spec_uinput_events(*frame),
{
    let b = frame.buttons;
    let mut out: Vec<(u16, u16, i32)> = Vec::new();
    push_key(&mut out, BTN_WEST, b, buttons::SQUARE);
    push_key(&mut out, BTN_SOUTH, b, buttons::CROSS);
    push_key(&mut out, BTN_EAST, b, buttons::CIRCLE);
    push_key(&mut out, BTN_NORTH, b, buttons::TRIANGLE);
    push_key(&mut out, BTN_TL, b, buttons::L1);
    push_key(&mut out, BTN_TR, b, buttons::R1);
    push_key(&mut out, BTN_TL2, b, buttons::L2);
    push_key(&mut out, BTN_TR2, b, buttons::R2);
    push_key(&mut out, BTN_SELECT, b, buttons::CREATE);
    push_key(&mut out, BTN_START, b, buttons::OPTIONS);
    push_key(&mut out, BTN_THUMBL, b, buttons::L3);
    push_key(&mut out, BTN_THUMBR, b, buttons::R3);
    push_key(&mut out, BTN_MODE, b, buttons::PS);
    push_key(&mut out, BTN_DPAD_UP, b, buttons::DPAD_UP);
    push_key(&mut out, BTN_DPAD_DOWN, b, buttons::DPAD_DOWN);
    push_key(&mut out, BTN_DPAD_LEFT, b, buttons::DPAD_LEFT);
    push_key(&mut out, BTN_DPAD_RIGHT, b, buttons::DPAD_RIGHT);
    out.push((EV_ABS, ABS_X, frame.lx as i32));
    out.push((EV_ABS, ABS_Y, frame.ly as i32));
    out.push((EV_ABS, ABS_RX, frame.rx as i32));
    out.push((EV_ABS, ABS_RY, frame.ry as i32));
    out.push((EV_ABS, ABS_Z, frame.l2 as i32));
    out.push((EV_ABS, ABS_RZ, frame.r2 as i32));
    out.push((EV_SYN, SYN_REPORT, 0));
    assert(out@ =~= spec_uinput_events(*frame));
    out
}

/// The 80-byte `uinput` device name: the UTF-8 bytes of `name`, at most 79 of
/// them, zero-filled.
pub fn uinput_name(name: &str) -> (r: [u8; 80])
    ensures
        forall|i: int| 0 <= i < 80 ==> #[trigger] r@[i] == (if i < 79 && i < name.spec_bytes().len() {
            name.spec_bytes()[i]
        } else {
            0u8
        }),
{
    let bytes = name.as_bytes();
    let n: usize = if bytes.len() < 79 { bytes.len() } else { 79 };
    let mut r = [0u8; 80];
    let mut i: usize = 0;
    while i < n
        invariant
            i <= n,
            n <= 79,
            n <= bytes@.len(),
            bytes@ == name.spec_bytes(),
            n == (if bytes@.len() < 79 { bytes@.len() } else { 79 }),
            forall|k: int| 0 <= k < i ==> #[trigger] r@[k] == bytes@[k],
            forall|k: int| i <= k < 80 ==> #[trigger] r@[k] == 0u8,
        decreases n - i,
    {
        r[i] = bytes[i];
        i += 1;
    }
    r
}

/// A Windows virtual pad backend.
#[derive(Debug, Clone, Copy, PartialEq, Eq, Structural)]
pub enum WindowsPadKind {
    /// The DualSense VHID companion.
    DualSenseVhid,
    /// ViGEm DualShock 4.
    VigemDs4,
    /// ViGEm Xbox 360.
    VigemXbox360,
}

/// The Windows backends to try for `backend`, in order (none for `Noop`): `Auto`
/// tries the companion, then ViGEm DualShock 4, then ViGEm Xbox 360; an explicit
/// backend is the only one tried.
pub open spec fn spec_windows_backend_order(backend: VirtualPadBackend) -> Seq<WindowsPadKind> {
    match backend {
        VirtualPadBackend::Noop => seq![],
        VirtualPadBackend::DualSense => seq![WindowsPadKind::DualSenseVhid],
        VirtualPadBackend::Ds4 => seq![WindowsPadKind::VigemDs4],
        VirtualPadBackend::Xbox360 => seq![WindowsPadKind::VigemXbox360],
        VirtualPadBackend::Auto => seq![
            WindowsPadKind::DualSenseVhid,
            WindowsPadKind::VigemDs4,
            WindowsPadKind::VigemXbox360,
        ],
    }
}

/// The Windows backends to try for `backend`, in order.
pub fn windows_backend_order(backend: VirtualPadBackend) -> (r: Vec<WindowsPadKind>)
    ensures
        r@ == spec_windows_backend_order(backend),
{
    let mut v: Vec<WindowsPadKind> = Vec::new();
    match backend {
        VirtualPadBackend::Noop => {},
        VirtualPadBackend::DualSense => v.push(WindowsPadKind::DualSenseVhid),
        VirtualPadBackend::Ds4 => v.push(WindowsPadKind::VigemDs4),
        VirtualPadBackend::Xbox360 => v.push(WindowsPadKind::VigemXbox360),
        VirtualPadBackend::Auto => {
            v.push(WindowsPadKind::DualSenseVhid);
            v.push(WindowsPadKind::VigemDs4);
            v.push(WindowsPadKind::VigemXbox360);
        },
    }
    assert(v@ =~= spec_windows_backend_order(backend));
    v
}

/// A device that presents the virtual pad to games: the backends the host opens on
/// its platform (VHID companion, `/dev/uhid`, `uinput`, ViGEm) implement it.
pub trait PadDevice {
    /// Inject one pad state.
    fn apply(&mut self, frame: &PadFrame) -> Result<(), String>;

    /// Drain the game's output (rumble, lightbar, triggers) the device forwarded.
    fn poll_feedback(&mut self) -> Result<Vec<PadFeedback>, String>;
}

/// The host's virtual pad: a live device, or a no-op that accepts frames without
/// injecting them (a video-only host, or a host whose pad backend is unavailable).
pub enum VirtualPad<D> {
    Live(D),
    Noop,
}

impl<D: PadDevice> VirtualPad<D> {
    /// A pad over an opened device.
    pub fn live(device: D) -> (p: Self)
        ensures
            p == VirtualPad::Live(device),
    {
        VirtualPad::Live(device)
    }

    /// A pad that accepts frames but injects nothing.
    pub fn create_noop(cfg: VirtualPadConfig) -> (p: Self)
        ensures
            p is Noop,
    {
        let _ = cfg;
        VirtualPad::Noop
    }

    /// Inject `frame`: the device's answer for a live pad; the no-op accepts it.
    pub fn apply(&mut self, frame: &PadFrame) -> (r: Result<(), String>)
        ensures
            *old(self) is Noop ==> r is Ok && *final(self) is Noop,
            *old(self) is Live ==> *final(self) is Live,
    {
        match self {
            VirtualPad::Live(d) => d.apply(frame),
            VirtualPad::Noop => Ok(()),
        }
    }

    /// Game output forwarded by the device; none from the no-op.
    pub fn poll_feedback(&mut self) -> (r: Result<Vec<PadFeedback>, String>)
        ensures
            *old(self) is Noop ==> (r matches Ok(v) && v@.len() == 0) && *final(self) is Noop,
            *old(self) is Live ==> *final(self) is Live,
    {
        match self {
            VirtualPad::Live(d) => d.poll_feedback(),
            VirtualPad::Noop => Ok(Vec::new()),
        }
    }
}

} // verus!
