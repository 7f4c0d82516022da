//! The `/dev/uhid` event protocol of the virtual DualSense: the events the host
//! writes (create, input, destroy) and what it answers to the events the kernel
//! sends (output reports, get/set report requests).
use vstd::prelude::*;
use crate::pad::map_frame::{pad_frame_to_dualsense_usb_report, spec_dualsense_usb_report};
use crate::proto::pad_frame::PadFrame;
use vstd::string::StringSliceAdditionalSpecFns;
use crate::proto::wire::{le16, le32, push_u16_le, push_u32_le, read_u16_le, read_u32_le, u16_le, u32_le};

verus! {

pub const UHID_DESTROY: u32 = 1;
pub const UHID_OUTPUT: u32 = 6;
pub const UHID_GET_REPORT: u32 = 9;
pub const UHID_GET_REPORT_REPLY: u32 = 10;
pub const UHID_CREATE2: u32 = 11;
pub const UHID_INPUT2: u32 = 12;
pub const UHID_SET_REPORT: u32 = 13;
pub const UHID_SET_REPORT_REPLY: u32 = 14;

pub const BUS_USB: u16 = 0x03;
pub const BUS_BLUETOOTH: u16 = 0x05;

/// Offset of `uhid_event.u.create2.rd_data`: type, name, phys, uniq, rd_size, bus,
/// vendor, product, version, country.
pub const CREATE2_RD_DATA_OFF: usize = 4 + 128 + 64 + 64 + 2 + 2 + 4 + 4 + 4 + 4;

/// Size of the data field of an output request.
pub const UHID_DATA_MAX: usize = 4096;

/// Minimal identity needed to create the UHID device.
pub struct UhidIdentity<'a> {
    pub name: &'a str,
    pub vendor: u16,
    pub product: u16,
    pub version: u16,
    pub as_bluetooth: bool,
}

/// What the host does with one event read from `/dev/uhid`.
#[derive(Debug, Clone, PartialEq, Eq)]
pub enum UhidAction {
    /// Nothing to do.
    Ignore,
    /// A HID output report from the game, to forward to the friend's pad.
    Output(Vec<u8>),
    /// An event to write back to the kernel.
    Reply(Vec<u8>),
}

impl UhidAction {
    /// The action as a kind (0 nothing, 1 output report, 2 reply) and its bytes.
    pub open spec fn view_kind(&self) -> (int, Seq<u8>) {
        match self {
            UhidAction::Ignore => (0, seq![]),
            UhidAction::Output(v) => (1, v@),
            UhidAction::Reply(v) => (2, v@),
        }
    }
}

/// Bytes of an ASCII text.
pub open spec fn ascii_bytes(s: Seq<char>) -> Seq<u8> {
    s.map_values(|c: char| c as u8)
}

/// `bytes` zero-filled to `width`.
pub open spec fn zero_fill(bytes: Seq<u8>, width: int) -> Seq<u8> {
    bytes + Seq::new((width - bytes.len()) as nat, |i: int| 0u8)
}

/// The `UHID_CREATE2` event for a device named by the UTF-8 bytes `name` (at most
/// 127 of them kept) with report descriptor `rd`.
pub open spec fn spec_create2_event(
    name: Seq<u8>,
    vendor: u16,
    product: u16,
    version: u16,
    as_bluetooth: bool,
    rd: Seq<u8>,
) -> Seq<u8> {
    let kept = if name.len() < 127 { name.len() as int } else { 127 };
    u32_le(UHID_CREATE2) + zero_fill(name.take(kept), 128) + zero_fill(ascii_bytes("couchlink-uhid"@), 64)
        + zero_fill(ascii_bytes("couchlink-p2"@), 64) + u16_le((rd.len() % 65536) as u16) + u16_le(
        if as_bluetooth {
            BUS_BLUETOOTH
        } else {
            BUS_USB
        },
    ) + u32_le(vendor as u32) + u32_le(product as u32) + u32_le(version as u32) + u32_le(0) + rd
}

/// The answer to one event read from `/dev/uhid` (zero-extended by the reader).
pub open spec fn spec_uhid_action(raw: Seq<u8>) -> (int, Seq<u8>) {
    if raw.len() < 4 {
        (0, seq![])
    } else {
        let ty = le32(raw, 0);
        if ty == UHID_OUTPUT {
            if raw.len() < 4 + 4096 + 2 {
                (0, seq![])
            } else {
                let size = le16(raw, 4100);
                if size == 0 {
                    (0, seq![])
                } else {
                    let end = if size < 4096 { size } else { 4096 };
                    (1, raw.subrange(4, 4 + end))
                }
            }
        } else if ty == UHID_GET_REPORT {
            if raw.len() < 4 + 4 + 1 + 1 {
                (0, seq![])
            } else {
                (
                    2,
                    u32_le(UHID_GET_REPORT_REPLY) + raw.subrange(4, 8) + u16_le(0) + u16_le(1) + seq![raw[8]]
                        + Seq::new(63, |i: int| 0u8),
                )
            }
        } else if ty == UHID_SET_REPORT {
            if raw.len() < 4 + 4 {
                (0, seq![])
            } else {
                (2, u32_le(UHID_SET_REPORT_REPLY) + raw.subrange(4, 8) + u16_le(0))
            }
        } else {
            (0, seq![])
        }
    }
}

fn push_ascii(out: &mut Vec<u8>, lit: &str)
    requires
        forall|i: int| 0 <= i < lit@.len() ==> (#[trigger] lit@[i] as u32) < 128,
    ensures
        final(out)@ == old(out)@ + ascii_bytes(lit@),
{
    let n = lit.unicode_len();
    let mut i: usize = 0;
    while i < n
        invariant
            i <= n,
            n == lit@.len(),
            forall|j: int| 0 <= j < lit@.len() ==> (#[trigger] lit@[j] as u32) < 128,
            out@ == old(out)@ + ascii_bytes(lit@.take(i as int)),
        decreases n - i,
    {
        let c = lit.get_char(i);
        assert(lit@.take(i + 1) =~= lit@.take(i as int).push(c));
        out.push(c as u8);
        i += 1;
        assert(out@ =~= old(out)@ + ascii_bytes(lit@.take(i as int)));
    }
    assert(lit@.take(n as int) =~= lit@);
}

fn push_zeros(out: &mut Vec<u8>, n: usize)
    ensures
        final(out)@ == old(out)@ + Seq::new(n as nat, |i: int| 0u8),
{
    let mut i: usize = 0;
    while i < n
        invariant
            i <= n,
            out@ == old(out)@ + Seq::new(i as nat, |k: int| 0u8),
        decreases n - i,
    {
        out.push(0);
        i += 1;
        assert(out@ =~= old(out)@ + Seq::new(i as nat, |k: int| 0u8));
    }
}

fn push_bytes(out: &mut Vec<u8>, src: &[u8], from: usize, to: usize)
    requires
        from <= to <= src@.len(),
    ensures
        final(out)@ == old(out)@ + src@.subrange(from as int, to as int),
{
    let mut i = from;
    while i < to
        invariant
            from <= i <= to,
            to <= src@.len(),
            out@ == old(out)@ + src@.subrange(from as int, i as int),
        decreases to - i,
    {
        out.push(src[i]);
        i += 1;
        assert(out@ =~= old(out)@ + src@.subrange(from as int, i as int));
    }
}

/// The `UHID_CREATE2` event that creates the virtual pad with report descriptor `rd`.
pub fn create2_event(id: &UhidIdentity, rd: &[u8]) -> (ev: Vec<u8>)
    ensures
        ev@ == spec_create2_event(id.name.spec_bytes(), id.vendor, id.product, id.version, id.as_bluetooth, rd@),
        ev@.len() == CREATE2_RD_DATA_OFF + rd@.len(),
{
    let name = id.name.as_bytes();
    let n: usize = if name.len() < 127 { name.len() } else { 127 };
    let mut ev: Vec<u8> = Vec::new();
    push_u32_le(&mut ev, UHID_CREATE2);
    push_bytes(&mut ev, name, 0, n);
    push_zeros(&mut ev, 128 - n);
    proof {
        reveal_strlit("couchlink-uhid");
        reveal_strlit("couchlink-p2");
    }
    push_ascii(&mut ev, "couchlink-uhid");
    push_zeros(&mut ev, 64 - 14);
    push_ascii(&mut ev, "couchlink-p2");
    push_zeros(&mut ev, 64 - 12);
    push_u16_le(&mut ev, (rd.len() % 65536) as u16);
    push_u16_le(&mut ev, if id.as_bluetooth { BUS_BLUETOOTH } else { BUS_USB });
    push_u32_le(&mut ev, id.vendor as u32);
    push_u32_le(&mut ev, id.product as u32);
    push_u32_le(&mut ev, id.version as u32);
    push_u32_le(&mut ev, 0);
    push_bytes(&mut ev, rd, 0, rd.len());
    let ghost nb = id.name.spec_bytes();
    assert(nb.subrange(0, n as int) =~= nb.take(n as int));
    assert(rd@.subrange(0, rd@.len() as int) =~= rd@);
    assert(ev@ =~= spec_create2_event(nb, id.vendor, id.product, id.version, id.as_bluetooth, rd@));
    ev
}

/// The `UHID_INPUT2` event carrying `frame` as a DualSense USB input report.
pub fn input2_event(frame: &PadFrame) -> (ev: Vec<u8>)
    ensures
        ev@ == u32_le(UHID_INPUT2) + u16_le(64) + spec_dualsense_usb_report(*frame),
{
    let report = pad_frame_to_dualsense_usb_report(frame);
    let mut ev: Vec<u8> = Vec::new();
    push_u32_le(&mut ev, UHID_INPUT2);
    push_u16_le(&mut ev, 64);
    push_bytes(&mut ev, &report, 0, 64);
    assert(report@.subrange(0, 64) =~= report@);
    ev
}

/// The `UHID_DESTROY` event.
pub fn destroy_event() -> (ev: Vec<u8>)
    ensures
        ev@ == u32_le(UHID_DESTROY),
{
    let mut ev: Vec<u8> = Vec::new();
    push_u32_le(&mut ev, UHID_DESTROY);
    ev
}

/// What to do with one event read from `/dev/uhid`: forward an output report,
/// answer a get/set report request with success, or nothing.
pub fn handle_event(raw: &[u8]) -> (r: UhidAction)
    ensures
        r.view_kind() == spec_uhid_action(raw@),
{
    if raw.len() < 4 {
        return UhidAction::Ignore;
    }
    let ty = read_u32_le(raw, 0);
    if ty == UHID_OUTPUT {
        if raw.len() < 4 + 4096 + 2 {
            return UhidAction::Ignore;
        }
        let size = read_u16_le(raw, 4 + 4096) as usize;
        if size == 0 {
            return UhidAction::Ignore;
        }
        let end: usize = if size < 4096 { size } else { 4096 };
        let mut out: Vec<u8> = Vec::new();
        push_bytes(&mut out, raw, 4, 4 + end);
        assert(out@ =~= raw@.subrange(4, 4 + end));
        UhidAction::Output(out)
    } else if ty == UHID_GET_REPORT {
        if raw.len() < 4 + 4 + 1 + 1 {
            return UhidAction::Ignore;
        }
        let mut reply: Vec<u8> = Vec::new();
        push_u32_le(&mut reply, UHID_GET_REPORT_REPLY);
        push_bytes(&mut reply, raw, 4, 8);
        push_u16_le(&mut reply, 0);
        push_u16_le(&mut reply, 1);
        reply.push(raw[8]);
        push_zeros(&mut reply, 63);
        assert(reply@ =~= u32_le(UHID_GET_REPORT_REPLY) + raw@.subrange(4, 8) + u16_le(0) + u16_le(1) + seq![
            raw@[8],
        ] + Seq::new(63, |i: int| 0u8));
        UhidAction::Reply(reply)
    } else if ty == UHID_SET_REPORT {
        if raw.len() < 4 + 4 {
            return UhidAction::Ignore;
        }
        let mut reply: Vec<u8> = Vec::new();
        push_u32_le(&mut reply, UHID_SET_REPORT_REPLY);
        push_bytes(&mut reply, raw, 4, 8);
        push_u16_le(&mut reply, 0);
        UhidAction::Reply(reply)
    } else {
        UhidAction::Ignore
    }
}

} // verus!
