//! DualSense VHID framing between the host and the Windows companion.
//!
//! Host to companion (input): `DSVH` + version + the 64-byte USB input report.
//! Companion to host (output): `DSVO` + version + `u16` LE length + HID output bytes.
use vstd::prelude::*;
use crate::proto::pad_frame::has_magic_at;
use crate::proto::wire::{le16, lemma_u16_le, push_u16_le, read_u16_le, u16_le};

verus! {

pub const DSVH_MAGIC: [u8; 4] = [0x44, 0x53, 0x56, 0x48];
pub const DSVO_MAGIC: [u8; 4] = [0x44, 0x53, 0x56, 0x4F];
pub const VHID_VERSION: u8 = 1;
pub const DS_USB_INPUT_LEN: usize = 64;
/// Default TCP port so WSL hosts can reach the Windows companion via localhost.
pub const VHID_TCP_PORT: u16 = 39251;
pub const VHID_PIPE_NAME: &'static str = "\\\\.\\pipe\\couchlink-ds-vhid";

#[derive(Debug, Clone, Copy, PartialEq, Eq, Structural)]
pub enum VhidCodecError {
    Short,
    BadMagic,
    BadVersion(u8),
}

/// `DSVH`.
pub open spec fn dsvh() -> Seq<u8> {
    seq![0x44u8, 0x53u8, 0x56u8, 0x48u8]
}

/// `DSVO`.
pub open spec fn dsvo() -> Seq<u8> {
    seq![0x44u8, 0x53u8, 0x56u8, 0x4Fu8]
}

/// The input frame carrying `report`.
pub open spec fn spec_encode_input(report: Seq<u8>) -> Seq<u8> {
    dsvh() + seq![1u8] + report
}

pub open spec fn spec_decode_input(s: Seq<u8>) -> Result<Seq<u8>, VhidCodecError> {
    if s.len() < 69 {
        Err(VhidCodecError::Short)
    } else if s.subrange(0, 4) != dsvh() {
        Err(VhidCodecError::BadMagic)
    } else if s[4] != 1 {
        Err(VhidCodecError::BadVersion(s[4]))
    } else {
        Ok(s.subrange(5, 69))
    }
}

/// The output frame carrying `report`, cut to the 65535 bytes a `u16` length can describe.
pub open spec fn spec_encode_output(report: Seq<u8>) -> Seq<u8> {
    let n = if report.len() <= 65535 { report.len() } else { 65535 };
    dsvo() + seq![1u8] + u16_le(n as u16) + report.subrange(0, n as int)
}

pub open spec fn spec_decode_output(s: Seq<u8>) -> Result<Seq<u8>, VhidCodecError> {
    if s.len() < 7 {
        Err(VhidCodecError::Short)
    } else if s.subrange(0, 4) != dsvo() {
        Err(VhidCodecError::BadMagic)
    } else if s[4] != 1 {
        Err(VhidCodecError::BadVersion(s[4]))
    } else if s.len() < 7 + le16(s, 5) {
        Err(VhidCodecError::Short)
    } else {
        Ok(s.subrange(7, 7 + le16(s, 5)))
    }
}

/// One step of reading output frames from a stream buffer: the frame taken (if a
/// whole one is at the front) and what the buffer holds afterwards. A buffer whose
/// head is not a `DSVO` v1 header loses one byte so the reader can resync.
pub open spec fn spec_take_output(s: Seq<u8>) -> (Option<Seq<u8>>, Seq<u8>) {
    if s.len() < 7 {
        (None, s)
    } else if s.subrange(0, 4) != dsvo() || s[4] != 1 {
        (None, s.subrange(1, s.len() as int))
    } else if s.len() < 7 + le16(s, 5) {
        (None, s)
    } else {
        (Some(s.subrange(7, 7 + le16(s, 5))), s.subrange(7 + le16(s, 5), s.len() as int))
    }
}

pub fn encode_input(report: &[u8; DS_USB_INPUT_LEN]) -> (r: Vec<u8>)
    ensures
        r@ == spec_encode_input(report@),
{
    let mut buf: Vec<u8> = Vec::with_capacity(4 + 1 + DS_USB_INPUT_LEN);
    buf.push(0x44);
    buf.push(0x53);
    buf.push(0x56);
    buf.push(0x48);
    buf.push(VHID_VERSION);
    let mut i: usize = 0;
    while i < DS_USB_INPUT_LEN
        invariant
            i <= DS_USB_INPUT_LEN,
            report@.len() == DS_USB_INPUT_LEN,
            buf@ == dsvh() + seq![1u8] + report@.subrange(0, i as int),
        decreases DS_USB_INPUT_LEN - i,
    {
        buf.push(report[i]);
        i += 1;
        assert(buf@ =~= dsvh() + seq![1u8] + report@.subrange(0, i as int));
    }
    assert(report@.subrange(0, 64) =~= report@);
    buf
}

pub fn decode_input(buf: &[u8]) -> (r: Result<[u8; DS_USB_INPUT_LEN], VhidCodecError>)
    ensures
        match (r, spec_decode_input(buf@)) {
            (Ok(a), Ok(s)) => a@ == s,
            (Err(e), Err(f)) => e == f,
            _ => false,
        },
{
    if buf.len() < 4 + 1 + DS_USB_INPUT_LEN {
        return Err(VhidCodecError::Short);
    }
    assert(DSVH_MAGIC@ =~= dsvh());
    if !has_magic_at(buf, 0, DSVH_MAGIC) {
        return Err(VhidCodecError::BadMagic);
    }
    if buf[4] != VHID_VERSION {
        return Err(VhidCodecError::BadVersion(buf[4]));
    }
    let mut report = [0u8; DS_USB_INPUT_LEN];
    let mut i: usize = 0;
    while i < DS_USB_INPUT_LEN
        invariant
            i <= DS_USB_INPUT_LEN,
            buf@.len() >= 69,
            report@.len() == DS_USB_INPUT_LEN,
            forall|k: int| 0 <= k < i ==> report@[k] == buf@[5 + k],
        decreases DS_USB_INPUT_LEN - i,
    {
        report[i] = buf[5 + i];
        i += 1;
    }
    assert(report@ =~= buf@.subrange(5, 69));
    Ok(report)
}

pub fn encode_output(report: &[u8]) -> (r: Vec<u8>)
    ensures
        r@ == spec_encode_output(report@),
{
    let len: usize = if report.len() <= 65535 { report.len() } else { 65535 };
    let mut buf: Vec<u8> = Vec::with_capacity(4 + 1 + 2 + len);
    buf.push(0x44);
    buf.push(0x53);
    buf.push(0x56);
    buf.push(0x4F);
    buf.push(VHID_VERSION);
    push_u16_le(&mut buf, len as u16);
    let ghost head = buf@;
    let mut i: usize = 0;
    while i < len
        invariant
            i <= len,
            len <= report@.len(),
            buf@ == head + report@.subrange(0, i as int),
        decreases len - i,
    {
        buf.push(report[i]);
        i += 1;
        assert(buf@ =~= head + report@.subrange(0, i as int));
    }
    assert(buf@ =~= spec_encode_output(report@));
    buf
}

pub fn decode_output(buf: &[u8]) -> (r: Result<Vec<u8>, VhidCodecError>)
    ensures
        match (r, spec_decode_output(buf@)) {
            (Ok(v), Ok(s)) => v@ == s,
            (Err(e), Err(f)) => e == f,
            _ => false,
        },
{
    if buf.len() < 4 + 1 + 2 {
        return Err(VhidCodecError::Short);
    }
    assert(DSVO_MAGIC@ =~= dsvo());
    if !has_magic_at(buf, 0, DSVO_MAGIC) {
        return Err(VhidCodecError::BadMagic);
    }
    if buf[4] != VHID_VERSION {
        return Err(VhidCodecError::BadVersion(buf[4]));
    }
    let len = read_u16_le(buf, 5) as usize;
    if buf.len() - 7 < len {
        return Err(VhidCodecError::Short);
    }
    Ok(copy_range(buf, 7, 7 + len))
}

/// `buf[from..to]` as a new vector.
fn copy_range(buf: &[u8], from: usize, to: usize) -> (r: Vec<u8>)
    requires
        from <= to <= buf@.len(),
    ensures
        r@ == buf@.subrange(from as int, to as int),
{
    let mut out: Vec<u8> = Vec::with_capacity(to - from);
    let mut i = from;
    while i < to
        invariant
            from <= i <= to,
            to <= buf@.len(),
            out@ == buf@.subrange(from as int, i as int),
        decreases to - i,
    {
        out.push(buf[i]);
        i += 1;
        assert(out@ =~= buf@.subrange(from as int, i as int));
    }
    out
}

/// Take the next complete `DSVO` frame from the front of a stream buffer, leaving the
/// remainder; on a bad header drop one byte so the stream can resync.
pub fn take_output_frame(buf: &mut Vec<u8>) -> (r: Option<Vec<u8>>)
    ensures
        (match r {
            Some(v) => Some(v@),
            None => None,
        }, final(buf)@) == spec_take_output(old(buf)@),
{
    if buf.len() < 7 {
        return None;
    }
    assert(DSVO_MAGIC@ =~= dsvo());
    if !has_magic_at(buf.as_slice(), 0, DSVO_MAGIC) || buf[4] != VHID_VERSION {
        buf.remove(0);
        assert(buf@ =~= old(buf)@.subrange(1, old(buf)@.len() as int));
        return None;
    }
    let len = read_u16_le(buf.as_slice(), 5) as usize;
    if buf.len() - 7 < len {
        return None;
    }
    let frame = copy_range(buf.as_slice(), 7, 7 + len);
    let rest = buf.split_off(7 + len);
    *buf = rest;
    Some(frame)
}

/// Decoding an input frame gives back the report that was encoded.
pub proof fn lemma_input_roundtrip(report: Seq<u8>)
    requires
        report.len() == DS_USB_INPUT_LEN,
    ensures
        spec_decode_input(spec_encode_input(report)) == Ok::<Seq<u8>, VhidCodecError>(report),
{
    let s = spec_encode_input(report);
    assert(s.subrange(0, 4) =~= dsvh());
    assert(s.subrange(5, 69) =~= report);
}

/// Decoding an output frame gives back the report, when it fits the `u16` length.
pub proof fn lemma_output_roundtrip(report: Seq<u8>)
    requires
        report.len() <= 65535,
    ensures
        spec_decode_output(spec_encode_output(report)) == Ok::<Seq<u8>, VhidCodecError>(report),
{
    let s = spec_encode_output(report);
    assert(s.subrange(0, 4) =~= dsvo());
    assert(s.subrange(5, 7) =~= u16_le(report.len() as u16));
    lemma_u16_le(report.len() as u16, s, 5);
    assert(s.subrange(7, 7 + report.len() as int) =~= report);
}

/// A stream holding an encoded output frame followed by anything yields exactly that
/// report, and keeps what followed.
pub proof fn lemma_take_output_frame(report: Seq<u8>, rest: Seq<u8>)
    requires
        report.len() <= 65535,
    ensures
        spec_take_output(spec_encode_output(report) + rest) == (
        Some(report),
        rest,
        ),
{
    let e = spec_encode_output(report);
    let s = e + rest;
    assert(s.subrange(0, 4) =~= dsvo());
    assert(s.subrange(5, 7) =~= u16_le(report.len() as u16));
    lemma_u16_le(report.len() as u16, s, 5);
    assert(s.subrange(7, 7 + report.len() as int) =~= report);
    assert(s.subrange(7 + report.len() as int, s.len() as int) =~= rest);
}

} // verus!
