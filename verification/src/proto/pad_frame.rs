//! Binary pad protocol (`CLPD`): the normalised controller state the player
//! sends the host ~250 times a second.
use vstd::prelude::*;
use crate::proto::wire::{
    i16_bits, i16_from_bits, i16_to_bits, lemma_i16_bits, lemma_u16_le, lemma_u32_le, le16, le32,
    push_u16_le, push_u32_le, read_i16_le, read_u16_le, read_u32_le, u16_le, u32_le,
};

pub use crate::proto::buttons;

verus! {

/// WebRTC DataChannel label for pad traffic.
pub const PAD_CHANNEL: &'static str = "pad";
pub const PAD_MAGIC: [u8; 4] = [0x43, 0x4C, 0x50, 0x44];
pub const PAD_VERSION: u8 = 1;
pub const PAD_VERSION_V2: u8 = 2;
/// magic(4)+ver(1)+seq(4)+buttons(4)+sticks/triggers(6)+gyro(6)+touch(5)+reserved(1)
pub const PAD_FRAME_LEN: usize = 31;
/// v2 adds `client_ts_ms` (u32 LE) after the v1 body.
pub const PAD_FRAME_LEN_V2: usize = 35;

#[derive(Debug, Clone, Copy, PartialEq, Eq, Structural)]
pub enum PadCodecError {
    Short,
    BadMagic,
    BadVersion(u8),
}

/// Normalised DualSense-like state (the host injects this into the virtual pad).
#[derive(Debug, Clone, Copy, PartialEq, Eq, Structural, Default)]
pub struct PadFrame {
    pub seq: u32,
    pub buttons: u32,
    pub lx: u8,
    pub ly: u8,
    pub rx: u8,
    pub ry: u8,
    pub l2: u8,
    pub r2: u8,
    pub gx: i16,
    pub gy: i16,
    pub gz: i16,
    pub touch_active: u8,
    pub touch_x: u16,
    pub touch_y: u16,
    /// Browser `performance.now()` at send (ms, wraps). 0 = v1 / unknown.
    pub client_ts_ms: u32,
}

/// Feedback the host sends back toward the player's real controller.
#[derive(Debug, Clone, PartialEq, Eq)]
pub enum PadFeedback {
    Rumble { large: u8, small: u8 },
    Lightbar { r: u8, g: u8, b: u8 },
    PlayerLed { mask: u8 },
    /// DualSense adaptive trigger effect blocks (USB output offsets 11 / 22); up to
    /// 10 effect parameters each.
    AdaptiveTriggers { left_mode: u8, left_params: Vec<u8>, right_mode: u8, right_params: Vec<u8> },
    /// A full DualSense USB output report (report id `0x02` + common payload).
    RawOutput { report: Vec<u8> },
}

/// The four magic bytes `CLPD`.
pub open spec fn pad_magic() -> Seq<u8> {
    seq![0x43u8, 0x4Cu8, 0x50u8, 0x44u8]
}

/// The 35-byte v2 wire image of a frame.
pub open spec fn spec_pad_encode(f: PadFrame) -> Seq<u8> {
    pad_magic() + seq![2u8] + u32_le(f.seq) + u32_le(f.buttons) + seq![f.lx, f.ly, f.rx, f.ry, f.l2, f.r2]
        + u16_le(i16_bits(f.gx)) + u16_le(i16_bits(f.gy)) + u16_le(i16_bits(f.gz)) + seq![f.touch_active]
        + u16_le(f.touch_x) + u16_le(f.touch_y) + seq![0u8] + u32_le(f.client_ts_ms)
}

/// The frame carried by the common v1/v2 body of `s` (client timestamp 0).
pub open spec fn spec_pad_body(s: Seq<u8>) -> PadFrame {
    PadFrame {
        seq: le32(s, 5) as u32,
        buttons: le32(s, 9) as u32,
        lx: s[13],
        ly: s[14],
        rx: s[15],
        ry: s[16],
        l2: s[17],
        r2: s[18],
        gx: i16_from_bits(le16(s, 19)),
        gy: i16_from_bits(le16(s, 21)),
        gz: i16_from_bits(le16(s, 23)),
        touch_active: s[25],
        touch_x: le16(s, 26) as u16,
        touch_y: le16(s, 28) as u16,
        client_ts_ms: 0,
    }
}

/// What a CLPD buffer decodes to: v1 (31 bytes) or v2 (35 bytes, with the
/// client timestamp); bytes past the frame are ignored.
pub open spec fn spec_pad_decode(s: Seq<u8>) -> Result<PadFrame, PadCodecError> {
    if s.len() < 31 {
        Err(PadCodecError::Short)
    } else if s.subrange(0, 4) != pad_magic() {
        Err(PadCodecError::BadMagic)
    } else if s[4] == 1 {
        Ok(spec_pad_body(s))
    } else if s[4] == 2 {
        if s.len() < 35 {
            Err(PadCodecError::Short)
        } else {
            Ok(PadFrame { client_ts_ms: le32(s, 31) as u32, ..spec_pad_body(s) })
        }
    } else {
        Err(PadCodecError::BadVersion(s[4]))
    }
}

/// The frame a controller report parser produces: buttons, sticks and triggers as
/// read, sequence number, motion, touch and timestamp zero.
pub open spec fn input_frame(buttons: u32, lx: u8, ly: u8, rx: u8, ry: u8, l2: u8, r2: u8) -> PadFrame {
    PadFrame {
        seq: 0,
        buttons,
        lx,
        ly,
        rx,
        ry,
        l2,
        r2,
        gx: 0,
        gy: 0,
        gz: 0,
        touch_active: 0,
        touch_x: 0,
        touch_y: 0,
        client_ts_ms: 0,
    }
}

/// True when `buf[at..at + 4]` holds the bytes of `magic`.
pub fn has_magic_at(buf: &[u8], at: usize, magic: [u8; 4]) -> (r: bool)
    requires
        at + 4 <= buf.len(),
    ensures
        r == (buf@.subrange(at as int, at + 4) == magic@),
{
    let ok = buf[at] == magic[0] && buf[at + 1] == magic[1] && buf[at + 2] == magic[2] && buf[at + 3]
        == magic[3];
    if ok {
        assert(buf@.subrange(at as int, at + 4) =~= magic@);
    } else {
        assert(buf@.subrange(at as int, at + 4) != magic@) by {
            if buf@.subrange(at as int, at + 4) == magic@ {
                assert(buf@.subrange(at as int, at + 4)[0] == magic@[0]);
                assert(buf@.subrange(at as int, at + 4)[1] == magic@[1]);
                assert(buf@.subrange(at as int, at + 4)[2] == magic@[2]);
                assert(buf@.subrange(at as int, at + 4)[3] == magic@[3]);
            }
        }
    }
    ok
}

impl PadFrame {
    /// Append the v2 wire image of this frame to `out`.
    pub fn encode(&self, out: &mut Vec<u8>)
        ensures
            final(out)@ == old(out)@ + spec_pad_encode(*self),
    {
        let ghost start = out@;
        out.push(0x43);
        out.push(0x4C);
        out.push(0x50);
        out.push(0x44);
        out.push(PAD_VERSION_V2);
        push_u32_le(out, self.seq);
        push_u32_le(out, self.buttons);
        out.push(self.lx);
        out.push(self.ly);
        out.push(self.rx);
        out.push(self.ry);
        out.push(self.l2);
        out.push(self.r2);
        push_u16_le(out, i16_to_bits(self.gx));
        push_u16_le(out, i16_to_bits(self.gy));
        push_u16_le(out, i16_to_bits(self.gz));
        out.push(self.touch_active);
        push_u16_le(out, self.touch_x);
        push_u16_le(out, self.touch_y);
        out.push(0);
        push_u32_le(out, self.client_ts_ms);
        assert(out@ =~= start + spec_pad_encode(*self));
    }

    /// Decode a v1 or v2 CLPD frame from the front of `buf`.
    pub fn decode(buf: &[u8]) -> (r: Result<Self, PadCodecError>)
        ensures
            r == spec_pad_decode(buf@),
    {
        if buf.len() < PAD_FRAME_LEN {
            return Err(PadCodecError::Short);
        }
        if !has_magic_at(buf, 0, PAD_MAGIC) {
            assert(PAD_MAGIC@ =~= pad_magic());
            return Err(PadCodecError::BadMagic);
        }
        assert(PAD_MAGIC@ =~= pad_magic());
        let ver = buf[4];
        let frame = PadFrame {
            seq: read_u32_le(buf, 5),
            buttons: read_u32_le(buf, 9),
            lx: buf[13],
            ly: buf[14],
            rx: buf[15],
            ry: buf[16],
            l2: buf[17],
            r2: buf[18],
            gx: read_i16_le(buf, 19),
            gy: read_i16_le(buf, 21),
            gz: read_i16_le(buf, 23),
            touch_active: buf[25],
            touch_x: read_u16_le(buf, 26),
            touch_y: read_u16_le(buf, 28),
            client_ts_ms: 0,
        };
        if ver == PAD_VERSION {
            Ok(frame)
        } else if ver == PAD_VERSION_V2 {
            if buf.len() < PAD_FRAME_LEN_V2 {
                return Err(PadCodecError::Short);
            }
            let client_ts_ms = read_u32_le(buf, 31);
            Ok(PadFrame { client_ts_ms, ..frame })
        } else {
            Err(PadCodecError::BadVersion(ver))
        }
    }

    /// Sticks centred, everything else released/zero.
    pub fn neutral() -> (r: Self)
        ensures
            r == (PadFrame {
                seq: 0,
                buttons: 0,
                lx: 128,
                ly: 128,
                rx: 128,
                ry: 128,
                l2: 0,
                r2: 0,
                gx: 0,
                gy: 0,
                gz: 0,
                touch_active: 0,
                touch_x: 0,
                touch_y: 0,
                client_ts_ms: 0,
            }),
    {
        PadFrame {
            seq: 0,
            buttons: 0,
            lx: 128,
            ly: 128,
            rx: 128,
            ry: 128,
            l2: 0,
            r2: 0,
            gx: 0,
            gy: 0,
            gz: 0,
            touch_active: 0,
            touch_x: 0,
            touch_y: 0,
            client_ts_ms: 0,
        }
    }
}

/// Every frame survives the wire: decoding what `encode` wrote gives the frame back,
/// whatever bytes follow it in the buffer.
pub proof fn lemma_pad_roundtrip(f: PadFrame, rest: Seq<u8>)
    ensures
        spec_pad_encode(f).len() == PAD_FRAME_LEN_V2,
        spec_pad_decode(spec_pad_encode(f) + rest) == Ok::<PadFrame, PadCodecError>(f),
{
    let e = spec_pad_encode(f);
    let s = e + rest;
    assert(e.len() == 35);
    assert(s.subrange(0, 4) =~= pad_magic());
    assert(s[4] == 2);
    assert(s.subrange(5, 9) =~= u32_le(f.seq));
    assert(s.subrange(9, 13) =~= u32_le(f.buttons));
    assert(s.subrange(19, 21) =~= u16_le(i16_bits(f.gx)));
    assert(s.subrange(21, 23) =~= u16_le(i16_bits(f.gy)));
    assert(s.subrange(23, 25) =~= u16_le(i16_bits(f.gz)));
    assert(s.subrange(26, 28) =~= u16_le(f.touch_x));
    assert(s.subrange(28, 30) =~= u16_le(f.touch_y));
    assert(s.subrange(31, 35) =~= u32_le(f.client_ts_ms));
    lemma_u32_le(f.seq, s, 5);
    lemma_u32_le(f.buttons, s, 9);
    lemma_u16_le(i16_bits(f.gx), s, 19);
    lemma_u16_le(i16_bits(f.gy), s, 21);
    lemma_u16_le(i16_bits(f.gz), s, 23);
    lemma_u16_le(f.touch_x, s, 26);
    lemma_u16_le(f.touch_y, s, 28);
    lemma_u32_le(f.client_ts_ms, s, 31);
    lemma_i16_bits(f.gx);
    lemma_i16_bits(f.gy);
    lemma_i16_bits(f.gz);
    assert(s[13] == f.lx && s[14] == f.ly && s[15] == f.rx && s[16] == f.ry);
    assert(s[17] == f.l2 && s[18] == f.r2 && s[25] == f.touch_active);
}

} // verus!
