//! Video over the WebRTC DataChannel (`CLVD`): Annex-B access units split into
//! fragments small enough for SCTP, plus an optional XOR parity fragment that
//! repairs any single lost data fragment without a keyframe round trip.
use vstd::prelude::*;
use crate::proto::wire::{
    le16, le32, le64, lemma_u16_le, lemma_u32_le, lemma_u64_le, push_u16_le, push_u32_le,
    push_u64_le, read_u16_le, read_u32_le, read_u64_le, u16_le, u32_le, u64_le,
};

verus! {

/// DataChannel label for live video NALs.
pub const VIDEO_CHANNEL: &'static str = "video";
pub const VIDEO_MAGIC: [u8; 4] = [0x43, 0x4C, 0x56, 0x44];
pub const VIDEO_VERSION: u8 = 3;
pub const VIDEO_VERSION_V2: u8 = 2;
pub const FLAG_KEYFRAME: u8 = 1;
/// v2 header: magic(4) + ver(1) + flags(1) + width(2) + height(2) + seq(4) + frag_idx(2) + frag_count(2)
pub const VIDEO_HEADER_LEN_V2: usize = 18;
/// v3 adds `stamp_us` (u64 LE) after `frag_count`.
pub const VIDEO_HEADER_LEN: usize = 26;
/// Payload bytes per fragment: under common SCTP message limits with margin.
pub const VIDEO_MAX_FRAGMENT_PAYLOAD: usize = 14_000;

#[derive(Debug, Clone, Copy, PartialEq, Eq, Structural)]
pub enum VideoCodecError {
    Short,
    BadMagic,
    BadVersion(u8),
    BadFragment,
}

#[derive(Debug, Clone, PartialEq, Eq)]
pub struct VideoAccessUnit {
    pub seq: u32,
    pub width: u16,
    pub height: u16,
    pub keyframe: bool,
    pub annex_b: Vec<u8>,
    /// Host monotonic µs at capture-read. 0 = unknown / v2 peer.
    pub stamp_us: u64,
}

#[derive(Debug, Clone, PartialEq, Eq)]
pub struct VideoFragment {
    pub seq: u32,
    pub width: u16,
    pub height: u16,
    pub keyframe: bool,
    pub frag_idx: u16,
    pub frag_count: u16,
    pub stamp_us: u64,
    pub payload: Vec<u8>,
}

/// Mathematical value of an access unit.
pub ghost struct AccessUnitV {
    pub seq: u32,
    pub width: u16,
    pub height: u16,
    pub keyframe: bool,
    pub annex_b: Seq<u8>,
    pub stamp_us: u64,
}

/// Mathematical value of a fragment.
pub ghost struct FragmentV {
    pub seq: u32,
    pub width: u16,
    pub height: u16,
    pub keyframe: bool,
    pub frag_idx: u16,
    pub frag_count: u16,
    pub stamp_us: u64,
    pub payload: Seq<u8>,
}

impl View for VideoAccessUnit {
    type V = AccessUnitV;

    open spec fn view(&self) -> AccessUnitV {
        AccessUnitV {
            seq: self.seq,
            width: self.width,
            height: self.height,
            keyframe: self.keyframe,
            annex_b: self.annex_b@,
            stamp_us: self.stamp_us,
        }
    }
}

impl View for VideoFragment {
    type V = FragmentV;

    open spec fn view(&self) -> FragmentV {
        FragmentV {
            seq: self.seq,
            width: self.width,
            height: self.height,
            keyframe: self.keyframe,
            frag_idx: self.frag_idx,
            frag_count: self.frag_count,
            stamp_us: self.stamp_us,
            payload: self.payload@,
        }
    }
}

pub open spec fn video_magic() -> Seq<u8> {
    seq![0x43u8, 0x4Cu8, 0x56u8, 0x44u8]
}

/// The v3 wire image of a fragment: 26-byte header then the payload.
pub open spec fn spec_frag_encode(f: FragmentV) -> Seq<u8> {
    video_magic() + seq![3u8, if f.keyframe { 1u8 } else { 0u8 }] + u16_le(f.width) + u16_le(f.height)
        + u32_le(f.seq) + u16_le(f.frag_idx) + u16_le(f.frag_count) + u64_le(f.stamp_us) + f.payload
}

/// What a CLVD buffer decodes to. v2 headers (18 bytes) carry no stamp; the
/// parity slot `frag_idx == frag_count` is accepted, anything past it is not.
pub open spec fn spec_frag_decode(s: Seq<u8>) -> Result<FragmentV, VideoCodecError> {
    if s.len() < 18 {
        Err(VideoCodecError::Short)
    } else if s.subrange(0, 4) != video_magic() {
        Err(VideoCodecError::BadMagic)
    } else if s[4] != 3 && s[4] != 2 {
        Err(VideoCodecError::BadVersion(s[4]))
    } else if s[4] == 3 && s.len() < 26 {
        Err(VideoCodecError::Short)
    } else {
        let header_len: int = if s[4] == 3 { 26 } else { 18 };
        let frag_idx = le16(s, 14) as u16;
        let frag_count = le16(s, 16) as u16;
        if frag_count == 0 || frag_idx > frag_count {
            Err(VideoCodecError::BadFragment)
        } else {
            Ok(FragmentV {
                seq: le32(s, 10) as u32,
                width: le16(s, 6) as u16,
                height: le16(s, 8) as u16,
                keyframe: s[5] % 2 == 1,
                frag_idx,
                frag_count,
                stamp_us: if s[4] == 3 { le64(s, 18) as u64 } else { 0 },
                payload: s.subrange(header_len, s.len() as int),
            })
        }
    }
}

impl VideoFragment {
    /// Append the v3 wire image of this fragment to `out`.
    pub fn encode(&self, out: &mut Vec<u8>)
        ensures
            final(out)@ == old(out)@ + spec_frag_encode(self@),
    {
        let ghost start = out@;
        out.push(0x43);
        out.push(0x4C);
        out.push(0x56);
        out.push(0x44);
        out.push(VIDEO_VERSION);
        out.push(if self.keyframe { FLAG_KEYFRAME } else { 0 });
        push_u16_le(out, self.width);
        push_u16_le(out, self.height);
        push_u32_le(out, self.seq);
        push_u16_le(out, self.frag_idx);
        push_u16_le(out, self.frag_count);
        push_u64_le(out, self.stamp_us);
        let ghost before_payload = out@;
        out.extend_from_slice(self.payload.as_slice());
        assert(out@ =~= start + spec_frag_encode(self@));
    }

    /// Decode one v2 or v3 fragment; the payload is everything after the header.
    pub fn decode(buf: &[u8]) -> (r: Result<Self, VideoCodecError>)
        ensures
            match r {
                Ok(f) => spec_frag_decode(buf@) == Ok::<FragmentV, VideoCodecError>(f@),
                Err(e) => spec_frag_decode(buf@) == Err::<FragmentV, VideoCodecError>(e),
            },
    {
        if buf.len() < VIDEO_HEADER_LEN_V2 {
            return Err(VideoCodecError::Short);
        }
        assert(VIDEO_MAGIC@ =~= video_magic());
        if !crate::proto::pad_frame::has_magic_at(buf, 0, VIDEO_MAGIC) {
            return Err(VideoCodecError::BadMagic);
        }
        let ver = buf[4];
        if ver != VIDEO_VERSION && ver != VIDEO_VERSION_V2 {
            return Err(VideoCodecError::BadVersion(ver));
        }
        let header_len = if ver == VIDEO_VERSION { VIDEO_HEADER_LEN } else { VIDEO_HEADER_LEN_V2 };
        if buf.len() < header_len {
            return Err(VideoCodecError::Short);
        }
        let flags = buf[5];
        let width = read_u16_le(buf, 6);
        let height = read_u16_le(buf, 8);
        let seq = read_u32_le(buf, 10);
        let frag_idx = read_u16_le(buf, 14);
        let frag_count = read_u16_le(buf, 16);
        let stamp_us = if ver == VIDEO_VERSION { read_u64_le(buf, 18) } else { 0 };
        if frag_count == 0 || frag_idx > frag_count {
            return Err(VideoCodecError::BadFragment);
        }
        let payload = vstd::slice::slice_to_vec(vstd::slice::slice_subrange(buf, header_len, buf.len()));
        Ok(VideoFragment {
            seq,
            width,
            height,
            keyframe: flags % 2 == 1,
            frag_idx,
            frag_count,
            stamp_us,
            payload,
        })
    }
}


/// Number of data fragments an Annex-B payload of `len` bytes is cut into (always ≥ 1).
pub open spec fn n_chunks(len: int) -> int {
    if len <= 0 { 1 } else { (len + 13999) / 14000 }
}

/// The `i`-th data fragment payload: bytes `[i·14000, min((i+1)·14000, len))`.
pub open spec fn chunk_of(a: Seq<u8>, i: int) -> Seq<u8> {
    a.subrange(i * 14000, if (i + 1) * 14000 < a.len() { (i + 1) * 14000 } else { a.len() as int })
}

/// The `i`-th data fragment of an access unit, as it goes on the wire.
pub open spec fn data_frag(au: AccessUnitV, i: int) -> FragmentV {
    FragmentV {
        seq: au.seq,
        width: au.width,
        height: au.height,
        keyframe: au.keyframe,
        frag_idx: (i % 65536) as u16,
        frag_count: (n_chunks(au.annex_b.len() as int) % 65536) as u16,
        stamp_us: au.stamp_us,
        payload: chunk_of(au.annex_b, i),
    }
}

/// Byte `j` of `p`, zero past its end (fragments are zero-padded for parity).
pub open spec fn byte_at(p: Seq<u8>, j: int) -> u8 {
    if 0 <= j < p.len() { p[j] } else { 0 }
}

/// XOR of byte `j` of the first `k` data fragments of `a`.
pub open spec fn xor_upto(a: Seq<u8>, k: int, j: int) -> u8
    decreases k,
{
    if k <= 0 { 0 } else { xor_upto(a, k - 1, j) ^ byte_at(chunk_of(a, k - 1), j) }
}

/// Parity payload: the last fragment's length (u16 LE) then the XOR of all
/// data fragments, each zero-padded to 14000 bytes.
pub open spec fn parity_payload(a: Seq<u8>) -> Seq<u8> {
    u16_le(chunk_of(a, n_chunks(a.len() as int) - 1).len() as u16) + Seq::new(
        14000,
        |j: int| xor_upto(a, n_chunks(a.len() as int), j),
    )
}

/// The parity fragment, one slot past the last data index.
pub open spec fn parity_frag(au: AccessUnitV) -> FragmentV {
    FragmentV {
        frag_idx: (n_chunks(au.annex_b.len() as int) % 65536) as u16,
        payload: parity_payload(au.annex_b),
        ..data_frag(au, 0)
    }
}

pub proof fn lemma_xor_zero(x: u8)
    ensures
        x ^ 0 == x,
{
    assert(x ^ 0 == x) by (bit_vector);
}

impl VideoAccessUnit {
    /// Encode as one or more CLVD fragments (always ≥ 1).
    pub fn encode_fragments(&self) -> (r: Vec<Vec<u8>>)
        ensures
            r.len() == n_chunks(self.annex_b.len() as int),
            forall|k: int|
                0 <= k < r.len() ==> #[trigger] r[k]@ == spec_frag_encode(data_frag(self@, k)),
    {
        self.encode_fragments_impl(false)
    }

    /// Same as `encode_fragments`, plus one XOR parity fragment appended when
    /// there is more than one data fragment to protect.
    pub fn encode_fragments_with_fec(&self) -> (r: Vec<Vec<u8>>)
        requires
            self.annex_b.len() <= 65535 * 14000,
        ensures
            r.len() == n_chunks(self.annex_b.len() as int) + if n_chunks(self.annex_b.len() as int) > 1 {
                1int
            } else {
                0int
            },
            forall|k: int|
                0 <= k < n_chunks(self.annex_b.len() as int) ==> #[trigger] r[k]@ == spec_frag_encode(
                    data_frag(self@, k),
                ),
            n_chunks(self.annex_b.len() as int) > 1 ==> r[n_chunks(self.annex_b.len() as int)]@
                == spec_frag_encode(parity_frag(self@)),
    {
        self.encode_fragments_impl(true)
    }

    fn encode_fragments_impl(&self, fec: bool) -> (r: Vec<Vec<u8>>)
        requires
            fec ==> self.annex_b.len() <= 65535 * 14000,
        ensures
            r.len() == n_chunks(self.annex_b.len() as int) + if fec && n_chunks(
                self.annex_b.len() as int,
            ) > 1 {
                1int
            } else {
                0int
            },
            forall|k: int|
                0 <= k < n_chunks(self.annex_b.len() as int) ==> #[trigger] r[k]@ == spec_frag_encode(
                    data_frag(self@, k),
                ),
            fec && n_chunks(self.annex_b.len() as int) > 1 ==> r[n_chunks(
                self.annex_b.len() as int,
            )]@ == spec_frag_encode(parity_frag(self@)),
    {
        let ghost a = self.annex_b@;
        let len = self.annex_b.len();
        let c = VIDEO_MAX_FRAGMENT_PAYLOAD;
        let n: usize = if len == 0 {
            1
        } else {
            len / c + if len % c != 0 { 1 } else { 0 }
        };
        assert(n == n_chunks(len as int));
        let frag_count = (n % 65536) as u16;
        let mut out: Vec<Vec<u8>> = Vec::new();
        if len == 0 {
            let frag = VideoFragment {
                seq: self.seq,
                width: self.width,
                height: self.height,
                keyframe: self.keyframe,
                frag_idx: 0,
                frag_count: 1,
                stamp_us: self.stamp_us,
                payload: Vec::new(),
            };
            let mut buf = Vec::new();
            frag.encode(&mut buf);
            assert(frag@ == data_frag(self@, 0)) by {
                assert(chunk_of(a, 0) =~= Seq::<u8>::empty());
            }
            assert(buf@ =~= spec_frag_encode(data_frag(self@, 0)));
            out.push(buf);
            return out;
        }
        let mut xor: Vec<u8> = vec![0u8; c];
        let mut last_len: u16 = 0;
        let mut i: usize = 0;
        while i < n
            invariant
                len == self.annex_b.len(),
                a == self.annex_b@,
                len > 0,
                c == 14000,
                n == n_chunks(len as int),
                frag_count == (n % 65536) as u16,
                fec ==> len <= 65535 * 14000,
                0 <= i <= n,
                out.len() == i,
                xor.len() == c,
                forall|k: int| 0 <= k < i ==> #[trigger] out[k]@ == spec_frag_encode(data_frag(self@, k)),
                fec ==> forall|j: int| 0 <= j < 14000 ==> #[trigger] xor[j] == xor_upto(a, i as int, j),
                fec && i > 0 ==> last_len == chunk_of(a, i - 1).len(),
            decreases n - i,
        {
            let start = i * c;
            let end = if len - start > c { start + c } else { len };
            let piece = vstd::slice::slice_subrange(self.annex_b.as_slice(), start, end);
            assert(piece@ =~= chunk_of(a, i as int));
            if fec {
                let ghost before = xor@;
                let mut j: usize = 0;
                while j < piece.len()
                    invariant
                        xor.len() == 14000,
                        piece@ == chunk_of(a, i as int),
                        piece.len() <= 14000,
                        0 <= j <= piece.len(),
                        forall|jj: int| 0 <= jj < 14000 ==> #[trigger] before[jj] == xor_upto(a, i as int, jj),
                        forall|jj: int| 0 <= jj < j ==> #[trigger] xor[jj] == xor_upto(a, i + 1, jj),
                        forall|jj: int| j <= jj < 14000 ==> #[trigger] xor[jj] == before[jj],
                    decreases piece.len() - j,
                {
                    let x = xor[j] ^ piece[j];
                    xor.set(j, x);
                    j += 1;
                }
                assert forall|jj: int| 0 <= jj < 14000 implies #[trigger] xor[jj] == xor_upto(a, i + 1, jj) by {
                    if jj >= piece.len() {
                        lemma_xor_zero(xor_upto(a, i as int, jj));
                    }
                }
                last_len = (end - start) as u16;
            }
            let frag = VideoFragment {
                seq: self.seq,
                width: self.width,
                height: self.height,
                keyframe: self.keyframe,
                frag_idx: (i % 65536) as u16,
                frag_count,
                stamp_us: self.stamp_us,
                payload: vstd::slice::slice_to_vec(piece),
            };
            assert(frag@ == data_frag(self@, i as int));
            let mut buf = Vec::new();
            frag.encode(&mut buf);
            assert(buf@ =~= spec_frag_encode(data_frag(self@, i as int)));
            out.push(buf);
            i += 1;
        }
        if fec && n > 1 {
            let mut parity_payload_v: Vec<u8> = Vec::new();
            push_u16_le(&mut parity_payload_v, last_len);
            parity_payload_v.extend_from_slice(xor.as_slice());
            assert(parity_payload_v@ =~= parity_payload(a));
            let parity = VideoFragment {
                seq: self.seq,
                width: self.width,
                height: self.height,
                keyframe: self.keyframe,
                frag_idx: frag_count,
                frag_count,
                stamp_us: self.stamp_us,
                payload: parity_payload_v,
            };
            assert(parity@ == parity_frag(self@));
            let mut buf = Vec::new();
            parity.encode(&mut buf);
            assert(buf@ =~= spec_frag_encode(parity_frag(self@)));
            out.push(buf);
        }
        out
    }
}


/// Reassembles unordered fragments of one access unit at a time, repairing a
/// single missing data fragment from the parity fragment when one was sent.
#[derive(Debug, Default)]
pub struct FragmentAssembler {
    seq: Option<u32>,
    width: u16,
    height: u16,
    keyframe: bool,
    frag_count: u16,
    stamp_us: u64,
    parts: Vec<Option<Vec<u8>>>,
    parity: Option<Vec<u8>>,
}

/// Mathematical state of an assembler.
pub ghost struct AssemblerV {
    pub seq: Option<u32>,
    pub width: u16,
    pub height: u16,
    pub keyframe: bool,
    pub frag_count: u16,
    pub stamp_us: u64,
    pub parts: Seq<Option<Seq<u8>>>,
    pub parity: Option<Seq<u8>>,
}

pub open spec fn opt_bytes(o: Option<Vec<u8>>) -> Option<Seq<u8>> {
    match o {
        Some(v) => Some(v@),
        None => None,
    }
}

impl View for FragmentAssembler {
    type V = AssemblerV;

    closed spec fn view(&self) -> AssemblerV {
        AssemblerV {
            seq: self.seq,
            width: self.width,
            height: self.height,
            keyframe: self.keyframe,
            frag_count: self.frag_count,
            stamp_us: self.stamp_us,
            parts: self.parts@.map_values(|o: Option<Vec<u8>>| opt_bytes(o)),
            parity: opt_bytes(self.parity),
        }
    }
}

/// Bytes held in a slot (nothing for an empty slot).
pub open spec fn slot_bytes(o: Option<Seq<u8>>) -> Seq<u8> {
    match o {
        Some(p) => p,
        None => Seq::empty(),
    }
}

/// Number of empty slots among the first `k`.
pub open spec fn count_none(parts: Seq<Option<Seq<u8>>>, k: int) -> nat
    decreases k,
{
    if k <= 0 {
        0
    } else {
        count_none(parts, k - 1) + if parts[k - 1] is None { 1nat } else { 0nat }
    }
}

/// Index of the first empty slot among the first `k` (or `k` when all are filled).
pub open spec fn first_none(parts: Seq<Option<Seq<u8>>>, k: int) -> int
    decreases k,
{
    if k <= 0 {
        k
    } else if first_none(parts, k - 1) < k - 1 {
        first_none(parts, k - 1)
    } else if parts[k - 1] is None {
        k - 1
    } else {
        k
    }
}

/// Concatenated payloads of the first `k` slots.
pub open spec fn concat_parts(parts: Seq<Option<Seq<u8>>>, k: int) -> Seq<u8>
    decreases k,
{
    if k <= 0 { Seq::empty() } else { concat_parts(parts, k - 1) + slot_bytes(parts[k - 1]) }
}

/// `base`, XOR-ed in order with byte `j` of every slot among the first `k` except `m`.
pub open spec fn xor_rest(parts: Seq<Option<Seq<u8>>>, k: int, m: int, j: int, base: u8) -> u8
    decreases k,
{
    if k <= 0 {
        base
    } else if k - 1 == m {
        xor_rest(parts, k - 1, m, j, base)
    } else {
        xor_rest(parts, k - 1, m, j, base) ^ byte_at(slot_bytes(parts[k - 1]), j)
    }
}

/// What the parity repair yields for missing slot `m`: nothing without a
/// full-size parity payload or when another slot is empty; otherwise the XOR
/// of parity and every other slot, cut to the carried last length when `m` is
/// the last slot and to 14000 bytes otherwise.
pub open spec fn spec_recover(parts: Seq<Option<Seq<u8>>>, m: int, parity: Option<Seq<u8>>) -> Option<Seq<u8>> {
    match parity {
        None => None,
        Some(p) => if p.len() < 14002 {
            None
        } else if exists|i: int| 0 <= i < parts.len() && i != m && #[trigger] parts[i] is None {
            None
        } else {
            let want: int = if m + 1 == parts.len() { le16(p, 0) } else { 14000 };
            if want > 14000 {
                None
            } else {
                Some(
                    Seq::new(14000, |j: int| xor_rest(parts, parts.len() as int, m, j, p[2 + j])).take(want),
                )
            }
        },
    }
}

/// State and output after one completed access unit.
pub open spec fn spec_complete(st: AssemblerV, seq: u32) -> (AssemblerV, Option<AccessUnitV>) {
    (
        AssemblerV { seq: None, parts: Seq::empty(), parity: None, ..st },
        Some(
            AccessUnitV {
                seq,
                width: st.width,
                height: st.height,
                keyframe: st.keyframe,
                annex_b: concat_parts(st.parts, st.parts.len() as int),
                stamp_us: st.stamp_us,
            },
        ),
    )
}

/// The state the assembler is in once `f` is filed (before any completion check).
pub open spec fn spec_reset_for(st: AssemblerV, f: FragmentV) -> AssemblerV {
    if st.seq != Some(f.seq) {
        AssemblerV {
            seq: Some(f.seq),
            width: f.width,
            height: f.height,
            keyframe: f.keyframe,
            frag_count: f.frag_count,
            stamp_us: f.stamp_us,
            parts: Seq::new(f.frag_count as nat, |i: int| None),
            parity: None,
        }
    } else {
        st
    }
}

/// One push: a new sequence number starts a fresh assembly; a fragment whose
/// count disagrees or whose index is out of range is dropped; the parity slot
/// is `frag_idx == frag_count`. The unit completes when no data slot is empty,
/// or when exactly one is and the parity repair succeeds.
pub open spec fn spec_push(st: AssemblerV, f: FragmentV) -> (AssemblerV, Option<AccessUnitV>) {
    let st1 = spec_reset_for(st, f);
    if f.frag_count != st1.frag_count {
        (st1, None)
    } else if f.frag_idx != f.frag_count && f.frag_idx >= st1.parts.len() {
        (st1, None)
    } else {
        let st2 = if f.frag_idx == f.frag_count {
            AssemblerV { parity: Some(f.payload), ..st1 }
        } else {
            AssemblerV { parts: st1.parts.update(f.frag_idx as int, Some(f.payload)), ..st1 }
        };
        let n = st2.parts.len() as int;
        let missing = count_none(st2.parts, n);
        if missing == 0 {
            spec_complete(st2, f.seq)
        } else if missing == 1 {
            let m = first_none(st2.parts, n);
            match spec_recover(st2.parts, m, st2.parity) {
                None => (st2, None),
                Some(r) => spec_complete(AssemblerV { parts: st2.parts.update(m, Some(r)), ..st2 }, f.seq),
            }
        } else {
            (st2, None)
        }
    }
}

pub proof fn lemma_first_none(parts: Seq<Option<Seq<u8>>>, k: int)
    requires
        0 <= k <= parts.len(),
    ensures
        0 <= first_none(parts, k) <= k,
        first_none(parts, k) < k ==> parts[first_none(parts, k)] is None,
        forall|i: int| 0 <= i < first_none(parts, k) ==> parts[i] is Some,
        count_none(parts, k) == 0 <==> first_none(parts, k) == k,
        count_none(parts, k) <= k,
    decreases k,
{
    if k > 0 {
        lemma_first_none(parts, k - 1);
    }
}

/// Exactly one empty slot: it is the first one and every other slot is filled.
pub proof fn lemma_single_none(parts: Seq<Option<Seq<u8>>>, k: int)
    requires
        0 <= k <= parts.len(),
        count_none(parts, k) == 1,
    ensures
        0 <= first_none(parts, k) < k,
        parts[first_none(parts, k)] is None,
        forall|i: int| 0 <= i < k && i != first_none(parts, k) ==> #[trigger] parts[i] is Some,
    decreases k,
{
    lemma_first_none(parts, k);
    if k > 0 {
        if parts[k - 1] is None {
            lemma_first_none(parts, k - 1);
            lemma_none_count_zero(parts, k - 1);
        } else {
            lemma_single_none(parts, k - 1);
        }
    }
}

pub proof fn lemma_none_count_zero(parts: Seq<Option<Seq<u8>>>, k: int)
    requires
        0 <= k <= parts.len(),
        count_none(parts, k) == 0,
    ensures
        forall|i: int| 0 <= i < k ==> #[trigger] parts[i] is Some,
    decreases k,
{
    if k > 0 {
        lemma_none_count_zero(parts, k - 1);
    }
}

/// Reconstruct the one fragment at `missing` from the rest plus parity.
fn recover_fragment(parts: &Vec<Option<Vec<u8>>>, missing: usize, parity: &Option<Vec<u8>>) -> (r:
    Option<Vec<u8>>)
    requires
        missing < parts.len(),
    ensures
        opt_bytes(r) == spec_recover(
            parts@.map_values(|o: Option<Vec<u8>>| opt_bytes(o)),
            missing as int,
            opt_bytes(*parity),
        ),
{
    let ghost pv = parts@.map_values(|o: Option<Vec<u8>>| opt_bytes(o));
    let p = match parity {
        Some(p) => p,
        None => return None,
    };
    if p.len() < 2 + VIDEO_MAX_FRAGMENT_PAYLOAD {
        return None;
    }
    let last_len = read_u16_le(p.as_slice(), 0) as usize;
    let mut acc: Vec<u8> = vec![0u8; VIDEO_MAX_FRAGMENT_PAYLOAD];
    let mut j: usize = 0;
    while j < VIDEO_MAX_FRAGMENT_PAYLOAD
        invariant
            acc.len() == 14000,
            p.len() >= 14002,
            0 <= j <= 14000,
            forall|jj: int| 0 <= jj < j ==> #[trigger] acc[jj] == p@[2 + jj],
            forall|jj: int| j <= jj < 14000 ==> #[trigger] acc[jj] == 0,
        decreases 14000 - j,
    {
        let x = acc[j] ^ p[2 + j];
        proof {
            let a0 = acc[j as int];
            assert(a0 == 0);
            let b = p@[2 + j];
            assert(0u8 ^ b == b) by (bit_vector);
        }
        acc.set(j, x);
        j += 1;
    }
    let mut i: usize = 0;
    while i < parts.len()
        invariant
            pv == parts@.map_values(|o: Option<Vec<u8>>| opt_bytes(o)),
            missing < parts.len(),
            acc.len() == 14000,
            p.len() >= 14002,
            0 <= i <= parts.len(),
            forall|k: int| 0 <= k < i && k != missing ==> #[trigger] pv[k] is Some,
            forall|jj: int| 0 <= jj < 14000 ==> #[trigger] acc[jj] == xor_rest(pv, i as int, missing as int, jj, p@[2 + jj]),
        decreases parts.len() - i,
    {
        if i != missing {
            let part = match &parts[i] {
                Some(part) => part,
                None => {
                    assert(pv[i as int] is None);
                    return None;
                },
            };
            assert(pv[i as int] == Some(part@));
            let ghost before = acc@;
            let lim = if part.len() < VIDEO_MAX_FRAGMENT_PAYLOAD { part.len() } else { VIDEO_MAX_FRAGMENT_PAYLOAD };
            let mut j: usize = 0;
            while j < lim
                invariant
                    acc.len() == 14000,
                    lim <= 14000,
                    lim <= part.len(),
                    lim == 14000 || lim == part.len(),
                    0 <= j <= lim,
                    forall|jj: int| 0 <= jj < j ==> #[trigger] acc[jj] == before[jj] ^ part@[jj],
                    forall|jj: int| j <= jj < 14000 ==> #[trigger] acc[jj] == before[jj],
                decreases lim - j,
            {
                let x = acc[j] ^ part[j];
                acc.set(j, x);
                j += 1;
            }
            assert forall|jj: int| 0 <= jj < 14000 implies #[trigger] acc[jj] == xor_rest(pv, i + 1, missing as int, jj, p@[2 + jj]) by {
                assert(slot_bytes(pv[i as int]) == part@);
                if jj >= lim {
                    lemma_xor_zero(before[jj]);
                }
            }
        }
        i += 1;
    }
    let want_len = if missing + 1 == parts.len() { last_len } else { VIDEO_MAX_FRAGMENT_PAYLOAD };
    if want_len > acc.len() {
        return None;
    }
    acc.truncate(want_len);
    proof {
        assert(!(exists|k: int| 0 <= k < pv.len() && k != missing && #[trigger] pv[k] is None));
        assert(acc@ =~= Seq::new(14000, |jj: int| xor_rest(pv, pv.len() as int, missing as int, jj, p@[2 + jj])).take(want_len as int));
    }
    Some(acc)
}


pub open spec fn opt_au(r: Option<VideoAccessUnit>) -> Option<AccessUnitV> {
    match r {
        Some(a) => Some(a@),
        None => None,
    }
}

/// The state of a fresh assembler.
pub open spec fn empty_assembler() -> AssemblerV {
    AssemblerV {
        seq: None,
        width: 0,
        height: 0,
        keyframe: false,
        frag_count: 0,
        stamp_us: 0,
        parts: Seq::empty(),
        parity: None,
    }
}

impl FragmentAssembler {
    /// An assembler holding nothing.
    pub fn new() -> (r: Self)
        ensures
            r@ == empty_assembler(),
    {
        let r = FragmentAssembler {
            seq: None,
            width: 0,
            height: 0,
            keyframe: false,
            frag_count: 0,
            stamp_us: 0,
            parts: Vec::new(),
            parity: None,
        };
        assert(r@.parts =~= Seq::<Option<Seq<u8>>>::empty());
        r
    }

    /// File one fragment; returns the access unit once it is complete.
    pub fn push(&mut self, frag: VideoFragment) -> (r: Option<VideoAccessUnit>)
        ensures
            spec_push(old(self)@, frag@) == (final(self)@, opt_au(r)),
    {
        let ghost f = frag@;
        let ghost st0 = self@;
        let same = match self.seq {
            Some(s) => s == frag.seq,
            None => false,
        };
        if !same {
            self.seq = Some(frag.seq);
            self.width = frag.width;
            self.height = frag.height;
            self.keyframe = frag.keyframe;
            self.frag_count = frag.frag_count;
            self.stamp_us = frag.stamp_us;
            let mut parts: Vec<Option<Vec<u8>>> = Vec::new();
            let count = frag.frag_count as usize;
            let mut i: usize = 0;
            while i < count
                invariant
                    0 <= i <= count,
                    parts.len() == i,
                    forall|k: int| 0 <= k < i ==> #[trigger] parts@[k] is None,
                decreases count - i,
            {
                parts.push(None);
                i += 1;
            }
            self.parts = parts;
            self.parity = None;
            assert(self@.parts =~= Seq::new(f.frag_count as nat, |i: int| None::<Seq<u8>>));
        }
        let ghost st1 = self@;
        assert(st1 == spec_reset_for(st0, f));
        if frag.frag_count != self.frag_count {
            return None;
        }
        let ghost st2: AssemblerV;
        if frag.frag_idx == frag.frag_count {
            self.parity = Some(frag.payload);
            proof {
                st2 = AssemblerV { parity: Some(f.payload), ..st1 };
                assert(self@.parts =~= st2.parts);
            }
        } else if (frag.frag_idx as usize) < self.parts.len() {
            self.parts.set(frag.frag_idx as usize, Some(frag.payload));
            proof {
                st2 = AssemblerV { parts: st1.parts.update(f.frag_idx as int, Some(f.payload)), ..st1 };
                assert(self@.parts =~= st2.parts);
            }
        } else {
            return None;
        }
        assert(self@ == st2);
        let n = self.parts.len();
        let ghost pv = self@.parts;
        let mut missing: usize = 0;
        let mut first: usize = 0;
        let mut i: usize = 0;
        while i < n
            invariant
                n == self.parts.len(),
                pv == self@.parts,
                pv == self.parts@.map_values(|o: Option<Vec<u8>>| opt_bytes(o)),
                0 <= i <= n,
                missing == count_none(pv, i as int),
                first == first_none(pv, i as int),
                missing <= i,
                first <= i,
            decreases n - i,
        {
            let is_none = match &self.parts[i] {
                Some(_) => false,
                None => true,
            };
            assert(is_none == (pv[i as int] is None));
            if is_none {
                missing += 1;
            }
            if first == i && !is_none {
                first = i + 1;
            }
            i += 1;
        }
        proof {
            lemma_first_none(pv, n as int);
        }
        if missing == 0 {
        } else if missing == 1 {
            proof {
                lemma_single_none(pv, n as int);
            }
            match recover_fragment(&self.parts, first, &self.parity) {
                None => {
                    return None;
                },
                Some(rec) => {
                    let ghost rv = rec@;
                    self.parts.set(first, Some(rec));
                    assert(self@.parts =~= pv.update(first as int, Some(rv)));
                },
            }
        } else {
            return None;
        }
        let ghost full = self@;
        let mut annex_b: Vec<u8> = Vec::new();
        let mut i: usize = 0;
        while i < n
            invariant
                n == self.parts.len(),
                full == self@,
                full.parts == self.parts@.map_values(|o: Option<Vec<u8>>| opt_bytes(o)),
                0 <= i <= n,
                annex_b@ == concat_parts(full.parts, i as int),
            decreases n - i,
        {
            match &self.parts[i] {
                Some(p) => {
                    annex_b.extend_from_slice(p.as_slice());
                },
                None => {},
            }
            assert(annex_b@ =~= concat_parts(full.parts, i + 1));
            i += 1;
        }
        self.parts = Vec::new();
        let au = VideoAccessUnit {
            seq: frag.seq,
            width: self.width,
            height: self.height,
            keyframe: self.keyframe,
            annex_b,
            stamp_us: self.stamp_us,
        };
        self.seq = None;
        self.parity = None;
        assert(self@.parts =~= Seq::<Option<Seq<u8>>>::empty());
        Some(au)
    }
}


proof fn lemma_xor_algebra(x: u8, y: u8, z: u8)
    ensures
        (x ^ (y ^ z)) ^ z == (x ^ y) ^ 0u8,
        ((x ^ y) ^ z) ^ x == (x ^ (y ^ x)) ^ z,
        (x ^ x) ^ z == z,
        x ^ 0u8 == x,
{
    assert((x ^ (y ^ z)) ^ z == (x ^ y) ^ 0u8) by (bit_vector);
    assert(((x ^ y) ^ z) ^ x == (x ^ (y ^ x)) ^ z) by (bit_vector);
    assert((x ^ x) ^ z == z) by (bit_vector);
    assert(x ^ 0u8 == x) by (bit_vector);
}

proof fn lemma_xor_swap(x: u8, y: u8, c: u8, b: u8)
    ensures
        ((x ^ y) ^ c) ^ b == (x ^ (y ^ b)) ^ c,
{
    assert(((x ^ y) ^ c) ^ b == (x ^ (y ^ b)) ^ c) by (bit_vector);
}

/// Slots `0..n` hold the data fragments of `a`, except that slot `m` may be empty.
pub open spec fn holds_chunks_except(parts: Seq<Option<Seq<u8>>>, a: Seq<u8>, m: int) -> bool {
    &&& parts.len() == n_chunks(a.len() as int)
    &&& forall|i: int|
        0 <= i < parts.len() && i != m ==> #[trigger] parts[i] == Some(chunk_of(a, i))
}

pub proof fn lemma_chunk_len(a: Seq<u8>, i: int)
    requires
        0 <= i < n_chunks(a.len() as int),
    ensures
        chunk_of(a, i).len() <= 14000,
        i + 1 < n_chunks(a.len() as int) ==> chunk_of(a, i).len() == 14000,
        i * 14000 <= a.len(),
{
}

/// XOR-ing every present data fragment into `base` leaves `base`, the XOR of
/// all fragments, and the one absent fragment.
proof fn lemma_xor_rest(parts: Seq<Option<Seq<u8>>>, a: Seq<u8>, m: int, k: int, j: int, base: u8)
    requires
        holds_chunks_except(parts, a, m),
        0 <= k <= parts.len(),
        0 <= m < parts.len(),
    ensures
        xor_rest(parts, k, m, j, base) == (base ^ xor_upto(a, k, j)) ^ (if m < k {
            byte_at(chunk_of(a, m), j)
        } else {
            0u8
        }),
    decreases k,
{
    if k == 0 {
        lemma_xor_algebra(base, 0, 0);
        assert(base ^ 0u8 == base);
    } else {
        lemma_xor_rest(parts, a, m, k - 1, j, base);
        let x = base;
        let y = xor_upto(a, k - 1, j);
        let b = byte_at(chunk_of(a, k - 1), j);
        if k - 1 == m {
            lemma_xor_algebra(x, y, b);
        } else {
            let c = if m < k - 1 { byte_at(chunk_of(a, m), j) } else { 0u8 };
            assert(parts[k - 1] == Some(chunk_of(a, k - 1)));
            lemma_xor_swap(x, y, c, b);
        }
    }
}

/// The parity repair gives back exactly the absent data fragment.
pub proof fn lemma_recover_exact(parts: Seq<Option<Seq<u8>>>, a: Seq<u8>, m: int)
    requires
        holds_chunks_except(parts, a, m),
        0 <= m < parts.len(),
        n_chunks(a.len() as int) <= 65535,
    ensures
        spec_recover(parts, m, Some(parity_payload(a))) == Some(chunk_of(a, m)),
{
    let n = n_chunks(a.len() as int);
    let p = parity_payload(a);
    let last = chunk_of(a, n - 1);
    lemma_chunk_len(a, n - 1);
    lemma_chunk_len(a, m);
    assert(p.len() == 14002);
    assert(p.subrange(0, 2) =~= u16_le(last.len() as u16));
    lemma_u16_le(last.len() as u16, p, 0);
    assert(!(exists|i: int| 0 <= i < parts.len() && i != m && #[trigger] parts[i] is None));
    let want: int = if m + 1 == parts.len() { le16(p, 0) } else { 14000 };
    assert(want == chunk_of(a, m).len());
    let acc = Seq::new(14000, |j: int| xor_rest(parts, parts.len() as int, m, j, p[2 + j]));
    assert forall|j: int| 0 <= j < want implies #[trigger] acc[j] == chunk_of(a, m)[j] by {
        lemma_xor_rest(parts, a, m, n, j, p[2 + j]);
        assert(p[2 + j] == xor_upto(a, n, j));
        lemma_xor_algebra(xor_upto(a, n, j), 0, byte_at(chunk_of(a, m), j));
    }
    assert(acc.take(want) =~= chunk_of(a, m));
}

/// The data fragments, concatenated in order, are the whole payload.
pub proof fn lemma_concat_chunks(parts: Seq<Option<Seq<u8>>>, a: Seq<u8>, k: int)
    requires
        holds_chunks_except(parts, a, -1),
        0 <= k <= parts.len(),
    ensures
        concat_parts(parts, k) == a.take(if k * 14000 < a.len() { k * 14000 } else { a.len() as int }),
    decreases k,
{
    if k > 0 {
        lemma_concat_chunks(parts, a, k - 1);
        lemma_chunk_len(a, k - 1);
        assert(parts[k - 1] == Some(chunk_of(a, k - 1)));
        let lo = if (k - 1) * 14000 < a.len() { (k - 1) * 14000 } else { a.len() as int };
        let hi = if k * 14000 < a.len() { k * 14000 } else { a.len() as int };
        assert(a.take(lo) + chunk_of(a, k - 1) =~= a.take(hi));
    } else {
        assert(a.take(0) =~= Seq::<u8>::empty());
    }
}


/// Fragment `i` of an access unit on the wire: data for `i < n`, parity at `i == n`.
pub open spec fn wire_frag(au: AccessUnitV, i: int) -> FragmentV {
    if i < n_chunks(au.annex_b.len() as int) { data_frag(au, i) } else { parity_frag(au) }
}

/// An assembly of `au` in progress: every filled slot, and the parity if held,
/// is the genuine one.
pub open spec fn assembling(st: AssemblerV, au: AccessUnitV) -> bool {
    let n = n_chunks(au.annex_b.len() as int);
    &&& st.seq == Some(au.seq)
    &&& st.width == au.width
    &&& st.height == au.height
    &&& st.keyframe == au.keyframe
    &&& st.frag_count == n as u16
    &&& st.stamp_us == au.stamp_us
    &&& st.parts.len() == n
    &&& forall|i: int|
        0 <= i < n ==> (#[trigger] st.parts[i] is None || st.parts[i] == Some(chunk_of(au.annex_b, i)))
    &&& (st.parity is None || st.parity == Some(parity_payload(au.annex_b)))
}

/// The assembly of `au` once fragment `i` is filed into `st`.
pub open spec fn filed(st: AssemblerV, au: AccessUnitV, i: int) -> AssemblerV {
    let st1 = spec_reset_for(st, wire_frag(au, i));
    if i == n_chunks(au.annex_b.len() as int) {
        AssemblerV { parity: Some(parity_payload(au.annex_b)), ..st1 }
    } else {
        AssemblerV { parts: st1.parts.update(i, Some(chunk_of(au.annex_b, i))), ..st1 }
    }
}

/// Enough has arrived: every data fragment, or all but one and the parity.
pub open spec fn ready(st: AssemblerV) -> bool {
    let missing = count_none(st.parts, st.parts.len() as int);
    missing == 0 || (missing == 1 && st.parity is Some)
}

/// FEC law. Feed an assembler the genuine fragments of one access unit, in any
/// order, with any of them lost: every push files its fragment; the push after
/// which all data fragments, or all but one plus the parity fragment, have
/// arrived returns exactly the access unit that was sent, and every other push
/// returns nothing — a unit with two or more data fragments lost is never
/// completed, and a wrong unit is never produced.
pub proof fn lemma_push_genuine_fragment(st: AssemblerV, au: AccessUnitV, i: int)
    requires
        n_chunks(au.annex_b.len() as int) <= 65535,
        0 <= i <= n_chunks(au.annex_b.len() as int),
        st.seq != Some(au.seq) || assembling(st, au),
    ensures
        assembling(filed(st, au, i), au),
        ready(filed(st, au, i)) ==> spec_push(st, wire_frag(au, i)).1 == Some(au)
            && spec_push(st, wire_frag(au, i)).0.seq is None,
        !ready(filed(st, au, i)) ==> spec_push(st, wire_frag(au, i)).1 is None && spec_push(
            st,
            wire_frag(au, i),
        ).0 == filed(st, au, i),
{
    let a = au.annex_b;
    let n = n_chunks(a.len() as int);
    let f = wire_frag(au, i);
    let st1 = spec_reset_for(st, f);
    assert(f.seq == au.seq && f.frag_count == n as u16);
    assert(n % 65536 == n);
    assert(i % 65536 == i);
    assert(st1.parts.len() == n);
    assert(f.frag_idx == i as u16);
    let fst = filed(st, au, i);
    let st2 = if f.frag_idx == f.frag_count {
        AssemblerV { parity: Some(f.payload), ..st1 }
    } else {
        AssemblerV { parts: st1.parts.update(f.frag_idx as int, Some(f.payload)), ..st1 }
    };
    assert(st2 == fst);
    assert(assembling(fst, au));
    let parts = fst.parts;
    lemma_first_none(parts, n);
    let missing = count_none(parts, n);
    if missing == 0 {
        lemma_none_count_zero(parts, n);
        assert(holds_chunks_except(parts, a, -1));
        lemma_concat_chunks(parts, a, n);
        assert(a.take(a.len() as int) =~= a);
    } else if missing == 1 {
        lemma_single_none(parts, n);
        let m = first_none(parts, n);
        assert(holds_chunks_except(parts, a, m));
        if fst.parity is Some {
            lemma_recover_exact(parts, a, m);
            let full = parts.update(m, Some(chunk_of(a, m)));
            assert(holds_chunks_except(full, a, -1));
            lemma_concat_chunks(full, a, n);
            assert(a.take(a.len() as int) =~= a);
        }
    }
}


/// The assembly after the fragments of `au` with indices `order` were filed in turn.
pub open spec fn filed_all(st: AssemblerV, au: AccessUnitV, order: Seq<int>) -> AssemblerV
    decreases order.len(),
{
    if order.len() == 0 {
        st
    } else {
        filed(filed_all(st, au, order.drop_last()), au, order.last())
    }
}

/// State and outputs after the fragments of `au` with indices `order` were pushed in
/// turn, one output per push.
pub open spec fn push_all(st: AssemblerV, au: AccessUnitV, order: Seq<int>) -> (AssemblerV, Seq<Option<AccessUnitV>>)
    decreases order.len(),
{
    if order.len() == 0 {
        (st, seq![])
    } else {
        let before = push_all(st, au, order.drop_last());
        let step = spec_push(before.0, wire_frag(au, order.last()));
        (step.0, before.1.push(step.1))
    }
}

/// Data fragment indices below `k` that `order` does not hold.
pub open spec fn count_absent(order: Seq<int>, k: int) -> nat
    decreases k,
{
    if k <= 0 {
        0
    } else {
        count_absent(order, k - 1) + if order.contains(k - 1) { 0nat } else { 1nat }
    }
}

/// The fragments `order` of `au` are enough to rebuild it: every data fragment, or
/// all but one plus the parity fragment.
pub open spec fn enough(au: AccessUnitV, order: Seq<int>) -> bool {
    let n = n_chunks(au.annex_b.len() as int);
    count_absent(order, n) == 0 || (count_absent(order, n) == 1 && order.contains(n))
}

/// After filing a non-empty `order` from a state not assembling `au`, a data slot is
/// filled exactly when its index was filed, and the parity exactly when `n` was.
proof fn lemma_filed_all_slots(st: AssemblerV, au: AccessUnitV, order: Seq<int>)
    requires
        n_chunks(au.annex_b.len() as int) <= 65535,
        st.seq != Some(au.seq),
        order.len() >= 1,
        forall|k: int| 0 <= k < order.len() ==> 0 <= #[trigger] order[k] <= n_chunks(au.annex_b.len() as int),
    ensures
        assembling(filed_all(st, au, order), au),
        forall|i: int|
            0 <= i < n_chunks(au.annex_b.len() as int) ==> (#[trigger] filed_all(st, au, order).parts[i] is Some
                <==> order.contains(i)),
        filed_all(st, au, order).parity is Some <==> order.contains(n_chunks(au.annex_b.len() as int)),
    decreases order.len(),
{
    let n = n_chunks(au.annex_b.len() as int);
    let pre = order.drop_last();
    let x = order.last();
    assert forall|v: int| #[trigger] order.contains(v) <==> (pre.contains(v) || v == x) by {
        if order.contains(v) {
            let k = choose|k: int| 0 <= k < order.len() && order[k] == v;
            if k < order.len() - 1 {
                assert(pre[k] == v);
            }
        }
        if pre.contains(v) {
            let k = choose|k: int| 0 <= k < pre.len() && pre[k] == v;
            assert(order[k] == v);
        }
        if v == x {
            assert(order[order.len() - 1] == v);
        }
    }
    if pre.len() == 0 {
        assert(filed_all(st, au, pre) == st);
        lemma_push_genuine_fragment(st, au, x);
        assert(n % 65536 == n);
        assert forall|v: int| !#[trigger] pre.contains(v) by {}
    } else {
        assert forall|k: int| 0 <= k < pre.len() implies 0 <= #[trigger] pre[k] <= n by {
            assert(pre[k] == order[k]);
        }
        lemma_filed_all_slots(st, au, pre);
        lemma_push_genuine_fragment(filed_all(st, au, pre), au, x);
    }
}

/// Missing data slots counted on the state are the data indices `order` lacks.
proof fn lemma_count_absent(parts: Seq<Option<Seq<u8>>>, order: Seq<int>, k: int)
    requires
        0 <= k <= parts.len(),
        forall|i: int| 0 <= i < k ==> (#[trigger] parts[i] is Some <==> order.contains(i)),
    ensures
        count_none(parts, k) == count_absent(order, k),
    decreases k,
{
    if k > 0 {
        lemma_count_absent(parts, order, k - 1);
    }
}

/// FEC law over a whole delivery. Push the genuine fragments of `au` with indices
/// `order` (each a data index or the parity index, in any order, repeats allowed)
/// into an assembler that is not assembling `au`, such that no earlier push already
/// had enough: every push but the last returns nothing, and the last returns exactly
/// `au` when the fragments pushed are enough to rebuild it (every data fragment, or
/// all but one plus the parity fragment), and nothing otherwise — two or more lost
/// data fragments never give a unit, and never a wrong one.
pub proof fn lemma_push_sequence(st: AssemblerV, au: AccessUnitV, order: Seq<int>)
    requires
        n_chunks(au.annex_b.len() as int) <= 65535,
        st.seq != Some(au.seq),
        forall|k: int| 0 <= k < order.len() ==> 0 <= #[trigger] order[k] <= n_chunks(au.annex_b.len() as int),
        forall|j: int| 1 <= j < order.len() ==> !enough(au, #[trigger] order.take(j)),
    ensures
        push_all(st, au, order).1.len() == order.len(),
        forall|j: int| 0 <= j < order.len() - 1 ==> #[trigger] push_all(st, au, order).1[j] is None,
        order.len() >= 1 ==> push_all(st, au, order).1[order.len() - 1] == (if enough(au, order) {
            Some(au)
        } else {
            None
        }),
        order.len() >= 1 && !enough(au, order) ==> push_all(st, au, order).0 == filed_all(st, au, order),
    decreases order.len(),
{
    if order.len() > 0 {
        let n = n_chunks(au.annex_b.len() as int);
        let pre = order.drop_last();
        let x = order.last();
        assert forall|k: int| 0 <= k < pre.len() implies 0 <= #[trigger] pre[k] <= n by {
            assert(pre[k] == order[k]);
        }
        assert forall|j: int| 1 <= j < pre.len() implies !enough(au, #[trigger] pre.take(j)) by {
            assert(pre.take(j) =~= order.take(j));
        }
        lemma_push_sequence(st, au, pre);
        let before = push_all(st, au, pre);
        if pre.len() == 0 {
            assert(before.0 == st);
            assert(filed_all(st, au, pre) == st);
        } else {
            assert(pre =~= order.take(pre.len() as int));
            assert(!enough(au, pre));
            lemma_filed_all_slots(st, au, pre);
        }
        lemma_push_genuine_fragment(before.0, au, x);
        lemma_filed_all_slots(st, au, order);
        let fin = filed_all(st, au, order);
        assert(fin == filed(before.0, au, x));
        lemma_count_absent(fin.parts, order, n);
        assert(ready(fin) == enough(au, order));
    }
}

/// The data indices below `k` other than `w1` and `w2`, in order.
pub open spec fn data_except(k: int, w1: int, w2: int) -> Seq<int>
    decreases k,
{
    if k <= 0 {
        seq![]
    } else {
        data_except(k - 1, w1, w2) + if k - 1 != w1 && k - 1 != w2 { seq![k - 1] } else { seq![] }
    }
}

proof fn lemma_data_except(k: int, w1: int, w2: int)
    requires
        k >= 0,
    ensures
        forall|x: int| #[trigger] data_except(k, w1, w2).contains(x) <==> (0 <= x < k && x != w1 && x != w2),
        forall|j: int| 0 <= j < data_except(k, w1, w2).len() ==> 0 <= #[trigger] data_except(k, w1, w2)[j] < k,
    decreases k,
{
    if k > 0 {
        lemma_data_except(k - 1, w1, w2);
        let p = data_except(k - 1, w1, w2);
        let q = data_except(k, w1, w2);
        let tail: Seq<int> = if k - 1 != w1 && k - 1 != w2 { seq![k - 1] } else { seq![] };
        assert(q == p + tail);
        assert forall|x: int| #[trigger] q.contains(x) <==> (0 <= x < k && x != w1 && x != w2) by {
            if q.contains(x) {
                let j = choose|j: int| 0 <= j < q.len() && q[j] == x;
                if j < p.len() {
                    assert(p[j] == x);
                    assert(p.contains(x));
                }
            }
            if 0 <= x < k && x != w1 && x != w2 {
                if x < k - 1 {
                    assert(p.contains(x));
                    let j = choose|j: int| 0 <= j < p.len() && p[j] == x;
                    assert(q[j] == x);
                } else {
                    assert(q[p.len() as int] == x);
                }
            }
        }
        assert forall|j: int| 0 <= j < q.len() implies 0 <= #[trigger] q[j] < k by {
            if j < p.len() {
                assert(q[j] == p[j]);
            }
        }
    }
}

/// With `x` a data index below `k` that `p` lacks, at least one is absent.
proof fn lemma_count_absent_pos(p: Seq<int>, k: int, x: int)
    requires
        0 <= x < k,
        !p.contains(x),
    ensures
        count_absent(p, k) >= 1,
    decreases k,
{
    if x < k - 1 {
        lemma_count_absent_pos(p, k - 1, x);
    }
}

/// Absent data indices of a delivery lacking exactly `w1` and `w2`.
proof fn lemma_count_absent_except(p: Seq<int>, k: int, w1: int, w2: int)
    requires
        k >= 0,
        forall|x: int| 0 <= x < k ==> (p.contains(x) <==> (x != w1 && x != w2)),
    ensures
        count_absent(p, k) == (if 0 <= w1 < k { 1int } else { 0 }) + (if 0 <= w2 < k && w2 != w1 { 1int } else { 0 }),
    decreases k,
{
    if k > 0 {
        lemma_count_absent_except(p, k - 1, w1, w2);
        assert(p.contains(k - 1) <==> (k - 1 != w1 && k - 1 != w2));
    }
}

/// FEC law over the wire order. Send an access unit of at least two data fragments
/// as data fragments in order then parity, and lose data fragments `w1` and `w2`
/// (the same index for a single loss): every push before the last returns nothing;
/// the last push (the parity) returns exactly the unit after one loss, and nothing
/// after two.
pub proof fn lemma_fec_delivery(st: AssemblerV, au: AccessUnitV, w1: int, w2: int)
    requires
        2 <= n_chunks(au.annex_b.len() as int) <= 65535,
        st.seq != Some(au.seq),
        0 <= w1 < n_chunks(au.annex_b.len() as int),
        0 <= w2 < n_chunks(au.annex_b.len() as int),
    ensures
        ({
            let n = n_chunks(au.annex_b.len() as int);
            let order = data_except(n, w1, w2).push(n);
            let outs = push_all(st, au, order).1;
            &&& outs.len() == order.len()
            &&& forall|j: int| 0 <= j < order.len() - 1 ==> #[trigger] outs[j] is None
            &&& outs[order.len() - 1] == (if w1 == w2 { Some(au) } else { None })
        }),
{
    let n = n_chunks(au.annex_b.len() as int);
    let d = data_except(n, w1, w2);
    let order = d.push(n);
    lemma_data_except(n, w1, w2);
    assert forall|k: int| 0 <= k < order.len() implies 0 <= #[trigger] order[k] <= n by {
        if k < d.len() {
            assert(order[k] == d[k]);
        }
    }
    assert forall|j: int| 1 <= j < order.len() implies !enough(au, #[trigger] order.take(j)) by {
        let p = order.take(j);
        assert forall|x: int| #[trigger] p.contains(x) implies d.contains(x) by {
            let i = choose|i: int| 0 <= i < p.len() && p[i] == x;
            assert(order[i] == d[i]);
        }
        assert(!d.contains(w1));
        assert(!p.contains(w1));
        lemma_count_absent_pos(p, n, w1);
        assert(!d.contains(n));
        assert(!p.contains(n));
    }
    lemma_push_sequence(st, au, order);
    assert forall|x: int| 0 <= x < n implies (order.contains(x) <==> (x != w1 && x != w2)) by {
        if order.contains(x) {
            let i = choose|i: int| 0 <= i < order.len() && order[i] == x;
            if i < d.len() {
                assert(order[i] == d[i]);
                assert(d.contains(x));
            }
        }
        if x != w1 && x != w2 {
            assert(d.contains(x));
            let i = choose|i: int| 0 <= i < d.len() && d[i] == x;
            assert(order[i] == x);
        }
    }
    lemma_count_absent_except(order, n, w1, w2);
    assert(order[order.len() - 1] == n);
    assert(order.contains(n));
}

/// Annex-B scan for an IDR slice: from position `i`, find the next 4- or
/// 3-byte start code (only while more than four bytes remain), read the NAL
/// header after it, and continue one past that header.
pub open spec fn scan_idr(d: Seq<u8>, i: int) -> bool
    decreases d.len() - i,
{
    if i < 0 || i + 4 >= d.len() {
        false
    } else {
        let start: int = if d[i] == 0 && d[i + 1] == 0 && d[i + 2] == 0 && d[i + 3] == 1 {
            i + 4
        } else if d[i] == 0 && d[i + 1] == 0 && d[i + 2] == 1 {
            i + 3
        } else {
            -1
        };
        if start < 0 {
            scan_idr(d, i + 1)
        } else if start >= d.len() {
            false
        } else if d[start] % 32 == 5 {
            true
        } else {
            scan_idr(d, start + 1)
        }
    }
}

/// From any position up to one past a `00 00 00 01` start code at `p` whose NAL
/// header at `p + 4` is an IDR slice, with at least one byte after that header, the
/// scan finds an IDR.
proof fn lemma_scan_reaches_idr(d: Seq<u8>, p: int, i: int)
    requires
        0 <= i <= p + 1,
        p + 5 < d.len(),
        d[p] == 0 && d[p + 1] == 0 && d[p + 2] == 0 && d[p + 3] == 1,
        d[p + 4] % 32 == 5,
    ensures
        scan_idr(d, i),
    decreases p + 1 - i,
{
    let start: int = if d[i] == 0 && d[i + 1] == 0 && d[i + 2] == 0 && d[i + 3] == 1 {
        i + 4
    } else if d[i] == 0 && d[i + 1] == 0 && d[i + 2] == 1 {
        i + 3
    } else {
        -1
    };
    if start < 0 {
        lemma_scan_reaches_idr(d, p, i + 1);
    } else if d[start] % 32 != 5 {
        assert(d[start - 1] == 1);
        assert(start <= p);
        lemma_scan_reaches_idr(d, p, start + 1);
    }
}

/// An IDR slice anywhere in a stream is found: whatever bytes come first, a
/// `00 00 00 01` start code followed by a NAL header of type 5 and at least one byte
/// of slice data makes the stream a keyframe (an access unit's SPS and PPS in front
/// of its IDR slice do not hide it).
pub proof fn lemma_idr_anywhere_is_keyframe(front: Seq<u8>, header: u8, slice: Seq<u8>)
    requires
        header % 32 == 5,
        slice.len() >= 1,
    ensures
        scan_idr(front + seq![0u8, 0u8, 0u8, 1u8, header] + slice, 0),
{
    let d = front + seq![0u8, 0u8, 0u8, 1u8, header] + slice;
    let p = front.len() as int;
    assert(d[p] == 0 && d[p + 1] == 0 && d[p + 2] == 0 && d[p + 3] == 1 && d[p + 4] == header);
    lemma_scan_reaches_idr(d, p, 0);
}

/// A stream with no byte that reads as an IDR NAL header is never a keyframe.
pub proof fn lemma_no_idr_header_not_keyframe(d: Seq<u8>, i: int)
    requires
        forall|k: int| 0 <= k < d.len() ==> #[trigger] d[k] % 32 != 5,
    ensures
        !scan_idr(d, i),
    decreases d.len() - i,
{
    if !(i < 0 || i + 4 >= d.len()) {
        lemma_no_idr_header_not_keyframe(d, i + 1);
        let start: int = if d[i] == 0 && d[i + 1] == 0 && d[i + 2] == 0 && d[i + 3] == 1 {
            i + 4
        } else if d[i] == 0 && d[i + 1] == 0 && d[i + 2] == 1 {
            i + 3
        } else {
            -1
        };
        if start >= 0 && start < d.len() {
            lemma_no_idr_header_not_keyframe(d, start + 1);
        }
    }
}

/// True if the Annex-B stream carries an IDR slice (NAL type 5).
pub fn annex_b_is_keyframe(data: &[u8]) -> (r: bool)
    ensures
        r == scan_idr(data@, 0),
{
    let len = data.len();
    let mut i: usize = 0;
    while i < len && len - i > 4
        invariant
            len == data@.len(),
            0 <= i,
            scan_idr(data@, i as int) == scan_idr(data@, 0),
        decreases len - i,
    {
        let start = if data[i] == 0 && data[i + 1] == 0 && data[i + 2] == 0 && data[i + 3] == 1 {
            i + 4
        } else if data[i] == 0 && data[i + 1] == 0 && data[i + 2] == 1 {
            i + 3
        } else {
            i += 1;
            continue ;
        };
        if start >= len {
            return false;
        }
        if data[start] % 32 == 5 {
            return true;
        }
        i = start + 1;
    }
    false
}

/// A fragment survives the wire whenever its index is a data slot or the parity slot.
pub proof fn lemma_frag_roundtrip(f: FragmentV)
    requires
        f.frag_count != 0,
        f.frag_idx <= f.frag_count,
    ensures
        spec_frag_decode(spec_frag_encode(f)) == Ok::<FragmentV, VideoCodecError>(f),
{
    let s = spec_frag_encode(f);
    assert(s.len() == 26 + f.payload.len());
    assert(s.subrange(0, 4) =~= video_magic());
    assert(s[4] == 3);
    assert(s.subrange(6, 8) =~= u16_le(f.width));
    assert(s.subrange(8, 10) =~= u16_le(f.height));
    assert(s.subrange(10, 14) =~= u32_le(f.seq));
    assert(s.subrange(14, 16) =~= u16_le(f.frag_idx));
    assert(s.subrange(16, 18) =~= u16_le(f.frag_count));
    assert(s.subrange(18, 26) =~= u64_le(f.stamp_us));
    lemma_u16_le(f.width, s, 6);
    lemma_u16_le(f.height, s, 8);
    lemma_u32_le(f.seq, s, 10);
    lemma_u16_le(f.frag_idx, s, 14);
    lemma_u16_le(f.frag_count, s, 16);
    lemma_u64_le(f.stamp_us, s, 18);
    assert(s.subrange(26, s.len() as int) =~= f.payload);
}

} // verus!
