//! Three-friend WAN bandwidth arithmetic: what the host uplink carries when one
//! encode fans out to every remote seat, and what one access unit costs on the
//! `CLVD` channel.
use vstd::prelude::*;
use crate::host::link_gov::{spec_rungs_from, EncodeTarget};
use crate::proto::video_frame::{data_frag, n_chunks, spec_frag_encode, VideoAccessUnit};

verus! {

/// Remote seats the host fans the same encode out to.
pub const N_FRIENDS: u32 = 3;
/// Paths the healthy WebCodecs case is modelled with.
pub const PATHS_WEBCODECS: u32 = 1;
/// The governor's clean windows before a climb.
pub const UP_AFTER_CLEAN_WINDOWS: u32 = 8;
/// The governor's bad-window trigger.
pub const DOWN_TRIGGER_PCT: u32 = 8;
/// Pad frame size and rate.
pub const PAD_FRAME_LEN: u32 = 31;
pub const PAD_HZ: u32 = 250;

/// The live WAN floor observed in a session: 720p at 15 fps, 2500 kbps.
pub fn live_trickle() -> (r: EncodeTarget)
    ensures
        r == (EncodeTarget { width: 1280, height: 720, fps: 15, bitrate_kbps: 2_500 }),
{
    EncodeTarget { width: 1280, height: 720, fps: 15, bitrate_kbps: 2_500 }
}

/// The governor tests' baseline: 720p60 at 10 Mbps.
pub fn p720() -> (r: EncodeTarget)
    ensures
        r == (EncodeTarget { width: 1280, height: 720, fps: 60, bitrate_kbps: 10_000 }),
{
    EncodeTarget { width: 1280, height: 720, fps: 60, bitrate_kbps: 10_000 }
}

/// The governor's ladder from `baseline`, as the WAN model uses it: the same
/// construction as the governor, so a ladder change shows up in both.
pub fn rungs_from(baseline: &EncodeTarget) -> (r: Vec<EncodeTarget>)
    ensures
        r@ == spec_rungs_from(*baseline),
{
    crate::host::link_gov::rungs_from(baseline)
}

/// Host uplink for `n` viewers over `paths` paths each: the encoder bitrate times
/// both, saturating at `u32::MAX`.
pub fn host_uplink_kbps(enc_kbps: u32, n: u32, paths: u32) -> (r: u32)
    ensures
        r == (if enc_kbps * n * paths > u32::MAX { u32::MAX as int } else { enc_kbps * n * paths }),
{
    assert(enc_kbps as int * n as int <= u64::MAX) by (nonlinear_arith)
        requires
            enc_kbps <= u32::MAX,
            n <= u32::MAX,
    ;
    let a: u64 = enc_kbps as u64 * n as u64;
    let first: u32 = if a > u32::MAX as u64 { u32::MAX } else { a as u32 };
    assert(first as int * paths as int <= u64::MAX) by (nonlinear_arith)
        requires
            first <= u32::MAX,
            paths <= u32::MAX,
    ;
    let b: u64 = first as u64 * paths as u64;
    let r: u32 = if b > u32::MAX as u64 { u32::MAX } else { b as u32 };
    proof {
        lemma_saturating_product(enc_kbps as int, n as int, paths as int, first as int);
    }
    r
}

proof fn lemma_saturating_product(e: int, n: int, p: int, first: int)
    requires
        0 <= e,
        0 <= n,
        0 <= p,
        first == (if e * n > u32::MAX { u32::MAX as int } else { e * n }),
    ensures
        (if first * p > u32::MAX { u32::MAX as int } else { first * p })
            == (if e * n * p > u32::MAX { u32::MAX as int } else { e * n * p }),
{
    if e * n > u32::MAX {
        if p > 0 {
            assert(first * p >= first) by (nonlinear_arith)
                requires
                    p > 0,
                    first >= 0,
            ;
            assert(e * n * p >= e * n) by (nonlinear_arith)
                requires
                    p > 0,
                    e * n >= 0,
            ;
        } else {
            assert(first * p == 0 && e * n * p == 0) by (nonlinear_arith)
                requires
                    p == 0,
            ;
        }
    }
}

/// The one-path governor bench replayed: 400 windows of a 720p60 encode over a
/// link carrying 24 fps, with no governor: frames shed, frames delivered, and wire
/// bytes when every shed frame costs a 60 kB keyframe and every delivered one a
/// 4 kB delta.
pub fn reconstruct_one_path_gov_bench() -> (r: (u32, u32, u64))
    ensures
        r == (1600u32, 800u32, 99_200_000u64),
{
    let fps = p720().fps;
    let emitted: u32 = if fps / 10 > 1 { fps / 10 } else { 1 };
    let carry: u32 = if 24 / 10 > 1 { 24 / 10 } else { 1 };
    let shed_per: u32 = if emitted > carry { emitted - carry } else { 0 };
    let delivered_per: u32 = if emitted < carry { emitted } else { carry };
    let shed_total = shed_per * 400;
    let delivered_total = delivered_per * 400;
    let wire = shed_total as u64 * 60_000 + delivered_total as u64 * 4_000;
    (shed_total, delivered_total, wire)
}

/// Wire bytes of one access unit of `len` bytes on `CLVD`: a 26-byte header per data
/// fragment plus the payload, and with FEC on a multi-fragment unit one parity
/// fragment of 26 + 2 + 14000 bytes.
pub open spec fn spec_clvd_wire_bytes(len: int, fec: bool) -> int {
    26 * n_chunks(len) + len + if fec && n_chunks(len) > 1 { 26 + 2 + 14000 } else { 0 }
}

/// `CLVD` wire bytes for one access unit of `annex_b_len` zero bytes.
pub fn clvd_wire_bytes(annex_b_len: usize, fec: bool) -> (r: usize)
    requires
        annex_b_len <= 65535 * 14000,
    ensures
        r == spec_clvd_wire_bytes(annex_b_len as int, fec),
{
    let mut payload: Vec<u8> = Vec::with_capacity(annex_b_len);
    let mut i: usize = 0;
    while i < annex_b_len
        invariant
            i <= annex_b_len,
            payload@.len() == i,
        decreases annex_b_len - i,
    {
        payload.push(0);
        i += 1;
    }
    let au = VideoAccessUnit {
        seq: 1,
        width: 1280,
        height: 720,
        keyframe: annex_b_len >= 20_000,
        annex_b: payload,
        stamp_us: 0,
    };
    let frags = if fec {
        au.encode_fragments_with_fec()
    } else {
        au.encode_fragments()
    };
    let ghost n = n_chunks(annex_b_len as int);
    let ghost len = annex_b_len as int;
    proof {
        assert(n * 14000 >= len && (n - 1) * 14000 < len || len == 0) by (nonlinear_arith)
            requires
                n == (if len <= 0 { 1 } else { (len + 13999) / 14000 }),
                len >= 0,
        ;
    }
    let n_exec = n_chunks_exec(annex_b_len);
    let mut total: usize = 0;
    let mut k: usize = 0;
    while k < n_exec
        invariant
            k <= n_exec,
            n_exec == n,
            len == au.annex_b@.len(),
            len <= 65535 * 14000,
            n == n_chunks(len),
            n * 14000 >= len,
            len > 0 ==> (n - 1) * 14000 < len,
            n <= frags@.len(),
            forall|j: int| 0 <= j < n ==> #[trigger] frags@[j]@ == spec_frag_encode(data_frag(au@, j)),
            total == 26 * k + (if k * 14000 < len { k * 14000 } else { len }),
        decreases n_exec - k,
    {
        assert(frags@[k as int]@ == spec_frag_encode(data_frag(au@, k as int)));
        assert(frags@[k as int]@.len() == 26 + data_frag(au@, k as int).payload.len());
        assert(k * 14000 <= len) by (nonlinear_arith)
            requires
                k < n,
                len > 0 ==> (n - 1) * 14000 < len,
                len == 0 ==> n == 1,
                len >= 0,
        ;
        total = total + frags[k].len();
        k += 1;
    }
    if fec && n_exec > 1 {
        assert(frags@[n]@.len() == 26 + 2 + 14000);
        total = total + frags[n_exec].len();
    }
    total
}

fn n_chunks_exec(len: usize) -> (r: usize)
    requires
        len <= 65535 * 14000,
    ensures
        r == n_chunks(len as int),
{
    if len == 0 {
        1
    } else {
        (len + 13999) / 14000
    }
}

} // verus!
