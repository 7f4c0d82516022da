//! The per-peer decisions of the WebRTC host: which of the two video paths (RTP
//! media track, `CLVD` DataChannel) a frame takes, how the fan-out of one frame is
//! counted for the link governor, and when a congested peer is isolated.
use vstd::prelude::*;
use crate::pad::virtual_pad::{PadDevice, VirtualPad};
use crate::proto::pad_frame::{spec_pad_decode, PadCodecError, PadFrame};
use crate::proto::text::{
    ascii_lower, ascii_lower_range, chars_of, chars_to_string, contains_lit, contains_sub, find_from, first_from,
    has_prefix, lemma_first_from_range, lit_at, push_lit, push_range, str_eq, trim, trim_bounds,
};

verus! {

/// Path not reported yet (or the `clvd` / `binary` aliases): full RTP plus thin CLVD.
pub const PATH_UNKNOWN: u8 = 0;
/// WebCodecs viewer: full RTP for paint, thin CLVD for the photon metric.
pub const PATH_WEBCODECS: u8 = 1;
/// Safari / no WebCodecs: RTP only.
pub const PATH_RTP: u8 = 2;
/// Join / stall rescue: full RTP plus thin CLVD.
pub const PATH_WARMUP: u8 = 3;

/// Coalesce window for CLVD/viewer-triggered keyframe requests.
pub const KEYFRAME_COALESCE_MS: u64 = 750;
/// Coalesce window for the hybrid-dual keyframe retry.
pub const KEYFRAME_COALESCE_DUAL_MS: u64 = 3000;
/// Grace after a promote to WebCodecs before FEC parity joins the CLVD channel.
pub const FEC_PROMOTE_GRACE_MS: u64 = 1500;

/// Which of (RTP, DataChannel) a path writes: RTP only for `PATH_RTP`, both otherwise.
///
/// A WebCodecs viewer keeps full RTP too (hybrid): the visible picture is always
/// painted from RTP, and CLVD rides thinned beside it for WebCodecs and the input
/// watermark. Turning RTP off for WebCodecs (CLVD only) left viewers that never
/// painted, or fell back to keyframes only; the promote tests of this module pin
/// `(true, true)` for that path.
pub open spec fn spec_path_flags(path: u8) -> (bool, bool) {
    if path == PATH_RTP { (true, false) } else { (true, true) }
}

pub fn path_flags(path: u8) -> (r: (bool, bool))
    ensures
        r == spec_path_flags(path),
{
    if path == PATH_RTP {
        (true, false)
    } else {
        (true, true)
    }
}

/// Whether a frame goes on the RTP media track: every frame, whenever the path
/// enables RTP.
pub fn should_send_rtp(keyframe: bool, path: u8, full_dual: bool) -> (r: bool)
    ensures
        r == spec_path_flags(path).0,
{
    let (send_rtp, _) = path_flags(path);
    send_rtp
}

/// Whether a frame goes on the CLVD DataChannel: never on an RTP-only path; every
/// frame when full dual is forced (`full_dual`, from the environment); otherwise
/// keyframes and every second sequence number.
pub fn should_send_clvd(keyframe: bool, path: u8, seq: u32, full_dual: bool) -> (r: bool)
    ensures
        r == (spec_path_flags(path).1 && (full_dual || keyframe || seq % 2 == 0)),
{
    let (_, send_dc) = path_flags(path);
    if !send_dc {
        return false;
    }
    if full_dual {
        return true;
    }
    keyframe || seq % 2 == 0
}

/// The path a client report names; anything unrecognised is `PATH_UNKNOWN`.
pub open spec fn spec_parse_present_path(p: Seq<char>) -> u8 {
    if p == "webcodecs"@ {
        PATH_WEBCODECS
    } else if p == "rtp"@ {
        PATH_RTP
    } else if p == "warmup"@ {
        PATH_WARMUP
    } else {
        PATH_UNKNOWN
    }
}

pub fn parse_present_path(path: &str) -> (r: u8)
    ensures
        r == spec_parse_present_path(path@),
{
    if str_eq(path, "webcodecs") {
        PATH_WEBCODECS
    } else if str_eq(path, "rtp") {
        PATH_RTP
    } else if str_eq(path, "warmup") {
        PATH_WARMUP
    } else {
        PATH_UNKNOWN
    }
}

/// What a change of reported path asks of the peer.
#[derive(Debug, Clone, Copy, PartialEq, Eq, Structural)]
pub struct PathFlip {
    /// The path actually changed.
    pub changed: bool,
    /// RTP was switched on or off, so the shared encoder owes a keyframe.
    pub request_keyframe: bool,
    /// The peer was just promoted to WebCodecs: stamp the moment for the FEC grace.
    pub stamp_promote: bool,
}

/// Going from path `prev` to path `next`: a keyframe only when RTP enablement
/// changes, a promote stamp only on entering `PATH_WEBCODECS`.
pub fn present_path_flip(prev: u8, next: u8) -> (r: PathFlip)
    ensures
        r.changed == (prev != next),
        r.request_keyframe == (prev != next && spec_path_flags(prev).0 != spec_path_flags(next).0),
        r.stamp_promote == (prev != next && next == PATH_WEBCODECS),
{
    if prev == next {
        return PathFlip { changed: false, request_keyframe: false, stamp_promote: false };
    }
    let (rtp_prev, _) = path_flags(prev);
    let (rtp_next, _) = path_flags(next);
    PathFlip { changed: true, request_keyframe: rtp_prev != rtp_next, stamp_promote: next == PATH_WEBCODECS }
}

/// True when a peer sends both RTP and CLVD.
pub fn hybrid_dual(path: u8) -> (r: bool)
    ensures
        r == (spec_path_flags(path).0 && spec_path_flags(path).1),
{
    let (send_rtp, send_dc) = path_flags(path);
    send_rtp && send_dc
}

/// A keyframe request passes the coalesce gate when at least `min_gap_ms` passed
/// since the last one that did (`now` before `last` counts as no time passed).
pub fn coalesce_keyframe_request_within(now_ms: u64, last_ms: u64, min_gap_ms: u64) -> (r: bool)
    ensures
        r == (if now_ms >= last_ms { now_ms - last_ms } else { 0 } >= min_gap_ms),
{
    let gap: u64 = if now_ms >= last_ms { now_ms - last_ms } else { 0 };
    gap >= min_gap_ms
}

/// The input watermark after a pad frame with sequence `seq` applied: it only moves up.
pub fn note_input_wm(cur: u32, seq: u32) -> (r: u32)
    ensures
        r == (if seq > cur { seq } else { cur }),
{
    if seq <= cur {
        cur
    } else {
        seq
    }
}

/// How pushing one frame to one peer ended.
#[derive(Debug, Clone, Copy, PartialEq, Eq, Structural)]
pub enum PushFate {
    Delivered,
    Shed,
    TrickleSkip,
}

/// Number of `Shed` fates in `f`.
pub open spec fn count_shed(f: Seq<PushFate>) -> nat
    decreases f.len(),
{
    if f.len() == 0 {
        0
    } else {
        count_shed(f.drop_last()) + if f.last() == PushFate::Shed { 1nat } else { 0nat }
    }
}

/// Aggregate the fan-out fates of one frame: whether any peer got it, and how many
/// peers shed it for congestion (a trickle skip is not a shed).
pub fn governor_shed_counts(fates: &[PushFate]) -> (r: (bool, u64))
    ensures
        r.0 == (exists|k: int| 0 <= k < fates@.len() && fates@[k] == PushFate::Delivered),
        r.1 == count_shed(fates@),
{
    let mut any = false;
    let mut shed: u64 = 0;
    let mut i: usize = 0;
    while i < fates.len()
        invariant
            i <= fates@.len(),
            any == (exists|k: int| 0 <= k < i && fates@[k] == PushFate::Delivered),
            shed == count_shed(fates@.take(i as int)),
            shed <= i,
        decreases fates.len() - i,
    {
        assert(fates@.take(i + 1).drop_last() =~= fates@.take(i as int));
        if fates[i] == PushFate::Delivered {
            any = true;
        }
        if fates[i] == PushFate::Shed {
            shed = shed + 1;
        }
        i += 1;
    }
    assert(fates@.take(fates@.len() as int) =~= fates@);
    (any, shed)
}

/// Frame-level shed for the link governor: 1 only when no peer got the frame (and
/// there was at least one peer).
pub fn governor_frame_shed(fates: &[PushFate]) -> (r: u64)
    ensures
        r == (if fates@.len() > 0 && !(exists|k: int| 0 <= k < fates@.len() && fates@[k] == PushFate::Delivered) {
            1int
        } else {
            0int
        }),
{
    if fates.len() == 0 {
        return 0;
    }
    let (any, _) = governor_shed_counts(fates);
    if any {
        0
    } else {
        1
    }
}

/// Sustained sheds that isolate a peer into trickle mode.
pub fn should_enter_trickle(shed_streak: u32) -> (r: bool)
    ensures
        r == (shed_streak >= 8),
{
    shed_streak >= 8
}

/// Consecutive deliveries that bring a peer out of trickle mode.
pub fn should_exit_trickle(ok_streak: u32) -> (r: bool)
    ensures
        r == (ok_streak >= 4),
{
    ok_streak >= 4
}

/// Slow-peer isolation state of one peer.
#[derive(Debug, Clone, Copy, PartialEq, Eq, Structural, Default)]
pub struct Trickle {
    pub trickle: bool,
    pub shed_streak: u32,
    pub ok_streak: u32,
}

impl Trickle {
    /// A frame was shed for this peer: the delivery streak restarts and the shed
    /// streak grows (wrapping like the atomic it stands for); the eighth shed in a
    /// row enters trickle mode. Returns whether it entered just now.
    pub fn note_shed(&mut self) -> (r: bool)
        ensures
            final(self).ok_streak == 0,
            final(self).shed_streak == (old(self).shed_streak + 1) % 0x1_0000_0000,
            final(self).trickle == (old(self).trickle || final(self).shed_streak >= 8),
            r == (!old(self).trickle && final(self).shed_streak >= 8),
    {
        self.ok_streak = 0;
        let s: u32 = if self.shed_streak == u32::MAX { 0 } else { self.shed_streak + 1 };
        self.shed_streak = s;
        if should_enter_trickle(s) && !self.trickle {
            self.trickle = true;
            return true;
        }
        false
    }

    /// A frame reached this peer: the shed streak restarts; in trickle mode the
    /// delivery streak grows and the fourth delivery in a row leaves trickle mode.
    /// Returns whether it left just now.
    pub fn note_delivered(&mut self) -> (r: bool)
        ensures
            final(self).shed_streak == 0,
            !old(self).trickle ==> final(self).trickle == false && final(self).ok_streak == old(self).ok_streak
                && !r,
            old(self).trickle ==> {
                let o = (old(self).ok_streak + 1) % 0x1_0000_0000;
                &&& r == (o >= 4)
                &&& final(self).trickle == (o < 4)
                &&& final(self).ok_streak == (if o >= 4 { 0 } else { o })
            },
    {
        self.shed_streak = 0;
        if !self.trickle {
            return false;
        }
        let o: u32 = if self.ok_streak == u32::MAX { 0 } else { self.ok_streak + 1 };
        self.ok_streak = o;
        if should_exit_trickle(o) {
            self.trickle = false;
            self.ok_streak = 0;
            return true;
        }
        false
    }

    pub fn in_trickle(&self) -> (r: bool)
        ensures
            r == self.trickle,
    {
        self.trickle
    }
}

/// The "expedite" latch: any friend's pad report sets it, the video loop takes it
/// once. Ten pads before a take still give one `true`.
#[derive(Debug, Clone, Copy, PartialEq, Eq, Structural, Default)]
pub struct Expedite {
    pub pending: bool,
}

/// The latch after `n` pad frames were applied.
pub open spec fn after_pads(e: Expedite, wake_on_input: bool, n: nat) -> Expedite
    decreases n,
{
    if n == 0 {
        e
    } else {
        Expedite { pending: after_pads(e, wake_on_input, (n - 1) as nat).pending || wake_on_input }
    }
}

/// After a take, the next take is true exactly when at least one pad frame arrived
/// with wake-on-input enabled in between, however many did; the take after that is
/// false again.
pub proof fn lemma_expedite_once_per_burst(n: nat, wake_on_input: bool)
    ensures
        after_pads(Expedite { pending: false }, wake_on_input, n).pending == (n >= 1 && wake_on_input),
    decreases n,
{
    if n > 0 {
        lemma_expedite_once_per_burst((n - 1) as nat, wake_on_input);
    }
}

impl Expedite {
    /// A pad frame was applied; with wake-on-input enabled the latch is set.
    pub fn note_pad_arrived(&mut self, wake_on_input: bool)
        ensures
            *final(self) == (Expedite { pending: old(self).pending || wake_on_input }),
    {
        if wake_on_input {
            self.pending = true;
        }
    }

    /// Take the latch: whether it was set, leaving it clear.
    pub fn take_expedite(&mut self) -> (r: bool)
        ensures
            r == old(self).pending,
            !final(self).pending,
    {
        let r = self.pending;
        self.pending = false;
        r
    }
}

/// The keyframe request a failed or congested CLVD push makes of the shared encoder.
#[derive(Debug, Clone, Copy, PartialEq, Eq, Structural)]
pub enum KeyframeAsk {
    Nothing,
    /// One coalesced request.
    Coalesced,
    /// One coalesced request that also reaches the RTP path.
    CoalescedDual,
}

/// What one CLVD push of an access unit came to.
#[derive(Debug, Clone, Copy, PartialEq, Eq, Structural)]
pub struct ClvdOutcome {
    pub delivered: bool,
    pub trickle_skip: bool,
    pub ask: KeyframeAsk,
}

/// Whether an access unit goes out on CLVD at all: the thinning rule allows it, or
/// the channel is open and slack (below half its buffer cap) while RTP carries the
/// picture, for a non-key frame.
pub fn clvd_wants_send(thin_ok: bool, dc_open: bool, keyframe: bool, send_rtp: bool, below_half_buffer: bool) -> (r: bool)
    ensures
        r == (thin_ok || (dc_open && !keyframe && send_rtp && below_half_buffer)),
{
    thin_ok || (dc_open && !keyframe && send_rtp && below_half_buffer)
}

/// The outcome of a CLVD push that was attempted: on an open, uncongested channel
/// `sent_all` says whether every fragment went out; a failed send asks for a
/// keyframe only where RTP is not the picture (or, for a keyframe under RTP, one
/// request that reaches both paths). On a congested channel a non-key frame asks
/// for a keyframe when RTP is not the picture and counts as a trickle skip while
/// the peer trickles. The shared encoder is never asked for a keyframe for a shed
/// P-frame while RTP is live.
pub fn clvd_outcome(dc_open: bool, congested: bool, sent_all: bool, keyframe: bool, send_rtp: bool, trickle: bool) -> (o: ClvdOutcome)
    ensures
        dc_open && !congested ==> o == (ClvdOutcome {
            delivered: sent_all,
            trickle_skip: false,
            ask: if sent_all {
                KeyframeAsk::Nothing
            } else if !send_rtp {
                KeyframeAsk::Coalesced
            } else if keyframe {
                KeyframeAsk::CoalescedDual
            } else {
                KeyframeAsk::Nothing
            },
        }),
        dc_open && congested && !keyframe ==> o == (ClvdOutcome {
            delivered: false,
            trickle_skip: trickle,
            ask: if !send_rtp { KeyframeAsk::Coalesced } else { KeyframeAsk::Nothing },
        }),
        !dc_open || (congested && keyframe) ==> o == (ClvdOutcome {
            delivered: false,
            trickle_skip: false,
            ask: KeyframeAsk::Nothing,
        }),
        o.ask == KeyframeAsk::Coalesced ==> !send_rtp,
        send_rtp && !keyframe ==> o.ask == KeyframeAsk::Nothing,
{
    if dc_open && !congested {
        let ask = if sent_all {
            KeyframeAsk::Nothing
        } else if !send_rtp {
            KeyframeAsk::Coalesced
        } else if keyframe {
            KeyframeAsk::CoalescedDual
        } else {
            KeyframeAsk::Nothing
        };
        ClvdOutcome { delivered: sent_all, trickle_skip: false, ask }
    } else if dc_open && congested && !keyframe {
        ClvdOutcome {
            delivered: false,
            trickle_skip: trickle,
            ask: if !send_rtp { KeyframeAsk::Coalesced } else { KeyframeAsk::Nothing },
        }
    } else {
        ClvdOutcome { delivered: false, trickle_skip: false, ask: KeyframeAsk::Nothing }
    }
}

/// The fate of one frame pushed to one peer: delivered when RTP wrote it or CLVD
/// sent all of it; a trickle skip when only the trickle gate held it back; shed
/// otherwise.
pub fn push_fate(rtp_written: bool, clvd: Option<ClvdOutcome>) -> (f: PushFate)
    ensures
        f == (if rtp_written || (clvd is Some && clvd->0.delivered) {
            PushFate::Delivered
        } else if clvd is Some && clvd->0.trickle_skip {
            PushFate::TrickleSkip
        } else {
            PushFate::Shed
        }),
{
    let (d, t) = match clvd {
        Some(o) => (o.delivered, o.trickle_skip),
        None => (false, false),
    };
    if rtp_written || d {
        PushFate::Delivered
    } else if t {
        PushFate::TrickleSkip
    } else {
        PushFate::Shed
    }
}

/// Bytes the video DataChannel may hold queued before a P-frame push counts as
/// congested (24 KiB: about 39 ms at 5 Mbps).
pub const VIDEO_DC_MAX_BUFFERED: usize = 24 * 1024;
/// The larger ceiling a keyframe may queue up to, so a multi-fragment IDR completes.
pub const VIDEO_DC_MAX_BUFFERED_IDR: usize = 256 * 1024;

/// The video DataChannel is congested for this frame: more is queued than its cap
/// (the keyframe cap for a keyframe).
pub fn video_dc_congested(buffered: usize, keyframe: bool) -> (r: bool)
    ensures
        r == (buffered > (if keyframe { VIDEO_DC_MAX_BUFFERED_IDR } else { VIDEO_DC_MAX_BUFFERED })),
{
    let cap = if keyframe { VIDEO_DC_MAX_BUFFERED_IDR } else { VIDEO_DC_MAX_BUFFERED };
    buffered > cap
}

/// Why a pad message from a peer was not injected.
#[derive(Debug)]
pub enum PadApplyError {
    /// The bytes are not a CLPD frame.
    Decode(PadCodecError),
    /// The virtual pad refused the frame.
    Device(String),
}

/// Decode a CLPD frame from a peer's pad DataChannel message and inject it. Bytes
/// that do not decode are refused before the pad sees anything; the no-op pad
/// accepts every frame that decodes.
pub fn apply_pad_bytes<D: PadDevice>(pad: &mut VirtualPad<D>, data: &[u8]) -> (r: Result<(), PadApplyError>)
    ensures
        match spec_pad_decode(data@) {
            Err(e) => r == Err::<(), PadApplyError>(PadApplyError::Decode(e)) && *final(pad) == *old(pad),
            Ok(_) => (*old(pad) is Noop ==> r is Ok) && (r matches Err(x) ==> x is Device),
        },
{
    let frame = match PadFrame::decode(data) {
        Ok(f) => f,
        Err(e) => return Err(PadApplyError::Decode(e)),
    };
    match pad.apply(&frame) {
        Ok(()) => Ok(()),
        Err(e) => Err(PadApplyError::Device(e)),
    }
}

/// The pad a player's peer drives: the device the host opened for the slot, or, when
/// no backend could be opened, the no-op pad, so the host still streams video.
pub fn create_virtual_pad<D: PadDevice>(opened: Result<D, String>) -> (p: VirtualPad<D>)
    ensures
        match opened {
            Ok(d) => p == VirtualPad::Live(d),
            Err(_) => p is Noop,
        },
{
    match opened {
        Ok(d) => VirtualPad::Live(d),
        Err(_) => VirtualPad::Noop,
    }
}

/// The TURN URLs handed to ICE for a configured relay: the URL as given and, unless
/// it already asks for TCP (in any case), the same URL with `transport=tcp` appended
/// (after `&` when it has a query, else `?`): behind WSL or a carrier NAT, UDP TURN
/// often fails where TCP gets through.
pub open spec fn spec_turn_urls(url: Seq<char>) -> Seq<Seq<char>> {
    if contains_sub(ascii_lower(url), "transport=tcp"@) {
        seq![url]
    } else {
        seq![url, url + (if contains_sub(url, "?"@) { "&"@ } else { "?"@ }) + "transport=tcp"@]
    }
}

pub open spec fn string_views(v: Seq<String>) -> Seq<Seq<char>> {
    v.map_values(|s: String| s@)
}

pub fn turn_urls(url: &str) -> (r: Vec<String>)
    ensures
        string_views(r@) == spec_turn_urls(url@),
{
    let v = chars_of(url);
    let lower = ascii_lower_range(&v, 0, v.len());
    assert(v@.subrange(0, v@.len() as int) =~= v@);
    let mut out: Vec<String> = Vec::new();
    out.push(chars_to_string(&v));
    if !contains_lit(&lower, "transport=tcp") {
        let mut tcp = v.clone();
        assert(tcp@ =~= v@);
        if contains_lit(&v, "?") {
            push_lit(&mut tcp, "&");
        } else {
            push_lit(&mut tcp, "?");
        }
        push_lit(&mut tcp, "transport=tcp");
        out.push(chars_to_string(&tcp));
    }
    assert(string_views(out@) =~= spec_turn_urls(url@));
    out
}

/// Whether FEC parity joins the CLVD fragments of a frame: only when FEC is on, the
/// viewer paints from WebCodecs, and RTP is not live for this frame (parity while
/// RTP runs taxes the shared link for nothing).
pub fn use_fec(fec_enabled: bool, path: u8, send_rtp: bool) -> (r: bool)
    ensures
        r == (fec_enabled && path == PATH_WEBCODECS && !send_rtp),
{
    fec_enabled && path == PATH_WEBCODECS && !send_rtp
}

/// FEC is on unless `COUCHLINK_FEC` is `0` or `false`.
pub fn fec_enabled_from(setting: Option<&str>) -> (r: bool)
    ensures
        r == match setting {
            Some(v) => !(v@ == "0"@ || v@ == "false"@),
            None => true,
        },
{
    match setting {
        Some(v) => !(str_eq(v, "0") || str_eq(v, "false")),
        None => true,
    }
}

/// Whether ICE gathers host candidates on interface `iface`: not on Docker bridges
/// (`br-*`, `docker0`), whose candidates only crowd out the pairs that connect.
pub fn gather_on_interface(iface: &str) -> (r: bool)
    ensures
        r == !(has_prefix(iface@, "br-"@) || iface@ == "docker0"@),
{
    let v = chars_of(iface);
    !(lit_at(&v, 0, "br-") || str_eq(iface, "docker0"))
}

/// The address family of a NAT 1:1 address.
#[derive(Debug, Clone, Copy, PartialEq, Eq, Structural)]
pub enum IpFamily {
    V4,
    V6,
}

/// The shape of a configured NAT 1:1 entry, before its addresses are parsed.
#[derive(Debug, Clone, PartialEq, Eq)]
pub enum NatShape {
    /// Only white space.
    Blank,
    /// One address: the trimmed text.
    Sole(String),
    /// An `external/local` pair: the trimmed text, then its two sides.
    Pair(String, String, String),
    /// More than one `/`.
    Malformed,
}

/// How a NAT 1:1 entry splits: trimmed, blank, one address, `external/local`
/// around its one `/`, or malformed with more `/`s.
pub open spec fn spec_nat_shape(raw: Seq<char>) -> (int, Seq<char>, Seq<char>, Seq<char>) {
    let t = trim(raw);
    let i = first_from(t, '/', 0);
    if t.len() == 0 {
        (0, t, seq![], seq![])
    } else if i == -1 {
        (1, t, seq![], seq![])
    } else if first_from(t, '/', i + 1) != -1 {
        (3, t, seq![], seq![])
    } else {
        (2, t, t.subrange(0, i), t.subrange(i + 1, t.len() as int))
    }
}

pub fn nat_entry_shape(raw: &str) -> (r: NatShape)
    ensures
        ({
            let (k, t, e, l) = spec_nat_shape(raw@);
            match r {
                NatShape::Blank => k == 0,
                NatShape::Sole(x) => k == 1 && x@ == t,
                NatShape::Pair(x, a, b) => k == 2 && x@ == t && a@ == e && b@ == l,
                NatShape::Malformed => k == 3,
            }
        }),
{
    let v = chars_of(raw);
    let (a, b) = trim_bounds(&v);
    let mut t: Vec<char> = Vec::new();
    push_range(&mut t, &v, a, b);
    assert(t@ =~= trim(raw@));
    if t.len() == 0 {
        return NatShape::Blank;
    }
    proof {
        lemma_first_from_range(t@, '/', 0);
    }
    match find_from(&t, 0, '/') {
        None => NatShape::Sole(chars_to_string(&t)),
        Some(i) => {
            proof {
                lemma_first_from_range(t@, '/', i + 1);
            }
            match find_from(&t, i + 1, '/') {
                Some(_) => NatShape::Malformed,
                None => {
                    let mut e: Vec<char> = Vec::new();
                    push_range(&mut e, &t, 0, i);
                    let mut l: Vec<char> = Vec::new();
                    push_range(&mut l, &t, i + 1, t.len());
                    NatShape::Pair(chars_to_string(&t), chars_to_string(&e), chars_to_string(&l))
                },
            }
        },
    }
}

/// A NAT 1:1 entry with the families its addresses parse to (`None`: not an address).
#[derive(Debug, Clone, PartialEq, Eq)]
pub enum NatEntry {
    Blank,
    Sole(String, Option<IpFamily>),
    Pair(String, Option<IpFamily>, Option<IpFamily>),
    Malformed,
}

/// The kept entries of the first `k` entries, and whether a sole IPv4 and a sole
/// IPv6 were kept: an explicit pair is kept when both sides are addresses of one
/// family; of the sole addresses only the first of each family (the ICE agent takes
/// at most one of each); blank, malformed and unparsable entries are dropped.
pub open spec fn spec_sanitize_nat(e: Seq<NatEntry>) -> (Seq<Seq<char>>, bool, bool)
    decreases e.len(),
{
    if e.len() == 0 {
        (seq![], false, false)
    } else {
        let (out, v4, v6) = spec_sanitize_nat(e.drop_last());
        match e.last() {
            NatEntry::Pair(t, Some(a), Some(b)) => if a == b {
                (out.push(t@), v4, v6)
            } else {
                (out, v4, v6)
            },
            NatEntry::Sole(t, Some(IpFamily::V4)) => if !v4 {
                (out.push(t@), true, v6)
            } else {
                (out, v4, v6)
            },
            NatEntry::Sole(t, Some(IpFamily::V6)) => if !v6 {
                (out.push(t@), v4, true)
            } else {
                (out, v4, v6)
            },
            _ => (out, v4, v6),
        }
    }
}

/// The NAT 1:1 list handed to the ICE agent (see [`spec_sanitize_nat`]): one sole
/// address of a family too many used to make the agent refuse the whole list.
pub fn sanitize_nat_1to1_ips(entries: Vec<NatEntry>) -> (r: Vec<String>)
    ensures
        r@.map_values(|s: String| s@) == spec_sanitize_nat(entries@).0,
{
    let mut out: Vec<String> = Vec::new();
    let mut v4 = false;
    let mut v6 = false;
    let mut i: usize = 0;
    while i < entries.len()
        invariant
            i <= entries@.len(),
            (out@.map_values(|s: String| s@), v4, v6) == spec_sanitize_nat(entries@.take(i as int)),
        decreases entries.len() - i,
    {
        let ghost before = out@;
        assert(entries@.take(i + 1).drop_last() =~= entries@.take(i as int));
        assert(entries@.take(i + 1).last() == entries@[i as int]);
        match &entries[i] {
            NatEntry::Pair(t, Some(a), Some(b)) => {
                if *a == *b {
                    out.push(t.clone());
                }
            },
            NatEntry::Sole(t, Some(IpFamily::V4)) => {
                if !v4 {
                    out.push(t.clone());
                    v4 = true;
                }
            },
            NatEntry::Sole(t, Some(IpFamily::V6)) => {
                if !v6 {
                    out.push(t.clone());
                    v6 = true;
                }
            },
            _ => {},
        }
        assert(out@.map_values(|s: String| s@) =~= spec_sanitize_nat(entries@.take(i + 1)).0);
        i += 1;
    }
    assert(entries@.take(entries@.len() as int) =~= entries@);
    out
}

} // verus!
