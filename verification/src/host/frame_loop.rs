//! The decisions of the host's frame loop between its captures and pushes: whether a
//! raw frame is encoded or skipped as static, when a keyframe is forced (a burst of
//! three after a join, one every two seconds otherwise), how relayed pre-encoded
//! frames are paced, when a first capture looks black, and the five-second window
//! of shed and delivered frames handed to the link governor.
//!
//! Times are milliseconds (nanoseconds for the relay pacing) on a monotonic clock
//! the caller reads; an instant before the recorded one counts as no time elapsed.
use vstd::prelude::*;

verus! {

/// Longest gap between keyframes, so late joiners and stalled decoders resync.
pub const IDR_INTERVAL_MS: u64 = 2_000;
/// Keyframes sent for one forced IDR: one alone can be lost before the browser's
/// decoder is ready.
pub const IDR_BURST: u32 = 3;
/// Most pre-encoded frames relayed in one tick.
pub const RELAY_QUEUE_MAX: usize = 8;
/// Average luma under which a first capture counts as black.
pub const BLACK_LUMA: u64 = 8;
/// Length of a statistics and governor window.
pub const STATS_WINDOW_MS: u64 = 5_000;
/// Bounds of the real gap a relayed burst spreads over, in nanoseconds.
pub const MIN_PUSH_GAP_NS: u64 = 1_000_000;
pub const MAX_PUSH_GAP_NS: u64 = 500_000_000;

/// Time from `at` to `now`, none when `now` is earlier.
pub open spec fn since(now: u64, at: u64) -> int {
    if now >= at {
        now - at
    } else {
        0
    }
}

fn elapsed(now: u64, at: u64) -> (r: u64)
    ensures
        r == since(now, at),
{
    if now >= at {
        now - at
    } else {
        0
    }
}

/// The loop's state across ticks.
#[derive(Debug, Clone, Copy, PartialEq, Eq, Structural)]
pub struct FrameLoop {
    /// A keyframe was asked for (a player joined or a viewer lost its decoder).
    pub force_idr: bool,
    /// Keyframes still owed by the current burst.
    pub idr_burst: u32,
    /// Frames delivered to at least one player.
    pub frames_out: u64,
    /// Raw frames skipped as static in the current window.
    pub idle_frames: u64,
    /// Frames delivered in the current window.
    pub window_frames: u64,
    /// Frames shed by the players' links in the current window.
    pub dropped_frames: u64,
    /// When the current window started.
    pub window_start_ms: u64,
    /// When a raw frame was last encoded.
    pub last_encode_ms: u64,
    /// When the last keyframe was made or requested.
    pub last_idr_ms: u64,
}

/// What to do with a raw captured frame.
#[derive(Debug, Clone, Copy, PartialEq, Eq, Structural)]
pub enum FrameStep {
    /// Static screen between refreshes: no scale, no encode.
    Skip,
    /// Scale and encode it, as a keyframe when asked; check it for a black capture
    /// when it is the first frame.
    Encode { keyframe: bool, check_black: bool },
}

/// The refresh period of a static screen for an idle frame rate (at least 1 fps).
pub open spec fn spec_idle_dur_ms(idle_fps: u32) -> int {
    1000int / (if idle_fps > 1 { idle_fps as int } else { 1int })
}

pub fn idle_dur_ms(idle_fps: u32) -> (r: u64)
    ensures
        r == spec_idle_dur_ms(idle_fps),
{
    1000 / (if idle_fps > 1 { idle_fps as u64 } else { 1 })
}

/// A loop that has sent nothing yet, with its clocks started at `now_ms`.
pub open spec fn spec_frame_loop_start(now_ms: u64) -> FrameLoop {
    FrameLoop {
        force_idr: false,
        idr_burst: 0,
        frames_out: 0,
        idle_frames: 0,
        window_frames: 0,
        dropped_frames: 0,
        window_start_ms: now_ms,
        last_encode_ms: now_ms,
        last_idr_ms: now_ms,
    }
}

/// Whether a raw frame is skipped: the screen is idle, no keyframe is owed, the
/// static-screen refresh is not due, and something was already sent.
pub open spec fn skips(s: FrameLoop, idle: bool, now_ms: u64, idle_dur_ms: u64) -> bool {
    idle && !s.force_idr && s.idr_burst == 0 && since(now_ms, s.last_encode_ms) < idle_dur_ms && s.frames_out > 0
}

/// One raw frame through the loop's decision. A skip counts an idle frame. An encode
/// turns a forced IDR into a burst of [`IDR_BURST`] keyframes; the frame is a
/// keyframe while the burst lasts or once [`IDR_INTERVAL_MS`] passed since the last
/// one, and a keyframe spends one of the burst.
pub open spec fn spec_frame_step(s: FrameLoop, idle: bool, now_ms: u64, idle_dur_ms: u64) -> (FrameLoop, FrameStep) {
    if skips(s, idle, now_ms, idle_dur_ms) {
        (FrameLoop { idle_frames: (s.idle_frames + 1) as u64, ..s }, FrameStep::Skip)
    } else {
        let burst = if s.force_idr { IDR_BURST } else { s.idr_burst };
        let keyframe = burst > 0 || since(now_ms, s.last_idr_ms) >= IDR_INTERVAL_MS;
        (
            FrameLoop {
                force_idr: false,
                idr_burst: if keyframe && burst > 0 { (burst - 1) as u32 } else { burst },
                last_encode_ms: now_ms,
                last_idr_ms: if keyframe { now_ms } else { s.last_idr_ms },
                ..s
            },
            FrameStep::Encode { keyframe, check_black: s.frames_out == 0 },
        )
    }
}

impl FrameLoop {
    pub fn start(now_ms: u64) -> (r: Self)
        ensures
            r == spec_frame_loop_start(now_ms),
    {
        FrameLoop {
            force_idr: false,
            idr_burst: 0,
            frames_out: 0,
            idle_frames: 0,
            window_frames: 0,
            dropped_frames: 0,
            window_start_ms: now_ms,
            last_encode_ms: now_ms,
            last_idr_ms: now_ms,
        }
    }
}

/// Decide a raw frame (see [`spec_frame_step`]); `idle` is the motion detector's
/// verdict on it.
pub fn frame_step(s: FrameLoop, idle: bool, now_ms: u64, idle_dur_ms: u64) -> (r: (FrameLoop, FrameStep))
    requires
        skips(s, idle, now_ms, idle_dur_ms) ==> s.idle_frames < u64::MAX,
    ensures
        r == spec_frame_step(s, idle, now_ms, idle_dur_ms),
{
    if idle && !s.force_idr && s.idr_burst == 0 && elapsed(now_ms, s.last_encode_ms) < idle_dur_ms && s.frames_out
        > 0 {
        return (FrameLoop { idle_frames: s.idle_frames + 1, ..s }, FrameStep::Skip);
    }
    let burst = if s.force_idr { IDR_BURST } else { s.idr_burst };
    let keyframe = burst > 0 || elapsed(now_ms, s.last_idr_ms) >= IDR_INTERVAL_MS;
    (
        FrameLoop {
            force_idr: false,
            idr_burst: if keyframe && burst > 0 { burst - 1 } else { burst },
            last_encode_ms: now_ms,
            last_idr_ms: if keyframe { now_ms } else { s.last_idr_ms },
            ..s
        },
        FrameStep::Encode { keyframe, check_black: s.frames_out == 0 },
    )
}

/// The pre-encoded path, after a relayed burst: a pending forced IDR or burst is
/// asked of the Windows encoder once and cleared; otherwise one is asked for once
/// [`IDR_INTERVAL_MS`] passed since the last keyframe.
pub open spec fn spec_relay_idr(s: FrameLoop, now_ms: u64) -> (FrameLoop, bool) {
    if s.force_idr || s.idr_burst > 0 {
        (FrameLoop { force_idr: false, idr_burst: 0, ..s }, true)
    } else if since(now_ms, s.last_idr_ms) >= IDR_INTERVAL_MS {
        (FrameLoop { last_idr_ms: now_ms, ..s }, true)
    } else {
        (s, false)
    }
}

/// Whether to ask the Windows encoder for a keyframe now (see [`spec_relay_idr`]).
pub fn relay_idr(s: FrameLoop, now_ms: u64) -> (r: (FrameLoop, bool))
    ensures
        r == spec_relay_idr(s, now_ms),
{
    if s.force_idr || s.idr_burst > 0 {
        (FrameLoop { force_idr: false, idr_burst: 0, ..s }, true)
    } else if elapsed(now_ms, s.last_idr_ms) >= IDR_INTERVAL_MS {
        (FrameLoop { last_idr_ms: now_ms, ..s }, true)
    } else {
        (s, false)
    }
}

/// A relayed keyframe went out at `now_ms`.
pub fn note_relayed_keyframe(s: FrameLoop, now_ms: u64) -> (r: FrameLoop)
    ensures
        r == (FrameLoop { last_idr_ms: now_ms, ..s }),
{
    FrameLoop { last_idr_ms: now_ms, ..s }
}

/// A keyframe is owed to a viewer (a join, a decoder that lost its picture).
pub fn request_idr(s: FrameLoop) -> (r: FrameLoop)
    ensures
        r == (FrameLoop { force_idr: true, ..s }),
{
    FrameLoop { force_idr: true, ..s }
}

/// The loop after one push at `now_ms`, and the window handed to the link governor
/// if it closed: the push's sheds are counted; a frame any player received counts
/// as delivered, and once [`STATS_WINDOW_MS`] passed since the window started the
/// window closes with its (shed, delivered) counts, as `u32`s, and a new one starts
/// with all its counts at zero.
pub open spec fn spec_note_push(s: FrameLoop, any: bool, dropped: u64, now_ms: u64) -> (FrameLoop, Option<(u32, u32)>) {
    let s1 = FrameLoop { dropped_frames: (s.dropped_frames + dropped) as u64, ..s };
    if !any {
        (s1, None)
    } else {
        let s2 = FrameLoop {
            frames_out: (s1.frames_out + 1) as u64,
            window_frames: (s1.window_frames + 1) as u64,
            ..s1
        };
        if since(now_ms, s2.window_start_ms) >= STATS_WINDOW_MS {
            (
                FrameLoop { window_start_ms: now_ms, window_frames: 0, idle_frames: 0, dropped_frames: 0, ..s2 },
                Some((s2.dropped_frames as u32, s2.window_frames as u32)),
            )
        } else {
            (s2, None)
        }
    }
}

/// Count one push (see [`spec_note_push`]).
pub fn note_push(s: FrameLoop, any: bool, dropped: u64, now_ms: u64) -> (r: (FrameLoop, Option<(u32, u32)>))
    requires
        s.dropped_frames + dropped <= u64::MAX,
        any ==> s.frames_out < u64::MAX && s.window_frames < u64::MAX,
    ensures
        r == spec_note_push(s, any, dropped, now_ms),
{
    let s1 = FrameLoop { dropped_frames: s.dropped_frames + dropped, ..s };
    if !any {
        return (s1, None);
    }
    let s2 = FrameLoop { frames_out: s1.frames_out + 1, window_frames: s1.window_frames + 1, ..s1 };
    if elapsed(now_ms, s2.window_start_ms) >= STATS_WINDOW_MS {
        (
            FrameLoop { window_start_ms: now_ms, window_frames: 0, idle_frames: 0, dropped_frames: 0, ..s2 },
            Some((s2.dropped_frames as u32, s2.window_frames as u32)),
        )
    } else {
        (s2, None)
    }
}

/// Whether the relay queue of one tick is full.
pub fn relay_queue_full(len: usize) -> (r: bool)
    ensures
        r == (len >= RELAY_QUEUE_MAX),
{
    len >= RELAY_QUEUE_MAX
}

/// The media duration of each relayed frame: the real time since the last push,
/// clamped to 1..=500 ms, spread evenly over the frames queued (at least one).
pub open spec fn spec_relay_frame_gap_ns(elapsed_ns: u64, queued: usize) -> int {
    let g: int = if elapsed_ns < MIN_PUSH_GAP_NS {
        MIN_PUSH_GAP_NS as int
    } else if elapsed_ns > MAX_PUSH_GAP_NS {
        MAX_PUSH_GAP_NS as int
    } else {
        elapsed_ns as int
    };
    g / (if queued > 1 { queued as int } else { 1 })
}

pub fn relay_frame_gap_ns(elapsed_ns: u64, queued: usize) -> (r: u64)
    ensures
        r == spec_relay_frame_gap_ns(elapsed_ns, queued),
{
    let g: u64 = if elapsed_ns < MIN_PUSH_GAP_NS {
        MIN_PUSH_GAP_NS
    } else if elapsed_ns > MAX_PUSH_GAP_NS {
        MAX_PUSH_GAP_NS
    } else {
        elapsed_ns
    };
    let n: u64 = if queued > 1 { queued as u64 } else { 1 };
    g / n
}

/// A first capture whose average luma is under [`BLACK_LUMA`] looks black.
pub fn capture_looks_black(avg_luma: u64) -> (r: bool)
    ensures
        r == (avg_luma < BLACK_LUMA),
{
    avg_luma < BLACK_LUMA
}

/// The first frame is never skipped, and a forced IDR is encoded as a keyframe at
/// once however idle the screen.
pub proof fn lemma_first_and_forced_frames_are_encoded(s: FrameLoop, idle: bool, now_ms: u64, idle_dur_ms: u64)
    requires
        s.frames_out == 0 || s.force_idr,
    ensures
        spec_frame_step(s, idle, now_ms, idle_dur_ms).1 matches FrameStep::Encode { keyframe, .. } && (s.force_idr
            ==> keyframe),
{
}

/// A forced IDR gives a burst: three raw frames encoded in a row after it are all
/// keyframes, whatever the clock says.
pub proof fn lemma_forced_idr_bursts(s: FrameLoop, t1: u64, t2: u64, t3: u64, d: u64)
    requires
        s.force_idr,
    ensures
        ({
            let (s1, a) = spec_frame_step(s, false, t1, d);
            let (s2, b) = spec_frame_step(s1, false, t2, d);
            let (s3, c) = spec_frame_step(s2, false, t3, d);
            &&& a matches FrameStep::Encode { keyframe, .. } && keyframe
            &&& b matches FrameStep::Encode { keyframe, .. } && keyframe
            &&& c matches FrameStep::Encode { keyframe, .. } && keyframe
            &&& s3.idr_burst == 0 && !s3.force_idr
        }),
{
}

/// Keyframes are never more than [`IDR_INTERVAL_MS`] apart among encoded frames: an
/// encode once the interval passed is a keyframe.
pub proof fn lemma_periodic_keyframe(s: FrameLoop, idle: bool, now_ms: u64, idle_dur_ms: u64)
    requires
        since(now_ms, s.last_idr_ms) >= IDR_INTERVAL_MS,
        !skips(s, idle, now_ms, idle_dur_ms),
    ensures
        spec_frame_step(s, idle, now_ms, idle_dur_ms).1 matches FrameStep::Encode { keyframe, .. } && keyframe,
        spec_frame_step(s, idle, now_ms, idle_dur_ms).0.last_idr_ms == now_ms,
{
}

/// A static screen is still refreshed: once the idle period passed since the last
/// encode, the frame is encoded even when idle.
pub proof fn lemma_static_screen_refreshed(s: FrameLoop, now_ms: u64, idle_dur_ms: u64)
    requires
        since(now_ms, s.last_encode_ms) >= idle_dur_ms,
    ensures
        spec_frame_step(s, true, now_ms, idle_dur_ms).1 is Encode,
{
}

} // verus!
