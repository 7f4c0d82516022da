//! What both capture bridges (TCP and Hyper-V socket) keep beside their socket:
//! which frame may be shown again while the Windows capturer is quiet or away,
//! when a silent capturer counts as hung, and when to relaunch it.
//!
//! Times are milliseconds on a monotonic clock that the caller reads; an instant
//! before the recorded one counts as no time elapsed, as `Instant::elapsed` does.
use vstd::prelude::*;
use crate::host::capture::Captured;

verus! {

/// How long to wait for a frame to start arriving on a fixed-cadence poll.
pub const IDLE_POLL_MS: u64 = 2;
/// Poll used while draining a backlog: only frames already buffered count.
pub const DRAIN_POLL_MS: u64 = 1;
/// Once a frame has started, the rest is already in flight.
pub const FRAME_BODY_TIMEOUT_MS: u64 = 10_000;
/// How long the capturer may be gone before the host relaunches it.
pub const RESPAWN_AFTER_MS: u64 = 5_000;
/// Floor between relaunch attempts.
pub const RESPAWN_RETRY_INTERVAL_MS: u64 = 20_000;
/// Silence on an open socket after which the capturer counts as hung.
pub const FRAME_STALE_AFTER_MS: u64 = 4_000;
/// Budget for one non-blocking Hyper-V connect attempt.
pub const CONNECT_BUDGET_MS: u64 = 250;
/// Floor between Hyper-V connect attempts.
pub const CONNECT_RETRY_INTERVAL_MS: u64 = 500;

/// The payload kind of the capture stream.
#[derive(Debug, Clone, Copy, PartialEq, Eq, Structural)]
pub enum FrameFormat {
    /// Raw pixels: the host encodes.
    Bgra,
    /// Encoded on Windows: the host only relays.
    H264,
}

/// What a frame header tells the bridge.
#[derive(Debug, Clone, Copy)]
pub struct FrameMeta {
    pub format: FrameFormat,
    pub width: u32,
    pub height: u32,
    pub keyframe: bool,
}

/// The state of one capture link beside its socket.
pub struct CaptureLink {
    connected: bool,
    width: usize,
    height: usize,
    last: Option<Vec<u8>>,
    format: FrameFormat,
    keyframe: bool,
    frames_received: u64,
    disconnected_at_ms: Option<u64>,
    last_respawn_ms: Option<u64>,
    last_frame_at_ms: u64,
    ever_connected: bool,
}

/// The model of a [`CaptureLink`].
pub struct CaptureLinkView {
    /// A capturer is attached to the socket.
    pub connected: bool,
    pub width: usize,
    pub height: usize,
    /// The last raw frame, kept to be shown again.
    pub last: Option<Seq<u8>>,
    pub format: FrameFormat,
    /// Whether the last frame read is a keyframe.
    pub keyframe: bool,
    /// Frames read since the counter was last drained.
    pub frames_received: u64,
    /// When the current outage started; `None` while connected.
    pub disconnected_at_ms: Option<u64>,
    /// When the host last relaunched the capturer.
    pub last_respawn_ms: Option<u64>,
    /// When the last frame came off the socket.
    pub last_frame_at_ms: u64,
    /// A capturer was attached at least once. Before that an outage usually means
    /// the user is still in the capture picker, which a relaunch would kill.
    pub ever_connected: bool,
}

impl View for CaptureLink {
    type V = CaptureLinkView;

    closed spec fn view(&self) -> CaptureLinkView {
        CaptureLinkView {
            connected: self.connected,
            width: self.width,
            height: self.height,
            last: match self.last {
                Some(v) => Some(v@),
                None => None,
            },
            format: self.format,
            keyframe: self.keyframe,
            frames_received: self.frames_received,
            disconnected_at_ms: self.disconnected_at_ms,
            last_respawn_ms: self.last_respawn_ms,
            last_frame_at_ms: self.last_frame_at_ms,
            ever_connected: self.ever_connected,
        }
    }
}

/// Time from `since` to `now`, none when `now` is earlier.
pub open spec fn elapsed_ms(now: u64, since: u64) -> int {
    if now >= since {
        now - since
    } else {
        0
    }
}

fn elapsed(now: u64, since: u64) -> (r: u64)
    ensures
        r == elapsed_ms(now, since),
{
    if now >= since {
        now - since
    } else {
        0
    }
}

/// A link as opened at `now`, with or without a capturer attached.
pub open spec fn spec_opened(connected: bool, now: u64) -> CaptureLinkView {
    CaptureLinkView {
        connected,
        width: 0,
        height: 0,
        last: None,
        format: FrameFormat::Bgra,
        keyframe: false,
        frames_received: 0,
        disconnected_at_ms: if connected {
            None
        } else {
            Some(now)
        },
        last_respawn_ms: None,
        last_frame_at_ms: now,
        ever_connected: connected,
    }
}

/// The link after a frame described by `m` was read: format, keyframe flag and size
/// follow the frame, a change of format or size drops the kept frame (it would be
/// misread at the new shape), and the frame is counted.
pub open spec fn spec_note_frame(v: CaptureLinkView, m: FrameMeta) -> CaptureLinkView {
    let reshaped = m.format != v.format || m.width as usize != v.width || m.height as usize != v.height;
    CaptureLinkView {
        format: m.format,
        keyframe: m.keyframe,
        width: m.width as usize,
        height: m.height as usize,
        last: if reshaped {
            None
        } else {
            v.last
        },
        frames_received: (v.frames_received + 1) as u64,
        ..v
    }
}

/// The frame shown again while no new one arrives: the last raw frame, never an
/// encoded one (a replayed differential picture corrupts the decoder).
pub open spec fn spec_stale_frame(v: CaptureLinkView) -> Option<Seq<u8>> {
    if v.format == FrameFormat::H264 {
        None
    } else {
        v.last
    }
}

/// Whether to relaunch the capturer at `now`: only after it was attached once, once
/// the outage has lasted [`RESPAWN_AFTER_MS`], and no sooner than
/// [`RESPAWN_RETRY_INTERVAL_MS`] after the previous relaunch.
pub open spec fn spec_respawn_due(v: CaptureLinkView, now: u64) -> bool {
    v.ever_connected && match v.disconnected_at_ms {
        None => false,
        Some(since) => elapsed_ms(now, since) >= RESPAWN_AFTER_MS && match v.last_respawn_ms {
            None => true,
            Some(l) => elapsed_ms(now, l) >= RESPAWN_RETRY_INTERVAL_MS,
        },
    }
}

impl CaptureLink {
    /// A link opened at `now_ms`; without a capturer the outage starts now.
    pub fn new(connected: bool, now_ms: u64) -> (l: Self)
        ensures
            l@ == spec_opened(connected, now_ms),
    {
        CaptureLink {
            connected,
            width: 0,
            height: 0,
            last: None,
            format: FrameFormat::Bgra,
            keyframe: false,
            frames_received: 0,
            disconnected_at_ms: if connected {
                None
            } else {
                Some(now_ms)
            },
            last_respawn_ms: None,
            last_frame_at_ms: now_ms,
            ever_connected: connected,
        }
    }

    pub fn is_connected(&self) -> (r: bool)
        ensures
            r == self@.connected,
    {
        self.connected
    }

    pub fn width(&self) -> (r: usize)
        ensures
            r == self@.width,
    {
        self.width
    }

    pub fn height(&self) -> (r: usize)
        ensures
            r == self@.height,
    {
        self.height
    }

    pub fn format(&self) -> (r: FrameFormat)
        ensures
            r == self@.format,
    {
        self.format
    }

    /// Bookkeeping after a frame header and body were read (see [`spec_note_frame`]).
    pub fn note_frame(&mut self, m: FrameMeta)
        requires
            old(self)@.frames_received < u64::MAX,
        ensures
            final(self)@ == spec_note_frame(old(self)@, m),
    {
        if self.format != m.format {
            self.format = m.format;
            self.last = None;
        }
        self.keyframe = m.keyframe;
        if self.width != m.width as usize || self.height != m.height as usize {
            self.width = m.width as usize;
            self.height = m.height as usize;
            self.last = None;
        }
        self.frames_received = self.frames_received + 1;
    }

    /// The number of frames read since the last call, and the counter cleared.
    pub fn take_received(&mut self) -> (n: u64)
        ensures
            n == old(self)@.frames_received,
            final(self)@ == (CaptureLinkView { frames_received: 0, ..old(self)@ }),
    {
        let n = self.frames_received;
        self.frames_received = 0;
        n
    }

    /// Whether frames queued behind the newest are skipped: raw pixels are, since
    /// consuming them in order adds growing latency; encoded pictures refer to the
    /// ones before them and are delivered in order.
    pub fn skips_to_newest(&self) -> (r: bool)
        ensures
            r == (self@.format == FrameFormat::Bgra),
    {
        self.format == FrameFormat::Bgra
    }

    /// Whether keyframe and expedite requests go to the Windows encoder: only on the
    /// encoded path, where the host does not run its own encoder.
    pub fn encoder_is_remote(&self) -> (r: bool)
        ensures
            r == (self@.format == FrameFormat::H264),
    {
        self.format == FrameFormat::H264
    }

    /// The frame shown again while the capturer is quiet or away (see
    /// [`spec_stale_frame`]).
    pub fn stale_frame(&self) -> (r: Option<Captured>)
        ensures
            match r {
                Some(Captured::Bgra(f)) => spec_stale_frame(self@) == Some(f@),
                Some(Captured::H264 { .. }) => false,
                None => spec_stale_frame(self@) is None,
            },
    {
        if self.format == FrameFormat::H264 {
            return None;
        }
        match &self.last {
            Some(v) => {
                let f = v.clone();
                assert(f@ =~= v@);
                Some(Captured::Bgra(f))
            },
            None => None,
        }
    }

    /// A frame read ahead by a blocking first read is delivered and kept.
    pub fn deliver_pending(&mut self, p: Vec<u8>) -> (c: Captured)
        ensures
            c matches Captured::Bgra(f) && f@ == p@,
            final(self)@ == (CaptureLinkView { last: Some(p@), ..old(self)@ }),
    {
        let keep = p.clone();
        assert(keep@ =~= p@);
        self.last = Some(keep);
        Captured::Bgra(p)
    }

    /// A fresh frame came off the socket at `now_ms`: an encoded one is relayed with
    /// its keyframe flag and never kept; a raw one is delivered and kept.
    pub fn deliver(&mut self, frame: Vec<u8>, now_ms: u64) -> (c: Captured)
        ensures
            old(self)@.format == FrameFormat::H264 ==> {
                &&& c matches Captured::H264 { nal, keyframe } && nal@ == frame@ && keyframe
                    == old(self)@.keyframe
                &&& final(self)@ == (CaptureLinkView { last_frame_at_ms: now_ms, ..old(self)@ })
            },
            old(self)@.format == FrameFormat::Bgra ==> {
                &&& c matches Captured::Bgra(f) && f@ == frame@
                &&& final(self)@ == (CaptureLinkView {
                    last_frame_at_ms: now_ms,
                    last: Some(frame@),
                    ..old(self)@
                })
            },
    {
        self.last_frame_at_ms = now_ms;
        if self.format == FrameFormat::H264 {
            return Captured::H264 { nal: frame, keyframe: self.keyframe };
        }
        let keep = frame.clone();
        assert(keep@ =~= frame@);
        self.last = Some(keep);
        Captured::Bgra(frame)
    }

    /// The socket failed at `now_ms`: the outage starts now.
    pub fn note_lost(&mut self, now_ms: u64)
        ensures
            final(self)@ == (CaptureLinkView {
                connected: false,
                disconnected_at_ms: Some(now_ms),
                ..old(self)@
            }),
    {
        self.connected = false;
        self.disconnected_at_ms = Some(now_ms);
    }

    /// Whether the capturer, though its socket is open, has sent nothing for
    /// [`FRAME_STALE_AFTER_MS`]: a hung capturer never raises a read error.
    pub fn hung(&self, now_ms: u64) -> (r: bool)
        ensures
            r == (elapsed_ms(now_ms, self@.last_frame_at_ms) >= FRAME_STALE_AFTER_MS),
    {
        elapsed(now_ms, self.last_frame_at_ms) >= FRAME_STALE_AFTER_MS
    }

    /// A hung capturer is treated as gone; an outage already recorded keeps its start.
    pub fn note_hung(&mut self, now_ms: u64)
        ensures
            final(self)@ == (CaptureLinkView {
                connected: false,
                disconnected_at_ms: Some(
                    match old(self)@.disconnected_at_ms {
                        Some(t) => t,
                        None => now_ms,
                    },
                ),
                ..old(self)@
            }),
    {
        self.connected = false;
        if self.disconnected_at_ms.is_none() {
            self.disconnected_at_ms = Some(now_ms);
        }
    }

    /// A capturer attached.
    pub fn note_connected(&mut self)
        ensures
            final(self)@ == (CaptureLinkView { connected: true, ever_connected: true, ..old(self)@ }),
    {
        self.connected = true;
        self.ever_connected = true;
    }

    /// The outage is over at `now_ms` (a reconnect when the link was polled while away).
    pub fn note_outage_over(&mut self, now_ms: u64)
        ensures
            final(self)@ == (CaptureLinkView {
                disconnected_at_ms: None,
                last_frame_at_ms: now_ms,
                ..old(self)@
            }),
    {
        self.disconnected_at_ms = None;
        self.last_frame_at_ms = now_ms;
    }

    /// Whether to relaunch the capturer at `now_ms` (see [`spec_respawn_due`]); a
    /// relaunch is recorded.
    pub fn respawn_due(&mut self, now_ms: u64) -> (r: bool)
        ensures
            r == spec_respawn_due(old(self)@, now_ms),
            final(self)@ == (if r {
                CaptureLinkView { last_respawn_ms: Some(now_ms), ..old(self)@ }
            } else {
                old(self)@
            }),
    {
        if !self.ever_connected {
            return false;
        }
        let since = match self.disconnected_at_ms {
            Some(t) => t,
            None => return false,
        };
        if elapsed(now_ms, since) < RESPAWN_AFTER_MS {
            return false;
        }
        if let Some(l) = self.last_respawn_ms {
            if elapsed(now_ms, l) < RESPAWN_RETRY_INTERVAL_MS {
                return false;
            }
        }
        self.last_respawn_ms = Some(now_ms);
        true
    }

    /// Everything queued was thrown away: no kept frame survives a resync.
    pub fn note_resync(&mut self)
        ensures
            final(self)@ == (CaptureLinkView { last: None, ..old(self)@ }),
    {
        self.last = None;
    }
}

/// Whether a Hyper-V connect may be tried at `now_ms`, at most one per
/// [`CONNECT_RETRY_INTERVAL_MS`].
pub fn connect_attempt_due(last_attempt_ms: Option<u64>, now_ms: u64) -> (r: bool)
    ensures
        r == match last_attempt_ms {
            None => true,
            Some(t) => elapsed_ms(now_ms, t) >= CONNECT_RETRY_INTERVAL_MS,
        },
{
    match last_attempt_ms {
        None => true,
        Some(t) => elapsed(now_ms, t) >= CONNECT_RETRY_INTERVAL_MS,
    }
}

/// An encoded picture is never shown again, whatever was kept.
pub proof fn lemma_encoded_never_replayed(v: CaptureLinkView)
    requires
        v.format == FrameFormat::H264,
    ensures
        spec_stale_frame(v) is None,
{
}

/// A frame of another format or size drops the kept frame: nothing of the old shape
/// is shown again until a new frame is delivered.
pub proof fn lemma_reshape_drops_stale(v: CaptureLinkView, m: FrameMeta)
    requires
        m.format != v.format || m.width as usize != v.width || m.height as usize != v.height,
    ensures
        spec_stale_frame(spec_note_frame(v, m)) is None,
{
}

/// The capturer is never relaunched before it was attached once (the user may still
/// be in its window picker).
pub proof fn lemma_no_respawn_before_first_attach(v: CaptureLinkView, now: u64)
    requires
        !v.ever_connected,
    ensures
        !spec_respawn_due(v, now),
{
}

/// Two relaunches are at least [`RESPAWN_RETRY_INTERVAL_MS`] apart.
pub proof fn lemma_respawns_spaced(v: CaptureLinkView, t1: u64, t2: u64)
    requires
        spec_respawn_due(v, t1),
        t1 <= t2 < t1 + RESPAWN_RETRY_INTERVAL_MS,
    ensures
        !spec_respawn_due(CaptureLinkView { last_respawn_ms: Some(t1), ..v }, t2),
{
}

/// The kind of a failed socket read, as far as the bridges tell kinds apart.
#[derive(Debug, Clone, Copy, PartialEq, Eq, Structural)]
pub enum IoKind {
    WouldBlock,
    TimedOut,
    Other,
}

/// Whether a failed read only means "no data yet": a read timeout surfaces as
/// `WouldBlock` on Unix and `TimedOut` on Windows; anything else is a broken link.
pub fn is_timeout_kind(kind: IoKind) -> (r: bool)
    ensures
        r == (kind is WouldBlock || kind is TimedOut),
{
    match kind {
        IoKind::WouldBlock | IoKind::TimedOut => true,
        IoKind::Other => false,
    }
}

} // verus!
