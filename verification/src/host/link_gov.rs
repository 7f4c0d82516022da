//! Link governor: adapts the pre-encoded stream target to what the link can carry.
//!
//! When pushing video sheds frames window after window, the host commands the
//! encoder down one rung of a bitrate ladder (holding resolution and fps); after a
//! long run of clean windows it climbs back toward the advertised preset. Two bad
//! windows in a row are needed to step down, eight clean ones to step up, so a
//! single blip never moves the encoder.
use vstd::prelude::*;

verus! {

/// What the host commands the encoder to produce.
#[derive(Debug, Clone, Copy, PartialEq, Eq, Structural)]
pub struct EncodeTarget {
    pub width: u32,
    pub height: u32,
    pub fps: u32,
    pub bitrate_kbps: u32,
}

/// A shed share above this percentage (per window) counts as a bad window.
pub const DOWN_TRIGGER_PCT: u32 = 8;
/// Consecutive bad windows before stepping down.
pub const DOWN_AFTER_WINDOWS: u32 = 2;
/// Consecutive clean windows before climbing.
pub const UP_AFTER_CLEAN_WINDOWS: u32 = 8;
/// The ladder never goes below this bitrate.
pub const FLOOR_KBPS: u32 = 1250;

/// `t` at bitrate `k`.
pub open spec fn with_kbps(t: EncodeTarget, k: int) -> EncodeTarget {
    EncodeTarget { bitrate_kbps: k as u32, ..t }
}

/// The next rung's bitrate: half, but never below the floor.
pub open spec fn halved(k: int) -> int {
    if k / 2 > FLOOR_KBPS { k / 2 } else { FLOOR_KBPS as int }
}

/// The rungs below bitrate `kbps`: at most `steps` halvings, stopping at the floor.
pub open spec fn rung_steps(base: EncodeTarget, kbps: int, steps: nat) -> Seq<EncodeTarget>
    decreases steps,
{
    if steps == 0 || halved(kbps) >= kbps {
        seq![]
    } else {
        seq![with_kbps(base, halved(kbps))] + rung_steps(base, halved(kbps), (steps - 1) as nat)
    }
}

/// The rung ladder: the baseline, then up to three halvings of its bitrate down to
/// the floor, every rung at the baseline's resolution and fps.
pub open spec fn spec_rungs_from(base: EncodeTarget) -> Seq<EncodeTarget> {
    seq![base] + rung_steps(base, base.bitrate_kbps as int, 3)
}

/// Position of the first `t` in `s`, or -1.
pub open spec fn first_index(s: Seq<EncodeTarget>, t: EncodeTarget) -> int
    decreases s.len(),
{
    if s.len() == 0 {
        -1
    } else if s[0] == t {
        0
    } else if first_index(s.drop_first(), t) < 0 {
        -1
    } else {
        first_index(s.drop_first(), t) + 1
    }
}

/// The governor's memory between windows.
pub struct LinkGovState {
    pub baseline: EncodeTarget,
    pub current: EncodeTarget,
    pub clean_windows: u32,
    pub bad_windows: u32,
}

/// Share of frames shed in a window, in whole percent (0 when nothing was sent).
pub open spec fn drop_pct(shed: u32, sent: u32) -> int {
    if sent > 0 { (shed * 100) / (sent as int) } else { 0 }
}

/// One window: a bad window (more than 8% shed) counts toward a step down one rung,
/// taken at the second bad window in a row; a clean window counts toward a climb
/// one rung, taken at the eighth clean window in a row. Each kind resets the other's
/// count, and a step resets both.
pub open spec fn gov_step(s: LinkGovState, shed: u32, sent: u32) -> LinkGovState {
    let rungs = spec_rungs_from(s.baseline);
    let i = first_index(rungs, s.current);
    if drop_pct(shed, sent) > DOWN_TRIGGER_PCT {
        if s.bad_windows + 1 >= DOWN_AFTER_WINDOWS {
            let cur = if i >= 0 {
                rungs[if i + 1 < rungs.len() { i + 1 } else { rungs.len() - 1 }]
            } else {
                s.current
            };
            LinkGovState { current: cur, clean_windows: 0, bad_windows: 0, ..s }
        } else {
            LinkGovState { clean_windows: 0, bad_windows: (s.bad_windows + 1) as u32, ..s }
        }
    } else {
        if s.clean_windows + 1 >= UP_AFTER_CLEAN_WINDOWS {
            let cur = if i >= 1 { rungs[i - 1] } else { s.current };
            LinkGovState { current: cur, clean_windows: 0, bad_windows: 0, ..s }
        } else {
            LinkGovState { clean_windows: (s.clean_windows + 1) as u32, bad_windows: 0, ..s }
        }
    }
}

/// A state the governor can be in: counters below their thresholds and the current
/// target on the ladder.
pub open spec fn gov_wf(s: LinkGovState) -> bool {
    &&& s.bad_windows < DOWN_AFTER_WINDOWS
    &&& s.clean_windows < UP_AFTER_CLEAN_WINDOWS
    &&& spec_rungs_from(s.baseline).contains(s.current)
}

/// The link governor.
#[derive(Debug)]
pub struct LinkGov {
    baseline: EncodeTarget,
    current: EncodeTarget,
    clean_windows: u32,
    bad_windows: u32,
}

impl View for LinkGov {
    type V = LinkGovState;

    closed spec fn view(&self) -> LinkGovState {
        LinkGovState {
            baseline: self.baseline,
            current: self.current,
            clean_windows: self.clean_windows,
            bad_windows: self.bad_windows,
        }
    }
}

/// Every rung below `kbps` has the baseline's shape and a bitrate strictly below
/// `kbps` and at least the floor, and the bitrates strictly decrease.
proof fn lemma_rung_steps(base: EncodeTarget, kbps: int, steps: nat)
    requires
        kbps <= u32::MAX,
    ensures
        rung_steps(base, kbps, steps).len() <= steps,
        forall|j: int|
            0 <= j < rung_steps(base, kbps, steps).len() ==> {
                let r = #[trigger] rung_steps(base, kbps, steps)[j];
                &&& r.width == base.width && r.height == base.height && r.fps == base.fps
                &&& FLOOR_KBPS <= r.bitrate_kbps < kbps
            },
        forall|j: int, k: int|
            0 <= j < k < rung_steps(base, kbps, steps).len() ==> #[trigger] rung_steps(base, kbps, steps)[k].bitrate_kbps
                < #[trigger] rung_steps(base, kbps, steps)[j].bitrate_kbps,
    decreases steps,
{
    if steps == 0 || halved(kbps) >= kbps {
    } else {
        lemma_rung_steps(base, halved(kbps), (steps - 1) as nat);
        let tail = rung_steps(base, halved(kbps), (steps - 1) as nat);
        let s = rung_steps(base, kbps, steps);
        assert(s == seq![with_kbps(base, halved(kbps))] + tail);
        assert forall|j: int| 0 <= j < s.len() implies {
            let r = #[trigger] s[j];
            &&& r.width == base.width && r.height == base.height && r.fps == base.fps
            &&& FLOOR_KBPS <= r.bitrate_kbps < kbps
        } by {
            if j > 0 {
                assert(s[j] == tail[j - 1]);
            }
        }
        assert forall|j: int, k: int| 0 <= j < k < s.len() implies #[trigger] s[k].bitrate_kbps
            < #[trigger] s[j].bitrate_kbps by {
            assert(s[k] == tail[k - 1]);
            if j > 0 {
                assert(s[j] == tail[j - 1]);
            }
        }
    }
}

/// The ladder starts at the baseline, holds its resolution and fps on every rung,
/// has at most four rungs with strictly falling bitrates, and never goes below
/// the floor (or the baseline, when that is already lower).
pub proof fn lemma_rungs_shape(base: EncodeTarget)
    ensures
        spec_rungs_from(base)[0] == base,
        1 <= spec_rungs_from(base).len() <= 4,
        forall|j: int|
            0 <= j < spec_rungs_from(base).len() ==> {
                let r = #[trigger] spec_rungs_from(base)[j];
                &&& r.width == base.width && r.height == base.height && r.fps == base.fps
                &&& r.bitrate_kbps <= base.bitrate_kbps
                &&& (j > 0 ==> FLOOR_KBPS <= r.bitrate_kbps)
            },
        forall|j: int, k: int|
            0 <= j < k < spec_rungs_from(base).len() ==> #[trigger] spec_rungs_from(base)[k].bitrate_kbps
                < #[trigger] spec_rungs_from(base)[j].bitrate_kbps,
{
    lemma_rung_steps(base, base.bitrate_kbps as int, 3);
    let tail = rung_steps(base, base.bitrate_kbps as int, 3);
    let s = spec_rungs_from(base);
    assert forall|j: int| 0 <= j < s.len() implies {
        let r = #[trigger] s[j];
        &&& r.width == base.width && r.height == base.height && r.fps == base.fps
        &&& r.bitrate_kbps <= base.bitrate_kbps
        &&& (j > 0 ==> FLOOR_KBPS <= r.bitrate_kbps)
    } by {
        if j > 0 {
            assert(s[j] == tail[j - 1]);
        }
    }
    assert forall|j: int, k: int| 0 <= j < k < s.len() implies #[trigger] s[k].bitrate_kbps
        < #[trigger] s[j].bitrate_kbps by {
        assert(s[k] == tail[k - 1]);
        if j > 0 {
            assert(s[j] == tail[j - 1]);
        }
    }
}

/// In a sequence without repeats, `first_index` finds the one position of an element.
proof fn lemma_first_index(s: Seq<EncodeTarget>, j: int)
    requires
        0 <= j < s.len(),
        forall|a: int, b: int| 0 <= a < b < s.len() ==> s[a] != s[b],
    ensures
        first_index(s, s[j]) == j,
    decreases s.len(),
{
    if j == 0 {
    } else {
        assert(s[0] != s[j]);
        let t = s.drop_first();
        assert(t[j - 1] == s[j]);
        assert forall|a: int, b: int| 0 <= a < b < t.len() implies t[a] != t[b] by {
            assert(t[a] == s[a + 1] && t[b] == s[b + 1]);
        }
        lemma_first_index(t, j - 1);
    }
}

/// The rungs are pairwise distinct, so a rung's first index is its position.
pub proof fn lemma_rung_index(base: EncodeTarget, j: int)
    requires
        0 <= j < spec_rungs_from(base).len(),
    ensures
        first_index(spec_rungs_from(base), spec_rungs_from(base)[j]) == j,
{
    lemma_rungs_shape(base);
    let s = spec_rungs_from(base);
    assert forall|a: int, b: int| 0 <= a < b < s.len() implies s[a] != s[b] by {
        assert(s[b].bitrate_kbps < s[a].bitrate_kbps);
    }
    lemma_first_index(s, j);
}

/// Every window keeps the governor in a valid state.
pub proof fn lemma_step_wf(s: LinkGovState, shed: u32, sent: u32)
    requires
        gov_wf(s),
    ensures
        gov_wf(gov_step(s, shed, sent)),
        gov_step(s, shed, sent).baseline == s.baseline,
{
    let rungs = spec_rungs_from(s.baseline);
    let j = choose|j: int| 0 <= j < rungs.len() && rungs[j] == s.current;
    lemma_rung_index(s.baseline, j);
    lemma_rungs_shape(s.baseline);
    let n = gov_step(s, shed, sent);
    if n.current != s.current {
        assert(n.current == rungs[if j + 1 < rungs.len() { j + 1 } else { rungs.len() - 1 }]
            || n.current == rungs[j - 1]);
    }
}

/// Ladder from the baseline, as a vector.
pub fn rungs_from(baseline: &EncodeTarget) -> (r: Vec<EncodeTarget>)
    ensures
        r@ == spec_rungs_from(*baseline),
{
    let mut rungs: Vec<EncodeTarget> = Vec::new();
    rungs.push(*baseline);
    let mut kbps: u32 = baseline.bitrate_kbps;
    let mut i: u32 = 0;
    while i < 3
        invariant
            i <= 3,
            rungs@ + rung_steps(*baseline, kbps as int, (3 - i) as nat) == spec_rungs_from(*baseline),
        decreases 3 - i,
    {
        let half = kbps / 2;
        let next: u32 = if half > FLOOR_KBPS { half } else { FLOOR_KBPS };
        if next >= kbps {
            assert(rungs@ =~= spec_rungs_from(*baseline));
            return rungs;
        }
        let ghost before = rungs@;
        rungs.push(EncodeTarget { bitrate_kbps: next, ..*baseline });
        assert(rung_steps(*baseline, kbps as int, (3 - i) as nat) == seq![with_kbps(*baseline, next as int)]
            + rung_steps(*baseline, next as int, (3 - i - 1) as nat));
        assert(rungs@ + rung_steps(*baseline, next as int, (3 - i - 1) as nat) =~= before + rung_steps(
            *baseline,
            kbps as int,
            (3 - i) as nat,
        ));
        kbps = next;
        i += 1;
    }
    assert(rungs@ =~= spec_rungs_from(*baseline));
    rungs
}

/// Position of the first rung equal to `target`.
pub fn index_of(rungs: &Vec<EncodeTarget>, target: EncodeTarget) -> (r: Option<usize>)
    ensures
        match r {
            Some(i) => first_index(rungs@, target) == i && i < rungs@.len() && rungs@[i as int] == target,
            None => first_index(rungs@, target) == -1,
        },
{
    let mut i: usize = 0;
    while i < rungs.len()
        invariant
            i <= rungs@.len(),
            forall|k: int| 0 <= k < i ==> rungs@[k] != target,
        decreases rungs.len() - i,
    {
        if rungs[i] == target {
            proof {
                lemma_first_index_at(rungs@, target, i as int);
            }
            return Some(i);
        }
        i += 1;
    }
    proof {
        lemma_first_index_absent(rungs@, target);
    }
    None
}

proof fn lemma_first_index_at(s: Seq<EncodeTarget>, t: EncodeTarget, i: int)
    requires
        0 <= i < s.len(),
        s[i] == t,
        forall|k: int| 0 <= k < i ==> s[k] != t,
    ensures
        first_index(s, t) == i,
    decreases s.len(),
{
    if i > 0 {
        let d = s.drop_first();
        assert forall|k: int| 0 <= k < i - 1 implies d[k] != t by {
            assert(d[k] == s[k + 1]);
        }
        lemma_first_index_at(d, t, i - 1);
    }
}

proof fn lemma_first_index_absent(s: Seq<EncodeTarget>, t: EncodeTarget)
    requires
        forall|k: int| 0 <= k < s.len() ==> s[k] != t,
    ensures
        first_index(s, t) == -1,
    decreases s.len(),
{
    if s.len() > 0 {
        let d = s.drop_first();
        assert forall|k: int| 0 <= k < d.len() implies d[k] != t by {
            assert(d[k] == s[k + 1]);
        }
        lemma_first_index_absent(d, t);
    }
}

/// The state after a sequence of `(shed, sent)` windows.
pub open spec fn gov_run(s: LinkGovState, windows: Seq<(u32, u32)>) -> LinkGovState
    decreases windows.len(),
{
    if windows.len() == 0 {
        s
    } else {
        gov_run(gov_step(s, windows[0].0, windows[0].1), windows.drop_first())
    }
}

/// The rung the current target sits on.
pub open spec fn rung_of(s: LinkGovState) -> int {
    first_index(spec_rungs_from(s.baseline), s.current)
}

/// Every window in `w` is clean (at most 8% shed).
pub open spec fn all_clean(w: Seq<(u32, u32)>) -> bool {
    forall|k: int| 0 <= k < w.len() ==> drop_pct(#[trigger] w[k].0, w[k].1) <= DOWN_TRIGGER_PCT
}

/// Every window in `w` is bad (more than 8% shed).
pub open spec fn all_bad(w: Seq<(u32, u32)>) -> bool {
    forall|k: int| 0 <= k < w.len() ==> drop_pct(#[trigger] w[k].0, w[k].1) > DOWN_TRIGGER_PCT
}

/// The rung of a valid state is a position on the ladder holding its target.
proof fn lemma_rung_of(s: LinkGovState)
    requires
        gov_wf(s),
    ensures
        0 <= rung_of(s) < spec_rungs_from(s.baseline).len(),
        spec_rungs_from(s.baseline)[rung_of(s)] == s.current,
{
    let rungs = spec_rungs_from(s.baseline);
    let j = choose|j: int| 0 <= j < rungs.len() && rungs[j] == s.current;
    lemma_rung_index(s.baseline, j);
}

/// Clean windows climb one rung per eight of them, counting the clean windows
/// already banked, and never above the baseline.
proof fn lemma_clean_run(s: LinkGovState, w: Seq<(u32, u32)>)
    requires
        gov_wf(s),
        all_clean(w),
    ensures
        gov_wf(gov_run(s, w)),
        gov_run(s, w).baseline == s.baseline,
        gov_run(s, w).clean_windows == (s.clean_windows + w.len()) % 8,
        rung_of(gov_run(s, w)) == (if rung_of(s) - (s.clean_windows + w.len()) / 8 > 0 {
            rung_of(s) - (s.clean_windows + w.len()) / 8
        } else {
            0
        }),
    decreases w.len(),
{
    lemma_rung_of(s);
    if w.len() > 0 {
        let s1 = gov_step(s, w[0].0, w[0].1);
        assert(drop_pct(w[0].0, w[0].1) <= DOWN_TRIGGER_PCT);
        lemma_step_wf(s, w[0].0, w[0].1);
        lemma_rung_of(s);
        let i = rung_of(s);
        if s.clean_windows == 7 && i >= 1 {
            lemma_rung_index(s.baseline, i - 1);
        }
        assert(rung_of(s1) == if s.clean_windows == 7 && i >= 1 { i - 1 } else { i });
        let rest = w.drop_first();
        assert forall|k: int| 0 <= k < rest.len() implies drop_pct(#[trigger] rest[k].0, rest[k].1)
            <= DOWN_TRIGGER_PCT by {
            assert(rest[k] == w[k + 1]);
        }
        lemma_clean_run(s1, rest);
        assert(gov_run(s, w) == gov_run(s1, rest));
        let n = w.len() as int;
        let c = s.clean_windows as int;
        if c == 7 {
            assert((c + n) / 8 == 1 + (n - 1) / 8);
            assert((c + n) % 8 == (n - 1) % 8);
        } else {
            assert(s1.clean_windows == c + 1);
        }
    }
}

/// Bad windows descend one rung per two of them, counting a bad window already
/// banked, and never below the last rung.
proof fn lemma_bad_run(s: LinkGovState, w: Seq<(u32, u32)>)
    requires
        gov_wf(s),
        all_bad(w),
    ensures
        gov_wf(gov_run(s, w)),
        gov_run(s, w).baseline == s.baseline,
        gov_run(s, w).bad_windows == (s.bad_windows + w.len()) % 2,
        rung_of(gov_run(s, w)) == (if rung_of(s) + (s.bad_windows + w.len()) / 2 < spec_rungs_from(
            s.baseline,
        ).len() - 1 {
            rung_of(s) + (s.bad_windows + w.len()) / 2
        } else {
            spec_rungs_from(s.baseline).len() - 1
        }),
    decreases w.len(),
{
    lemma_rung_of(s);
    if w.len() > 0 {
        let s1 = gov_step(s, w[0].0, w[0].1);
        assert(drop_pct(w[0].0, w[0].1) > DOWN_TRIGGER_PCT);
        lemma_step_wf(s, w[0].0, w[0].1);
        lemma_rung_of(s);
        let i = rung_of(s);
        let n = spec_rungs_from(s.baseline).len();
        if s.bad_windows == 1 && i + 1 < n {
            lemma_rung_index(s.baseline, i + 1);
        }
        assert(rung_of(s1) == if s.bad_windows == 1 && i + 1 < n { i + 1 } else { i });
        let rest = w.drop_first();
        assert forall|k: int| 0 <= k < rest.len() implies drop_pct(#[trigger] rest[k].0, rest[k].1)
            > DOWN_TRIGGER_PCT by {
            assert(rest[k] == w[k + 1]);
        }
        lemma_bad_run(s1, rest);
        assert(gov_run(s, w) == gov_run(s1, rest));
        let m = w.len() as int;
        let b = s.bad_windows as int;
        if b == 1 {
            assert((b + m) / 2 == 1 + (m - 1) / 2);
            assert((b + m) % 2 == (m - 1) % 2);
        } else {
            assert(s1.bad_windows == b + 1);
        }
    }
}

/// A single bad window never moves the encoder when the previous window was clean.
pub proof fn lemma_single_blip_holds(s: LinkGovState, shed: u32, sent: u32)
    requires
        gov_wf(s),
        s.bad_windows == 0,
    ensures
        gov_step(s, shed, sent).current == s.current || drop_pct(shed, sent) <= DOWN_TRIGGER_PCT,
{
}

/// A climb needs eight clean windows in a row: fewer leave the target where it is.
pub proof fn lemma_short_recovery_holds(s: LinkGovState, w: Seq<(u32, u32)>)
    requires
        gov_wf(s),
        all_clean(w),
        s.clean_windows + w.len() < UP_AFTER_CLEAN_WINDOWS,
    ensures
        gov_run(s, w).current == s.current,
{
    lemma_clean_run(s, w);
    lemma_rung_of(s);
    lemma_rung_of(gov_run(s, w));
}

/// A link that heals walks the encoder back to the advertised preset: 24 clean
/// windows in a row bring the target back to the baseline from any state.
pub proof fn lemma_recovers_to_baseline(s: LinkGovState, w: Seq<(u32, u32)>)
    requires
        gov_wf(s),
        all_clean(w),
        w.len() >= 24,
    ensures
        gov_run(s, w).current == s.baseline,
{
    lemma_clean_run(s, w);
    lemma_rung_of(s);
    lemma_rung_of(gov_run(s, w));
    lemma_rungs_shape(s.baseline);
}

/// Sustained congestion walks the encoder down to the bottom rung of the ladder
/// (the floor, at the baseline's fps) within six bad windows, and keeps it there.
pub proof fn lemma_sustained_shed_reaches_floor(s: LinkGovState, w: Seq<(u32, u32)>)
    requires
        gov_wf(s),
        all_bad(w),
        w.len() >= 6,
    ensures
        gov_run(s, w).current == spec_rungs_from(s.baseline).last(),
        gov_run(s, w).current.fps == s.baseline.fps,
{
    lemma_bad_run(s, w);
    lemma_rung_of(s);
    lemma_rung_of(gov_run(s, w));
    lemma_rungs_shape(s.baseline);
}

impl LinkGov {
    #[verifier::type_invariant]
    closed spec fn inv(&self) -> bool {
        gov_wf(self@)
    }

    pub fn new(baseline: EncodeTarget) -> (r: Self)
        ensures
            r@ == (LinkGovState { baseline, current: baseline, clean_windows: 0, bad_windows: 0 }),
    {
        assert(spec_rungs_from(baseline)[0] == baseline);
        LinkGov { baseline, current: baseline, clean_windows: 0, bad_windows: 0 }
    }

    /// Give the governor one window of link observations: `shed` frames dropped
    /// while pushing, `sent` frames that reached the wire. Returns the target to
    /// command next (the current one when nothing changes).
    pub fn on_window(&mut self, shed: u32, sent: u32) -> (r: EncodeTarget)
        requires
            sent > 0 ==> shed <= u32::MAX / 100,
        ensures
            final(self)@ == gov_step(old(self)@, shed, sent),
            r == final(self)@.current,
            gov_wf(final(self)@),
            r.width == old(self)@.baseline.width && r.height == old(self)@.baseline.height,
            r.fps == old(self)@.baseline.fps,
            r.bitrate_kbps <= old(self)@.baseline.bitrate_kbps,
    {
        proof {
            use_type_invariant(&*self);
            lemma_step_wf(self@, shed, sent);
            lemma_rungs_shape(self.baseline);
        }
        let rungs = rungs_from(&self.baseline);
        let pct: u32 = if sent > 0 { shed * 100 / sent } else { 0 };
        let idx = index_of(&rungs, self.current);
        let next = if pct > DOWN_TRIGGER_PCT {
            if self.bad_windows + 1 >= DOWN_AFTER_WINDOWS {
                let cur = match idx {
                    Some(i) => {
                        let j = if i + 1 < rungs.len() { i + 1 } else { rungs.len() - 1 };
                        rungs[j]
                    },
                    None => self.current,
                };
                LinkGov { current: cur, clean_windows: 0, bad_windows: 0, ..*self }
            } else {
                LinkGov { clean_windows: 0, bad_windows: self.bad_windows + 1, ..*self }
            }
        } else {
            if self.clean_windows + 1 >= UP_AFTER_CLEAN_WINDOWS {
                let cur = match idx {
                    Some(i) => if i >= 1 { rungs[i - 1] } else { self.current },
                    None => self.current,
                };
                LinkGov { current: cur, clean_windows: 0, bad_windows: 0, ..*self }
            } else {
                LinkGov { clean_windows: self.clean_windows + 1, bad_windows: 0, ..*self }
            }
        };
        *self = next;
        proof {
            let s = gov_step(old(self)@, shed, sent);
            let rs = spec_rungs_from(s.baseline);
            let j = choose|j: int| 0 <= j < rs.len() && rs[j] == s.current;
            assert(rs[j].fps == s.baseline.fps);
        }
        self.current
    }

    pub fn current(&self) -> (r: EncodeTarget)
        ensures
            r == self@.current,
    {
        self.current
    }
}

} // verus!
