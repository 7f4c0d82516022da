//! Link governor session replay: yo-yo and hysteresis gates.
use vstd::prelude::*;
use crate::host::link_gov::{
    all_bad, drop_pct, gov_run, gov_step, gov_wf, lemma_rungs_shape, lemma_step_wf,
    lemma_sustained_shed_reaches_floor, rung_steps, spec_rungs_from, EncodeTarget, LinkGov,
    LinkGovState, FLOOR_KBPS,
};

verus! {

/// The encoder bitrate the replays start from (the production preset at 720p60).
pub const ENCODER_KBPS: u32 = 5_000;

/// The production baseline the replays start from: 720p60 at the encoder bitrate.
pub open spec fn spec_production_baseline() -> EncodeTarget {
    EncodeTarget { width: 1280, height: 720, fps: 60, bitrate_kbps: ENCODER_KBPS }
}

pub fn production_baseline() -> (r: EncodeTarget)
    ensures
        r == spec_production_baseline(),
{
    EncodeTarget { width: 1280, height: 720, fps: 60, bitrate_kbps: ENCODER_KBPS }
}

/// A fresh governor at the production baseline.
pub open spec fn session_start() -> LinkGovState {
    LinkGovState {
        baseline: spec_production_baseline(),
        current: spec_production_baseline(),
        clean_windows: 0,
        bad_windows: 0,
    }
}

/// What a replay reports.
#[derive(Debug, Clone)]
pub struct GovernorSessionResult {
    pub kbps_timeline: Vec<u32>,
    pub final_kbps: u32,
    pub stepped_down_on_blip: bool,
}

/// Running one more window after `w` is one more governor step.
pub proof fn lemma_gov_run_push(s: LinkGovState, w: Seq<(u32, u32)>, x: (u32, u32))
    ensures
        gov_run(s, w.push(x)) == gov_step(gov_run(s, w), x.0, x.1),
    decreases w.len(),
{
    if w.len() == 0 {
        assert(w.push(x)[0] == x);
        assert(w.push(x).drop_first() =~= Seq::<(u32, u32)>::empty());
        assert(gov_run(gov_step(s, x.0, x.1), Seq::<(u32, u32)>::empty()) == gov_step(s, x.0, x.1));
        assert(gov_run(s, w.push(x)) == gov_run(gov_step(s, x.0, x.1), w.push(x).drop_first()));
    } else {
        assert(w.push(x)[0] == w[0]);
        assert(w.push(x).drop_first() =~= w.drop_first().push(x));
        lemma_gov_run_push(gov_step(s, w[0].0, w[0].1), w.drop_first(), x);
        assert(gov_run(s, w.push(x)) == gov_run(gov_step(s, w[0].0, w[0].1), w.push(x).drop_first()));
    }
}

/// Every window keeps a valid governor valid.
pub proof fn lemma_gov_run_wf(s: LinkGovState, w: Seq<(u32, u32)>)
    requires
        gov_wf(s),
    ensures
        gov_wf(gov_run(s, w)),
        gov_run(s, w).baseline == s.baseline,
    decreases w.len(),
{
    if w.len() > 0 {
        lemma_step_wf(s, w[0].0, w[0].1);
        lemma_gov_run_wf(gov_step(s, w[0].0, w[0].1), w.drop_first());
    }
}

/// Replay `(shed, sent)` windows through a fresh governor at the production
/// baseline: the commanded bitrate after each window, the last one (the baseline
/// for no windows), and whether the second window stepped down on a >8% shed.
pub fn simulate_governor_session(windows: &[(u32, u32)]) -> (r: GovernorSessionResult)
    requires
        forall|k: int| 0 <= k < windows@.len() ==> (k < 2 || (#[trigger] windows@[k]).1 > 0) ==> windows@[k].0 <= u32::MAX / 100,
    ensures
        r.kbps_timeline@.len() == windows@.len(),
        forall|k: int|
            0 <= k < windows@.len() ==> #[trigger] r.kbps_timeline@[k] == gov_run(
                session_start(),
                windows@.take(k + 1),
            ).current.bitrate_kbps,
        r.final_kbps == (if windows@.len() == 0 {
            ENCODER_KBPS
        } else {
            r.kbps_timeline@[windows@.len() - 1]
        }),
        r.stepped_down_on_blip == (windows@.len() >= 2 && drop_pct(windows@[1].0, if windows@[1].1 > 0 {
            windows@[1].1
        } else {
            1
        }) > 8 && r.kbps_timeline@[1] < ENCODER_KBPS),
{
    let mut gov = LinkGov::new(production_baseline());
    let mut kbps_timeline: Vec<u32> = Vec::with_capacity(windows.len());
    let mut stepped_down_on_blip = false;
    let mut i: usize = 0;
    assert(windows@.take(0) =~= Seq::<(u32, u32)>::empty());
    while i < windows.len()
        invariant
            i <= windows@.len(),
            forall|k: int| 0 <= k < windows@.len() ==> (k < 2 || (#[trigger] windows@[k]).1 > 0) ==> windows@[k].0 <= u32::MAX / 100,
            gov@ == gov_run(session_start(), windows@.take(i as int)),
            kbps_timeline@.len() == i,
            forall|k: int|
                0 <= k < i ==> #[trigger] kbps_timeline@[k] == gov_run(
                    session_start(),
                    windows@.take(k + 1),
                ).current.bitrate_kbps,
            stepped_down_on_blip == (i >= 2 && drop_pct(windows@[1].0, if windows@[1].1 > 0 {
                windows@[1].1
            } else {
                1
            }) > 8 && kbps_timeline@[1] < ENCODER_KBPS),
        decreases windows.len() - i,
    {
        let (shed, sent) = windows[i];
        let t = gov.on_window(shed, sent);
        proof {
            assert(windows@.take(i + 1) =~= windows@.take(i as int).push(windows@[i as int]));
            lemma_gov_run_push(session_start(), windows@.take(i as int), windows@[i as int]);
        }
        kbps_timeline.push(t.bitrate_kbps);
        let sent1: u32 = if sent > 0 { sent } else { 1 };
        if i == 1 && shed * 100 / sent1 > 8 && t.bitrate_kbps < ENCODER_KBPS {
            stepped_down_on_blip = true;
        }
        i += 1;
    }
    let final_kbps = if kbps_timeline.len() == 0 {
        ENCODER_KBPS
    } else {
        kbps_timeline[kbps_timeline.len() - 1]
    };
    GovernorSessionResult { kbps_timeline, final_kbps, stepped_down_on_blip }
}

/// A single 10% shed blip followed by clean windows holds the baseline bitrate.
pub fn single_blip_holds_baseline() -> (r: bool)
    ensures
        r,
{
    let mut w: Vec<(u32, u32)> = Vec::new();
    w.push((10, 100));
    w.push((0, 60));
    w.push((0, 60));
    w.push((0, 60));
    let r = simulate_governor_session(w.as_slice());
    proof {
        let s = session_start();
        assert(w@.take(1) =~= seq![(10u32, 100u32)]);
        assert(w@.take(2) =~= seq![(10u32, 100u32)].push((0u32, 60u32)));
        lemma_gov_run_push(s, Seq::<(u32, u32)>::empty(), (10u32, 100u32));
        assert(seq![(10u32, 100u32)] =~= Seq::<(u32, u32)>::empty().push((10u32, 100u32)));
        lemma_gov_run_push(s, seq![(10u32, 100u32)], (0u32, 60u32));
    }
    r.kbps_timeline[0] == ENCODER_KBPS && r.kbps_timeline[1] == ENCODER_KBPS
}

/// Sustained 40% shed reaches the floor (1250 kbps), not the old 625.
pub fn sustained_shed_reaches_floor_not_625() -> (r: bool)
    ensures
        r,
{
    let mut w: Vec<(u32, u32)> = Vec::new();
    let mut i: usize = 0;
    while i < 20
        invariant
            i <= 20,
            w@.len() == i,
            forall|k: int| 0 <= k < i ==> #[trigger] w@[k] == (40u32, 100u32),
        decreases 20 - i,
    {
        w.push((40, 100));
        i += 1;
    }
    let r = simulate_governor_session(w.as_slice());
    proof {
        let s = session_start();
        assert(w@.take(20) =~= w@);
        assert(all_bad(w@));
        assert(spec_rungs_from(spec_production_baseline())[0] == spec_production_baseline());
        lemma_sustained_shed_reaches_floor(s, w@);
        reveal_with_fuel(rung_steps, 4);
        assert(spec_rungs_from(spec_production_baseline()).last().bitrate_kbps == 1250);
    }
    r.final_kbps >= 1_250 && r.final_kbps != 625
}

/// However many windows a governor started at `b` sees, its target stays on the
/// ladder of `b`: the baseline's size and fps, and a bitrate between the lower of the
/// baseline and the floor, and the baseline.
pub proof fn lemma_run_stays_on_ladder(b: EncodeTarget, w: Seq<(u32, u32)>)
    ensures
        ({
            let t = gov_run(LinkGovState { baseline: b, current: b, clean_windows: 0, bad_windows: 0 }, w).current;
            &&& spec_rungs_from(b).contains(t)
            &&& t.width == b.width && t.height == b.height && t.fps == b.fps
            &&& t.bitrate_kbps <= b.bitrate_kbps
            &&& (if b.bitrate_kbps < FLOOR_KBPS { b.bitrate_kbps } else { FLOOR_KBPS }) <= t.bitrate_kbps
        }),
{
    let s0 = LinkGovState { baseline: b, current: b, clean_windows: 0, bad_windows: 0 };
    lemma_rungs_shape(b);
    assert(spec_rungs_from(b)[0] == b);
    assert(gov_wf(s0));
    lemma_gov_run_wf(s0, w);
    let t = gov_run(s0, w).current;
    let j = choose|j: int| 0 <= j < spec_rungs_from(b).len() && spec_rungs_from(b)[j] == t;
    assert(spec_rungs_from(b)[j] == t);
}

} // verus!
