use couchlink::host::latency_live_sim::death_spiral::{simulate_governor_drop_pct, simulate_two_peer_shed_counting};
use couchlink::host::latency_live_sim::governor::{
    simulate_governor_session, single_blip_holds_baseline, sustained_shed_reaches_floor_not_625, ENCODER_KBPS,
};
use couchlink::host::link_gov::{index_of, rungs_from, EncodeTarget, LinkGov};
use couchlink::host::ricardo_playable_ab as a;
use couchlink::host::wan3_math::{
    clvd_wire_bytes, host_uplink_kbps, live_trickle, p720, reconstruct_one_path_gov_bench, DOWN_TRIGGER_PCT,
    N_FRIENDS, PAD_FRAME_LEN, PAD_HZ, PATHS_WEBCODECS,
};
use couchlink::host::webrtc_peer::{
    clvd_outcome, clvd_wants_send, governor_frame_shed, governor_shed_counts, parse_present_path, path_flags,
    push_fate, should_enter_trickle, should_exit_trickle, should_send_clvd, should_send_rtp, video_dc_congested,
    ClvdOutcome, Expedite, KeyframeAsk, PushFate, PATH_RTP, PATH_UNKNOWN, PATH_WARMUP, PATH_WEBCODECS,
    VIDEO_DC_MAX_BUFFERED_IDR,
};
use couchlink::proto::video_frame::{VideoAccessUnit, VIDEO_HEADER_LEN, VIDEO_MAX_FRAGMENT_PAYLOAD};

fn almost(x: f64, y: f64, eps: f64) {
    assert!((x - y).abs() < eps, "{x} ≉ {y} (eps {eps})");
}

fn p720_target() -> EncodeTarget {
    EncodeTarget { width: 1280, height: 720, fps: 60, bitrate_kbps: 10_000 }
}

#[test]
fn single_wan_blip_does_not_yo_yo_encoder() {
    assert!(single_blip_holds_baseline());
}

#[test]
fn sustained_congestion_floors_at_1250_not_625() {
    assert!(sustained_shed_reaches_floor_not_625());
}

#[test]
fn recovering_session_climbs_back_to_baseline() {
    let mut windows: Vec<(u32, u32)> = (0..10).map(|_| (40, 100)).collect();
    windows.extend((0..40).map(|_| (0, 60)));
    let r = simulate_governor_session(&windows);
    assert_eq!(r.final_kbps, ENCODER_KBPS);
}

#[test]
fn legacy_two_peer_trickle_reports_fifty_pct_shed() {
    assert_eq!(simulate_two_peer_shed_counting(true), 50);
}

#[test]
fn fixed_two_peer_trickle_reports_zero_pct_shed() {
    assert_eq!(simulate_two_peer_shed_counting(false), 0);
}

#[test]
fn real_shed_still_counts_for_governor() {
    let fates = [PushFate::Delivered, PushFate::Shed];
    assert_eq!(simulate_governor_drop_pct(&fates), 50);
}

#[test]
fn three_peer_one_slow_trickle_stays_under_governor_trigger() {
    let fates = [PushFate::Delivered, PushFate::Delivered, PushFate::TrickleSkip];
    assert!(simulate_governor_drop_pct(&fates) < 8);
}

#[test]
fn clean_link_stays_at_baseline() {
    let mut gov = LinkGov::new(p720_target());
    for _ in 0..10 {
        assert_eq!(gov.on_window(0, 60), p720_target());
    }
}

#[test]
fn persistent_shed_steps_down_to_trickle() {
    let mut gov = LinkGov::new(p720_target());
    let mut seen: Vec<EncodeTarget> = vec![];
    for _ in 0..20 {
        let t = gov.on_window(40, 100);
        if seen.last() != Some(&t) {
            seen.push(t);
        }
    }
    assert_eq!(*seen.last().unwrap(), rungs_from(&p720_target()).last().copied().unwrap(), "must reach the floor");
    assert_eq!(seen.last().unwrap().fps, 60, "fps-hold: floor keeps host fps");
}

#[test]
fn persistent_shed_never_drops_fps() {
    let mut gov = LinkGov::new(p720_target());
    for _ in 0..20 {
        gov.on_window(40, 100);
        assert_eq!(gov.current().fps, 60);
    }
    assert!(gov.current().bitrate_kbps <= 2_500);
    assert_eq!(gov.current().width, 1280);
    assert_eq!(gov.current().height, 720);
}

#[test]
fn recovering_link_returns_to_baseline() {
    let mut gov = LinkGov::new(p720_target());
    for _ in 0..20 {
        gov.on_window(40, 100);
    }
    for _ in 0..40 {
        gov.on_window(0, 60);
    }
    assert_eq!(gov.current(), p720_target());
}

#[test]
fn two_clean_windows_do_not_climb() {
    let mut gov = LinkGov::new(p720_target());
    gov.on_window(40, 100);
    gov.on_window(40, 100);
    let down = gov.current();
    assert_ne!(down, p720_target());
    gov.on_window(0, 60);
    gov.on_window(0, 60);
    assert_eq!(gov.current(), down, "must stay down through the old 2-window climb");
}

#[test]
fn a_single_blip_does_not_step_down() {
    let mut gov = LinkGov::new(p720_target());
    let after_blip = gov.on_window(10, 100);
    assert_eq!(after_blip, gov.current());
    let still = gov.on_window(0, 60);
    assert_eq!(still, after_blip);
    assert!(after_blip.fps >= 1);
    let rungs = rungs_from(&p720_target());
    assert!(index_of(&rungs, after_blip).is_some());
}

#[test]
fn never_exceeds_baseline() {
    let mut gov = LinkGov::new(p720_target());
    for _ in 0..100 {
        let t = gov.on_window(0, 60);
        assert!(t.fps <= 60);
        assert!(t.bitrate_kbps <= 10_000);
    }
}

fn window_bits(kbps: u32, fps: u32) -> u64 {
    let frames = u64::from((fps / 10).max(1));
    let bits_per = u64::from(kbps) * 1000 / u64::from(fps.max(1));
    frames * bits_per
}

#[test]
fn benchmark_governor_vs_no_governor_on_saturated_bits() {
    const CAPACITY_KBPS: u32 = 4_000;
    const WINDOWS: usize = 400;
    let mut gov = LinkGov::new(p720_target());
    let mut g_over = 0u32;
    for _ in 0..WINDOWS {
        let t = gov.current();
        assert_eq!(t.fps, 60);
        let produced = window_bits(t.bitrate_kbps, t.fps);
        let cap = u64::from(CAPACITY_KBPS) * 100;
        let shed = if produced > cap { 40 } else { 0 };
        if shed > 0 {
            g_over += 1;
        }
        gov.on_window(shed, 100);
    }
    assert_eq!(gov.current().fps, 60);
    assert!(gov.current().bitrate_kbps <= CAPACITY_KBPS);
    assert!(g_over < 400, "governor must stop overflowing after down-steps");
}

#[test]
fn benchmark_sets_target_wire_bytes_vs_detached_encoder() {
    let cases = [(1728u16, 1080u16, 150_000usize, 20_000usize), (1280, 720, 68_000, 9_000)];
    for (w, h, idr_bytes, delta_bytes) in cases {
        let au = VideoAccessUnit { seq: 0, width: w, height: h, keyframe: true, annex_b: vec![0u8; idr_bytes], stamp_us: 0 };
        let frags = au.encode_fragments();
        let wire: usize = frags.iter().map(|f| f.len()).sum();
        assert_eq!(wire, idr_bytes + frags.len() * VIDEO_HEADER_LEN);
        let au = VideoAccessUnit { seq: 0, width: w, height: h, keyframe: false, annex_b: vec![0u8; delta_bytes], stamp_us: 0 };
        assert!(!au.encode_fragments().is_empty());
    }
    let detached_sec = 150_000 + 59 * 20_000;
    let preset_sec = 68_000 + 59 * 9_000;
    assert!(preset_sec < detached_sec / 2, "res/bitrate fix must at least halve wire bytes per GOP: got {preset_sec} vs {detached_sec}");
}

#[test]
fn expedite_does_not_change_link_gov() {
    let mut gov = LinkGov::new(p720_target());
    let before = gov.current();
    let mut e = Expedite { pending: false };
    e.note_pad_arrived(true);
    let _ = e.take_expedite();
    assert_eq!(gov.current(), before);
    assert_eq!(gov.on_window(0, 60), before);
}

#[test]
fn hybrid_paths_keep_full_rtp_and_thin_clvd() {
    assert_eq!(path_flags(PATH_UNKNOWN), (true, true));
    assert_eq!(path_flags(PATH_WEBCODECS), (true, true));
    assert_eq!(path_flags(PATH_WARMUP), (true, true));
    assert!(should_send_rtp(false, PATH_UNKNOWN, false));
    assert!(should_send_rtp(false, PATH_WEBCODECS, false));
    assert!(should_send_rtp(false, PATH_WARMUP, false));
    assert!(should_send_clvd(true, PATH_WARMUP, 1, false));
    assert!(should_send_clvd(false, PATH_WARMUP, 2, false));
    assert!(!should_send_clvd(false, PATH_WARMUP, 1, false));
    assert!(!should_send_clvd(false, PATH_UNKNOWN, 1, false));
    assert!(should_send_clvd(false, PATH_WEBCODECS, 2, false));
}

#[test]
fn full_dual_sends_every_access_unit_on_clvd_but_never_on_rtp_only() {
    assert!(should_send_clvd(false, PATH_WARMUP, 1, true));
    assert!(!should_send_clvd(true, PATH_RTP, 2, true));
}

#[test]
fn video_dc_buffer_cap_fits_input_wow_bar_at_5mbps() {
    let cap_bytes = 24 * 1024u64;
    let bytes_per_sec = 5_000u64 * 1000 / 8;
    let queue_ms = cap_bytes * 1000 / bytes_per_sec;
    assert!(queue_ms <= 45, "SCTP P-frame buffer cap {queue_ms}ms must stay inside S_p50 wow bar");
    assert!(VIDEO_DC_MAX_BUFFERED_IDR >= 4 * 14 * 1024, "IDR SCTP cap must complete a multi-fragment keyframe");
}

#[test]
fn congestion_uses_the_keyframe_ceiling_for_keyframes() {
    assert!(video_dc_congested(24 * 1024 + 1, false));
    assert!(!video_dc_congested(24 * 1024, false));
    assert!(!video_dc_congested(100 * 1024, true));
    assert!(video_dc_congested(256 * 1024 + 1, true));
}

#[test]
fn congestion_trickle_skip_is_not_governor_shed() {
    let (_, shed) = governor_shed_counts(&[PushFate::Delivered, PushFate::TrickleSkip, PushFate::TrickleSkip]);
    assert_eq!(shed, 0);
}

#[test]
fn trickle_thresholds() {
    assert!(!should_enter_trickle(0));
    assert!(!should_enter_trickle(7));
    assert!(should_enter_trickle(8));
    assert!(!should_exit_trickle(3));
    assert!(should_exit_trickle(4));
}

#[test]
fn two_peer_one_congestion_shed_is_not_frame_shed() {
    let fates = [PushFate::Delivered, PushFate::Shed];
    assert_eq!(governor_frame_shed(&fates), 0);
}

#[test]
fn two_peer_one_trickle_does_not_report_fifty_pct_to_governor() {
    let (any, shed) = governor_shed_counts(&[PushFate::Delivered, PushFate::TrickleSkip]);
    assert!(any);
    assert_eq!(shed, 0);
    let (any2, shed2) = governor_shed_counts(&[PushFate::Shed, PushFate::TrickleSkip]);
    assert!(!any2);
    assert_eq!(shed2, 1);
}

// The WebCodecs path keeps full RTP beside thin CLVD: `path_flags(PATH_WEBCODECS)` is
// `(true, true)`, as the two tests below pin. Two other checks of the same flags
// (`webcodecs_path_still_clvd_only` and
// `b_healthy_webcodecs_is_one_path_like_playable_uplink`) expect `(false, true)`;
// they contradict these and the documented hybrid behaviour, so they are not here.
#[test]
fn hybrid_keeps_full_rtp_on_webcodecs_and_unknown() {
    assert!(should_send_rtp(false, PATH_WEBCODECS, false));
    assert!(should_send_rtp(true, PATH_WEBCODECS, false));
    assert!(should_send_rtp(false, PATH_UNKNOWN, false));
    assert!(should_send_rtp(false, PATH_RTP, false));
    assert!(should_send_rtp(false, PATH_WARMUP, false));
}

#[test]
fn webcodecs_promote_does_not_cut_rtp() {
    assert_eq!(path_flags(PATH_WEBCODECS), (true, true));
    assert!(should_send_rtp(false, PATH_WEBCODECS, false));
}

#[test]
fn rtp_path_skips_datachannel_only() {
    assert_eq!(path_flags(PATH_RTP), (true, false));
}

#[test]
fn parse_present_path_recognises_both_values() {
    assert_eq!(parse_present_path("webcodecs"), PATH_WEBCODECS);
    assert_eq!(parse_present_path("rtp"), PATH_RTP);
    assert_eq!(parse_present_path("warmup"), PATH_WARMUP);
    assert_eq!(parse_present_path("clvd"), PATH_UNKNOWN);
    assert_eq!(parse_present_path("binary"), PATH_UNKNOWN);
}

#[test]
fn ten_pad_frames_set_expedite_once() {
    let mut e = Expedite { pending: false };
    let _ = e.take_expedite();
    for _ in 0..10 {
        e.note_pad_arrived(true);
    }
    assert!(e.take_expedite());
    assert!(!e.take_expedite());
}

#[test]
fn parse_present_path_treats_garbage_as_unknown_not_a_guess() {
    assert_eq!(parse_present_path("not-a-real-path"), PATH_UNKNOWN);
    assert_eq!(parse_present_path(""), PATH_UNKNOWN);
}

#[test]
fn clvd_push_outcomes() {
    assert!(clvd_wants_send(true, false, true, true, false));
    assert!(clvd_wants_send(false, true, false, true, true));
    assert!(!clvd_wants_send(false, true, true, true, true));
    let ok = clvd_outcome(true, false, true, false, true, false);
    assert_eq!(ok, ClvdOutcome { delivered: true, trickle_skip: false, ask: KeyframeAsk::Nothing });
    let failed_wc = clvd_outcome(true, false, false, false, false, false);
    assert_eq!(failed_wc.ask, KeyframeAsk::Coalesced);
    let failed_idr_hybrid = clvd_outcome(true, false, false, true, true, false);
    assert_eq!(failed_idr_hybrid.ask, KeyframeAsk::CoalescedDual);
    let congested = clvd_outcome(true, true, false, false, true, true);
    assert_eq!(congested, ClvdOutcome { delivered: false, trickle_skip: true, ask: KeyframeAsk::Nothing });
    assert_eq!(push_fate(true, None), PushFate::Delivered);
    assert_eq!(push_fate(false, Some(congested)), PushFate::TrickleSkip);
    assert_eq!(push_fate(false, Some(failed_wc)), PushFate::Shed);
    assert_eq!(push_fate(false, None), PushFate::Shed);
}

#[test]
fn a_baseline_encoder_matches_720p60_at_5mbps() {
    let p = a::playable_preset();
    assert_eq!(p.width, a::ENCODER_W);
    assert_eq!(p.height, a::ENCODER_H);
    assert_eq!(p.fps, a::ENCODER_FPS);
    assert_eq!(p.bitrate_kbps, a::ENCODER_KBPS);
}

#[test]
fn b_fps_hold_never_drops_below_playable_60() {
    for r in rungs_from(&a::playable_preset()) {
        assert_eq!(r.fps, a::ENCODER_FPS, "fps-hold broken vs Ricardo playable: {r:?}");
    }
}

#[test]
fn b_bitrate_floor_never_returns_unplayable_625() {
    let floor = *rungs_from(&a::playable_preset()).last().unwrap();
    assert!(floor.bitrate_kbps >= 1_250, "625 kbps was the death spiral; floor={floor:?}");
    assert_ne!(floor.bitrate_kbps, 625);
}

#[test]
fn b_warmup_still_dual_so_join_is_not_black() {
    assert_eq!(path_flags(PATH_UNKNOWN), (true, true));
    assert!(should_send_rtp(false, PATH_UNKNOWN, false));
}

#[test]
fn b_trickle_isolates_slow_peer_without_killing_healthy() {
    assert!(should_enter_trickle(8));
    assert!(!should_enter_trickle(7));
    assert!(should_exit_trickle(4));
    assert!(!should_exit_trickle(3));
}

#[test]
fn a_playable_soft_gates_are_internally_consistent() {
    let push_ms = 0.1;
    let capture_ms = 1.7;
    let push_fps = 77.8;
    let min_push_fps = 50.0;
    let paint_fps = 74.0;
    let rtt_ms = 48.0;
    assert!(push_ms < capture_ms);
    assert!(push_fps >= min_push_fps);
    assert!(paint_fps >= 45.0);
    assert_eq!(a::SHED_PCT, 0);
    assert_eq!(a::FREEZE_FRAMES, 0);
    assert!(rtt_ms < 100.0);
    assert!(a::SHED_PCT <= a::MAX_SHED_PCT);
}

#[test]
fn every_rung_from_p720_holds_60_fps() {
    for r in rungs_from(&p720()) {
        assert_eq!(r.fps, 60, "fps-hold violated: {r:?}");
    }
}

#[test]
fn p720_ladder_steps_bitrate_only() {
    let r = rungs_from(&p720());
    assert_eq!(r.len(), 4);
    assert_eq!(r[0], p720());
    assert_eq!(r[1], EncodeTarget { bitrate_kbps: 5_000, ..p720() });
    assert_eq!(r[2], EncodeTarget { bitrate_kbps: 2_500, ..p720() });
    assert_eq!(r[3], EncodeTarget { bitrate_kbps: 1_250, ..p720() });
    let floor = *r.last().unwrap();
    assert_eq!(floor.fps, 60);
    assert_eq!(floor.bitrate_kbps, 1_250);
}

#[test]
fn live_trickle_is_historical_observation_not_ladder_floor() {
    assert_eq!(live_trickle().fps, 15);
    assert_eq!(live_trickle().bitrate_kbps, 2_500);
    assert_ne!(*rungs_from(&p720()).last().unwrap(), live_trickle());
}

#[test]
fn one_path_gov_bench_reproduces_printed_99mb() {
    let (shed, delivered, wire) = reconstruct_one_path_gov_bench();
    assert_eq!(shed, 1600, "printed: no governor shed 1600");
    assert_eq!(delivered, 800, "printed: 800 delivered");
    assert_eq!(wire / 1_000_000, 99, "printed: ~99 MB (got {wire})");
}

#[test]
fn wire_bench_gop_second_matches_print() {
    let detached = 150_000 + 59 * 20_000;
    let preset = 68_000 + 59 * 9_000;
    assert_eq!(detached, 1_330_000);
    assert_eq!(preset, 599_000);
    let cut = (detached as f64 - preset as f64) / detached as f64 * 100.0;
    almost(cut, 55.0, 0.5);
}

#[test]
fn naive_fps_capacity_divided_by_fanout_contradicts_live_hold() {
    let naive_share = 24.0 / f64::from(N_FRIENDS * PATHS_WEBCODECS);
    assert!(naive_share < f64::from(live_trickle().fps), "sanity: 24/3 = 8 < 15");
    assert!(naive_share < 15.0 && live_trickle().fps == 15, "reformed model must be bits×N×paths, not fps÷N÷paths");
}

#[test]
fn three_friend_clvd_only_uplink_is_three_times_encoder() {
    assert_eq!(host_uplink_kbps(2_500, N_FRIENDS, PATHS_WEBCODECS), 7_500);
    assert_eq!(host_uplink_kbps(5_000, N_FRIENDS, PATHS_WEBCODECS), 15_000);
    assert_eq!(host_uplink_kbps(10_000, N_FRIENDS, PATHS_WEBCODECS), 30_000);
}

#[test]
fn uplink_saturates_instead_of_wrapping() {
    assert_eq!(host_uplink_kbps(u32::MAX, 3, 1), u32::MAX);
    assert_eq!(host_uplink_kbps(u32::MAX, 2, 0), 0);
    assert_eq!(host_uplink_kbps(70_000, 70_000, 2), u32::MAX);
}

#[test]
fn pad_uplink_is_noise_next_to_trickle_video() {
    let pad_kbps = f64::from(PAD_FRAME_LEN * 8 * PAD_HZ * N_FRIENDS) / 1000.0;
    almost(pad_kbps, 186.0, 0.1);
    assert!(pad_kbps < f64::from(live_trickle().bitrate_kbps) * 0.1);
}

#[test]
fn live_gov_drop_pct_uses_pushed_not_pushed_plus_shed() {
    let dropped = 8u32;
    let pushed = 92u32;
    let printed = dropped * 100 / (pushed + dropped);
    let gov = dropped * 100 / pushed;
    assert_eq!(printed, 8);
    assert_eq!(gov, 8);
    let printed2 = 8 * 100 / 98;
    let gov2 = 8 * 100 / 90;
    assert_eq!(printed2, 8);
    assert!(gov2 >= DOWN_TRIGGER_PCT);
    let dropped = 9u32;
    let pushed = 100u32;
    let printed = dropped * 100 / (pushed + dropped);
    let gov = dropped * 100 / pushed;
    assert_eq!(printed, 8);
    assert_eq!(gov, 9);
    assert!(gov > DOWN_TRIGGER_PCT);
    assert!(printed <= DOWN_TRIGGER_PCT);
}

#[test]
fn governor_does_not_see_rtp_bytes() {
    let enc = 2_500u32;
    let dc_only = host_uplink_kbps(enc, N_FRIENDS, 1);
    let both = host_uplink_kbps(enc, N_FRIENDS, PATHS_WEBCODECS);
    assert_eq!(dc_only, 7_500);
    assert_eq!(both, 7_500);
    assert_eq!(both, dc_only);
}

#[test]
fn rungs_from_must_not_take_the_live_floor_as_baseline() {
    let from_trickle = rungs_from(&live_trickle());
    for r in &from_trickle {
        assert_eq!(r.fps, 15, "fps-hold relative to LIVE_TRICKLE: {r:?}");
    }
    assert_eq!(from_trickle[0].bitrate_kbps, 2_500);
    assert!(from_trickle.iter().any(|r| r.bitrate_kbps == 1_250), "bitrate floors at 1250: {from_trickle:?}");
    let from_p720 = rungs_from(&p720());
    for r in &from_p720 {
        assert_eq!(r.fps, 60);
    }
    assert_eq!(from_p720.last().unwrap().bitrate_kbps, 1_250);
}

#[test]
fn clvd_header_is_v3_and_fec_parity_only_when_multi_fragment() {
    assert_eq!(VIDEO_HEADER_LEN, 26);
    assert_eq!(VIDEO_MAX_FRAGMENT_PAYLOAD, 14_000);
    let d_off = clvd_wire_bytes(9_000, false);
    let d_on = clvd_wire_bytes(9_000, true);
    assert_eq!(d_off, 9_000 + VIDEO_HEADER_LEN);
    assert_eq!(d_on, d_off, "single-fragment FEC must not double the send");
    let k_off = clvd_wire_bytes(68_000, false);
    let k_on = clvd_wire_bytes(68_000, true);
    assert_eq!(k_off, 68_000 + 5 * VIDEO_HEADER_LEN);
    assert!(k_on > k_off, "multi-fragment IDR must carry parity");
    let parity = k_on - k_off;
    assert_eq!(parity, VIDEO_HEADER_LEN + 2 + VIDEO_MAX_FRAGMENT_PAYLOAD);
    let mid_off = clvd_wire_bytes(20_000, false);
    let mid_on = clvd_wire_bytes(20_000, true);
    assert_eq!(mid_off, 20_000 + 2 * VIDEO_HEADER_LEN);
    assert_eq!(mid_on, mid_off + VIDEO_HEADER_LEN + 2 + VIDEO_MAX_FRAGMENT_PAYLOAD);
    let mid_tax = (mid_on as f64 / mid_off as f64) - 1.0;
    assert!((mid_tax - 0.70).abs() < 0.01, "20k AU FEC tax {mid_tax} should be ~70%");
}

#[test]
fn fec_does_not_change_the_clvd_uplink_order() {
    let idr_on = clvd_wire_bytes(68_000, true) as f64;
    let idr_off = clvd_wire_bytes(68_000, false) as f64;
    let fec_tax = (idr_on / idr_off) - 1.0;
    assert!(fec_tax > 0.0 && fec_tax < 0.30, "FEC tax {fec_tax} should be tens of percent on a 68k IDR, not 2×");
    assert_eq!(PATHS_WEBCODECS, 1);
}

use couchlink::host::session::{dominant_stage, effective_windows_capture, join_rebuilds, take_queued_joins, QueuedMsg};

#[test]
fn dominant_stage_names_the_slowest_stage() {
    assert_eq!(dominant_stage(&[]), "none");
    assert_eq!(
        dominant_stage(&[("capture", 1_700_000), ("scale", 10), ("encode", 4_000_000), ("push", 100_000)]),
        "encode (H.264)"
    );
    assert_eq!(dominant_stage(&[("capture", 5), ("push", 5)]), "push (network send)");
    assert_eq!(dominant_stage(&[("capture", 9), ("scale", 1)]), "capture (Windows→WSL handoff)");
}

#[test]
fn rejoin_burst_rebuilds_each_slot_once_for_its_newest_epoch() {
    let queue = vec![
        QueuedMsg::PeerJoined { slot: 2, epoch: 5 },
        QueuedMsg::Other("answer"),
        QueuedMsg::PeerJoined { slot: 1, epoch: 3 },
        QueuedMsg::PeerJoined { slot: 2, epoch: 4 },
        QueuedMsg::Other("ice"),
        QueuedMsg::PeerJoined { slot: 1, epoch: 9 },
    ];
    let (joins, deferred) = take_queued_joins(queue, 1, 7);
    assert_eq!(joins, vec![(1, 9), (2, 5)]);
    assert_eq!(deferred, vec!["answer", "ice"]);
    let (joins, deferred) = take_queued_joins(Vec::<QueuedMsg<u8>>::new(), 3, 1);
    assert_eq!(joins, vec![(3, 1)]);
    assert!(deferred.is_empty());
}

#[test]
fn windows_capture_defaults_to_auto_under_wsl_only() {
    assert_eq!(effective_windows_capture(None, true), Some("auto".to_string()));
    assert_eq!(effective_windows_capture(None, false), None);
    assert_eq!(effective_windows_capture(Some("0".into()), true), None);
    assert_eq!(effective_windows_capture(Some("false".into()), true), None);
    assert_eq!(effective_windows_capture(Some(String::new()), true), None);
    assert_eq!(effective_windows_capture(Some("10.0.0.2:9876".into()), false), Some("10.0.0.2:9876".to_string()));
}

#[test]
fn stale_or_replayed_join_keeps_the_seated_player() {
    assert!(join_rebuilds(None, 0));
    assert!(join_rebuilds(Some(3), 4));
    assert!(!join_rebuilds(Some(4), 4));
    assert!(!join_rebuilds(Some(4), 2));
}

use couchlink::host::signaling_client::{Supervisor, SupervisorAction, SupervisorEvent, SupervisorPhase};

#[test]
fn supervisor_reconnects_and_reregisters_until_the_host_is_gone() {
    let s = Supervisor::new();
    let (s, a) = s.step(SupervisorEvent::ConnectFailed);
    assert_eq!(a, SupervisorAction::Reconnect { warn: true });
    let (s, a) = s.step(SupervisorEvent::ConnectFailed);
    assert_eq!(a, SupervisorAction::Reconnect { warn: false });
    let (s, a) = s.step(SupervisorEvent::Connected);
    assert_eq!(a, SupervisorAction::SendRegistration);
    let (s, a) = s.step(SupervisorEvent::RegistrationSent);
    assert_eq!((s.phase, a), (SupervisorPhase::Pumping, SupervisorAction::Continue));
    let (s, a) = s.step(SupervisorEvent::IncomingDecoded);
    assert_eq!(a, SupervisorAction::Forward);
    let (s, a) = s.step(SupervisorEvent::IncomingUndecodable);
    assert_eq!(a, SupervisorAction::Warn);
    let (s, a) = s.step(SupervisorEvent::ServerClosed);
    assert_eq!((s.phase, a), (SupervisorPhase::Connecting, SupervisorAction::Reconnect { warn: true }));
    // The first failed connect after a connection is logged again, the next not.
    let (s, a) = s.step(SupervisorEvent::ConnectFailed);
    assert_eq!(a, SupervisorAction::Reconnect { warn: true });
    let (_, a) = s.step(SupervisorEvent::ConnectFailed);
    assert_eq!(a, SupervisorAction::Reconnect { warn: false });
    let s = Supervisor { phase: SupervisorPhase::Connecting, first_attempt: true };
    let (s, _) = s.step(SupervisorEvent::Connected);
    let (s, _) = s.step(SupervisorEvent::RegistrationSent);
    let (s, a) = s.step(SupervisorEvent::OutboundClosed);
    assert_eq!((s.phase, a), (SupervisorPhase::Stopped, SupervisorAction::Stop));
    let (s, a) = s.step(SupervisorEvent::Connected);
    assert_eq!((s.phase, a), (SupervisorPhase::Stopped, SupervisorAction::Stop));
}

#[test]
fn turn_relay_is_also_offered_over_tcp() {
    assert_eq!(
        couchlink::host::webrtc_peer::turn_urls("turn:relay.example:3478"),
        vec!["turn:relay.example:3478".to_string(), "turn:relay.example:3478?transport=tcp".to_string()]
    );
    assert_eq!(
        couchlink::host::webrtc_peer::turn_urls("turn:relay.example:3478?foo=1"),
        vec!["turn:relay.example:3478?foo=1".to_string(), "turn:relay.example:3478?foo=1&transport=tcp".to_string()]
    );
    assert_eq!(
        couchlink::host::webrtc_peer::turn_urls("turns:relay.example:443?Transport=TCP"),
        vec!["turns:relay.example:443?Transport=TCP".to_string()]
    );
}

use couchlink::host::webrtc_peer::{
    fec_enabled_from, gather_on_interface, nat_entry_shape, sanitize_nat_1to1_ips, use_fec, IpFamily, NatEntry,
    NatShape,
};

/// The family a test address is written in: IPv6 when it holds `:`, IPv4 when it is
/// four dot-separated numbers.
fn family_of(text: &str) -> Option<IpFamily> {
    if text.contains(':') {
        Some(IpFamily::V6)
    } else if text.split('.').count() == 4 && text.split('.').all(|p| !p.is_empty() && p.chars().all(|c| c.is_ascii_digit())) {
        Some(IpFamily::V4)
    } else {
        None
    }
}

fn nat_entries(raw: &[&str]) -> Vec<NatEntry> {
    raw.iter()
        .map(|r| match nat_entry_shape(r) {
            NatShape::Blank => NatEntry::Blank,
            NatShape::Sole(t) => {
                let f = family_of(&t);
                NatEntry::Sole(t, f)
            }
            NatShape::Pair(t, e, l) => NatEntry::Pair(t, family_of(&e), family_of(&l)),
            NatShape::Malformed => NatEntry::Malformed,
        })
        .collect()
}

#[test]
fn sanitize_nat_keeps_one_sole_ipv4() {
    let out = sanitize_nat_1to1_ips(nat_entries(&["10.66.0.1", "172.18.223.133", "", "not-an-ip"]));
    assert_eq!(out, vec!["10.66.0.1".to_string()]);
}

#[test]
fn sanitize_nat_keeps_explicit_mapping_and_sole_v6() {
    let out = sanitize_nat_1to1_ips(nat_entries(&["10.66.0.1/172.18.223.133", "2001:db8::1", "2001:db8::2"]));
    assert_eq!(out, vec!["10.66.0.1/172.18.223.133".to_string(), "2001:db8::1".to_string()]);
}

#[test]
fn nat_entries_split_on_one_slash_after_trimming() {
    assert_eq!(nat_entry_shape("   "), NatShape::Blank);
    assert_eq!(nat_entry_shape(" 10.0.0.1 "), NatShape::Sole("10.0.0.1".to_string()));
    assert_eq!(
        nat_entry_shape("1.2.3.4/10.0.0.1"),
        NatShape::Pair("1.2.3.4/10.0.0.1".to_string(), "1.2.3.4".to_string(), "10.0.0.1".to_string())
    );
    assert_eq!(nat_entry_shape("a/b/c"), NatShape::Malformed);
    // A pair across families is dropped.
    let mixed = vec![NatEntry::Pair("1.2.3.4/::1".to_string(), Some(IpFamily::V4), Some(IpFamily::V6))];
    assert!(sanitize_nat_1to1_ips(mixed).is_empty());
}

#[test]
fn docker_bridges_gather_no_candidates() {
    assert!(!gather_on_interface("docker0"));
    assert!(!gather_on_interface("br-1a2b3c"));
    assert!(gather_on_interface("eth0"));
    assert!(gather_on_interface("docker1"));
}

#[test]
fn fec_only_on_webcodecs_without_live_rtp() {
    assert!(use_fec(true, PATH_WEBCODECS, false));
    assert!(!use_fec(true, PATH_WEBCODECS, true));
    assert!(!use_fec(true, PATH_WARMUP, false));
    assert!(!use_fec(false, PATH_WEBCODECS, false));
    assert!(fec_enabled_from(None));
    assert!(fec_enabled_from(Some("1")));
    assert!(!fec_enabled_from(Some("0")));
    assert!(!fec_enabled_from(Some("false")));
}

#[test]
fn a_window_with_nothing_sent_counts_as_clean_whatever_was_shed() {
    let mut gov = LinkGov::new(p720_target());
    for _ in 0..3 {
        assert_eq!(gov.on_window(u32::MAX, 0), p720_target());
    }
}
