use couchlink::host::capture::{parse_capture_ipc, resolve_capture_ipc, respawn_capture_source_inner, CaptureIpc};
use couchlink::host::cursor::blend_premultiplied_argb;
use couchlink::host::emulator_keymap::{key_names, pcsx2_field, rpcs3_key};
use couchlink::host::emulator_pad::{backend_for, JOIN_PAD_KIND};
use couchlink::host::encode::bgra_to_i420;
use couchlink::host::latency::gaming_playout_delay;
use couchlink::host::motion::{MotionDetector, IDLE_STREAK_REQUIRED};
use couchlink::host::nat_punch::{discover_and_rewrite, endpoint_port_from_conf, rewrite_wg_endpoint};
use couchlink::host::scale::scale_bgra;
use std::time::{Duration, Instant};

#[test]
fn pinned_window_title_respawns_window_not_picker() {
    assert_eq!(respawn_capture_source_inner(None, true), "window");
}

#[test]
fn unpinned_respawn_reopens_the_picker() {
    assert_eq!(respawn_capture_source_inner(None, false), "picker");
}

#[test]
fn empty_capture_source_counts_as_unpinned() {
    assert_eq!(respawn_capture_source_inner(Some(String::new()), false), "picker");
}

#[test]
fn explicit_picker_stays_picker() {
    assert_eq!(respawn_capture_source_inner(Some("picker".into()), false), "picker");
}

#[test]
fn pinned_noninteractive_sources_are_honoured() {
    assert_eq!(respawn_capture_source_inner(Some("desktop".into()), false), "desktop");
    assert_eq!(respawn_capture_source_inner(Some("window".into()), false), "window");
}

#[test]
fn parse_capture_ipc_accepts_shm_hyperv_tcp() {
    assert_eq!(parse_capture_ipc("shm"), Ok(CaptureIpc::Shm));
    assert_eq!(parse_capture_ipc("hyperv"), Ok(CaptureIpc::HyperV));
    assert_eq!(parse_capture_ipc("TCP"), Ok(CaptureIpc::Tcp));
    assert!(parse_capture_ipc("nope").is_err());
}

#[test]
fn resolve_capture_ipc_falls_back_shm_until_gate() {
    assert_eq!(resolve_capture_ipc(CaptureIpc::Shm), CaptureIpc::HyperV);
    assert_eq!(resolve_capture_ipc(CaptureIpc::HyperV), CaptureIpc::HyperV);
    assert_eq!(resolve_capture_ipc(CaptureIpc::Tcp), CaptureIpc::Tcp);
}

#[test]
fn letter_codes_translate() {
    let k = key_names("KeyW").unwrap();
    assert_eq!(k.pcsx2, "Key_W");
    assert_eq!(k.sdl, "W");
    let k = key_names("Space").unwrap();
    assert_eq!(k.pcsx2, "Key_Space");
    assert_eq!(k.sdl, "Space");
}

#[test]
fn arrow_and_shift_codes_translate() {
    let k = key_names("ArrowUp").unwrap();
    assert_eq!(k.pcsx2, "Key_Up");
    assert_eq!(k.sdl, "Up");
    let k = key_names("ShiftLeft").unwrap();
    assert_eq!(k.pcsx2, "Key_Shift");
    assert_eq!(k.sdl, "LShift");
    let k = key_names("ControlRight").unwrap();
    assert_eq!(k.sdl, "RControl");
}

#[test]
fn unknown_codes_are_skipped() {
    assert!(key_names("Unidentified").is_none());
    assert!(key_names("MouseLeft").is_none());
    assert!(key_names("KeyAB").is_none());
}

#[test]
fn control_fields_map() {
    assert_eq!(pcsx2_field("cross"), Some("Cross"));
    assert_eq!(pcsx2_field("options"), Some("Start"));
    assert_eq!(pcsx2_field("lstick_right"), Some("LRight"));
    assert_eq!(pcsx2_field("nonsense"), None);
    assert_eq!(rpcs3_key("dpad_up"), Some("Up"));
    assert_eq!(rpcs3_key("rstick_down"), Some("Right Stick Down"));
    assert_eq!(rpcs3_key("nonsense"), None);
}

#[test]
fn xbox_and_generic_use_xinput_backend() {
    assert_eq!(backend_for("xbox"), "xbox360");
    assert_eq!(backend_for("generic"), "xbox360");
    assert_eq!(backend_for("something-new"), "xbox360");
}

#[test]
fn every_known_pad_kind_uses_the_pcsx2_compatible_backend() {
    for kind in ["dualsense", "dualshock4", "ds4", "xbox", "generic", "something-new"] {
        assert_eq!(backend_for(kind), "xbox360", "kind {kind:?} must map to xbox360 — ds4 has no working PCSX2 auto-link");
    }
}

#[test]
fn join_binds_without_waiting_for_pad_info() {
    assert_eq!(JOIN_PAD_KIND, "generic");
    assert_eq!(backend_for(JOIN_PAD_KIND), "xbox360", "join-time bind must use the PCSX2-compatible backend");
}

#[test]
fn gaming_playout_delay_is_zero() {
    assert_eq!(gaming_playout_delay(), (0, 0));
}

/// The straightforward per-pixel conversion, as an oracle for the row-wise one.
fn reference_bgra_to_i420(bgra: &[u8], width: usize, height: usize, stride: usize) -> Vec<u8> {
    let chroma_w = (width + 1) / 2;
    let chroma_h = (height + 1) / 2;
    let mut i420 = vec![0u8; width * height + 2 * chroma_w * chroma_h];
    let (y_plane, uv) = i420.split_at_mut(width * height);
    let (u_plane, v_plane) = uv.split_at_mut(chroma_w * chroma_h);
    for y in 0..height {
        for x in 0..width {
            let i = y * stride + x * 4;
            if i + 3 >= bgra.len() {
                continue;
            }
            let b = bgra[i] as i32;
            let g = bgra[i + 1] as i32;
            let r = bgra[i + 2] as i32;
            let y_val = ((66 * r + 129 * g + 25 * b + 128) >> 8) + 16;
            y_plane[y * width + x] = y_val.clamp(0, 255) as u8;
            if x % 2 == 0 && y % 2 == 0 {
                let u_val = ((-38 * r - 74 * g + 112 * b + 128) >> 8) + 128;
                let v_val = ((112 * r - 94 * g - 18 * b + 128) >> 8) + 128;
                let uv_idx = (y / 2) * chroma_w + (x / 2);
                if uv_idx < u_plane.len() {
                    u_plane[uv_idx] = u_val.clamp(0, 255) as u8;
                    v_plane[uv_idx] = v_val.clamp(0, 255) as u8;
                }
            }
        }
    }
    i420
}

fn noise(w: usize, h: usize) -> Vec<u8> {
    let mut seed = 0x9E3779B9u32;
    (0..w * h * 4)
        .map(|_| {
            seed = seed.wrapping_mul(1664525).wrapping_add(1013904223);
            (seed >> 24) as u8
        })
        .collect()
}

#[test]
fn matches_the_reference_implementation() {
    for (w, h) in [(16, 16), (15, 9), (1, 1), (2, 3), (64, 33), (128, 72)] {
        let src = noise(w, h);
        let stride = w * 4;
        assert_eq!(bgra_to_i420(&src, w, h, stride), reference_bgra_to_i420(&src, w, h, stride), "diverged at {w}x{h}");
    }
}

#[test]
fn short_source_does_not_panic() {
    let w = 64;
    let h = 64;
    let truncated = noise(w, h / 2);
    let out = bgra_to_i420(&truncated, w, h, w * 4);
    assert_eq!(out.len(), w * h + 2 * (w / 2) * (h / 2));
}

#[test]
fn known_colours_convert_correctly() {
    let white = vec![255u8; 4 * 4 * 4];
    let out = bgra_to_i420(&white, 4, 4, 16);
    assert_eq!(out[0], 235, "white luma should be 235 (studio swing)");
    let black = vec![0u8; 4 * 4 * 4];
    let out = bgra_to_i420(&black, 4, 4, 16);
    assert_eq!(out[0], 16, "black luma should be 16 (studio swing)");
}

#[test]
fn short_rows_come_out_black_and_chroma_neutral_only_where_present() {
    let white = vec![255u8; 4 * 2 * 4];
    let out = bgra_to_i420(&white, 4, 4, 16);
    assert_eq!(&out[..8], &[235; 8]);
    assert_eq!(&out[8..16], &[0; 8]);
    // U and V of pure white are 128; the second chroma row has no source row.
    assert_eq!(&out[16..18], &[128, 128]);
    assert_eq!(&out[18..20], &[0, 0]);
}

fn frame(w: usize, h: usize, v: u8) -> Vec<u8> {
    vec![v; w * h * 4]
}

#[test]
fn identical_frames_go_idle_after_hysteresis() {
    let mut m = MotionDetector::new(320, 240);
    let f = frame(320, 240, 40);
    m.is_idle(&f);
    for _ in 0..IDLE_STREAK_REQUIRED {
        m.is_idle(&f);
    }
    assert!(m.is_idle(&f));
}

#[test]
fn one_static_frame_does_not_throttle() {
    let mut m = MotionDetector::new(320, 240);
    let f = frame(320, 240, 40);
    m.is_idle(&f);
    assert!(!m.is_idle(&f), "must not throttle on the first static frame");
}

#[test]
fn small_moving_region_counts_as_active() {
    let mut m = MotionDetector::new(320, 240);
    let mut f = frame(320, 240, 40);
    m.is_idle(&f);
    for y in 60..140 {
        for x in 60..200 {
            let i = (y * 320 + x) * 4;
            f[i] = 200;
            f[i + 1] = 200;
            f[i + 2] = 200;
        }
    }
    assert!(!m.is_idle(&f), "visible motion must not read as idle");
}

#[test]
fn changed_tiles_counts_each_moved_tile_once() {
    let mut m = MotionDetector::new(64, 64);
    let mut f = frame(64, 64, 0);
    // The first frame only seeds the samples: idle-safe zero.
    assert_eq!(m.changed_tiles(&f), (0, 1));
    assert_eq!(m.changed_tiles(&f), (0, 4));
    for i in 0..(16 * 64 * 4) {
        f[i] = 255;
    }
    assert_eq!(m.changed_tiles(&f), (2, 4));
    assert_eq!(m.changed_tiles(&f[..100]), (1, 1));
}

#[test]
fn resize_forgets_the_streak() {
    let mut m = MotionDetector::new(64, 64);
    let f = frame(64, 64, 9);
    for _ in 0..10 {
        m.is_idle(&f);
    }
    assert!(m.is_idle(&f));
    m.resize(64, 64);
    assert!(!m.is_idle(&f));
}

const EXAMPLE: &str = "[Interface]\nAddress = 10.66.0.2/24\nPrivateKey = PLAYER_PRIVATE_KEY\n\n[Peer]\nPublicKey = HOST_PUBLIC_KEY\nEndpoint = HOST_PUBLIC_IP:51820\nAllowedIPs = 10.66.0.0/24\nPersistentKeepalive = 25\n";

#[test]
fn rewrites_ipv4_endpoint_under_peer() {
    let out = rewrite_wg_endpoint(EXAMPLE, "203.0.113.7:58783");
    assert!(out.contains("Endpoint = 203.0.113.7:58783"));
    assert!(!out.contains("HOST_PUBLIC_IP"));
    assert!(out.contains("PublicKey = HOST_PUBLIC_KEY"));
    assert!(out.contains("PersistentKeepalive = 25"));
}

#[test]
fn rewrites_ipv6_endpoint_bracketed() {
    let out = rewrite_wg_endpoint(EXAMPLE, "[2001:db8::7]:51820");
    assert!(out.contains("Endpoint = [2001:db8::7]:51820"));
}

#[test]
fn a_config_with_no_endpoint_line_is_left_untouched() {
    let conf = "[Interface]\nAddress = 10.66.0.2/24\n\n[Peer]\nPublicKey = X\n";
    assert_eq!(rewrite_wg_endpoint(conf, "203.0.113.7:58783"), conf);
}

#[test]
fn only_the_peer_sections_endpoint_line_is_touched() {
    let conf = "[Interface]\n# Endpoint = should-not-touch\nAddress = 10.66.0.2/24\n\n[Peer]\nEndpoint = OLD:1\n";
    let out = rewrite_wg_endpoint(conf, "203.0.113.7:58783");
    assert!(out.contains("# Endpoint = should-not-touch"));
    assert!(out.contains("Endpoint = 203.0.113.7:58783"));
    assert!(!out.contains("OLD:1"));
}

#[test]
fn extracts_port_from_the_static_endpoint_line() {
    assert_eq!(endpoint_port_from_conf(EXAMPLE), Some(51820));
}

#[test]
fn extracts_port_from_a_bracketed_ipv6_endpoint() {
    let conf = "[Peer]\nEndpoint = [2603::1]:51821\n";
    assert_eq!(endpoint_port_from_conf(conf), Some(51821));
}

#[test]
fn missing_endpoint_line_yields_none() {
    let conf = "[Interface]\nAddress = 10.66.0.2/24\n\n[Peer]\nPublicKey = X\n";
    assert_eq!(endpoint_port_from_conf(conf), None);
}

#[test]
fn endpoint_port_edge_cases() {
    assert_eq!(endpoint_port_from_conf("[peer]\nEndpoint = h:+70\n"), Some(70));
    assert_eq!(endpoint_port_from_conf("[Peer]\nEndpoint = h:70000\n"), None);
    assert_eq!(endpoint_port_from_conf("[Peer]\nEndpoint h:7\n"), None);
    assert_eq!(endpoint_port_from_conf("[Interface]\nEndpoint = h:7\n"), None);
}

#[test]
fn discovery_result_feeds_the_rewrite() {
    assert_eq!(discover_and_rewrite(EXAMPLE, None), None);
    let out = discover_and_rewrite(EXAMPLE, Some("198.51.100.2:40000")).unwrap();
    assert!(out.contains("Endpoint = 198.51.100.2:40000"));
}

#[test]
fn blend_draws_visible_pixels() {
    let fw = 64;
    let fh = 64;
    let mut frame = vec![0u8; fw * fh * 4];
    let cursor = vec![0xffff_ffffu32; 8 * 8];
    blend_premultiplied_argb(&mut frame, fw, fh, &cursor, 8, 8, 10, 12);
    let idx = (12 * fw + 10) * 4;
    assert!(frame[idx] > 200 && frame[idx + 1] > 200 && frame[idx + 2] > 200);
}

#[test]
fn blend_stays_within_latency_budget() {
    let fw = 1920;
    let fh = 1080;
    let mut frame = vec![40u8; fw * fh * 4];
    let cursor = vec![0xffff_ffffu32; 64 * 64];
    blend_premultiplied_argb(&mut frame, fw, fh, &cursor, 64, 64, 100, 100);
    const N: usize = 50;
    let mut total = Duration::ZERO;
    for i in 0..N {
        let t0 = Instant::now();
        blend_premultiplied_argb(&mut frame, fw, fh, &cursor, 64, 64, 100 + (i as i32 % 50), 100);
        total += t0.elapsed();
    }
    let avg = total / N as u32;
    let budget = Duration::from_micros(300);
    assert!(avg <= budget, "cursor blend avg {avg:?} exceeds budget {budget:?} — disable overlay rather than add latency");
}

#[test]
fn blend_clips_at_the_frame_edge_and_skips_transparent_pixels() {
    let mut frame = vec![100u8; 4 * 4 * 4];
    let mut cursor = vec![0x8000_0000u32; 2 * 2];
    cursor[3] = 0;
    blend_premultiplied_argb(&mut frame, 4, 4, &cursor, 2, 2, 3, 3);
    let idx = (3 * 4 + 3) * 4;
    assert_eq!(&frame[idx..idx + 4], &[49u8, 49, 49, 255]);
    assert_eq!(&frame[..idx], &vec![100u8; idx][..]);
    let mut frame2 = vec![100u8; 4 * 4 * 4];
    blend_premultiplied_argb(&mut frame2, 4, 4, &cursor, 2, 2, -1, -1);
    assert_eq!(&frame2[..], &vec![100u8; 64][..]);
}

#[test]
fn scale_picks_nearest_source_pixels() {
    let src: Vec<u8> = (0..(2 * 2 * 4)).map(|i| i as u8).collect();
    let out = scale_bgra(&src, 2, 2, 4, 4);
    assert_eq!(out.len(), 64);
    assert_eq!(&out[0..4], &src[0..4]);
    assert_eq!(&out[8..12], &src[4..8]);
    assert_eq!(&out[(3 * 4 + 3) * 4..], &src[12..16]);
    assert_eq!(scale_bgra(&src, 0, 2, 3, 3), vec![0u8; 36]);
}

use couchlink::host::cursor::{primary_origin_from, MonitorGeom};

#[test]
fn pointer_origin_follows_the_primary_monitor_of_the_capture_size() {
    let left = MonitorGeom { x: 0, y: 0, width: 1920, height: 1080, primary: false };
    let right = MonitorGeom { x: 1920, y: 0, width: 1920, height: 1080, primary: true };
    let small = MonitorGeom { x: 3840, y: 0, width: 1280, height: 720, primary: false };
    assert_eq!(primary_origin_from(Some((5120, 1080)), 1920, 1080, Some(vec![left, right, small])), (1920, 0));
    assert_eq!(primary_origin_from(Some((5120, 1080)), 1280, 720, Some(vec![left, right, small])), (3840, 0));
    assert_eq!(primary_origin_from(Some((1920, 1080)), 1920, 1080, Some(vec![right])), (0, 0));
    assert_eq!(primary_origin_from(None, 1920, 1080, Some(vec![right])), (0, 0));
    assert_eq!(primary_origin_from(Some((5120, 1080)), 800, 600, Some(vec![left, right])), (0, 0));
    assert_eq!(primary_origin_from(Some((5120, 1080)), 1920, 1080, None), (0, 0));
}

use couchlink::host::invite::{player_invite_url, HeadscaleInvite, TurnInfo};

#[test]
fn invite_includes_mesh_tailscale() {
    let u = player_invite_url("http://100.64.0.1:8443", "abc", "123456", "ws://100.64.0.1:8443/ws", None, Some("tailscale"), None, None);
    assert!(u.contains("mesh=tailscale"));
    assert!(u.contains("s=abc"));
    assert!(!u.contains("turn="));
}

#[test]
fn wireguard_conf_rides_in_the_link_and_survives_encoding() {
    let conf = "[Interface]\nAddress = 10.66.0.2/24\n\n[Peer]\nEndpoint = [2603::1]:51820\n";
    let u = player_invite_url("http://h:8443", "abc", "123456", "ws://h:8443/ws", None, Some("wireguard"), None, Some(conf));
    let parsed = url::Url::parse(&u).unwrap();
    let got = parsed.query_pairs().find(|(k, _)| k == "wg").map(|(_, v)| v.into_owned()).expect("wg param present");
    assert_eq!(got, conf);
}

#[test]
fn blank_wireguard_conf_is_omitted_rather_than_sent_empty() {
    let u = player_invite_url("http://h:8443", "abc", "123456", "ws://h:8443/ws", None, None, None, Some("   "));
    assert!(!u.contains("wg="));
}

#[test]
fn invite_includes_headscale_hs_and_tskey() {
    let u = player_invite_url(
        "http://100.64.0.2:8443",
        "abc",
        "123456",
        "ws://100.64.0.2:8443/ws",
        None,
        Some("headscale"),
        Some(HeadscaleInvite { server_url: "https://hs.example.com", auth_key: "hskey-auth-test" }),
        None,
    );
    assert!(u.contains("mesh=headscale"));
    assert!(u.contains("hs=https%3A%2F%2Fhs.example.com") || u.contains("hs=https://hs.example.com"));
    assert!(u.contains("tskey=hskey-auth-test"));
}

#[test]
fn invite_url_is_the_exact_encoded_query() {
    let u = player_invite_url(
        "http://h:8443///",
        "a b",
        "1",
        "ws://h/ws",
        Some(TurnInfo { url: "turn:t", user: "u", pass: "p&q" }),
        Some(""),
        None,
        None,
    );
    assert_eq!(u, "http://h:8443/?s=a+b&p=1&auto=1&ws=ws%3A%2F%2Fh%2Fws&turn=turn%3At&turnu=u&turnp=p%26q");
    let fallback = player_invite_url("not a url", "x", "y", "z", None, None, None, None);
    assert_eq!(fallback, "http://127.0.0.1:8443/?s=x&p=y&auto=1&ws=z");
    let empty = player_invite_url("", "x", "y", "z", None, None, None, None);
    assert_eq!(empty, fallback);
}

use couchlink::host::capture::windows_host_ip_from;
use couchlink::host::encode::{annex_b_from_nals, encoder_bitrate_bps, frame_fits};

#[test]
fn windows_host_ip_prefers_the_default_gateway() {
    let routes = "Iface\tDestination\tGateway\neth0\t000011AC\t00000000\nbad\nx\t00000000\tZZZZ\neth0\t00000000\t01D012AC\n";
    let resolv = "nameserver 10.255.255.254\nnameserver 172.18.208.1\n";
    assert_eq!(windows_host_ip_from(Some(routes), resolv), Some("172.18.208.1".to_string()));
    assert_eq!(windows_host_ip_from(None, "# wsl\n  nameserver   10.0.0.7  \n"), Some("10.0.0.7".to_string()));
    assert_eq!(windows_host_ip_from(Some("Iface\n"), "nameserver 10.255.255.254\nnameserver \n"), None);
}

#[test]
fn annex_b_adds_start_codes_only_where_missing() {
    let nals = vec![vec![0x67, 1], vec![0, 0, 0, 1, 0x68], vec![0, 0, 1, 0x65, 9]];
    assert_eq!(annex_b_from_nals(&nals), vec![0, 0, 0, 1, 0x67, 1, 0, 0, 0, 1, 0x68, 0, 0, 1, 0x65, 9]);
    assert!(annex_b_from_nals(&Vec::new()).is_empty());
}

#[test]
fn encoder_bitrate_has_a_one_megabit_floor() {
    assert_eq!(encoder_bitrate_bps(5_000), 5_000_000);
    assert_eq!(encoder_bitrate_bps(500), 1_000_000);
    assert_eq!(encoder_bitrate_bps(u32::MAX), u32::MAX);
    assert!(frame_fits(1280 * 4 * 720, 1280, 720));
    assert!(!frame_fits(1280 * 4 * 720 - 1, 1280, 720));
}

use couchlink::host::emulator_keymap::parse_keymap;

#[test]
fn parse_keymap_extracts_controls() {
    let m = parse_keymap(r#"{"cross":"Space","triangle":"KeyE"}"#).unwrap();
    let get = |k: &str| m.iter().find(|(c, _)| c == k).map(|(_, v)| v.as_str());
    assert_eq!(get("cross"), Some("Space"));
    assert_eq!(get("triangle"), Some("KeyE"));
    assert!(parse_keymap("not json").is_none());
    assert!(parse_keymap(r#"{"cross":42}"#).is_none());
    let empty = parse_keymap(r#"{"a":"b"}"#).unwrap();
    assert_eq!(empty.len(), 1);
}

use couchlink::host::emulator_keymap::{pcsx2_edit, rpcs3_edit, ConfigEdit};

fn keymap(pairs: &[(&str, &str)]) -> Vec<(String, String)> {
    pairs.iter().map(|(a, b)| (a.to_string(), b.to_string())).collect()
}

#[test]
fn pcsx2_block_is_replaced_and_crlf_kept() {
    let km = keymap(&[("cross", "Space"), ("nonsense", "KeyW")]);
    let text = "[UI]\r\nTheme = dark\r\n[Pad2]\r\nType = DualShock2\r\nCross = SDL-0/A\r\n[Pad3]\r\nType = None\r\n";
    match pcsx2_edit(text, &km, 2) {
        ConfigEdit::Write(out) => {
            assert!(out.contains("[UI]\r\nTheme = dark\r\n[Pad3]\r\nType = None\r\n[Pad2]\r\nType = DualShock2\r\n"));
            assert!(!out.contains("[[Pad2]]"));
            assert!(out.contains("Cross = Keyboard/Key_Space\r\n"));
            assert!(!out.contains("SDL-0/A"));
        }
        other => panic!("expected a write, got {other:?}"),
    }
    assert!(matches!(pcsx2_edit(text, &keymap(&[("nonsense", "KeyW")]), 2), ConfigEdit::NothingToBind));
    let bound = "[Pad2]\nCross = Keyboard/Key_Space\n";
    assert!(matches!(pcsx2_edit(bound, &km, 2), ConfigEdit::AlreadyBound));
}

#[test]
fn rpcs3_player_block_is_switched_to_the_keyboard() {
    let km = keymap(&[("cross", "Space")]);
    let text = "Player 2 Input:\n  Handler: Evdev\n  Cross: Button 0\nPlayer 3 Input:\n  Handler: Null\n";
    match rpcs3_edit(text, &km, 2) {
        ConfigEdit::Write(out) => {
            assert_eq!(
                out,
                "Player 2 Input:\n  Handler: Keyboard\n  Device: \"\"\n  Cross: Space\nPlayer 3 Input:\n  Handler: Null\n"
            );
        }
        other => panic!("expected a write, got {other:?}"),
    }
    assert!(matches!(rpcs3_edit("Player 1 Input:\n", &km, 2), ConfigEdit::NoPlayerBlock));
    assert!(matches!(rpcs3_edit(text, &keymap(&[]), 2), ConfigEdit::NothingToBind));
    let bound = "Player 2 Input:\n  Handler: Keyboard\n";
    assert!(matches!(rpcs3_edit(bound, &km, 2), ConfigEdit::AlreadyBound));
}

#[test]
fn unknown_capture_ipc_error_names_the_lowered_trimmed_value() {
    assert_eq!(
        parse_capture_ipc("nope"),
        Err("unknown capture ipc \"nope\" \u{2014} expected shm|hyperv|tcp".to_string())
    );
    assert_eq!(
        parse_capture_ipc("  X "),
        Err("unknown capture ipc \"x\" \u{2014} expected shm|hyperv|tcp".to_string())
    );
}

use couchlink::host::capture::Captured;
use couchlink::host::capture_link::{connect_attempt_due, CaptureLink, FrameFormat, FrameMeta};

fn meta(format: FrameFormat, width: u32, height: u32, keyframe: bool) -> FrameMeta {
    FrameMeta { format, width, height, keyframe }
}

#[test]
fn raw_frames_are_reserved_until_the_shape_changes() {
    let mut link = CaptureLink::new(true, 0);
    assert!(link.stale_frame().is_none());
    link.note_frame(meta(FrameFormat::Bgra, 2, 1, false));
    assert_eq!((link.width(), link.height()), (2, 1));
    match link.deliver(vec![1, 2, 3, 4, 5, 6, 7, 8], 10) {
        Captured::Bgra(f) => assert_eq!(f, vec![1, 2, 3, 4, 5, 6, 7, 8]),
        Captured::H264 { .. } => panic!("raw frame relayed as encoded"),
    }
    match link.stale_frame() {
        Some(Captured::Bgra(f)) => assert_eq!(f, vec![1, 2, 3, 4, 5, 6, 7, 8]),
        _ => panic!("raw frame not kept"),
    }
    // Same shape: the kept frame survives the next header.
    link.note_frame(meta(FrameFormat::Bgra, 2, 1, false));
    assert!(link.stale_frame().is_some());
    // Resized window: the kept frame would be misread at the new size.
    link.note_frame(meta(FrameFormat::Bgra, 3, 1, false));
    assert!(link.stale_frame().is_none());
    assert_eq!(link.take_received(), 3);
    assert_eq!(link.take_received(), 0);
}

#[test]
fn encoded_frames_are_relayed_in_order_and_never_reserved() {
    let mut link = CaptureLink::new(true, 0);
    link.note_frame(meta(FrameFormat::H264, 1280, 720, true));
    assert!(!link.skips_to_newest());
    assert!(link.encoder_is_remote());
    match link.deliver(vec![0, 0, 0, 1, 0x65], 5) {
        Captured::H264 { nal, keyframe } => {
            assert_eq!(nal, vec![0, 0, 0, 1, 0x65]);
            assert!(keyframe);
        }
        Captured::Bgra(_) => panic!("encoded frame delivered as pixels"),
    }
    assert!(link.stale_frame().is_none());
    assert_eq!(link.format(), FrameFormat::H264);
}

#[test]
fn a_silent_capturer_is_hung_after_four_seconds() {
    let mut link = CaptureLink::new(true, 1_000);
    assert!(!link.hung(4_999));
    assert!(link.hung(5_000));
    link.note_hung(5_000);
    assert!(!link.is_connected());
    // An earlier instant counts as no time elapsed.
    assert!(!link.hung(0));
}

#[test]
fn respawn_waits_for_first_attach_outage_and_retry_floor() {
    // Never attached: the user may still be in the window picker.
    let mut link = CaptureLink::new(false, 0);
    assert!(!link.respawn_due(60_000));
    link.note_connected();
    link.note_outage_over(60_000);
    assert!(!link.respawn_due(70_000));
    link.note_lost(70_000);
    assert!(!link.respawn_due(74_999));
    assert!(link.respawn_due(75_000));
    assert!(!link.respawn_due(94_999));
    assert!(link.respawn_due(95_000));
    // A hang during an outage keeps the outage's start.
    let mut hung = CaptureLink::new(true, 0);
    hung.note_lost(100);
    hung.note_hung(4_000);
    assert!(hung.respawn_due(5_100));
}

#[test]
fn hyperv_connect_attempts_are_throttled() {
    assert!(connect_attempt_due(None, 0));
    assert!(!connect_attempt_due(Some(1_000), 1_499));
    assert!(connect_attempt_due(Some(1_000), 1_500));
}

#[test]
fn mixed_keymap_keeps_its_string_entries() {
    let m = parse_keymap(r#"{"cross":"Space","x":42}"#).unwrap();
    assert_eq!(m, vec![("cross".to_string(), "Space".to_string())]);
    assert!(parse_keymap(r#"{"cross":42,"y":null}"#).is_none());
}

#[test]
fn a_static_screen_is_idle_from_the_sixth_frame_on() {
    let mut m = MotionDetector::new(320, 240);
    let f = frame(320, 240, 40);
    for k in 1..=10u32 {
        assert_eq!(m.is_idle(&f), k >= IDLE_STREAK_REQUIRED, "frame {k}");
    }
    m.resize(320, 240);
    assert_eq!(m.changed_tiles(&f), (0, 1));
}

use couchlink::host::capture_link::{is_timeout_kind, IoKind};
use std::io::ErrorKind;

/// A read error's kind as the capture bridges see it.
fn timeout_of(e: &std::io::Error) -> bool {
    is_timeout_kind(match e.kind() {
        ErrorKind::WouldBlock => IoKind::WouldBlock,
        ErrorKind::TimedOut => IoKind::TimedOut,
        _ => IoKind::Other,
    })
}

#[test]
fn both_timeout_kinds_are_recoverable() {
    assert!(timeout_of(&std::io::Error::from(ErrorKind::WouldBlock)));
    assert!(timeout_of(&std::io::Error::from(ErrorKind::TimedOut)));
    assert!(timeout_of(&std::io::Error::from_raw_os_error(11)));
}

#[test]
fn real_failures_are_not_mistaken_for_timeouts() {
    assert!(!timeout_of(&std::io::Error::from(ErrorKind::ConnectionReset)));
    assert!(!timeout_of(&std::io::Error::from(ErrorKind::UnexpectedEof)));
    assert!(!timeout_of(&std::io::Error::from(ErrorKind::BrokenPipe)));
}

use couchlink::host::frame_loop::{
    capture_looks_black, frame_step, idle_dur_ms, note_push, relay_frame_gap_ns, relay_idr, relay_queue_full,
    request_idr, FrameLoop, FrameStep,
};

fn keyframe_of(step: FrameStep) -> Option<bool> {
    match step {
        FrameStep::Skip => None,
        FrameStep::Encode { keyframe, .. } => Some(keyframe),
    }
}

#[test]
fn static_frames_are_skipped_between_refreshes() {
    let d = idle_dur_ms(8);
    assert_eq!(d, 125);
    assert_eq!(idle_dur_ms(0), 1000);
    let s = FrameLoop::start(0);
    // The first frame is always encoded, and checked for a black capture.
    let (s, step) = frame_step(s, true, 10, d);
    assert_eq!(step, FrameStep::Encode { keyframe: false, check_black: true });
    let (s, _) = note_push(s, true, 0, 10);
    let (s, step) = frame_step(s, true, 50, d);
    assert_eq!(step, FrameStep::Skip);
    assert_eq!(s.idle_frames, 1);
    // The static-screen refresh is due 125 ms after the last encode.
    let (_, step) = frame_step(s, true, 135, d);
    assert_eq!(step, FrameStep::Encode { keyframe: false, check_black: false });
    // Motion is never skipped.
    let (_, step) = frame_step(s, false, 50, d);
    assert_eq!(keyframe_of(step), Some(false));
}

#[test]
fn forced_idr_is_a_burst_of_three_then_every_two_seconds() {
    let d = idle_dur_ms(8);
    let (s, _) = note_push(FrameLoop::start(0), true, 0, 0);
    let mut s = request_idr(s);
    let mut keys = Vec::new();
    for t in [10u64, 20, 30, 40] {
        let (n, step) = frame_step(s, true, t, d);
        keys.push(keyframe_of(step));
        s = n;
    }
    assert_eq!(keys, vec![Some(true), Some(true), Some(true), None]);
    let (s2, step) = frame_step(s, false, 2029, d);
    assert_eq!(keyframe_of(step), Some(false));
    let (_, step) = frame_step(s2, false, 2030, d);
    assert_eq!(keyframe_of(step), Some(true));
}

#[test]
fn relay_pacing_and_keyframe_requests() {
    assert!(!relay_queue_full(7));
    assert!(relay_queue_full(8));
    assert_eq!(relay_frame_gap_ns(0, 1), 1_000_000);
    assert_eq!(relay_frame_gap_ns(40_000_000, 4), 10_000_000);
    assert_eq!(relay_frame_gap_ns(2_000_000_000, 0), 500_000_000);
    let s = FrameLoop::start(0);
    let (s, asked) = relay_idr(request_idr(s), 100);
    assert!(asked && !s.force_idr && s.idr_burst == 0 && s.last_idr_ms == 0);
    let (s, asked) = relay_idr(s, 1_999);
    assert!(!asked);
    let (s, asked) = relay_idr(s, 2_000);
    assert!(asked && s.last_idr_ms == 2_000);
    assert!(capture_looks_black(7));
    assert!(!capture_looks_black(8));
}

#[test]
fn five_second_window_feeds_the_governor() {
    let mut s = FrameLoop::start(0);
    for t in 0..9u64 {
        let (n, w) = note_push(s, true, 1, t * 500);
        assert_eq!(w, None);
        s = n;
    }
    let (n, w) = note_push(s, false, 2, 4_900);
    assert_eq!(w, None);
    let (n, w) = note_push(n, true, 0, 5_000);
    assert_eq!(w, Some((11, 10)));
    assert_eq!((n.window_frames, n.dropped_frames, n.window_start_ms, n.frames_out), (0, 0, 5_000, 10));
}
