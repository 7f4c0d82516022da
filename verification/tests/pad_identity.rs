use couchlink::pad::devices::{
    DUALSENSE_PRODUCT_NAME, DUALSHOCK4_PIDS, MICROSOFT_VID, NINTENDO_VID, PID_DUALSENSE, PID_DUALSENSE_EDGE,
    PID_XBOX_SERIES, SONY_VID, STEAM_KNOWN_PIDS, SWITCH_KNOWN_PIDS, SWITCH_PRODUCT_NAME, VALVE_VID,
    XBOX_KNOWN_PIDS,
};
use couchlink::pad::feedback::{build_usb_output_report, FLAG0_COMPATIBLE_VIBRATION, FLAG0_LEFT_TRIGGER, FLAG0_RIGHT_TRIGGER};
use couchlink::pad::map_frame::{pad_frame_to_dualsense_usb_report, stick_u8_to_i16};
use couchlink::pad::parse::parse_input_report;
use couchlink::pad::recognize::{
    classify, is_native_supported, is_supported_dualsense, is_supported_steam_controller, is_supported_switch,
    is_supported_xbox, parse_hid_id_line, product_label, xbox_variant, ControllerFamily, XBOX_VARIANTS,
};
use couchlink::pad::sim::{
    decode_clpd, dualsense_bt_neutral_report, dualsense_usb_neutral_report, dualsense_usb_press,
    dualsense_usb_with_sticks, encode_clpd, simulate_dualsense_frame, simulate_steam_frame, simulate_switch_frame,
    simulate_xbox_frame, steam_neutral_report, steam_press, switch_neutral_report, switch_press,
    xbox_neutral_report, xbox_press, xbox_with_sticks, SimButton, DUALSENSE_ONLY_BUTTONS, SHARED_BUTTONS,
};
use couchlink::pad::vhid_client::{drain_output_frames, likely_wsl_from, parse_default_gateway, vhid_tcp_hosts};
use couchlink::pad::vhid_proto::{decode_input, decode_output, encode_input, encode_output, take_output_frame, DS_USB_INPUT_LEN};
use couchlink::pad::virtual_pad::{linux_pad_plan, vhid_env_enabled, VirtualPadBackend, VirtualPadConfig};
use couchlink::proto::buttons;
use couchlink::proto::pad_frame::{PadFeedback, PadFrame, PAD_FRAME_LEN_V2};

#[test]
fn every_xbox_variant_is_recognized() {
    for v in XBOX_VARIANTS.iter() {
        assert!(is_supported_xbox(MICROSOFT_VID, v.pid()), "{} (PID {:04X}) must be recognized", v.label(), v.pid());
        assert_eq!(classify(MICROSOFT_VID, v.pid()), ControllerFamily::Xbox);
        assert_eq!(xbox_variant(v.pid()), Some(*v));
        assert!(product_label(MICROSOFT_VID, v.pid()).is_some());
    }
    assert_eq!(XBOX_VARIANTS.len(), XBOX_KNOWN_PIDS.len());
}

#[test]
fn dualsense_and_edge_are_recognized() {
    assert!(is_supported_dualsense(SONY_VID, PID_DUALSENSE));
    assert!(is_supported_dualsense(SONY_VID, PID_DUALSENSE_EDGE));
    assert_eq!(classify(SONY_VID, PID_DUALSENSE), ControllerFamily::DualSense);
    assert_eq!(classify(SONY_VID, PID_DUALSENSE_EDGE), ControllerFamily::DualSense);
}

#[test]
fn dualshock4_classified_but_not_native() {
    for &pid in DUALSHOCK4_PIDS.iter() {
        assert_eq!(classify(SONY_VID, pid), ControllerFamily::DualShock4);
        assert!(!is_native_supported(SONY_VID, pid));
        assert!(!is_supported_dualsense(SONY_VID, pid));
    }
}

#[test]
fn rejects_unknown_microsoft_and_sony_pids() {
    assert!(!is_supported_xbox(MICROSOFT_VID, 0x028E));
    assert!(!is_native_supported(SONY_VID, 0x0268));
    assert_eq!(classify(0x1234, 0x5678), ControllerFamily::Unknown);
}

#[test]
fn parses_sysfs_hid_id() {
    let (bus, vid, pid) = parse_hid_id_line("HID_ID=0003:0000045E:00000B12").unwrap();
    assert_eq!(bus, 0x0003);
    assert_eq!(vid, MICROSOFT_VID);
    assert_eq!(pid, PID_XBOX_SERIES);
    assert!(is_native_supported(vid, pid));
}

#[test]
fn hid_id_lines_that_are_not_ids_are_rejected() {
    assert_eq!(parse_hid_id_line("  HID_ID=0005:0000054C:00000CE6\n"), Some((5, 0x054C, 0x0CE6)));
    assert_eq!(parse_hid_id_line("HID_ID=0003:0000045E"), None);
    assert_eq!(parse_hid_id_line("HID_NAME=pad"), None);
    assert_eq!(parse_hid_id_line("HID_ID=0003:0001045E:00000B12"), None);
    assert_eq!(parse_hid_id_line("HID_ID=0003:0000045E:00000B12:extra"), Some((3, 0x045E, 0x0B12)));
}

#[test]
fn input_roundtrip() {
    let mut r = [0u8; DS_USB_INPUT_LEN];
    r[0] = 0x01;
    r[8] = 0x20;
    let enc = encode_input(&r);
    assert_eq!(decode_input(&enc).unwrap(), r);
}

#[test]
fn output_roundtrip_and_take() {
    let report = vec![0x02, 0xff, 0x01, 40, 120];
    let enc = encode_output(&report);
    assert_eq!(decode_output(&enc).unwrap(), report);
    let mut buf = enc;
    buf.extend_from_slice(&encode_output(&[9, 9]));
    assert_eq!(take_output_frame(&mut buf).unwrap(), report);
    assert_eq!(take_output_frame(&mut buf).unwrap(), vec![9, 9]);
    assert!(take_output_frame(&mut buf).is_none());
}

#[test]
fn drain_takes_every_whole_frame_and_keeps_the_partial_one() {
    let mut buf = encode_output(&[1, 2, 3]);
    buf.extend_from_slice(&encode_output(&[4]));
    let partial = encode_output(&[5, 6, 7, 8]);
    buf.extend_from_slice(&partial[..6]);
    let frames = drain_output_frames(&mut buf);
    assert_eq!(frames, vec![vec![1, 2, 3], vec![4]]);
    assert_eq!(buf, partial[..6].to_vec());
}

#[test]
fn rumble_sets_motors_and_flags() {
    let fb = PadFeedback::Rumble { large: 200, small: 40 };
    let r = build_usb_output_report(&fb);
    assert_eq!(r[0], 0x02);
    assert_eq!(r[1] & FLAG0_COMPATIBLE_VIBRATION, FLAG0_COMPATIBLE_VIBRATION);
    assert_eq!(r[3], 40);
    assert_eq!(r[4], 200);
}

#[test]
fn adaptive_triggers_land_at_known_offsets() {
    let fb = PadFeedback::AdaptiveTriggers {
        left_mode: 0x01,
        left_params: vec![0, 200],
        right_mode: 0x02,
        right_params: vec![10, 40, 180],
    };
    let r = build_usb_output_report(&fb);
    assert_eq!(r[11], 0x02);
    assert_eq!(&r[12..15], &[10, 40, 180]);
    assert_eq!(r[22], 0x01);
    assert_eq!(&r[23..25], &[0, 200]);
    assert_eq!(r[1] & FLAG0_LEFT_TRIGGER, FLAG0_LEFT_TRIGGER);
    assert_eq!(r[1] & FLAG0_RIGHT_TRIGGER, FLAG0_RIGHT_TRIGGER);
}

#[test]
fn raw_output_passthrough() {
    let mut report = vec![0u8; 20];
    report[0] = 0x02;
    report[1] = 0xFF;
    report[3] = 1;
    let fb = PadFeedback::RawOutput { report: report.clone() };
    let r = build_usb_output_report(&fb);
    assert_eq!(&r[..20], report.as_slice());
}

#[test]
fn dualsense_report_marks_cross() {
    let mut f = PadFrame::default();
    f.buttons = buttons::CROSS;
    f.lx = 128;
    f.ly = 128;
    let r = pad_frame_to_dualsense_usb_report(&f);
    assert_eq!(r[0], 0x01);
    assert!(r[8] & 0x20 != 0);
}

#[test]
fn stick_center_is_zero() {
    assert_eq!(stick_u8_to_i16(128), 0);
}

#[test]
fn dualsense_report_roundtrips_through_parser() {
    let mut f = PadFrame::neutral();
    f.buttons = buttons::CROSS | buttons::L1 | buttons::DPAD_UP;
    f.lx = 10;
    f.ly = 20;
    f.rx = 30;
    f.ry = 40;
    f.l2 = 50;
    f.r2 = 60;
    let report = pad_frame_to_dualsense_usb_report(&f);
    let back = parse_input_report(&report).unwrap();
    assert_eq!(back.buttons & buttons::CROSS, buttons::CROSS);
    assert_eq!(back.buttons & buttons::L1, buttons::L1);
    assert_eq!(back.buttons & buttons::DPAD_UP, buttons::DPAD_UP);
    assert_eq!(back.lx, 10);
    assert_eq!(back.ly, 20);
    assert_eq!(back.rx, 30);
    assert_eq!(back.ry, 40);
    assert_eq!(back.l2, 50);
    assert_eq!(back.r2, 60);
}

#[test]
fn xbox_tester_recognizes_every_supported_sku() {
    for v in XBOX_VARIANTS.iter() {
        let hid = format!("HID_ID=0003:0000{:04X}:0000{:04X}", MICROSOFT_VID, v.pid());
        let (bus, vid, pid) = parse_hid_id_line(&hid).unwrap();
        assert_eq!(bus, 0x0003);
        assert!(is_supported_xbox(vid, pid), "client must recognize {}", v.label());
        assert_eq!(classify(vid, pid), ControllerFamily::Xbox);
        assert_eq!(product_label(vid, pid), Some(v.label()));
    }
}

#[test]
fn dualsense_tester_recognizes_usb_and_edge() {
    for pid in [PID_DUALSENSE, PID_DUALSENSE_EDGE] {
        let hid = format!("HID_ID=0003:0000{:04X}:0000{:04X}", SONY_VID, pid);
        let (_, vid, p) = parse_hid_id_line(&hid).unwrap();
        assert!(is_supported_dualsense(vid, p));
        assert!(is_native_supported(vid, p));
        assert_eq!(classify(vid, p), ControllerFamily::DualSense);
    }
    let hid = format!("HID_ID=0005:0000{:04X}:0000{:04X}", SONY_VID, PID_DUALSENSE);
    let (bus, vid, pid) = parse_hid_id_line(&hid).unwrap();
    assert_eq!(bus, 0x0005);
    assert!(is_supported_dualsense(vid, pid));
}

#[test]
fn xbox_tester_neutral_and_full_button_matrix() {
    let n = simulate_xbox_frame(&xbox_neutral_report()).unwrap();
    assert_eq!(n.lx, 128);
    assert_eq!(n.ly, 128);
    assert_eq!(n.rx, 128);
    assert_eq!(n.ry, 128);
    assert_eq!(n.buttons, 0);
    for &btn in SHARED_BUTTONS.iter() {
        let f = simulate_xbox_frame(&xbox_press(btn)).unwrap();
        assert!(f.buttons & btn.pad_bit() != 0, "Xbox sim missing {:?}", btn);
    }
    for &btn in DUALSENSE_ONLY_BUTTONS.iter() {
        let f = simulate_xbox_frame(&xbox_press(btn)).unwrap();
        assert_eq!(f.buttons & btn.pad_bit(), 0);
    }
}

#[test]
fn xbox_tester_sticks_and_face_remap_a_to_cross() {
    let f = simulate_xbox_frame(&xbox_with_sticks(i16::MAX, 0, i16::MIN, 0)).unwrap();
    assert!(f.lx > 200, "max LX → high u8, got {}", f.lx);
    assert_eq!(f.ly, 128);
    assert!(f.rx < 60, "min RX → low u8, got {}", f.rx);
    let a = simulate_xbox_frame(&xbox_press(SimButton::Cross)).unwrap();
    assert_eq!(a.buttons & buttons::CROSS, buttons::CROSS);
    assert_eq!(a.buttons & buttons::CIRCLE, 0);
}

#[test]
fn each_xbox_sku_produces_identical_parsed_input() {
    let raw = xbox_press(SimButton::Cross);
    let expected = simulate_xbox_frame(&raw).unwrap();
    for v in XBOX_VARIANTS.iter() {
        assert!(is_supported_xbox(MICROSOFT_VID, v.pid()));
        let got = simulate_xbox_frame(&raw).unwrap();
        assert_eq!(got.buttons, expected.buttons, "{}", v.label());
        assert_eq!(got.lx, expected.lx);
    }
}

#[test]
fn switch_tester_recognizes_pro_and_joycons() {
    for &pid in SWITCH_KNOWN_PIDS.iter() {
        let hid = format!("HID_ID=0003:0000{:04X}:0000{:04X}", NINTENDO_VID, pid);
        let (_, vid, p) = parse_hid_id_line(&hid).unwrap();
        assert!(is_supported_switch(vid, p), "PID {pid:04X}");
        assert!(is_native_supported(vid, p));
        assert_eq!(classify(vid, p), ControllerFamily::Switch);
        assert!(product_label(vid, p).is_some());
    }
    assert_eq!(classify(NINTENDO_VID, SWITCH_KNOWN_PIDS[0]), ControllerFamily::Switch);
    assert_eq!(product_label(NINTENDO_VID, SWITCH_KNOWN_PIDS[0]), Some(SWITCH_PRODUCT_NAME));
}

#[test]
fn switch_tester_button_matrix_and_sticks() {
    let n = simulate_switch_frame(&switch_neutral_report()).unwrap();
    assert_eq!(n.lx, 128);
    assert_eq!(n.ly, 128);
    assert_eq!(n.rx, 128);
    assert_eq!(n.ry, 128);
    assert_eq!(n.buttons, 0);
    for &btn in SHARED_BUTTONS.iter() {
        let f = simulate_switch_frame(&switch_press(btn)).unwrap();
        assert!(f.buttons & btn.pad_bit() != 0, "Switch sim missing {:?}", btn);
    }
    for &btn in DUALSENSE_ONLY_BUTTONS.iter() {
        let f = simulate_switch_frame(&switch_press(btn)).unwrap();
        assert_eq!(f.buttons & btn.pad_bit(), 0);
    }
}

#[test]
fn switch_tester_face_remap_by_position() {
    let a = simulate_switch_frame(&switch_press(SimButton::Cross)).unwrap();
    assert_eq!(a.buttons & buttons::CROSS, buttons::CROSS);
    assert_eq!(a.buttons & buttons::CIRCLE, 0);
    let y = simulate_switch_frame(&switch_press(SimButton::Triangle)).unwrap();
    assert_eq!(y.buttons & buttons::TRIANGLE, buttons::TRIANGLE);
}

fn roundtrip_client_to_host(frame: PadFrame) -> PadFrame {
    let mut framed = frame;
    framed.seq = 42;
    let bytes = encode_clpd(&framed);
    decode_clpd(&bytes).expect("host must decode client CLPD")
}

#[test]
fn switch_input_survives_client_to_host_clpd() {
    let client = simulate_switch_frame(&switch_press(SimButton::Ps)).unwrap();
    let host = roundtrip_client_to_host(client);
    assert!(host.buttons & buttons::PS != 0);
}

#[test]
fn steam_tester_recognizes_wired_wireless_and_bt() {
    for &pid in STEAM_KNOWN_PIDS.iter() {
        let hid = format!("HID_ID=0003:0000{:04X}:0000{:04X}", VALVE_VID, pid);
        let (_, vid, p) = parse_hid_id_line(&hid).unwrap();
        assert!(is_supported_steam_controller(vid, p), "PID {pid:04X}");
        assert!(is_native_supported(vid, p));
        assert_eq!(classify(vid, p), ControllerFamily::SteamController);
        assert!(product_label(vid, p).is_some());
    }
}

#[test]
fn steam_tester_button_matrix() {
    let n = simulate_steam_frame(&steam_neutral_report()).unwrap();
    assert_eq!(n.lx, 128);
    assert_eq!(n.ly, 128);
    assert_eq!(n.rx, 128);
    assert_eq!(n.ry, 128);
    assert_eq!(n.buttons, 0);
    for &btn in SHARED_BUTTONS.iter() {
        let f = simulate_steam_frame(&steam_press(btn)).unwrap();
        assert!(f.buttons & btn.pad_bit() != 0, "Steam sim missing {:?}", btn);
    }
    for &btn in DUALSENSE_ONLY_BUTTONS.iter() {
        let f = simulate_steam_frame(&steam_press(btn)).unwrap();
        assert_eq!(f.buttons & btn.pad_bit(), 0);
    }
}

#[test]
fn steam_tester_face_remap_by_position() {
    let a = simulate_steam_frame(&steam_press(SimButton::Cross)).unwrap();
    assert_eq!(a.buttons & buttons::CROSS, buttons::CROSS);
    let b = simulate_steam_frame(&steam_press(SimButton::Circle)).unwrap();
    assert_eq!(b.buttons & buttons::CIRCLE, buttons::CIRCLE);
}

#[test]
fn steam_input_survives_client_to_host_clpd() {
    let client = simulate_steam_frame(&steam_press(SimButton::R3)).unwrap();
    let host = roundtrip_client_to_host(client);
    assert!(host.buttons & buttons::R3 != 0);
}

#[test]
fn dualsense_tester_usb_button_matrix() {
    let n = simulate_dualsense_frame(&dualsense_usb_neutral_report()).unwrap();
    assert_eq!(n.lx, 128);
    assert_eq!(n.buttons, 0);
    for &btn in SHARED_BUTTONS.iter().chain(DUALSENSE_ONLY_BUTTONS.iter()) {
        let f = simulate_dualsense_frame(&dualsense_usb_press(btn)).unwrap();
        assert!(f.buttons & btn.pad_bit() != 0, "DualSense USB sim missing {:?}", btn);
    }
}

#[test]
fn dualsense_tester_bluetooth_neutral_and_cross() {
    let n = simulate_dualsense_frame(&dualsense_bt_neutral_report()).unwrap();
    assert_eq!(n.lx, 128);
    assert_eq!(n.ly, 128);
    let mut raw = dualsense_bt_neutral_report();
    raw[9] = (raw[9] & 0xF0) | 0x08;
    raw[9] |= 0x20;
    let f = simulate_dualsense_frame(&raw).unwrap();
    assert!(f.buttons & buttons::CROSS != 0);
}

#[test]
fn dualsense_tester_sticks() {
    let f = simulate_dualsense_frame(&dualsense_usb_with_sticks(0, 255, 64, 192)).unwrap();
    assert_eq!(f.lx, 0);
    assert_eq!(f.ly, 255);
    assert_eq!(f.rx, 64);
    assert_eq!(f.ry, 192);
}

#[test]
fn xbox_input_survives_client_to_host_clpd() {
    let client = simulate_xbox_frame(&xbox_press(SimButton::Triangle)).unwrap();
    let host = roundtrip_client_to_host(client);
    assert_eq!(host.seq, 42);
    assert!(host.buttons & buttons::TRIANGLE != 0);
    assert_eq!(host.lx, 128);
}

#[test]
fn dualsense_input_survives_client_to_host_clpd() {
    let client = simulate_dualsense_frame(&dualsense_usb_press(SimButton::Square)).unwrap();
    let host = roundtrip_client_to_host(client);
    assert!(host.buttons & buttons::SQUARE != 0);
}

#[test]
fn host_virtual_pad_identity_is_bluetooth_dualsense() {
    let cfg = VirtualPadConfig::with_backend(VirtualPadBackend::from_name(""));
    assert_eq!(cfg.vendor, SONY_VID);
    assert_eq!(cfg.product, PID_DUALSENSE);
    assert_eq!(cfg.name, DUALSENSE_PRODUCT_NAME);
    assert!(cfg.as_bluetooth);
    assert!(!is_supported_xbox(cfg.vendor, cfg.product));
    assert!(is_supported_dualsense(cfg.vendor, cfg.product));
}

#[test]
fn clpd_encode_matches_proto_length() {
    let f = PadFrame::neutral();
    let mut buf = Vec::new();
    f.encode(&mut buf);
    assert_eq!(buf.len(), PAD_FRAME_LEN_V2);
    assert_eq!(encode_clpd(&f).len(), PAD_FRAME_LEN_V2);
}

#[test]
fn parses_wsl_default_gateway() {
    let routes = "Iface\tDestination\tGateway\n\
                  eth0\t00000000\t01D012AC\n\
                  docker0\t000011AC\t00000000\n";
    assert_eq!(parse_default_gateway(routes).as_deref(), Some("172.18.208.1"));
}

#[test]
fn skips_non_default_and_gatewayless_routes() {
    let routes = "Iface\tDestination\tGateway\n\
                  docker0\t000011AC\t00000000\n\
                  eth0\t00000000\t00000000\n";
    assert_eq!(parse_default_gateway(routes), None);
}

#[test]
fn env_override_wins_and_localhost_always_tried() {
    let hosts = vhid_tcp_hosts(Some("10.0.0.5"), None);
    assert_eq!(hosts.first().map(String::as_str), Some("10.0.0.5"));
    assert!(hosts.iter().any(|h| h == "127.0.0.1"));
}

#[test]
fn gateway_is_tried_last_and_only_once() {
    let hosts = vhid_tcp_hosts(Some("  "), Some("172.18.208.1".to_string()));
    assert_eq!(hosts, vec!["127.0.0.1".to_string(), "172.18.208.1".to_string()]);
    let hosts = vhid_tcp_hosts(None, Some("127.0.0.1".to_string()));
    assert_eq!(hosts, vec!["127.0.0.1".to_string()]);
}

#[test]
fn wsl_is_recognised_from_proc_version() {
    assert!(likely_wsl_from("Linux version 5.15.153.1-microsoft-standard-WSL2"));
    assert!(likely_wsl_from("Linux version 4.4.0-19041-Microsoft"));
    assert!(!likely_wsl_from("Linux version 6.8.0-generic"));
}

#[test]
fn backend_names_are_case_insensitive() {
    assert_eq!(VirtualPadBackend::from_name("DS5"), VirtualPadBackend::DualSense);
    assert_eq!(VirtualPadBackend::from_name("PS4"), VirtualPadBackend::Ds4);
    assert_eq!(VirtualPadBackend::from_name("x360"), VirtualPadBackend::Xbox360);
    assert_eq!(VirtualPadBackend::from_name("Off"), VirtualPadBackend::Noop);
    assert_eq!(VirtualPadBackend::from_name("anything"), VirtualPadBackend::Auto);
    assert!(vhid_env_enabled("TCP"));
    assert!(!vhid_env_enabled("0"));
}

#[test]
fn linux_plan_prefers_the_companion_under_wsl() {
    let p = linux_pad_plan(VirtualPadBackend::Auto, false, true, true);
    assert!(p.try_vhid && !p.vhid_required && p.try_uhid && !p.noop);
    let p = linux_pad_plan(VirtualPadBackend::DualSense, false, true, false);
    assert!(p.try_vhid && p.vhid_required && !p.try_uhid);
    let p = linux_pad_plan(VirtualPadBackend::Ds4, false, false, true);
    assert!(!p.try_vhid && !p.try_uhid);
    let p = linux_pad_plan(VirtualPadBackend::Noop, true, true, true);
    assert!(p.noop && !p.try_vhid);
}

use couchlink::pad::linux_uhid::{create2_event, destroy_event, handle_event, input2_event, UhidAction, UhidIdentity, CREATE2_RD_DATA_OFF};
use couchlink::pad::virtual_pad::{uinput_events, uinput_name, BTN_SOUTH, EV_ABS, EV_KEY, EV_SYN};

#[test]
fn create2_event_lays_out_the_kernel_struct() {
    assert_eq!(CREATE2_RD_DATA_OFF, 4 + 128 + 64 + 64 + 2 + 2 + 4 + 4 + 4 + 4);
    let id = UhidIdentity { name: "DualSense Wireless Controller", vendor: 0x054C, product: 0x0CE6, version: 0x0111, as_bluetooth: true };
    let rd = [0x05u8, 0x01, 0xC0];
    let ev = create2_event(&id, &rd);
    assert_eq!(ev.len(), CREATE2_RD_DATA_OFF + rd.len());
    assert_eq!(&ev[0..4], &11u32.to_le_bytes());
    assert_eq!(&ev[4..33], b"DualSense Wireless Controller");
    assert_eq!(ev[33], 0);
    assert_eq!(&ev[132..146], b"couchlink-uhid");
    assert_eq!(&ev[196..208], b"couchlink-p2");
    assert_eq!(&ev[260..262], &3u16.to_le_bytes());
    assert_eq!(&ev[262..264], &5u16.to_le_bytes());
    assert_eq!(&ev[264..268], &0x054Cu32.to_le_bytes());
    assert_eq!(&ev[268..272], &0x0CE6u32.to_le_bytes());
    assert_eq!(&ev[272..276], &0x0111u32.to_le_bytes());
    assert_eq!(&ev[CREATE2_RD_DATA_OFF..], &rd);
}

#[test]
fn uhid_events_are_answered_as_the_kernel_expects() {
    assert_eq!(handle_event(&[1, 2]), UhidAction::Ignore);
    let mut out = vec![0u8; 4 + 4096 + 2];
    out[0] = 6;
    out[4] = 0x02;
    out[5] = 0xAA;
    out[4100] = 2;
    assert_eq!(handle_event(&out), UhidAction::Output(vec![0x02, 0xAA]));
    out[4100] = 0;
    assert_eq!(handle_event(&out), UhidAction::Ignore);
    let get = [9u8, 0, 0, 0, 7, 0, 0, 0, 0x31, 0];
    match handle_event(&get) {
        UhidAction::Reply(r) => {
            assert_eq!(r.len(), 76);
            assert_eq!(&r[0..4], &10u32.to_le_bytes());
            assert_eq!(&r[4..8], &7u32.to_le_bytes());
            assert_eq!(&r[8..12], &[0, 0, 1, 0]);
            assert_eq!(r[12], 0x31);
        }
        other => panic!("expected a reply, got {other:?}"),
    }
    let set = [13u8, 0, 0, 0, 8, 0, 0, 0];
    assert_eq!(handle_event(&set), UhidAction::Reply(vec![14, 0, 0, 0, 8, 0, 0, 0, 0, 0]));
    assert_eq!(destroy_event(), vec![1, 0, 0, 0]);
    let ev = input2_event(&PadFrame::neutral());
    assert_eq!(ev.len(), 4 + 2 + 64);
    assert_eq!(&ev[0..6], &[12, 0, 0, 0, 64, 0]);
    assert_eq!(ev[6], 0x01);
}

#[test]
fn uinput_events_press_keys_and_end_with_a_sync() {
    let mut f = PadFrame::neutral();
    f.buttons = buttons::CROSS;
    f.l2 = 77;
    let ev = uinput_events(&f);
    assert_eq!(ev.len(), 24);
    assert_eq!(ev[1], (EV_KEY, BTN_SOUTH, 1));
    assert_eq!(ev[0].2, 0);
    assert_eq!(ev[21], (EV_ABS, 0x02, 77));
    assert_eq!(ev[23], (EV_SYN, 0, 0));
    let name = uinput_name("DualSense Wireless Controller");
    assert_eq!(&name[..29], b"DualSense Wireless Controller");
    assert!(name[29..].iter().all(|&b| b == 0));
    let long = "x".repeat(100);
    let name = uinput_name(&long);
    assert!(name[..79].iter().all(|&b| b == b'x'));
    assert_eq!(name[79], 0);
}

use couchlink::pad::virtual_pad::{windows_backend_order, WindowsPadKind};

#[test]
fn windows_auto_tries_companion_then_vigem() {
    assert_eq!(
        windows_backend_order(VirtualPadBackend::Auto),
        vec![WindowsPadKind::DualSenseVhid, WindowsPadKind::VigemDs4, WindowsPadKind::VigemXbox360]
    );
    assert_eq!(windows_backend_order(VirtualPadBackend::Ds4), vec![WindowsPadKind::VigemDs4]);
    assert!(windows_backend_order(VirtualPadBackend::Noop).is_empty());
}

#[test]
fn host_announces_bluetooth_dualsense_for_p2() {
    let cfg = VirtualPadConfig::with_backend(VirtualPadBackend::from_name(""));
    assert_eq!(cfg.vendor, SONY_VID);
    assert_eq!(cfg.product, PID_DUALSENSE);
    assert!(cfg.as_bluetooth);
    assert!(is_supported_dualsense(cfg.vendor, cfg.product));
}

use couchlink::host::webrtc_peer::{apply_pad_bytes, create_virtual_pad, PadApplyError};
use couchlink::pad::parse_switch::SWITCH_REPORT_ID;
use couchlink::pad::parse_steam::STEAM_REPORT_ID;
use couchlink::pad::parse_xbox::XBOX_REPORT_ID;
use couchlink::pad::virtual_pad::{PadDevice, VirtualPad};
use couchlink::proto::pad_frame::{PadCodecError, PadFeedback as Feedback};

/// A device that records the frames injected into it.
#[derive(Default)]
struct Recorder {
    frames: Vec<PadFrame>,
}

impl PadDevice for Recorder {
    fn apply(&mut self, frame: &PadFrame) -> Result<(), String> {
        self.frames.push(frame.clone());
        Ok(())
    }

    fn poll_feedback(&mut self) -> Result<Vec<Feedback>, String> {
        Ok(Vec::new())
    }
}

fn noop_pad() -> VirtualPad<Recorder> {
    VirtualPad::create_noop(VirtualPadConfig::with_backend(VirtualPadBackend::from_name("")))
}

#[test]
fn reject_bad_clpd_magic() {
    let mut pad = noop_pad();
    let err = apply_pad_bytes(&mut pad, &[0; 31]);
    assert!(err.is_err());
    assert!(matches!(err, Err(PadApplyError::Decode(PadCodecError::BadMagic))));
}

#[test]
fn host_applies_simulated_xbox_clpd_from_each_sku_path() {
    let mut pad = noop_pad();
    for v in XBOX_VARIANTS.iter() {
        let frame = simulate_xbox_frame(&xbox_press(SimButton::Cross)).unwrap();
        let bytes = encode_clpd(&frame);
        apply_pad_bytes(&mut pad, &bytes).unwrap();
        let decoded = PadFrame::decode(&bytes).unwrap();
        assert!(decoded.buttons & buttons::CROSS != 0, "{}", v.label());
    }
}

#[test]
fn host_applies_simulated_dualsense_and_ps_face_buttons() {
    let mut pad = noop_pad();
    for btn in [SimButton::Cross, SimButton::Circle, SimButton::Square, SimButton::Triangle, SimButton::Ps] {
        let frame = simulate_dualsense_frame(&dualsense_usb_press(btn)).unwrap();
        apply_pad_bytes(&mut pad, &encode_clpd(&frame)).unwrap();
    }
}

#[test]
fn host_noop_applies_simulated_xbox_and_dualsense_frames() {
    let mut pad = noop_pad();
    for raw in [
        xbox_press(SimButton::Cross),
        xbox_press(SimButton::L2),
        dualsense_usb_press(SimButton::Circle),
        dualsense_usb_press(SimButton::Ps),
    ] {
        let frame = if raw[0] == XBOX_REPORT_ID {
            simulate_xbox_frame(&raw).unwrap()
        } else {
            simulate_dualsense_frame(&raw).unwrap()
        };
        let bytes = encode_clpd(&frame);
        let decoded = PadFrame::decode(&bytes).unwrap();
        pad.apply(&decoded).expect("noop apply");
    }
}

#[test]
fn host_noop_applies_switch_and_steam_frames() {
    let mut pad = noop_pad();
    for raw in [
        switch_press(SimButton::Cross),
        switch_press(SimButton::L2),
        steam_press(SimButton::Circle),
        steam_press(SimButton::Options),
    ] {
        let frame = match raw[0] {
            SWITCH_REPORT_ID => simulate_switch_frame(&raw).unwrap(),
            STEAM_REPORT_ID => simulate_steam_frame(&raw).unwrap(),
            _ => unreachable!(),
        };
        let bytes = encode_clpd(&frame);
        let decoded = PadFrame::decode(&bytes).unwrap();
        pad.apply(&decoded).expect("noop apply");
    }
}

#[test]
fn live_pad_receives_the_decoded_frame_and_noop_reports_no_feedback() {
    let frame = simulate_dualsense_frame(&dualsense_usb_press(SimButton::Triangle)).unwrap();
    let mut pad = VirtualPad::live(Recorder::default());
    apply_pad_bytes(&mut pad, &encode_clpd(&frame)).unwrap();
    assert!(apply_pad_bytes(&mut pad, &[]).is_err());
    match &pad {
        VirtualPad::Live(r) => {
            assert_eq!(r.frames.len(), 1);
            assert_eq!(r.frames[0].buttons, frame.buttons);
        }
        VirtualPad::Noop => panic!("live pad became a no-op"),
    }
    let mut noop = noop_pad();
    assert_eq!(noop.poll_feedback().unwrap().len(), 0);
}

#[test]
fn an_unavailable_pad_backend_leaves_a_video_only_host() {
    let pad: VirtualPad<Recorder> = create_virtual_pad(Err("no /dev/uinput".to_string()));
    assert!(matches!(pad, VirtualPad::Noop));
    let pad = create_virtual_pad(Ok(Recorder::default()));
    assert!(matches!(pad, VirtualPad::Live(_)));
}
