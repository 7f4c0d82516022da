use couchlink::pad::parse::{parse_input_report, INPUT_USB};
use couchlink::pad::parse_ds4::{parse_ds4_input_report, DS4_USB};
use couchlink::pad::parse_steam::{parse_steam_input_report, STEAM_REPORT_ID};
use couchlink::pad::parse_switch::{parse_switch_input_report, SWITCH_REPORT_ID};
use couchlink::pad::parse_xbox::{parse_xbox_input_report, XBOX_GUIDE_REPORT_ID, XBOX_REPORT_ID};
use couchlink::proto::buttons;

#[test]
fn parse_neutral_usb() {
    let mut raw = vec![0u8; 64];
    raw[0] = INPUT_USB;
    raw[1] = 128;
    raw[2] = 128;
    raw[3] = 128;
    raw[4] = 128;
    let f = parse_input_report(&raw).unwrap();
    assert_eq!(f.lx, 128);
    assert_eq!(f.ly, 128);
}

#[test]
fn dualsense_short_report_is_rejected() {
    assert!(parse_input_report(&[INPUT_USB, 128, 128]).is_none());
    assert!(parse_input_report(&[]).is_none());
}

#[test]
fn ds4_usb_cross() {
    let mut raw = [0u8; 32];
    raw[0] = DS4_USB;
    raw[5] = 0x20;
    let f = parse_ds4_input_report(&raw).unwrap();
    assert!(f.buttons & buttons::CROSS != 0);
}

fn unified_report() -> Vec<u8> {
    let mut raw = vec![0u8; 17];
    raw[0] = XBOX_REPORT_ID;
    for pair in [1usize, 3, 5, 7] {
        raw[pair..pair + 2].copy_from_slice(&0x8000u16.to_le_bytes());
    }
    raw
}

fn legacy_report() -> Vec<u8> {
    let mut raw = vec![0u8; 16];
    raw[0] = XBOX_REPORT_ID;
    for pair in [1usize, 3, 5, 7] {
        raw[pair..pair + 2].copy_from_slice(&0x8000u16.to_le_bytes());
    }
    raw
}

#[test]
fn parse_xbox_parse_neutral() {
    let f = parse_xbox_input_report(&unified_report()).unwrap();
    assert_eq!(f.lx, 128);
    assert_eq!(f.ly, 128);
    assert_eq!(f.rx, 128);
    assert_eq!(f.ry, 128);
    assert_eq!(f.buttons, 0);
}

#[test]
fn sticks_are_u16_centered_on_0x8000() {
    let mut raw = unified_report();
    raw[1..3].copy_from_slice(&0xFFFFu16.to_le_bytes());
    raw[5..7].copy_from_slice(&0u16.to_le_bytes());
    let f = parse_xbox_input_report(&raw).unwrap();
    assert_eq!(f.lx, 255);
    assert_eq!(f.rx, 0);
}

#[test]
fn detects_a_button() {
    let mut raw = unified_report();
    raw[14] = 0x01;
    let f = parse_xbox_input_report(&raw).unwrap();
    assert!(f.buttons & buttons::CROSS != 0);
}

#[test]
fn maps_system_buttons_on_unified_layout() {
    let mut raw = unified_report();
    raw[14] = 0x40;
    let f = parse_xbox_input_report(&raw).unwrap();
    assert!(f.buttons & buttons::CREATE != 0);

    let mut raw = unified_report();
    raw[14] = 0x80;
    let f = parse_xbox_input_report(&raw).unwrap();
    assert!(f.buttons & buttons::OPTIONS != 0);

    let mut raw = unified_report();
    raw[15] = 0x10;
    let f = parse_xbox_input_report(&raw).unwrap();
    assert!(f.buttons & buttons::PS != 0);

    let mut raw = unified_report();
    raw[15] = 0x20;
    let f = parse_xbox_input_report(&raw).unwrap();
    assert!(f.buttons & buttons::L3 != 0);

    let mut raw = unified_report();
    raw[15] = 0x40;
    let f = parse_xbox_input_report(&raw).unwrap();
    assert!(f.buttons & buttons::R3 != 0);

    let mut raw = unified_report();
    raw[16] = 0x01;
    let f = parse_xbox_input_report(&raw).unwrap();
    assert!(f.buttons & buttons::CREATE != 0);
}

#[test]
fn legacy_packet_maps_stick_clicks() {
    let mut raw = legacy_report();
    raw[15] = 0x01;
    let f = parse_xbox_input_report(&raw).unwrap();
    assert!(f.buttons & buttons::L3 != 0);

    let mut raw = legacy_report();
    raw[15] = 0x02;
    let f = parse_xbox_input_report(&raw).unwrap();
    assert!(f.buttons & buttons::R3 != 0);
}

#[test]
fn detects_dpad_up() {
    let mut raw = unified_report();
    raw[13] = 1;
    let f = parse_xbox_input_report(&raw).unwrap();
    assert!(f.buttons & buttons::DPAD_UP != 0);
}

#[test]
fn hat_zero_is_released() {
    let f = parse_xbox_input_report(&unified_report()).unwrap();
    assert_eq!(f.buttons & buttons::DPAD_UP, 0);
}

#[test]
fn guide_packet_sets_ps_button() {
    let raw = [XBOX_GUIDE_REPORT_ID, 0x01];
    let f = parse_xbox_input_report(&raw).unwrap();
    assert!(f.buttons & buttons::PS != 0);
    assert_eq!(f.lx, 128);

    let raw = [XBOX_GUIDE_REPORT_ID, 0x00];
    let f = parse_xbox_input_report(&raw).unwrap();
    assert_eq!(f.buttons, 0);
}

#[test]
fn parse_xbox_rejects_wrong_report_id() {
    let mut raw = unified_report();
    raw[0] = 0x20;
    assert!(parse_xbox_input_report(&raw).is_none());
}

#[test]
fn parse_xbox_full_trigger_pull_sets_digital_bit() {
    let mut raw = unified_report();
    raw[9..11].copy_from_slice(&1023u16.to_le_bytes());
    let f = parse_xbox_input_report(&raw).unwrap();
    assert_eq!(f.l2, 255);
    assert!(f.buttons & buttons::L2 != 0);
}

fn pack_stick(x: u16, y: u16) -> [u8; 3] {
    [x as u8, ((x >> 8) as u8 & 0x0F) | ((y & 0x0F) as u8) << 4, (y >> 4) as u8]
}

fn switch_neutral_report() -> Vec<u8> {
    let mut raw = vec![0u8; 49];
    raw[0] = SWITCH_REPORT_ID;
    let left = pack_stick(0x0800, 0x0800);
    let right = pack_stick(0x0800, 0x0800);
    raw[6..9].copy_from_slice(&left);
    raw[9..12].copy_from_slice(&right);
    raw
}

#[test]
fn parse_switch_parse_neutral() {
    let f = parse_switch_input_report(&switch_neutral_report()).unwrap();
    assert_eq!(f.lx, 128);
    assert_eq!(f.ly, 128);
    assert_eq!(f.rx, 128);
    assert_eq!(f.ry, 128);
    assert_eq!(f.buttons, 0);
}

#[test]
fn parse_switch_face_buttons_map_by_position() {
    let mut raw = switch_neutral_report();
    raw[3] = 0x08;
    let f = parse_switch_input_report(&raw).unwrap();
    assert!(f.buttons & buttons::CROSS != 0);

    let mut raw = switch_neutral_report();
    raw[3] = 0x02;
    let f = parse_switch_input_report(&raw).unwrap();
    assert!(f.buttons & buttons::SQUARE != 0);

    let mut raw = switch_neutral_report();
    raw[3] = 0x04;
    let f = parse_switch_input_report(&raw).unwrap();
    assert!(f.buttons & buttons::CIRCLE != 0);

    let mut raw = switch_neutral_report();
    raw[3] = 0x01;
    let f = parse_switch_input_report(&raw).unwrap();
    assert!(f.buttons & buttons::TRIANGLE != 0);
}

#[test]
fn shoulders_and_center_buttons() {
    let mut raw = switch_neutral_report();
    raw[3] = 0xC0;
    let f = parse_switch_input_report(&raw).unwrap();
    assert!(f.buttons & buttons::R1 != 0);
    assert!(f.buttons & buttons::R2 != 0);

    let mut raw = switch_neutral_report();
    raw[5] = 0xC0;
    let f = parse_switch_input_report(&raw).unwrap();
    assert!(f.buttons & buttons::L1 != 0);
    assert!(f.buttons & buttons::L2 != 0);

    let mut raw = switch_neutral_report();
    raw[4] = 0x0F;
    let f = parse_switch_input_report(&raw).unwrap();
    assert!(f.buttons & buttons::CREATE != 0);
    assert!(f.buttons & buttons::OPTIONS != 0);
    assert!(f.buttons & buttons::R3 != 0);
    assert!(f.buttons & buttons::L3 != 0);
}

#[test]
fn dpad_and_home() {
    let mut raw = switch_neutral_report();
    raw[5] = 0x0F;
    let f = parse_switch_input_report(&raw).unwrap();
    assert!(f.buttons & buttons::DPAD_DOWN != 0);
    assert!(f.buttons & buttons::DPAD_UP != 0);
    assert!(f.buttons & buttons::DPAD_RIGHT != 0);
    assert!(f.buttons & buttons::DPAD_LEFT != 0);

    let mut raw = switch_neutral_report();
    raw[4] = 0x10;
    let f = parse_switch_input_report(&raw).unwrap();
    assert!(f.buttons & buttons::PS != 0);
}

#[test]
fn parse_switch_rejects_wrong_report_id() {
    let mut raw = switch_neutral_report();
    raw[0] = 0x21;
    assert!(parse_switch_input_report(&raw).is_none());
}

#[test]
fn stick_values_round_trip() {
    let mut raw = switch_neutral_report();
    let left = pack_stick(0x000, 0x000);
    let right = pack_stick(0xFFF, 0xFFF);
    raw[6..9].copy_from_slice(&left);
    raw[9..12].copy_from_slice(&right);
    let f = parse_switch_input_report(&raw).unwrap();
    assert_eq!(f.lx, 0);
    assert_eq!(f.ly, 0);
    assert_eq!(f.rx, 255);
    assert_eq!(f.ry, 255);
}

fn steam_neutral_report() -> Vec<u8> {
    let mut raw = vec![0u8; 64];
    raw[0] = STEAM_REPORT_ID;
    raw[16..18].copy_from_slice(&0i16.to_le_bytes());
    raw[18..20].copy_from_slice(&0i16.to_le_bytes());
    raw[20..22].copy_from_slice(&0i16.to_le_bytes());
    raw[22..24].copy_from_slice(&0i16.to_le_bytes());
    raw
}

#[test]
fn parse_steam_parse_neutral() {
    let f = parse_steam_input_report(&steam_neutral_report()).unwrap();
    assert_eq!(f.lx, 128);
    assert_eq!(f.ly, 128);
    assert_eq!(f.rx, 128);
    assert_eq!(f.ry, 128);
    assert_eq!(f.l2, 0);
    assert_eq!(f.r2, 0);
    assert_eq!(f.buttons, 0);
}

#[test]
fn parse_steam_face_buttons_map_by_position() {
    for (bit, expected) in [(0x80, buttons::CROSS), (0x20, buttons::CIRCLE), (0x40, buttons::SQUARE), (0x10, buttons::TRIANGLE)] {
        let mut raw = steam_neutral_report();
        raw[8] = bit;
        let f = parse_steam_input_report(&raw).unwrap();
        assert_ne!(f.buttons & expected, 0, "bit {bit:#04x} → {expected:#x}");
    }
}

#[test]
fn shoulders_triggers_and_menu() {
    let mut raw = steam_neutral_report();
    raw[8] = 0x0F;
    let f = parse_steam_input_report(&raw).unwrap();
    assert!(f.buttons & buttons::R1 != 0);
    assert!(f.buttons & buttons::L1 != 0);
    assert!(f.buttons & buttons::R2 != 0);
    assert!(f.buttons & buttons::L2 != 0);

    let mut raw = steam_neutral_report();
    raw[9] = 0x70;
    let f = parse_steam_input_report(&raw).unwrap();
    assert!(f.buttons & buttons::CREATE != 0);
    assert!(f.buttons & buttons::PS != 0);
    assert!(f.buttons & buttons::OPTIONS != 0);
}

#[test]
fn pad_clicks_and_dpad() {
    let mut raw = steam_neutral_report();
    raw[10] = 0x44;
    let f = parse_steam_input_report(&raw).unwrap();
    assert!(f.buttons & buttons::R3 != 0);
    assert!(f.buttons & buttons::L3 != 0);

    let mut raw = steam_neutral_report();
    raw[9] = 0x0F;
    let f = parse_steam_input_report(&raw).unwrap();
    assert!(f.buttons & buttons::DPAD_UP != 0);
    assert!(f.buttons & buttons::DPAD_RIGHT != 0);
    assert!(f.buttons & buttons::DPAD_LEFT != 0);
    assert!(f.buttons & buttons::DPAD_DOWN != 0);
}

#[test]
fn parse_steam_full_trigger_pull_sets_digital_bit() {
    let mut raw = steam_neutral_report();
    raw[12] = 0xFF;
    let f = parse_steam_input_report(&raw).unwrap();
    assert_eq!(f.r2, 255);
    assert!(f.buttons & buttons::R2 != 0);
}

#[test]
fn parse_steam_rejects_wrong_report_id() {
    let mut raw = steam_neutral_report();
    raw[0] = 0x05;
    assert!(parse_steam_input_report(&raw).is_none());
}
