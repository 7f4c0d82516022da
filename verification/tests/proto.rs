use couchlink::proto::buttons;
use couchlink::proto::pad_frame::{PadCodecError, PadFrame, PAD_FRAME_LEN, PAD_FRAME_LEN_V2, PAD_MAGIC, PAD_VERSION};
use couchlink::proto::signal::StreamPreset;
use couchlink::proto::stun::{
    binding_request, is_symmetric_nat, parse_binding_response, StunAddr, TxId, ATTR_XOR_MAPPED_ADDRESS,
    BINDING_REQUEST, BINDING_SUCCESS, HEADER_LEN, MAGIC_COOKIE,
};
use couchlink::proto::video_frame::{
    annex_b_is_keyframe, FragmentAssembler, VideoAccessUnit, VideoCodecError, VideoFragment, FLAG_KEYFRAME,
    VIDEO_HEADER_LEN, VIDEO_MAGIC, VIDEO_MAX_FRAGMENT_PAYLOAD, VIDEO_VERSION_V2,
};

#[test]
fn pad_frame_roundtrip() {
    let mut f = PadFrame::neutral();
    f.seq = 42;
    f.buttons = buttons::CROSS | buttons::R1;
    f.l2 = 200;
    let mut buf = Vec::new();
    f.encode(&mut buf);
    let back = PadFrame::decode(&buf).unwrap();
    assert_eq!(back, f);
}

#[test]
fn preset_parse() {
    assert_eq!(StreamPreset::parse("1080p60").unwrap().fps, 60);
    assert_eq!(StreamPreset::parse("720p30").unwrap().width, 1280);
}

#[test]
fn preset_parse_rejects_unknown_names() {
    assert!(StreamPreset::parse("4k120").is_none());
    assert!(StreamPreset::parse("").is_none());
    let p = StreamPreset::parse("720p60").unwrap();
    assert_eq!((p.width, p.height, p.fps), (1280, 720, 60));
}

#[test]
fn v1_31_byte_frame_decodes_with_zero_client_ts() {
    let mut legacy: Vec<u8> = Vec::new();
    legacy.extend_from_slice(&PAD_MAGIC);
    legacy.push(PAD_VERSION);
    let f = PadFrame { seq: 7, buttons: buttons::CROSS, ..PadFrame::neutral() };
    legacy.extend_from_slice(&f.seq.to_le_bytes());
    legacy.extend_from_slice(&f.buttons.to_le_bytes());
    legacy.push(f.lx);
    legacy.push(f.ly);
    legacy.push(f.rx);
    legacy.push(f.ry);
    legacy.push(f.l2);
    legacy.push(f.r2);
    legacy.extend_from_slice(&f.gx.to_le_bytes());
    legacy.extend_from_slice(&f.gy.to_le_bytes());
    legacy.extend_from_slice(&f.gz.to_le_bytes());
    legacy.push(f.touch_active);
    legacy.extend_from_slice(&f.touch_x.to_le_bytes());
    legacy.extend_from_slice(&f.touch_y.to_le_bytes());
    legacy.push(0);
    assert_eq!(legacy.len(), PAD_FRAME_LEN);
    let back = PadFrame::decode(&legacy).unwrap();
    assert_eq!(back.seq, 7);
    assert_eq!(back.client_ts_ms, 0);
}

#[test]
fn v2_round_trips_client_ts_ms() {
    let f = PadFrame { seq: 9, client_ts_ms: 1_234_567, ..PadFrame::neutral() };
    let mut buf = Vec::new();
    f.encode(&mut buf);
    assert_eq!(buf.len(), PAD_FRAME_LEN_V2);
    let back = PadFrame::decode(&buf).unwrap();
    assert_eq!(back.client_ts_ms, 1_234_567);
    assert_eq!(back.seq, 9);
}

#[test]
fn pad_decode_errors_name_the_fault() {
    assert_eq!(PadFrame::decode(&[0x43, 0x4C]), Err(PadCodecError::Short));
    let mut buf = Vec::new();
    PadFrame::neutral().encode(&mut buf);
    let mut bad_magic = buf.clone();
    bad_magic[0] = b'X';
    assert_eq!(PadFrame::decode(&bad_magic), Err(PadCodecError::BadMagic));
    let mut bad_version = buf.clone();
    bad_version[4] = 9;
    assert_eq!(PadFrame::decode(&bad_version), Err(PadCodecError::BadVersion(9)));
}

fn tx() -> TxId {
    [1, 2, 3, 4, 5, 6, 7, 8, 9, 10, 11, 12]
}

#[test]
fn binding_request_is_a_well_formed_header() {
    let req = binding_request(&tx());
    assert_eq!(req.len(), HEADER_LEN);
    assert_eq!(u16::from_be_bytes([req[0], req[1]]), BINDING_REQUEST);
    assert_eq!(u16::from_be_bytes([req[2], req[3]]), 0, "no attributes");
    assert_eq!(u32::from_be_bytes([req[4], req[5], req[6], req[7]]), MAGIC_COOKIE);
    assert_eq!(&req[8..20], &tx());
}

/// A success response carrying one XOR-MAPPED-ADDRESS for IPv4.
fn xor_v4_response(tx: &TxId, ip: [u8; 4], port: u16) -> Vec<u8> {
    let cookie = MAGIC_COOKIE.to_be_bytes();
    let mut value = vec![0u8, 0x01];
    value.extend_from_slice(&(port ^ (MAGIC_COOKIE >> 16) as u16).to_be_bytes());
    for (i, o) in ip.iter().enumerate() {
        value.push(o ^ cookie[i]);
    }
    let mut out = Vec::new();
    out.extend_from_slice(&BINDING_SUCCESS.to_be_bytes());
    out.extend_from_slice(&((4 + value.len()) as u16).to_be_bytes());
    out.extend_from_slice(&cookie);
    out.extend_from_slice(tx);
    out.extend_from_slice(&ATTR_XOR_MAPPED_ADDRESS.to_be_bytes());
    out.extend_from_slice(&(value.len() as u16).to_be_bytes());
    out.extend_from_slice(&value);
    out
}

#[test]
fn decodes_xor_mapped_ipv4() {
    let buf = xor_v4_response(&tx(), [203, 0, 113, 7], 51820);
    let got = parse_binding_response(&tx(), &buf).expect("parsed");
    assert_eq!(got, StunAddr::V4 { ip: [203, 0, 113, 7], port: 51820 });
}

#[test]
fn rejects_a_response_for_someone_elses_transaction() {
    let buf = xor_v4_response(&tx(), [203, 0, 113, 7], 51820);
    let other = [9u8; 12];
    assert!(parse_binding_response(&other, &buf).is_none());
}

#[test]
fn rejects_a_bad_magic_cookie() {
    let mut buf = xor_v4_response(&tx(), [203, 0, 113, 7], 51820);
    buf[4] ^= 0xFF;
    assert!(parse_binding_response(&tx(), &buf).is_none());
}

#[test]
fn rejects_truncated_messages() {
    let buf = xor_v4_response(&tx(), [203, 0, 113, 7], 51820);
    for cut in [0usize, 4, 19, 21] {
        assert!(parse_binding_response(&tx(), &buf[..cut.min(buf.len())]).is_none());
    }
}

#[test]
fn rejects_an_attribute_length_past_the_end() {
    let mut buf = xor_v4_response(&tx(), [203, 0, 113, 7], 51820);
    let n = buf.len();
    buf[n - 10] = 0xFF;
    assert!(parse_binding_response(&tx(), &buf).is_none());
}

#[test]
fn decodes_xor_mapped_ipv6() {
    let tx = tx();
    // 2001:db8::1
    let ip: [u8; 16] = [0x20, 0x01, 0x0d, 0xb8, 0, 0, 0, 0, 0, 0, 0, 0, 0, 0, 0, 1];
    let port = 51820u16;
    let mut key = [0u8; 16];
    key[..4].copy_from_slice(&MAGIC_COOKIE.to_be_bytes());
    key[4..].copy_from_slice(&tx);
    let mut enc = ip;
    for (o, k) in enc.iter_mut().zip(key.iter()) {
        *o ^= k;
    }
    let mut value = vec![0u8, 0x02];
    value.extend_from_slice(&(port ^ (MAGIC_COOKIE >> 16) as u16).to_be_bytes());
    value.extend_from_slice(&enc);

    let mut buf = Vec::new();
    buf.extend_from_slice(&BINDING_SUCCESS.to_be_bytes());
    buf.extend_from_slice(&((4 + value.len()) as u16).to_be_bytes());
    buf.extend_from_slice(&MAGIC_COOKIE.to_be_bytes());
    buf.extend_from_slice(&tx);
    buf.extend_from_slice(&ATTR_XOR_MAPPED_ADDRESS.to_be_bytes());
    buf.extend_from_slice(&(value.len() as u16).to_be_bytes());
    buf.extend_from_slice(&value);

    let got = parse_binding_response(&tx, &buf).expect("parsed");
    assert_eq!(got, StunAddr::V6 { ip, port });
}

#[test]
fn symmetric_nat_is_detected_by_a_differing_mapping() {
    let a = StunAddr::V4 { ip: [203, 0, 113, 7], port: 51820 };
    let same = StunAddr::V4 { ip: [203, 0, 113, 7], port: 51820 };
    let diff_port = StunAddr::V4 { ip: [203, 0, 113, 7], port: 51999 };
    assert!(!is_symmetric_nat(a, same));
    assert!(is_symmetric_nat(a, diff_port));
}

#[test]
fn roundtrip_single_fragment() {
    let au = VideoAccessUnit {
        seq: 7,
        width: 1280,
        height: 720,
        keyframe: true,
        annex_b: vec![0, 0, 0, 1, 0x65, 1, 2, 3],
        stamp_us: 0,
    };
    let frags = au.encode_fragments();
    assert_eq!(frags.len(), 1);
    let frag = VideoFragment::decode(&frags[0]).unwrap();
    assert_eq!(frag.frag_count, 1);
    let mut assembler = FragmentAssembler::new();
    let back = assembler.push(frag).unwrap();
    assert_eq!(back, au);
}

#[test]
fn roundtrip_multi_fragment_out_of_order() {
    let annex_b: Vec<u8> = (0..30_000).map(|i| (i % 251) as u8).collect();
    let au = VideoAccessUnit { seq: 9, width: 1920, height: 1080, keyframe: true, annex_b: annex_b.clone(), stamp_us: 0 };
    let frags = au.encode_fragments();
    assert!(frags.len() > 1);
    let mut decoded: Vec<_> = frags.iter().map(|b| VideoFragment::decode(b).unwrap()).collect();
    decoded.reverse();
    let mut assembler = FragmentAssembler::new();
    let mut out = None;
    for f in decoded {
        if let Some(au) = assembler.push(f) {
            out = Some(au);
        }
    }
    let back = out.expect("reassembled");
    assert_eq!(back.annex_b, annex_b);
    assert!(back.keyframe);
}

fn multi_frag_au(seq: u32) -> VideoAccessUnit {
    let annex_b: Vec<u8> = (0..30_000).map(|i| (i % 251) as u8).collect();
    VideoAccessUnit { seq, width: 1920, height: 1080, keyframe: true, annex_b, stamp_us: 0 }
}

#[test]
fn fec_roundtrip_with_no_loss_matches_plain_encode() {
    let au = multi_frag_au(1);
    let frags = au.encode_fragments_with_fec();
    assert!(frags.len() > au.encode_fragments().len(), "parity fragment must be appended");
    let mut assembler = FragmentAssembler::new();
    let mut out = None;
    for f in &frags {
        if let Some(a) = assembler.push(VideoFragment::decode(f).unwrap()) {
            out = Some(a);
        }
    }
    assert_eq!(out.unwrap(), au);
}

#[test]
fn fec_recovers_any_single_dropped_data_fragment() {
    let au = multi_frag_au(2);
    let frags = au.encode_fragments_with_fec();
    let decoded: Vec<VideoFragment> = frags.iter().map(|b| VideoFragment::decode(b).unwrap()).collect();
    let n_data = decoded.iter().filter(|f| f.frag_idx < f.frag_count).count();
    assert!(n_data > 1, "test needs a genuinely multi-fragment AU");
    for drop_idx in 0..n_data {
        let mut assembler = FragmentAssembler::new();
        let mut out = None;
        for f in &decoded {
            let is_data = (f.frag_idx as usize) < n_data;
            if is_data && f.frag_idx as usize == drop_idx {
                continue;
            }
            if let Some(a) = assembler.push(f.clone()) {
                out = Some(a);
            }
        }
        let recovered = out.unwrap_or_else(|| panic!("did not recover dropped frag {drop_idx}"));
        assert_eq!(recovered, au, "recovered AU mismatch dropping frag {drop_idx}");
    }
}

#[test]
fn fec_never_fabricates_output_when_two_fragments_are_lost() {
    let au = multi_frag_au(3);
    let frags = au.encode_fragments_with_fec();
    let decoded: Vec<VideoFragment> = frags.iter().map(|b| VideoFragment::decode(b).unwrap()).collect();
    let mut assembler = FragmentAssembler::new();
    let mut out = None;
    for f in &decoded {
        if f.frag_idx == 0 || f.frag_idx == 1 {
            continue;
        }
        if let Some(a) = assembler.push(f.clone()) {
            out = Some(a);
        }
    }
    assert!(out.is_none(), "must not complete — would be silently corrupt video");
}

#[test]
fn fec_skips_parity_for_a_single_fragment_access_unit() {
    let au = VideoAccessUnit { seq: 4, width: 100, height: 100, keyframe: false, annex_b: vec![1, 2, 3], stamp_us: 0 };
    assert_eq!(au.encode_fragments_with_fec().len(), 1);
}

#[test]
fn decode_accepts_parity_index_but_rejects_further_out_of_range() {
    let frag = VideoFragment {
        seq: 1,
        width: 1,
        height: 1,
        keyframe: false,
        frag_idx: 3,
        frag_count: 3,
        stamp_us: 0,
        payload: vec![0; 2 + VIDEO_MAX_FRAGMENT_PAYLOAD],
    };
    let mut buf = Vec::new();
    frag.encode(&mut buf);
    assert!(VideoFragment::decode(&buf).is_ok());
    let bad = VideoFragment { frag_idx: 4, ..frag };
    let mut buf = Vec::new();
    bad.encode(&mut buf);
    assert!(matches!(VideoFragment::decode(&buf), Err(VideoCodecError::BadFragment)));
}

#[test]
fn detects_idr() {
    assert!(annex_b_is_keyframe(&[0, 0, 0, 1, 0x65, 0]));
    assert!(!annex_b_is_keyframe(&[0, 0, 0, 1, 0x41, 0]));
}

#[test]
fn v2_fragment_still_decodes_without_a_stamp() {
    let mut buf: Vec<u8> = Vec::new();
    buf.extend_from_slice(&VIDEO_MAGIC);
    buf.push(VIDEO_VERSION_V2);
    buf.push(FLAG_KEYFRAME);
    buf.extend_from_slice(&1280u16.to_le_bytes());
    buf.extend_from_slice(&720u16.to_le_bytes());
    buf.extend_from_slice(&3u32.to_le_bytes());
    buf.extend_from_slice(&0u16.to_le_bytes());
    buf.extend_from_slice(&1u16.to_le_bytes());
    buf.extend_from_slice(&[9, 8, 7]);
    let frag = VideoFragment::decode(&buf).unwrap();
    assert_eq!(frag.stamp_us, 0);
    assert_eq!(frag.payload, vec![9, 8, 7]);
    let mut assembler = FragmentAssembler::new();
    let au = assembler.push(frag).unwrap();
    assert_eq!(au.stamp_us, 0);
    assert_eq!(au.annex_b, vec![9, 8, 7]);
}

#[test]
fn v3_round_trip_preserves_stamp_and_does_not_eat_payload() {
    let au = VideoAccessUnit {
        seq: 7,
        width: 1280,
        height: 720,
        keyframe: true,
        annex_b: vec![0, 0, 0, 1, 0x65],
        stamp_us: 1_234_567,
    };
    let frags = au.encode_fragments();
    assert_eq!(frags[0].len(), VIDEO_HEADER_LEN + au.annex_b.len());
    let back = {
        let mut assembler = FragmentAssembler::new();
        assembler.push(VideoFragment::decode(&frags[0]).unwrap()).unwrap()
    };
    assert_eq!(back.stamp_us, 1_234_567);
    assert_eq!(back.annex_b, au.annex_b);
}

#[test]
fn v3_header_is_26_bytes_and_fec_parity_still_recovers_one_loss() {
    let au = VideoAccessUnit {
        seq: 2,
        width: 1920,
        height: 1080,
        keyframe: true,
        annex_b: (0..30_000).map(|i| (i % 251) as u8).collect(),
        stamp_us: 99,
    };
    let frags = au.encode_fragments_with_fec();
    let decoded: Vec<VideoFragment> = frags.iter().map(|b| VideoFragment::decode(b).unwrap()).collect();
    assert!(decoded.iter().all(|f| f.stamp_us == 99));
    let n_data = decoded.iter().filter(|f| f.frag_idx < f.frag_count).count();
    let mut assembler = FragmentAssembler::new();
    let mut out = None;
    for f in &decoded {
        if f.frag_idx == 0 {
            continue;
        }
        if let Some(a) = assembler.push(f.clone()) {
            out = Some(a);
        }
    }
    let back = out.expect("FEC recover with stamp");
    assert_eq!(back.stamp_us, 99);
    assert_eq!(back.annex_b, au.annex_b);
    assert!(n_data > 1);
}
