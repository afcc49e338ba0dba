use kassigner::input::{AppState, Menu, WalletApp};
use kassigner::qrframe::{cycle_signed_qr_step, is_multiframe, signed_qr_frame, FrameAssembler};
use kassigner::qrpayload::{
    classify_qr_payload, decode_covenant_hex, normalize_scanned_address, parse_ciphertext_hex, parse_sign_hash,
    CiphertextError, QrPayloadKind,
};
use kassigner::qrscan::{
    apply_covenant_raw, apply_mnemonic_qr, apply_scanned_address, apply_sign_hash, camera_drag, check_immediate_tap, confirmed_route, scan_tap_passes, cosigner_added, grey_at, rqrr_decode, ConfirmedRoute, DecodeRoute,
    ImmediateTap, QrTracker, ScanResults, TouchPhase,
};
use kassigner::screens::{CameraTune, SignedQr, SubMenus, UiState};
use kassigner::settings_touch::Board;

fn ui(state: AppState) -> UiState {
    let mut app = WalletApp::new();
    app.state = state;
    UiState {
        app,
        menus: SubMenus {
            tools: Menu::from_items(&["a"]),
            seed_tools: Menu::from_items(&["a"]),
            import: Menu::from_items(&["a"]),
            export: Menu::from_items(&["a"]),
            single_sig: Menu::from_items(&["a"]),
            multisig: Menu::from_items(&["a"]),
            sd_import: Menu::from_items(&["a"]),
            settings: Menu::from_items(&["a"]),
        },
        qr: SignedQr { len: 0, nframes: 0, frame: 0, large: false, mode: 0, via_density: false, manual_frames: false },
        brightness: 100,
        volume: 100,
        cam: CameraTune { active: false, dirty: false, param: 0, vals: [0; 6] },
    }
}

#[test]
fn payloads_are_classified() {
    assert_eq!(classify_qr_payload(b"kaspa:qqq"), QrPayloadKind::KaspaAddress);
    assert_eq!(classify_qr_payload(b"KASPA:QQQ"), QrPayloadKind::KaspaAddress);
    assert_eq!(classify_qr_payload(b"KSPT\x01rest"), QrPayloadKind::Kspt);
    assert_eq!(classify_qr_payload(b"PSKB00"), QrPayloadKind::Pskt);
    assert_eq!(classify_qr_payload(&[b'7'; 48]), QrPayloadKind::SeedQr);
    assert_eq!(classify_qr_payload(&[b'7'; 47]), QrPayloadKind::Unknown);
    assert_eq!(classify_qr_payload(&[0xAB; 16]), QrPayloadKind::CompactSeedQr);
    let mut stlh = b"STLH".to_vec();
    stlh.extend_from_slice(&[1u8; 33]);
    assert_eq!(classify_qr_payload(&stlh), QrPayloadKind::StealthRequest);
    let mut ksfu = b"KSFU".to_vec();
    ksfu.extend_from_slice(&[0u8; 100]);
    assert_eq!(classify_qr_payload(&ksfu), QrPayloadKind::FirmwareUpdate);
    assert_eq!(classify_qr_payload(b"kpub2abc"), QrPayloadKind::Kpub);
    let mut raw_kpub = vec![0x01u8];
    raw_kpub.extend_from_slice(&[9u8; 78]);
    assert_eq!(classify_qr_payload(&raw_kpub), QrPayloadKind::Kpub);
    assert_eq!(classify_qr_payload(b"COVB1"), QrPayloadKind::CovenantRaw);
    assert_eq!(classify_qr_payload(b"434f5642aabb"), QrPayloadKind::CovenantHex);
    assert_eq!(classify_qr_payload(b"hello"), QrPayloadKind::Unknown);
}

#[test]
fn message_hash_from_raw_or_hex() {
    assert_eq!(parse_sign_hash(&[7u8; 32]), Some([7u8; 32]));
    let hex = "ab".repeat(32);
    assert_eq!(parse_sign_hash(hex.as_bytes()), Some([0xab; 32]));
    let bad = "zz".repeat(32);
    assert_eq!(parse_sign_hash(bad.as_bytes()), None);
    assert_eq!(parse_sign_hash(&[0u8; 33]), None);
}

#[test]
fn scanned_addresses_and_covenant_hex() {
    assert_eq!(normalize_scanned_address(b"KASPA:QZ9", 64), b"kaspa:qz9".to_vec());
    assert_eq!(normalize_scanned_address(b"KASPA:QZ9", 4), b"kasp".to_vec());
    assert_eq!(decode_covenant_hex(b"434f5642ff"), vec![0x43, 0x4f, 0x56, 0x42, 0xff]);
    assert_eq!(decode_covenant_hex(b"4"), Vec::<u8>::new());
}

#[test]
fn multiframe_fragments_are_recognised() {
    assert!(is_multiframe(b"\x00\x02\x05KSPT!", 8));
    assert!(is_multiframe(b"\x01\x02\x05abcd", 7));
    assert!(!is_multiframe(b"\x00\x02\x05abcd", 7));
    assert!(!is_multiframe(b"\x02\x02\x05abcd", 7));
    assert!(!is_multiframe(b"\x01\x29\x05abcd", 7));
    assert!(is_multiframe(b"\x00\x03\x04\x01abc", 7));
}

#[test]
fn frames_reassemble_in_any_order() {
    let mut a = FrameAssembler::new();
    assert_eq!(a.accept(b"\x01\x02\x03DEF", 6), Some((1, None)));
    assert_eq!(a.accept(b"\x01\x02\x03DEF", 6), None);
    assert_eq!(a.accept(b"\x00\x02\x05ab", 5), None);
    assert_eq!(a.accept(b"\x00\x02\x03ABC", 6), Some((2, Some(b"ABCDEF".to_vec()))));
    // a completed set starts over
    assert_eq!(a.accept(b"\x00\x02\x03ABC", 6), Some((1, None)));
    // a fragment of another set resets the collector
    assert_eq!(a.accept(b"\x00\x01\x02XY", 5), Some((1, Some(b"XY".to_vec()))));
}

#[test]
fn signed_frames_are_balanced_and_padded() {
    let buf: Vec<u8> = (1..=10).collect();
    let f0 = signed_qr_frame(&buf, 10, 0, 2).unwrap();
    let mut expected = vec![0u8, 2, 5, 1, 2, 3, 4, 5];
    expected.extend_from_slice(&[0u8; 15]);
    assert_eq!(f0, expected);
    let f1 = signed_qr_frame(&buf, 10, 1, 2).unwrap();
    assert_eq!(&f1[..8], &[1u8, 2, 5, 6, 7, 8, 9, 10]);
    assert_eq!(f1.len(), 23);
    assert_eq!(signed_qr_frame(&buf, 4, 2, 3), None);
    let long: Vec<u8> = vec![9u8; 60];
    assert_eq!(signed_qr_frame(&long, 60, 0, 2).unwrap().len(), 33);
}

#[test]
fn signed_qr_cycles_on_its_tick() {
    assert_eq!(cycle_signed_qr_step(true, 3, false, false, 400, 2), Some(0));
    assert_eq!(cycle_signed_qr_step(true, 3, false, false, 401, 2), None);
    assert_eq!(cycle_signed_qr_step(true, 3, false, true, 400, 2), None);
    assert_eq!(cycle_signed_qr_step(true, 3, false, true, 4000, 1), Some(2));
    assert_eq!(cycle_signed_qr_step(true, 3, true, false, 400, 1), None);
    assert_eq!(cycle_signed_qr_step(false, 3, false, false, 400, 1), None);
    assert_eq!(cycle_signed_qr_step(true, 1, false, false, 400, 0), None);
}

#[test]
fn greyscale_pixels_and_an_empty_frame() {
    let gray = [1u8, 2, 3, 4, 5, 6];
    assert_eq!(grey_at(&gray, 3, 2, 1), 6);
    assert_eq!(grey_at(&gray, 3, 0, 2), 0);
    assert_eq!(grey_at(&gray, usize::MAX, 2, 2), 0);
    let blank = vec![255u8; 64 * 64];
    assert!(rqrr_decode(&blank, 64, 64).is_empty());
}

#[test]
fn decoded_codes_are_routed() {
    let mut t = QrTracker::new();
    assert_eq!(t.route(3, b"hello", 5, Board::Waveshare, false, AppState::ScanQR), (true, DecodeRoute::Accept));
    assert_eq!((t.guide_ver, t.ver_same_cnt, t.cooldown, t.finders_beeped), (3, 1, 90, false));
    let frag = b"\x00\x02\x05KSPT!";
    assert_eq!(t.route(2, frag, 8, Board::Waveshare, false, AppState::ScanQR), (true, DecodeRoute::Fragment));
    assert_eq!(t.route(2, frag, 8, Board::Waveshare, false, AppState::ScanQR), (false, DecodeRoute::Fragment));
    assert_eq!(t.guide_ver, 2);
    assert_eq!(t.route(2, b"x", 1, Board::Waveshare, true, AppState::ScanQR), (false, DecodeRoute::Drop));
    assert_eq!(t.route(2, b"x", 1, Board::M5Stack, true, AppState::ScanQR), (false, DecodeRoute::Accept));
    assert_eq!(t.route(41, b"x", 1, Board::M5Stack, false, AppState::PassphraseEntry), (true, DecodeRoute::Drop));
    assert_eq!(t.guide_ver, 2);
}

#[test]
fn confirmed_codes_go_where_the_screen_expects() {
    assert_eq!(confirmed_route(true, AppState::ScanQR, b"KSPT"), ConfirmedRoute::SignHash);
    assert_eq!(confirmed_route(false, AppState::DecryptSecretScan, b"KSPT"), ConfirmedRoute::Ciphertext);
    assert_eq!(
        confirmed_route(false, AppState::ScanQR, b"KSPT"),
        ConfirmedRoute::Payload { kind: QrPayloadKind::Kspt }
    );
    assert_eq!(cosigner_added(&[false, true, true], 3), (1, AppState::MultisigAddKey { key_idx: 2 }));
    assert_eq!(cosigner_added(&[false, false, true], 3), (2, AppState::MultisigShowAddress));
    assert_eq!(cosigner_added(&[false, false], 2), (0, AppState::MultisigAddKey { key_idx: 1 }));
}

#[test]
fn back_button_leaves_scanning_at_once() {
    let down = Some((TouchPhase::PressDown, 10, 10));
    let mut s = ui(AppState::ScanQR);
    assert_eq!(check_immediate_tap(&mut s, false, down, None), ImmediateTap::Back);
    assert_eq!(s.app.state, AppState::MainMenu);
    let mut s = ui(AppState::ScanQR);
    assert_eq!(check_immediate_tap(&mut s, false, down, Some(&[false, true, true])), ImmediateTap::Back);
    assert_eq!(s.app.state, AppState::MultisigAddKey { key_idx: 1 });
    let mut s = ui(AppState::DecryptSecretScan);
    check_immediate_tap(&mut s, false, Some((TouchPhase::Contact, 40, 40)), None);
    assert_eq!(s.app.state, AppState::SingleSigMenu);
    let mut s = ui(AppState::ScanQR);
    assert_eq!(check_immediate_tap(&mut s, true, down, None), ImmediateTap::NotHandled);
    assert_eq!(check_immediate_tap(&mut s, false, Some((TouchPhase::Lift, 10, 10)), None), ImmediateTap::NotHandled);
    assert_eq!(check_immediate_tap(&mut s, false, None, None), ImmediateTap::NotHandled);
    assert_eq!(s.app.state, AppState::ScanQR);
}

#[test]
fn camera_tuning_taps_are_answered_at_once() {
    let mut s = ui(AppState::CameraSettings);
    s.cam.active = true;
    assert_eq!(
        check_immediate_tap(&mut s, false, Some((TouchPhase::PressDown, 270, 100)), None),
        ImmediateTap::ParamSelected
    );
    assert_eq!(s.cam.param, 3);
    assert_eq!(
        check_immediate_tap(&mut s, false, Some((TouchPhase::Contact, 210, 60)), None),
        ImmediateTap::NotHandled
    );
    assert_eq!(
        check_immediate_tap(&mut s, false, Some((TouchPhase::PressDown, 210, 37)), None),
        ImmediateTap::Absorbed
    );
    assert_eq!(
        check_immediate_tap(&mut s, false, Some((TouchPhase::PressDown, 100, 100)), None),
        ImmediateTap::NotHandled
    );
    assert_eq!(check_immediate_tap(&mut s, false, Some((TouchPhase::Contact, 250, 20)), None), ImmediateTap::Exit);
    assert_eq!(s.app.state, AppState::SettingsMenu);
    assert!(!s.cam.active);
    let mut s = ui(AppState::CameraSettings);
    s.cam.active = true;
    check_immediate_tap(&mut s, false, Some((TouchPhase::PressDown, 5, 5)), None);
    assert_eq!(s.app.state, AppState::SettingsMenu);
}

#[test]
fn dma_image_averages_blocks_and_turns() {
    let bpl = 480;
    let flat = vec![10u8; 480 * bpl];
    let img = kassigner::qrscan::dma_decode_image(&flat, bpl);
    assert_eq!(img.len(), 240 * 240);
    assert!(img.iter().all(|&p| p == 10));
    let mut data = vec![0u8; 480 * bpl];
    data[2 * bpl + 4] = 1;
    data[2 * bpl + 5] = 2;
    data[3 * bpl + 4] = 3;
    data[3 * bpl + 5] = 4;
    let img = kassigner::qrscan::dma_decode_image(&data, bpl);
    // Block at line 2, column 4 is pixel (dx 1, dy 2).
    assert_eq!(img[2 * 240 + 1], 3);
    assert_eq!(img[1 * 240 + 2], 0);
    // A short buffer reads as black.
    let img = kassigner::qrscan::dma_decode_image(&[], bpl);
    assert!(img.iter().all(|&p| p == 0));
}

#[test]
fn dvp_image_crops_the_centre() {
    let mut ws = vec![0u8; 640 * 120];
    ws[5 * 640 + 40 * 2] = 77;
    let (img, h) = kassigner::qrscan::dvp_decode_image(&ws, Board::Waveshare).unwrap();
    assert_eq!(h, 120);
    assert_eq!(img.len(), 240 * 120);
    assert_eq!(img[5 * 240], 77);
    let mut m5 = vec![0u8; 320 * 150];
    m5[149 * 320 + 40] = 9;
    let (img, h) = kassigner::qrscan::dvp_decode_image(&m5, Board::M5Stack).unwrap();
    assert_eq!(h, 150);
    assert_eq!(img[0], 9);
    assert!(kassigner::qrscan::dvp_decode_image(&vec![0u8; 320 * 99], Board::M5Stack).is_none());
    let big = vec![1u8; 320 * 300];
    assert_eq!(kassigner::qrscan::dvp_decode_image(&big, Board::M5Stack).unwrap().1, 240);
}

#[test]
fn decode_cadence_and_cooldown() {
    let mut t = QrTracker::new();
    t.cooldown = 2;
    assert!(!t.dma_frame(2, false));
    assert!(!t.dma_frame(3, false));
    assert_eq!(t.cooldown, 0);
    assert!(!t.dma_frame(5, false));
    assert!(t.dma_frame(6, false));
    assert!(!t.dma_frame(6, true));
    let mut u = QrTracker::new();
    u.cooldown = 1;
    assert!(!u.dvp_frame(3, true));
    assert_eq!(u.cooldown, 1);
    assert!(!u.dvp_frame(4, true));
    assert!(u.dvp_frame(6, true));
    u.finders_beeped = true;
    u.nothing_found();
    assert!(!u.finders_beeped);
}

#[test]
fn scanning_screens_pass_only_the_back_tap() {
    assert!(scan_tap_passes(AppState::ScanQR, 10, 10));
    assert!(!scan_tap_passes(AppState::ScanQR, 100, 100));
    assert!(!scan_tap_passes(AppState::DecryptSecretScan, 60, 10));
    assert!(scan_tap_passes(AppState::MainMenu, 100, 100));
}

#[test]
fn camera_slider_drag() {
    let mut cam = CameraTune { active: true, dirty: false, param: 2, vals: [0; 6] };
    assert!(camera_drag(&mut cam, 160, 200));
    assert_eq!(cam.vals[2], 127);
    assert!(cam.dirty);
    assert!(camera_drag(&mut cam, 52, 230));
    assert_eq!(cam.vals[2], 0);
    assert!(camera_drag(&mut cam, 268, 199));
    assert_eq!(cam.vals[2], 255);
    assert!(!camera_drag(&mut cam, 160, 150));
    let mut off = CameraTune { active: false, ..cam };
    assert!(!camera_drag(&mut off, 160, 200));
}

#[test]
fn ciphertext_hex_is_trimmed_and_decoded() {
    let hex = "ab".repeat(61);
    let text = format!(" \n{}\r\n", hex);
    assert_eq!(parse_ciphertext_hex(text.as_bytes()), Ok(vec![0xab; 61]));
    let wide = format!("\u{a0}{}\u{3000}", "Cd".repeat(70));
    assert_eq!(parse_ciphertext_hex(wide.as_bytes()), Ok(vec![0xcd; 70]));
    assert_eq!(parse_ciphertext_hex("ab".repeat(60).as_bytes()), Err(CiphertextError::InvalidHex));
    assert_eq!(parse_ciphertext_hex(format!("{}a", hex).as_bytes()), Err(CiphertextError::InvalidHex));
    let bad = format!("zz{}", "ab".repeat(60));
    assert_eq!(parse_ciphertext_hex(bad.as_bytes()), Err(CiphertextError::BadHex));
    let mut not_text = vec![0xffu8];
    not_text.extend_from_slice(hex.as_bytes());
    assert_eq!(parse_ciphertext_hex(&not_text), Err(CiphertextError::InvalidHex));
}

#[test]
fn multi_frame_progress_dots() {
    let got = kassigner::qrscan::counter_dots(&[true, false, true], 3);
    assert_eq!(got, vec![(147, true), (157, false), (167, true)]);
    let many = kassigner::qrscan::counter_dots(&[false; 40], 25);
    assert_eq!(many.len(), 20);
    assert_eq!(many[0], (62, false));
    assert!(kassigner::qrscan::counter_dots(&[], 0).is_empty());
}

/// A version-1 QR code (error correction L, mask 0) holding "KAS3".
const KAS3_QR: [&str; 21] = [
    "#######...#.#.#######",
    "#.....#.....#.#.....#",
    "#.###.#.#.#...#.###.#",
    "#.###.#.....#.#.###.#",
    "#.###.#..#.##.#.###.#",
    "#.....#..###..#.....#",
    "#######.#.#.#.#######",
    "........#.#..........",
    "###.#####.#.###...#..",
    "##.#...#.#.#.#.#.#.#.",
    "...#########.###.####",
    ".##.#..#.#####.##...#",
    ".#...##.####.###.##..",
    "........##....#..#.#.",
    "#######.###.#...##.##",
    "#.....#.##....#..#.#.",
    "#.###.#.#.#.#.#.##.##",
    "#.###.#...##.#.#.#.#.",
    "#.###.#.#.##.###.#..#",
    "#.....#.#..###.###.#.",
    "#######.##.#.###..###",
];

#[test]
fn a_real_code_decodes() {
    let scale = 4;
    let side = (21 + 8) * scale;
    let mut img = vec![255u8; side * side];
    for (r, row) in KAS3_QR.iter().enumerate() {
        for (c, m) in row.bytes().enumerate() {
            if m == b'#' {
                for dy in 0..scale {
                    for dx in 0..scale {
                        img[((r + 4) * scale + dy) * side + (c + 4) * scale + dx] = 0;
                    }
                }
            }
        }
    }
    assert_eq!(rqrr_decode(&img, side, side), vec![(1, b"KAS3".to_vec())]);
}

fn results() -> ScanResults {
    ScanResults { sign_hash_pending: true, sign_hash: [0; 32], scanned_addr: Vec::new(), covenant: Vec::new() }
}

#[test]
fn confirmed_hash_is_stored_and_previewed() {
    let mut s = ui(AppState::SignMsgScanQr);
    let mut r = results();
    let hex = "0f".repeat(32);
    assert!(apply_sign_hash(&mut s, &mut r, hex.as_bytes()));
    assert_eq!(r.sign_hash, [0x0f; 32]);
    assert!(!r.sign_hash_pending);
    assert_eq!(s.app.state, AppState::SignMsgHashPreview);
    let mut s = ui(AppState::SignMsgScanQr);
    let mut r = results();
    assert!(apply_sign_hash(&mut s, &mut r, &[9u8; 32]));
    assert_eq!(r.sign_hash, [9; 32]);
    let mut s = ui(AppState::SignMsgScanQr);
    let mut r = results();
    assert!(!apply_sign_hash(&mut s, &mut r, b"not a hash"));
    assert!(!r.sign_hash_pending);
    assert_eq!(r.sign_hash, [0; 32]);
    assert_eq!(s.app.state, AppState::SignMsgScanQr);
}

#[test]
fn confirmed_address_seed_and_covenant() {
    let mut s = ui(AppState::ScanQR);
    let mut r = results();
    apply_scanned_address(&mut s, &mut r, b"KASPA:QQAB");
    assert_eq!(r.scanned_addr, b"kaspa:qqab".to_vec());
    assert_eq!(s.app.state, AppState::ShowAddress);
    let mut s = ui(AppState::ScanQR);
    let mut words = [0u16; 24];
    let mut wc = 0u8;
    let decoded = [42u16; 24];
    assert!(!apply_mnemonic_qr(&mut s, &mut words, &mut wc, &decoded, 12, false));
    assert_eq!((words, wc, s.app.state), ([0; 24], 0, AppState::ScanQR));
    assert!(apply_mnemonic_qr(&mut s, &mut words, &mut wc, &decoded, 12, true));
    assert_eq!((words, wc, s.app.state), ([42; 24], 12, AppState::PassphraseEntry));
    let mut r = results();
    let big = vec![1u8; 5000];
    apply_covenant_raw(&mut s, &mut r, &big);
    assert_eq!(r.covenant.len(), 4096);
    assert_eq!(s.app.state, AppState::CovBackupName);
}
