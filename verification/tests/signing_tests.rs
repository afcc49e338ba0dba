use kassigner::input::{AppState, Menu, WalletApp};
use kassigner::screens::{CameraTune, SignedQr, SubMenus, UiState};
use kassigner::signing::{
    after_signing_step, copy_signed_output, cycle_signed_qr, handle_signing_step, mnemonic_words, select_signing_slots,
    signed_hex_dump, signed_tx_fits, signing_plan, SignPath, SigningContext, SigningPlan, SlotInfo,
};

fn slot(empty: bool, raw_key: bool, word_count: u8) -> SlotInfo {
    SlotInfo { empty, raw_key, word_count }
}

fn ui(state: AppState, total_inputs: u8) -> UiState {
    let mut app = WalletApp::new();
    app.state = state;
    app.total_inputs = total_inputs;
    UiState {
        app,
        menus: SubMenus {
            tools: Menu::new(),
            seed_tools: Menu::new(),
            import: Menu::new(),
            export: Menu::new(),
            single_sig: Menu::new(),
            multisig: Menu::new(),
            sd_import: Menu::new(),
            settings: Menu::new(),
        },
        qr: SignedQr { len: 500, nframes: 5, frame: 2, large: true, mode: 3, via_density: true, manual_frames: true },
        brightness: 0,
        volume: 0,
        cam: CameraTune { active: false, dirty: false, param: 0, vals: [0; 6] },
    }
}

#[test]
fn signed_size_limit() {
    assert!(signed_tx_fits(5, 2));
    assert!(!signed_tx_fits(6, 1));
    assert!(signed_tx_fits(0, 21));
    assert!(!signed_tx_fits(0, 22));
}

#[test]
fn mnemonic_words_by_count() {
    let mut idx = [0u16; 24];
    for (i, w) in idx.iter_mut().enumerate() {
        *w = 100 + i as u16;
    }
    assert_eq!(mnemonic_words(&idx, 12), idx[..12].to_vec());
    assert_eq!(mnemonic_words(&idx, 24), idx.to_vec());
    assert_eq!(mnemonic_words(&idx, 2), idx.to_vec());
}

#[test]
fn cosigning_slots() {
    let slots = [slot(true, false, 0), slot(false, false, 12), slot(false, true, 1), slot(false, false, 24), slot(false, false, 2)];
    assert_eq!(select_signing_slots(&slots, 3), (vec![1, 3], Some(1)));
    assert_eq!(select_signing_slots(&slots, 0), (vec![1, 3], None));
    assert_eq!(select_signing_slots(&slots, 4), (vec![1, 3], None));
    let many = [slot(false, false, 12); 10];
    assert_eq!(select_signing_slots(&many, 9), ((0..8).collect::<Vec<usize>>(), None));
    assert_eq!(select_signing_slots(&many, 7).1, Some(7));
}

#[test]
fn signed_output_copy() {
    let mut out = [0u8; 4];
    assert_eq!(copy_signed_output(&[1, 2, 3, 4, 5], 3, &mut out), 3);
    assert_eq!(out, [1, 2, 3, 0]);
    assert_eq!(copy_signed_output(&[9; 5], 5, &mut out), 0);
    assert_eq!(out, [1, 2, 3, 0]);
}

#[test]
fn signing_step_plans() {
    let last = AppState::Signing { input_idx: 0 };
    assert_eq!(
        signing_plan(last, 1, true, 1, 1, false, false, Some(false), false),
        SigningPlan::Step { derive: true, sign: Some(SignPath::KsptSingle) }
    );
    assert_eq!(
        signing_plan(last, 2, true, 1, 1, true, false, Some(false), false),
        SigningPlan::Step { derive: false, sign: None }
    );
    assert_eq!(signing_plan(last, 1, false, 1, 1, true, false, Some(false), false), SigningPlan::NoSeed);
    assert_eq!(signing_plan(last, 1, true, 7, 0, true, false, Some(false), false), SigningPlan::TooLarge);
    assert_eq!(
        signing_plan(last, 1, true, 1, 1, true, true, Some(true), true),
        SigningPlan::Step { derive: false, sign: Some(SignPath::PsktRawKeyUnsupported) }
    );
    assert_eq!(
        signing_plan(last, 1, true, 1, 1, true, true, Some(false), true),
        SigningPlan::Step { derive: false, sign: Some(SignPath::PsktMultisig) }
    );
    assert_eq!(
        signing_plan(last, 1, true, 1, 1, true, false, Some(true), true),
        SigningPlan::Step { derive: false, sign: Some(SignPath::KsptRawKey) }
    );
    assert_eq!(
        signing_plan(last, 1, true, 1, 1, true, false, None, true),
        SigningPlan::Step { derive: false, sign: Some(SignPath::NoActiveSlot) }
    );
    assert_eq!(signing_plan(AppState::MainMenu, 1, true, 1, 1, true, false, None, true), SigningPlan::Idle);
}

#[test]
fn after_the_last_input() {
    let mut s = ui(AppState::Signing { input_idx: 0 }, 1);
    after_signing_step(&mut s, false);
    assert_eq!(s.app.state, AppState::ShowQR);
    assert_eq!((s.qr.large, s.qr.mode, s.qr.nframes, s.qr.via_density), (false, 0, 0, false));
    assert_eq!((s.qr.frame, s.qr.manual_frames), (2, true));
    let mut s = ui(AppState::Signing { input_idx: 0 }, 1);
    after_signing_step(&mut s, true);
    assert_eq!(s.app.state, AppState::ShowQrFrameChoice);
    assert_eq!(s.qr.mode, 3);
    let mut s = ui(AppState::Signing { input_idx: 0 }, 2);
    after_signing_step(&mut s, false);
    assert_eq!(s.app.state, AppState::Signing { input_idx: 1 });
}

#[test]
fn hex_dump_is_lower_case() {
    assert_eq!(signed_hex_dump(&[0xab, 0x01, 0xF0]), b"ab01f0".to_vec());
    assert_eq!(signed_hex_dump(&[]), Vec::<u8>::new());
}

fn signing_ctx() -> SigningContext {
    SigningContext {
        seed_loaded: true,
        num_inputs: 2,
        num_outputs: 2,
        pubkeys_cached: false,
        is_pskt: false,
        active_raw: Some(false),
        any_multisig: false,
    }
}

#[test]
fn signing_step_walks_through_the_inputs() {
    let mut s = ui(AppState::Signing { input_idx: 0 }, 2);
    let p = handle_signing_step(&mut s, signing_ctx());
    assert_eq!(p, SigningPlan::Step { derive: true, sign: None });
    assert_eq!(s.qr.nframes, 5);
    after_signing_step(&mut s, false);
    assert_eq!(s.app.state, AppState::Signing { input_idx: 1 });
    let p = handle_signing_step(&mut s, SigningContext { pubkeys_cached: true, ..signing_ctx() });
    assert_eq!(p, SigningPlan::Step { derive: false, sign: Some(SignPath::KsptSingle) });
    assert_eq!((s.qr.nframes, s.qr.frame, s.qr.large, s.qr.manual_frames), (0, 0, false, false));
    after_signing_step(&mut s, false);
    assert_eq!(s.app.state, AppState::ShowQR);
}

#[test]
fn signing_step_refusals() {
    let mut s = ui(AppState::Signing { input_idx: 0 }, 2);
    let p = handle_signing_step(&mut s, SigningContext { seed_loaded: false, ..signing_ctx() });
    assert_eq!(p, SigningPlan::NoSeed);
    assert_eq!(s.app.state, AppState::MainMenu);
    let mut s = ui(AppState::Signing { input_idx: 0 }, 7);
    let p = handle_signing_step(&mut s, SigningContext { num_inputs: 7, ..signing_ctx() });
    assert_eq!(p, SigningPlan::TooLarge);
    assert_eq!(s.app.state, AppState::Rejected);
    let mut idle = ui(AppState::MainMenu, 0);
    assert_eq!(handle_signing_step(&mut idle, signing_ctx()), SigningPlan::Idle);
}

#[test]
fn signed_qr_cycles_its_frames() {
    let buf: Vec<u8> = (0..250u32).map(|i| i as u8).collect();
    let mut s = ui(AppState::ShowQR, 1);
    s.qr = SignedQr { len: 250, nframes: 3, frame: 0, large: false, mode: 0, via_density: false, manual_frames: false };
    assert_eq!(cycle_signed_qr(&mut s, &buf, 399), None);
    assert_eq!(s.qr.frame, 0);
    let f = cycle_signed_qr(&mut s, &buf, 400).unwrap();
    assert_eq!(s.qr.frame, 1);
    assert_eq!(&f[..3], &[1, 3, 84]);
    assert_eq!(f[3], 84);
    assert_eq!(f.len(), 3 + 84);
    let f = cycle_signed_qr(&mut s, &buf, 800).unwrap();
    assert_eq!(&f[..3], &[2, 3, 82]);
    cycle_signed_qr(&mut s, &buf, 1200);
    assert_eq!(s.qr.frame, 0);
    s.qr.manual_frames = true;
    assert_eq!(cycle_signed_qr(&mut s, &buf, 1600), None);
    assert_eq!(s.qr.frame, 0);
}
