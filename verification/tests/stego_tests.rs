use kassigner::input::{AppState, Menu, WalletApp};
use kassigner::screens::{CameraTune, SignedQr, SubMenus, TouchHit, UiState};
use kassigner::sdfile::DirEntryInfo;
use kassigner::stego_touch::{
    handle_stego_touch, hint_nonce, hint_row_at, import_next, import_outcome, jpeg_listing, jpeg_scan_next,
    pick_tap, seed_nonce, split_user_comment, stego_write_next, txt_descriptor, txt_listing, txt_read_next,
    txt_scan_next, typed_descriptor, user_comment, ImportOutcome, PickTap, StegoContext, StegoEffect, StegoNav,
    StegoRefusal,
};

fn ui(state: AppState) -> UiState {
    let mut app = WalletApp::new();
    app.state = state;
    UiState {
        app,
        menus: SubMenus {
            tools: Menu::from_items(&["a"]),
            seed_tools: Menu::from_items(&["a"]),
            import: Menu::from_items(&["a"]),
            export: Menu::from_items(&["a"]),
            single_sig: Menu::from_items(&["a"]),
            multisig: Menu::from_items(&["a"]),
            sd_import: Menu::from_items(&["a"]),
            settings: Menu::from_items(&["a"]),
        },
        qr: SignedQr { len: 0, nframes: 0, frame: 0, large: false, mode: 0, via_density: false, manual_frames: false },
        brightness: 100,
        volume: 100,
        cam: CameraTune { active: false, dirty: false, param: 0, vals: [0; 6] },
    }
}

fn tap(x: u16, y: u16) -> TouchHit {
    TouchHit { x, y, is_back: false, grid: None, list: None, page_up: false, page_down: false, nav: 0 }
}

fn back() -> TouchHit {
    TouchHit { is_back: true, ..tap(10, 10) }
}

fn row(r: u8) -> TouchHit {
    TouchHit { list: Some(r), ..tap(100, 100) }
}

fn nav() -> StegoNav {
    StegoNav { jpeg_selected: 0, jpeg_count: 6, import_selected: 0, import_count: 3, txt_count: 2, hint_selected: 0 }
}

fn ctx(key: u8) -> StegoContext {
    StegoContext { seed_loaded: true, card_present: true, key }
}

#[test]
fn hint_nonce_known_value() {
    assert_eq!(hint_nonce(b"my hint", b"a quiet lake"), [65, 93, 88, 10, 32, 43, 4, 170, 207, 72, 102, 55]);
    // The message is cut at 256 bytes.
    assert_eq!(hint_nonce(&[b'h'; 200], &[b'd'; 100]), [76, 99, 39, 50, 80, 26, 221, 133, 74, 10, 254, 75]);
}

#[test]
fn seed_nonce_known_values() {
    let mut idx = [0u16; 24];
    for (i, v) in idx.iter_mut().enumerate() {
        *v = (i as u16) * 7;
    }
    idx[0] = 2047;
    idx[1] = 256;
    assert_eq!(seed_nonce(&idx, 12), [69, 77, 160, 60, 38, 245, 63, 161, 141, 139, 27, 133]);
    assert_eq!(seed_nonce(&idx, 24), [112, 46, 151, 99, 27, 220, 161, 168, 219, 17, 66, 1]);
    assert_eq!(seed_nonce(&idx, 30), seed_nonce(&idx, 24));
}

#[test]
fn comment_with_hint_splits_back() {
    let uc = user_comment(b"SEEDBLOB==", b"HINT+/");
    assert_eq!(uc, b"SEEDBLOB==|HINT+/".to_vec());
    let (seed_len, hint_start, hint_len) = split_user_comment(&uc);
    assert_eq!(&uc[..seed_len], b"SEEDBLOB==");
    assert_eq!(&uc[hint_start..hint_start + hint_len], b"HINT+/");
}

#[test]
fn comment_without_hint() {
    let uc = user_comment(b"SEEDBLOB==", b"");
    assert_eq!(uc, b"SEEDBLOB==".to_vec());
    assert_eq!(split_user_comment(&uc), (10, 0, 0));
}

#[test]
fn comment_drops_hint_that_does_not_fit() {
    let seed = [b'A'; 200];
    let hint = [b'B'; 55];
    assert_eq!(user_comment(&seed, &hint), seed.to_vec());
    let hint = [b'B'; 54];
    assert_eq!(user_comment(&seed, &hint).len(), 255);
}

#[test]
fn txt_descriptor_strips_bom_and_trailing_space() {
    let mut sector = [0u8; 512];
    let text = b"\xEF\xBB\xBFblue door 42 \r\n";
    sector[..text.len()].copy_from_slice(text);
    assert_eq!(txt_descriptor(&sector, text.len() as u32), Some((3, 12)));
    let mut blank = [0u8; 512];
    blank[..3].copy_from_slice(b" \n ");
    assert_eq!(txt_descriptor(&blank, 3), None);
    let long = [b'x'; 512];
    assert_eq!(txt_descriptor(&long, 300), Some((0, 128)));
}

#[test]
fn typed_descriptor_is_cut_at_96() {
    assert_eq!(typed_descriptor(b"abc"), b"abc".to_vec());
    assert_eq!(typed_descriptor(&[b'z'; 120]).len(), 96);
}

fn entry(name: &[u8; 11], size: u32) -> DirEntryInfo {
    DirEntryInfo { name: *name, size, is_dir: false }
}

#[test]
fn listings_pick_pictures_and_small_text_files() {
    let entries = [
        entry(b"HOLIDAY JPG", 90000),
        entry(b"_HIDDEN JPG", 100),
        entry(b"NOTE    TXT", 40),
        entry(b"BIGNOTE TXT", 400),
        entry(b"scan    jpe", 10),
    ];
    assert_eq!(jpeg_listing(&entries), vec![*b"HOLIDAY JPG", *b"scan    jpe"]);
    assert_eq!(txt_listing(&entries), vec![*b"NOTE    TXT"]);
}

#[test]
fn pick_list_paging_and_selection() {
    let down = TouchHit { page_down: true, ..tap(300, 200) };
    assert_eq!(pick_tap(1, 6, down), (5, PickTap::PageDown));
    assert_eq!(pick_tap(1, 9, down), (5, PickTap::PageDown));
    assert_eq!(pick_tap(5, 6, down), (5, PickTap::Nothing));
    let up = TouchHit { page_up: true, ..tap(300, 20) };
    assert_eq!(pick_tap(5, 6, up), (1, PickTap::PageUp));
    assert_eq!(pick_tap(5, 6, row(1)), (5, PickTap::Pick { index: 5 }));
    assert_eq!(pick_tap(5, 6, row(2)), (5, PickTap::Nothing));
}

#[test]
fn hint_rows() {
    assert_eq!(hint_row_at(100, 68), Some(0));
    assert_eq!(hint_row_at(100, 68 + 36 + 29), Some(1));
    assert_eq!(hint_row_at(100, 68 + 36 + 30), None);
    assert_eq!(hint_row_at(100, 68 + 3 * 36 + 5), Some(3));
    assert_eq!(hint_row_at(10, 70), None);
}

#[test]
fn mode_select_refusals() {
    let mut s = ui(AppState::StegoModeSelect);
    let mut n = nav();
    let no_seed = StegoContext { seed_loaded: false, ..ctx(0) };
    assert_eq!(handle_stego_touch(&mut s, &mut n, no_seed, tap(100, 100)),
        Some((true, StegoEffect::Refuse { reason: StegoRefusal::NoSeed })));
    assert_eq!(s.app.state, AppState::ExportChoice);
    let mut s = ui(AppState::StegoModeSelect);
    let no_card = StegoContext { card_present: false, ..ctx(0) };
    assert_eq!(handle_stego_touch(&mut s, &mut n, no_card, tap(100, 100)),
        Some((true, StegoEffect::Refuse { reason: StegoRefusal::NoCard })));
    let mut s = ui(AppState::StegoModeSelect);
    assert_eq!(handle_stego_touch(&mut s, &mut n, ctx(0), tap(100, 100)), Some((true, StegoEffect::ScanJpegs)));
    assert_eq!(s.app.state, AppState::StegoModeSelect);
}

#[test]
fn export_flow_walkthrough() {
    let mut n = nav();
    let mut s = ui(AppState::StegoJpegPick);
    assert_eq!(handle_stego_touch(&mut s, &mut n, ctx(0), row(2)), Some((true, StegoEffect::ClearDescriptor)));
    assert_eq!(n.jpeg_selected, 2);
    assert_eq!(s.app.state, AppState::StegoJpegDescChoice);
    assert_eq!(handle_stego_touch(&mut s, &mut n, ctx(0), tap(100, 80)), Some((true, StegoEffect::ClearEntry)));
    assert_eq!(s.app.state, AppState::StegoJpegDesc);
    assert_eq!(handle_stego_touch(&mut s, &mut n, ctx(4), tap(100, 200)), Some((false, StegoEffect::Key { key: 4 })));
    assert_eq!(handle_stego_touch(&mut s, &mut n, ctx(6), tap(100, 200)), Some((true, StegoEffect::TakeDescriptor)));
    assert_eq!(s.app.state, AppState::StegoJpegDescPreview);
    assert_eq!(handle_stego_touch(&mut s, &mut n, ctx(0), tap(200, 200)), Some((true, StegoEffect::ClearHint)));
    assert_eq!(s.app.state, AppState::StegoJpegPpAsk);
    assert_eq!(handle_stego_touch(&mut s, &mut n, ctx(0), tap(200, 200)), Some((true, StegoEffect::NoEffect)));
    assert_eq!(s.app.state, AppState::StegoJpegPpInfo);
    assert_eq!(handle_stego_touch(&mut s, &mut n, ctx(0), tap(100, 110)),
        Some((true, StegoEffect::EncryptPresetHint { row: 1 })));
    assert_eq!(n.hint_selected, 1);
    assert_eq!(s.app.state, AppState::StegoJpegConfirm);
    assert_eq!(handle_stego_touch(&mut s, &mut n, ctx(0), tap(200, 200)), Some((true, StegoEffect::WriteStego)));
    assert_eq!(stego_write_next(true), AppState::StegoResult);
    assert_eq!(stego_write_next(false), AppState::ExportChoice);
    let mut r = ui(AppState::StegoResult);
    assert_eq!(handle_stego_touch(&mut r, &mut n, ctx(0), tap(1, 1)), Some((true, StegoEffect::NoEffect)));
    assert_eq!(r.app.state, AppState::MainMenu);
}

#[test]
fn custom_hint_row_opens_keyboard() {
    let mut n = nav();
    let mut s = ui(AppState::StegoJpegPpInfo);
    assert_eq!(handle_stego_touch(&mut s, &mut n, ctx(0), tap(100, 68 + 3 * 36 + 2)), Some((true, StegoEffect::ClearEntry)));
    assert_eq!(s.app.state, AppState::StegoJpegPpEntry);
    assert_eq!(handle_stego_touch(&mut s, &mut n, ctx(6), tap(100, 200)), Some((true, StegoEffect::EncryptTypedHint)));
    assert_eq!(s.app.state, AppState::StegoJpegConfirm);
}

#[test]
fn import_flow_walkthrough() {
    let mut n = nav();
    let mut s = ui(AppState::StegoImportPick);
    assert_eq!(handle_stego_touch(&mut s, &mut n, ctx(0), row(3)), Some((false, StegoEffect::NoEffect)));
    assert_eq!(handle_stego_touch(&mut s, &mut n, ctx(0), row(1)), Some((true, StegoEffect::SelectImport)));
    assert_eq!(n.import_selected, 1);
    assert_eq!(s.app.state, AppState::StegoImportDescChoice);
    assert_eq!(handle_stego_touch(&mut s, &mut n, ctx(0), tap(100, 120)), Some((false, StegoEffect::ScanTxt)));
    assert_eq!(txt_scan_next(true, true, 2), Some(AppState::StegoImportDescFile));
    assert_eq!(txt_scan_next(true, true, 0), None);
    s.app.state = AppState::StegoImportDescFile;
    assert_eq!(handle_stego_touch(&mut s, &mut n, ctx(0), row(1)), Some((false, StegoEffect::ReadTxt { index: 1 })));
    assert_eq!(handle_stego_touch(&mut s, &mut n, ctx(0), row(2)), Some((false, StegoEffect::NoEffect)));
    assert_eq!(txt_read_next(true, true), Some(AppState::StegoImportPass));
    s.app.state = AppState::StegoImportPass;
    assert_eq!(handle_stego_touch(&mut s, &mut n, ctx(6), tap(100, 200)), Some((true, StegoEffect::DecryptImport)));
    assert_eq!(s.app.state, AppState::StegoImportPass);
    assert_eq!(import_next(import_outcome(true, 57, true, true, 0)), Some(AppState::SeedList));
    assert_eq!(import_next(import_outcome(true, 57, true, true, 9)), Some(AppState::StegoHintReveal));
    assert_eq!(import_outcome(true, 56, true, true, 0), ImportOutcome::WrongPassword);
    assert_eq!(import_outcome(false, 80, true, true, 0), ImportOutcome::WrongPassword);
    assert_eq!(import_outcome(true, 80, true, false, 0), ImportOutcome::WrongPassword);
    assert_eq!(import_next(ImportOutcome::WrongPassword), None);
}

#[test]
fn hint_screens_store_the_seed() {
    let mut n = nav();
    let mut s = ui(AppState::StegoHintReveal);
    assert_eq!(handle_stego_touch(&mut s, &mut n, ctx(0), tap(100, 100)), Some((true, StegoEffect::ClearEntry)));
    assert_eq!(s.app.state, AppState::StegoHintPassphrase);
    assert_eq!(handle_stego_touch(&mut s, &mut n, ctx(6), tap(100, 200)), Some((true, StegoEffect::StoreWithPassphrase)));
    assert_eq!(s.app.state, AppState::SeedList);
    let mut s = ui(AppState::StegoHintPassphrase);
    assert_eq!(handle_stego_touch(&mut s, &mut n, ctx(0), back()), Some((true, StegoEffect::StoreWithoutPassphrase)));
    assert_eq!(s.app.state, AppState::SeedList);
}

#[test]
fn scan_results_route_the_export_flow() {
    assert_eq!(jpeg_scan_next(true, 3), (AppState::StegoJpegPick, false));
    assert_eq!(jpeg_scan_next(true, 0), (AppState::ExportChoice, true));
    assert_eq!(jpeg_scan_next(false, 3), (AppState::ExportChoice, true));
    assert_eq!(txt_read_next(false, true), Some(AppState::StegoJpegDescPreview));
    assert_eq!(txt_read_next(false, false), None);
}

#[test]
fn other_screens_are_not_handled() {
    let mut s = ui(AppState::MainMenu);
    let mut n = nav();
    assert_eq!(handle_stego_touch(&mut s, &mut n, ctx(0), tap(1, 1)), None);
}
