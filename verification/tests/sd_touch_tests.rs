use kassigner::input::{AppState, Menu, WalletApp};
use kassigner::screens::{CameraTune, SignedQr, SubMenus, TouchHit, UiState};
use kassigner::sd_touch::{
    auto_name_parts, backup_candidate, backup_kind, file_tap, handle_sd_touch, import_listing, name_checked,
    save_extension, sd_scan_next, trim_file_end, tx_file_kind, BackupFileKind, FileTap, SaveKind, ScanRefusal,
    SdContext, SdEffect, SdNav, TxFileKind,
};
use kassigner::sdfile::DirEntryInfo;
use kassigner::kasfile::Kas3Error;
use kassigner::sd_touch::{loaded_route, open_signed_file, password_step, seal_signed_output, LoadedRoute, PasswordStep};

fn ui(state: AppState) -> UiState {
    let mut app = WalletApp::new();
    app.state = state;
    UiState {
        app,
        menus: SubMenus {
            tools: Menu::from_items(&["a"]),
            seed_tools: Menu::from_items(&["a"]),
            import: Menu::from_items(&["a"]),
            export: Menu::from_items(&["a"]),
            single_sig: Menu::from_items(&["a"]),
            multisig: Menu::from_items(&["a"]),
            sd_import: Menu::from_items(&["Seed", "Transaction", "kpub", "Address", "Descriptor", "Covenant"]),
            settings: Menu::from_items(&["a"]),
        },
        qr: SignedQr { len: 10, nframes: 2, frame: 1, large: false, mode: 0, via_density: false, manual_frames: false },
        brightness: 100,
        volume: 100,
        cam: CameraTune { active: false, dirty: false, param: 0, vals: [0; 6] },
    }
}

fn tap(x: u16, y: u16) -> TouchHit {
    TouchHit { x, y, is_back: false, grid: None, list: None, page_up: false, page_down: false, nav: 0 }
}

fn back() -> TouchHit {
    TouchHit { is_back: true, ..tap(10, 10) }
}

fn nav() -> SdNav {
    SdNav {
        scroll: 0,
        count: 6,
        overwrite_next: AppState::MainMenu,
        overwrite_back: AppState::MainMenu,
        delete_return: AppState::MainMenu,
    }
}

fn ctx() -> SdContext {
    SdContext {
        card_present: true,
        holds_descriptor: false,
        ms_building: false,
        key: 0,
        name_ext: [0x20; 3],
        txt_origin: 0,
        selected_is_tx: false,
    }
}

fn entry(name: &[u8; 11], size: u32) -> DirEntryInfo {
    DirEntryInfo { name: *name, size, is_dir: false }
}

#[test]
fn file_list_paging_and_rows() {
    let row = |r: u8, x: u16| TouchHit { list: Some(r), ..tap(x, 100) };
    assert_eq!(file_tap(0, 6, tap(300, 100), true), (4, FileTap::PageDown));
    assert_eq!(file_tap(4, 6, tap(10, 100), true), (0, FileTap::PageUp));
    assert_eq!(file_tap(4, 6, tap(300, 100), true), (4, FileTap::Nothing));
    assert_eq!(file_tap(0, 6, row(1, 100), true), (0, FileTap::Open { index: 1 }));
    assert_eq!(file_tap(4, 6, row(1, 250), true), (4, FileTap::Delete { index: 5 }));
    assert_eq!(file_tap(4, 6, row(1, 250), false), (4, FileTap::Open { index: 5 }));
    assert_eq!(file_tap(4, 6, row(3, 100), true), (4, FileTap::Nothing));
}

#[test]
fn file_list_screens() {
    let mut s = ui(AppState::SdKpubFileList);
    let mut n = nav();
    let hit = TouchHit { list: Some(2), ..tap(250, 120) };
    assert_eq!(handle_sd_touch(&mut s, &mut n, ctx(), hit), Some((true, SdEffect::SelectForDelete { index: 2 })));
    assert_eq!(s.app.state, AppState::SdDeleteConfirm);
    assert_eq!(n.delete_return, AppState::SdKpubFileList);
    assert_eq!(handle_sd_touch(&mut s, &mut n, ctx(), back()), Some((true, SdEffect::NoEffect)));
    assert_eq!(s.app.state, AppState::SdKpubFileList);
    assert_eq!(n.delete_return, AppState::MainMenu);
    let mut s = ui(AppState::SdXprvFileList);
    let hit = TouchHit { list: Some(0), ..tap(250, 120) };
    assert_eq!(handle_sd_touch(&mut s, &mut n, ctx(), hit), Some((true, SdEffect::SelectForPassword { index: 0 })));
    assert_eq!(s.app.state, AppState::SdXprvImportPassphrase);
    let mut s = ui(AppState::SdFileList);
    n.scroll = 4;
    handle_sd_touch(&mut s, &mut n, ctx(), back());
    assert_eq!((s.app.state, n.scroll), (AppState::SdImportMenu, 0));
}

#[test]
fn delete_confirmation_returns_to_its_list() {
    let mut s = ui(AppState::SdDeleteConfirm);
    let mut n = nav();
    let c = SdContext { selected_is_tx: true, ..ctx() };
    assert_eq!(handle_sd_touch(&mut s, &mut n, c, tap(100, 200)), Some((true, SdEffect::Click)));
    assert_eq!(s.app.state, AppState::SdKsptFileList);
    let mut s = ui(AppState::SdDeleteConfirm);
    assert_eq!(handle_sd_touch(&mut s, &mut n, ctx(), tap(200, 200)), Some((true, SdEffect::HoldToDelete)));
    assert_eq!(s.app.state, AppState::SdFileList);
}

#[test]
fn stray_tap_keeps_the_delete_return_target() {
    let mut s = ui(AppState::SdDeleteConfirm);
    let mut n = SdNav { delete_return: AppState::SdKpubFileList, ..nav() };
    assert_eq!(handle_sd_touch(&mut s, &mut n, ctx(), tap(160, 100)), Some((false, SdEffect::NoEffect)));
    assert_eq!(n.delete_return, AppState::SdKpubFileList);
    handle_sd_touch(&mut s, &mut n, ctx(), back());
    assert_eq!(s.app.state, AppState::SdKpubFileList);
    assert_eq!(n.delete_return, AppState::MainMenu);
}

#[test]
fn save_popup_and_mode_choice() {
    let mut s = ui(AppState::ShowQrPopup);
    let mut n = nav();
    assert_eq!(
        handle_sd_touch(&mut s, &mut n, ctx(), tap(100, 160)),
        Some((true, SdEffect::PrefillName { kind: SaveKind::Transaction }))
    );
    assert_eq!(s.app.state, AppState::SdKsptFilename);
    let mut s = ui(AppState::ShowQrPopup);
    let c = SdContext { holds_descriptor: true, ..ctx() };
    handle_sd_touch(&mut s, &mut n, c, tap(100, 160));
    assert_eq!(s.app.state, AppState::SdMsDescFilename);
    let mut s = ui(AppState::ShowQrPopup);
    handle_sd_touch(&mut s, &mut n, ctx(), tap(200, 160));
    assert_eq!((s.app.state, s.qr.frame), (AppState::ShowQR, 0));
    let mut s = ui(AppState::ShowQrModeChoice);
    handle_sd_touch(&mut s, &mut n, ctx(), tap(200, 160));
    assert_eq!((s.app.state, s.qr.manual_frames, s.qr.frame), (AppState::ShowQR, true, 0));
    let mut s = ui(AppState::ShowQrModeChoice);
    s.qr.via_density = true;
    handle_sd_touch(&mut s, &mut n, ctx(), back());
    assert_eq!((s.app.state, s.qr.nframes), (AppState::ShowQrDensityChoice, 0));
    let mut s = ui(AppState::ShowQrModeChoice);
    handle_sd_touch(&mut s, &mut n, ctx(), back());
    assert_eq!(s.app.state, AppState::MainMenu);
}

#[test]
fn file_name_keyboard_and_overwrite_warning() {
    let mut s = ui(AppState::SdKpubFilename);
    let mut n = nav();
    let ok = SdContext { key: 6, ..ctx() };
    assert_eq!(
        handle_sd_touch(&mut s, &mut n, ok, tap(100, 200)),
        Some((false, SdEffect::CheckName { kind: SaveKind::Kpub }))
    );
    assert_eq!(name_checked(&mut s, &mut n, SaveKind::Kpub, true), (true, false));
    assert_eq!(s.app.state, AppState::SdOverwriteWarning);
    assert_eq!((n.overwrite_next, n.overwrite_back), (AppState::SdKpubEncryptAsk, AppState::SdKpubFilename));
    assert_eq!(handle_sd_touch(&mut s, &mut n, ctx(), tap(100, 160)), Some((true, SdEffect::ClearEntry)));
    assert_eq!(s.app.state, AppState::SdKpubEncryptAsk);
    let mut s = ui(AppState::SdKsptFilename);
    assert_eq!(name_checked(&mut s, &mut n, SaveKind::Transaction, false), (false, true));
    assert_eq!(s.app.state, AppState::SdKsptEncryptAsk);
    let mut s = ui(AppState::SdSigFilename);
    assert_eq!(handle_sd_touch(&mut s, &mut n, ok, tap(100, 200)), Some((true, SdEffect::SaveSignature)));
    assert_eq!(s.app.state, AppState::MainMenu);
    let mut s = ui(AppState::SdSeedFilename);
    let space = SdContext { key: 5, ..ctx() };
    assert_eq!(
        handle_sd_touch(&mut s, &mut n, space, tap(100, 200)),
        Some((false, SdEffect::Key { key: 5, allow_space: false }))
    );
    handle_sd_touch(&mut s, &mut n, ctx(), back());
    assert_eq!(s.app.state, AppState::SeedBackupMenu);
}

#[test]
fn password_keyboards_go_back_where_they_came_from() {
    let mut n = nav();
    let mut s = ui(AppState::SdKsptEncryptPass);
    let c = SdContext { name_ext: *b"TXT", txt_origin: 1, ..ctx() };
    assert_eq!(handle_sd_touch(&mut s, &mut n, c, back()), Some((true, SdEffect::ClearEntry)));
    assert_eq!(s.app.state, AppState::SdKpubEncryptAsk);
    let mut s = ui(AppState::SdKsptEncryptPass);
    let c = SdContext { name_ext: *b"KSP", ..ctx() };
    handle_sd_touch(&mut s, &mut n, c, back());
    assert_eq!(s.app.state, AppState::SdKsptEncryptAsk);
    let mut s = ui(AppState::SdKsptEncryptPass);
    handle_sd_touch(&mut s, &mut n, ctx(), back());
    assert_eq!(s.app.state, AppState::SdKsptFileList);
    let mut s = ui(AppState::SdRestorePassphrase);
    let ok = SdContext { key: 6, ..ctx() };
    assert_eq!(
        handle_sd_touch(&mut s, &mut n, ok, tap(100, 200)),
        Some((false, SdEffect::PasswordEntered { screen: AppState::SdRestorePassphrase }))
    );
}

#[test]
fn encrypt_questions() {
    let mut n = nav();
    let mut s = ui(AppState::SdKpubEncryptAsk);
    assert_eq!(
        handle_sd_touch(&mut s, &mut n, ctx(), tap(100, 160)),
        Some((true, SdEffect::StageForEncryption { origin: 1 }))
    );
    assert_eq!(s.app.state, AppState::SdKsptEncryptPass);
    let mut s = ui(AppState::SdMsDescEncryptAsk);
    assert_eq!(handle_sd_touch(&mut s, &mut n, ctx(), tap(200, 160)), Some((true, SdEffect::WritePlain)));
    assert_eq!(s.app.state, AppState::MultisigDescriptor);
    let mut s = ui(AppState::SdKsptEncryptAsk);
    assert_eq!(handle_sd_touch(&mut s, &mut n, ctx(), tap(200, 160)), Some((true, SdEffect::WritePlain)));
    assert_eq!(s.app.state, AppState::MainMenu);
    let mut s = ui(AppState::SdBackupWarning);
    assert_eq!(
        handle_sd_touch(&mut s, &mut n, ctx(), tap(100, 220)),
        Some((true, SdEffect::PrefillName { kind: SaveKind::SeedBackup }))
    );
    assert_eq!(s.app.state, AppState::SdSeedFilename);
}

#[test]
fn import_menu_scans_the_card() {
    let mut n = nav();
    let mut s = ui(AppState::SdImportMenu);
    let hit = TouchHit { list: Some(1), ..tap(100, 100) };
    assert_eq!(handle_sd_touch(&mut s, &mut n, ctx(), hit), Some((true, SdEffect::ScanCard { item: 1 })));
    let c = SdContext { card_present: false, ..ctx() };
    assert_eq!(handle_sd_touch(&mut s, &mut n, c, hit), Some((true, SdEffect::NoCard { item: 1 })));
    assert_eq!(sd_scan_next(1, true, 3), Ok(AppState::SdKsptFileList));
    assert_eq!(sd_scan_next(2, false, 3), Err(ScanRefusal::ReadError));
    assert_eq!(sd_scan_next(0, true, 0), Err(ScanRefusal::NoneFound));
    assert_eq!(sd_scan_next(5, false, 1), Ok(AppState::SdFileList));
    assert_eq!(sd_scan_next(5, true, 0), Err(ScanRefusal::NoneFound));
    let mut s = ui(AppState::ScanQR);
    assert_eq!(handle_sd_touch(&mut s, &mut n, ctx(), hit), None);
}

#[test]
fn import_listings_filter_the_directory() {
    let entries = [
        entry(b"TX000001KSP", 500),
        entry(b"NOTES   TXT", 100),
        entry(b"_HIDDEN COV", 100),
        entry(b"BACKUP  COV", 2000),
        entry(b"WALLET  COV", 300),
        entry(b"BIG     KSP", 4000),
        DirEntryInfo { name: *b"DIR     KSP", size: 10, is_dir: true },
        entry(b"desc    txt", 400),
        entry(b".TRASH  TXT", 50),
    ];
    assert_eq!(import_listing(1, &entries), vec![*b"TX000001KSP"]);
    assert_eq!(import_listing(2, &entries), vec![*b"NOTES   TXT", *b".TRASH  TXT"]);
    assert_eq!(import_listing(4, &entries), vec![*b"TX000001KSP", *b"NOTES   TXT", *b"desc    txt"]);
    assert_eq!(import_listing(5, &entries), vec![*b"WALLET  COV"]);
    assert_eq!(import_listing(0, &entries).len(), 6);
}

#[test]
fn loaded_backup_files_are_recognised() {
    assert_eq!(backup_kind(b"COVB....", 8), BackupFileKind::Covenant);
    assert_eq!(backup_kind(&[0x4b, 0x41, 0x53, 0x01, 9, 9], 6), BackupFileKind::EncryptedSeed);
    assert_eq!(backup_kind(&[0x4b, 0x41, 0x53, 0x02, 9, 9], 6), BackupFileKind::EncryptedXprv);
    assert_eq!(backup_kind(b"xprv9s21ZrQH", 12), BackupFileKind::PlainXprv);
    let mut hex = [b'a'; 68];
    hex[64] = b'\r';
    hex[65] = b'\n';
    hex[66] = b' ';
    hex[67] = 0;
    assert_eq!(trim_file_end(&hex, 68), 64);
    assert_eq!(backup_kind(&hex, 68), BackupFileKind::HexKey);
    assert_eq!(backup_kind(b"hello", 5), BackupFileKind::Unknown);
    assert_eq!(backup_kind(b"KAS\x01", 3), BackupFileKind::Unknown);
}

#[test]
fn backup_candidates_by_their_first_block() {
    let mut head = [0u8; 512];
    head[..4].copy_from_slice(b"KAS\x01");
    assert!(backup_candidate(57, &head));
    assert!(!backup_candidate(56, &head));
    let mut hex = [b'F'; 512];
    assert!(backup_candidate(65, &hex));
    assert!(!backup_candidate(67, &hex));
    hex[10] = b'g';
    assert!(!backup_candidate(65, &hex));
}

#[test]
fn transaction_files_are_recognised() {
    assert_eq!(tx_file_kind(b"KAS\x03abc", true), TxFileKind::Encrypted);
    assert_eq!(tx_file_kind(b"KAS\x03abc", false), TxFileKind::Transaction);
    assert_eq!(tx_file_kind(b"multi_hd(2,ab)", true), TxFileKind::Descriptor);
    assert_eq!(tx_file_kind(b"kaspa:qq", true), TxFileKind::Transaction);
    assert_eq!(tx_file_kind(b"kaspa:qq", false), TxFileKind::Address);
    assert_eq!(tx_file_kind(b"kaspatest:q", true), TxFileKind::Address);
    assert_eq!(tx_file_kind(b"KSPT\x01", true), TxFileKind::Transaction);
}

#[test]
fn automatic_names_and_extensions() {
    assert_eq!(auto_name_parts(SaveKind::SeedBackup), (*b"SD", *b"KAS"));
    assert_eq!(auto_name_parts(SaveKind::MultisigDescriptor), (*b"MD", *b"TXT"));
    assert_eq!(auto_name_parts(SaveKind::Transaction), (*b"TX", *b"KSP"));
    assert_eq!(save_extension(SaveKind::Xprv), *b"KAS");
    assert_eq!(save_extension(SaveKind::Transaction), *b"KSP");
    assert_eq!(save_extension(SaveKind::Kpub), *b"TXT");
}

#[test]
fn password_ok_saves_or_loads_by_extension() {
    assert_eq!(password_step(*b"KSP"), PasswordStep::SaveTransaction);
    assert_eq!(password_step(*b"TXT"), PasswordStep::SaveText);
    assert_eq!(password_step(*b"KAS"), PasswordStep::Load);
}

#[test]
fn saved_transaction_loads_back_under_the_same_password() {
    let key = [3u8; 32];
    let mut s = ui(AppState::SdKsptEncryptPass);
    let payload = b"KSPT\x01signed transaction bytes";
    s.qr.len = payload.len();
    let file = seal_signed_output(&mut s, &key, &[4u8; 12], payload, false, 0).unwrap();
    assert_eq!(s.app.state, AppState::MainMenu);
    assert_eq!(&file[..4], b"KAS\x03");
    assert_eq!(file.len(), payload.len() + 34);
    let mut s = ui(AppState::SdKsptEncryptPass);
    s.qr.len = file.len();
    let (p, route) = open_signed_file::<16>(&mut s, &key, &file, 9, 200).unwrap();
    assert_eq!(p, payload.to_vec());
    assert_eq!(route, LoadedRoute::Transaction);
    assert_eq!((s.qr.len, s.qr.frame, s.qr.nframes), (payload.len(), 0, 0));
    assert_eq!(s.app.state, AppState::ShowQrFrameChoice);
    let mut s = ui(AppState::SdKsptEncryptPass);
    assert_eq!(open_signed_file::<16>(&mut s, &[9u8; 32], &file, 9, 200), Err(Kas3Error::WrongPassword));
    assert_eq!((s.qr.len, s.app.state), (0, AppState::SdKsptFileList));
}

#[test]
fn saved_text_returns_to_its_screen() {
    let mut s = ui(AppState::SdKsptEncryptPass);
    s.qr.len = 3;
    assert!(seal_signed_output(&mut s, &[1; 32], &[2; 12], b"abc", true, 1).is_some());
    assert_eq!(s.app.state, AppState::ExportChoice);
    let mut s = ui(AppState::SdKsptEncryptPass);
    s.qr.len = 1000;
    assert!(seal_signed_output(&mut s, &[1; 32], &[2; 12], &[0u8; 1000], true, 2).is_none());
    assert_eq!(s.app.state, AppState::MultisigDescriptor);
}

#[test]
fn loaded_content_is_routed_by_origin() {
    assert_eq!(loaded_route::<16>(1, b"kpubABC", 200), LoadedRoute::Kpub);
    assert_eq!(loaded_route::<16>(1, b"xpubABC", 200), LoadedRoute::NotKpub);
    assert_eq!(loaded_route::<16>(0, b"kaspatest:qq", 200), LoadedRoute::Address);
    assert_eq!(loaded_route::<16>(0, b"kaspa:qq", 5), LoadedRoute::NotAddress);
    assert_eq!(loaded_route::<16>(2, b"kaspa:qq", 200), LoadedRoute::NotDescriptor);
    assert_eq!(loaded_route::<16>(2, b"multi_hd(9,zz)", 200), LoadedRoute::BadDescriptor);
    assert_eq!(loaded_route::<16>(7, b"kaspa:qq", 200), LoadedRoute::Address);
    let field = format!("02{}", "a".repeat(128));
    let desc = format!("multi_hd(1,{})", field);
    assert_eq!(loaded_route::<16>(7, desc.as_bytes(), 200), LoadedRoute::Descriptor);
}
