use kassigner::input::{AppState, Menu, WalletApp};
use kassigner::menu_touch::{
    dice_complete, die_at, handle_menu_touch, import_scan_next, seed_entropy_len, seed_generated, word_count_at,
    MenuContext, MenuEffect,
};
use kassigner::screens::{list_item, within, CameraTune, SignedQr, SubMenus, TouchHit, UiState};

fn ui(state: AppState) -> UiState {
    let mut app = WalletApp::new();
    app.state = state;
    UiState {
        app,
        menus: SubMenus {
            tools: Menu::from_items(&["Seed Tools", "Import/Export", "Single Sig", "Multisig"]),
            seed_tools: Menu::from_items(&["New Seed", "Dice Seed", "Import Words", "Address", "Child Seed", "Last Word"]),
            import: Menu::from_items(&["From SD", "From Image", "Raw Key", "Covenant"]),
            export: Menu::from_items(&["Words", "SeedQR", "xprv"]),
            single_sig: Menu::from_items(&["Sign TX", "Sign Message", "Commit Secret", "Decrypt Secret"]),
            multisig: Menu::from_items(&["Create"]),
            sd_import: Menu::from_items(&["Seed", "Transaction", "kpub", "Address", "Descriptor", "Covenant"]),
            settings: Menu::from_items(&["Display", "Camera", "SD Card", "About"]),
        },
        qr: SignedQr { len: 0, nframes: 0, frame: 0, large: false, mode: 0, via_density: false, manual_frames: false },
        brightness: 128,
        volume: 128,
        cam: CameraTune { active: false, dirty: false, param: 0, vals: [100; 6] },
    }
}

fn tap(x: u16, y: u16) -> TouchHit {
    TouchHit { x, y, is_back: false, grid: None, list: None, page_up: false, page_down: false, nav: 0 }
}

fn row(r: u8) -> TouchHit {
    TouchHit { list: Some(r), ..tap(100, 100) }
}

fn back() -> TouchHit {
    TouchHit { is_back: true, ..tap(10, 10) }
}

fn ctx(seed_loaded: bool, pubkeys_cached: bool) -> MenuContext {
    MenuContext { seed_loaded, pubkeys_cached, dice_count: 0, icon_count: 20 }
}

#[test]
fn main_grid_opens_the_tapped_item() {
    let mut s = ui(AppState::MainMenu);
    let r = handle_menu_touch(&mut s, ctx(false, false), TouchHit { grid: Some(2), ..tap(200, 60) });
    assert_eq!(r, Some((true, MenuEffect::NoEffect)));
    assert_eq!(s.app.state, AppState::ToolsMenu);
    assert_eq!(s.app.menu.cursor, 2);
    let mut s = ui(AppState::MainMenu);
    handle_menu_touch(&mut s, ctx(false, false), TouchHit { grid: Some(3), ..tap(200, 160) });
    assert_eq!(s.app.state, AppState::SettingsMenu);
    let mut s = ui(AppState::MainMenu);
    assert_eq!(handle_menu_touch(&mut s, ctx(false, false), tap(5, 230)), Some((false, MenuEffect::NoEffect)));
    assert_eq!(s.app.state, AppState::MainMenu);
}

#[test]
fn tools_menu_rows_and_back() {
    let mut s = ui(AppState::ToolsMenu);
    s.menus.seed_tools.cursor = 3;
    assert_eq!(handle_menu_touch(&mut s, ctx(false, false), row(0)), Some((true, MenuEffect::NoEffect)));
    assert_eq!(s.app.state, AppState::SeedToolsMenu);
    assert_eq!(s.menus.seed_tools.cursor, 0);
    let mut s = ui(AppState::ToolsMenu);
    handle_menu_touch(&mut s, ctx(false, false), row(3));
    assert_eq!(s.app.state, AppState::MultisigMenu);
    let mut s = ui(AppState::ToolsMenu);
    s.menus.tools.cursor = 2;
    assert_eq!(handle_menu_touch(&mut s, ctx(false, false), back()), Some((true, MenuEffect::NoEffect)));
    assert_eq!(s.app.state, AppState::MainMenu);
    assert_eq!(s.menus.tools.cursor, 0);
    assert_eq!(s.app.menu.count, 4);
}

#[test]
fn seed_tools_address_needs_a_seed() {
    let mut s = ui(AppState::SeedToolsMenu);
    assert_eq!(handle_menu_touch(&mut s, ctx(false, false), row(3)), Some((true, MenuEffect::NeedSeedFirst)));
    assert_eq!(s.app.state, AppState::SeedToolsMenu);
    assert_eq!(
        handle_menu_touch(&mut s, ctx(true, false), row(3)),
        Some((true, MenuEffect::ShowAddress { derive: true }))
    );
    assert_eq!(s.app.state, AppState::ShowAddress);
}

#[test]
fn seed_tools_second_page() {
    let mut s = ui(AppState::SeedToolsMenu);
    assert_eq!(
        handle_menu_touch(&mut s, ctx(false, false), TouchHit { page_down: true, ..tap(300, 200) }),
        Some((true, MenuEffect::NoEffect))
    );
    assert_eq!(s.menus.seed_tools.scroll, 4);
    handle_menu_touch(&mut s, ctx(false, false), row(1));
    assert_eq!(s.app.state, AppState::ChooseWordCount { action: 3 });
    // a row past the last item does nothing
    let mut s2 = ui(AppState::SeedToolsMenu);
    s2.menus.seed_tools.scroll = 4;
    assert_eq!(handle_menu_touch(&mut s2, ctx(false, false), row(2)), Some((false, MenuEffect::NoEffect)));
}

#[test]
fn import_export_buttons() {
    let mut s = ui(AppState::ImportExportChoice);
    handle_menu_touch(&mut s, ctx(false, false), tap(50, 120));
    assert_eq!(s.app.state, AppState::ImportMenu);
    let mut s = ui(AppState::ImportExportChoice);
    assert_eq!(handle_menu_touch(&mut s, ctx(false, false), tap(200, 120)), Some((true, MenuEffect::NeedSeedFirst)));
    assert_eq!(s.app.state, AppState::ImportExportChoice);
    handle_menu_touch(&mut s, ctx(true, false), tap(200, 120));
    assert_eq!(s.app.state, AppState::ExportChoice);
    let mut s = ui(AppState::ImportExportChoice);
    assert_eq!(handle_menu_touch(&mut s, ctx(true, false), tap(160, 120)), Some((false, MenuEffect::NoEffect)));
}

#[test]
fn import_menu_items() {
    let mut s = ui(AppState::ImportMenu);
    assert_eq!(handle_menu_touch(&mut s, ctx(false, false), row(1)), Some((true, MenuEffect::ScanStegoImages)));
    assert_eq!(s.app.state, AppState::ImportMenu);
    assert_eq!(handle_menu_touch(&mut s, ctx(false, false), row(2)), Some((true, MenuEffect::ClearHexInput)));
    assert_eq!(s.app.state, AppState::ImportPrivKey);
    assert_eq!(import_scan_next(MenuEffect::ScanStegoImages, true, 2), Some(AppState::StegoImportPick));
    assert_eq!(import_scan_next(MenuEffect::ScanStegoImages, false, 2), None);
    assert_eq!(import_scan_next(MenuEffect::ScanCovenantFiles, false, 1), Some(AppState::SdFileList));
    assert_eq!(import_scan_next(MenuEffect::ScanCovenantFiles, true, 0), None);
}

#[test]
fn single_sig_menu_items() {
    let mut s = ui(AppState::SingleSigMenu);
    assert_eq!(handle_menu_touch(&mut s, ctx(true, false), row(0)), Some((true, MenuEffect::DeriveForSigning)));
    assert_eq!(s.app.state, AppState::SignTxGuide);
    let mut s = ui(AppState::SingleSigMenu);
    assert_eq!(handle_menu_touch(&mut s, ctx(false, false), row(1)), Some((true, MenuEffect::NoSeedLoaded)));
    assert_eq!(s.app.state, AppState::SingleSigMenu);
    assert_eq!(handle_menu_touch(&mut s, ctx(true, true), row(2)), Some((true, MenuEffect::StartCommitSecret)));
    assert_eq!(s.app.state, AppState::CommitRevealType);
    let mut s = ui(AppState::MultisigMenu);
    assert_eq!(handle_menu_touch(&mut s, ctx(false, false), row(0)), Some((true, MenuEffect::StartMultisig)));
    assert_eq!(s.app.state, AppState::MultisigChooseMN);
}

#[test]
fn dice_pad_numbers_and_undo() {
    assert_eq!(die_at(10, 70), Some(1));
    assert_eq!(die_at(160, 100), Some(2));
    assert_eq!(die_at(110, 135), Some(5));
    assert_eq!(die_at(309, 199), Some(6));
    assert_eq!(die_at(9, 70), None);
    assert_eq!(die_at(310, 70), None);
    assert_eq!(die_at(100, 200), None);
    let mut s = ui(AppState::DiceRoll);
    assert_eq!(handle_menu_touch(&mut s, ctx(false, false), tap(160, 100)), Some((false, MenuEffect::DiceRoll { value: 2 })));
    let c = MenuContext { dice_count: 3, ..ctx(false, false) };
    assert_eq!(handle_menu_touch(&mut s, c, tap(150, 210)), Some((false, MenuEffect::DiceUndo)));
    assert_eq!(handle_menu_touch(&mut s, ctx(false, false), tap(150, 210)), Some((false, MenuEffect::NoEffect)));
    assert_eq!(handle_menu_touch(&mut s, ctx(false, false), back()), Some((true, MenuEffect::CancelDice)));
    assert_eq!(s.app.state, AppState::ToolsMenu);
}

#[test]
fn dice_seed_word_count() {
    let mut app = WalletApp::new();
    assert_eq!(dice_complete(&mut app, 198), 24);
    assert_eq!(app.state, AppState::PassphraseEntry);
    assert_eq!(dice_complete(&mut app, 99), 12);
    assert_eq!(seed_entropy_len(12), 16);
    assert_eq!(seed_entropy_len(24), 32);
    seed_generated(&mut app, false);
    assert_eq!(app.state, AppState::ToolsMenu);
    seed_generated(&mut app, true);
    assert_eq!(app.state, AppState::PassphraseEntry);
}

#[test]
fn word_count_choice() {
    assert_eq!(word_count_at(100, 100), 12);
    assert_eq!(word_count_at(100, 180), 24);
    assert_eq!(word_count_at(100, 140), 0);
    assert_eq!(word_count_at(20, 100), 0);
    let mut s = ui(AppState::ChooseWordCount { action: 1 });
    assert_eq!(
        handle_menu_touch(&mut s, ctx(false, false), tap(100, 100)),
        Some((true, MenuEffect::StartDice { word_count: 12 }))
    );
    assert_eq!(s.app.state, AppState::DiceRoll);
    let mut s = ui(AppState::ChooseWordCount { action: 0 });
    assert_eq!(
        handle_menu_touch(&mut s, ctx(false, false), tap(100, 180)),
        Some((true, MenuEffect::GenerateSeed { word_count: 24 }))
    );
    assert_eq!(s.app.state, AppState::ChooseWordCount { action: 0 });
    let mut s = ui(AppState::ChooseWordCount { action: 4 });
    handle_menu_touch(&mut s, ctx(true, false), tap(100, 180));
    assert_eq!(s.app.state, AppState::Bip85Index { word_count: 24 });
    let mut s = ui(AppState::ChooseWordCount { action: 2 });
    handle_menu_touch(&mut s, ctx(true, false), tap(100, 100));
    assert_eq!(s.app.state, AppState::ImportWord { word_idx: 0, word_count: 12 });
}

#[test]
fn signed_qr_framing_choices() {
    let mut s = ui(AppState::ShowQrFrameChoice);
    s.qr.large = true;
    s.qr.mode = 3;
    s.qr.nframes = 4;
    handle_menu_touch(&mut s, ctx(false, false), tap(100, 120));
    assert_eq!(s.app.state, AppState::ShowQR);
    assert_eq!((s.qr.large, s.qr.mode, s.qr.nframes, s.qr.via_density), (false, 0, 0, false));
    let mut s = ui(AppState::ShowQrFrameChoice);
    handle_menu_touch(&mut s, ctx(false, false), tap(200, 120));
    assert_eq!(s.app.state, AppState::ShowQrDensityChoice);
    assert!(s.qr.via_density);
    handle_menu_touch(&mut s, ctx(false, false), tap(200, 120));
    assert_eq!(s.app.state, AppState::ShowQR);
    assert_eq!((s.qr.large, s.qr.mode), (true, 3));
    let mut s = ui(AppState::ShowQrFrameChoice);
    handle_menu_touch(&mut s, ctx(false, false), back());
    assert_eq!(s.app.state, AppState::MainMenu);
}

#[test]
fn show_qr_manual_frames_then_popup() {
    let mut s = ui(AppState::ShowQR);
    s.qr.len = 300;
    s.qr.nframes = 3;
    s.qr.manual_frames = true;
    handle_menu_touch(&mut s, ctx(false, false), tap(100, 100));
    assert_eq!((s.app.state, s.qr.frame), (AppState::ShowQR, 1));
    handle_menu_touch(&mut s, ctx(false, false), tap(100, 100));
    assert_eq!(s.qr.frame, 2);
    handle_menu_touch(&mut s, ctx(false, false), tap(100, 100));
    assert_eq!(s.app.state, AppState::ShowQrPopup);
    let mut s = ui(AppState::ShowQR);
    handle_menu_touch(&mut s, ctx(false, false), tap(100, 100));
    assert_eq!(s.app.state, AppState::MainMenu);
}

#[test]
fn icon_browser_pages() {
    let mut s = ui(AppState::IconBrowser { page: 0 });
    let fwd = TouchHit { nav: 1, ..tap(300, 120) };
    let bwd = TouchHit { nav: -1, ..tap(10, 120) };
    handle_menu_touch(&mut s, ctx(false, false), fwd);
    assert_eq!(s.app.state, AppState::IconBrowser { page: 1 });
    handle_menu_touch(&mut s, ctx(false, false), fwd);
    handle_menu_touch(&mut s, ctx(false, false), fwd);
    assert_eq!(s.app.state, AppState::IconBrowser { page: 2 });
    handle_menu_touch(&mut s, ctx(false, false), bwd);
    assert_eq!(s.app.state, AppState::IconBrowser { page: 1 });
}

#[test]
fn other_screens_are_not_menu_screens() {
    let mut s = ui(AppState::Rejected);
    handle_menu_touch(&mut s, ctx(false, false), tap(100, 100));
    assert_eq!(s.app.state, AppState::MainMenu);
    let mut s = ui(AppState::ScanQR);
    assert_eq!(handle_menu_touch(&mut s, ctx(false, false), tap(100, 100)), None);
    assert_eq!(s.app.state, AppState::ScanQR);
    let mut s = ui(AppState::CovBackupName);
    assert_eq!(handle_menu_touch(&mut s, ctx(false, false), tap(100, 100)), Some((false, MenuEffect::NameKeyboard)));
}

#[test]
fn list_rows_and_spans() {
    let m = Menu::from_items(&["a", "b", "c"]);
    assert_eq!(list_item(&m, Some(2)), Some(2));
    assert_eq!(list_item(&m, Some(3)), None);
    assert_eq!(list_item(&m, None), None);
    assert!(within(5, 5, 9));
    assert!(!within(10, 5, 9));
}
