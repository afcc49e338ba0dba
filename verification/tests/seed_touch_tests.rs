use kassigner::input::{AppState, Menu, WalletApp};
use kassigner::screens::{CameraTune, SignedQr, SubMenus, TouchHit, UiState};
use kassigner::sdfile::xprv_slot_fields;
use kassigner::seed_touch::{
    activate_slot, bip85_derived_next, bip85_tap, finish_seed_delete, handle_seed_touch, mnemonic_checked_next, next_active_slot, raw_key_stored_next,
    seed_list_tap, seed_stored, show_word_tap, word_entered, xprv_raw_from_slot, Bip85Tap, HexEntry, HexEntryStep,
    ActiveSeed, KeyAction, SeedBank, SeedContext, SeedEffect, SeedListTap, SeedNav, SeedRefusal, SeedSlot,
};

#[test]
fn hex_key_entry_lowercases_and_parses() {
    let mut e = HexEntry::new();
    assert!(matches!(e.press(KeyAction::Char { ch: b'A' }), HexEntryStep::Edited));
    assert_eq!((e.len, e.buf[0]), (1, b'a'));
    assert!(matches!(e.press(KeyAction::Confirm), HexEntryStep::Incomplete));
    assert!(matches!(e.press(KeyAction::Backspace), HexEntryStep::Edited));
    assert_eq!(e.len, 0);
    for i in 0..64 {
        e.press(KeyAction::Char { ch: if i == 63 { b'1' } else { b'0' } });
    }
    assert_eq!(e.len, 64);
    e.press(KeyAction::Char { ch: b'f' });
    assert_eq!(e.len, 64);
    match e.press(KeyAction::Confirm) {
        HexEntryStep::Key { key } => {
            let mut expected = [0u8; 32];
            expected[31] = 1;
            assert_eq!(key, expected);
        }
        _ => panic!("a full key was typed"),
    }
    e.press(KeyAction::Backspace);
    e.press(KeyAction::Char { ch: b'x' });
    assert!(matches!(e.press(KeyAction::Confirm), HexEntryStep::InvalidHex));
    assert!(matches!(e.press(KeyAction::Cancel), HexEntryStep::Ignored));
}

#[test]
fn child_seed_index_buttons() {
    assert_eq!(bip85_tap(5, 100, 110, false, true), Bip85Tap::Index { index: 4 });
    assert_eq!(bip85_tap(0, 100, 110, false, true), Bip85Tap::Nothing);
    assert_eq!(bip85_tap(5, 200, 110, false, true), Bip85Tap::Index { index: 6 });
    assert_eq!(bip85_tap(99, 200, 110, false, true), Bip85Tap::Nothing);
    assert_eq!(bip85_tap(7, 100, 160, false, true), Bip85Tap::Derive);
    assert_eq!(bip85_tap(7, 100, 160, false, false), Bip85Tap::NeedSeed);
    assert_eq!(bip85_tap(7, 100, 160, true, true), Bip85Tap::Back);
    assert_eq!(bip85_tap(7, 10, 220, false, true), Bip85Tap::Nothing);
}

#[test]
fn child_seed_words_page_one_by_one() {
    assert_eq!(show_word_tap(0, 12, false), AppState::Bip85ShowWord { word_idx: 1, word_count: 12 });
    assert_eq!(show_word_tap(11, 12, false), AppState::SeedToolsMenu);
    assert_eq!(show_word_tap(3, 24, true), AppState::SeedToolsMenu);
}

#[test]
fn words_are_entered_in_order() {
    let mut m = [0u16; 24];
    assert_eq!(word_entered(&mut m, false, 3, 12, 777), Some(AppState::ImportWord { word_idx: 4, word_count: 12 }));
    assert_eq!(m[3], 777);
    assert_eq!(word_entered(&mut m, false, 11, 12, 5), None);
    assert_eq!(word_entered(&mut m, true, 9, 12, 6), Some(AppState::CalcLastWord { word_idx: 10, word_count: 12 }));
    assert_eq!(word_entered(&mut m, true, 10, 12, 7), None);
    assert_eq!(word_entered(&mut m, true, 22, 24, 8), None);
    assert_eq!(word_entered(&mut m, false, 22, 24, 9), Some(AppState::ImportWord { word_idx: 23, word_count: 24 }));
    assert_eq!((m[10], m[22]), (7, 9));
}

#[test]
fn after_storing_a_seed() {
    assert_eq!(seed_stored(false, None), AppState::SeedToolsMenu);
    assert_eq!(seed_stored(true, Some(2)), AppState::MultisigPickSeed { key_idx: 2 });
    assert_eq!(seed_stored(true, None), AppState::SeedBackup { word_idx: 0 });
}

#[test]
fn seed_list_cards_and_buttons() {
    let loaded = [0u8, 2];
    assert_eq!(seed_list_tap(0, &loaded, 4, 100, 100, true), (0, SeedListTap::Activate { slot: 0 }));
    assert_eq!(seed_list_tap(0, &loaded, 4, 100, 150, true), (0, SeedListTap::Activate { slot: 2 }));
    assert_eq!(seed_list_tap(0, &loaded, 4, 250, 150, true), (0, SeedListTap::Delete { slot: 2 }));
    assert_eq!(seed_list_tap(0, &loaded, 4, 100, 190, true), (0, SeedListTap::AddSeed));
    assert_eq!(seed_list_tap(0, &loaded, 4, 100, 122, true), (0, SeedListTap::Nothing));
    assert_eq!(seed_list_tap(0, &loaded, 4, 100, 50, true), (0, SeedListTap::Address));
    assert_eq!(seed_list_tap(0, &loaded, 4, 200, 50, true), (0, SeedListTap::Export));
    assert_eq!(seed_list_tap(0, &loaded, 4, 200, 50, false), (0, SeedListTap::NeedSeed));
    assert_eq!(seed_list_tap(0, &loaded, 4, 160, 50, true), (0, SeedListTap::Nothing));
    let many = [0u8, 1, 2, 3];
    assert_eq!(seed_list_tap(0, &many, 16, 300, 100, true), (3, SeedListTap::PageDown));
    assert_eq!(seed_list_tap(3, &many, 16, 100, 100, true), (3, SeedListTap::Activate { slot: 3 }));
    assert_eq!(seed_list_tap(3, &many, 16, 10, 100, true), (0, SeedListTap::PageUp));
}

#[test]
fn extended_key_survives_a_seed_slot() {
    let mut raw = [0u8; 65];
    for (i, b) in raw.iter_mut().enumerate() {
        *b = (i as u8).wrapping_mul(37).wrapping_add(11);
    }
    let (indices, pass) = xprv_slot_fields(&raw);
    assert_eq!(indices[0], raw[0] as u16 + 256 * raw[1] as u16);
    assert_eq!(indices[16], 0);
    assert_eq!(pass[..], raw[32..]);
    assert_eq!(xprv_raw_from_slot(&indices, &pass), raw);
}

#[test]
fn next_seed_after_deleting_the_active_one() {
    assert_eq!(next_active_slot(&[true, false, true]), Some(1));
    assert_eq!(next_active_slot(&[true, true]), None);
    assert_eq!(next_active_slot(&[]), None);
}

fn ui(state: AppState) -> UiState {
    let mut app = WalletApp::new();
    app.state = state;
    let mut tools = Menu::from_items(&["a", "b", "c"]);
    tools.cursor = 2;
    UiState {
        app,
        menus: SubMenus {
            tools,
            seed_tools: Menu::from_items(&["a"]),
            import: Menu::from_items(&["a"]),
            export: Menu::from_items(&["a"]),
            single_sig: Menu::from_items(&["a"]),
            multisig: Menu::from_items(&["a"]),
            sd_import: Menu::from_items(&["a"]),
            settings: Menu::from_items(&["a"]),
        },
        qr: SignedQr { len: 0, nframes: 0, frame: 0, large: false, mode: 0, via_density: false, manual_frames: false },
        brightness: 100,
        volume: 100,
        cam: CameraTune { active: false, dirty: false, param: 0, vals: [0; 6] },
    }
}

fn tap(x: u16, y: u16) -> TouchHit {
    TouchHit { x, y, is_back: false, grid: None, list: None, page_up: false, page_down: false, nav: 0 }
}

fn seed_nav() -> SeedNav {
    SeedNav { bip85_index: 0, scroll: 0, pending_delete: 0xFF, mnemonic: [0; 24], hex: HexEntry::new() }
}

fn seed_ctx() -> SeedContext {
    SeedContext {
        seed_loaded: true,
        active_word_count: 24,
        key: KeyAction::NoKey,
        pp_key: 0,
        suggestion: None,
        matched: None,
        max_slots: 4,
    }
}

#[test]
fn child_seed_screen_steps_and_derives() {
    let mut s = ui(AppState::Bip85Index { word_count: 12 });
    let mut n = seed_nav();
    let out = handle_seed_touch(&mut s, &mut n, seed_ctx(), &[0], tap(210, 110));
    assert!(matches!(out, Some((false, SeedEffect::ShowIndex { index: 1 }))));
    assert_eq!(n.bip85_index, 1);
    let out = handle_seed_touch(&mut s, &mut n, seed_ctx(), &[0], tap(150, 160));
    assert!(matches!(out, Some((true, SeedEffect::DeriveChild { word_count: 12 }))));
    assert_eq!(bip85_derived_next(true, 12), AppState::Bip85ShowWord { word_idx: 0, word_count: 12 });
    assert_eq!(bip85_derived_next(false, 12), AppState::SeedToolsMenu);
    let no_seed = SeedContext { seed_loaded: false, ..seed_ctx() };
    let out = handle_seed_touch(&mut s, &mut n, no_seed, &[], tap(150, 160));
    assert!(matches!(out, Some((false, SeedEffect::Refuse { reason: SeedRefusal::NeedSeed }))));
}

#[test]
fn last_child_word_wipes_and_returns() {
    let mut s = ui(AppState::Bip85ShowWord { word_idx: 11, word_count: 12 });
    let mut n = seed_nav();
    let out = handle_seed_touch(&mut s, &mut n, seed_ctx(), &[0], tap(100, 100));
    assert!(matches!(out, Some((true, SeedEffect::WipeChild))));
    assert_eq!(s.app.state, AppState::SeedToolsMenu);
}

#[test]
fn import_words_until_the_checksum() {
    let mut s = ui(AppState::ImportWord { word_idx: 0, word_count: 12 });
    let mut n = seed_nav();
    let pick = SeedContext { suggestion: Some(5), ..seed_ctx() };
    let out = handle_seed_touch(&mut s, &mut n, pick, &[], tap(100, 60));
    assert!(matches!(out, Some((false, SeedEffect::NextWord))));
    assert_eq!(n.mnemonic[0], 5);
    assert_eq!(s.app.state, AppState::ImportWord { word_idx: 1, word_count: 12 });
    let typed = SeedContext { key: KeyAction::Char { ch: b'a' }, ..seed_ctx() };
    let out = handle_seed_touch(&mut s, &mut n, typed, &[], tap(100, 150));
    assert!(matches!(out, Some((false, SeedEffect::WordKey { action: KeyAction::Char { ch: b'a' } }))));
    let ok_no_match = SeedContext { key: KeyAction::Confirm, ..seed_ctx() };
    let out = handle_seed_touch(&mut s, &mut n, ok_no_match, &[], tap(100, 150));
    assert!(matches!(out, Some((false, SeedEffect::NoEffect))));
    let mut last = ui(AppState::ImportWord { word_idx: 11, word_count: 12 });
    let ok = SeedContext { key: KeyAction::Confirm, matched: Some(2047), ..seed_ctx() };
    let out = handle_seed_touch(&mut last, &mut n, ok, &[], tap(100, 150));
    assert!(matches!(out, Some((true, SeedEffect::CheckMnemonic))));
    assert_eq!(n.mnemonic[11], 2047);
    assert_eq!(mnemonic_checked_next(true), AppState::PassphraseEntry);
    assert_eq!(mnemonic_checked_next(false), AppState::SeedToolsMenu);
}

#[test]
fn completing_a_mnemonic_computes_the_last_word() {
    let mut s = ui(AppState::CalcLastWord { word_idx: 10, word_count: 12 });
    let mut n = seed_nav();
    let pick = SeedContext { suggestion: Some(7), ..seed_ctx() };
    let out = handle_seed_touch(&mut s, &mut n, pick, &[], tap(100, 60));
    assert!(matches!(out, Some((true, SeedEffect::ComputeLastWord))));
    assert_eq!(s.app.state, AppState::PassphraseEntry);
    let out = handle_seed_touch(&mut s, &mut n, SeedContext { pp_key: 6, ..seed_ctx() }, &[], tap(100, 200));
    assert!(matches!(out, Some((true, SeedEffect::StoreSeed))));
    assert_eq!(seed_stored(true, None), AppState::SeedBackup { word_idx: 0 });
}

#[test]
fn raw_key_screen_hands_over_the_key() {
    let mut s = ui(AppState::ImportPrivKey);
    let mut n = seed_nav();
    for _ in 0..64 {
        let c = SeedContext { key: KeyAction::Char { ch: b'F' }, ..seed_ctx() };
        let out = handle_seed_touch(&mut s, &mut n, c, &[], tap(100, 150));
        assert!(matches!(out, Some((false, SeedEffect::HexEdited))));
    }
    let out = handle_seed_touch(&mut s, &mut n, SeedContext { key: KeyAction::Confirm, ..seed_ctx() }, &[], tap(100, 150));
    match out {
        Some((true, SeedEffect::ImportKey { privkey })) => assert_eq!(privkey, [0xff; 32]),
        _ => panic!("expected the key"),
    }
    assert_eq!(raw_key_stored_next(true), Some(AppState::SeedsMenu));
    assert_eq!(raw_key_stored_next(false), None);
    n.hex.buf[3] = b'x';
    let out = handle_seed_touch(&mut s, &mut n, SeedContext { key: KeyAction::Confirm, ..seed_ctx() }, &[], tap(100, 150));
    assert!(matches!(out, Some((true, SeedEffect::Refuse { reason: SeedRefusal::InvalidHex }))));
    let back = TouchHit { is_back: true, ..tap(5, 5) };
    handle_seed_touch(&mut s, &mut n, seed_ctx(), &[], back);
    assert_eq!(n.hex.len, 0);
    assert_eq!(s.app.state, AppState::ImportMenu);
}

#[test]
fn seed_list_screen_actions() {
    let mut s = ui(AppState::SeedList);
    let mut n = seed_nav();
    let out = handle_seed_touch(&mut s, &mut n, seed_ctx(), &[0, 2], tap(100, 80));
    assert!(matches!(out, Some((true, SeedEffect::Activate { slot: 0 }))));
    let out = handle_seed_touch(&mut s, &mut n, seed_ctx(), &[0, 2], tap(250, 130));
    assert!(matches!(out, Some((true, SeedEffect::NoEffect))));
    assert_eq!(n.pending_delete, 2);
    assert_eq!(s.app.state, AppState::ConfirmDeleteSeed);
    let out = handle_seed_touch(&mut s, &mut n, seed_ctx(), &[0, 2], tap(200, 200));
    assert!(matches!(out, Some((true, SeedEffect::HoldToDelete))));
    let out = handle_seed_touch(&mut s, &mut n, seed_ctx(), &[0, 2], tap(100, 200));
    assert!(matches!(out, Some((true, SeedEffect::Click))));
    assert_eq!(n.pending_delete, 0xFF);
    assert_eq!(s.app.state, AppState::SeedList);
    // The empty row opens the tools menu, back on its first item.
    let out = handle_seed_touch(&mut s, &mut n, seed_ctx(), &[0, 2], tap(100, 170));
    assert!(matches!(out, Some((true, SeedEffect::NoEffect))));
    assert_eq!(s.app.state, AppState::ToolsMenu);
    assert_eq!(s.menus.tools.cursor, 0);
}

#[test]
fn seed_list_export_of_a_raw_key() {
    let mut s = ui(AppState::SeedList);
    let mut n = seed_nav();
    let raw = SeedContext { active_word_count: 1, ..seed_ctx() };
    let out = handle_seed_touch(&mut s, &mut n, raw, &[0], tap(200, 50));
    assert!(matches!(out, Some((true, SeedEffect::ExportRawKey))));
    assert_eq!(s.app.state, AppState::ExportPrivKey);
    let mut s = ui(AppState::SeedList);
    let out = handle_seed_touch(&mut s, &mut n, seed_ctx(), &[0], tap(50, 50));
    assert!(matches!(out, Some((true, SeedEffect::ShowAddress))));
    assert_eq!(s.app.state, AppState::ShowAddress);
}

fn used_slot(word_count: u8, first: u16) -> SeedSlot {
    let mut indices = [0u16; 24];
    for (i, v) in indices.iter_mut().enumerate() {
        *v = first + i as u16;
    }
    SeedSlot { used: true, indices, word_count, passphrase: [7u8; 33] }
}

fn free_slot() -> SeedSlot {
    SeedSlot { used: false, indices: [0; 24], word_count: 0, passphrase: [0; 33] }
}

fn loaded_keys() -> ActiveSeed {
    ActiveSeed {
        word_count: 12,
        seed_loaded: true,
        pubkeys_cached: true,
        current_addr_index: 3,
        extra_pubkey_index: 9,
        acct_key_raw: [5; 65],
        pubkey_cache: [[6; 32]; 20],
        extra_pubkey: [8; 32],
        our_privkey: [9; 32],
    }
}

#[test]
fn deleting_the_only_seed_wipes_everything() {
    let mut s = ui(AppState::ConfirmDeleteSeed);
    let mut n = SeedNav { pending_delete: 1, ..seed_nav() };
    let mut bank = SeedBank { slots: vec![free_slot(), used_slot(12, 100), free_slot(), free_slot()], active: 1 };
    let mut act = loaded_keys();
    finish_seed_delete(&mut s, &mut n, &mut bank, &mut act, true);
    assert!(!bank.slots[1].used);
    assert!(!act.seed_loaded && !act.pubkeys_cached);
    assert_eq!(act.pubkey_cache, [[0; 32]; 20]);
    assert_eq!(act.acct_key_raw, [0; 65]);
    assert_eq!(act.extra_pubkey, [0; 32]);
    assert_eq!(act.our_privkey, [0; 32]);
    assert_eq!(n.pending_delete, 0xFF);
    assert_eq!(s.app.state, AppState::SeedList);
}

#[test]
fn deleting_the_active_seed_activates_the_next() {
    let mut s = ui(AppState::ConfirmDeleteSeed);
    let mut n = SeedNav { pending_delete: 0, ..seed_nav() };
    let xprv = used_slot(2, 0x0201);
    let mut bank = SeedBank { slots: vec![used_slot(24, 100), free_slot(), xprv, free_slot()], active: 0 };
    let mut act = loaded_keys();
    finish_seed_delete(&mut s, &mut n, &mut bank, &mut act, true);
    assert_eq!(bank.active, 2);
    assert_eq!(n.mnemonic, xprv.indices);
    assert_eq!(act.word_count, 2);
    assert!(act.seed_loaded);
    assert_eq!(act.acct_key_raw, xprv_raw_from_slot(&xprv.indices, &xprv.passphrase));
    assert_eq!(&act.acct_key_raw[..2], &[0x01, 0x02]);
    assert_eq!(act.pubkey_cache, [[0; 32]; 20]);
}

#[test]
fn deleting_another_seed_or_cancelling_keeps_the_active_one() {
    let mut s = ui(AppState::ConfirmDeleteSeed);
    let mut n = SeedNav { pending_delete: 1, ..seed_nav() };
    let mut bank = SeedBank { slots: vec![used_slot(12, 100), used_slot(12, 200)], active: 0 };
    let mut act = loaded_keys();
    finish_seed_delete(&mut s, &mut n, &mut bank, &mut act, true);
    assert!(!bank.slots[1].used && bank.slots[0].used);
    assert_eq!(act.acct_key_raw, [5; 65]);
    let mut n = SeedNav { pending_delete: 0, ..seed_nav() };
    finish_seed_delete(&mut s, &mut n, &mut bank, &mut act, false);
    assert!(bank.slots[0].used);
    assert_eq!(n.pending_delete, 0xFF);
}

#[test]
fn activating_a_slot_loads_its_words() {
    let mut bank = SeedBank { slots: vec![used_slot(12, 100), used_slot(24, 300)], active: 0 };
    let mut act = loaded_keys();
    let mut n = seed_nav();
    activate_slot(&mut bank, &mut act, &mut n, 1);
    assert_eq!(bank.active, 1);
    assert_eq!(n.mnemonic[0], 300);
    assert_eq!((act.word_count, act.seed_loaded, act.pubkeys_cached), (24, true, false));
    assert_eq!((act.current_addr_index, act.extra_pubkey_index), (0, 0xFFFF));
    assert_eq!(act.acct_key_raw, [5; 65]);
}

#[test]
fn seed_handler_answers_only_its_screens() {
    let mut s = ui(AppState::MainMenu);
    let mut n = seed_nav();
    assert!(handle_seed_touch(&mut s, &mut n, seed_ctx(), &[], tap(100, 100)).is_none());
    let mut s = ui(AppState::Bip85Deriving);
    assert!(handle_seed_touch(&mut s, &mut n, seed_ctx(), &[], tap(100, 100)).is_some());
}
