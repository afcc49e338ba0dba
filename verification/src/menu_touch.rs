//! Touch handling of the menu screens: the main-menu grid, the seed, tool,
//! import and signing menus, the dice pad, the word-count choice and the
//! signed-QR framing screens.
//!
//! Work that needs the hardware (entropy capture, SD scans, key derivation)
//! is returned as a [`MenuEffect`] for the caller to perform.

use vstd::prelude::*;
use crate::input::{AppState, ButtonEvent, Menu, WalletApp, MAX_VISIBLE, boot_next_state, page_up_scroll, page_down_scroll};
use crate::screens::{TouchHit, SubMenus, SignedQr, UiState, in_span, within, list_item, list_item_spec,
    reset_menu, goto, with_menus, went_home};

verus! {

/// Work left to the caller after a touch on a menu screen.
#[derive(Debug, Clone, Copy, PartialEq, Eq, Structural)]
pub enum MenuEffect {
    /// Nothing to do.
    NoEffect,
    /// Refuse: "Load a seed first".
    NeedSeedFirst,
    /// Refuse with the error beep: "No seed loaded".
    NoSeedLoaded,
    /// The address screen opens from the seed tools: forget any scanned
    /// address, return to the seed tools from it, and derive the keys
    /// first when `derive` is set.
    ShowAddress { derive: bool },
    /// Derive the receive and change keys before signing.
    DeriveForSigning,
    /// Look for images on the SD card to import a hidden seed from.
    ScanStegoImages,
    /// Look for covenant backups on the SD card.
    ScanCovenantFiles,
    /// Clear the hex key entry.
    ClearHexInput,
    /// Clear the passphrase entry and the description before signing a message.
    StartSignMessage,
    /// Clear the passphrase entry, the description, the ciphertext and the
    /// commitment hash before committing a secret.
    StartCommitSecret,
    /// Clear the ciphertext and the description before decrypting a secret.
    StartDecryptSecret,
    /// Start a new 2-of-3 multisig configuration.
    StartMultisig,
    /// Forget the dice rolls entered so far.
    CancelDice,
    /// Record a dice roll.
    DiceRoll { value: u8 },
    /// Remove the last dice roll.
    DiceUndo,
    /// Collect hardware entropy for a new seed of `word_count` words.
    GenerateSeed { word_count: u8 },
    /// Start collecting dice rolls for a seed of `word_count` words.
    StartDice { word_count: u8 },
    /// Clear the word entry.
    StartWordEntry,
    /// Start a child-seed derivation at index 0 for `word_count` words.
    StartBip85 { word_count: u8 },
    /// Clear the covenant backup name.
    ClearCovName,
    /// Hand the touch to the on-screen keyboard of the name entry.
    NameKeyboard,
}

/// What the menu screens read besides the interface state.
#[derive(Clone, Copy)]
pub struct MenuContext {
    /// A seed is loaded.
    pub seed_loaded: bool,
    /// The receive keys of the loaded seed are derived.
    pub pubkeys_cached: bool,
    /// Dice rolls entered so far.
    pub dice_count: u16,
    /// Number of icons in the icon browser.
    pub icon_count: u16,
}

// ─── Fixed button rectangles ───────────────────────────────────────

/// The die under a point of the dice pad: two rows of three 100×65 buttons
/// from (10, 70), numbered 1 to 6 row by row.
pub open spec fn die_at_spec(x: u16, y: u16) -> Option<u8> {
    if 10 <= x && x < 310 && 70 <= y && y < 200 {
        Some((((y - 70) / 65) * 3 + (x - 10) / 100 + 1) as u8)
    } else {
        None
    }
}

/// The die under a point of the dice pad (see [`die_at_spec`]).
pub fn die_at(x: u16, y: u16) -> (d: Option<u8>)
    ensures
        d == die_at_spec(x, y),
        d matches Some(v) ==> 1 <= v <= 6,
{
    if 10 <= x && x < 310 && 70 <= y && y < 200 {
        let row: u16 = (y - 70) / 65;
        let col: u16 = (x - 10) / 100;
        Some((row * 3 + col + 1) as u8)
    } else {
        None
    }
}

/// The undo button below the dice pad.
pub open spec fn dice_undo_at(x: u16, y: u16) -> bool {
    in_span(x, 100, 220) && y >= 200
}

/// The word count chosen by a tap: the upper button gives 12 words, the
/// lower 24, elsewhere 0.
pub open spec fn word_count_at_spec(x: u16, y: u16) -> u8 {
    if in_span(x, 30, 290) && in_span(y, 70, 130) {
        12
    } else if in_span(x, 30, 290) && in_span(y, 150, 210) {
        24
    } else {
        0
    }
}

/// The word count chosen by a tap (see [`word_count_at_spec`]).
pub fn word_count_at(x: u16, y: u16) -> (wc: u8)
    ensures
        wc == word_count_at_spec(x, y),
{
    if within(x, 30, 290) && within(y, 70, 130) {
        12
    } else if within(x, 30, 290) && within(y, 150, 210) {
        24
    } else {
        0
    }
}

/// The import button of the import/export choice.
pub open spec fn import_button_at(x: u16, y: u16) -> bool {
    in_span(x, 22, 152) && in_span(y, 100, 155)
}

/// The export button of the import/export choice.
pub open spec fn export_button_at(x: u16, y: u16) -> bool {
    in_span(x, 168, 298) && in_span(y, 100, 155)
}

/// The icon-browser page after an arrow tap: eight icons per page.
pub open spec fn icon_page_after(page: u16, nav: i8, icon_count: u16) -> u16 {
    if nav < 0 && page > 0 {
        (page - 1) as u16
    } else if nav > 0 && page + 1 < (icon_count + 7) / 8 {
        (page + 1) as u16
    } else {
        page
    }
}

// ─── Screen by screen ──────────────────────────────────────────────

/// A menu paged one page back.
pub open spec fn paged_up(m: Menu) -> Menu {
    Menu { scroll: page_up_scroll(m.scroll), ..m }
}

/// A menu has a next page.
pub open spec fn has_next_page(m: Menu) -> bool {
    m.count > MAX_VISIBLE && m.scroll + MAX_VISIBLE < m.count
}

/// A menu paged one page forward.
pub open spec fn paged_down(m: Menu) -> Menu {
    Menu { scroll: page_down_scroll(m.scroll), ..m }
}

/// The result of a touch that changed the state to `s` and asks for
/// `redraw` and `effect`.
pub open spec fn step_is(s1: UiState, out: Option<(bool, MenuEffect)>, s: UiState, redraw: bool, effect: MenuEffect) -> bool {
    s1 == s && out == Some((redraw, effect))
}

/// The result of a touch that returned home from `s` with `effect`.
pub open spec fn home_is(s1: UiState, out: Option<(bool, MenuEffect)>, s: UiState, effect: MenuEffect) -> bool {
    went_home(s, s1) && out == Some((true, effect))
}

/// The main-menu grid: a cell holding an item selects it as a long press would.
pub open spec fn main_grid_touch(s0: UiState, hit: TouchHit, s1: UiState, out: Option<(bool, MenuEffect)>) -> bool {
    match hit.grid {
        Some(idx) => {
            if idx < 4 && idx < s0.app.menu.count {
                let a = WalletApp { menu: Menu { cursor: idx, ..s0.app.menu }, ..s0.app };
                step_is(s1, out, UiState { app: WalletApp { state: boot_next_state(a, ButtonEvent::LongPress), ..a }, ..s0 }, true, MenuEffect::NoEffect)
            } else {
                step_is(s1, out, s0, false, MenuEffect::NoEffect)
            }
        },
        None => step_is(s1, out, s0, false, MenuEffect::NoEffect),
    }
}

/// The tools menu.
pub open spec fn tools_touch(s0: UiState, hit: TouchHit, s1: UiState, out: Option<(bool, MenuEffect)>) -> bool {
    let m = s0.menus;
    if hit.is_back {
        home_is(s1, out, with_menus(s0, SubMenus { tools: reset_menu(m.tools), ..m }), MenuEffect::NoEffect)
    } else {
        match list_item_spec(m.tools, hit.list) {
            Some(item) => {
                let s = if item == 0 {
                    goto(with_menus(s0, SubMenus { seed_tools: reset_menu(m.seed_tools), ..m }), AppState::SeedToolsMenu)
                } else if item == 1 {
                    goto(s0, AppState::ImportExportChoice)
                } else if item == 2 {
                    goto(with_menus(s0, SubMenus { single_sig: reset_menu(m.single_sig), ..m }), AppState::SingleSigMenu)
                } else if item == 3 {
                    goto(with_menus(s0, SubMenus { multisig: reset_menu(m.multisig), ..m }), AppState::MultisigMenu)
                } else {
                    s0
                };
                step_is(s1, out, s, true, MenuEffect::NoEffect)
            },
            None => step_is(s1, out, s0, false, MenuEffect::NoEffect),
        }
    }
}

/// An item of the seed tools: new seed, dice seed, import words, address,
/// child seed, last word.
pub open spec fn seed_tools_item(s0: UiState, ctx: MenuContext, item: u8) -> (UiState, MenuEffect) {
    if item <= 2 {
        (goto(s0, AppState::ChooseWordCount { action: item }), MenuEffect::NoEffect)
    } else if item == 3 {
        if ctx.seed_loaded {
            (goto(s0, AppState::ShowAddress), MenuEffect::ShowAddress { derive: !ctx.pubkeys_cached })
        } else {
            (s0, MenuEffect::NeedSeedFirst)
        }
    } else if item == 4 {
        if ctx.seed_loaded {
            (goto(s0, AppState::ChooseWordCount { action: 4 }), MenuEffect::NoEffect)
        } else {
            (s0, MenuEffect::NeedSeedFirst)
        }
    } else if item == 5 {
        (goto(s0, AppState::ChooseWordCount { action: 3 }), MenuEffect::NoEffect)
    } else {
        (s0, MenuEffect::NoEffect)
    }
}

/// The seed tools menu, which pages.
pub open spec fn seed_tools_touch(s0: UiState, ctx: MenuContext, hit: TouchHit, s1: UiState, out: Option<(bool, MenuEffect)>) -> bool {
    let m = s0.menus;
    if hit.is_back {
        step_is(s1, out, goto(with_menus(s0, SubMenus { seed_tools: reset_menu(m.seed_tools), ..m }), AppState::ToolsMenu), true, MenuEffect::NoEffect)
    } else if hit.page_up && m.seed_tools.scroll > 0 {
        step_is(s1, out, with_menus(s0, SubMenus { seed_tools: paged_up(m.seed_tools), ..m }), true, MenuEffect::NoEffect)
    } else if hit.page_down && has_next_page(m.seed_tools) {
        step_is(s1, out, with_menus(s0, SubMenus { seed_tools: paged_down(m.seed_tools), ..m }), true, MenuEffect::NoEffect)
    } else {
        match list_item_spec(m.seed_tools, hit.list) {
            Some(item) => step_is(s1, out, seed_tools_item(s0, ctx, item).0, true, seed_tools_item(s0, ctx, item).1),
            None => step_is(s1, out, s0, false, MenuEffect::NoEffect),
        }
    }
}

/// The import/export choice: two buttons; export needs a seed.
pub open spec fn import_export_touch(s0: UiState, ctx: MenuContext, hit: TouchHit, s1: UiState, out: Option<(bool, MenuEffect)>) -> bool {
    let m = s0.menus;
    if hit.is_back {
        step_is(s1, out, goto(s0, AppState::ToolsMenu), true, MenuEffect::NoEffect)
    } else if import_button_at(hit.x, hit.y) {
        step_is(s1, out, goto(with_menus(s0, SubMenus { import: reset_menu(m.import), ..m }), AppState::ImportMenu), true, MenuEffect::NoEffect)
    } else if export_button_at(hit.x, hit.y) {
        if ctx.seed_loaded {
            step_is(s1, out, goto(with_menus(s0, SubMenus { export: reset_menu(m.export), ..m }), AppState::ExportChoice), true, MenuEffect::NoEffect)
        } else {
            step_is(s1, out, s0, true, MenuEffect::NeedSeedFirst)
        }
    } else {
        step_is(s1, out, s0, false, MenuEffect::NoEffect)
    }
}

/// The import menu: from SD, from an image, a raw key, a covenant backup.
pub open spec fn import_touch(s0: UiState, hit: TouchHit, s1: UiState, out: Option<(bool, MenuEffect)>) -> bool {
    let m = s0.menus;
    if hit.is_back {
        step_is(s1, out, goto(with_menus(s0, SubMenus { import: reset_menu(m.import), ..m }), AppState::ImportExportChoice), true, MenuEffect::NoEffect)
    } else {
        match list_item_spec(m.import, hit.list) {
            Some(item) => {
                if item == 0 {
                    step_is(s1, out, goto(with_menus(s0, SubMenus { sd_import: reset_menu(m.sd_import), ..m }), AppState::SdImportMenu), true, MenuEffect::NoEffect)
                } else if item == 1 {
                    step_is(s1, out, s0, true, MenuEffect::ScanStegoImages)
                } else if item == 2 {
                    step_is(s1, out, goto(s0, AppState::ImportPrivKey), true, MenuEffect::ClearHexInput)
                } else if item == 3 {
                    step_is(s1, out, s0, true, MenuEffect::ScanCovenantFiles)
                } else {
                    step_is(s1, out, s0, true, MenuEffect::NoEffect)
                }
            },
            None => step_is(s1, out, s0, false, MenuEffect::NoEffect),
        }
    }
}

/// An item of the single-signature menu: sign a transaction, sign a
/// message, commit a secret, decrypt a secret. All but the first need a seed.
pub open spec fn single_sig_item(s0: UiState, ctx: MenuContext, item: u8) -> (UiState, MenuEffect) {
    if item == 0 {
        (goto(s0, AppState::SignTxGuide),
            if ctx.seed_loaded && !ctx.pubkeys_cached { MenuEffect::DeriveForSigning } else { MenuEffect::NoEffect })
    } else if 1 <= item <= 3 && !ctx.seed_loaded {
        (s0, MenuEffect::NoSeedLoaded)
    } else if item == 1 {
        (goto(s0, AppState::SignMsgChoice), MenuEffect::StartSignMessage)
    } else if item == 2 {
        (goto(s0, AppState::CommitRevealType), MenuEffect::StartCommitSecret)
    } else if item == 3 {
        (goto(s0, AppState::DecryptSecretScan), MenuEffect::StartDecryptSecret)
    } else {
        (s0, MenuEffect::NoEffect)
    }
}

/// The single-signature menu.
pub open spec fn single_sig_touch(s0: UiState, ctx: MenuContext, hit: TouchHit, s1: UiState, out: Option<(bool, MenuEffect)>) -> bool {
    let m = s0.menus;
    if hit.is_back {
        step_is(s1, out, goto(with_menus(s0, SubMenus { single_sig: reset_menu(m.single_sig), ..m }), AppState::ToolsMenu), true, MenuEffect::NoEffect)
    } else {
        match list_item_spec(m.single_sig, hit.list) {
            Some(item) => step_is(s1, out, single_sig_item(s0, ctx, item).0, true, single_sig_item(s0, ctx, item).1),
            None => step_is(s1, out, s0, false, MenuEffect::NoEffect),
        }
    }
}

/// The multisig menu: its one item starts a new configuration.
pub open spec fn multisig_touch(s0: UiState, hit: TouchHit, s1: UiState, out: Option<(bool, MenuEffect)>) -> bool {
    let m = s0.menus;
    if hit.is_back {
        step_is(s1, out, goto(with_menus(s0, SubMenus { multisig: reset_menu(m.multisig), ..m }), AppState::ToolsMenu), true, MenuEffect::NoEffect)
    } else {
        match list_item_spec(m.multisig, hit.list) {
            Some(item) => {
                if item == 0 {
                    step_is(s1, out, goto(s0, AppState::MultisigChooseMN), true, MenuEffect::StartMultisig)
                } else {
                    step_is(s1, out, s0, true, MenuEffect::NoEffect)
                }
            },
            None => step_is(s1, out, s0, false, MenuEffect::NoEffect),
        }
    }
}

/// The dice pad: a die records a roll, the undo button removes one.
pub open spec fn dice_touch(s0: UiState, ctx: MenuContext, hit: TouchHit, s1: UiState, out: Option<(bool, MenuEffect)>) -> bool {
    if hit.is_back {
        step_is(s1, out, goto(s0, AppState::ToolsMenu), true, MenuEffect::CancelDice)
    } else {
        match die_at_spec(hit.x, hit.y) {
            Some(v) => step_is(s1, out, s0, false, MenuEffect::DiceRoll { value: v }),
            None => {
                if dice_undo_at(hit.x, hit.y) && ctx.dice_count > 0 {
                    step_is(s1, out, s0, false, MenuEffect::DiceUndo)
                } else {
                    step_is(s1, out, s0, false, MenuEffect::NoEffect)
                }
            },
        }
    }
}

/// What a word-count choice starts, by the action that asked for it.
pub open spec fn word_count_chosen(s0: UiState, action: u8, wc: u8) -> (UiState, MenuEffect) {
    if action == 0 {
        (s0, MenuEffect::GenerateSeed { word_count: wc })
    } else if action == 1 {
        (goto(s0, AppState::DiceRoll), MenuEffect::StartDice { word_count: wc })
    } else if action == 2 {
        (goto(s0, AppState::ImportWord { word_idx: 0, word_count: wc }), MenuEffect::StartWordEntry)
    } else if action == 3 {
        (goto(s0, AppState::CalcLastWord { word_idx: 0, word_count: wc }), MenuEffect::StartWordEntry)
    } else if action == 4 {
        (goto(s0, AppState::Bip85Index { word_count: wc }), MenuEffect::StartBip85 { word_count: wc })
    } else {
        (s0, MenuEffect::NoEffect)
    }
}

/// The word-count choice.
pub open spec fn word_count_touch(s0: UiState, action: u8, hit: TouchHit, s1: UiState, out: Option<(bool, MenuEffect)>) -> bool {
    if hit.is_back {
        step_is(s1, out, goto(s0, AppState::SeedToolsMenu), true, MenuEffect::NoEffect)
    } else {
        let wc = word_count_at_spec(hit.x, hit.y);
        if wc > 0 {
            step_is(s1, out, word_count_chosen(s0, action, wc).0, true, word_count_chosen(s0, action, wc).1)
        } else {
            step_is(s1, out, s0, false, MenuEffect::NoEffect)
        }
    }
}

/// Framing cleared back to the standard one.
pub open spec fn standard_framing(q: SignedQr) -> SignedQr {
    SignedQr { nframes: 0, large: false, mode: 0, via_density: false, ..q }
}

/// `s` with other framing.
pub open spec fn with_qr(s: UiState, q: SignedQr) -> UiState {
    UiState { qr: q, ..s }
}

/// Who receives the signed response: a phone or wallet (left, standard
/// framing) or another signer (right, which asks for the frame density).
pub open spec fn frame_choice_touch(s0: UiState, hit: TouchHit, s1: UiState, out: Option<(bool, MenuEffect)>) -> bool {
    let q = s0.qr;
    if hit.is_back {
        home_is(s1, out, with_qr(s0, standard_framing(q)), MenuEffect::NoEffect)
    } else if hit.x < 160 {
        step_is(s1, out, goto(with_qr(s0, standard_framing(q)), AppState::ShowQR), true, MenuEffect::NoEffect)
    } else {
        step_is(s1, out, goto(with_qr(s0, SignedQr { nframes: 0, via_density: true, ..q }), AppState::ShowQrDensityChoice), true, MenuEffect::NoEffect)
    }
}

/// The frame density for another signer: fast (left, standard frames) or
/// safe (right, small frames in mode 3).
pub open spec fn density_choice_touch(s0: UiState, hit: TouchHit, s1: UiState, out: Option<(bool, MenuEffect)>) -> bool {
    let q = s0.qr;
    if hit.is_back {
        step_is(s1, out, goto(with_qr(s0, standard_framing(q)), AppState::ShowQrFrameChoice), true, MenuEffect::NoEffect)
    } else if hit.x < 160 {
        step_is(s1, out, goto(with_qr(s0, SignedQr { large: false, mode: 0, nframes: 0, ..q }), AppState::ShowQR), true, MenuEffect::NoEffect)
    } else {
        step_is(s1, out, goto(with_qr(s0, SignedQr { large: true, mode: 3, nframes: 0, ..q }), AppState::ShowQR), true, MenuEffect::NoEffect)
    }
}

/// The signed QR on full screen: a tap opens the save popup, or with
/// manual frames first steps through every frame; with nothing signed it
/// returns home.
pub open spec fn show_qr_touch(s0: UiState, s1: UiState, out: Option<(bool, MenuEffect)>) -> bool {
    let q = s0.qr;
    if q.len > 0 {
        if q.manual_frames && q.nframes > 1 && q.frame + 1 < q.nframes {
            step_is(s1, out, with_qr(s0, SignedQr { frame: (q.frame + 1) as u8, ..q }), true, MenuEffect::NoEffect)
        } else {
            step_is(s1, out, goto(s0, AppState::ShowQrPopup), true, MenuEffect::NoEffect)
        }
    } else {
        home_is(s1, out, s0, MenuEffect::NoEffect)
    }
}

/// What a touch does on the menu screens. Screens that are not menu
/// screens are left alone and answered `None`; otherwise the answer says
/// whether to redraw and what work is left to the caller.
pub open spec fn menu_touch_spec(s0: UiState, ctx: MenuContext, hit: TouchHit, s1: UiState, out: Option<(bool, MenuEffect)>) -> bool {
    match s0.app.state {
        AppState::MainMenu => main_grid_touch(s0, hit, s1, out),
        AppState::SeedsMenu => {
            if hit.is_back {
                home_is(s1, out, s0, MenuEffect::NoEffect)
            } else {
                step_is(s1, out, goto(s0, AppState::SeedList), true, MenuEffect::NoEffect)
            }
        },
        AppState::ToolsMenu => tools_touch(s0, hit, s1, out),
        AppState::SeedToolsMenu => seed_tools_touch(s0, ctx, hit, s1, out),
        AppState::ImportExportChoice => import_export_touch(s0, ctx, hit, s1, out),
        AppState::ImportMenu => import_touch(s0, hit, s1, out),
        AppState::SingleSigMenu => single_sig_touch(s0, ctx, hit, s1, out),
        AppState::MultisigMenu => multisig_touch(s0, hit, s1, out),
        AppState::IconBrowser { page } => {
            if hit.is_back {
                step_is(s1, out, goto(s0, AppState::ToolsMenu), true, MenuEffect::NoEffect)
            } else {
                step_is(s1, out, goto(s0, AppState::IconBrowser { page: icon_page_after(page, hit.nav, ctx.icon_count) }), true, MenuEffect::NoEffect)
            }
        },
        AppState::DiceRoll => dice_touch(s0, ctx, hit, s1, out),
        AppState::ChooseWordCount { action } => word_count_touch(s0, action, hit, s1, out),
        AppState::ShowQrFrameChoice => frame_choice_touch(s0, hit, s1, out),
        AppState::ShowQrDensityChoice => density_choice_touch(s0, hit, s1, out),
        AppState::ShowQR => show_qr_touch(s0, s1, out),
        AppState::CovBackupName => {
            if hit.is_back {
                home_is(s1, out, s0, MenuEffect::ClearCovName)
            } else {
                step_is(s1, out, s0, false, MenuEffect::NameKeyboard)
            }
        },
        AppState::Rejected | AppState::ViewSeed => home_is(s1, out, s0, MenuEffect::NoEffect),
        _ => s1 == s0 && out.is_none(),
    }
}

/// Handle a touch on a menu screen (see [`menu_touch_spec`]).
pub fn handle_menu_touch(s: &mut UiState, ctx: MenuContext, hit: TouchHit) -> (out: Option<(bool, MenuEffect)>)
    requires
        old(s).wf(),
        old(s).app.state is IconBrowser && !hit.is_back && hit.nav > 0
            ==> old(s).app.state->IconBrowser_page < u16::MAX,
        old(s).app.state == AppState::ShowQR && old(s).qr.len > 0 && old(s).qr.manual_frames
            && old(s).qr.nframes > 1 ==> old(s).qr.frame < u8::MAX,
    ensures
        menu_touch_spec(*old(s), ctx, hit, *final(s), out),
        final(s).wf(),
{
    match s.app.state {
        AppState::MainMenu => {
            if let Some(idx) = hit.grid {
                if idx < 4 && idx < s.app.menu.count {
                    s.app.menu.cursor = idx;
                    let _ = s.app.handle_boot(ButtonEvent::LongPress);
                    return Some((true, MenuEffect::NoEffect));
                }
            }
            Some((false, MenuEffect::NoEffect))
        },
        AppState::SeedsMenu => {
            if hit.is_back {
                s.app.go_main_menu();
            } else {
                s.app.state = AppState::SeedList;
            }
            Some((true, MenuEffect::NoEffect))
        },
        AppState::ToolsMenu => {
            if hit.is_back {
                s.menus.tools.reset();
                s.app.go_main_menu();
                return Some((true, MenuEffect::NoEffect));
            }
            match list_item(&s.menus.tools, hit.list) {
                Some(item) => {
                    if item == 0 {
                        s.menus.seed_tools.reset();
                        s.app.state = AppState::SeedToolsMenu;
                    } else if item == 1 {
                        s.app.state = AppState::ImportExportChoice;
                    } else if item == 2 {
                        s.menus.single_sig.reset();
                        s.app.state = AppState::SingleSigMenu;
                    } else if item == 3 {
                        s.menus.multisig.reset();
                        s.app.state = AppState::MultisigMenu;
                    }
                    Some((true, MenuEffect::NoEffect))
                },
                None => Some((false, MenuEffect::NoEffect)),
            }
        },
        AppState::SeedToolsMenu => {
            if hit.is_back {
                s.menus.seed_tools.reset();
                s.app.state = AppState::ToolsMenu;
                return Some((true, MenuEffect::NoEffect));
            }
            if hit.page_up && s.menus.seed_tools.can_page_up() {
                let _ = s.menus.seed_tools.page_up();
                return Some((true, MenuEffect::NoEffect));
            }
            if hit.page_down && s.menus.seed_tools.can_page_down() {
                let _ = s.menus.seed_tools.page_down();
                return Some((true, MenuEffect::NoEffect));
            }
            match list_item(&s.menus.seed_tools, hit.list) {
                Some(item) => {
                    let mut effect = MenuEffect::NoEffect;
                    if item <= 2 {
                        s.app.state = AppState::ChooseWordCount { action: item };
                    } else if item == 3 {
                        if ctx.seed_loaded {
                            effect = MenuEffect::ShowAddress { derive: !ctx.pubkeys_cached };
                            s.app.state = AppState::ShowAddress;
                        } else {
                            effect = MenuEffect::NeedSeedFirst;
                        }
                    } else if item == 4 {
                        if ctx.seed_loaded {
                            s.app.state = AppState::ChooseWordCount { action: 4 };
                        } else {
                            effect = MenuEffect::NeedSeedFirst;
                        }
                    } else if item == 5 {
                        s.app.state = AppState::ChooseWordCount { action: 3 };
                    }
                    Some((true, effect))
                },
                None => Some((false, MenuEffect::NoEffect)),
            }
        },
        AppState::ImportExportChoice => {
            if hit.is_back {
                s.app.state = AppState::ToolsMenu;
                Some((true, MenuEffect::NoEffect))
            } else if within(hit.x, 22, 152) && within(hit.y, 100, 155) {
                s.menus.import.reset();
                s.app.state = AppState::ImportMenu;
                Some((true, MenuEffect::NoEffect))
            } else if within(hit.x, 168, 298) && within(hit.y, 100, 155) {
                if ctx.seed_loaded {
                    s.menus.export.reset();
                    s.app.state = AppState::ExportChoice;
                    Some((true, MenuEffect::NoEffect))
                } else {
                    Some((true, MenuEffect::NeedSeedFirst))
                }
            } else {
                Some((false, MenuEffect::NoEffect))
            }
        },
        AppState::ImportMenu => {
            if hit.is_back {
                s.menus.import.reset();
                s.app.state = AppState::ImportExportChoice;
                return Some((true, MenuEffect::NoEffect));
            }
            match list_item(&s.menus.import, hit.list) {
                Some(item) => {
                    if item == 0 {
                        s.menus.sd_import.reset();
                        s.app.state = AppState::SdImportMenu;
                        Some((true, MenuEffect::NoEffect))
                    } else if item == 1 {
                        Some((true, MenuEffect::ScanStegoImages))
                    } else if item == 2 {
                        s.app.state = AppState::ImportPrivKey;
                        Some((true, MenuEffect::ClearHexInput))
                    } else if item == 3 {
                        Some((true, MenuEffect::ScanCovenantFiles))
                    } else {
                        Some((true, MenuEffect::NoEffect))
                    }
                },
                None => Some((false, MenuEffect::NoEffect)),
            }
        },
        AppState::SingleSigMenu => {
            if hit.is_back {
                s.menus.single_sig.reset();
                s.app.state = AppState::ToolsMenu;
                return Some((true, MenuEffect::NoEffect));
            }
            match list_item(&s.menus.single_sig, hit.list) {
                Some(item) => {
                    if item == 0 {
                        s.app.state = AppState::SignTxGuide;
                        if ctx.seed_loaded && !ctx.pubkeys_cached {
                            Some((true, MenuEffect::DeriveForSigning))
                        } else {
                            Some((true, MenuEffect::NoEffect))
                        }
                    } else if 1 <= item && item <= 3 && !ctx.seed_loaded {
                        Some((true, MenuEffect::NoSeedLoaded))
                    } else if item == 1 {
                        s.app.state = AppState::SignMsgChoice;
                        Some((true, MenuEffect::StartSignMessage))
                    } else if item == 2 {
                        s.app.state = AppState::CommitRevealType;
                        Some((true, MenuEffect::StartCommitSecret))
                    } else if item == 3 {
                        s.app.state = AppState::DecryptSecretScan;
                        Some((true, MenuEffect::StartDecryptSecret))
                    } else {
                        Some((true, MenuEffect::NoEffect))
                    }
                },
                None => Some((false, MenuEffect::NoEffect)),
            }
        },
        AppState::MultisigMenu => {
            if hit.is_back {
                s.menus.multisig.reset();
                s.app.state = AppState::ToolsMenu;
                return Some((true, MenuEffect::NoEffect));
            }
            match list_item(&s.menus.multisig, hit.list) {
                Some(item) => {
                    if item == 0 {
                        s.app.state = AppState::MultisigChooseMN;
                        Some((true, MenuEffect::StartMultisig))
                    } else {
                        Some((true, MenuEffect::NoEffect))
                    }
                },
                None => Some((false, MenuEffect::NoEffect)),
            }
        },
        AppState::IconBrowser { page } => {
            if hit.is_back {
                s.app.state = AppState::ToolsMenu;
            } else if hit.nav < 0 && page > 0 {
                s.app.state = AppState::IconBrowser { page: page - 1 };
            } else if hit.nav > 0 {
                let max_page: u32 = (ctx.icon_count as u32 + 7) / 8;
                if (page as u32) + 1 < max_page {
                    s.app.state = AppState::IconBrowser { page: page + 1 };
                }
            }
            Some((true, MenuEffect::NoEffect))
        },
        AppState::DiceRoll => {
            if hit.is_back {
                s.app.state = AppState::ToolsMenu;
                return Some((true, MenuEffect::CancelDice));
            }
            match die_at(hit.x, hit.y) {
                Some(v) => Some((false, MenuEffect::DiceRoll { value: v })),
                None => {
                    if within(hit.x, 100, 220) && hit.y >= 200 && ctx.dice_count > 0 {
                        Some((false, MenuEffect::DiceUndo))
                    } else {
                        Some((false, MenuEffect::NoEffect))
                    }
                },
            }
        },
        AppState::ChooseWordCount { action } => {
            if hit.is_back {
                s.app.state = AppState::SeedToolsMenu;
                return Some((true, MenuEffect::NoEffect));
            }
            let wc = word_count_at(hit.x, hit.y);
            if wc == 0 {
                return Some((false, MenuEffect::NoEffect));
            }
            if action == 0 {
                Some((true, MenuEffect::GenerateSeed { word_count: wc }))
            } else if action == 1 {
                s.app.state = AppState::DiceRoll;
                Some((true, MenuEffect::StartDice { word_count: wc }))
            } else if action == 2 {
                s.app.state = AppState::ImportWord { word_idx: 0, word_count: wc };
                Some((true, MenuEffect::StartWordEntry))
            } else if action == 3 {
                s.app.state = AppState::CalcLastWord { word_idx: 0, word_count: wc };
                Some((true, MenuEffect::StartWordEntry))
            } else if action == 4 {
                s.app.state = AppState::Bip85Index { word_count: wc };
                Some((true, MenuEffect::StartBip85 { word_count: wc }))
            } else {
                Some((true, MenuEffect::NoEffect))
            }
        },
        AppState::ShowQrFrameChoice => {
            if hit.is_back {
                s.qr.nframes = 0;
                s.qr.large = false;
                s.qr.mode = 0;
                s.qr.via_density = false;
                s.app.go_main_menu();
            } else if hit.x < 160 {
                s.qr.large = false;
                s.qr.mode = 0;
                s.qr.nframes = 0;
                s.qr.via_density = false;
                s.app.state = AppState::ShowQR;
            } else {
                s.qr.nframes = 0;
                s.qr.via_density = true;
                s.app.state = AppState::ShowQrDensityChoice;
            }
            Some((true, MenuEffect::NoEffect))
        },
        AppState::ShowQrDensityChoice => {
            if hit.is_back {
                s.qr.nframes = 0;
                s.qr.large = false;
                s.qr.mode = 0;
                s.qr.via_density = false;
                s.app.state = AppState::ShowQrFrameChoice;
            } else if hit.x < 160 {
                s.qr.large = false;
                s.qr.mode = 0;
                s.qr.nframes = 0;
                s.app.state = AppState::ShowQR;
            } else {
                s.qr.large = true;
                s.qr.mode = 3;
                s.qr.nframes = 0;
                s.app.state = AppState::ShowQR;
            }
            Some((true, MenuEffect::NoEffect))
        },
        AppState::ShowQR => {
            if s.qr.len > 0 {
                if s.qr.manual_frames && s.qr.nframes > 1 {
                    let next = s.qr.frame + 1;
                    if next >= s.qr.nframes {
                        s.app.state = AppState::ShowQrPopup;
                    } else {
                        s.qr.frame = next;
                    }
                } else {
                    s.app.state = AppState::ShowQrPopup;
                }
            } else {
                s.app.go_main_menu();
            }
            Some((true, MenuEffect::NoEffect))
        },
        AppState::CovBackupName => {
            if hit.is_back {
                s.app.go_main_menu();
                Some((true, MenuEffect::ClearCovName))
            } else {
                Some((false, MenuEffect::NameKeyboard))
            }
        },
        AppState::Rejected | AppState::ViewSeed => {
            s.app.go_main_menu();
            Some((true, MenuEffect::NoEffect))
        },
        _ => None,
    }
}

// ─── After the caller's work ───────────────────────────────────────

/// The word count of a dice seed: 24 words from 198 rolls on, 12 below.
pub open spec fn dice_word_count_spec(target: u16) -> u8 {
    if target >= 198 { 24 } else { 12 }
}

/// Once every dice roll is in: the seed's word count, and the passphrase
/// screen next.
pub fn dice_complete(app: &mut WalletApp, target: u16) -> (wc: u8)
    ensures
        wc == dice_word_count_spec(target),
        *final(app) == (WalletApp { state: AppState::PassphraseEntry, ..*old(app) }),
{
    app.state = AppState::PassphraseEntry;
    if target >= 198 { 24 } else { 12 }
}

/// Bytes of entropy behind a new seed: 16 for 12 words, 32 otherwise.
pub fn seed_entropy_len(word_count: u8) -> (n: usize)
    ensures
        n == if word_count == 12 { 16usize } else { 32usize },
{
    if word_count == 12 { 16 } else { 32 }
}

/// After collecting entropy for a new seed: the passphrase screen when the
/// camera delivered frames, otherwise back to the tools menu.
pub fn seed_generated(app: &mut WalletApp, got_entropy: bool)
    ensures
        *final(app) == (WalletApp {
            state: if got_entropy { AppState::PassphraseEntry } else { AppState::ToolsMenu },
            ..*old(app)
        }),
{
    if got_entropy {
        app.state = AppState::PassphraseEntry;
    } else {
        app.state = AppState::ToolsMenu;
    }
}

/// The screen after an SD scan asked for by the import menu, or `None` to
/// refuse: images need a readable card with at least one image, covenant
/// backups at least one file (a card error counts as none found).
pub open spec fn import_scan_next_spec(effect: MenuEffect, scan_ok: bool, found: u8) -> Option<AppState> {
    match effect {
        MenuEffect::ScanStegoImages => if scan_ok && found > 0 { Some(AppState::StegoImportPick) } else { None },
        MenuEffect::ScanCovenantFiles => if found > 0 { Some(AppState::SdFileList) } else { None },
        _ => None,
    }
}

/// The screen after an SD scan of the import menu (see [`import_scan_next_spec`]).
pub fn import_scan_next(effect: MenuEffect, scan_ok: bool, found: u8) -> (next: Option<AppState>)
    ensures
        next == import_scan_next_spec(effect, scan_ok, found),
{
    match effect {
        MenuEffect::ScanStegoImages => if scan_ok && found > 0 { Some(AppState::StegoImportPick) } else { None },
        MenuEffect::ScanCovenantFiles => if found > 0 { Some(AppState::SdFileList) } else { None },
        _ => None,
    }
}

} // verus!
