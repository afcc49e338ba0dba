//! Touch handling of the settings screens: the settings menu, display
//! brightness, speaker volume, the SD card tools, the about screen and the
//! camera tuning overlay; and the hold-to-confirm guard of card formatting.

use vstd::prelude::*;
use crate::input::AppState;
use crate::screens::{TouchHit, SubMenus, CameraTune, UiState, in_span, within, list_item,
    list_item_spec, reset_menu, goto, with_menus, went_home};
use crate::menu_touch::{paged_up, paged_down, has_next_page};

verus! {

/// The two boards the firmware is built for. They differ in the settings
/// they offer: the camera tuning overlay, or the speaker volume.
#[derive(Debug, Clone, Copy, PartialEq, Eq, Structural)]
pub enum Board {
    Waveshare,
    M5Stack,
}

/// What the settings screens read besides the interface state.
#[derive(Clone, Copy)]
pub struct SettingsContext {
    pub board: Board,
    /// An SD card was detected at boot.
    pub card_present: bool,
}

/// Work left to the caller after a touch on a settings screen.
#[derive(Debug, Clone, Copy, PartialEq, Eq, Structural)]
pub enum SettingsEffect {
    /// Nothing to do.
    NoEffect,
    /// Apply the new brightness and redraw its bar.
    SetBrightness { level: u8 },
    /// Apply the new volume and redraw its bar.
    SetVolume { level: u8 },
    /// Ask for the hold-to-confirm gesture, then format the card.
    ConfirmFormat,
    /// Write, read back and delete a test file on the card.
    TestCard,
    /// Redraw the parameter slider, with a click when a button moved it.
    SliderMoved { click: bool },
    /// Click and redraw the overlay for the newly selected parameter.
    ParamSelected,
    /// Click: the exit button of the camera tuning was pressed.
    Click,
}

// ─── Level bars ────────────────────────────────────────────────────

/// A level after a tap on its bar screen: the minus button lowers it by 25,
/// the plus button raises it by 25 (both saturating), a tap on the bar sets
/// it in proportion to the position along the bar (x from 70 to 250).
pub open spec fn level_after_spec(level: u8, x: u16, y: u16) -> Option<u8> {
    if x <= 68 && in_span(y, 70, 120) {
        Some(if level >= 25 { (level - 25) as u8 } else { 0 })
    } else if x >= 252 && in_span(y, 70, 120) {
        Some(if level + 25 <= 255 { (level + 25) as u8 } else { 255 })
    } else if in_span(x, 70, 250) && in_span(y, 75, 115) {
        Some(((x - 70) * 255 / 180) as u8)
    } else {
        None
    }
}

/// The minus button never raises a level and the plus button never lowers
/// it, each moving it by 25 where there is room and stopping at 0 and 255;
/// along the bar the level grows with x, from 0 at its left end to 255 at
/// its right end.
pub proof fn lemma_level_bar_laws(level: u8, y: u16, x1: u16, x2: u16)
    ensures
        in_span(y, 70, 120) ==> ({
            let l = level_after_spec(level, 0, y);
            l is Some && l.unwrap() <= level && (level >= 25 ==> level - l.unwrap() == 25)
                && (level < 25 ==> l.unwrap() == 0)
        }),
        in_span(y, 70, 120) ==> ({
            let l = level_after_spec(level, 300, y);
            l is Some && l.unwrap() >= level && (level <= 230 ==> l.unwrap() - level == 25)
                && (level > 230 ==> l.unwrap() == 255)
        }),
        in_span(y, 75, 115) ==> level_after_spec(level, 70, y) == Some(0u8)
            && level_after_spec(level, 250, y) == Some(255u8),
        in_span(y, 75, 115) && 70 <= x1 <= x2 <= 250 ==> ({
            let l1 = level_after_spec(level, x1, y);
            let l2 = level_after_spec(level, x2, y);
            l1 is Some && l2 is Some && l1.unwrap() <= l2.unwrap()
        }),
{
    if 70 <= x1 <= x2 <= 250 {
        let a: int = x1 - 70;
        let b: int = x2 - 70;
        assert(a * 255 / 180 <= b * 255 / 180 && b * 255 / 180 <= 255) by (nonlinear_arith)
            requires 0 <= a <= b <= 180;
    }
}

/// A level after a tap on its bar screen (see [`level_after_spec`]).
pub fn level_after(level: u8, x: u16, y: u16) -> (l: Option<u8>)
    ensures
        l == level_after_spec(level, x, y),
{
    if x <= 68 && within(y, 70, 120) {
        Some(level.saturating_sub(25))
    } else if x >= 252 && within(y, 70, 120) {
        Some(level.saturating_add(25))
    } else if within(x, 70, 250) && within(y, 75, 115) {
        let pct: u32 = ((x as u32) - 70) * 255 / 180;
        Some(pct as u8)
    } else {
        None
    }
}

// ─── Camera tuning ─────────────────────────────────────────────────

/// The parameter button under a point of the overlay's right panel: three
/// rows (y 38..=82, 85..=129, 132..=176) of two columns split at x = 259.
pub open spec fn param_at_spec(x: u16, y: u16) -> Option<u8> {
    let col: int = if x < 259 { 0 } else { 1 };
    if y <= 82 {
        Some((col) as u8)
    } else if in_span(y, 85, 129) {
        Some((2 + col) as u8)
    } else if in_span(y, 132, 176) {
        Some((4 + col) as u8)
    } else {
        None
    }
}

/// The slider value under a point of the slider track: x from 70 to 250
/// maps onto 0..=255.
pub open spec fn slider_value(x: u16) -> u8 {
    let c: int = if x < 70 { 0 } else if x > 250 { 180 } else { x - 70 };
    (c * 255 / 180) as u8
}

/// The camera tuning after a tap: the exit button, the bottom strip (minus,
/// plus, slider track; tested before the panel so the enlarged plus button
/// wins where they overlap) and the parameter panel.
pub open spec fn cam_tune_touch(s0: UiState, hit: TouchHit, s1: UiState, out: Option<(bool, SettingsEffect)>) -> bool {
    let c = s0.cam;
    let p = c.param as int;
    if hit.is_back || (in_span(hit.x, 198, 320) && hit.y <= 36) {
        s1 == goto(UiState { cam: CameraTune { active: false, ..c }, ..s0 }, AppState::SettingsMenu)
            && out == Some((true, if hit.is_back { SettingsEffect::NoEffect } else { SettingsEffect::Click }))
    } else if hit.y >= 190 {
        let v = c.vals[p];
        let (nv, click) = if hit.x <= 70 {
            ((if v >= 4 { (v - 4) as u8 } else { 0u8 }), true)
        } else if hit.x >= 250 {
            ((if v + 4 <= 255 { (v + 4) as u8 } else { 255u8 }), true)
        } else {
            (slider_value(hit.x), false)
        };
        s1 == (UiState { cam: CameraTune { vals: s1.cam.vals, dirty: true, ..c }, ..s0 })
            && s1.cam.vals@ == c.vals@.update(p, nv)
            && out == Some((false, SettingsEffect::SliderMoved { click: click }))
    } else if hit.x >= 198 && hit.y >= 38 {
        match param_at_spec(hit.x, hit.y) {
            Some(idx) => if idx != c.param {
                s1 == (UiState { cam: CameraTune { param: idx, ..c }, ..s0 })
                    && out == Some((false, SettingsEffect::ParamSelected))
            } else {
                s1 == s0 && out == Some((false, SettingsEffect::NoEffect))
            },
            None => s1 == s0 && out == Some((false, SettingsEffect::NoEffect)),
        }
    } else {
        s1 == s0 && out == Some((false, SettingsEffect::NoEffect))
    }
}

// ─── Screen by screen ──────────────────────────────────────────────

/// An item of the settings menu: display, then camera tuning (Waveshare) or
/// volume (M5Stack), SD card, about.
pub open spec fn settings_item(s0: UiState, board: Board, item: u8) -> UiState {
    if item == 0 {
        goto(s0, AppState::DisplaySettings)
    } else if item == 1 {
        if board == Board::Waveshare {
            goto(UiState { cam: CameraTune { active: true, dirty: true, ..s0.cam }, ..s0 }, AppState::CameraSettings)
        } else {
            goto(s0, AppState::AudioSettings)
        }
    } else if item == 2 {
        goto(s0, AppState::SdCardSettings)
    } else if item == 3 {
        goto(s0, AppState::About)
    } else {
        s0
    }
}

/// What a touch does on the settings screens. Other screens, and the screen
/// of the other board, are left alone and answered `None`.
pub open spec fn settings_touch_spec(s0: UiState, ctx: SettingsContext, hit: TouchHit, s1: UiState, out: Option<(bool, SettingsEffect)>) -> bool {
    let m = s0.menus;
    match s0.app.state {
        AppState::SettingsMenu => {
            if hit.is_back {
                went_home(with_menus(s0, SubMenus { settings: reset_menu(m.settings), ..m }), s1)
                    && out == Some((true, SettingsEffect::NoEffect))
            } else if hit.page_up && m.settings.scroll > 0 {
                s1 == with_menus(s0, SubMenus { settings: paged_up(m.settings), ..m })
                    && out == Some((true, SettingsEffect::NoEffect))
            } else if hit.page_down && has_next_page(m.settings) {
                s1 == with_menus(s0, SubMenus { settings: paged_down(m.settings), ..m })
                    && out == Some((true, SettingsEffect::NoEffect))
            } else {
                match list_item_spec(m.settings, hit.list) {
                    Some(item) => s1 == settings_item(s0, ctx.board, item) && out == Some((true, SettingsEffect::NoEffect)),
                    None => s1 == s0 && out == Some((false, SettingsEffect::NoEffect)),
                }
            }
        },
        AppState::DisplaySettings => {
            if hit.is_back {
                s1 == goto(s0, AppState::SettingsMenu) && out == Some((true, SettingsEffect::NoEffect))
            } else {
                match level_after_spec(s0.brightness, hit.x, hit.y) {
                    Some(l) => s1 == (UiState { brightness: l, ..s0 }) && out == Some((false, SettingsEffect::SetBrightness { level: l })),
                    None => s1 == s0 && out == Some((false, SettingsEffect::NoEffect)),
                }
            }
        },
        AppState::AudioSettings => {
            if ctx.board != Board::M5Stack {
                s1 == s0 && out.is_none()
            } else if hit.is_back {
                s1 == goto(s0, AppState::SettingsMenu) && out == Some((true, SettingsEffect::NoEffect))
            } else {
                match level_after_spec(s0.volume, hit.x, hit.y) {
                    Some(l) => s1 == (UiState { volume: l, ..s0 }) && out == Some((false, SettingsEffect::SetVolume { level: l })),
                    None => s1 == s0 && out == Some((false, SettingsEffect::NoEffect)),
                }
            }
        },
        AppState::SdCardSettings => {
            if hit.is_back {
                s1 == goto(s0, AppState::SettingsMenu) && out == Some((true, SettingsEffect::NoEffect))
            } else if in_span(hit.x, 10, 155) && in_span(hit.y, 100, 130) {
                s1 == s0 && out == Some((true, if ctx.card_present { SettingsEffect::ConfirmFormat } else { SettingsEffect::NoEffect }))
            } else if in_span(hit.x, 165, 310) && in_span(hit.y, 100, 130) {
                s1 == s0 && out == Some((true, if ctx.card_present { SettingsEffect::TestCard } else { SettingsEffect::NoEffect }))
            } else {
                s1 == s0 && out == Some((true, SettingsEffect::NoEffect))
            }
        },
        AppState::About => s1 == goto(s0, AppState::SettingsMenu) && out == Some((true, SettingsEffect::NoEffect)),
        AppState::CameraSettings => {
            if ctx.board != Board::Waveshare {
                s1 == s0 && out.is_none()
            } else {
                cam_tune_touch(s0, hit, s1, out)
            }
        },
        _ => s1 == s0 && out.is_none(),
    }
}

/// Handle a touch on a settings screen (see [`settings_touch_spec`]).
pub fn handle_settings_touch(s: &mut UiState, ctx: SettingsContext, hit: TouchHit) -> (out: Option<(bool, SettingsEffect)>)
    requires
        old(s).wf(),
    ensures
        settings_touch_spec(*old(s), ctx, hit, *final(s), out),
        final(s).wf(),
{
    match s.app.state {
        AppState::SettingsMenu => {
            if hit.is_back {
                s.menus.settings.reset();
                s.app.go_main_menu();
                return Some((true, SettingsEffect::NoEffect));
            }
            if hit.page_up && s.menus.settings.can_page_up() {
                let _ = s.menus.settings.page_up();
                return Some((true, SettingsEffect::NoEffect));
            }
            if hit.page_down && s.menus.settings.can_page_down() {
                let _ = s.menus.settings.page_down();
                return Some((true, SettingsEffect::NoEffect));
            }
            match list_item(&s.menus.settings, hit.list) {
                Some(item) => {
                    if item == 0 {
                        s.app.state = AppState::DisplaySettings;
                    } else if item == 1 {
                        match ctx.board {
                            Board::Waveshare => {
                                s.cam.active = true;
                                s.cam.dirty = true;
                                s.app.state = AppState::CameraSettings;
                            },
                            Board::M5Stack => {
                                s.app.state = AppState::AudioSettings;
                            },
                        }
                    } else if item == 2 {
                        s.app.state = AppState::SdCardSettings;
                    } else if item == 3 {
                        s.app.state = AppState::About;
                    }
                    Some((true, SettingsEffect::NoEffect))
                },
                None => Some((false, SettingsEffect::NoEffect)),
            }
        },
        AppState::DisplaySettings => {
            if hit.is_back {
                s.app.state = AppState::SettingsMenu;
                return Some((true, SettingsEffect::NoEffect));
            }
            match level_after(s.brightness, hit.x, hit.y) {
                Some(l) => {
                    s.brightness = l;
                    Some((false, SettingsEffect::SetBrightness { level: l }))
                },
                None => Some((false, SettingsEffect::NoEffect)),
            }
        },
        AppState::AudioSettings => {
            if ctx.board != Board::M5Stack {
                return None;
            }
            if hit.is_back {
                s.app.state = AppState::SettingsMenu;
                return Some((true, SettingsEffect::NoEffect));
            }
            match level_after(s.volume, hit.x, hit.y) {
                Some(l) => {
                    s.volume = l;
                    Some((false, SettingsEffect::SetVolume { level: l }))
                },
                None => Some((false, SettingsEffect::NoEffect)),
            }
        },
        AppState::SdCardSettings => {
            if hit.is_back {
                s.app.state = AppState::SettingsMenu;
                Some((true, SettingsEffect::NoEffect))
            } else if within(hit.x, 10, 155) && within(hit.y, 100, 130) {
                Some((true, if ctx.card_present { SettingsEffect::ConfirmFormat } else { SettingsEffect::NoEffect }))
            } else if within(hit.x, 165, 310) && within(hit.y, 100, 130) {
                Some((true, if ctx.card_present { SettingsEffect::TestCard } else { SettingsEffect::NoEffect }))
            } else {
                Some((true, SettingsEffect::NoEffect))
            }
        },
        AppState::About => {
            s.app.state = AppState::SettingsMenu;
            Some((true, SettingsEffect::NoEffect))
        },
        AppState::CameraSettings => {
            if ctx.board != Board::Waveshare {
                return None;
            }
            Some(cam_tune_tap(s, hit))
        },
        _ => None,
    }
}

/// The camera tuning overlay's share of [`handle_settings_touch`].
fn cam_tune_tap(s: &mut UiState, hit: TouchHit) -> (out: (bool, SettingsEffect))
    requires
        old(s).wf(),
    ensures
        cam_tune_touch(*old(s), hit, *final(s), Some(out)),
        final(s).wf(),
{
    if hit.is_back || (within(hit.x, 198, 320) && hit.y <= 36) {
        s.cam.active = false;
        s.app.state = AppState::SettingsMenu;
        return (true, if hit.is_back { SettingsEffect::NoEffect } else { SettingsEffect::Click });
    }
    let p = s.cam.param as usize;
    if hit.y >= 190 {
        let v = s.cam.vals[p];
        let (nv, click) = if hit.x <= 70 {
            (v.saturating_sub(4), true)
        } else if hit.x >= 250 {
            (v.saturating_add(4), true)
        } else {
            let clamped: u32 = if hit.x < 70 { 0 } else if hit.x > 250 { 180 } else { (hit.x - 70) as u32 };
            ((clamped * 255 / 180) as u8, false)
        };
        s.cam.vals[p] = nv;
        s.cam.dirty = true;
        return (false, SettingsEffect::SliderMoved { click: click });
    }
    if hit.x >= 198 && hit.y >= 38 {
        let col: u8 = if hit.x < 259 { 0 } else { 1 };
        let row: Option<u8> = if hit.y <= 82 {
            Some(0)
        } else if within(hit.y, 85, 129) {
            Some(1)
        } else if within(hit.y, 132, 176) {
            Some(2)
        } else {
            None
        };
        if let Some(r) = row {
            let idx = r * 2 + col;
            if idx != s.cam.param {
                s.cam.param = idx;
                return (false, SettingsEffect::ParamSelected);
            }
        }
    }
    (false, SettingsEffect::NoEffect)
}

} // verus!
