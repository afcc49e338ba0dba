//! The interface state that the touch screens act on, and the hit results
//! that the touch loop hands to them.
//!
//! The touch loop knows the layout of the current screen: it reports the
//! touched point together with the layout zones (back corner, grid cell,
//! list row, paging arrows) that contain it. Screens with fixed button
//! rectangles test the point themselves.

use vstd::prelude::*;
use crate::input::{AppState, Menu, WalletApp, MAX_VISIBLE, is_main_menu};

verus! {

/// A touch as the touch loop reports it.
#[derive(Clone, Copy)]
pub struct TouchHit {
    pub x: u16,
    pub y: u16,
    /// The point lies in the back-button corner.
    pub is_back: bool,
    /// The main-menu grid cell under the point (0..4), if any.
    pub grid: Option<u8>,
    /// The list row under the point (0..4), if any.
    pub list: Option<u8>,
    /// The point lies in the page-up zone.
    pub page_up: bool,
    /// The point lies in the page-down zone.
    pub page_down: bool,
    /// The icon-browser arrow under the point: negative for back, positive
    /// for forward, zero for none.
    pub nav: i8,
}

/// The list menus of the tool and settings screens.
pub struct SubMenus {
    pub tools: Menu,
    pub seed_tools: Menu,
    pub import: Menu,
    pub export: Menu,
    pub single_sig: Menu,
    pub multisig: Menu,
    pub sd_import: Menu,
    pub settings: Menu,
}

impl SubMenus {
    /// Every menu is consistent.
    pub open spec fn wf(&self) -> bool {
        &&& self.tools.wf()
        &&& self.seed_tools.wf()
        &&& self.import.wf()
        &&& self.export.wf()
        &&& self.single_sig.wf()
        &&& self.multisig.wf()
        &&& self.sd_import.wf()
        &&& self.settings.wf()
    }
}

/// How the signed response is shown as QR codes.
#[derive(Clone, Copy)]
pub struct SignedQr {
    /// Length of the signed response in bytes.
    pub len: usize,
    /// Number of frames it is split into (0 until framed).
    pub nframes: u8,
    /// The frame on screen.
    pub frame: u8,
    /// Small frames for receivers with weak cameras.
    pub large: bool,
    /// Framing mode (0 standard, 3 small frames).
    pub mode: u8,
    /// The framing was chosen through the density screen.
    pub via_density: bool,
    /// Frames advance by tapping instead of cycling.
    pub manual_frames: bool,
}

/// Number of camera parameters that can be tuned.
pub const CAM_PARAMS: usize = 6;

/// The camera tuning overlay.
pub struct CameraTune {
    /// The overlay is on screen (the camera loop skips QR decoding).
    pub active: bool,
    /// The values changed and must be written to the sensor.
    pub dirty: bool,
    /// The selected parameter.
    pub param: u8,
    /// The parameter values.
    pub vals: [u8; 6],
}

/// Everything the touch screens read and change.
pub struct UiState {
    pub app: WalletApp,
    pub menus: SubMenus,
    pub qr: SignedQr,
    /// Display brightness.
    pub brightness: u8,
    /// Speaker volume.
    pub volume: u8,
    pub cam: CameraTune,
}

impl UiState {
    /// The menus are consistent and the selected camera parameter exists.
    pub open spec fn wf(&self) -> bool {
        &&& self.menus.wf()
        &&& self.cam.param < CAM_PARAMS
    }
}

/// `v` lies in `lo..=hi`.
pub open spec fn in_span(v: u16, lo: u16, hi: u16) -> bool {
    lo <= v && v <= hi
}

/// `v` lies in `lo..=hi`.
pub fn within(v: u16, lo: u16, hi: u16) -> (b: bool)
    ensures
        b == in_span(v, lo, hi),
{
    lo <= v && v <= hi
}

/// The item under a tapped list row: the row counted from the first
/// visible item, if that item exists.
pub open spec fn list_item_spec(m: Menu, row: Option<u8>) -> Option<u8> {
    match row {
        Some(r) => if r < MAX_VISIBLE && m.scroll + r < m.count { Some((m.scroll + r) as u8) } else { None },
        None => None,
    }
}

/// The item under a tapped list row (see [`list_item_spec`]).
pub fn list_item(m: &Menu, row: Option<u8>) -> (item: Option<u8>)
    requires
        m.wf(),
    ensures
        item == list_item_spec(*m, row),
{
    match row {
        Some(r) => {
            if r < MAX_VISIBLE {
                let abs = m.visible_to_absolute(r);
                if abs < m.count { Some(abs) } else { None }
            } else {
                None
            }
        },
        None => None,
    }
}

/// A menu with its cursor and scroll back on the first item.
pub open spec fn reset_menu(m: Menu) -> Menu {
    Menu { cursor: 0, scroll: 0, ..m }
}

/// `s` with the application moved to `st`.
pub open spec fn goto(s: UiState, st: AppState) -> UiState {
    UiState { app: WalletApp { state: st, ..s.app }, ..s }
}

/// `s` with other menus.
pub open spec fn with_menus(s: UiState, menus: SubMenus) -> UiState {
    UiState { menus: menus, ..s }
}

/// `s1` is `s0` returned to the main menu: main-menu state, a fresh main
/// menu, everything else unchanged.
pub open spec fn went_home(s0: UiState, s1: UiState) -> bool {
    &&& s1 == UiState { app: s1.app, ..s0 }
    &&& s1.app.state == AppState::MainMenu
    &&& is_main_menu(s1.app.menu)
    &&& s1.app.review_pages == s0.app.review_pages
    &&& s1.app.total_inputs == s0.app.total_inputs
}

} // verus!
