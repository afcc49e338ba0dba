use kassigner::hold::{delete_layout, format_layout, HoldGesture, HoldStep};
use kassigner::input::{AppState, Menu, WalletApp};
use kassigner::screens::{CameraTune, SignedQr, SubMenus, TouchHit, UiState};
use kassigner::settings_touch::{handle_settings_touch, level_after, Board, SettingsContext, SettingsEffect};

fn ui(state: AppState) -> UiState {
    let mut app = WalletApp::new();
    app.state = state;
    let m = Menu::from_items(&["One", "Two", "Three", "Four"]);
    UiState {
        app,
        menus: SubMenus {
            tools: Menu::from_items(&["One", "Two", "Three", "Four"]),
            seed_tools: Menu::from_items(&["One", "Two", "Three", "Four"]),
            import: Menu::from_items(&["One", "Two", "Three", "Four"]),
            export: Menu::from_items(&["One", "Two", "Three", "Four"]),
            single_sig: Menu::from_items(&["One", "Two", "Three", "Four"]),
            multisig: Menu::from_items(&["One"]),
            sd_import: Menu::from_items(&["One", "Two", "Three", "Four"]),
            settings: m,
        },
        qr: SignedQr { len: 0, nframes: 0, frame: 0, large: false, mode: 0, via_density: false, manual_frames: false },
        brightness: 100,
        volume: 240,
        cam: CameraTune { active: false, dirty: false, param: 0, vals: [100; 6] },
    }
}

fn tap(x: u16, y: u16) -> TouchHit {
    TouchHit { x, y, is_back: false, grid: None, list: None, page_up: false, page_down: false, nav: 0 }
}

const WAVESHARE: SettingsContext = SettingsContext { board: Board::Waveshare, card_present: true };
const M5STACK: SettingsContext = SettingsContext { board: Board::M5Stack, card_present: false };

#[test]
fn level_bar_buttons_and_track() {
    assert_eq!(level_after(100, 30, 100), Some(75));
    assert_eq!(level_after(10, 30, 100), Some(0));
    assert_eq!(level_after(240, 260, 100), Some(255));
    assert_eq!(level_after(100, 160, 100), Some(127));
    assert_eq!(level_after(100, 70, 100), Some(0));
    assert_eq!(level_after(100, 250, 100), Some(255));
    assert_eq!(level_after(100, 160, 200), None);
    assert_eq!(level_after(100, 69, 118), None);
}

#[test]
fn settings_item_depends_on_the_board() {
    let mut s = ui(AppState::SettingsMenu);
    let hit = TouchHit { list: Some(1), ..tap(100, 100) };
    assert_eq!(handle_settings_touch(&mut s, WAVESHARE, hit), Some((true, SettingsEffect::NoEffect)));
    assert_eq!(s.app.state, AppState::CameraSettings);
    assert!(s.cam.active && s.cam.dirty);
    let mut s = ui(AppState::SettingsMenu);
    handle_settings_touch(&mut s, M5STACK, hit);
    assert_eq!(s.app.state, AppState::AudioSettings);
    assert!(!s.cam.active);
    let mut s = ui(AppState::AudioSettings);
    assert_eq!(handle_settings_touch(&mut s, WAVESHARE, tap(30, 100)), None);
    let mut s = ui(AppState::CameraSettings);
    assert_eq!(handle_settings_touch(&mut s, M5STACK, tap(30, 100)), None);
}

#[test]
fn display_and_volume_levels() {
    let mut s = ui(AppState::DisplaySettings);
    assert_eq!(
        handle_settings_touch(&mut s, WAVESHARE, tap(300, 100)),
        Some((false, SettingsEffect::SetBrightness { level: 125 }))
    );
    assert_eq!(s.brightness, 125);
    let mut s = ui(AppState::AudioSettings);
    assert_eq!(
        handle_settings_touch(&mut s, M5STACK, tap(300, 100)),
        Some((false, SettingsEffect::SetVolume { level: 255 }))
    );
    assert_eq!(s.volume, 255);
    let back = TouchHit { is_back: true, ..tap(10, 10) };
    handle_settings_touch(&mut s, M5STACK, back);
    assert_eq!(s.app.state, AppState::SettingsMenu);
}

#[test]
fn sd_card_tools_need_a_card() {
    let mut s = ui(AppState::SdCardSettings);
    assert_eq!(handle_settings_touch(&mut s, WAVESHARE, tap(50, 110)), Some((true, SettingsEffect::ConfirmFormat)));
    assert_eq!(handle_settings_touch(&mut s, WAVESHARE, tap(200, 110)), Some((true, SettingsEffect::TestCard)));
    assert_eq!(handle_settings_touch(&mut s, M5STACK, tap(50, 110)), Some((true, SettingsEffect::NoEffect)));
    let mut s = ui(AppState::About);
    handle_settings_touch(&mut s, WAVESHARE, tap(50, 110));
    assert_eq!(s.app.state, AppState::SettingsMenu);
}

#[test]
fn camera_tuning_strip_and_panel() {
    let mut s = ui(AppState::CameraSettings);
    s.cam.active = true;
    assert_eq!(
        handle_settings_touch(&mut s, WAVESHARE, tap(30, 200)),
        Some((false, SettingsEffect::SliderMoved { click: true }))
    );
    assert_eq!(s.cam.vals[0], 96);
    assert!(s.cam.dirty);
    handle_settings_touch(&mut s, WAVESHARE, tap(300, 200));
    assert_eq!(s.cam.vals[0], 100);
    assert_eq!(
        handle_settings_touch(&mut s, WAVESHARE, tap(160, 200)),
        Some((false, SettingsEffect::SliderMoved { click: false }))
    );
    assert_eq!(s.cam.vals[0], 127);
    assert_eq!(handle_settings_touch(&mut s, WAVESHARE, tap(270, 100)), Some((false, SettingsEffect::ParamSelected)));
    assert_eq!(s.cam.param, 3);
    assert_eq!(handle_settings_touch(&mut s, WAVESHARE, tap(270, 100)), Some((false, SettingsEffect::NoEffect)));
    handle_settings_touch(&mut s, WAVESHARE, tap(300, 200));
    assert_eq!(s.cam.vals[3], 104);
    assert_eq!(handle_settings_touch(&mut s, WAVESHARE, tap(250, 10)), Some((true, SettingsEffect::Click)));
    assert_eq!(s.app.state, AppState::SettingsMenu);
    assert!(!s.cam.active);
}

#[test]
fn format_needs_four_seconds_of_holding() {
    let l = format_layout();
    let mut h = HoldGesture::new();
    assert_eq!(h.step(&l, None), HoldStep::Waiting);
    assert_eq!(h.step(&l, Some((100, 100))), HoldStep::Waiting);
    assert_eq!(h.step(&l, Some((100, 190))), HoldStep::Holding { fill: 2 });
    let mut last = HoldStep::Waiting;
    for _ in 1..79 {
        last = h.step(&l, Some((100, 190)));
    }
    assert_eq!(last, HoldStep::Holding { fill: 197 });
    assert_eq!(h.step(&l, Some((100, 190))), HoldStep::Confirmed);
}

#[test]
fn hold_cancels_on_release_or_cancel_buttons() {
    let l = format_layout();
    let mut h = HoldGesture::new();
    h.step(&l, Some((100, 190)));
    assert_eq!(h.step(&l, None), HoldStep::Cancelled { click: false });
    let mut h = HoldGesture::new();
    assert_eq!(h.step(&l, Some((10, 10))), HoldStep::Cancelled { click: true });
    assert_eq!(HoldGesture::new().step(&l, Some((300, 40))), HoldStep::Cancelled { click: true });
    let d = delete_layout();
    assert_eq!(HoldGesture::new().step(&d, Some((10, 10))), HoldStep::Cancelled { click: false });
    assert_eq!(HoldGesture::new().step(&d, Some((100, 200))), HoldStep::Cancelled { click: true });
    let mut h = HoldGesture::new();
    assert_eq!(h.step(&d, Some((200, 200))), HoldStep::Holding { fill: 1 });
    assert_eq!(h.step(&d, Some((200, 100))), HoldStep::Cancelled { click: false });
}
