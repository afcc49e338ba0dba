use kassigner::input::{run_tests, Action, AppState, Button, ButtonEvent, HandlerGroup, Menu, WalletApp};

#[test]
fn input_self_tests_pass() {
    assert_eq!(run_tests(), (5, 5));
}

#[test]
fn boot_button_short_press() {
    let mut b = Button::new();
    assert_eq!(b.update(true, 10), ButtonEvent::NoEvent);
    assert_eq!(b.update(true, 100), ButtonEvent::NoEvent);
    assert_eq!(b.update(false, 0), ButtonEvent::ShortPress);
}

#[test]
fn boot_button_long_press() {
    let mut b = Button::new();
    assert_eq!(b.update(true, 10), ButtonEvent::NoEvent);
    assert_eq!(b.update(true, 900), ButtonEvent::NoEvent);
    assert_eq!(b.update(false, 0), ButtonEvent::LongPress);
}

#[test]
fn boot_button_bounce_is_ignored() {
    let mut b = Button::new();
    assert_eq!(b.update(true, 10), ButtonEvent::NoEvent);
    assert_eq!(b.update(false, 20), ButtonEvent::NoEvent);
    // the bounce left nothing pending
    assert_eq!(b.update(false, 1000), ButtonEvent::NoEvent);
}

#[test]
fn pir_cooldown_swallows_the_next_press() {
    let mut b = Button::new_pir();
    assert_eq!(b.update(true, 10), ButtonEvent::NoEvent);
    assert_eq!(b.update(false, 600), ButtonEvent::ShortPress);
    assert_eq!(b.update(true, 90), ButtonEvent::NoEvent);
    assert_eq!(b.update(false, 600), ButtonEvent::NoEvent);
}

#[test]
fn menu_short_presses_wrap_and_long_press_selects() {
    let mut m = Menu::from_items(&["Alpha", "Beta", "Gamma"]);
    assert_eq!(m.count, 3);
    assert_eq!(m.handle(ButtonEvent::ShortPress), None);
    assert_eq!(m.handle(ButtonEvent::ShortPress), None);
    assert_eq!(m.cursor, 2);
    assert_eq!(m.handle(ButtonEvent::ShortPress), None);
    assert_eq!(m.cursor, 0);
    assert_eq!(m.handle(ButtonEvent::LongPress), Some(0));
    assert_eq!(m.handle(ButtonEvent::NoEvent), None);
}

#[test]
fn menu_prev_wraps_to_last() {
    let mut m = Menu::from_items(&["A", "B", "C", "D"]);
    m.prev();
    assert_eq!(m.cursor, 3);
    m.prev();
    assert_eq!(m.cursor, 2);
    m.reset();
    assert_eq!((m.cursor, m.scroll), (0, 0));
}

#[test]
fn menu_pages_four_rows_at_a_time() {
    let mut m = Menu::from_items(&["0", "1", "2", "3", "4", "5", "6", "7", "8", "9"]);
    assert_eq!(m.total_pages(), 3);
    assert!(!m.can_page_up());
    assert!(m.can_page_down());
    assert!(m.page_down());
    assert_eq!(m.scroll, 4);
    assert_eq!(m.current_page(), 1);
    assert_eq!(m.visible_to_absolute(2), 6);
    assert!(m.page_down());
    assert_eq!(m.scroll, 8);
    assert!(!m.can_page_down());
    assert!(!m.page_down());
    assert!(m.page_up());
    assert_eq!(m.scroll, 4);
    assert!(m.page_up());
    assert!(!m.page_up());
    assert_eq!(m.scroll, 0);
}

#[test]
fn menu_with_more_than_sixteen_labels_keeps_sixteen() {
    let labels: Vec<&'static str> = vec!["x"; 20];
    let m = Menu::from_items(&labels);
    assert_eq!(m.count, 16);
    assert_eq!(Menu::new().count, 0);
    assert_eq!(Menu::new().total_pages(), 1);
}

#[test]
fn app_review_confirm_and_sign_every_input() {
    let mut app = WalletApp::new();
    assert_eq!(app.state, AppState::MainMenu);
    app.start_review(2, 3);
    assert_eq!(app.state, AppState::ReviewTx { page: 0 });
    assert_eq!(app.handle_boot(ButtonEvent::ShortPress), Action::Redraw);
    assert_eq!(app.state, AppState::ReviewTx { page: 1 });
    app.handle_boot(ButtonEvent::LongPress);
    assert_eq!(app.state, AppState::ReviewTx { page: 2 });
    app.handle_boot(ButtonEvent::ShortPress);
    assert_eq!(app.state, AppState::ConfirmTx);
    app.handle_boot(ButtonEvent::LongPress);
    assert_eq!(app.state, AppState::Signing { input_idx: 0 });
    assert!(app.advance_signing());
    assert_eq!(app.state, AppState::Signing { input_idx: 1 });
    assert!(app.advance_signing());
    assert!(app.advance_signing());
    assert_eq!(app.state, AppState::ShowQrFrameChoice);
    assert!(!app.advance_signing());
}

#[test]
fn app_cancel_on_confirm_rejects() {
    let mut app = WalletApp::new();
    app.start_review(0, 1);
    app.handle_boot(ButtonEvent::ShortPress);
    assert_eq!(app.state, AppState::ConfirmTx);
    app.handle_boot(ButtonEvent::ShortPress);
    assert_eq!(app.menu.cursor, 1);
    app.handle_boot(ButtonEvent::LongPress);
    assert_eq!(app.state, AppState::Rejected);
    assert_eq!(app.handle_boot(ButtonEvent::ShortPress), Action::Redraw);
    assert_eq!(app.state, AppState::MainMenu);
    assert_eq!(app.menu.count, 4);
}

#[test]
fn main_menu_long_press_opens_the_item() {
    let mut app = WalletApp::new();
    app.handle_boot(ButtonEvent::ShortPress);
    app.handle_boot(ButtonEvent::ShortPress);
    assert_eq!(app.handle_boot(ButtonEvent::LongPress), Action::Redraw);
    assert_eq!(app.state, AppState::ToolsMenu);
    assert_eq!(app.handle_boot(ButtonEvent::LongPress), Action::NoAction);
    assert_eq!(app.state, AppState::ToolsMenu);
}

#[test]
fn handler_groups_of_sample_states() {
    assert_eq!(AppState::MainMenu.handler_group(), HandlerGroup::Menu);
    assert_eq!(AppState::SdFileList.handler_group(), HandlerGroup::Sd);
    assert_eq!(AppState::SeedList.handler_group(), HandlerGroup::Seed);
    assert_eq!(AppState::CameraSettings.handler_group(), HandlerGroup::Settings);
    assert_eq!(AppState::Signing { input_idx: 0 }.handler_group(), HandlerGroup::NoHandler);
    assert_eq!(AppState::ShowAddress.handler_group(), HandlerGroup::Export);
    assert_eq!(AppState::ScanQR.handler_group(), HandlerGroup::Tx);
    assert_eq!(AppState::StegoEmbed.handler_group(), HandlerGroup::Stego);
}
