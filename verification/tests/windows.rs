use winshell::windows::{Desktop, UiEvent, WindowId, WindowState};

fn present_hidden() -> WindowState {
    WindowState { exists: true, visible: false, always_on_top: false }
}

fn present_shown() -> WindowState {
    WindowState { exists: true, visible: true, always_on_top: false }
}

fn absent() -> WindowState {
    WindowState { exists: false, visible: false, always_on_top: false }
}

#[test]
fn open_settings_window_missing_is_an_error() {
    let mut d = Desktop::startup(present_shown(), absent(), absent());
    let before = d.clone();
    let r = d.open_settings_window(true);
    assert_eq!(r, Err("Settings window not found".to_string()));
    assert_eq!(d, before);
}

#[test]
fn open_messages_window_missing_is_an_error() {
    let mut d = Desktop::startup(present_shown(), present_hidden(), absent());
    let r = d.open_messages_window(false);
    assert_eq!(r, Err("Messages window not found".to_string()));
    assert!(d.events.is_empty());
}

#[test]
fn open_settings_window_shows_pins_and_focuses() {
    let mut d = Desktop::startup(present_shown(), present_hidden(), present_hidden());
    let r = d.open_settings_window(true);
    assert_eq!(r, Ok(()));
    assert!(d.settings.visible);
    assert!(d.settings.always_on_top);
    assert_eq!(d.focused, Some(WindowId::Settings));
    assert_eq!(d.events, vec![UiEvent::SettingsWindowShown]);
}

#[test]
fn open_messages_window_signals_its_event() {
    let mut d = Desktop::startup(present_shown(), present_hidden(), present_hidden());
    assert_eq!(d.open_messages_window(false), Ok(()));
    assert!(d.messages.visible);
    assert!(!d.messages.always_on_top);
    assert_eq!(d.focused, Some(WindowId::Messages));
    assert_eq!(d.events, vec![UiEvent::MessagesWindowShown]);
}

#[test]
fn set_always_on_top_skips_missing_windows() {
    let mut d = Desktop::startup(present_shown(), absent(), absent());
    let r = d.set_always_on_top(true);
    assert_eq!(r, Ok(()));
    assert!(d.main.always_on_top);
    assert_eq!(d.settings, absent());
    assert_eq!(d.messages, absent());
}

#[test]
fn set_always_on_top_reaches_every_live_window() {
    let mut d = Desktop::startup(present_shown(), present_hidden(), present_shown());
    assert_eq!(d.set_always_on_top(true), Ok(()));
    assert!(d.main.always_on_top);
    assert!(d.settings.always_on_top);
    assert!(d.messages.always_on_top);
    assert_eq!(d.set_always_on_top(false), Ok(()));
    assert!(!d.main.always_on_top);
    assert!(!d.settings.always_on_top);
    assert!(!d.messages.always_on_top);
}

#[test]
fn close_child_windows_twice_is_a_no_op() {
    let mut d = Desktop::startup(present_shown(), present_hidden(), present_hidden());
    assert_eq!(d.open_settings_window(false), Ok(()));
    assert_eq!(d.open_messages_window(false), Ok(()));
    assert_eq!(d.close_child_windows(), Ok(()));
    assert!(!d.settings.exists);
    assert!(!d.messages.exists);
    let after_first = d.clone();
    assert_eq!(d.close_child_windows(), Ok(()));
    assert_eq!(d, after_first);
}

#[test]
fn close_child_windows_leaves_hidden_children_alone() {
    let mut d = Desktop::startup(present_shown(), present_hidden(), absent());
    assert_eq!(d.close_child_windows(), Ok(()));
    assert_eq!(d.settings, present_hidden());
    assert_eq!(d.messages, absent());
    assert!(d.main.visible);
}

#[test]
fn close_child_windows_drops_focus_with_the_window() {
    let mut d = Desktop::startup(present_shown(), present_hidden(), present_hidden());
    assert_eq!(d.open_settings_window(false), Ok(()));
    assert_eq!(d.focused, Some(WindowId::Settings));
    assert_eq!(d.close_child_windows(), Ok(()));
    assert_eq!(d.focused, None);
}

#[test]
fn quit_app_closes_everything_and_exits() {
    let mut d = Desktop::startup(present_shown(), present_hidden(), absent());
    let r = d.quit_app();
    assert_eq!(r, Ok(()));
    assert!(!d.main.exists);
    assert!(!d.settings.exists);
    assert!(!d.messages.exists);
    assert!(d.exited);
}
