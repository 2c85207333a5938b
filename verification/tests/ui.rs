use spacefn::config::Config;
use spacefn::machine::State;
use spacefn::ui::{get_key_name, KeyEvent, KeyValue, SpacefnApp, HISTORY_LIMIT};

#[test]
fn key_event_decodes_wire_values() {
    assert_eq!(KeyEvent::new(30, 0).value, KeyValue::Release);
    assert_eq!(KeyEvent::new(30, 1).value, KeyValue::Press);
    assert_eq!(KeyEvent::new(30, 2).value, KeyValue::Repeat);
    // An unknown wire value is recorded as a press.
    assert_eq!(KeyEvent::new(30, 99).value, KeyValue::Press);
    assert_eq!(KeyEvent::new(30, 0).code, 30);
}

#[test]
fn display_string_formats_arrow_code_and_name() {
    assert_eq!(KeyEvent::new(30, 1).display_string(), "↓ 030 A");
    assert_eq!(KeyEvent::new(104, 0).display_string(), "↑ 104 Right");
    assert_eq!(KeyEvent::new(1, 2).display_string(), "↻ 001 Esc");
    assert_eq!(KeyEvent::new(57, 1).display_string(), "↓ 057 Space");
    assert_eq!(KeyEvent::new(200, 1).display_string(), "↓ 200 ?");
}

#[test]
fn key_names_cover_the_table_and_fall_back() {
    assert_eq!(get_key_name(0), "Reserved");
    assert_eq!(get_key_name(30), "A");
    assert_eq!(get_key_name(57), "Space");
    assert_eq!(get_key_name(105), "End");
    assert_eq!(get_key_name(125), "Menu");
    assert_eq!(get_key_name(121), "?");
    assert_eq!(get_key_name(300), "?");
}

#[test]
fn new_app_starts_idle_and_empty() {
    let app = SpacefnApp::new();
    assert_eq!(app.current_state, State::Idle);
    assert!(app.key_history.is_empty());
    assert!(app.devices.is_empty());
    assert!(app.selected_device.is_none());
    assert!(app.config.keyboard.is_empty());
    assert!(app.config.keys_map.is_empty());
    assert!(!app.show_config);
    assert!(app.error_message.is_none());
    assert_eq!(app.new_key, (0, 0, 0));
}

#[test]
fn update_state_tracks_the_machine() {
    let mut app = SpacefnApp::new();
    app.update_state(State::Shift);
    assert_eq!(app.current_state, State::Shift);
    assert_eq!(app.state_text(), "FN MODE");
    app.update_state(State::Decide);
    assert_eq!(app.state_text(), "DECIDE");
    app.update_state(State::Idle);
    assert_eq!(app.state_text(), "IDLE");
}

#[test]
fn key_history_is_newest_first_and_bounded() {
    let mut app = SpacefnApp::new();
    for code in 0..30u16 {
        app.add_key_event(code);
    }
    assert_eq!(app.key_history.len(), HISTORY_LIMIT);
    assert_eq!(app.key_history[0].code, 29);
    assert_eq!(app.key_history[HISTORY_LIMIT - 1].code, 10);
    assert_eq!(app.key_history[0].value, KeyValue::Press);
}

#[test]
fn add_key_event_full_keeps_the_kind() {
    let mut app = SpacefnApp::new();
    app.add_key_event_full(30, 0);
    assert_eq!(app.key_history[0].value, KeyValue::Release);
    app.add_key_event_full(30, 2);
    assert_eq!(app.key_history[0].value, KeyValue::Repeat);
}

#[test]
fn errors_are_set_and_cleared() {
    let mut app = SpacefnApp::new();
    app.set_error("no device".to_string());
    assert_eq!(app.error_message.as_deref(), Some("no device"));
    app.clear_error();
    assert!(app.error_message.is_none());
}

#[test]
fn reload_config_applies_a_loaded_snapshot() {
    let mut app = SpacefnApp::new();
    app.set_error("stale".to_string());
    let loaded = Config { keyboard: "/dev/input/event3".to_string(), keys_map: vec![[30, 105, 0]] };
    app.reload_config(Ok(loaded));
    assert_eq!(app.config.keyboard, "/dev/input/event3");
    assert_eq!(app.config.keys_map, vec![[30, 105, 0]]);
    assert!(app.error_message.is_none());
}

#[test]
fn reload_config_reports_a_failed_load() {
    let mut app = SpacefnApp::new();
    app.reload_config(Err("bad toml".to_string()));
    assert!(app.config.keys_map.is_empty());
    assert_eq!(
        app.error_message.as_deref(),
        Some("Failed to reload config: bad toml")
    );
}
