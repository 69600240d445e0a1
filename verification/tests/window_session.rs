use autoclicker::config::{hotkey_config_text, parse_hotkey_config};
use autoclicker::hotkey::KeyTracker;
use autoclicker::session::{
    request_outcome, button_for_choice, channel_request, hotkey_caption, same_codes, toggle_outcome, tray_request,
    tray_title, ComboOutcome, HotkeySession, UiRequest,
};

#[test]
fn toggling() {
    let t = toggle_outcome(false);
    assert!(t.start);
    assert_eq!(t.button_label, "Stop Clicking");
    assert_eq!(t.status_text, "\u{25cf} Running");
    assert!(t.tray_running);
    let t = toggle_outcome(true);
    assert!(!t.start);
    assert_eq!(t.button_label, "Start Clicking");
    assert_eq!(t.status_text, "\u{25cf} Stopped");
    assert!(!t.tray_running);
}

#[test]
fn tray_titles() {
    assert_eq!(tray_title(true), "Autoclicker: Running");
    assert_eq!(tray_title(false), "Autoclicker: Stopped");
}

#[test]
fn requests() {
    assert_eq!(tray_request("toggle"), UiRequest::Toggle);
    assert_eq!(tray_request("show"), UiRequest::Show);
    assert_eq!(tray_request("quit"), UiRequest::Quit);
    assert_eq!(tray_request("start"), UiRequest::Ignore);
    assert_eq!(channel_request("toggle"), UiRequest::Toggle);
    assert_eq!(channel_request("start"), UiRequest::Start);
    assert_eq!(channel_request("stop"), UiRequest::Stop);
    assert_eq!(channel_request("show"), UiRequest::Ignore);
}

#[test]
fn button_choices() {
    assert_eq!(button_for_choice(0), 1);
    assert_eq!(button_for_choice(1), 2);
    assert_eq!(button_for_choice(2), 3);
    assert_eq!(button_for_choice(255), 0);
}

#[test]
fn captions() {
    assert_eq!(hotkey_caption(&vec![]), "Current: None");
    assert_eq!(hotkey_caption(&vec![18, 29]), "Current: Ctrl + E");
}

#[test]
fn recording_then_confirming_saves_recorded_combo() {
    let mut s = HotkeySession::new();
    s.open_dialog(vec![18, 29]);
    assert!(s.is_dialog_open());
    assert_eq!(s.toggle_recording(), "Press your hotkey...");
    assert_eq!(s.on_combo(vec![30, 42], &vec![18, 29]), ComboOutcome::Recorded);
    assert!(!s.is_recording());
    assert_eq!(s.pending(), vec![30, 42]);
    assert_eq!(s.confirm(), vec![30, 42]);
    assert!(!s.is_dialog_open());
}

#[test]
fn saved_hotkey_toggles_only_with_dialog_closed() {
    let mut s = HotkeySession::new();
    let saved = vec![18, 29];
    assert_eq!(s.on_combo(vec![18, 29], &saved), ComboOutcome::Toggle);
    assert_eq!(s.on_combo(vec![18], &saved), ComboOutcome::Ignored);
    assert_eq!(s.on_combo(vec![], &vec![]), ComboOutcome::Ignored);
    s.open_dialog(saved.clone());
    assert_eq!(s.on_combo(vec![18, 29], &saved), ComboOutcome::Ignored);
    s.close_dialog();
    assert_eq!(s.on_combo(vec![18, 29], &saved), ComboOutcome::Toggle);
}

#[test]
fn record_button_labels() {
    let mut s = HotkeySession::new();
    assert_eq!(s.toggle_recording(), "Press your hotkey...");
    assert_eq!(s.toggle_recording(), "Start Recording");
}

#[test]
fn compares_combos() {
    assert!(same_codes(&vec![1, 2], &vec![1, 2]));
    assert!(!same_codes(&vec![1, 2], &vec![2, 1]));
    assert!(!same_codes(&vec![1], &vec![1, 2]));
}

#[test]
fn recorded_hotkey_saved_and_reloaded_toggles() {
    let mut tracker = KeyTracker::new();
    tracker.handle_event(1, 97, 1);
    let combo = tracker.handle_event(1, 18, 1).unwrap();
    let mut s = HotkeySession::new();
    s.open_dialog(vec![]);
    s.toggle_recording();
    assert_eq!(s.on_combo(combo.clone(), &vec![]), ComboOutcome::Recorded);
    let text = hotkey_config_text(&s.confirm());
    let saved = parse_hotkey_config(Some(&text));
    assert_eq!(saved, vec![18, 97]);
    assert_eq!(s.on_combo(combo, &saved), ComboOutcome::Toggle);
}

#[test]
fn start_and_stop_requests() {
    let t = request_outcome(UiRequest::Start, false).unwrap();
    assert!(t.start);
    assert_eq!(t.button_label, "Stop Clicking");
    assert!(t.tray_running);
    assert!(request_outcome(UiRequest::Start, true).is_none());
    let t = request_outcome(UiRequest::Stop, true).unwrap();
    assert!(!t.start);
    assert_eq!(t.status_text, "\u{25cf} Stopped");
    assert!(request_outcome(UiRequest::Stop, false).is_none());
    assert!(request_outcome(UiRequest::Toggle, false).unwrap().start);
    assert!(!request_outcome(UiRequest::Toggle, true).unwrap().start);
    assert!(request_outcome(UiRequest::Ignore, true).is_none());
}
