use autoclicker::hotkey::{is_modifier, listens_to, KeyTracker};

#[test]
fn modifiers() {
    for c in [29, 97, 42, 54, 56, 100, 125, 126] {
        assert!(is_modifier(c));
    }
    assert!(!is_modifier(18));
    assert!(!is_modifier(272));
}

#[test]
fn skips_own_device_and_keyless_devices() {
    assert!(!listens_to(Some("Autoclicker Virtual Mouse"), true));
    assert!(listens_to(Some("AT Translated Set 2 keyboard"), true));
    assert!(!listens_to(Some("Power Button"), false));
    assert!(listens_to(None, true));
}

#[test]
fn reports_combo_on_trigger_key() {
    let mut t = KeyTracker::new();
    assert_eq!(t.handle_event(1, 29, 1), None);
    assert_eq!(t.handle_event(1, 42, 1), None);
    assert_eq!(t.handle_event(1, 18, 1), Some(vec![18, 29, 42]));
    assert_eq!(t.handle_event(1, 18, 2), None);
    assert_eq!(t.handle_event(1, 18, 0), None);
    assert_eq!(t.held(), vec![29, 42]);
    assert_eq!(t.handle_event(1, 30, 1), Some(vec![29, 30, 42]));
}

#[test]
fn repeated_press_counts_once() {
    let mut t = KeyTracker::new();
    assert_eq!(t.handle_event(1, 272, 1), Some(vec![272]));
    assert_eq!(t.handle_event(1, 272, 1), Some(vec![272]));
    assert_eq!(t.handle_event(1, 272, 0), None);
    assert_eq!(t.held(), Vec::<u16>::new());
}

#[test]
fn other_event_types_change_nothing() {
    let mut t = KeyTracker::new();
    assert_eq!(t.handle_event(1, 29, 1), None);
    assert_eq!(t.handle_event(0, 0, 0), None);
    assert_eq!(t.handle_event(2, 0, 5), None);
    assert_eq!(t.held(), vec![29]);
    assert_eq!(t.handle_event(1, 77, 0), None);
    assert_eq!(t.held(), vec![29]);
}
