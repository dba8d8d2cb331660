//! The shortcuts that the desktop grants.

use kotori::hotkeys::{
    activate, assign_hint_for, disabled, is_duplicate, looks_unbound, ready, request_once, status,
    Granted, State, DUPLICATE_WINDOW,
};

#[test]
fn the_same_press_delivered_twice_is_only_acted_on_once() {
    let now: u64 = 7_000_000_000;
    let last = Some(("toggle-nis".to_string(), now));
    assert!(is_duplicate(&last, "toggle-nis", now + 61_000));
    assert!(!is_duplicate(&last, "toggle-fsr", now));
    assert!(!is_duplicate(&last, "toggle-nis", now + DUPLICATE_WINDOW + 1_000_000));
    assert!(!is_duplicate(&None, "toggle-nis", now));
}

#[test]
fn a_shortcut_granted_without_a_key_is_not_called_usable() {
    assert!(looks_unbound(""));
    assert!(looks_unbound("   "));
    assert!(looks_unbound("none"));
    assert!(looks_unbound("None"));
    assert!(!looks_unbound("<Shift><Alt>q"));
    assert!(!looks_unbound("Shift+Alt+Q"));

    assert!(assign_hint_for("KDE").contains("系统设置"));
    assert!(assign_hint_for("ubuntu:GNOME").contains("键盘"));
    assert!(!assign_hint_for("sway").contains("系统设置"));
}

#[test]
fn a_fresh_daemon_reports_the_hotkeys_as_unavailable() {
    let state = State::new();
    assert!(!ready(&state));
    let status = status(&state, "KDE");
    assert!(!status.ready);
    assert!(!status.requested);
    assert!(status.error.is_none());
    assert!(status.unbound.is_empty());
}

#[test]
fn the_desktop_is_asked_once() {
    let mut state = State::new();
    assert!(request_once(&mut state, false));
    assert!(state.requested);
    assert!(!request_once(&mut state, false));

    // A failure allows another attempt.
    state.set_error("portal".to_string());
    assert!(request_once(&mut state, false));
    assert!(state.error.is_none());

    let wanted = vec!["toggle-nis".to_string(), "scale-up".to_string(), "gone".to_string()];
    let granted = vec![
        Granted { id: "toggle-nis".to_string(), trigger: "Alt+N".to_string() },
        Granted { id: "scale-up".to_string(), trigger: "None".to_string() },
    ];
    let missing = state.grant(&wanted, &granted);
    assert_eq!(missing, vec!["gone"]);
    assert!(ready(&state));
    assert_eq!(state.unbound, vec!["scale-up"]);
    assert!(!request_once(&mut state, false));
}

#[test]
fn hotkeys_that_are_switched_off_say_so() {
    let mut state = State::new();
    assert!(!request_once(&mut state, true));
    assert!(state.error.as_deref().unwrap().contains("KOTORI_NO_HOTKEYS"));
    assert!(disabled(Some("1")));
    assert!(!disabled(Some("0")));
    assert!(!disabled(Some("")));
    assert!(!disabled(None));
}

#[test]
fn only_a_known_shortcut_does_something() {
    let known = vec!["toggle-nis".to_string()];
    let (fired, last) = activate(&known, None, "toggle-nis", 1_000);
    assert!(fired);
    assert_eq!(last, Some(("toggle-nis".to_string(), 1_000)));
    let (fired, last) = activate(&known, last, "toggle-nis", 2_000);
    assert!(!fired);
    let (fired, _) = activate(&known, last, "unknown", 3_000);
    assert!(!fired);
}
