use screenshot::trigger::{
    is_event_device_name, is_key_test_device, is_trigger_code, is_trigger_press, name_contains,
    supports_trigger_key, CooldownGate, LaunchState, ListenerRegistry, RetryBudget, RetryStep,
    EV_KEY, KEY_PAUSE, KEY_PRINTSCREEN, KEY_PRINTSCREEN_SYSRQ, KEY_SCROLL_LOCK,
};

const MS: u64 = 1_000_000;

#[test]
fn first_trigger_is_accepted_and_marks_busy() {
    let mut state = LaunchState::new();
    assert!(state.try_begin(0));
    assert!(state.busy);
    assert_eq!(state.last_trigger, Some(0));
}

#[test]
fn duplicate_trigger_is_refused_while_busy() {
    let mut state = LaunchState::new();
    assert!(state.try_begin(5 * MS));
    assert!(!state.try_begin(10_000 * MS));
    assert_eq!(state.last_trigger, Some(5 * MS));
}

#[test]
fn cooldown_after_finish() {
    let mut state = LaunchState::new();
    assert!(state.try_begin(0));
    state.finish(1_000 * MS);
    assert!(!state.try_begin(1_349 * MS));
    assert!(state.try_begin(1_350 * MS));
}

#[test]
fn x11_gate_waits_more_than_a_second() {
    let mut gate = CooldownGate::new();
    assert!(gate.try_launch(0));
    assert!(!gate.try_launch(1_000 * MS));
    assert!(gate.try_launch(1_000 * MS + 1));
    assert_eq!(gate.last_launch, Some(1_000 * MS + 1));
}

#[test]
fn trigger_codes() {
    for code in [KEY_PRINTSCREEN_SYSRQ, KEY_PRINTSCREEN, KEY_SCROLL_LOCK, KEY_PAUSE] {
        assert!(is_trigger_code(code));
    }
    assert!(!is_trigger_code(30));
    assert!(is_trigger_press(EV_KEY, 1, 99));
    assert!(!is_trigger_press(EV_KEY, 0, 99));
    assert!(!is_trigger_press(EV_KEY, 2, 99));
    assert!(!is_trigger_press(2, 1, 99));
}

#[test]
fn devices_need_a_trigger_key() {
    assert!(supports_trigger_key(&Some(vec![30, 31, 210])));
    assert!(!supports_trigger_key(&Some(vec![30, 31])));
    assert!(!supports_trigger_key(&None));
}

#[test]
fn retry_budget_allows_six_retries() {
    let mut budget = RetryBudget::new(6);
    for _ in 0..6 {
        assert_eq!(budget.after_failure(), RetryStep::SleepThenRetry);
    }
    assert_eq!(budget.after_failure(), RetryStep::GiveUp);
    assert_eq!(budget.attempt, 6);
}

#[test]
fn registry_claims_each_device_once() {
    let mut registry = ListenerRegistry::new();
    let path = "/dev/input/event3".to_string();
    assert!(registry.claim(&path));
    assert!(!registry.claim(&path));
    assert!(registry.contains(&path));
    assert_eq!(registry.len(), 1);
    registry.release(&path);
    assert!(!registry.contains(&path));
    assert_eq!(registry.len(), 0);
    assert!(registry.claim(&path));
}

#[test]
fn event_device_names() {
    assert!(is_event_device_name("event12"));
    assert!(is_event_device_name("event"));
    assert!(!is_event_device_name("mouse0"));
    assert!(!is_event_device_name("even"));
}

#[test]
fn key_test_device_names() {
    assert!(is_key_test_device("Logitech USB Keyboard"));
    assert!(is_key_test_device("Corsair STRAFE RGB"));
    assert!(!is_key_test_device("USB Optical Mouse"));
    assert!(name_contains("abc", ""));
    assert!(!name_contains("ab", "abc"));
}

#[test]
fn scan_claims_event_devices_once_and_keeps_only_trigger_keyboards() {
    let mut registry = ListenerRegistry::new();
    let event3 = "/dev/input/event3".to_string();
    let mouse = "/dev/input/mouse0".to_string();
    let event4 = "/dev/input/event4".to_string();
    let event5 = "/dev/input/event5".to_string();

    assert!(!registry.begin_entry("mouse0", &mouse));
    assert_eq!(registry.len(), 0);

    assert!(registry.begin_entry("event3", &event3));
    assert!(registry.contains(&event3));
    assert!(registry.finish_entry(&event3, true, &Some(vec![30, KEY_PRINTSCREEN])));
    assert!(registry.contains(&event3));

    // A second scan does not start another listener for the same device.
    assert!(!registry.begin_entry("event3", &event3));
    assert_eq!(registry.len(), 1);

    // A device without a trigger key is released again.
    assert!(registry.begin_entry("event4", &event4));
    assert!(!registry.finish_entry(&event4, true, &Some(vec![30, 31])));
    assert!(!registry.contains(&event4));

    // So is one that could not be opened.
    assert!(registry.begin_entry("event5", &event5));
    assert!(!registry.finish_entry(&event5, false, &None));
    assert!(!registry.contains(&event5));
    assert_eq!(registry.len(), 1);
}
