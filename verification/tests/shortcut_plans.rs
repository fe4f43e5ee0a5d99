use screenshot::shortcuts::{
    backup_for_conflicts, check_backup_version, is_screenshot_action, print_assigned,
    release_conflicts_plan, release_screenshot_plan, remaining_keys, restore_plan,
    screenshot_action_id, select_mode, shortcut_record, shortcut_restored, usage, BackupError,
    SetupMode, ShortcutBackup, ShortcutInfo, ShortcutRecord, PRINT_KEY,
};

fn info(component: &str, action: &str, keys: Vec<i32>) -> ShortcutInfo {
    ShortcutInfo {
        action: action.to_string(),
        action_name: format!("{action} name"),
        component: component.to_string(),
        component_name: format!("{component} name"),
        keys,
    }
}

fn strings(v: &[&str]) -> Vec<String> {
    v.iter().map(|s| s.to_string()).collect()
}

#[test]
fn usage_line() {
    assert_eq!(
        usage(),
        "usage: screenshot-shortcut-setup --install BACKUP | --restore BACKUP | --release"
    );
}

#[test]
fn action_id_of_screenshot() {
    assert_eq!(
        screenshot_action_id(),
        strings(&["kwin", "ScreenshotWaylandCapture", "KWin", "Capture with screenshot"])
    );
}

#[test]
fn record_copies_every_field() {
    let record = shortcut_record(&info("plasmashell", "spectacle", vec![PRINT_KEY, 42]));
    assert_eq!(
        record,
        ShortcutRecord {
            action: "spectacle".to_string(),
            action_name: "spectacle name".to_string(),
            component: "plasmashell".to_string(),
            component_name: "plasmashell name".to_string(),
            keys: vec![PRINT_KEY, 42],
        }
    );
}

#[test]
fn screenshot_action_is_recognised() {
    assert!(is_screenshot_action(&"kwin".to_string(), &"ScreenshotWaylandCapture".to_string()));
    assert!(!is_screenshot_action(&"kwin".to_string(), &"Other".to_string()));
    assert!(!is_screenshot_action(&"spectacle".to_string(), &"ScreenshotWaylandCapture".to_string()));
}

#[test]
fn backup_skips_the_screenshot_action() {
    let conflicts = vec![
        info("spectacle", "RectangularRegionScreenShot", vec![PRINT_KEY]),
        info("kwin", "ScreenshotWaylandCapture", vec![PRINT_KEY]),
        info("plasmashell", "capture", vec![42, PRINT_KEY]),
    ];
    let backup = backup_for_conflicts(&conflicts);
    assert_eq!(backup.version, 1);
    assert_eq!(backup.shortcuts.len(), 2);
    assert_eq!(backup.shortcuts[0].component, "spectacle");
    assert_eq!(backup.shortcuts[1].keys, vec![42, PRINT_KEY]);
}

#[test]
fn release_keeps_other_keys() {
    assert_eq!(remaining_keys(&vec![PRINT_KEY, 42, PRINT_KEY, 7], PRINT_KEY), vec![42, 7]);
    let conflicts = vec![
        info("kwin", "ScreenshotWaylandCapture", vec![PRINT_KEY]),
        info("spectacle", "Full", vec![PRINT_KEY, 42]),
    ];
    let plan = release_conflicts_plan(&conflicts);
    assert_eq!(plan.len(), 1);
    assert_eq!(plan[0].action_id, strings(&["spectacle", "Full", "spectacle name", "Full name"]));
    assert_eq!(plan[0].keys, vec![42]);
}

#[test]
fn screenshot_release_plan_targets_only_screenshot() {
    let owners = vec![
        info("spectacle", "Full", vec![PRINT_KEY]),
        info("kwin", "ScreenshotWaylandCapture", vec![PRINT_KEY, 5]),
    ];
    let plan = release_screenshot_plan(&owners);
    assert_eq!(plan.len(), 1);
    assert_eq!(plan[0].action_id, screenshot_action_id());
    assert_eq!(plan[0].keys, vec![5]);
}

#[test]
fn assignment_is_confirmed_only_with_print() {
    let with = vec![info("kwin", "ScreenshotWaylandCapture", vec![PRINT_KEY])];
    let without = vec![
        info("kwin", "ScreenshotWaylandCapture", vec![3]),
        info("spectacle", "Full", vec![PRINT_KEY]),
    ];
    assert!(print_assigned(&with));
    assert!(!print_assigned(&without));
    assert!(!print_assigned(&Vec::new()));
}

#[test]
fn assignment_must_be_exclusive() {
    let shared = vec![
        info("kwin", "ScreenshotWaylandCapture", vec![PRINT_KEY]),
        info("plasmashell", "Screenshot", vec![PRINT_KEY, 5]),
    ];
    assert!(!print_assigned(&shared));
    let others_without_print = vec![
        info("plasmashell", "Screenshot", vec![5]),
        info("kwin", "ScreenshotWaylandCapture", vec![7, PRINT_KEY]),
    ];
    assert!(print_assigned(&others_without_print));
}

#[test]
fn restore_reassigns_saved_keys() {
    let conflicts = vec![info("spectacle", "Full", vec![PRINT_KEY, 42])];
    let backup = backup_for_conflicts(&conflicts);
    let plan = restore_plan(&backup);
    assert_eq!(plan.len(), 1);
    assert_eq!(plan[0].action_id, strings(&["spectacle", "Full", "spectacle name", "Full name"]));
    assert_eq!(plan[0].keys, vec![PRINT_KEY, 42]);
}

#[test]
fn restored_owner_is_found() {
    let record = shortcut_record(&info("spectacle", "Full", vec![PRINT_KEY]));
    assert!(shortcut_restored(&vec![info("spectacle", "Full", vec![])], &record));
    assert!(!shortcut_restored(&vec![info("spectacle", "Region", vec![])], &record));
}

#[test]
fn backup_version_must_be_one() {
    let good = ShortcutBackup { version: 1, shortcuts: Vec::new() };
    let bad = ShortcutBackup { version: 2, shortcuts: Vec::new() };
    assert_eq!(check_backup_version(&good), Ok(()));
    let error = check_backup_version(&bad).unwrap_err();
    assert_eq!(error, BackupError::UnsupportedVersion { version: 2 });
    assert_eq!(error.message(), "unsupported shortcut backup version 2");
}

#[test]
fn modes_are_selected_from_arguments() {
    assert_eq!(select_mode(Some("--install"), true, false), Some(SetupMode::Install));
    assert_eq!(select_mode(Some("--restore"), true, false), Some(SetupMode::Restore));
    assert_eq!(select_mode(Some("--release"), false, false), Some(SetupMode::Release));
    assert_eq!(select_mode(Some("--release"), true, false), None);
    assert_eq!(select_mode(Some("--install"), false, false), None);
    assert_eq!(select_mode(Some("--install"), true, true), None);
    assert_eq!(select_mode(None, false, false), None);
    assert_eq!(select_mode(Some("--help"), false, false), None);
}
