use screenshot::environment::{
    environment_assignments, wayland_session_env_keys, x11_session_env_keys,
};
use screenshot::text::decimal_string;

fn pairs(v: Vec<(Vec<u8>, Vec<u8>)>) -> Vec<(String, String)> {
    v.into_iter()
        .map(|(k, val)| (String::from_utf8(k).unwrap(), String::from_utf8(val).unwrap()))
        .collect()
}

#[test]
fn selects_allowed_session_variables() {
    let output = b"HOME=/home/a\nWAYLAND_DISPLAY=wayland-0\r\nDISPLAY=:1\nPATH=/bin\nXDG_RUNTIME_DIR=/run/user/1000".to_vec();
    let selected = pairs(environment_assignments(&output, &wayland_session_env_keys()));
    assert_eq!(
        selected,
        vec![
            ("WAYLAND_DISPLAY".to_string(), "wayland-0".to_string()),
            ("DISPLAY".to_string(), ":1".to_string()),
            ("XDG_RUNTIME_DIR".to_string(), "/run/user/1000".to_string()),
        ]
    );
}

#[test]
fn value_keeps_later_equals_signs_and_lines_without_equals_are_skipped() {
    let output = b"DBUS_SESSION_BUS_ADDRESS=unix:path=/run/bus\nXAUTHORITY\n\nXAUTHORITY=/x=y\n".to_vec();
    let selected = pairs(environment_assignments(&output, &x11_session_env_keys()));
    assert_eq!(
        selected,
        vec![
            ("DBUS_SESSION_BUS_ADDRESS".to_string(), "unix:path=/run/bus".to_string()),
            ("XAUTHORITY".to_string(), "/x=y".to_string()),
        ]
    );
}

#[test]
fn final_line_keeps_its_carriage_return() {
    let output = b"DISPLAY=:0\r".to_vec();
    let selected = pairs(environment_assignments(&output, &x11_session_env_keys()));
    assert_eq!(selected, vec![("DISPLAY".to_string(), ":0\r".to_string())]);
}

#[test]
fn x11_keys_exclude_desktop_name() {
    let output = b"XDG_CURRENT_DESKTOP=KDE\nXDG_SESSION_TYPE=x11\n".to_vec();
    assert!(environment_assignments(&output, &x11_session_env_keys()).is_empty());
    assert_eq!(environment_assignments(&output, &wayland_session_env_keys()).len(), 2);
}

#[test]
fn empty_output_selects_nothing() {
    assert!(environment_assignments(&Vec::new(), &wayland_session_env_keys()).is_empty());
}

#[test]
fn decimal_rendering() {
    assert_eq!(decimal_string(0), "0");
    assert_eq!(decimal_string(7), "7");
    assert_eq!(decimal_string(1050), "1050");
    assert_eq!(decimal_string(u64::MAX), u64::MAX.to_string());
}
