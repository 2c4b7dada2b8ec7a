use i3status_rs::blocks::sound::{device_icon, str_contains, str_eq, DeviceKind};

#[test]
fn volume_sets_icon_suffix() {
    assert_eq!(device_icon(DeviceKind::Sink, false, None, None, 0), "volume_muted");
    assert_eq!(device_icon(DeviceKind::Sink, false, None, None, 1), "volume_empty");
    assert_eq!(device_icon(DeviceKind::Sink, false, None, None, 20), "volume_empty");
    assert_eq!(device_icon(DeviceKind::Sink, false, None, None, 21), "volume_half");
    assert_eq!(device_icon(DeviceKind::Sink, false, None, None, 70), "volume_half");
    assert_eq!(device_icon(DeviceKind::Sink, false, None, None, 71), "volume_full");
    assert_eq!(device_icon(DeviceKind::Source, false, None, None, 50), "microphone_half");
}

#[test]
fn headphone_form_factor_sets_headphone_icon() {
    assert_eq!(device_icon(DeviceKind::Sink, true, Some("headset"), None, 50), "headphones");
    assert_eq!(device_icon(DeviceKind::Sink, true, Some("portable"), None, 50), "headphones");
    assert_eq!(device_icon(DeviceKind::Sink, true, Some("speaker"), Some("analog-output-headphones"), 50), "volume_half");
    assert_eq!(device_icon(DeviceKind::Sink, false, Some("headset"), None, 50), "volume_half");
    assert_eq!(device_icon(DeviceKind::Source, true, Some("headset"), None, 0), "microphone_muted");
}

#[test]
fn active_port_decides_without_form_factor() {
    assert_eq!(device_icon(DeviceKind::Sink, true, None, Some("analog-output-headphones"), 90), "headphones");
    assert_eq!(device_icon(DeviceKind::Sink, true, None, Some("analog-output-speaker"), 90), "volume_full");
}

#[test]
fn string_helpers() {
    assert!(str_eq("abc", "abc"));
    assert!(!str_eq("abc", "abd"));
    assert!(!str_eq("ab", "abc"));
    assert!(str_contains("xxheadphonesyy", "headphones"));
    assert!(str_contains("abc", ""));
    assert!(!str_contains("head", "headphones"));
}
