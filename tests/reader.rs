use asimov_camera::{
    device_line, is_repeat, min_interval_ns, prefer_usb_by_name, record_id, record_seconds,
    should_emit, sort_devices, text_le_str, DeviceInfo,
};

fn dev(id: &str, name: &str, usb: bool) -> DeviceInfo {
    DeviceInfo { id: id.to_string(), name: name.to_string(), is_usb: usb }
}

#[test]
fn throttle_intervals() {
    assert_eq!(min_interval_ns(30000), 33_333_333);
    assert_eq!(min_interval_ns(1000), 1_000_000_000);
    assert_eq!(min_interval_ns(100), 10_000_000_000);
    assert_eq!(min_interval_ns(0), 1_000_000_000_000_000);
    assert!(should_emit(33_333_333, 33_333_333));
    assert!(!should_emit(10, 33_333_333));
}

#[test]
fn debounce_levels() {
    assert!(is_repeat(2, 3));
    assert!(!is_repeat(3, 3));
    assert!(!is_repeat(0, 0));
}

#[test]
fn record_stamps() {
    assert_eq!(record_seconds(5_500_000_000, 99), 5);
    assert_eq!(record_seconds(0, 99), 99);
    assert_eq!(record_id("avf:0", 1700000000), "avf:0#1700000000");
    assert_eq!(record_id("", u64::MAX), "#18446744073709551615");
}

#[test]
fn usb_name_preference() {
    let devices = vec![dev("avf:0", "FaceTime HD Camera", false), dev("avf:1", "Logitech BRIO", false)];
    let names = vec!["Hub".to_string(), "brio".to_string()];
    assert_eq!(prefer_usb_by_name(&devices, &names), Some("avf:1".to_string()));
    assert_eq!(prefer_usb_by_name(&devices, &Vec::new()), None);
    assert_eq!(prefer_usb_by_name(&devices, &vec!["Elgato".to_string()]), None);
}

#[test]
fn cataloger_lines() {
    assert_eq!(device_line(&dev("file:/dev/video0", "UVC Camera", true)), "file:/dev/video0: UVC Camera [usb]");
    assert_eq!(device_line(&dev("avf:0", "FaceTime", false)), "avf:0: FaceTime");
}

#[test]
fn code_point_order() {
    assert!(text_le_str("a", "b"));
    assert!(text_le_str("ab", "ab"));
    assert!(text_le_str("ab", "abc"));
    assert!(!text_le_str("abc", "ab"));
    assert!(text_le_str("B", "a"));
    assert!(text_le_str("", ""));
}

#[test]
fn devices_sorted_by_id_then_name() {
    let v = vec![
        dev("file:/dev/video2", "b", false),
        dev("file:/dev/video0", "z", true),
        dev("file:/dev/video2", "a", false),
        dev("avf:0", "x", false),
        dev("file:/dev/video0", "z", false),
    ];
    let sorted = sort_devices(v);
    let keys: Vec<(String, String, bool)> = sorted.into_iter().map(|d| (d.id, d.name, d.is_usb)).collect();
    let mut expected = vec![
        dev("file:/dev/video2", "b", false),
        dev("file:/dev/video0", "z", true),
        dev("file:/dev/video2", "a", false),
        dev("avf:0", "x", false),
        dev("file:/dev/video0", "z", false),
    ];
    expected.sort_by(|a, b| a.id.cmp(&b.id).then_with(|| a.name.cmp(&b.name)));
    let expected: Vec<(String, String, bool)> = expected.into_iter().map(|d| (d.id, d.name, d.is_usb)).collect();
    assert_eq!(keys, expected);
    assert!(sort_devices(Vec::new()).is_empty());
}
