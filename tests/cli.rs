use asimov_camera::{exit_status, parse_dimensions, CameraError, DimensionsError};

#[test]
fn exit_statuses() {
    assert_eq!(exit_status(&CameraError::NoDriver), 69);
    assert_eq!(exit_status(&CameraError::NoCamera), 64);
    assert_eq!(exit_status(&CameraError::NotConfigured), 78);
    assert_eq!(exit_status(&CameraError::invalid_config("x")), 64);
    assert_eq!(exit_status(&CameraError::unsupported("x")), 69);
    assert_eq!(exit_status(&CameraError::driver("reading", "eof")), 70);
    assert_eq!(exit_status(&CameraError::other("x")), 70);
    assert_eq!(exit_status(&CameraError::Closed), 70);
}

#[test]
fn dimensions_accepted() {
    assert_eq!(parse_dimensions("1920x1080").unwrap(), (1920, 1080));
    assert_eq!(parse_dimensions(" 640 x 480 ").unwrap(), (640, 480));
    assert_eq!(parse_dimensions("1280\u{d7}720").unwrap(), (1280, 720));
    assert_eq!(parse_dimensions("160x120").unwrap(), (160, 120));
    assert_eq!(parse_dimensions("7680x4320").unwrap(), (7680, 4320));
}

#[test]
fn dimensions_refused() {
    assert!(matches!(parse_dimensions("1920"), Err(DimensionsError::InvalidFormat)));
    assert!(matches!(parse_dimensions("1x2x3"), Err(DimensionsError::InvalidFormat)));
    assert!(matches!(parse_dimensions("x480"), Err(DimensionsError::InvalidFormat)));
    assert!(matches!(parse_dimensions("abcx480"), Err(DimensionsError::InvalidWidth(w)) if w == "abc"));
    assert!(matches!(parse_dimensions("640x4a"), Err(DimensionsError::InvalidHeight(h)) if h == "4a"));
    assert!(matches!(parse_dimensions("100x480"), Err(DimensionsError::WidthOutOfRange(100))));
    assert!(matches!(parse_dimensions("640x5000"), Err(DimensionsError::HeightOutOfRange(5000))));
}
