use asimov_camera::{
    cm_time_to_ns, choose_format, contains_case_insensitive, dedup_preserve_order,
    default_device_fallback, explicit_device, extract_dshow_quoted_name, extract_quoted_value,
    ffmpeg_args, ffmpeg_format, format_exit, format_milli, frame_timescale, get_input_device,
    input_fps, is_usb_text, monitor_action, normalize_device_id, parse_avfoundation_video_devices,
    parse_dshow_video_devices, parse_u32, pick_device, reader_action, rgb24_frame, rgb24_layout,
    usb_product_names, video_node_index, AsimovCameraErrorCode, CameraBackend, CameraConfig,
    CameraError, CameraEvent, DeviceInfo, FormatInfo, MonitorAction, PixelFormat, ReadOutcome,
    ReaderAction, TargetOs, WaitOutcome,
};

fn dev(id: &str, usb: bool) -> DeviceInfo {
    DeviceInfo { id: id.to_string(), name: format!("{id} name"), is_usb: usb }
}

#[test]
fn normalize_keeps_prefixed_ids() {
    for os in [TargetOs::Macos, TargetOs::Linux, TargetOs::Windows, TargetOs::Other] {
        assert_eq!(normalize_device_id("  avf:1 ", os), "avf:1");
        assert_eq!(normalize_device_id("file:/dev/video2", os), "file:/dev/video2");
        assert_eq!(normalize_device_id("dshow:video=X", os), "dshow:video=X");
    }
}

#[test]
fn normalize_per_platform() {
    assert_eq!(normalize_device_id(" 0 ", TargetOs::Macos), "avf:0");
    assert_eq!(normalize_device_id("0", TargetOs::Linux), "0");
    assert_eq!(normalize_device_id("/dev/video0", TargetOs::Linux), "file:/dev/video0");
    assert_eq!(normalize_device_id("/dev/video0", TargetOs::Macos), "/dev/video0");
    assert_eq!(normalize_device_id("video=Cam", TargetOs::Windows), "dshow:video=Cam");
    assert_eq!(normalize_device_id("\"HD Webcam\"", TargetOs::Windows), "dshow:video=HD Webcam");
    assert_eq!(normalize_device_id("\"\"", TargetOs::Windows), "\"\"");
    assert_eq!(normalize_device_id("Cam", TargetOs::Windows), "Cam");
}

#[test]
fn input_device_per_platform() {
    assert_eq!(get_input_device("avf:1", TargetOs::Macos), "1");
    assert_eq!(get_input_device("2", TargetOs::Macos), "2");
    assert_eq!(get_input_device("file:3", TargetOs::Linux), "/dev/video3");
    assert_eq!(get_input_device("file:/dev/video1", TargetOs::Linux), "/dev/video1");
    assert_eq!(get_input_device("4", TargetOs::Linux), "/dev/video4");
    assert_eq!(get_input_device("dshow:video=Cam", TargetOs::Windows), "video=Cam");
}

#[test]
fn ffmpeg_formats() {
    assert_eq!(ffmpeg_format(TargetOs::Macos), Some("avfoundation"));
    assert_eq!(ffmpeg_format(TargetOs::Linux), Some("v4l2"));
    assert_eq!(ffmpeg_format(TargetOs::Windows), Some("dshow"));
    assert_eq!(ffmpeg_format(TargetOs::Android), None);
}

#[test]
fn ffmpeg_command_line_linux() {
    let config = CameraConfig::new(1280, 720, 29970).with_device(" file:1 ");
    let args = ffmpeg_args(&config, TargetOs::Linux).unwrap();
    let expected: Vec<&str> = vec![
        "-hide_banner", "-nostdin", "-nostats", "-f", "v4l2", "-loglevel", "error", "-video_size",
        "1280x720", "-framerate", "29.97", "-i", "/dev/video1", "-pix_fmt", "rgb24", "-f",
        "rawvideo", "pipe:1",
    ];
    assert_eq!(args, expected);
}

#[test]
fn ffmpeg_command_line_macos() {
    let config = CameraConfig::new(640, 480, 5000);
    let args = ffmpeg_args(&config, TargetOs::Macos).unwrap();
    let expected: Vec<&str> = vec![
        "-hide_banner", "-nostdin", "-nostats", "-f", "avfoundation", "-loglevel", "error",
        "-video_size", "640x480", "-framerate", "30", "-pixel_format", "0rgb", "-i", "", "-pix_fmt",
        "rgb24", "-f", "rawvideo", "pipe:1",
    ];
    assert_eq!(args, expected);
    assert!(ffmpeg_args(&config, TargetOs::Other).is_none());
}

#[test]
fn input_fps_clamps() {
    assert_eq!(input_fps(50, TargetOs::Linux), 30000);
    assert_eq!(input_fps(100, TargetOs::Linux), 30000);
    assert_eq!(input_fps(101, TargetOs::Linux), 101);
    assert_eq!(input_fps(500000, TargetOs::Windows), 240000);
    assert_eq!(input_fps(15000, TargetOs::Macos), 30000);
}

#[test]
fn milli_rates_as_decimals() {
    assert_eq!(format_milli(30000), "30");
    assert_eq!(format_milli(29970), "29.97");
    assert_eq!(format_milli(500), "0.5");
    assert_eq!(format_milli(1050), "1.05");
    assert_eq!(format_milli(125), "0.125");
    assert_eq!(format_milli(0), "0");
}

#[test]
fn exit_descriptions() {
    assert_eq!(format_exit(Some(1)), "code=1");
    assert_eq!(format_exit(Some(-9)), "code=-9");
    assert_eq!(format_exit(None), "terminated");
}

#[test]
fn quoted_values() {
    let line = "| \"USB Product Name\" = \"FaceTime HD\"";
    assert_eq!(extract_quoted_value(line, "\"USB Product Name\""), Some("FaceTime HD".to_string()));
    assert_eq!(extract_quoted_value(line, "\"kUSBProductString\""), None);
    assert_eq!(extract_quoted_value("\"USB Product Name\" \"x\"", "\"USB Product Name\""), None);
    assert_eq!(extract_quoted_value("\"USB Product Name\" = \"open", "\"USB Product Name\""), None);
}

#[test]
fn dshow_quoted_names() {
    assert_eq!(extract_dshow_quoted_name("  \"HD Camera\" (video)"), Some("HD Camera".to_string()));
    assert_eq!(extract_dshow_quoted_name("\"\" (video)"), None);
    assert_eq!(extract_dshow_quoted_name("HD Camera"), None);
    assert_eq!(extract_dshow_quoted_name("\"unterminated"), None);
}

#[test]
fn case_insensitive_contains() {
    assert!(contains_case_insensitive("Logitech BRIO", "brio"));
    assert!(!contains_case_insensitive("FaceTime", "usb"));
    assert!(contains_case_insensitive("x", ""));
}

#[test]
fn avfoundation_listing() {
    let s = "[AVFoundation indev @ 0x1] AVFoundation video devices:\n\
             [AVFoundation indev @ 0x1] [0] FaceTime HD Camera\n\
             [AVFoundation indev @ 0x1] [1] Capture screen 0\n\
             [AVFoundation indev @ 0x1] [x] Broken\n\
             [AVFoundation indev @ 0x1] AVFoundation audio devices:\n\
             [AVFoundation indev @ 0x1] [0] Microphone\n";
    let devs = parse_avfoundation_video_devices(s).unwrap();
    assert_eq!(devs.len(), 2);
    assert_eq!(devs[0].index, 0);
    assert_eq!(devs[0].name, "FaceTime HD Camera");
    assert_eq!(devs[1].index, 1);
    assert_eq!(devs[1].name, "Capture screen 0");
    assert!(parse_avfoundation_video_devices("nothing here").is_none());
}

#[test]
fn dshow_listing() {
    let s = "[dshow @ 0x1] DirectShow video devices\r\n\
             [dshow @ 0x1]  \"Integrated Camera\"\r\n\
             \"USB Video Device\" (video)\r\n\
             [dshow @ 0x1] DirectShow audio devices\r\n\
             \"Microphone\"\r\n";
    let devs = parse_dshow_video_devices(s);
    assert_eq!(devs.len(), 1);
    assert_eq!(devs[0].id, "dshow:video=USB Video Device");
    assert_eq!(devs[0].name, "USB Video Device");
    assert!(devs[0].is_usb);
    let plain = parse_dshow_video_devices("DirectShow video devices\n\"Integrated Camera\"\n");
    assert_eq!(plain.len(), 1);
    assert!(!plain[0].is_usb);
}

#[test]
fn usb_names_from_registry() {
    let lines: Vec<String> = vec![
        "  \"USB Product Name\" = \"BRIO\"".to_string(),
        "  \"kUSBProductString\" = \"Hub\"".to_string(),
        "  \"USB Product Name\" = \"BRIO\"".to_string(),
        "  other = 1".to_string(),
    ];
    assert_eq!(usb_product_names(&lines), vec!["BRIO".to_string(), "Hub".to_string()]);
}

#[test]
fn video_node_names() {
    assert_eq!(video_node_index("video0"), Some(0));
    assert_eq!(video_node_index("video12"), Some(12));
    assert_eq!(video_node_index("video"), None);
    assert_eq!(video_node_index("vbi0"), None);
    assert_eq!(video_node_index("video1a"), None);
}

#[test]
fn usb_text() {
    assert!(is_usb_text("../../devices/pci0000:00/0000:00:14.0/USB1/1-1"));
    assert!(!is_usb_text("platform/soc"));
}

#[test]
fn u32_parsing() {
    assert_eq!(parse_u32("42"), Some(42));
    assert_eq!(parse_u32("+7"), Some(7));
    assert_eq!(parse_u32("4294967295"), Some(u32::MAX));
    assert_eq!(parse_u32("4294967296"), None);
    assert_eq!(parse_u32(""), None);
    assert_eq!(parse_u32("+"), None);
    assert_eq!(parse_u32("-1"), None);
    assert_eq!(parse_u32("1 "), None);
}

#[test]
fn device_choice() {
    assert_eq!(pick_device(&vec![]), None);
    assert_eq!(pick_device(&vec![dev("a", false), dev("b", true), dev("c", true)]), Some("b".to_string()));
    assert_eq!(pick_device(&vec![dev("a", false), dev("b", false)]), Some("a".to_string()));
    assert_eq!(explicit_device(&Some("  cam ".to_string())), Some("cam".to_string()));
    assert_eq!(explicit_device(&Some("   ".to_string())), None);
    assert_eq!(explicit_device(&None), None);
}

#[test]
fn fallback_devices() {
    assert_eq!(default_device_fallback(TargetOs::Macos), "avf:0");
    assert_eq!(default_device_fallback(TargetOs::Windows), "dshow:video=default");
    assert_eq!(default_device_fallback(TargetOs::Linux), "file:/dev/video0");
    assert_eq!(default_device_fallback(TargetOs::Other), "");
}

#[test]
fn dedup_keeps_first_occurrences() {
    let v: Vec<String> = ["b", "a", "b", "c", "a"].iter().map(|s| s.to_string()).collect();
    assert_eq!(dedup_preserve_order(v), vec!["b".to_string(), "a".to_string(), "c".to_string()]);
    assert!(dedup_preserve_order(Vec::new()).is_empty());
}

#[test]
fn format_choice() {
    let formats = vec![
        FormatInfo { width: 640, height: 480, max_rates_milli: vec![15000] },
        FormatInfo { width: 1280, height: 720, max_rates_milli: vec![10000, 30000] },
        FormatInfo { width: 640, height: 480, max_rates_milli: vec![60000] },
    ];
    assert_eq!(choose_format(&formats, 640, 480, 30000), Some(2));
    assert_eq!(choose_format(&formats, 640, 480, 15000), Some(0));
    assert_eq!(choose_format(&formats, 1280, 720, 30000), Some(1));
    assert_eq!(choose_format(&formats, 1920, 1080, 30000), None);
    assert_eq!(choose_format(&formats, 0, 480, 30000), None);
}

#[test]
fn frame_durations_and_times() {
    assert_eq!(frame_timescale(0), None);
    assert_eq!(frame_timescale(200), Some(1));
    assert_eq!(frame_timescale(29970), Some(30));
    assert_eq!(frame_timescale(24400), Some(24));
    assert_eq!(cm_time_to_ns(3, 2), 1_500_000_000);
    assert_eq!(cm_time_to_ns(0, 2), 0);
    assert_eq!(cm_time_to_ns(5, 0), 0);
    assert_eq!(cm_time_to_ns(i64::MAX, 1), u64::MAX);
}

#[test]
fn rgb24_layouts() {
    assert_eq!(rgb24_layout(640, 480), (1920, 921600));
    assert_eq!(rgb24_layout(u32::MAX, 2).0, u32::MAX);
    let f = rgb24_frame(&[1, 2, 3, 4, 5, 6], 2, 1, 6, 99);
    assert!(f.validate());
    assert_eq!(f.pixel_format, PixelFormat::Rgb8);
    assert_eq!(f.timestamp_ns, 99);
    assert_eq!(&f.data[..], &[1, 2, 3, 4, 5, 6]);
}

#[test]
fn reader_and_monitor_decisions() {
    assert!(matches!(reader_action(ReadOutcome::Filled), ReaderAction::Submit));
    assert!(matches!(
        reader_action(ReadOutcome::EndOfStream),
        ReaderAction::Fail(CameraEvent::Error { error: CameraError::Other(_), .. })
    ));
    match reader_action(ReadOutcome::Failed("boom".to_string())) {
        ReaderAction::Fail(CameraEvent::Error { error: CameraError::DriverError { context, source }, .. }) => {
            assert_eq!(context, "ffmpeg read");
            assert_eq!(source, "boom");
        },
        _ => panic!("expected a driver error"),
    }
    assert!(matches!(monitor_action(WaitOutcome::StillRunning, false), MonitorAction::Wait));
    assert!(matches!(monitor_action(WaitOutcome::Exited(Some(0)), true), MonitorAction::Quit));
    match monitor_action(WaitOutcome::Exited(Some(1)), false) {
        MonitorAction::Fail(CameraEvent::Error { backend, error: CameraError::Other(m) }) => {
            assert_eq!(backend, CameraBackend::Ffmpeg);
            assert_eq!(m, "ffmpeg exited: code=1");
        },
        _ => panic!("expected an error event"),
    }
    assert!(matches!(
        monitor_action(WaitOutcome::Failed("x".to_string()), false),
        MonitorAction::Fail(CameraEvent::Error { error: CameraError::DriverError { .. }, .. })
    ));
}

#[test]
fn error_constructors_and_codes() {
    assert!(matches!(CameraError::unsupported("u"), CameraError::Unsupported(m) if m == "u"));
    assert!(matches!(CameraError::invalid_config("c"), CameraError::InvalidConfig(m) if m == "c"));
    assert!(matches!(CameraError::other("o"), CameraError::Other(m) if m == "o"));
    assert_eq!(AsimovCameraErrorCode::from(CameraError::NoDriver), AsimovCameraErrorCode::NoDriver);
    assert_eq!(AsimovCameraErrorCode::from(CameraError::NoCamera), AsimovCameraErrorCode::NoCamera);
    assert_eq!(AsimovCameraErrorCode::from(CameraError::Closed), AsimovCameraErrorCode::DriverError);
    assert_eq!(AsimovCameraErrorCode::Success.code(), 0);
    assert_eq!(AsimovCameraErrorCode::InvalidArgument.code(), 4);
}

#[test]
fn config_defaults_and_builders() {
    let c = CameraConfig::default();
    assert_eq!((c.width, c.height, c.fps_milli, c.buffer_frames), (640, 480, 30000, 2));
    assert!(c.device.is_none() && c.pixel_format.is_none() && !c.diagnostics);
    let c = CameraConfig::new(320, 240, 15000)
        .with_device("avf:0")
        .with_pixel_format(PixelFormat::Bgra8)
        .with_buffer_frames(0)
        .with_diagnostics(true);
    assert_eq!(c.device.as_deref(), Some("avf:0"));
    assert_eq!(c.pixel_format, Some(PixelFormat::Bgra8));
    assert_eq!(c.buffer_frames, 1);
    assert!(c.diagnostics);
    assert_eq!(CameraConfig::default().with_buffer_frames(5).buffer_frames, 5);
}

#[test]
fn decimal_text_matches_std() {
    for n in [0i128, 7, 10, 99, 1234567890, -1, -10, i128::MAX, i128::MIN] {
        assert_eq!(asimov_camera::int_to_string(n), n.to_string());
    }
}

#[test]
fn lines_match_std() {
    for text in ["", "a", "a\n", "a\r\nb\n\nc\r", "\n\n", "x\ry\nz", "one\r\n"] {
        let ours = asimov_camera::split_lines(text);
        let std_lines: Vec<String> = text.lines().map(|l| l.to_string()).collect();
        assert_eq!(ours, std_lines, "text {text:?}");
    }
}
