use facecam::device::{DeviceFingerprint, ElgatoProduct, FirmwareVersion, UsbSpeed};
use facecam::formats::PixelFormat;
use facecam::types::{ControlType, ControlValue};
use facecam::usb::LocatedDevice;
use facecam::view::{
    badges, get_ctrl_value, handle_keys, layout, negotiated_format, resolve_device, snapshot_path,
    state_marks, view_size, Badge, FrameStats, Keys, ViewAction, ViewProfile, ViewState, IN_FALLBACK,
    NOT_FOUND,
};

fn state() -> ViewState {
    ViewState {
        brightness: 250,
        contrast: 0,
        zoom: 1,
        paused: false,
        show_detail: true,
        snap_count: 0,
        zebras_on: false,
        focus_peak_on: false,
        mjpeg: false,
    }
}

fn no_keys() -> Keys {
    Keys {
        brighter: false,
        darker: false,
        right_bracket: false,
        left_bracket: false,
        z: false,
        x: false,
        space: false,
        f: false,
        s: false,
        r: false,
        w: false,
        e: false,
        a: false,
        d: false,
        comma: false,
        period: false,
        m: false,
        one: false,
        two: false,
        three: false,
        four: false,
    }
}

fn located(product: ElgatoProduct, node: Option<&str>) -> LocatedDevice {
    LocatedDevice {
        fingerprint: DeviceFingerprint {
            product,
            firmware: FirmwareVersion { major: 4, minor: 9 },
            serial: String::new(),
            usb_bus: 1,
            usb_address: 2,
            usb_port_numbers: vec![],
            usb_speed: UsbSpeed::Super,
            v4l2_device: None,
            v4l2_sysfs_path: None,
            driver_version: None,
            card_name: None,
        },
        sysfs_path: Some("/sys/x".to_string()),
        node: node.map(|n| n.to_string()),
    }
}

#[test]
fn the_window_of_statistics_keeps_the_last_frames() {
    let mut stats = FrameStats::new();
    assert_eq!(stats.avg_frame_size(), 0);
    for i in 0..130usize {
        stats.record_frame(i, i as u64 * 10);
    }
    assert_eq!(stats.total_frames, 130);
    assert_eq!(stats.frame_sizes.len(), 120);
    assert_eq!(stats.frame_sizes.front(), Some(&10));
    assert_eq!(stats.frame_times.back(), Some(&1290));
    assert_eq!(stats.avg_frame_size(), (10..130).sum::<usize>() / 120);
    assert!(stats.record_drop());
    assert!(!stats.record_drop());
    assert_eq!(stats.dropped_frames, 2);
}

#[test]
fn keys_change_controls_within_their_limits() {
    let mut s = state();
    let keys = Keys { brighter: true, left_bracket: true, z: true, ..no_keys() };
    let actions = handle_keys(&mut s, keys);
    assert_eq!((s.brightness, s.contrast, s.zoom), (255, 0, 2));
    assert_eq!(
        actions,
        vec![
            ViewAction::SetControl { id: 0x00980900, value: 255 },
            ViewAction::SetControl { id: 0x00980901, value: 0 },
            ViewAction::SetControl { id: 0x009a090d, value: 2 },
        ]
    );
    let actions = handle_keys(&mut s, Keys { brighter: true, darker: true, x: true, ..no_keys() });
    assert_eq!((s.brightness, s.zoom), (245, 1));
    assert_eq!(
        actions,
        vec![
            ViewAction::SetControl { id: 0x00980900, value: 255 },
            ViewAction::SetControl { id: 0x00980900, value: 245 },
            ViewAction::SetControl { id: 0x009a090d, value: 1 },
        ]
    );
}

#[test]
fn keys_toggle_switches_and_ask_for_actions_in_order() {
    let mut s = state();
    let keys = Keys {
        space: true,
        f: true,
        s: true,
        r: true,
        w: true,
        e: true,
        a: true,
        d: true,
        comma: true,
        period: true,
        ..no_keys()
    };
    let actions = handle_keys(&mut s, keys);
    assert!(s.paused && !s.show_detail && s.zebras_on && s.focus_peak_on);
    assert_eq!(s.snap_count, 1);
    assert_eq!(
        actions,
        vec![
            ViewAction::Snapshot(1),
            ViewAction::Reset,
            ViewAction::SayZebras(true),
            ViewAction::SayFocusPeaking(true),
            ViewAction::CaptureReference,
            ViewAction::ClearReference,
            ViewAction::SplitLeft,
            ViewAction::SplitRight,
        ]
    );
    assert_eq!(state_marks(&s, true), " PAUSED [A/B] [ZEBRA] [FOCUS]");
    handle_keys(&mut s, keys);
    assert!(!s.paused && s.show_detail && !s.zebras_on && !s.focus_peak_on);
    assert_eq!(state_marks(&s, false), "");
    let before = s;
    assert!(handle_keys(&mut s, no_keys()).is_empty());
    assert_eq!(s, before);
}

#[test]
fn sizes_formats_and_layout_of_the_view() {
    assert_eq!(view_size(1080), ((1920, 1080), true));
    assert_eq!(view_size(720), ((1280, 720), true));
    assert_eq!(view_size(540), ((960, 540), true));
    assert_eq!(view_size(480), ((1280, 720), false));
    assert_eq!(negotiated_format(b"MJPG"), ("MJPEG".to_string(), true));
    assert_eq!(negotiated_format(b"UYVY"), ("UYVY".to_string(), false));
    let l = layout(1280, 720);
    assert_eq!((l.width, l.height), (1280, 908));
    assert_eq!((l.scopes_y, l.stats_y, l.waterfall_y), (721, 850, 875));
    assert_eq!(snapshot_path(&Some("/home/u".to_string()), 7), "/home/u/facecam-snapshots/snap-0007.ppm");
    assert_eq!(snapshot_path(&None, 12345), "/tmp/facecam-snapshots/snap-12345.ppm");
}

#[test]
fn control_values_are_looked_up_by_name() {
    let control = |name: &str, value| ControlValue {
        name: name.to_string(),
        id: 1,
        control_type: ControlType::Integer,
        value,
        minimum: 0,
        maximum: 255,
        step: 1,
        default: 0,
        flags: 0,
        menu_items: vec![],
    };
    let controls = vec![control("Brightness", 12), control("Contrast", 5), control("Contrast", 6)];
    assert_eq!(get_ctrl_value(&controls, "Contrast"), 5);
    assert_eq!(get_ctrl_value(&controls, "Zoom, Absolute"), 0);
}

#[test]
fn the_view_refuses_a_camera_in_fallback_mode() {
    let cams = vec![
        located(ElgatoProduct::Unknown(0x84), Some("/dev/video9")),
        located(ElgatoProduct::FacecamPro, None),
        located(ElgatoProduct::FacecamPro, Some("/dev/video2")),
    ];
    assert_eq!(resolve_device(&None, &cams), Ok("/dev/video2".to_string()));
    assert_eq!(resolve_device(&Some("/dev/video7".to_string()), &cams), Ok("/dev/video7".to_string()));
    assert_eq!(resolve_device(&None, &vec![]), Err(NOT_FOUND.to_string()));
    let fallback = vec![
        located(ElgatoProduct::FacecamUsb2Fallback, None),
        located(ElgatoProduct::FacecamPro, Some("/dev/video2")),
    ];
    assert_eq!(resolve_device(&None, &fallback), Err(IN_FALLBACK.to_string()));
}

#[test]
fn keys_switch_the_format_and_the_profile() {
    let mut s = state();
    let actions = handle_keys(&mut s, Keys { m: true, ..no_keys() });
    assert_eq!(actions, vec![ViewAction::SetFormat(PixelFormat::Mjpeg)]);
    assert!(s.mjpeg);
    let actions = handle_keys(&mut s, Keys { m: true, three: true, ..no_keys() });
    assert_eq!(
        actions,
        vec![
            ViewAction::SetFormat(PixelFormat::Uyvy),
            ViewAction::ApplyProfile(ViewProfile::Lowlight),
        ]
    );
    assert_eq!(s, state());
    let keys = Keys { one: true, two: true, four: true, ..no_keys() };
    let names: Vec<&str> = handle_keys(&mut s, keys)
        .iter()
        .map(|action| match action {
            ViewAction::ApplyProfile(profile) => profile.name(),
            other => panic!("{:?}", other),
        })
        .collect();
    assert_eq!(names, vec!["default", "streaming", "meeting"]);
    assert_eq!(ViewProfile::Lowlight.name(), "lowlight");
}

#[test]
fn marks_stand_one_below_the_other() {
    let mut s = state();
    assert!(badges(&s, false).is_empty());
    assert_eq!(badges(&s, true), vec![(4, Badge::Comparison)]);
    s.focus_peak_on = true;
    assert_eq!(badges(&s, true), vec![(4, Badge::Focus), (16, Badge::Comparison)]);
    s.zebras_on = true;
    let all = badges(&s, true);
    assert_eq!(all, vec![(4, Badge::Zebra), (16, Badge::Focus), (28, Badge::Comparison)]);
    let texts: Vec<&str> = all.iter().map(|(_, badge)| badge.text()).collect();
    assert_eq!(texts, vec![" ZEBRA ", " FOCUS ", "  A/B  "]);
    assert_eq!((Badge::Zebra.color(), Badge::Comparison.color()), (0xFF4444, 0x00CCFF));
}
