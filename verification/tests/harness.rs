use facecam::checks::{
    plan_roundtrip, recovery_precheck, roundtrip_values, test_control_enumeration,
    test_control_roundtrip, test_device_detection, test_format_enumeration,
    test_format_negotiation, test_kernel_modules, test_usb_recovery, test_usb_topology, CycleReply,
    CycleStep, OpenClose, Stability, StreamReply, StreamStep, StreamTest,
};
use facecam::device::{DeviceFingerprint, ElgatoProduct, FirmwareVersion, UsbSpeed};
use facecam::diagnostics::{KernelModuleInfo, SystemInfo};
use facecam::formats::PixelFormat;
use facecam::harness::{
    detect_product_firmware_or_default, plan_suite, print_single_result, report_path,
    resolve_target, run_test, saved_reports, skip_line, suite_report, suite_results, test_applies,
    CyclePhase, TestDetails, TestId,
};
use facecam::recovery::DevicePresence;
use facecam::types::{ControlType, ControlValue};
use facecam::usb::UsbTopology;
use facecam::v4l2::FormatDescription;

const FW: FirmwareVersion = FirmwareVersion { major: 4, minor: 9 };

fn text(s: &str) -> Option<String> {
    Some(s.to_string())
}

fn camera(product: ElgatoProduct, node: Option<&str>) -> DeviceFingerprint {
    DeviceFingerprint {
        product,
        firmware: FW,
        serial: "S".to_string(),
        usb_bus: 1,
        usb_address: 2,
        usb_port_numbers: vec![4],
        usb_speed: UsbSpeed::Super,
        v4l2_device: node.map(|n| n.to_string()),
        v4l2_sysfs_path: None,
        driver_version: None,
        card_name: None,
    }
}

fn modules(uvcvideo_loaded: bool, v4l2loopback_loaded: bool) -> KernelModuleInfo {
    KernelModuleInfo {
        uvcvideo_loaded,
        uvcvideo_version: None,
        v4l2loopback_loaded,
        v4l2loopback_version: None,
        v4l2loopback_params: None,
    }
}

fn format(pixel_format: PixelFormat) -> FormatDescription {
    FormatDescription {
        index: 0,
        flags: 0,
        description: String::new(),
        pixel_format,
        fourcc_raw: pixel_format.to_fourcc(),
    }
}

fn control(name: &str, minimum: i64, maximum: i64) -> ControlValue {
    ControlValue {
        name: name.to_string(),
        id: 5,
        control_type: ControlType::Integer,
        value: 3,
        minimum,
        maximum,
        step: 1,
        default: 0,
        flags: 0,
        menu_items: vec![],
    }
}

#[test]
fn the_suite_skips_the_tests_of_the_pro_elsewhere() {
    let plan = plan_suite(ElgatoProduct::Facecam);
    assert_eq!(plan.len(), 11);
    assert_eq!(plan.iter().filter(|t| t.runs).count(), 8);
    assert_eq!(plan[0].id, TestId::DeviceDetection);
    assert_eq!(plan[10].id.name(), "pro_stream_start_recovery");
    assert!(plan_suite(ElgatoProduct::FacecamPro).iter().all(|t| t.runs));
    assert!(test_applies(ElgatoProduct::CamLink4K, &vec![]));
    assert!(test_applies(ElgatoProduct::CamLink4K, &vec![ElgatoProduct::Facecam, ElgatoProduct::CamLink4K]));
    assert!(!test_applies(ElgatoProduct::CamLink4K, &vec![ElgatoProduct::Facecam]));
    assert_eq!(
        skip_line(TestId::ProH264Probe, ElgatoProduct::Facecam),
        format!("  [SKIP] pro_h264_probe (does not apply to {})\n", ElgatoProduct::Facecam.to_text())
    );
}

#[test]
fn suites_count_and_report_their_tests() {
    let good = run_test("a", 12, Ok(TestDetails::Controls(vec![])));
    let bad = run_test("b", 3, Err("broke".to_string()));
    assert!(good.passed && good.error.is_none());
    assert!(!bad.passed && matches!(bad.details, TestDetails::Nothing));
    assert_eq!(print_single_result(&good), "[PASS] a (12ms)\n");
    assert_eq!(print_single_result(&bad), "[FAIL] b (3ms)\n  Error: broke\n");
    let system = SystemInfo {
        hostname: String::new(),
        kernel_version: String::new(),
        os_release: String::new(),
        ubuntu_version: String::new(),
        uptime_secs: 0,
    };
    let suite = suite_results(1, 2, "/dev/video0".to_string(), system, modules(true, true), vec![good, bad]);
    assert_eq!((suite.passed, suite.failed, suite.total), (1, 1, 2));
    assert_eq!((suite.started_at, suite.completed_at), (1, 2));
    assert_eq!(
        suite_report(&suite),
        "\n=== Results ===\n\n  [PASS] a (12ms)\n  [FAIL] b (3ms)\n        Error: broke\n\n  1/2 passed, 1 failed\n"
    );
}

#[test]
fn reports_are_saved_and_found_again() {
    assert_eq!(
        report_path(&None, 0).unwrap(),
        "/tmp/.local/share/facecam/harness/harness-19700101-000000.json"
    );
    assert_eq!(report_path(&None, i64::MIN), None);
    let names: Vec<String> = ["b.json", ".json", "x.txt", "a.json", "json", "c.JSON", "..json"]
        .iter()
        .map(|s| s.to_string())
        .collect();
    assert_eq!(saved_reports(&names), vec!["..json", "a.json", "b.json"]);
}

#[test]
fn targets_are_resolved_like_sources() {
    let cams = Ok(vec![
        camera(ElgatoProduct::FacecamPro, None),
        camera(ElgatoProduct::Facecam, Some("/dev/video3")),
    ]);
    let (found, path) = resolve_target(&None, false, &cams, true, &vec![]).unwrap();
    assert_eq!((found.product, path.as_str()), (ElgatoProduct::Facecam, "/dev/video3"));
    assert_eq!(found.usb_port_numbers, vec![4]);
    let (owner, path) = resolve_target(&text("/dev/video3"), true, &cams, true, &vec![]).unwrap();
    assert_eq!((owner.product, path.as_str()), (ElgatoProduct::Facecam, "/dev/video3"));
    let (unknown, path) = resolve_target(&text("/dev/video8"), true, &cams, true, &vec![]).unwrap();
    assert_eq!((unknown.product, path.as_str()), (ElgatoProduct::Unknown(0), "/dev/video8"));
    assert_eq!(unknown.v4l2_device, text("/dev/video8"));
    assert_eq!(unknown.usb_speed, UsbSpeed::Unknown);
    assert_eq!(
        resolve_target(&text("/dev/video8"), false, &cams, true, &vec![]).unwrap_err(),
        "--device /dev/video8 does not exist"
    );
    let (linked, path) = resolve_target(&None, false, &Ok(vec![]), true, &vec![]).unwrap();
    assert_eq!((linked.product, path.as_str()), (ElgatoProduct::Facecam, "/dev/video-facecam"));
    assert_eq!(
        resolve_target(&None, false, &Err("usb".to_string()), true, &vec![]).unwrap_err(),
        "usb"
    );
    let connected = vec![camera(ElgatoProduct::FacecamUsb2Fallback, None), camera(ElgatoProduct::Unknown(0x84), None)];
    let names: Vec<String> = connected.iter().map(|d| d.product.to_text()).collect();
    assert_eq!(
        resolve_target(&None, false, &Ok(vec![]), false, &connected).unwrap_err(),
        format!("No Elgato UVC capture device found. Connected Elgato devices: {:?}", names)
    );
    assert_eq!(
        detect_product_firmware_or_default(&vec![camera(ElgatoProduct::Unknown(1), None), camera(ElgatoProduct::FacecamPro, None)]),
        (ElgatoProduct::FacecamPro, FW)
    );
    assert_eq!(
        detect_product_firmware_or_default(&vec![]),
        (ElgatoProduct::Facecam, FirmwareVersion { major: 0, minor: 0 })
    );
}

#[test]
fn enumerations_have_to_find_something() {
    let devices = vec![camera(ElgatoProduct::Unknown(1), None), camera(ElgatoProduct::FacecamPro, None)];
    assert!(matches!(test_device_detection(&devices), Ok(TestDetails::Devices(d)) if d.len() == 1));
    assert_eq!(
        test_device_detection(&vec![]).unwrap_err(),
        "No Elgato UVC capture device detected via USB enumeration"
    );
    let formats = vec![format(PixelFormat::Nv12), format(PixelFormat::Yu12), format(PixelFormat::Yuyv)];
    match test_format_enumeration(formats.clone(), 9, ElgatoProduct::Facecam, FW) {
        Ok(TestDetails::Formats { formats, mode_count, bogus_format_count, has_yuyv, has_mjpeg }) => {
            assert_eq!((formats.len(), mode_count, bogus_format_count), (3, 9, 2));
            assert!(has_yuyv && !has_mjpeg);
        }
        other => panic!("{:?}", other),
    }
    assert_eq!(
        test_format_enumeration(vec![], 0, ElgatoProduct::Facecam, FW).unwrap_err(),
        "No formats enumerated from device"
    );
    assert!(matches!(
        test_control_enumeration(&vec![control("a", 0, 1), control("b", 0, 1)]),
        Ok(TestDetails::Controls(names)) if names == vec!["a", "b"]
    ));
    assert_eq!(
        test_control_enumeration(&vec![]).unwrap_err(),
        "No controls enumerated from device"
    );
    let negotiated = test_format_negotiation(&formats, &vec![true, false, true], ElgatoProduct::Facecam, FW);
    let seen: Vec<_> = negotiated
        .iter()
        .map(|n| (n.format.as_str(), n.negotiation_ok, n.expected_reliable))
        .collect();
    assert_eq!(seen, vec![("NV12", true, false), ("YU12", false, false), ("YUYV", true, true)]);
}

#[test]
fn open_close_cycles_count_once_each() {
    let fail = || CycleReply::Failed("busy".to_string());
    let mut t = OpenClose::new(3);
    t.reply(CycleReply::Done);
    assert_eq!(t.step, CycleStep::QueryCaps);
    t.reply(CycleReply::Done);
    assert_eq!(t.step, CycleStep::Close);
    t.reply(CycleReply::Done);
    t.reply(fail());
    assert_eq!(t.step, CycleStep::Reset);
    t.reply(CycleReply::Done);
    assert_eq!(t.step, CycleStep::Settle);
    t.reply(CycleReply::Done);
    t.reply(CycleReply::Done);
    t.reply(fail());
    t.reply(CycleReply::Done);
    assert_eq!(t.step, CycleStep::Finished);
    assert_eq!(t.successes, 1);
    let seen: Vec<_> = t.failures.iter().map(|f| (f.cycle, f.phase)).collect();
    assert_eq!(seen, vec![(1, CyclePhase::Open), (2, CyclePhase::QueryCaps)]);
    assert_eq!(t.test_open_close().unwrap_err(), "2 of 3 open/close cycles failed");
    let mut reset_fails = OpenClose::new(1);
    reset_fails.reply(fail());
    reset_fails.reply(fail());
    assert_eq!(reset_fails.step, CycleStep::Finished);
    let none = OpenClose::new(0);
    assert!(matches!(none.test_open_close(), Ok(TestDetails::OpenClose { cycles: 0, successes: 0 })));
}

#[test]
fn round_trips_use_the_middle_of_the_range() {
    let plan = plan_roundtrip(&vec![control("gain", 0, 1), control("brightness", -5, 10)]).unwrap();
    assert_eq!((plan.id, plan.original, plan.test_value), (5, 3, 2));
    assert_eq!(roundtrip_values(&plan), (2, 3));
    let trip = test_control_roundtrip(&plan, true, Some(2), true);
    assert!(trip.readback_matches && trip.restored);
    let lost = test_control_roundtrip(&plan, false, None, false);
    assert_eq!((lost.readback, lost.readback_matches), (-1, false));
    let reversed = plan_roundtrip(&vec![control("brightness", 10, -5)]).unwrap();
    assert_eq!(reversed.test_value, 10 + (-5 - 10) / 2);
    assert!(plan_roundtrip(&vec![control("Brightness", 0, 1)]).is_none());
}

#[test]
fn stability_needs_every_response() {
    let mut s = Stability::new();
    assert!(s.goes_on(29, 30) && !s.goes_on(30, 30) && !s.goes_on(0, 0));
    for ok in [true, true, false] {
        s = s.record(ok);
    }
    assert_eq!(
        s.test_stream_stability(30).unwrap_err(),
        "Device became unresponsive 1 times during 3 checks"
    );
    assert!(matches!(
        Stability::new().record(true).test_stream_stability(30),
        Ok(TestDetails::Stability { duration_secs: 30, checks: 1 })
    ));
}

#[test]
fn topology_modules_and_recovery_are_judged() {
    let topology = |speed: Option<&str>| UsbTopology {
        sysfs_path: "/sys/x".to_string(),
        busnum: None,
        devnum: None,
        speed: speed.map(|s| s.to_string()),
        version: text("3.20"),
        maxchild: None,
        authorized: None,
        manufacturer: None,
        product_name: None,
        bcd_device: None,
        configuration: None,
    };
    for speed in ["5000", "10000", "20000"] {
        assert!(test_usb_topology(&topology(Some(speed))).is_ok());
    }
    assert_eq!(
        test_usb_topology(&topology(Some("480"))).unwrap_err(),
        "Device not on USB 3.0+ (speed: Some(\"480\")). USB 3.0 is required."
    );
    assert_eq!(
        test_usb_topology(&topology(None)).unwrap_err(),
        "Device not on USB 3.0+ (speed: None). USB 3.0 is required."
    );
    assert!(matches!(test_kernel_modules(modules(true, true)), Ok(TestDetails::Modules { issues, .. }) if issues.is_empty()));
    assert!(matches!(test_kernel_modules(modules(true, false)), Ok(TestDetails::Modules { issues, .. }) if issues.len() == 1));
    assert_eq!(
        test_kernel_modules(modules(false, true)).unwrap_err(),
        "uvcvideo kernel module not loaded"
    );
    let presence = |connected| DevicePresence { connected, authorized: true, sysfs_path: None };
    assert!(recovery_precheck(&presence(true)).is_ok());
    assert_eq!(
        recovery_precheck(&presence(false)).unwrap_err(),
        "Facecam not connected — cannot test recovery"
    );
    assert!(matches!(
        test_usb_recovery(true, &presence(true)),
        Ok(TestDetails::Recovery { reset_success: true, device_recovered: true, device_authorized: true })
    ));
    assert_eq!(
        test_usb_recovery(true, &presence(false)).unwrap_err(),
        "Device did not re-appear after USB reset"
    );
}

#[test]
fn streaming_tests_have_two_attempts() {
    let fail = || StreamReply::Failed("timeout".to_string());
    let mut t = StreamTest::format_probe();
    for got in [false, false, true, true, false] {
        if matches!(t.step, StreamStep::Start { .. }) {
            t = t.reply(StreamReply::Done);
        }
        t = t.reply(if got { StreamReply::Done } else { fail() });
    }
    assert!(matches!(t.step, StreamStep::Stop { attempt: 1, received: 2 }));
    t = t.reply(StreamReply::Done);
    assert!(matches!(t.step, StreamStep::Start { attempt: 2 }));
    assert!(t.probe_pro_format_with_recovery(PixelFormat::H264, 1920, 1080).is_none());
    let mut good = t.clone().reply(StreamReply::Done);
    for got in [true, true, false, false, true] {
        good = good.reply(if got { StreamReply::Done } else { fail() });
    }
    good = good.reply(StreamReply::Done);
    assert!(matches!(
        good.probe_pro_format_with_recovery(PixelFormat::H264, 1920, 1080),
        Some(Ok(TestDetails::ProFormat { format: PixelFormat::H264, frames_received: 3, attempts: 2 }))
    ));
    let mut bad = t.clone().reply(StreamReply::Done);
    for _ in 0..5 {
        bad = bad.reply(fail());
    }
    bad = bad.reply(StreamReply::Done);
    assert_eq!(
        bad.probe_pro_format_with_recovery(PixelFormat::Nv12, 1920, 1080).unwrap().unwrap_err(),
        "NV12 probe at 1920x1080 failed both attempts (got 0 frames on attempt 2)"
    );
    let broken = t.reply(fail());
    assert_eq!(
        broken.probe_pro_format_with_recovery(PixelFormat::Nv12, 1, 1).unwrap().unwrap_err(),
        "timeout"
    );
    let start = StreamTest::stream_start().reply(StreamReply::Done).reply(fail()).reply(StreamReply::Done);
    assert!(matches!(start.step, StreamStep::Start { attempt: 2 }));
    let twice = start.clone().reply(StreamReply::Done).reply(fail()).reply(StreamReply::Done);
    assert_eq!(
        twice.test_pro_stream_start_recovery(5).unwrap().unwrap_err(),
        "two MJPG STREAMON attempts both failed to produce a frame"
    );
    let second = start.reply(StreamReply::Done).reply(StreamReply::Done).reply(StreamReply::Done);
    assert!(matches!(
        second.test_pro_stream_start_recovery(5),
        Some(Ok(TestDetails::StreamStart { attempts: 2, elapsed_ms: 5 }))
    ));
}
