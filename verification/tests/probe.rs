use facecam::bytes::{write_u32, ByteOrder};
use facecam::device::{DeviceFingerprint, ElgatoProduct, FirmwareVersion, UsbSpeed};
use facecam::diagnostics::{KernelModuleInfo, SystemInfo};
use facecam::formats::{FormatVerdict, PixelFormat, VideoMode};
use facecam::probe::{
    control_report, detect_product_firmware_or_default, detection_report, enrich, format_listing,
    mode_line, modes_to_validate, quirk_report, registry_report, resolve_device, system_report,
    topology_report, validate_single_format, validation_summary, Delivery, Negotiation, NOTHING_DETECTED,
    NOT_RESOLVED,
};
use facecam::quirks::{applicable_quirks, quirk_registry};
use facecam::types::{ControlType, ControlValue, MenuItem};
use facecam::usb::{LocatedDevice, UsbTopology};
use facecam::v4l2::{query_capabilities, FormatDescription};

const FW: FirmwareVersion = FirmwareVersion { major: 4, minor: 9 };

fn text(s: &str) -> Option<String> {
    Some(s.to_string())
}

fn device(product: ElgatoProduct, firmware: FirmwareVersion, speed: UsbSpeed) -> DeviceFingerprint {
    DeviceFingerprint {
        product,
        firmware,
        serial: String::new(),
        usb_bus: 1,
        usb_address: 2,
        usb_port_numbers: vec![],
        usb_speed: speed,
        v4l2_device: None,
        v4l2_sysfs_path: None,
        driver_version: None,
        card_name: None,
    }
}

fn mode(format: PixelFormat, width: u32, height: u32) -> VideoMode {
    VideoMode { format, width, height, fps_numerator: 1, fps_denominator: 30 }
}

#[test]
fn devices_are_enriched_step_by_step() {
    let mut block = [0u8; 104];
    block[16..19].copy_from_slice(b"Cam");
    write_u32(ByteOrder::Little, &mut block, 80, 0x060102);
    let caps = Some(query_capabilities(ByteOrder::Little, &block));
    let cam = device(ElgatoProduct::Facecam, FW, UsbSpeed::Super);
    let full = enrich(&cam, &text("/sys/x"), &text("/dev/video0"), &caps);
    assert_eq!(full.v4l2_sysfs_path, text("/sys/x"));
    assert_eq!(full.v4l2_device, text("/dev/video0"));
    assert_eq!(full.card_name, text("Cam"));
    assert_eq!(full.driver_version, text("6.1.2"));
    let bare = enrich(&cam, &text("/sys/x"), &None, &caps);
    assert_eq!((bare.v4l2_device, bare.card_name), (None, None));
    let lost = enrich(&cam, &None, &text("/dev/video0"), &caps);
    assert_eq!(lost.v4l2_device, None);
    let stuck = device(ElgatoProduct::FacecamUsb2Fallback, FW, UsbSpeed::High);
    assert_eq!(enrich(&stuck, &text("/sys/x"), &text("/dev/video0"), &caps).v4l2_sysfs_path, None);
}

#[test]
fn detections_carry_their_warnings() {
    assert_eq!(detection_report(&vec![]), NOTHING_DETECTED);
    assert!(NOTHING_DETECTED.contains("\n  3. Check 'dmesg | tail -20' for USB errors\n"));
    let good = device(ElgatoProduct::Facecam, FW, UsbSpeed::Super);
    assert_eq!(
        detection_report(&vec![good.duplicate()]),
        format!("=== Elgato Camera Detection ===\n\n{}\n", good.to_text())
    );
    let old = device(ElgatoProduct::Facecam, FirmwareVersion { major: 3, minor: 1 }, UsbSpeed::High);
    let report = detection_report(&vec![old]);
    assert!(report.contains("  WARNING: Firmware 3.01 lacks MJPEG support.\n           Chromium-based browsers will NOT work without v4l2loopback.\n           Update to firmware 4.03+ via Camera Hub (Windows/Mac).\n"));
    assert!(report.contains("  WARNING: Device on USB 2.0 or lower. USB 3.0 is required.\n\n"));
    assert!(!report.contains("CRITICAL"));
    let stuck = device(ElgatoProduct::FacecamUsb2Fallback, FW, UsbSpeed::Super);
    let report = detection_report(&vec![stuck]);
    assert!(report.contains("  CRITICAL: Facecam is in USB 2.0 fallback mode (PID 0x0077).\n            The device string says \"USB3-REQUIRED-FOR-FACECAM\".\n"));
}

#[test]
fn probes_judge_by_the_original_facecam() {
    let pro = device(ElgatoProduct::FacecamPro, FW, UsbSpeed::Super);
    let cam = device(ElgatoProduct::Facecam, FW, UsbSpeed::Super);
    assert_eq!(
        detect_product_firmware_or_default(&vec![pro.duplicate(), cam.duplicate()]),
        (ElgatoProduct::Facecam, FW)
    );
    assert_eq!(
        detect_product_firmware_or_default(&vec![pro.duplicate()]),
        (ElgatoProduct::Facecam, FirmwareVersion { major: 0, minor: 0 })
    );
    let located = |fingerprint, node: Option<&str>| LocatedDevice {
        fingerprint,
        sysfs_path: text("/sys/x"),
        node: node.map(|n| n.to_string()),
    };
    let devices = vec![
        located(pro, Some("/dev/video1")),
        located(cam.duplicate(), None),
        located(cam, Some("/dev/video2")),
    ];
    assert_eq!(resolve_device(&None, &devices, true), Ok("/dev/video2".to_string()));
    assert_eq!(resolve_device(&text("/dev/x"), &devices, true), Ok("/dev/x".to_string()));
    assert_eq!(resolve_device(&None, &vec![], true), Ok("/dev/video-facecam".to_string()));
    assert_eq!(resolve_device(&None, &vec![], false), Err(NOT_RESOLVED.to_string()));
}

#[test]
fn formats_and_modes_are_marked() {
    let f = |index, format: PixelFormat| FormatDescription {
        index,
        flags: 0,
        description: "desc".to_string(),
        pixel_format: format,
        fourcc_raw: format.to_fourcc(),
    };
    assert_eq!(
        format_listing("/dev/video0", &vec![f(0, PixelFormat::Uyvy), f(1, PixelFormat::Nv12)], ElgatoProduct::Facecam, FW),
        "=== Format Enumeration: /dev/video0 ===\n\nPixel Formats:\n  [0] UYVY - desc [UNTESTED]\n  [1] NV12 - desc [KNOWN BROKEN - see quirk registry]\n"
    );
    assert_eq!(
        mode_line("M", " (1 MB/s)", PixelFormat::Nv12, ElgatoProduct::Facecam, FW),
        "  M (1 MB/s) [BROKEN]\n"
    );
    assert_eq!(mode_line("M", "", PixelFormat::Mjpeg, ElgatoProduct::Facecam, FW), "  M\n");
}

#[test]
fn controls_are_reported_with_their_menus() {
    let c = ControlValue {
        name: "Power Line".to_string(),
        id: 0x00980918,
        control_type: ControlType::Menu,
        value: 2,
        minimum: 0,
        maximum: 2,
        step: 1,
        default: 1,
        flags: 0,
        menu_items: vec![
            MenuItem { index: 0, name: "Off".to_string() },
            MenuItem { index: 2, name: "60 Hz".to_string() },
        ],
    };
    assert_eq!(
        control_report("/dev/video0", &vec![c]),
        "=== V4L2 Controls: /dev/video0 ===\n\n  Power Line (0x00980918):\n    type=Menu  value=2  range=[0, 2]  step=1  default=1\n    [0] Off\n    [2] 60 Hz <-- current\n\n"
    );
    assert_eq!(ControlType::from_raw(42).to_text(), format!("{:?}", ControlType::Unknown(42)));
    assert_eq!(ControlType::from_raw(9), ControlType::IntegerMenu);
}

#[test]
fn topologies_are_reported_as_they_are() {
    let t = UsbTopology {
        sysfs_path: "/sys/x".to_string(),
        busnum: Some(2),
        devnum: None,
        speed: text("5000"),
        version: None,
        maxchild: Some(0),
        authorized: Some(1),
        manufacturer: text("Elgato"),
        product_name: text("Facecam"),
        bcd_device: text("0409"),
        configuration: text(""),
    };
    assert_eq!(
        topology_report(&t),
        "=== USB Topology ===\n\n  sysfs:         /sys/x\n  bus/dev:       Some(2)/None\n  speed:         Some(\"5000\")\n  USB version:   None\n  authorized:    Some(1)\n  manufacturer:  Some(\"Elgato\")\n  product:       Some(\"Facecam\")\n  bcdDevice:     Some(\"0409\")\n  configuration: Some(\"\")\n"
    );
}

#[test]
fn quirks_are_reported_in_full() {
    let all = quirk_registry();
    let report = registry_report(&all);
    assert!(report.starts_with("=== Quirk Registry (all known quirks) ===\n\nNo device connected — showing complete registry.\n\n  [BOGUS_NV12] "));
    for q in &all {
        let section = format!(
            "  [{}] {} ({:?})\n    {}\n    Mitigation: {:?}\n\n",
            q.id, q.summary, q.severity, q.description, q.mitigation
        );
        assert!(report.contains(&section), "{}", section);
    }
    let pro = quirk_report(ElgatoProduct::FacecamPro, FW, &applicable_quirks(ElgatoProduct::FacecamPro, FW));
    assert!(pro.starts_with(&format!("=== Applicable Quirks for {} (fw 4.09) ===\n\n  [", ElgatoProduct::FacecamPro.to_text())));
    let none = quirk_report(ElgatoProduct::Unknown(1), FW, &vec![]);
    assert!(none.ends_with("No known quirks apply to this device/firmware combination.\n"));
}

#[test]
fn systems_are_reported() {
    let s = SystemInfo {
        hostname: "box".to_string(),
        kernel_version: "k".to_string(),
        os_release: "o".to_string(),
        ubuntu_version: "u".to_string(),
        uptime_secs: 9,
    };
    let m = KernelModuleInfo {
        uvcvideo_loaded: true,
        uvcvideo_version: text("1.1"),
        v4l2loopback_loaded: false,
        v4l2loopback_version: None,
        v4l2loopback_params: None,
    };
    let report = system_report(&s, &m, &vec![]);
    assert_eq!(
        report,
        "=== System Diagnostics ===\n\nSystem:\n  Hostname:  box\n  Kernel:    k\n  OS:        o\n  Ubuntu:    u\n  Uptime:    9s\n\nKernel Modules:\n  uvcvideo:     loaded (version: 1.1)\n  v4l2loopback: NOT loaded (version: n/a)\n\nV4L2 Devices:\n  (none)\n"
    );
    let with_nodes = system_report(&s, &m, &vec!["/dev/video0".to_string()]);
    assert!(with_nodes.ends_with("V4L2 Devices:\n  /dev/video0\n"));
}

#[test]
fn one_mode_per_format_is_validated() {
    let modes = vec![
        mode(PixelFormat::Uyvy, 1280, 720),
        mode(PixelFormat::Uyvy, 1920, 1080),
        mode(PixelFormat::Uyvy, 1920, 1080),
        mode(PixelFormat::Mjpeg, 1920, 1080),
        mode(PixelFormat::Nv12, 640, 480),
    ];
    assert_eq!(modes_to_validate(&modes), vec![modes[1], modes[3]]);
}

#[test]
fn validations_end_in_a_verdict() {
    let m = mode(PixelFormat::Nv12, 1920, 1080);
    let words = || "w".to_string();
    let opened = validate_single_format(&m, &Negotiation::NotOpened(words()), ElgatoProduct::Facecam, FW);
    assert_eq!((opened.negotiation_ok, opened.error.as_deref()), (false, Some("w")));
    assert_eq!(opened.verdict, FormatVerdict::NegotiationFailed);
    let format = validate_single_format(&m, &Negotiation::FormatRefused(words()), ElgatoProduct::Facecam, FW);
    assert_eq!((format.negotiation_ok, format.error.as_deref()), (false, Some("set_format failed: w")));
    let buffers = validate_single_format(&m, &Negotiation::BuffersRefused(words()), ElgatoProduct::Facecam, FW);
    assert_eq!((buffers.negotiation_ok, buffers.error.as_deref()), (true, Some("request_buffers failed: w")));
    assert_eq!(buffers.verdict, FormatVerdict::NegotiationFailed);
    let stuck = validate_single_format(&m, &Negotiation::NotStarted(words()), ElgatoProduct::FacecamPro, FW);
    assert_eq!((stuck.negotiation_ok, stuck.stream_started), (true, false));
    assert_eq!(stuck.error.as_deref(), Some("stream start failed: w"));
    assert_eq!(stuck.verdict, FormatVerdict::NoFrames);
    let silent = Negotiation::Accepted(Delivery::new());
    let quiet = validate_single_format(&m, &silent, ElgatoProduct::FacecamPro, FW);
    assert_eq!((quiet.negotiation_ok, quiet.stream_started, quiet.frames_received), (true, true, 0));
    assert_eq!((quiet.verdict, quiet.error), (FormatVerdict::NoFrames, None));
    let broken = validate_single_format(&m, &silent, ElgatoProduct::Facecam, FW);
    assert_eq!((broken.verdict, broken.error), (FormatVerdict::GarbageFrames, None));
    let dark = Delivery::new().record(&[0, 0]).record(&[1]);
    assert_eq!((dark.frames, dark.first_nonzero, dark.sizes_agree), (2, false, false));
    let lit = Negotiation::Accepted(Delivery::new().record(&[0, 3]).record(&[0, 0]).record(&[5, 6]));
    let fine = validate_single_format(&m, &lit, ElgatoProduct::FacecamPro, FW);
    assert_eq!(fine.verdict, FormatVerdict::Working);
    assert_eq!(
        validation_summary(&vec![fine]),
        "=== Validation Summary ===\n\n  NV12 : WORKING (frames: 3, nonzero: true, consistent: true)\n"
    );
}
