use facecam::device::{DeviceFingerprint, ElgatoProduct, FirmwareVersion, UsbSpeed};
use facecam::formats::{PixelFormat, VideoMode};
use facecam::pipeline::{
    control_settings, detect_source, reliable_modes, target_mode, wanted_format, ControlSetting,
    SetupPhase, SetupReply, Source, NO_SOURCE,
};
use facecam::profiles::{Profile, ProfileVideoMode};
use facecam::types::{HealthStatus, PipelineState, StatusUpdate};

const FW: FirmwareVersion = FirmwareVersion { major: 4, minor: 9 };

fn camera(product: ElgatoProduct, node: Option<&str>) -> DeviceFingerprint {
    DeviceFingerprint {
        product,
        firmware: FW,
        serial: String::new(),
        usb_bus: 1,
        usb_address: 2,
        usb_port_numbers: vec![],
        usb_speed: UsbSpeed::Super,
        v4l2_device: node.map(|n| n.to_string()),
        v4l2_sysfs_path: None,
        driver_version: None,
        card_name: None,
    }
}

fn mode(format: PixelFormat, width: u32, height: u32, fps: u32) -> VideoMode {
    VideoMode { format, width, height, fps_numerator: 1, fps_denominator: fps }
}

fn wanted(width: u32, height: u32, fps: u32, format: &str) -> Option<ProfileVideoMode> {
    Some(ProfileVideoMode { width, height, fps, format: format.to_string() })
}

fn source() -> Source {
    Source { path: "/dev/video0".to_string(), product: ElgatoProduct::Facecam, firmware: FW }
}

fn text(s: &str) -> Option<String> {
    Some(s.to_string())
}

#[test]
fn explicit_sources_have_to_exist() {
    let cams = Ok(vec![camera(ElgatoProduct::FacecamPro, Some("/dev/video2"))]);
    let found = detect_source(&text("/dev/video2"), true, &cams, false).unwrap();
    assert_eq!(found.product, ElgatoProduct::FacecamPro);
    assert_eq!(found.firmware, FW);
    let other = detect_source(&text("/dev/video5"), true, &cams, false).unwrap();
    assert_eq!((other.path.as_str(), other.product), ("/dev/video5", ElgatoProduct::Facecam));
    assert_eq!(other.firmware, FirmwareVersion { major: 0, minor: 0 });
    assert_eq!(
        detect_source(&text("/dev/video5"), false, &cams, true).unwrap_err(),
        "Specified source device /dev/video5 does not exist"
    );
    assert_eq!(
        detect_source(&text("/dev/video5"), true, &Err("usb".to_string()), true).unwrap_err(),
        "usb"
    );
}

#[test]
fn sources_are_detected_on_the_bus_or_by_the_link() {
    let cams = Ok(vec![
        camera(ElgatoProduct::Unknown(0x84), Some("/dev/video9")),
        camera(ElgatoProduct::FacecamPro, Some("/dev/video2")),
    ]);
    assert_eq!(detect_source(&None, false, &cams, true).unwrap().path, "/dev/video2");
    let nodeless = Ok(vec![
        camera(ElgatoProduct::FacecamPro, None),
        camera(ElgatoProduct::Facecam, Some("/dev/video1")),
    ]);
    let linked = detect_source(&None, false, &nodeless, true).unwrap();
    assert_eq!((linked.path.as_str(), linked.product), ("/dev/video-facecam", ElgatoProduct::Facecam));
    assert_eq!(detect_source(&None, false, &Ok(vec![]), false).unwrap_err(), NO_SOURCE);
    assert_eq!(detect_source(&None, false, &Err("usb".to_string()), true).unwrap_err(), "usb");
}

#[test]
fn broken_formats_are_left_out() {
    let modes = vec![
        mode(PixelFormat::Nv12, 1920, 1080, 60),
        mode(PixelFormat::Uyvy, 1920, 1080, 60),
        mode(PixelFormat::Yu12, 1920, 1080, 60),
    ];
    assert_eq!(reliable_modes(&modes, ElgatoProduct::Facecam, FW), vec![modes[1]]);
    assert_eq!(reliable_modes(&modes, ElgatoProduct::FacecamPro, FW), modes);
}

#[test]
fn profiles_name_formats_by_four_bytes() {
    assert_eq!(wanted_format("UYVY"), PixelFormat::Uyvy);
    assert_eq!(wanted_format("MJPEG"), PixelFormat::Mjpeg);
    assert_eq!(wanted_format(""), PixelFormat::Mjpeg);
    assert_eq!(wanted_format("éé"), PixelFormat::from_fourcc(u32::from_le_bytes([0xc3, 0xa9, 0xc3, 0xa9])));
}

#[test]
fn modes_are_chosen_by_size_rate_and_format() {
    let modes = vec![
        mode(PixelFormat::Uyvy, 1920, 1080, 60),
        mode(PixelFormat::Mjpeg, 1280, 720, 60),
        mode(PixelFormat::Mjpeg, 1920, 1080, 29),
        mode(PixelFormat::Mjpeg, 1920, 1080, 60),
    ];
    assert_eq!(target_mode(&modes, &wanted(1920, 1080, 30, "MJPG")), modes[2]);
    assert_eq!(target_mode(&modes, &wanted(1920, 1080, 31, "MJPG")), modes[3]);
    assert_eq!(target_mode(&modes, &wanted(640, 480, 30, "MJPG")), modes[1]);
    assert_eq!(target_mode(&modes, &wanted(640, 480, 30, "H264")), modes[0]);
    assert_eq!(target_mode(&modes, &None), modes[0]);
}

#[test]
fn controls_are_renamed_for_the_pro_and_unknown_ones_skipped() {
    let controls = vec![
        ("Brightness".to_string(), 7),
        ("exposure_absolute".to_string(), 100),
        ("nonsense".to_string(), 1),
        ("zoom".to_string(), 4294967297),
    ];
    assert_eq!(
        control_settings(ElgatoProduct::Facecam, &controls),
        vec![
            ControlSetting { id: 0x00980900, value: 7 },
            ControlSetting { id: 0x009A0902, value: 100 },
            ControlSetting { id: 0x009A090D, value: 1 },
        ]
    );
    let pro = control_settings(ElgatoProduct::FacecamPro, &controls);
    assert_eq!(pro, control_settings(ElgatoProduct::Facecam, &controls));
    let balance = vec![("white_balance_auto".to_string(), 1)];
    assert_eq!(
        control_settings(ElgatoProduct::FacecamPro, &balance),
        vec![ControlSetting { id: 0x0098090C, value: 1 }]
    );
}

fn set_up_to_profile() -> SetupPhase {
    SetupPhase::start()
        .reply(SetupReply::Detected(Ok(source())))
        .reply(SetupReply::Done)
        .reply(SetupReply::Capabilities { has_capture: true, has_streaming: true })
        .reply(SetupReply::Modes(vec![
            mode(PixelFormat::Nv12, 1920, 1080, 60),
            mode(PixelFormat::Uyvy, 1920, 1080, 60),
        ]))
}

#[test]
fn a_set_up_announces_what_it_does_and_streams() {
    let phase = SetupPhase::start();
    assert!(matches!(
        phase.announcements()[..],
        [StatusUpdate::State(PipelineState::Probing, HealthStatus::Degraded)]
    ));
    let phase = phase.reply(SetupReply::Detected(Ok(source())));
    assert!(matches!(&phase.announcements()[..], [StatusUpdate::Source(Some(p))] if p == "/dev/video0"));
    let profile = Profile {
        name: "p".to_string(),
        description: String::new(),
        video_mode: wanted(1920, 1080, 60, "NV12"),
        controls: vec![("brightness".to_string(), 1), ("gain".to_string(), 2)],
    };
    let uyvy = mode(PixelFormat::Uyvy, 1920, 1080, 60);
    let mut phase = set_up_to_profile().reply(SetupReply::Loaded(profile));
    assert!(matches!(&phase, SetupPhase::SetSourceFormat { mode, controls } if *mode == uyvy && controls.len() == 2));
    phase = phase.reply(SetupReply::Done);
    assert!(matches!(&phase, SetupPhase::SetControl { next: 0, .. }));
    phase = phase.reply(SetupReply::Failed("busy".to_string()));
    assert!(matches!(&phase, SetupPhase::SetControl { next: 1, .. }));
    phase = phase.reply(SetupReply::Done);
    assert!(matches!(
        phase.announcements()[..],
        [StatusUpdate::State(PipelineState::Starting, HealthStatus::Degraded)]
    ));
    phase = phase.reply(SetupReply::Done).reply(SetupReply::Done);
    let announced = phase.announcements();
    assert!(matches!(announced[0], StatusUpdate::State(PipelineState::Streaming, HealthStatus::Healthy)));
    assert!(matches!(announced[1], StatusUpdate::Mode(Some(m)) if m == uyvy));
    assert!(matches!(announced[2], StatusUpdate::Connected(true)));
    phase = phase.reply(SetupReply::Done);
    assert!(matches!(phase, SetupPhase::Streaming(m) if m == uyvy));
    assert!(phase.announcements().is_empty());
}

#[test]
fn a_missing_profile_falls_back_to_the_first_mode() {
    let phase = set_up_to_profile().reply(SetupReply::Failed("none".to_string()));
    assert!(matches!(phase, SetupPhase::SetSourceFormat { mode, controls } if mode.format == PixelFormat::Uyvy && controls.is_empty()));
    let fallback = Profile::fallback();
    assert_eq!((fallback.name.as_str(), fallback.description.as_str()), ("fallback", "Auto-generated fallback"));
}

#[test]
fn every_failed_step_of_a_set_up_is_named() {
    let fail = || SetupReply::Failed("words".to_string());
    let message = |phase: SetupPhase| match phase {
        SetupPhase::Failed(m) => m,
        other => panic!("{:?}", other),
    };
    let name = ElgatoProduct::Facecam.to_text();
    assert_eq!(message(SetupPhase::start().reply(SetupReply::Detected(Err("usb".to_string())))), "usb");
    let opened = || SetupPhase::start().reply(SetupReply::Detected(Ok(source())));
    assert_eq!(message(opened().reply(fail())), format!("Failed to open {} (/dev/video0)", name));
    let queried = || opened().reply(SetupReply::Done);
    assert_eq!(message(queried().reply(fail())), format!("Failed to query capabilities of {}", name));
    let caps = |has_capture, has_streaming| SetupReply::Capabilities { has_capture, has_streaming };
    assert_eq!(
        message(queried().reply(caps(false, true))),
        format!("{} does not advertise VIDEO_CAPTURE", name)
    );
    assert_eq!(
        message(queried().reply(caps(true, false))),
        format!("{} does not advertise STREAMING (MMAP unsupported)", name)
    );
    let enumerated = || queried().reply(caps(true, true));
    assert_eq!(message(enumerated().reply(fail())), "words");
    assert_eq!(
        message(enumerated().reply(SetupReply::Modes(vec![mode(PixelFormat::Nv12, 1, 1, 1)]))),
        format!("No usable video modes for {} (all formats marked broken in quirk DB)", name)
    );
    let chosen = || set_up_to_profile().reply(fail());
    assert_eq!(message(chosen().reply(fail())), "Failed to set source format");
    let sink = || chosen().reply(SetupReply::Done);
    assert_eq!(
        message(sink().reply(fail())),
        "Failed to open sink device. Is v4l2loopback loaded?"
    );
    let sink_format = || sink().reply(SetupReply::Done);
    assert_eq!(message(sink_format().reply(fail())), "Failed to set sink output format");
    assert_eq!(message(sink_format().reply(SetupReply::Done).reply(fail())), "words");
}
