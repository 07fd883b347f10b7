use facecam::device::{
    DeviceFingerprint, ElgatoProduct, FirmwareVersion, ProductDescriptor, UsbSpeed,
};

#[test]
fn facecam_is_uvc_capture() {
    assert!(ElgatoProduct::Facecam.is_uvc_capture());
}

#[test]
fn facecam_pro_is_uvc_capture() {
    assert!(ElgatoProduct::FacecamPro.is_uvc_capture());
}

#[test]
fn mk2_pids_are_uvc_capture() {
    assert!(ElgatoProduct::FacecamMk2.is_uvc_capture());
    assert!(ElgatoProduct::FacecamMk2Usb2.is_uvc_capture());
}

#[test]
fn cam_link_is_uvc_capture() {
    assert!(ElgatoProduct::CamLink4K.is_uvc_capture());
}

#[test]
fn usb2_fallback_is_not_uvc_capture() {
    // USB2 fallback exposes no UVC interface per quirk USB2_FALLBACK_MODE
    assert!(!ElgatoProduct::FacecamUsb2Fallback.is_uvc_capture());
}

#[test]
fn unknown_pids_are_not_uvc_capture() {
    // Stream Deck Plus (0x0084), Wave XLR (0x007d), etc.
    assert!(!ElgatoProduct::Unknown(0x0084).is_uvc_capture());
    assert!(!ElgatoProduct::Unknown(0x007d).is_uvc_capture());
}

#[test]
fn family_slugs_group_siblings() {
    assert_eq!(ElgatoProduct::Facecam.family(), "facecam");
    assert_eq!(ElgatoProduct::FacecamUsb2Fallback.family(), "facecam");
    assert_eq!(ElgatoProduct::FacecamPro.family(), "facecam-pro");
    assert_eq!(ElgatoProduct::FacecamMk2.family(), "facecam-mk2");
    assert_eq!(ElgatoProduct::FacecamMk2Usb2.family(), "facecam-mk2");
    assert_eq!(ElgatoProduct::CamLink4K.family(), "cam-link-4k");
    assert_eq!(ElgatoProduct::Unknown(0x1234).family(), "unknown");
}

#[test]
fn pro_remaps_white_balance_auto_alias() {
    // Profiles use the generic key "white_balance_auto"; on the Pro the
    // V4L2 control is named "white_balance_automatic".
    assert_eq!(
        ElgatoProduct::FacecamPro.control_alias("white_balance_auto"),
        Some("white_balance_automatic")
    );
}

#[test]
fn original_facecam_uses_generic_names() {
    // Original profile keys match the device's V4L2 names. No alias needed.
    assert_eq!(
        ElgatoProduct::Facecam.control_alias("white_balance_auto"),
        None
    );
    assert_eq!(ElgatoProduct::Facecam.control_alias("brightness"), None);
}

#[test]
fn pro_remaps_exposure_alias() {
    // Original V4L2 name: exposure_absolute. Pro V4L2 name: exposure_time_absolute.
    // Generic name (used in profiles): exposure_absolute (matches original).
    assert_eq!(
        ElgatoProduct::FacecamPro.control_alias("exposure_absolute"),
        Some("exposure_time_absolute")
    );
}

#[test]
fn pro_remaps_white_balance_temperature_auto_alias() {
    // V4L2 control name on the original Facecam is `white_balance_temperature_auto`.
    // Profiles authored against the original Facecam carry that key; on the Pro the
    // equivalent control is `white_balance_automatic`. Both generic forms must alias
    // to the Pro's name.
    assert_eq!(
        ElgatoProduct::FacecamPro.control_alias("white_balance_temperature_auto"),
        Some("white_balance_automatic")
    );
}

#[test]
fn product_ids_round_trip() {
    for pid in [0x0077u16, 0x0078, 0x0079, 0x0084, 0x007d, 0, 0xffff] {
        assert_eq!(ElgatoProduct::from_pid(pid).pid(), pid);
    }
    assert_eq!(ElgatoProduct::from_pid(0x0079), ElgatoProduct::FacecamPro);
    assert_eq!(ElgatoProduct::from_pid(0x1234), ElgatoProduct::Unknown(0x1234));
}

#[test]
fn firmware_versions_are_ordered_and_printed() {
    let old = FirmwareVersion::from_bcd(0x0309);
    let new = FirmwareVersion::from_bcd(0x0400);
    assert_eq!(old, FirmwareVersion { major: 3, minor: 9 });
    assert!(old < new);
    assert!(!old.has_mjpeg());
    assert!(old.has_transfer_mode_selection());
    assert!(new.has_mjpeg());
    assert!(!FirmwareVersion::from_bcd(0x0263).has_transfer_mode_selection());
    assert_eq!(FirmwareVersion::from_bcd(0x0409).to_text(), "4.09");
    assert_eq!(FirmwareVersion { major: 0, minor: 165 }.to_text(), "0.165");
}

#[test]
fn speeds_come_from_the_usb_library() {
    assert_eq!(UsbSpeed::from(rusb::Speed::Low), UsbSpeed::Low);
    assert_eq!(UsbSpeed::from(rusb::Speed::Full), UsbSpeed::Full);
    assert_eq!(UsbSpeed::from(rusb::Speed::High), UsbSpeed::High);
    assert_eq!(UsbSpeed::from(rusb::Speed::Super), UsbSpeed::Super);
    assert_eq!(UsbSpeed::from(rusb::Speed::SuperPlus), UsbSpeed::SuperPlus);
    assert_eq!(UsbSpeed::from(rusb::Speed::Unknown), UsbSpeed::Unknown);
    assert_eq!(UsbSpeed::Super.to_text(), "SuperSpeed (5 Gbps)");
}

#[test]
fn fingerprints_are_reported_in_full() {
    let f = DeviceFingerprint {
        product: ElgatoProduct::Facecam,
        firmware: FirmwareVersion { major: 4, minor: 9 },
        serial: "FW1".to_string(),
        usb_bus: 2,
        usb_address: 5,
        usb_port_numbers: vec![1, 4],
        usb_speed: UsbSpeed::Super,
        v4l2_device: Some("/dev/video0".to_string()),
        v4l2_sysfs_path: None,
        driver_version: None,
        card_name: Some("Elgato Facecam".to_string()),
    };
    let text = f.to_text();
    assert!(text.starts_with("Device:     "));
    assert!(text.contains("\nFirmware:   4.09\nSerial:     FW1\nUSB:        bus 2 addr 5 (SuperSpeed 5 Gbps)\nV4L2:       /dev/video0\nCard:       Elgato Facecam\n"));
    let copy = f.duplicate();
    assert_eq!(copy.to_text(), text);
    assert_eq!(copy.usb_port_numbers, vec![1, 4]);
}

#[test]
fn a_detected_camera_is_reported() {
    let f = DeviceFingerprint {
        product: ElgatoProduct::Facecam,
        firmware: FirmwareVersion { major: 4, minor: 9 },
        serial: "FW06M1A07449".to_string(),
        usb_bus: 10,
        usb_address: 2,
        usb_port_numbers: vec![],
        usb_speed: UsbSpeed::Super,
        v4l2_device: Some("/dev/video0".to_string()),
        v4l2_sysfs_path: None,
        driver_version: None,
        card_name: None,
    };
    let expected = "Device:     Elgato Facecam (PID 0x0078)\nFirmware:   4.09\nSerial:     \
        FW06M1A07449\nUSB:        bus 10 addr 2 (SuperSpeed 5 Gbps)\nV4L2:       /dev/video0\n";
    assert_eq!(f.to_text(), expected);
}
