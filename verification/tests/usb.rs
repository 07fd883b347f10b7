use facecam::bytes::{write_u32, ByteOrder};
use facecam::device::{ElgatoProduct, FirmwareVersion, UsbSpeed};
use facecam::usb::{
    detect_product_or_default, enumerate_elgato_devices, enumerate_uvc_capture_devices,
    find_elgato_sysfs_path, find_usb_sysfs_path, read_usb_topology,
    v4l2_node_has_capture_capability, wants_serial, LocatedDevice, SysfsEntry, SysfsFile,
    TopologyFiles, UsbRecord,
};

fn record(vendor_id: u16, product_id: u16) -> UsbRecord {
    UsbRecord {
        vendor_id,
        product_id,
        major: 4,
        minor: 0,
        sub_minor: 9,
        bus: 2,
        address: 7,
        port_numbers: vec![1, 3],
        speed: UsbSpeed::Super,
        serial: Some("SN1".to_string()),
    }
}

fn located(product_id: u16, sysfs: Option<&str>, node: Option<&str>) -> LocatedDevice {
    let mut found = enumerate_elgato_devices(&vec![record(0x0fd9, product_id)]);
    LocatedDevice {
        fingerprint: found.remove(0),
        sysfs_path: sysfs.map(|s| s.to_string()),
        node: node.map(|s| s.to_string()),
    }
}

fn content(text: &str) -> SysfsFile {
    SysfsFile::Content(text.to_string())
}

fn entry(path: &str, bus: SysfsFile, dev: SysfsFile) -> Result<SysfsEntry, String> {
    Ok(SysfsEntry {
        path: path.to_string(),
        busnum: bus,
        devnum: dev,
        id_vendor: SysfsFile::Missing,
        id_product: SysfsFile::Missing,
    })
}

fn identity(path: &str, vid: SysfsFile, pid: SysfsFile) -> Result<SysfsEntry, String> {
    Ok(SysfsEntry {
        path: path.to_string(),
        busnum: SysfsFile::Missing,
        devnum: SysfsFile::Missing,
        id_vendor: vid,
        id_product: pid,
    })
}

#[test]
fn enumerate_uvc_capture_devices_returns_a_vec() {
    let _ = enumerate_uvc_capture_devices(&vec![]);
}

#[test]
fn elgato_devices_are_fingerprinted() {
    let found = enumerate_elgato_devices(&vec![
        record(0x046d, 0x0078),
        record(0x0fd9, 0x0078),
        record(0x0fd9, 0x0077),
        record(0x0fd9, 0x0084),
    ]);
    assert_eq!(found.len(), 3);
    assert_eq!(found[0].product, ElgatoProduct::Facecam);
    assert_eq!(found[0].firmware, FirmwareVersion { major: 4, minor: 9 });
    assert_eq!(found[0].serial, "SN1");
    assert_eq!((found[0].usb_bus, found[0].usb_address), (2, 7));
    assert_eq!(found[0].usb_port_numbers, vec![1, 3]);
    assert_eq!(found[1].product, ElgatoProduct::FacecamUsb2Fallback);
    assert_eq!(found[1].serial, "");
    assert_eq!(found[2].product, ElgatoProduct::Unknown(0x84));
    assert!(found[2].v4l2_device.is_none());
    assert!(!wants_serial(ElgatoProduct::FacecamUsb2Fallback));
    assert!(wants_serial(ElgatoProduct::FacecamPro));
}

#[test]
fn release_numbers_overlap_where_they_do_not_fit() {
    let mut odd = record(0x0fd9, 0x0078);
    odd.major = 2;
    odd.minor = 50;
    odd.sub_minor = 20;
    let bcd = (2u16 << 8) | (50 * 10 + 20);
    let found = enumerate_elgato_devices(&vec![odd]);
    assert_eq!(found[0].firmware, FirmwareVersion::from_bcd(bcd));
}

#[test]
fn capture_devices_need_an_interface_a_path_and_a_node() {
    let cams = enumerate_uvc_capture_devices(&vec![
        located(0x0084, Some("/sys/a"), Some("/dev/video9")),
        located(0x007d, Some("/sys/b"), Some("/dev/video8")),
        located(0x0077, Some("/sys/c"), Some("/dev/video7")),
        located(0x0078, None, Some("/dev/video6")),
        located(0x0078, Some("/sys/d"), None),
        located(0x0079, Some("/sys/e"), Some("/dev/video0")),
    ]);
    assert_eq!(cams.len(), 1);
    assert_eq!(cams[0].product, ElgatoProduct::FacecamPro);
    assert_eq!(cams[0].v4l2_device.as_deref(), Some("/dev/video0"));
    assert_eq!(cams[0].v4l2_sysfs_path.as_deref(), Some("/sys/e"));
    assert_eq!(cams[0].serial, "SN1");
    assert_eq!(detect_product_or_default(&Some(cams)), ElgatoProduct::FacecamPro);
    assert_eq!(detect_product_or_default(&Some(vec![])), ElgatoProduct::Facecam);
    assert_eq!(detect_product_or_default(&None), ElgatoProduct::Facecam);
}

#[test]
fn devices_are_found_by_bus_and_address() {
    let entries = vec![
        entry("/sys/1", SysfsFile::Missing, content("7\n")),
        entry("/sys/2", content(" 2\n"), content("8\n")),
        entry("/sys/3", content("2\n"), content("7\n")),
        entry("/sys/4", content("2"), content("7")),
    ];
    assert_eq!(find_usb_sysfs_path(&entries, 2, 7), Ok(Some("/sys/3".to_string())));
    assert_eq!(find_usb_sysfs_path(&entries, 9, 9), Ok(None));
    let garbled = vec![entry("/sys/5", content("300"), content("x"))];
    assert_eq!(find_usb_sysfs_path(&garbled, 0, 0), Ok(Some("/sys/5".to_string())));
    let broken = vec![
        entry("/sys/6", content("1"), SysfsFile::Unreadable("no".to_string())),
        entry("/sys/7", content("2"), content("7")),
    ];
    assert_eq!(find_usb_sysfs_path(&broken, 2, 7), Err("no".to_string()));
    let skipped = vec![entry("/sys/8", SysfsFile::Unreadable("no".to_string()), SysfsFile::Missing)];
    assert_eq!(find_usb_sysfs_path(&skipped, 2, 7), Ok(None));
    assert_eq!(find_usb_sysfs_path(&vec![Err("gone".to_string())], 2, 7), Err("gone".to_string()));
}

#[test]
fn devices_are_found_by_vendor_and_product() {
    let entries = vec![
        identity("/sys/1", content("0fd9\n"), content("0078\n")),
        identity("/sys/2", content("0fd9\n"), content("0079\n")),
        identity("/sys/3", content("0FD9\n"), content("0084\n")),
    ];
    assert_eq!(
        find_elgato_sysfs_path(&entries, ElgatoProduct::FacecamPro),
        Ok(Some("/sys/2".to_string()))
    );
    assert_eq!(find_elgato_sysfs_path(&entries, ElgatoProduct::Unknown(0x84)), Ok(None));
    let broken = vec![identity("/sys/1", SysfsFile::Unreadable("no".to_string()), content("0079"))];
    assert_eq!(
        find_elgato_sysfs_path(&broken, ElgatoProduct::FacecamPro),
        Err("no".to_string())
    );
}

#[test]
fn nodes_have_to_report_capture() {
    let mut block = [0u8; 104];
    write_u32(ByteOrder::Big, &mut block, 84, 1);
    assert!(v4l2_node_has_capture_capability(ByteOrder::Big, &Some(block)));
    assert!(!v4l2_node_has_capture_capability(ByteOrder::Little, &Some(block)));
    assert!(!v4l2_node_has_capture_capability(ByteOrder::Big, &None));
}

#[test]
fn topologies_are_read_from_files() {
    let text = |s: &str| Some(s.to_string());
    let files = TopologyFiles {
        busnum: text("2\n"),
        devnum: text("256\n"),
        speed: text("5000\n"),
        version: text(" 3.20\n"),
        maxchild: text("x"),
        authorized: text("1"),
        manufacturer: None,
        product: text("Elgato Facecam\n"),
        bcd_device: text("0409\n"),
        configuration: text("\n"),
    };
    let t = read_usb_topology("/sys/x".to_string(), &files);
    assert_eq!(t.sysfs_path, "/sys/x");
    assert_eq!((t.busnum, t.devnum, t.maxchild, t.authorized), (Some(2), None, None, Some(1)));
    assert_eq!(t.speed.as_deref(), Some("5000"));
    assert_eq!(t.version.as_deref(), Some("3.20"));
    assert_eq!(t.manufacturer, None);
    assert_eq!(t.product_name.as_deref(), Some("Elgato Facecam"));
    assert_eq!(t.bcd_device.as_deref(), Some("0409"));
    assert_eq!(t.configuration.as_deref(), Some(""));
}
