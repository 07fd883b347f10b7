//! Elgato devices on the USB bus and their place in sysfs.

use crate::bytes::ByteOrder;
use crate::device::{
    self, DeviceFingerprint, ElgatoProduct, FirmwareVersion, ProductDescriptor, UsbSpeed,
    ELGATO_VID,
};
use crate::seqs;
use crate::text::{self, parse_natural, push_hex, text_eq, trim};
use crate::v4l2;
use vstd::prelude::*;
use vstd::string::*;

verus! {

// ---------------------------------------------------------------------------------------------
// Devices on the bus
// ---------------------------------------------------------------------------------------------

/// What the bus says of one device.
#[derive(Debug, Clone)]
pub struct UsbRecord {
    pub vendor_id: u16,
    pub product_id: u16,
    /// The three parts of the device release number.
    pub major: u8,
    pub minor: u8,
    pub sub_minor: u8,
    pub bus: u8,
    pub address: u8,
    pub port_numbers: Vec<u8>,
    pub speed: UsbSpeed,
    /// The serial number, where the device could be opened and asked for it.
    pub serial: Option<String>,
}

/// The release number in the form that firmware versions are read from: the major part in the high
/// byte, the other two as one decimal number below it.
pub open spec fn release_number(major: u8, minor: u8, sub_minor: u8) -> u16 {
    ((major as u16) << 8u16) | ((minor * 10 + sub_minor) as u16)
}

/// Whether the serial number of a device is asked for. A device in USB 2.0 fallback mode hangs
/// when it is opened, since it is not functional.
pub fn wants_serial(product: ElgatoProduct) -> (r: bool)
    ensures
        r == (product != ElgatoProduct::FacecamUsb2Fallback),
{
    !product.is_usb2_fallback()
}

/// Whether a fingerprint says what the bus says of a device.
pub open spec fn identifies(f: DeviceFingerprint, record: UsbRecord) -> bool {
    let bcd = release_number(record.major, record.minor, record.sub_minor);
    &&& f.product == device::product_of_pid(record.product_id)
    &&& f.firmware == (FirmwareVersion { major: (bcd / 256) as u8, minor: (bcd % 256) as u8 })
    &&& f.serial@ == match record.serial {
        Some(serial) if f.product != ElgatoProduct::FacecamUsb2Fallback => serial@,
        _ => Seq::empty(),
    }
    &&& f.usb_bus == record.bus
    &&& f.usb_address == record.address
    &&& f.usb_port_numbers@ == record.port_numbers@
    &&& f.usb_speed == record.speed
    &&& f.v4l2_device is None
    &&& f.v4l2_sysfs_path is None
    &&& f.driver_version is None
    &&& f.card_name is None
}

fn fingerprint(record: &UsbRecord) -> (r: DeviceFingerprint)
    ensures
        identifies(r, *record),
{
    let product = ElgatoProduct::from_pid(record.product_id);
    let bcd: u16 = ((record.major as u16) << 8u16) | (record.minor as u16 * 10
        + record.sub_minor as u16);
    let serial = match &record.serial {
        Some(serial) => if wants_serial(product) {
            serial.clone()
        } else {
            "".to_owned()
        },
        None => "".to_owned(),
    };
    proof {
        reveal_strlit("");
        assert(""@ =~= Seq::empty());
    }
    DeviceFingerprint {
        product,
        firmware: FirmwareVersion::from_bcd(bcd),
        serial,
        usb_bus: record.bus,
        usb_address: record.address,
        usb_port_numbers: record.port_numbers.clone(),
        usb_speed: record.speed,
        v4l2_device: None,
        v4l2_sysfs_path: None,
        driver_version: None,
        card_name: None,
    }
}

/// The records of Elgato devices, in order.
pub open spec fn elgato_records(records: Seq<UsbRecord>) -> Seq<UsbRecord> {
    records.filter(|r: UsbRecord| r.vendor_id == ELGATO_VID)
}

/// Whether a list of fingerprints identifies a list of records, one for one.
pub open spec fn identify_all(found: Seq<DeviceFingerprint>, records: Seq<UsbRecord>) -> bool {
    &&& found.len() == records.len()
    &&& forall|i: int| 0 <= i < found.len() ==> identifies(#[trigger] found[i], records[i])
}

/// Discover Elgato cameras among the devices on the bus
pub fn enumerate_elgato_devices(records: &Vec<UsbRecord>) -> (r: Vec<DeviceFingerprint>)
    ensures
        identify_all(r@, elgato_records(records@)),
{
    let mut devices: Vec<DeviceFingerprint> = Vec::new();
    let ghost ours = |r: UsbRecord| r.vendor_id == ELGATO_VID;
    proof {
        seqs::lemma_filter_ends(records@, ours);
    }
    for i in 0..records.len()
        invariant
            ours == (|r: UsbRecord| r.vendor_id == ELGATO_VID),
            identify_all(devices@, records@.take(i as int).filter(ours)),
    {
        proof {
            seqs::lemma_filter_take(records@, ours, i as int);
        }
        if records[i].vendor_id == ELGATO_VID {
            devices.push(fingerprint(&records[i]));
        }
    }
    devices
}

// ---------------------------------------------------------------------------------------------
// Devices in sysfs
// ---------------------------------------------------------------------------------------------

/// A file of a sysfs entry.
#[derive(Debug, Clone)]
pub enum SysfsFile {
    Missing,
    /// The file exists and holds this.
    Content(String),
    /// The file exists and cannot be read; the words of the error.
    Unreadable(String),
}

/// An entry of the list of USB devices in sysfs.
#[derive(Debug, Clone)]
pub struct SysfsEntry {
    pub path: String,
    pub busnum: SysfsFile,
    pub devnum: SysfsFile,
    pub id_vendor: SysfsFile,
    pub id_product: SysfsFile,
}

/// What a search makes of an entry.
pub ghost enum Visit {
    /// The search goes on.
    Skip,
    /// The entry is what is searched.
    Take,
    /// The search fails, with these words.
    Fail(String),
}

/// What a search makes of two files of an entry: it skips the entry unless both exist, fails where
/// one cannot be read, and takes the entry where the contents, without the space around them, are
/// what is wanted.
pub open spec fn visit_pair(
    first: SysfsFile,
    second: SysfsFile,
    wanted: spec_fn(Seq<char>, Seq<char>) -> bool,
) -> Visit {
    match (first, second) {
        (SysfsFile::Missing, _) => Visit::Skip,
        (_, SysfsFile::Missing) => Visit::Skip,
        (SysfsFile::Unreadable(words), _) => Visit::Fail(words),
        (_, SysfsFile::Unreadable(words)) => Visit::Fail(words),
        (SysfsFile::Content(a), SysfsFile::Content(b)) => if wanted(
            text::trimmed(a@),
            text::trimmed(b@),
        ) {
            Visit::Take
        } else {
            Visit::Skip
        },
    }
}

/// The number that a text stands for, or 0 where it is no number of one byte.
pub open spec fn byte_or_zero(s: Seq<char>) -> nat {
    match text::natural_up_to(s, 255) {
        Some(n) => n,
        None => 0,
    }
}

/// Whether two texts are the bus number and the address of a device.
pub open spec fn is_location(bus: u8, addr: u8) -> spec_fn(Seq<char>, Seq<char>) -> bool {
    |a: Seq<char>, b: Seq<char>| byte_or_zero(a) == bus && byte_or_zero(b) == addr
}

/// Whether two texts are the vendor ID and the product ID of a product, in hexadecimal.
pub open spec fn is_identity(product: ElgatoProduct) -> spec_fn(Seq<char>, Seq<char>) -> bool {
    |a: Seq<char>, b: Seq<char>|
        a == text::hex_padded(ELGATO_VID as nat, 4) && b == text::hex_padded(
            device::pid_of(product) as nat,
            4,
        )
}

/// What a search by location makes of an entry, which may be one that could not be listed.
pub open spec fn visit_location(entry: Result<SysfsEntry, String>, bus: u8, addr: u8) -> Visit {
    match entry {
        Ok(e) => visit_pair(e.busnum, e.devnum, is_location(bus, addr)),
        Err(words) => Visit::Fail(words),
    }
}

/// What a search by product makes of an entry, which may be one that could not be listed.
pub open spec fn visit_identity(entry: Result<SysfsEntry, String>, product: ElgatoProduct) -> Visit {
    match entry {
        Ok(e) => visit_pair(e.id_vendor, e.id_product, is_identity(product)),
        Err(words) => Visit::Fail(words),
    }
}

/// Whether a search through `entries` ended as it should: with the first entry that is not
/// skipped, be it taken or a failure, or with nothing where all are skipped.
pub open spec fn first_visit(
    entries: Seq<Result<SysfsEntry, String>>,
    visit: spec_fn(Result<SysfsEntry, String>) -> Visit,
    outcome: Result<Option<String>, String>,
) -> bool {
    match outcome {
        Ok(None) => forall|j: int| 0 <= j < entries.len() ==> visit(#[trigger] entries[j]) is Skip,
        Ok(Some(path)) => exists|i: int|
            {
                &&& 0 <= i < entries.len()
                &&& visit(#[trigger] entries[i]) is Take
                &&& entries[i] matches Ok(e) && e.path == path
                &&& forall|j: int| 0 <= j < i ==> visit(#[trigger] entries[j]) is Skip
            },
        Err(words) => exists|i: int|
            {
                &&& 0 <= i < entries.len()
                &&& visit(#[trigger] entries[i]) == Visit::Fail(words)
                &&& forall|j: int| 0 <= j < i ==> visit(#[trigger] entries[j]) is Skip
            },
    }
}

fn byte_of(content: &String) -> (r: u8)
    ensures
        r == byte_or_zero(text::trimmed(content@)),
{
    let digits = trim(content.as_str());
    match parse_natural(digits.as_str(), 255) {
        Some(n) => n as u8,
        None => 0,
    }
}

/// What a search makes of an entry.
enum Verdict {
    Skip,
    Take,
    Fail(String),
}

impl Verdict {
    spec fn is_visit(self, visit: Visit) -> bool {
        match self {
            Verdict::Skip => visit is Skip,
            Verdict::Take => visit is Take,
            Verdict::Fail(words) => visit == Visit::Fail(words),
        }
    }
}

fn judge_location(entry: &SysfsEntry, bus: u8, addr: u8) -> (r: Verdict)
    ensures
        r.is_visit(visit_pair(entry.busnum, entry.devnum, is_location(bus, addr))),
{
    match (&entry.busnum, &entry.devnum) {
        (SysfsFile::Missing, _) => Verdict::Skip,
        (_, SysfsFile::Missing) => Verdict::Skip,
        (SysfsFile::Unreadable(words), _) => Verdict::Fail(words.clone()),
        (_, SysfsFile::Unreadable(words)) => Verdict::Fail(words.clone()),
        (SysfsFile::Content(a), SysfsFile::Content(b)) => if byte_of(a) == bus && byte_of(b)
            == addr {
            Verdict::Take
        } else {
            Verdict::Skip
        },
    }
}

fn judge_identity(entry: &SysfsEntry, product: ElgatoProduct) -> (r: Verdict)
    ensures
        r.is_visit(visit_pair(entry.id_vendor, entry.id_product, is_identity(product))),
{
    match (&entry.id_vendor, &entry.id_product) {
        (SysfsFile::Missing, _) => Verdict::Skip,
        (_, SysfsFile::Missing) => Verdict::Skip,
        (SysfsFile::Unreadable(words), _) => Verdict::Fail(words.clone()),
        (_, SysfsFile::Unreadable(words)) => Verdict::Fail(words.clone()),
        (SysfsFile::Content(a), SysfsFile::Content(b)) => {
            let mut vid = "".to_owned();
            push_hex(&mut vid, ELGATO_VID as u32, 4);
            let mut pid = "".to_owned();
            push_hex(&mut pid, product.pid() as u32, 4);
            proof {
                reveal_strlit("");
                assert(""@ + text::hex_padded(ELGATO_VID as nat, 4) =~= text::hex_padded(
                    ELGATO_VID as nat,
                    4,
                ));
                assert(""@ + text::hex_padded(device::pid_of(product) as nat, 4)
                    =~= text::hex_padded(device::pid_of(product) as nat, 4));
            }
            let vendor = trim(a.as_str());
            let model = trim(b.as_str());
            if text_eq(vendor.as_str(), vid.as_str()) && text_eq(model.as_str(), pid.as_str()) {
                Verdict::Take
            } else {
                Verdict::Skip
            }
        },
    }
}

/// Find the sysfs path for a USB device by bus and address. `entries` are the entries of the list
/// of USB devices in sysfs, in the order in which they are listed; where the list itself cannot be
/// read on, an entry is an error.
pub fn find_usb_sysfs_path(entries: &Vec<Result<SysfsEntry, String>>, bus: u8, addr: u8) -> (r:
    Result<Option<String>, String>)
    ensures
        first_visit(entries@, |e: Result<SysfsEntry, String>| visit_location(e, bus, addr), r),
{
    let ghost visit = |e: Result<SysfsEntry, String>| visit_location(e, bus, addr);
    for i in 0..entries.len()
        invariant
            visit == (|e: Result<SysfsEntry, String>| visit_location(e, bus, addr)),
            forall|j: int| 0 <= j < i ==> visit(#[trigger] entries@[j]) is Skip,
    {
        match &entries[i] {
            Ok(entry) => match judge_location(entry, bus, addr) {
                Verdict::Skip => {
                    assert(visit(entries@[i as int]) is Skip);
                },
                Verdict::Take => {
                    assert(visit(entries@[i as int]) is Take);
                    return Ok(Some(entry.path.clone()));
                },
                Verdict::Fail(words) => {
                    assert(visit(entries@[i as int]) == Visit::Fail(words));
                    return Err(words);
                },
            },
            Err(words) => {
                assert(visit(entries@[i as int]) == Visit::Fail(*words));
                return Err(words.clone());
            },
        }
    }
    Ok(None)
}

/// Find the sysfs path for any specific Elgato product by VID:PID. `entries` are the entries of
/// the list of USB devices in sysfs, in the order in which they are listed; where the list itself
/// cannot be read on, an entry is an error.
pub fn find_elgato_sysfs_path(
    entries: &Vec<Result<SysfsEntry, String>>,
    product: ElgatoProduct,
) -> (r: Result<Option<String>, String>)
    ensures
        first_visit(entries@, |e: Result<SysfsEntry, String>| visit_identity(e, product), r),
{
    let ghost visit = |e: Result<SysfsEntry, String>| visit_identity(e, product);
    for i in 0..entries.len()
        invariant
            visit == (|e: Result<SysfsEntry, String>| visit_identity(e, product)),
            forall|j: int| 0 <= j < i ==> visit(#[trigger] entries@[j]) is Skip,
    {
        match &entries[i] {
            Ok(entry) => match judge_identity(entry, product) {
                Verdict::Skip => {
                    assert(visit(entries@[i as int]) is Skip);
                },
                Verdict::Take => {
                    assert(visit(entries@[i as int]) is Take);
                    return Ok(Some(entry.path.clone()));
                },
                Verdict::Fail(words) => {
                    assert(visit(entries@[i as int]) == Visit::Fail(words));
                    return Err(words);
                },
            },
            Err(words) => {
                assert(visit(entries@[i as int]) == Visit::Fail(*words));
                return Err(words.clone());
            },
        }
    }
    Ok(None)
}

// ---------------------------------------------------------------------------------------------
// Capture devices
// ---------------------------------------------------------------------------------------------

/// A device on the bus, with what was found of it in sysfs.
#[derive(Debug, Clone)]
pub struct LocatedDevice {
    pub fingerprint: DeviceFingerprint,
    /// Its sysfs path, where it was found.
    pub sysfs_path: Option<String>,
    /// Its V4L2 capture node, where it was found.
    pub node: Option<String>,
}

/// Whether a device can be captured from: its product exposes a capture interface, and both its
/// sysfs path and its capture node are known.
pub open spec fn is_usable(d: LocatedDevice) -> bool {
    device::exposes_uvc_capture(d.fingerprint.product) && d.sysfs_path is Some && d.node is Some
}

/// The fingerprint of a device with what was found of it in sysfs.
pub open spec fn completed(d: LocatedDevice) -> DeviceFingerprint {
    DeviceFingerprint { v4l2_sysfs_path: d.sysfs_path, v4l2_device: d.node, ..d.fingerprint }
}

/// Whether a list of fingerprints is that of a list of located devices, one for one.
pub open spec fn complete_all(found: Seq<DeviceFingerprint>, devices: Seq<LocatedDevice>) -> bool {
    &&& found.len() == devices.len()
    &&& forall|i: int| 0 <= i < found.len() ==> (#[trigger] found[i]).same_as(completed(devices[i]))
}

/// The devices that can be captured from, in order.
pub open spec fn usable_devices(devices: Seq<LocatedDevice>) -> Seq<LocatedDevice> {
    devices.filter(|d: LocatedDevice| is_usable(d))
}

/// Enumerate Elgato devices that expose a UVC capture interface.
/// Production callers should use this rather than enumerate_elgato_devices,
/// which returns every Elgato (including Stream Deck, Wave XLR).
pub fn enumerate_uvc_capture_devices(devices: &Vec<LocatedDevice>) -> (r: Vec<DeviceFingerprint>)
    ensures
        complete_all(r@, usable_devices(devices@)),
{
    let mut out: Vec<DeviceFingerprint> = Vec::new();
    let ghost usable = |d: LocatedDevice| is_usable(d);
    proof {
        seqs::lemma_filter_ends(devices@, usable);
    }
    for i in 0..devices.len()
        invariant
            usable == (|d: LocatedDevice| is_usable(d)),
            complete_all(out@, devices@.take(i as int).filter(usable)),
    {
        proof {
            seqs::lemma_filter_take(devices@, usable, i as int);
        }
        let d = &devices[i];
        if d.fingerprint.product.is_uvc_capture() {
            if let Some(sysfs) = &d.sysfs_path {
                if let Some(node) = &d.node {
                    let mut fp = d.fingerprint.duplicate();
                    fp.v4l2_sysfs_path = Some(sysfs.clone());
                    fp.v4l2_device = Some(node.clone());
                    out.push(fp);
                }
            }
        }
    }
    out
}

/// The product of the first of the cameras that were found, or the original Facecam where none
/// was or where they could not be enumerated.
pub open spec fn first_product(cameras: Option<Seq<DeviceFingerprint>>) -> ElgatoProduct {
    match cameras {
        Some(found) if found.len() > 0 => found[0].product,
        _ => ElgatoProduct::Facecam,
    }
}

/// Detect the first connected Elgato UVC capture camera, falling back to
/// Facecam if none found. Filters to UVC capture devices to avoid issuing
/// USB resets against non-camera Elgato peripherals (Stream Deck, Wave XLR).
/// `cameras` are the capture devices, where they could be enumerated.
pub fn detect_product_or_default(cameras: &Option<Vec<DeviceFingerprint>>) -> (r: ElgatoProduct)
    ensures
        r == first_product(
            match *cameras {
                Some(found) => Some(found@),
                None => None,
            },
        ),
{
    match cameras {
        Some(found) => if found.len() > 0 {
            found[0].product
        } else {
            ElgatoProduct::Facecam
        },
        None => ElgatoProduct::Facecam,
    }
}

/// Whether a V4L2 node reports the capability to capture video. `block` is what `VIDIOC_QUERYCAP`
/// filled; there is none where the node could not be opened or asked.
pub fn v4l2_node_has_capture_capability(order: ByteOrder, block: &Option<[u8; 104]>) -> (r: bool)
    ensures
        r == (block matches Some(b) && v4l2::effective_capabilities(order, b@)
            & v4l2::V4L2_CAP_VIDEO_CAPTURE != 0),
{
    match block {
        Some(b) => v4l2::query_capabilities(order, b).has_capture,
        None => false,
    }
}

// ---------------------------------------------------------------------------------------------
// Topology
// ---------------------------------------------------------------------------------------------

/// What the files of a USB device in sysfs hold, where they could be read.
#[derive(Debug, Clone)]
pub struct TopologyFiles {
    pub busnum: Option<String>,
    pub devnum: Option<String>,
    pub speed: Option<String>,
    pub version: Option<String>,
    pub maxchild: Option<String>,
    pub authorized: Option<String>,
    pub manufacturer: Option<String>,
    pub product: Option<String>,
    pub bcd_device: Option<String>,
    pub configuration: Option<String>,
}

#[derive(Debug, Clone)]
pub struct UsbTopology {
    pub sysfs_path: String,
    pub busnum: Option<u8>,
    pub devnum: Option<u8>,
    pub speed: Option<String>,
    pub version: Option<String>,
    pub maxchild: Option<u8>,
    pub authorized: Option<u8>,
    pub manufacturer: Option<String>,
    pub product_name: Option<String>,
    pub bcd_device: Option<String>,
    pub configuration: Option<String>,
}

/// What a file holds, without the space around it.
pub open spec fn trimmed_file(file: Option<String>) -> Option<Seq<char>> {
    match file {
        Some(content) => Some(text::trimmed(content@)),
        None => None,
    }
}

/// The number of one byte that a file holds.
pub open spec fn byte_file(file: Option<String>) -> Option<u8> {
    match file {
        Some(content) => match text::natural_up_to(text::trimmed(content@), 255) {
            Some(n) => Some(n as u8),
            None => None,
        },
        None => None,
    }
}

fn text_in(file: &Option<String>) -> (r: Option<String>)
    ensures
        text::opt_view(r) == trimmed_file(*file),
{
    match file {
        Some(content) => Some(trim(content.as_str())),
        None => None,
    }
}

fn byte_in(file: &Option<String>) -> (r: Option<u8>)
    ensures
        r == byte_file(*file),
{
    match file {
        Some(content) => {
            let digits = trim(content.as_str());
            match parse_natural(digits.as_str(), 255) {
                Some(n) => Some(n as u8),
                None => None,
            }
        },
        None => None,
    }
}

/// Read USB topology details for diagnostics
pub fn read_usb_topology(sysfs_path: String, files: &TopologyFiles) -> (r: UsbTopology)
    ensures
        r.sysfs_path == sysfs_path,
        r.busnum == byte_file(files.busnum),
        r.devnum == byte_file(files.devnum),
        text::opt_view(r.speed) == trimmed_file(files.speed),
        text::opt_view(r.version) == trimmed_file(files.version),
        r.maxchild == byte_file(files.maxchild),
        r.authorized == byte_file(files.authorized),
        text::opt_view(r.manufacturer) == trimmed_file(files.manufacturer),
        text::opt_view(r.product_name) == trimmed_file(files.product),
        text::opt_view(r.bcd_device) == trimmed_file(files.bcd_device),
        text::opt_view(r.configuration) == trimmed_file(files.configuration),
{
    UsbTopology {
        sysfs_path,
        busnum: byte_in(&files.busnum),
        devnum: byte_in(&files.devnum),
        speed: text_in(&files.speed),
        version: text_in(&files.version),
        maxchild: byte_in(&files.maxchild),
        authorized: byte_in(&files.authorized),
        manufacturer: text_in(&files.manufacturer),
        product_name: text_in(&files.product),
        bcd_device: text_in(&files.bcd_device),
        configuration: text_in(&files.configuration),
    }
}

// ---------------------------------------------------------------------------------------------
// Laws
// ---------------------------------------------------------------------------------------------

/// A release number whose two lower parts make a number of one byte gives a firmware version with
/// the major part and this number: the release 4, 0, 9 is the firmware 4.09.
pub proof fn releases_give_firmware(major: u8, minor: u8, sub_minor: u8)
    requires
        minor * 10 + sub_minor < 256,
    ensures
        release_number(major, minor, sub_minor) / 256 == major,
        release_number(major, minor, sub_minor) % 256 == minor * 10 + sub_minor,
{
    let low = (minor * 10 + sub_minor) as u16;
    let high = major as u16;
    assert(((high << 8u16) | low) / 256 == high && ((high << 8u16) | low) % 256 == low)
        by (bit_vector)
        requires
            low < 256,
            high < 256,
    ;
}

/// Only devices of the vendor are listed, and each of them is.
pub proof fn only_elgato_devices_are_listed(records: Seq<UsbRecord>, i: int)
    requires
        0 <= i < elgato_records(records).len(),
    ensures
        elgato_records(records)[i].vendor_id == ELGATO_VID,
        records.contains(elgato_records(records)[i]),
{
    seqs::lemma_filter_source(records, |r: UsbRecord| r.vendor_id == ELGATO_VID, i);
}

/// A device of the vendor is listed, whatever else is on the bus.
pub proof fn every_elgato_device_is_listed(records: Seq<UsbRecord>, i: int)
    requires
        0 <= i < records.len(),
        records[i].vendor_id == ELGATO_VID,
    ensures
        elgato_records(records).contains(records[i]),
{
    seqs::lemma_filter_keeps(records, |r: UsbRecord| r.vendor_id == ELGATO_VID, i);
}

/// Peripherals that are no cameras, such as a Stream Deck or a Wave XLR, are never listed as
/// capture devices, nor is a device without a capture node.
pub proof fn listed_cameras_are_usable(devices: Seq<LocatedDevice>, i: int)
    requires
        0 <= i < usable_devices(devices).len(),
    ensures
        ({
            let f = completed(usable_devices(devices)[i]);
            &&& device::exposes_uvc_capture(f.product)
            &&& !(f.product is Unknown)
            &&& f.product != ElgatoProduct::FacecamUsb2Fallback
            &&& f.v4l2_device is Some
            &&& f.v4l2_sysfs_path is Some
        }),
{
    seqs::lemma_filter_source(devices, |d: LocatedDevice| is_usable(d), i);
}

/// A camera with a sysfs path and a capture node is listed.
pub proof fn usable_cameras_are_listed(devices: Seq<LocatedDevice>, i: int)
    requires
        0 <= i < devices.len(),
        is_usable(devices[i]),
    ensures
        usable_devices(devices).contains(devices[i]),
{
    seqs::lemma_filter_keeps(devices, |d: LocatedDevice| is_usable(d), i);
}

/// The product that a reset is issued against when it has to be guessed is always a camera: one of
/// the capture devices, or the original Facecam.
pub proof fn default_product_is_a_camera(devices: Seq<LocatedDevice>, found: Seq<DeviceFingerprint>)
    requires
        complete_all(found, usable_devices(devices)),
    ensures
        device::exposes_uvc_capture(first_product(Some(found))),
        device::exposes_uvc_capture(first_product(None)),
{
    if found.len() > 0 {
        listed_cameras_are_usable(devices, 0);
        assert(found[0].same_as(completed(usable_devices(devices)[0])));
    }
}

/// A fingerprint tells where a device is: its bus, its address, its ports and its speed are those of
/// the record. Its product has the PID of the record, its firmware the release number, and its serial
/// number is that of the record, unless the camera is in fallback mode.
pub proof fn fingerprints_are_as_recorded(f: DeviceFingerprint, record: UsbRecord)
    requires
        identifies(f, record),
    ensures
        f.usb_bus == record.bus && f.usb_address == record.address,
        f.usb_port_numbers@ == record.port_numbers@ && f.usb_speed == record.speed,
        device::pid_of(f.product) == record.product_id,
        record.minor * 10 + record.sub_minor < 256 ==> f.firmware.major == record.major
            && f.firmware.minor == 10 * record.minor + record.sub_minor,
        record.serial is Some && record.product_id != 0x0077 ==> f.serial@ == record.serial->0@,
        record.serial is None || record.product_id == 0x0077 ==> f.serial@.len() == 0,
        f.v4l2_device is None && f.v4l2_sysfs_path is None && f.driver_version is None && f.card_name
            is None,
{
    if record.minor * 10 + record.sub_minor < 256 {
        releases_give_firmware(record.major, record.minor, record.sub_minor);
    }
}

/// A file that holds a number below 256 and the end of a line is read as this number, and larger
/// numbers are not read.
pub proof fn number_files_are_read(file: String, n: nat)
    requires
        file@ == text::decimal(n) + seq!['\n'] || file@ == text::decimal(n),
    ensures
        n < 256 ==> byte_file(Some(file)) == Some(n as u8),
        n >= 256 ==> byte_file(Some(file)) is None,
        trimmed_file(Some(file)) == Some(text::decimal(n)),
        byte_file(None) is None,
{
    lemma_number_is_trimmed(file@, n);
    text::numbers_read_back(n);
}

proof fn lemma_number_is_trimmed(s: Seq<char>, n: nat)
    requires
        s == text::decimal(n) + seq!['\n'] || s == text::decimal(n),
    ensures
        text::trimmed(s) == text::decimal(n),
{
    text::numbers_read_back(n);
    let d = text::decimal(n);
    let (a, b) = text::trimming_takes_the_outer_spaces(s);
    assert(text::all_digits(text::without_plus(d)));
    assert forall|i: int| 0 <= i < d.len() implies !text::is_space(#[trigger] s[i]) by {
        assert(s[i] == d[i]);
        lemma_decimal_char(n, i);
    }
    assert(text::is_space('\n'));
    assert(a == 0) by {
        if a > 0 {
            assert(text::is_space(s[0]));
        }
    }
    assert(b >= d.len()) by {
        if b < d.len() {
            assert(text::is_space(s[d.len() - 1]));
        }
    }
    assert(b == d.len()) by {
        if b > d.len() {
            assert(s[b - 1] == '\n');
        }
    }
    assert(s.subrange(0, b) =~= d);
}

proof fn lemma_decimal_char(n: nat, i: int)
    requires
        0 <= i < text::decimal(n).len(),
    ensures
        '0' <= text::decimal(n)[i] <= '9',
    decreases n,
{
    if n >= 10 && i < text::decimal(n).len() - 1 {
        lemma_decimal_char(n / 10, i);
    }
}

/// An entry of sysfs is the device at a place on the bus where its two numbers are those of the place;
/// an entry with other numbers, or without them, is passed over.
pub proof fn places_are_found_by_both_numbers(
    entry: SysfsEntry,
    bus: u8,
    addr: u8,
    a: String,
    b: String,
)
    requires
        entry.busnum == SysfsFile::Content(a),
        entry.devnum == SysfsFile::Content(b),
    ensures
        forall|x: u8, y: u8|
            #![trigger text::decimal(x as nat), text::decimal(y as nat)]
            a@ == text::decimal(x as nat) + seq!['\n'] && b@ == text::decimal(y as nat) + seq!['\n']
                ==> (visit_location(Ok(entry), bus, addr) is Take <==> x == bus && y == addr) && (
            visit_location(Ok(entry), bus, addr) is Skip <==> !(x == bus && y == addr)),
{
    assert forall|x: u8, y: u8|
        #![trigger text::decimal(x as nat), text::decimal(y as nat)]
        a@ == text::decimal(x as nat) + seq!['\n'] && b@ == text::decimal(y as nat) + seq![
            '\n',
        ] implies (visit_location(Ok(entry), bus, addr) is Take <==> x == bus && y == addr) && (
    visit_location(Ok(entry), bus, addr) is Skip <==> !(x == bus && y == addr)) by {
        lemma_number_is_trimmed(a@, x as nat);
        lemma_number_is_trimmed(b@, y as nat);
        text::numbers_read_back(x as nat);
        text::numbers_read_back(y as nat);
    }
}

/// An entry of sysfs is a camera of a product where its vendor is Elgato and its product number that
/// of the product, each as four hexadecimal digits.
pub proof fn products_are_found_by_their_ids(
    entry: SysfsEntry,
    product: ElgatoProduct,
    vendor: String,
    number: String,
)
    requires
        entry.id_vendor == SysfsFile::Content(vendor),
        entry.id_product == SysfsFile::Content(number),
    ensures
        visit_identity(Ok(entry), product) is Take <==> text::trimmed(vendor@) == text::hex_padded(
            0x0fd9,
            4,
        ) && text::trimmed(number@) == text::hex_padded(device::pid_of(product) as nat, 4),
        !(visit_identity(Ok(entry), product) is Fail),
{
}

/// An entry without one of its files is passed over, even where the other one cannot be read. An
/// entry with a file that cannot be read ends the search with the words of the error, and so does an
/// entry that cannot be read itself.
pub proof fn unreadable_entries_end_the_search(
    entry: SysfsEntry,
    bus: u8,
    addr: u8,
    product: ElgatoProduct,
    words: String,
)
    ensures
        entry.busnum is Missing || entry.devnum is Missing ==> visit_location(Ok(entry), bus, addr)
            == Visit::Skip,
        entry.id_vendor is Missing || entry.id_product is Missing ==> visit_identity(
            Ok(entry),
            product,
        ) == Visit::Skip,
        entry.busnum == SysfsFile::Unreadable(words) && !(entry.devnum is Missing)
            ==> visit_location(Ok(entry), bus, addr) == Visit::Fail(words),
        entry.busnum is Content && entry.devnum == SysfsFile::Unreadable(words) ==> visit_location(
            Ok(entry),
            bus,
            addr,
        ) == Visit::Fail(words),
        entry.id_vendor == SysfsFile::Unreadable(words) && !(entry.id_product is Missing)
            ==> visit_identity(Ok(entry), product) == Visit::Fail(words),
        entry.id_vendor is Content && entry.id_product == SysfsFile::Unreadable(words)
            ==> visit_identity(Ok(entry), product) == Visit::Fail(words),
        visit_location(Err(words), bus, addr) == Visit::Fail(words),
        visit_identity(Err(words), product) == Visit::Fail(words),
{
}

/// A device that was located keeps all that was known of it, and gets its sysfs path and its node.
pub proof fn located_devices_get_path_and_node(d: LocatedDevice)
    ensures
        completed(d).v4l2_sysfs_path == d.sysfs_path,
        completed(d).v4l2_device == d.node,
        completed(d).product == d.fingerprint.product && completed(d).firmware
            == d.fingerprint.firmware && completed(d).serial == d.fingerprint.serial,
        completed(d).usb_bus == d.fingerprint.usb_bus && completed(d).usb_address
            == d.fingerprint.usb_address && completed(d).usb_speed == d.fingerprint.usb_speed
            && completed(d).usb_port_numbers == d.fingerprint.usb_port_numbers,
        completed(d).driver_version == d.fingerprint.driver_version && completed(d).card_name
            == d.fingerprint.card_name,
        is_usable(d) <==> d.sysfs_path is Some && d.node is Some && !(d.fingerprint.product
            == ElgatoProduct::FacecamUsb2Fallback || d.fingerprint.product is Unknown),
{
}

/// A search ends at the first entry that is not passed over: it gives the path of an entry that is
/// taken, or the words of one that cannot be read. Where all entries are passed over, it gives nothing.
pub proof fn searches_end_at_the_first_entry(
    entries: Seq<Result<SysfsEntry, String>>,
    visit: spec_fn(Result<SysfsEntry, String>) -> Visit,
    outcome: Result<Option<String>, String>,
    i: int,
)
    requires
        first_visit(entries, visit, outcome),
        0 <= i <= entries.len(),
        forall|j: int| 0 <= j < i ==> visit(#[trigger] entries[j]) is Skip,
        i < entries.len() ==> !(visit(entries[i]) is Skip),
    ensures
        i == entries.len() ==> outcome == Ok::<Option<String>, String>(None),
        i < entries.len() && visit(entries[i]) is Take ==> (entries[i] matches Ok(e) && outcome == Ok::<
            Option<String>,
            String,
        >(Some(e.path))),
        i < entries.len() && visit(entries[i]) is Fail ==> outcome == Err::<Option<String>, String>(
            visit(entries[i])->Fail_0,
        ),
{
}

/// There is one fingerprint for each record, in order.
pub proof fn fingerprints_stand_for_their_records(
    found: Seq<DeviceFingerprint>,
    records: Seq<UsbRecord>,
    i: int,
)
    requires
        identify_all(found, records),
        0 <= i < records.len(),
    ensures
        found.len() == records.len(),
        found[i].usb_bus == records[i].bus && found[i].usb_address == records[i].address,
        device::pid_of(found[i].product) == records[i].product_id,
{
    assert(identifies(found[i], records[i]));
    fingerprints_are_as_recorded(found[i], records[i]);
}

/// Located devices are completed one for one, in order.
pub proof fn completed_devices_stand_for_their_finds(
    found: Seq<DeviceFingerprint>,
    devices: Seq<LocatedDevice>,
    i: int,
)
    requires
        complete_all(found, devices),
        0 <= i < devices.len(),
    ensures
        found.len() == devices.len(),
        found[i].v4l2_device == devices[i].node && found[i].v4l2_sysfs_path == devices[i].sysfs_path,
        found[i].product == devices[i].fingerprint.product && found[i].firmware
            == devices[i].fingerprint.firmware && found[i].serial == devices[i].fingerprint.serial,
        found[i].usb_bus == devices[i].fingerprint.usb_bus && found[i].usb_address
            == devices[i].fingerprint.usb_address,
{
    assert(found[i].same_as(completed(devices[i])));
}

/// The product that a camera is taken for is that of the first one that is found, and the original
/// Facecam where none is found or they cannot be listed.
pub proof fn first_products_are_taken(found: Seq<DeviceFingerprint>)
    ensures
        found.len() > 0 ==> first_product(Some(found)) == found[0].product,
        found.len() == 0 ==> first_product(Some(found)) == ElgatoProduct::Facecam,
        first_product(None) == ElgatoProduct::Facecam,
{
}

} // verus!
