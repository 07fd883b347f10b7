//! The Elgato products, their firmware versions and what a probe records of a device.

use crate::text::{self, clone_opt, decimal_text, push_decimal, push_hex, push_padded_left, text_eq};
use std::cmp::Ordering;
use vstd::prelude::*;
use vstd::string::*;

verus! {

/// Elgato vendor ID
pub const ELGATO_VID: u16 = 0x0fd9;

/// Known Elgato camera product IDs
#[derive(Debug, Clone, Copy, PartialEq, Eq, Hash, Structural)]
pub enum ElgatoProduct {
    Facecam,
    /// Facecam on USB 2.0: non-functional, shows "USB3-REQUIRED-FOR-FACECAM"
    FacecamUsb2Fallback,
    FacecamPro,
    FacecamMk2,
    FacecamMk2Usb2,
    CamLink4K,
    Unknown(u16),
}

/// The product that a USB product ID denotes.
pub open spec fn product_of_pid(pid: u16) -> ElgatoProduct {
    if pid == 0x0078 {
        ElgatoProduct::Facecam
    } else if pid == 0x0077 {
        ElgatoProduct::FacecamUsb2Fallback
    } else if pid == 0x0079 {
        ElgatoProduct::FacecamPro
    } else if pid == 0x0093 {
        ElgatoProduct::FacecamMk2
    } else if pid == 0x0094 {
        ElgatoProduct::FacecamMk2Usb2
    } else if pid == 0x0066 {
        ElgatoProduct::CamLink4K
    } else {
        ElgatoProduct::Unknown(pid)
    }
}

/// The USB product ID of a product.
pub open spec fn pid_of(product: ElgatoProduct) -> u16 {
    match product {
        ElgatoProduct::Facecam => 0x0078,
        ElgatoProduct::FacecamUsb2Fallback => 0x0077,
        ElgatoProduct::FacecamPro => 0x0079,
        ElgatoProduct::FacecamMk2 => 0x0093,
        ElgatoProduct::FacecamMk2Usb2 => 0x0094,
        ElgatoProduct::CamLink4K => 0x0066,
        ElgatoProduct::Unknown(pid) => pid,
    }
}

/// The display name of a product.
pub open spec fn product_name(product: ElgatoProduct) -> Seq<char> {
    match product {
        ElgatoProduct::Facecam => "Elgato Facecam"@,
        ElgatoProduct::FacecamUsb2Fallback => "Elgato Facecam (USB2 FALLBACK — NOT FUNCTIONAL)"@,
        ElgatoProduct::FacecamPro => "Elgato Facecam Pro"@,
        ElgatoProduct::FacecamMk2 => "Elgato Facecam MK.2"@,
        ElgatoProduct::FacecamMk2Usb2 => "Elgato Facecam MK.2 (USB2)"@,
        ElgatoProduct::CamLink4K => "Elgato Cam Link 4K"@,
        ElgatoProduct::Unknown(_) => "Unknown Elgato Device"@,
    }
}

/// A product as it appears in reports: its name and its product ID.
pub open spec fn product_text(product: ElgatoProduct) -> Seq<char> {
    product_name(product) + " (PID 0x"@ + text::hex_padded(pid_of(product) as nat, 4) + ")"@
}

/// The products that expose a UVC video-capture interface.
///
/// FacecamUsb2Fallback is the original Facecam's degraded USB 2.0 mode: it enumerates under a
/// product ID of its own with no UVC interface. FacecamMk2Usb2 is the MK.2's regular USB 2.0
/// product ID; its place in this list is provisional until an MK.2 has been tested.
pub open spec fn exposes_uvc_capture(product: ElgatoProduct) -> bool {
    ||| product == ElgatoProduct::Facecam
    ||| product == ElgatoProduct::FacecamPro
    ||| product == ElgatoProduct::FacecamMk2
    ||| product == ElgatoProduct::FacecamMk2Usb2
    ||| product == ElgatoProduct::CamLink4K
}

/// The slug of the family that a product belongs to.
pub open spec fn product_family(product: ElgatoProduct) -> Seq<char> {
    match product {
        ElgatoProduct::Facecam | ElgatoProduct::FacecamUsb2Fallback => "facecam"@,
        ElgatoProduct::FacecamPro => "facecam-pro"@,
        ElgatoProduct::FacecamMk2 | ElgatoProduct::FacecamMk2Usb2 => "facecam-mk2"@,
        ElgatoProduct::CamLink4K => "cam-link-4k"@,
        ElgatoProduct::Unknown(_) => "unknown"@,
    }
}

/// The V4L2 control name that a product uses for a generic control name, where it differs.
/// Control-name differences observed on PID 0x0079.
pub open spec fn product_alias(product: ElgatoProduct, generic: Seq<char>) -> Option<Seq<char>> {
    if product != ElgatoProduct::FacecamPro {
        None
    } else if generic == "white_balance_auto"@ || generic == "white_balance_temperature_auto"@ {
        Some("white_balance_automatic"@)
    } else if generic == "exposure_absolute"@ {
        Some("exposure_time_absolute"@)
    } else {
        None
    }
}

impl ElgatoProduct {
    /// The product that a USB product ID denotes.
    pub fn from_pid(pid: u16) -> (r: Self)
        ensures
            r == product_of_pid(pid),
    {
        match pid {
            0x0078 => ElgatoProduct::Facecam,
            0x0077 => ElgatoProduct::FacecamUsb2Fallback,
            0x0079 => ElgatoProduct::FacecamPro,
            0x0093 => ElgatoProduct::FacecamMk2,
            0x0094 => ElgatoProduct::FacecamMk2Usb2,
            0x0066 => ElgatoProduct::CamLink4K,
            other => ElgatoProduct::Unknown(other),
        }
    }

    /// The USB product ID.
    pub fn pid(&self) -> (r: u16)
        ensures
            r == pid_of(*self),
    {
        match self {
            ElgatoProduct::Facecam => 0x0078,
            ElgatoProduct::FacecamUsb2Fallback => 0x0077,
            ElgatoProduct::FacecamPro => 0x0079,
            ElgatoProduct::FacecamMk2 => 0x0093,
            ElgatoProduct::FacecamMk2Usb2 => 0x0094,
            ElgatoProduct::CamLink4K => 0x0066,
            ElgatoProduct::Unknown(pid) => *pid,
        }
    }

    /// The display name.
    pub fn name(&self) -> (r: &'static str)
        ensures
            r@ == product_name(*self),
    {
        match self {
            ElgatoProduct::Facecam => "Elgato Facecam",
            ElgatoProduct::FacecamUsb2Fallback => "Elgato Facecam (USB2 FALLBACK — NOT FUNCTIONAL)",
            ElgatoProduct::FacecamPro => "Elgato Facecam Pro",
            ElgatoProduct::FacecamMk2 => "Elgato Facecam MK.2",
            ElgatoProduct::FacecamMk2Usb2 => "Elgato Facecam MK.2 (USB2)",
            ElgatoProduct::CamLink4K => "Elgato Cam Link 4K",
            ElgatoProduct::Unknown(_) => "Unknown Elgato Device",
        }
    }

    /// Device is the original Facecam
    pub fn is_facecam_original(&self) -> (r: bool)
        ensures
            r == (*self == ElgatoProduct::Facecam),
    {
        matches!(self, ElgatoProduct::Facecam)
    }

    /// Device is a Facecam stuck in USB 2.0 fallback mode
    pub fn is_usb2_fallback(&self) -> (r: bool)
        ensures
            r == (*self == ElgatoProduct::FacecamUsb2Fallback),
    {
        matches!(self, ElgatoProduct::FacecamUsb2Fallback)
    }

    /// The product as it appears in reports: its name and its product ID.
    pub fn to_text(&self) -> (r: String)
        ensures
            r@ == product_text(*self),
    {
        let mut out = self.name().to_owned();
        out.append(" (PID 0x");
        push_hex(&mut out, self.pid() as u32, 4);
        out.append(")");
        out
    }
}

/// Static facts about an Elgato product that the device cannot self-report.
/// Anything that can be probed (formats, controls, capabilities) is read at
/// runtime via the v4l2 module; those do not belong here.
pub trait ProductDescriptor {
    /// What [`ProductDescriptor::is_uvc_capture`] returns.
    spec fn uvc_capture(&self) -> bool;

    /// What [`ProductDescriptor::family`] returns.
    spec fn family_slug(&self) -> Seq<char>;

    /// What [`ProductDescriptor::control_alias`] returns.
    spec fn alias_of(&self, generic: Seq<char>) -> Option<Seq<char>>;

    /// True iff this product exposes a UVC video-capture interface.
    /// HID-only Elgato devices (Stream Deck, Wave XLR) return false.
    fn is_uvc_capture(&self) -> (r: bool)
        ensures
            r == self.uvc_capture(),
    ;

    /// Slug used to look up family-specific profile defaults and in logs.
    /// Siblings share a family: Facecam + USB2 fallback share "facecam";
    /// Mk.2 + Mk.2-USB2 share "facecam-mk2".
    fn family(&self) -> (r: &'static str)
        ensures
            r@ == self.family_slug(),
    ;

    /// Resolve a profile's generic control name to the device's actual V4L2
    /// control name. Returns None if the device uses the generic name as-is.
    fn control_alias(&self, generic: &str) -> (r: Option<&'static str>)
        ensures
            match r {
                Some(name) => self.alias_of(generic@) == Some(name@),
                None => self.alias_of(generic@) is None,
            },
    ;
}

impl ProductDescriptor for ElgatoProduct {
    open spec fn uvc_capture(&self) -> bool {
        exposes_uvc_capture(*self)
    }

    open spec fn family_slug(&self) -> Seq<char> {
        product_family(*self)
    }

    open spec fn alias_of(&self, generic: Seq<char>) -> Option<Seq<char>> {
        product_alias(*self, generic)
    }

    fn is_uvc_capture(&self) -> (r: bool) {
        matches!(
            self,
            ElgatoProduct::Facecam | ElgatoProduct::FacecamPro | ElgatoProduct::FacecamMk2
                | ElgatoProduct::FacecamMk2Usb2 | ElgatoProduct::CamLink4K
        )
    }

    fn family(&self) -> (r: &'static str) {
        match self {
            ElgatoProduct::Facecam | ElgatoProduct::FacecamUsb2Fallback => "facecam",
            ElgatoProduct::FacecamPro => "facecam-pro",
            ElgatoProduct::FacecamMk2 | ElgatoProduct::FacecamMk2Usb2 => "facecam-mk2",
            ElgatoProduct::CamLink4K => "cam-link-4k",
            ElgatoProduct::Unknown(_) => "unknown",
        }
    }

    fn control_alias(&self, generic: &str) -> (r: Option<&'static str>) {
        match self {
            ElgatoProduct::FacecamPro => {
                if text_eq(generic, "white_balance_auto") || text_eq(
                    generic,
                    "white_balance_temperature_auto",
                ) {
                    Some("white_balance_automatic")
                } else if text_eq(generic, "exposure_absolute") {
                    Some("exposure_time_absolute")
                } else {
                    None
                }
            },
            _ => None,
        }
    }
}

/// Firmware version parsed from bcdDevice USB descriptor
#[derive(Debug, Clone, Copy, PartialEq, Eq, Ord, Structural)]
pub struct FirmwareVersion {
    pub major: u8,
    pub minor: u8,
}

impl PartialOrd for FirmwareVersion {
    fn partial_cmp(&self, other: &FirmwareVersion) -> (r: Option<Ordering>) {
        if self.major < other.major {
            Some(Ordering::Less)
        } else if self.major > other.major {
            Some(Ordering::Greater)
        } else if self.minor < other.minor {
            Some(Ordering::Less)
        } else if self.minor > other.minor {
            Some(Ordering::Greater)
        } else {
            Some(Ordering::Equal)
        }
    }
}

impl vstd::std_specs::cmp::PartialOrdSpecImpl for FirmwareVersion {
    open spec fn obeys_partial_cmp_spec() -> bool {
        true
    }

    open spec fn partial_cmp_spec(&self, other: &FirmwareVersion) -> Option<Ordering> {
        if firmware_before(*self, *other) {
            Some(Ordering::Less)
        } else if firmware_before(*other, *self) {
            Some(Ordering::Greater)
        } else {
            Some(Ordering::Equal)
        }
    }
}

/// The order of firmware versions: by major number, then by minor number.
pub open spec fn firmware_before(a: FirmwareVersion, b: FirmwareVersion) -> bool {
    a.major < b.major || (a.major == b.major && a.minor < b.minor)
}

/// A firmware version as it appears in reports.
pub open spec fn firmware_text(f: FirmwareVersion) -> Seq<char> {
    text::decimal(f.major as nat) + "."@ + text::padded_left(text::decimal(f.minor as nat), 2, '0')
}

impl FirmwareVersion {
    /// The version that a bcdDevice value holds: the high byte is the major number, the low byte
    /// the minor number.
    pub fn from_bcd(bcd: u16) -> (r: Self)
        ensures
            r.major == bcd / 256,
            r.minor == bcd % 256,
    {
        proof {
            assert((bcd >> 8) & 0xFF == bcd / 256 && (bcd >> 8) & 0xFF <= 255) by (bit_vector);
            assert(bcd & 0xFF == bcd % 256 && bcd & 0xFF <= 255) by (bit_vector);
        }
        FirmwareVersion { major: ((bcd >> 8) & 0xFF) as u8, minor: (bcd & 0xFF) as u8 }
    }

    /// Firmware 4.00+ has MJPEG support (confirmed on 4.00)
    pub fn has_mjpeg(&self) -> (r: bool)
        ensures
            r == !firmware_before(*self, (FirmwareVersion { major: 4, minor: 0 })),
    {
        *self >= (FirmwareVersion { major: 4, minor: 0 })
    }

    /// Firmware 3.00+ added bulk/iso transfer mode selection
    pub fn has_transfer_mode_selection(&self) -> (r: bool)
        ensures
            r == !firmware_before(*self, (FirmwareVersion { major: 3, minor: 0 })),
    {
        *self >= (FirmwareVersion { major: 3, minor: 0 })
    }

    /// The version as it appears in reports, such as `4.09`.
    pub fn to_text(&self) -> (r: String)
        ensures
            r@ == firmware_text(*self),
    {
        let mut out = decimal_text(self.major as u64);
        out.append(".");
        let minor = decimal_text(self.minor as u64);
        push_padded_left(&mut out, minor.as_str(), 2, '0');
        out
    }
}

/// The speed of a USB connection.
#[derive(Debug, Clone, Copy, PartialEq, Eq, Structural)]
pub enum UsbSpeed {
    Low,
    Full,
    High,
    Super,
    SuperPlus,
    Unknown,
}

/// A connection speed as it appears in reports.
pub open spec fn speed_text(speed: UsbSpeed) -> Seq<char> {
    match speed {
        UsbSpeed::Low => "Low (1.5 Mbps)"@,
        UsbSpeed::Full => "Full (12 Mbps)"@,
        UsbSpeed::High => "High (480 Mbps)"@,
        UsbSpeed::Super => "SuperSpeed (5 Gbps)"@,
        UsbSpeed::SuperPlus => "SuperSpeed+ (10+ Gbps)"@,
        UsbSpeed::Unknown => "Unknown"@,
    }
}

impl UsbSpeed {
    /// The speed as it appears in reports.
    pub fn to_text(&self) -> (r: &'static str)
        ensures
            r@ == speed_text(*self),
    {
        match self {
            UsbSpeed::Low => "Low (1.5 Mbps)",
            UsbSpeed::Full => "Full (12 Mbps)",
            UsbSpeed::High => "High (480 Mbps)",
            UsbSpeed::Super => "SuperSpeed (5 Gbps)",
            UsbSpeed::SuperPlus => "SuperSpeed+ (10+ Gbps)",
            UsbSpeed::Unknown => "Unknown",
        }
    }
}

/// A connection speed as it appears between brackets, in the report on a device.
pub open spec fn bracketed_speed_text(speed: UsbSpeed) -> Seq<char> {
    match speed {
        UsbSpeed::Low => "Low 1.5 Mbps"@,
        UsbSpeed::Full => "Full 12 Mbps"@,
        UsbSpeed::High => "High 480 Mbps"@,
        UsbSpeed::Super => "SuperSpeed 5 Gbps"@,
        UsbSpeed::SuperPlus => "SuperSpeed+ 10+ Gbps"@,
        UsbSpeed::Unknown => "Unknown"@,
    }
}

fn bracketed_speed(speed: UsbSpeed) -> (r: &'static str)
    ensures
        r@ == bracketed_speed_text(speed),
{
    match speed {
        UsbSpeed::Low => "Low 1.5 Mbps",
        UsbSpeed::Full => "Full 12 Mbps",
        UsbSpeed::High => "High 480 Mbps",
        UsbSpeed::Super => "SuperSpeed 5 Gbps",
        UsbSpeed::SuperPlus => "SuperSpeed+ 10+ Gbps",
        UsbSpeed::Unknown => "Unknown",
    }
}

/// The connection speed that libusb reports through rusb.
#[verifier::external_type_specification]
pub struct ExSpeed(rusb::Speed);

impl From<rusb::Speed> for UsbSpeed {
    fn from(speed: rusb::Speed) -> (r: Self) {
        match speed {
            rusb::Speed::Low => UsbSpeed::Low,
            rusb::Speed::Full => UsbSpeed::Full,
            rusb::Speed::High => UsbSpeed::High,
            rusb::Speed::Super => UsbSpeed::Super,
            rusb::Speed::SuperPlus => UsbSpeed::SuperPlus,
            _ => UsbSpeed::Unknown,
        }
    }
}

impl vstd::std_specs::convert::FromSpecImpl<rusb::Speed> for UsbSpeed {
    open spec fn obeys_from_spec() -> bool {
        true
    }

    open spec fn from_spec(speed: rusb::Speed) -> Self {
        match speed {
            rusb::Speed::Low => UsbSpeed::Low,
            rusb::Speed::Full => UsbSpeed::Full,
            rusb::Speed::High => UsbSpeed::High,
            rusb::Speed::Super => UsbSpeed::Super,
            rusb::Speed::SuperPlus => UsbSpeed::SuperPlus,
            _ => UsbSpeed::Unknown,
        }
    }
}

/// Full device fingerprint collected during probe
#[derive(Debug, Clone)]
pub struct DeviceFingerprint {
    pub product: ElgatoProduct,
    pub firmware: FirmwareVersion,
    pub serial: String,
    pub usb_bus: u8,
    pub usb_address: u8,
    pub usb_port_numbers: Vec<u8>,
    pub usb_speed: UsbSpeed,
    pub v4l2_device: Option<String>,
    pub v4l2_sysfs_path: Option<String>,
    pub driver_version: Option<String>,
    pub card_name: Option<String>,
}

/// A report line with a label, or nothing where the value is absent.
pub open spec fn optional_line(label: Seq<char>, value: Option<String>) -> Seq<char> {
    match value {
        Some(v) => label + v@ + "\n"@,
        None => Seq::empty(),
    }
}

/// The report on one device.
pub open spec fn fingerprint_text(f: DeviceFingerprint) -> Seq<char> {
    "Device:     "@ + product_text(f.product) + "\nFirmware:   "@ + firmware_text(f.firmware)
        + "\nSerial:     "@ + f.serial@ + "\nUSB:        bus "@ + text::decimal(f.usb_bus as nat)
        + " addr "@ + text::decimal(f.usb_address as nat) + " ("@ + bracketed_speed_text(
        f.usb_speed,
    ) + ")\n"@ + optional_line("V4L2:       "@, f.v4l2_device) + optional_line("Card:       "@, f.card_name)
}

impl DeviceFingerprint {
    /// The report on the device: product, firmware, serial number, USB location and, where they
    /// are known, the V4L2 node and the card name.
    pub fn to_text(&self) -> (r: String)
        ensures
            r@ == fingerprint_text(*self),
    {
        let mut out = "Device:     ".to_owned();
        out.append(self.product.to_text().as_str());
        out.append("\nFirmware:   ");
        out.append(self.firmware.to_text().as_str());
        out.append("\nSerial:     ");
        out.append(self.serial.as_str());
        out.append("\nUSB:        bus ");
        push_decimal(&mut out, self.usb_bus as u64);
        out.append(" addr ");
        push_decimal(&mut out, self.usb_address as u64);
        out.append(" (");
        out.append(bracketed_speed(self.usb_speed));
        out.append(")\n");
        let ghost head = out@;
        if let Some(dev) = &self.v4l2_device {
            out.append("V4L2:       ");
            out.append(dev.as_str());
            out.append("\n");
        }
        proof {
            assert(out@ =~= head + optional_line("V4L2:       "@, self.v4l2_device));
        }
        let ghost middle = out@;
        if let Some(card) = &self.card_name {
            out.append("Card:       ");
            out.append(card.as_str());
            out.append("\n");
        }
        proof {
            assert(out@ =~= middle + optional_line("Card:       "@, self.card_name));
        }
        out
    }

    /// A copy of the fingerprint.
    pub fn duplicate(&self) -> (r: Self)
        ensures
            r.same_as(*self),
    {
        DeviceFingerprint {
            product: self.product,
            firmware: self.firmware,
            serial: self.serial.clone(),
            usb_bus: self.usb_bus,
            usb_address: self.usb_address,
            usb_port_numbers: self.usb_port_numbers.clone(),
            usb_speed: self.usb_speed,
            v4l2_device: clone_opt(&self.v4l2_device),
            v4l2_sysfs_path: clone_opt(&self.v4l2_sysfs_path),
            driver_version: clone_opt(&self.driver_version),
            card_name: clone_opt(&self.card_name),
        }
    }

    /// Whether two fingerprints say the same.
    pub open spec fn same_as(self, other: Self) -> bool {
        &&& self.product == other.product
        &&& self.firmware == other.firmware
        &&& self.serial == other.serial
        &&& self.usb_bus == other.usb_bus
        &&& self.usb_address == other.usb_address
        &&& self.usb_port_numbers@ == other.usb_port_numbers@
        &&& self.usb_speed == other.usb_speed
        &&& self.v4l2_device == other.v4l2_device
        &&& self.v4l2_sysfs_path == other.v4l2_sysfs_path
        &&& self.driver_version == other.driver_version
        &&& self.card_name == other.card_name
    }
}

// ---------------------------------------------------------------------------------------------
// Laws
// ---------------------------------------------------------------------------------------------

/// A product ID survives the way through [`ElgatoProduct::from_pid`] and back.
pub proof fn pid_round_trip(pid: u16)
    ensures
        pid_of(product_of_pid(pid)) == pid,
{
}

/// A product that was made from a product ID survives the way through [`ElgatoProduct::pid`] and
/// back.
pub proof fn product_round_trip(pid: u16)
    ensures
        product_of_pid(pid_of(product_of_pid(pid))) == product_of_pid(pid),
{
}

/// Different product IDs denote different products.
pub proof fn pids_are_distinct(a: u16, b: u16)
    requires
        a != b,
    ensures
        product_of_pid(a) != product_of_pid(b),
{
}

/// A device in USB 2.0 fallback mode, and a product that is not known, is never taken for a
/// capture device.
pub proof fn fallback_and_unknown_are_not_capture_devices(product: ElgatoProduct)
    requires
        product == ElgatoProduct::FacecamUsb2Fallback || product is Unknown,
    ensures
        !exposes_uvc_capture(product),
{
}

/// Only the Facecam Pro renames controls; all other products use the generic names.
pub proof fn only_the_pro_renames_controls(product: ElgatoProduct, generic: Seq<char>)
    requires
        product != ElgatoProduct::FacecamPro,
    ensures
        product_alias(product, generic) is None,
{
}

/// Firmware versions are ordered totally: of two versions exactly one comes first, unless they
/// are the same.
pub proof fn firmware_order_is_total(a: FirmwareVersion, b: FirmwareVersion)
    ensures
        firmware_before(a, b) || firmware_before(b, a) || a == b,
        !(firmware_before(a, b) && firmware_before(b, a)),
        !firmware_before(a, a),
{
}

/// The order of firmware versions is transitive.
pub proof fn firmware_order_is_transitive(
    a: FirmwareVersion,
    b: FirmwareVersion,
    c: FirmwareVersion,
)
    requires
        firmware_before(a, b),
        firmware_before(b, c),
    ensures
        firmware_before(a, c),
{
}

/// Firmware that offers MJPEG also offers the choice of the transfer mode.
pub proof fn mjpeg_implies_transfer_modes(f: FirmwareVersion)
    requires
        !firmware_before(f, (FirmwareVersion { major: 4, minor: 0 })),
    ensures
        !firmware_before(f, (FirmwareVersion { major: 3, minor: 0 })),
{
}

/// The minor number of a firmware version has at least two digits, and the major one as many as it
/// needs: 4.9 is written 4.09.
pub proof fn minor_numbers_have_two_digits(f: FirmwareVersion)
    ensures
        f.minor < 10 ==> firmware_text(f) == text::decimal(f.major as nat) + seq![
            '.',
            '0',
            ('0' as int + f.minor) as char,
        ],
        f.minor >= 10 ==> firmware_text(f) == text::decimal(f.major as nat) + seq!['.']
            + text::decimal(f.minor as nat),
        text::natural(text::decimal(f.major as nat)) == Some(f.major as nat),
{
    reveal_strlit(".");
    assert("."@ =~= seq!['.']);
    text::numbers_read_back(f.major as nat);
    text::numbers_read_back(f.minor as nat);
    text::padding_fills_up(text::decimal(f.minor as nat), 2, '0');
    if f.minor < 10 {
        let m = text::padded_left(text::decimal(f.minor as nat), 2, '0');
        assert(text::decimal(f.minor as nat) =~= seq![('0' as int + f.minor) as char]);
        assert(m =~= seq!['0', ('0' as int + f.minor) as char]);
        assert(firmware_text(f) =~= text::decimal(f.major as nat) + seq![
            '.',
            '0',
            ('0' as int + f.minor) as char,
        ]);
    } else if f.minor < 100 {
        assert(text::decimal(f.minor as nat).len() == 2);
    }
}

/// Two products are of one family where they are one camera at two speeds: the original Facecam and
/// its fallback, and the MK.2 on either bus.
pub proof fn families_hold_one_camera(a: ElgatoProduct, b: ElgatoProduct)
    ensures
        product_family(a) == product_family(b) <==> {
            ||| a == b
            ||| a is Unknown && b is Unknown
            ||| (a == ElgatoProduct::Facecam || a == ElgatoProduct::FacecamUsb2Fallback) && (b
                == ElgatoProduct::Facecam || b == ElgatoProduct::FacecamUsb2Fallback)
            ||| (a == ElgatoProduct::FacecamMk2 || a == ElgatoProduct::FacecamMk2Usb2) && (b
                == ElgatoProduct::FacecamMk2 || b == ElgatoProduct::FacecamMk2Usb2)
        },
        text::has_prefix(product_family(ElgatoProduct::FacecamPro), product_family(a)) && a
            != ElgatoProduct::FacecamPro ==> product_family(a) == product_family(
            ElgatoProduct::Facecam,
        ),
{
    reveal_strlit("facecam");
    reveal_strlit("facecam-pro");
    reveal_strlit("facecam-mk2");
    reveal_strlit("cam-link-4k");
    reveal_strlit("unknown");
    assert("facecam-pro"@[8] == 'p');
    assert("facecam-mk2"@[8] == 'm');
    assert("cam-link-4k"@[0] == 'c' && "cam-link-4k"@[1] == 'a' && "cam-link-4k"@[2] == 'm');
    assert("facecam"@[0] == 'f' && "facecam-pro"@[0] == 'f' && "facecam-mk2"@[0] == 'f');
    assert("unknown"@[0] == 'u');
    assert("facecam"@.len() == 7 && "unknown"@.len() == 7 && "facecam-pro"@.len() == 11
        && "facecam-mk2"@.len() == 11 && "cam-link-4k"@.len() == 11);
    let pro = "facecam-pro"@;
    assert(pro.take(11)[0] == 'f' && pro.take(11)[8] == 'p' && pro.take(7)[0] == 'f');
}

/// A product is shown with its PID, as four hexadecimal digits in brackets at the end.
pub proof fn products_are_shown_with_their_pid(product: ElgatoProduct)
    ensures
        product_text(product).last() == ')',
        product_text(product).len() == product_name(product).len() + 13,
        product_text(product).take(product_name(product).len() as int) == product_name(product),
        product_text(product).subrange(
            product_name(product).len() as int + 8,
            product_name(product).len() as int + 12,
        ) == text::hex_padded(pid_of(product) as nat, 4),
{
    reveal_strlit(" (PID 0x");
    reveal_strlit(")");
    assert(" (PID 0x"@.len() == 8);
    assert(")"@.len() == 1 && ")"@[0] == ')');
    let n = product_name(product);
    let pid = pid_of(product) as nat;
    text::hex_digits_have_their_weight(pid / 16, pid % 16, 4);
    assert(16 * (pid / 16) + pid % 16 == pid);
    let all = product_text(product);
    assert(all.take(n.len() as int) =~= n);
    assert(all.subrange(n.len() as int + 8, n.len() as int + 12) =~= text::hex_padded(pid, 4));
}

/// The Pro calls automatic white balance and absolute exposure otherwise than the other cameras, and
/// nothing else; no other product has names of its own.
pub proof fn pro_names_of_controls(product: ElgatoProduct, generic: Seq<char>)
    ensures
        product_alias(product, generic) is Some <==> product == ElgatoProduct::FacecamPro && (generic
            == "white_balance_auto"@ || generic == "white_balance_temperature_auto"@ || generic
            == "exposure_absolute"@),
        product_alias(product, generic) matches Some(name) ==> (name == "exposure_time_absolute"@
            <==> generic == "exposure_absolute"@) && (name == "white_balance_automatic"@ <==> generic
            != "exposure_absolute"@),
{
    reveal_strlit("exposure_time_absolute");
    reveal_strlit("white_balance_automatic");
    reveal_strlit("exposure_absolute");
    reveal_strlit("white_balance_auto");
    reveal_strlit("white_balance_temperature_auto");
    assert("exposure_time_absolute"@[0] == 'e' && "exposure_absolute"@[0] == 'e');
    assert("white_balance_automatic"@[0] == 'w' && "white_balance_auto"@[0] == 'w'
        && "white_balance_temperature_auto"@[0] == 'w');
}

/// Each speed has a text of its own, and the text in brackets is the same without the brackets.
pub proof fn speeds_are_told_apart(a: UsbSpeed, b: UsbSpeed)
    ensures
        speed_text(a) == speed_text(b) <==> a == b,
        bracketed_speed_text(a) == bracketed_speed_text(b) <==> a == b,
        speed_text(a).filter(|c: char| c != '(' && c != ')').len() <= bracketed_speed_text(a).len()
            + 2,
        a != UsbSpeed::Unknown ==> speed_text(a).len() == bracketed_speed_text(a).len() + 2,
{
    reveal_strlit("Low (1.5 Mbps)");
    reveal_strlit("Full (12 Mbps)");
    reveal_strlit("High (480 Mbps)");
    reveal_strlit("SuperSpeed (5 Gbps)");
    reveal_strlit("SuperSpeed+ (10+ Gbps)");
    reveal_strlit("Unknown");
    reveal_strlit("Low 1.5 Mbps");
    reveal_strlit("Full 12 Mbps");
    reveal_strlit("High 480 Mbps");
    reveal_strlit("SuperSpeed 5 Gbps");
    reveal_strlit("SuperSpeed+ 10+ Gbps");
    assert("Low (1.5 Mbps)"@[0] == 'L' && "Low (1.5 Mbps)"@.len() == 14);
    assert("Full (12 Mbps)"@[0] == 'F' && "Full (12 Mbps)"@.len() == 14);
    assert("High (480 Mbps)"@[0] == 'H' && "High (480 Mbps)"@.len() == 15);
    assert("SuperSpeed (5 Gbps)"@[0] == 'S' && "SuperSpeed (5 Gbps)"@.len() == 19);
    assert("SuperSpeed+ (10+ Gbps)"@[0] == 'S' && "SuperSpeed+ (10+ Gbps)"@.len() == 22);
    assert("Unknown"@[0] == 'U');
    assert("Low 1.5 Mbps"@[0] == 'L' && "Low 1.5 Mbps"@.len() == 12);
    assert("Full 12 Mbps"@[0] == 'F' && "Full 12 Mbps"@.len() == 12);
    assert("High 480 Mbps"@[0] == 'H' && "High 480 Mbps"@.len() == 13);
    assert("SuperSpeed 5 Gbps"@[0] == 'S' && "SuperSpeed 5 Gbps"@.len() == 17);
    assert("SuperSpeed+ 10+ Gbps"@[0] == 'S' && "SuperSpeed+ 10+ Gbps"@.len() == 20);
    speed_text(a).lemma_filter_len(|c: char| c != '(' && c != ')');
}

/// The text of a fingerprint gives the bus before the address, and the serial number before both; it
/// ends with the node and the card as far as they are known.
pub proof fn fingerprints_name_bus_and_address(f: DeviceFingerprint)
    ensures
        exists|a: Seq<char>, b: Seq<char>|
            fingerprint_text(f) == #[trigger] (a + b) && text::has_prefix(
                b,
                "\nSerial:     "@ + f.serial@ + "\nUSB:        bus "@ + text::decimal(f.usb_bus as nat)
                    + " addr "@ + text::decimal(f.usb_address as nat) + " ("@ + bracketed_speed_text(
                    f.usb_speed,
                ) + ")\n"@,
            ) && a == "Device:     "@ + product_text(f.product) + "\nFirmware:   "@ + firmware_text(
                f.firmware,
            ),
{
    let a = "Device:     "@ + product_text(f.product) + "\nFirmware:   "@ + firmware_text(f.firmware);
    let middle = "\nSerial:     "@ + f.serial@ + "\nUSB:        bus "@ + text::decimal(
        f.usb_bus as nat,
    ) + " addr "@ + text::decimal(f.usb_address as nat) + " ("@ + bracketed_speed_text(f.usb_speed)
        + ")\n"@;
    let b = middle + optional_line("V4L2:       "@, f.v4l2_device) + optional_line(
        "Card:       "@,
        f.card_name,
    );
    assert(fingerprint_text(f) =~= a + b);
    assert(b.take(middle.len() as int) =~= middle);
}

/// Fingerprints that are the same agree in every field.
pub proof fn same_fingerprints_agree(a: DeviceFingerprint, b: DeviceFingerprint)
    ensures
        a.same_as(b) <==> {
            &&& a.product == b.product && a.firmware == b.firmware && a.serial == b.serial
            &&& a.usb_bus == b.usb_bus && a.usb_address == b.usb_address && a.usb_speed == b.usb_speed
            &&& a.usb_port_numbers@ == b.usb_port_numbers@
            &&& a.v4l2_device == b.v4l2_device && a.v4l2_sysfs_path == b.v4l2_sysfs_path
            &&& a.driver_version == b.driver_version && a.card_name == b.card_name
        },
{
}

} // verus!
