//! What the probe finds out about cameras, and how it reports it.

use crate::device::{
    self, DeviceFingerprint, ElgatoProduct, FirmwareVersion, UsbSpeed,
};
use crate::diagnostics::{KernelModuleInfo, SystemInfo};
use crate::formats::{self, FormatProbeResult, FormatVerdict, PixelFormat, VideoMode};
use crate::pipeline::{self, UDEV_LINK};
use crate::quirks::{self, is_format_known_broken, Quirk, QuirkMitigation, QuirkSeverity};
use crate::seqs;
use crate::text::{
    self, push_decimal, push_hex, push_opt_byte, push_opt_text, push_signed, quoted,
    truth_text,
};
use crate::types::{self, ControlValue, MenuItem};
use crate::usb::{LocatedDevice, UsbTopology};
use crate::v4l2::{self, DeviceCapabilities, FormatDescription};
use vstd::prelude::*;
use vstd::string::*;

verus! {

// ---------------------------------------------------------------------------------------------
// Detection
// ---------------------------------------------------------------------------------------------

/// What is printed where no camera is found.
pub const NOTHING_DETECTED: &'static str = "No Elgato cameras detected.\n\nTroubleshooting:\n  1. \
Check USB connection (USB 3.0 required for Facecam)\n  2. Run 'lsusb' to verify the device is \
visible to the kernel\n  3. Check 'dmesg | tail -20' for USB errors\n";

/// The warning on a camera in USB 2.0 fallback mode.
pub const FALLBACK_WARNING: &'static str = "  CRITICAL: Facecam is in USB 2.0 fallback mode (PID \
0x0077).\n            The device string says \"USB3-REQUIRED-FOR-FACECAM\".\n            It will \
NOT function as a camera until moved to a USB 3.0 port.\n            Look for a blue USB-A port \
or a USB-C/Thunderbolt port.\n";

/// What follows the version in the warning on old firmware.
pub const FIRMWARE_WARNING: &'static str = " lacks MJPEG support.\n           Chromium-based \
browsers will NOT work without v4l2loopback.\n           Update to firmware 4.03+ via Camera Hub \
(Windows/Mac).\n";

/// The warning on a slow connection.
pub const SPEED_WARNING: &'static str =
    "  WARNING: Device on USB 2.0 or lower. USB 3.0 is required.\n";

/// A device with what was found of it: nothing is looked up for a device in fallback mode; without
/// a sysfs path there is no capture node, and without one no capabilities.
pub open spec fn enriched(
    f: DeviceFingerprint,
    sysfs_path: Option<String>,
    node: Option<String>,
) -> DeviceFingerprint {
    if f.product == ElgatoProduct::FacecamUsb2Fallback || sysfs_path is None {
        f
    } else if node is None {
        DeviceFingerprint { v4l2_sysfs_path: sysfs_path, ..f }
    } else {
        DeviceFingerprint { v4l2_sysfs_path: sysfs_path, v4l2_device: node, ..f }
    }
}

/// Whether the capabilities of a device are recorded.
pub open spec fn records_capabilities(
    f: DeviceFingerprint,
    sysfs_path: Option<String>,
    node: Option<String>,
) -> bool {
    f.product != ElgatoProduct::FacecamUsb2Fallback && sysfs_path is Some && node is Some
}

/// Adds to a device what was found of it: its place in sysfs, its capture node, and the card name
/// and driver version that the node reports.
pub fn enrich(
    f: &DeviceFingerprint,
    sysfs_path: &Option<String>,
    node: &Option<String>,
    caps: &Option<DeviceCapabilities>,
) -> (r: DeviceFingerprint)
    ensures
        ({
            let e = enriched(*f, *sysfs_path, *node);
            match *caps {
                Some(c) if records_capabilities(*f, *sysfs_path, *node) => {
                    &&& r.same_as(
                        DeviceFingerprint {
                            card_name: r.card_name,
                            driver_version: r.driver_version,
                            ..e
                        },
                    )
                    &&& text::opt_view(r.card_name) == Some(c.card@)
                    &&& text::opt_view(r.driver_version) == Some(v4l2::version_text(c.version))
                },
                _ => r.same_as(e),
            }
        }),
{
    let mut out = f.duplicate();
    if f.product.is_usb2_fallback() {
        return out;
    }
    if let Some(sysfs) = sysfs_path {
        out.v4l2_sysfs_path = Some(sysfs.clone());
        if let Some(dev) = node {
            out.v4l2_device = Some(dev.clone());
            if let Some(c) = caps {
                out.card_name = Some(c.card.clone());
                out.driver_version = Some(c.version_string());
            }
        }
    }
    out
}

/// Whether a connection is too slow for a camera.
pub open spec fn is_slow(speed: UsbSpeed) -> bool {
    speed == UsbSpeed::High || speed == UsbSpeed::Full || speed == UsbSpeed::Low
}

/// Whether a device is an original Facecam whose firmware has no MJPEG.
pub open spec fn lacks_mjpeg(f: DeviceFingerprint) -> bool {
    f.product == ElgatoProduct::Facecam && device::firmware_before(
        f.firmware,
        (FirmwareVersion { major: 4, minor: 0 }),
    )
}

/// The section of one device in the report: its description and the warnings that apply.
pub open spec fn device_section(f: DeviceFingerprint) -> Seq<char> {
    device::fingerprint_text(f) + (if f.product == ElgatoProduct::FacecamUsb2Fallback {
        FALLBACK_WARNING@
    } else {
        Seq::empty()
    }) + (if lacks_mjpeg(f) {
        "  WARNING: Firmware "@ + device::firmware_text(f.firmware) + FIRMWARE_WARNING@
    } else {
        Seq::empty()
    }) + (if is_slow(f.usb_speed) {
        SPEED_WARNING@
    } else {
        Seq::empty()
    }) + "\n"@
}

/// The sections of the first `n` devices.
pub open spec fn device_sections(devices: Seq<DeviceFingerprint>, n: nat) -> Seq<char>
    decreases n,
{
    if n == 0 {
        Seq::empty()
    } else {
        device_sections(devices, (n - 1) as nat) + device_section(devices[n - 1])
    }
}

fn push_device_section(out: &mut String, f: &DeviceFingerprint)
    ensures
        final(out)@ == old(out)@ + device_section(*f),
{
    let ghost before = out@;
    out.append(f.to_text().as_str());
    if f.product.is_usb2_fallback() {
        out.append(FALLBACK_WARNING);
    }
    if f.product.is_facecam_original() && !f.firmware.has_mjpeg() {
        out.append("  WARNING: Firmware ");
        out.append(f.firmware.to_text().as_str());
        out.append(FIRMWARE_WARNING);
    }
    if matches!(f.usb_speed, UsbSpeed::High | UsbSpeed::Full | UsbSpeed::Low) {
        out.append(SPEED_WARNING);
    }
    out.append("\n");
    proof {
        assert(out@ =~= before + device_section(*f));
    }
}

/// The report of the detection.
pub fn detection_report(devices: &Vec<DeviceFingerprint>) -> (r: String)
    ensures
        r@ == if devices@.len() == 0 {
            NOTHING_DETECTED@
        } else {
            "=== Elgato Camera Detection ===\n\n"@ + device_sections(devices@, devices@.len())
        },
{
    if devices.len() == 0 {
        return NOTHING_DETECTED.to_owned();
    }
    let mut out = "=== Elgato Camera Detection ===\n\n".to_owned();
    let ghost head = out@;
    proof {
        assert(head + device_sections(devices@, 0) =~= head);
    }
    for i in 0..devices.len()
        invariant
            out@ == head + device_sections(devices@, i as nat),
    {
        push_device_section(&mut out, &devices[i]);
        proof {
            assert(out@ =~= head + device_sections(devices@, (i + 1) as nat));
        }
    }
    out
}

/// The product and the firmware of the first original Facecam, or an original Facecam of unknown
/// firmware where there is none.
pub open spec fn probed_product(devices: Seq<DeviceFingerprint>) -> (ElgatoProduct, FirmwareVersion) {
    let i = seqs::first_index(
        devices,
        |d: DeviceFingerprint| d.product == ElgatoProduct::Facecam,
    );
    if i < devices.len() {
        (devices[i].product, devices[i].firmware)
    } else {
        (ElgatoProduct::Facecam, pipeline::no_firmware())
    }
}

/// The product and the firmware that formats are judged by. `devices` is empty where the devices
/// could not be enumerated.
pub fn detect_product_firmware_or_default(devices: &Vec<DeviceFingerprint>) -> (r: (
    ElgatoProduct,
    FirmwareVersion,
))
    ensures
        r == probed_product(devices@),
{
    let ghost original = |d: DeviceFingerprint| d.product == ElgatoProduct::Facecam;
    for i in 0..devices.len()
        invariant
            original == (|d: DeviceFingerprint| d.product == ElgatoProduct::Facecam),
            forall|j: int| 0 <= j < i ==> !original(#[trigger] devices@[j]),
    {
        if devices[i].product.is_facecam_original() {
            proof {
                seqs::lemma_first_index(devices@, original, i as int);
            }
            return (devices[i].product, devices[i].firmware);
        }
    }
    proof {
        seqs::lemma_first_index(devices@, original, devices@.len() as int);
    }
    (ElgatoProduct::Facecam, FirmwareVersion { major: 0, minor: 0 })
}

/// The message where the probe finds no capture node.
pub const NOT_RESOLVED: &'static str =
    "Could not auto-detect Facecam V4L2 device. Use --device /dev/videoN to specify manually.";

/// Whether a device is an original Facecam whose capture node is known.
pub open spec fn is_probe_target(d: LocatedDevice) -> bool {
    d.fingerprint.product == ElgatoProduct::Facecam && d.sysfs_path is Some && d.node is Some
}

/// The capture node to probe: the one that was asked for, else that of the first original Facecam
/// that has one, else the link that udev makes, if it exists.
pub open spec fn probe_target(
    explicit: Option<String>,
    devices: Seq<LocatedDevice>,
    link_exists: bool,
) -> Result<Seq<char>, Seq<char>> {
    let i = seqs::first_index(devices, |d: LocatedDevice| is_probe_target(d));
    if let Some(path) = explicit {
        Ok(path@)
    } else if i < devices.len() {
        Ok(devices[i].node->0@)
    } else if link_exists {
        Ok(UDEV_LINK@)
    } else {
        Err(NOT_RESOLVED@)
    }
}

/// A result with texts as character sequences.
pub open spec fn result_view(r: Result<String, String>) -> Result<Seq<char>, Seq<char>> {
    match r {
        Ok(path) => Ok(path@),
        Err(words) => Err(words@),
    }
}

/// Resolve a V4L2 device path — auto-detect if not specified
pub fn resolve_device(explicit: &Option<String>, devices: &Vec<LocatedDevice>, link_exists: bool) -> (r:
    Result<String, String>)
    ensures
        result_view(r) == probe_target(*explicit, devices@, link_exists),
{
    if let Some(path) = explicit {
        return Ok(path.clone());
    }
    let i = first_probe_target(devices);
    if i < devices.len() {
        if let Some(node) = &devices[i].node {
            return Ok(node.clone());
        }
    }
    if link_exists {
        Ok(UDEV_LINK.to_owned())
    } else {
        Err(NOT_RESOLVED.to_owned())
    }
}

fn first_probe_target(devices: &Vec<LocatedDevice>) -> (r: usize)
    ensures
        r == seqs::first_index(devices@, |d: LocatedDevice| is_probe_target(d)),
        r <= devices@.len(),
        r < devices@.len() ==> is_probe_target(devices@[r as int]),
{
    let ghost wanted = |d: LocatedDevice| is_probe_target(d);
    for i in 0..devices.len()
        invariant
            wanted == (|d: LocatedDevice| is_probe_target(d)),
            forall|j: int| 0 <= j < i ==> !wanted(#[trigger] devices@[j]),
    {
        let d = &devices[i];
        if d.fingerprint.product.is_facecam_original() && d.sysfs_path.is_some()
            && d.node.is_some() {
            proof {
                seqs::lemma_first_index(devices@, wanted, i as int);
            }
            return i;
        }
    }
    proof {
        seqs::lemma_first_index(devices@, wanted, devices@.len() as int);
    }
    devices.len()
}

// ---------------------------------------------------------------------------------------------
// Formats
// ---------------------------------------------------------------------------------------------

/// The line of one format: a format that is known to be broken is marked.
pub open spec fn format_line(
    f: FormatDescription,
    product: ElgatoProduct,
    firmware: FirmwareVersion,
) -> Seq<char> {
    "  ["@ + text::decimal(f.index as nat) + "] "@ + formats::format_text(f.pixel_format) + " - "@
        + f.description@ + (if quirks::known_broken(product, firmware, f.pixel_format) {
        " [KNOWN BROKEN - see quirk registry]\n"@
    } else {
        " [UNTESTED]\n"@
    })
}

/// The lines of the first `n` formats.
pub open spec fn format_lines(
    all: Seq<FormatDescription>,
    product: ElgatoProduct,
    firmware: FirmwareVersion,
    n: nat,
) -> Seq<char>
    decreases n,
{
    if n == 0 {
        Seq::empty()
    } else {
        format_lines(all, product, firmware, (n - 1) as nat) + format_line(
            all[n - 1],
            product,
            firmware,
        )
    }
}

/// The list of formats in the report on a device.
pub fn format_listing(
    dev_path: &str,
    all: &Vec<FormatDescription>,
    product: ElgatoProduct,
    firmware: FirmwareVersion,
) -> (r: String)
    ensures
        r@ == "=== Format Enumeration: "@ + dev_path@ + " ===\n\nPixel Formats:\n"@ + format_lines(
            all@,
            product,
            firmware,
            all@.len(),
        ),
{
    let mut out = "=== Format Enumeration: ".to_owned();
    out.append(dev_path);
    out.append(" ===\n\nPixel Formats:\n");
    let ghost head = out@;
    proof {
        assert(head + format_lines(all@, product, firmware, 0) =~= head);
    }
    for i in 0..all.len()
        invariant
            out@ == head + format_lines(all@, product, firmware, i as nat),
    {
        let f = &all[i];
        out.append("  [");
        push_decimal(&mut out, f.index as u64);
        out.append("] ");
        out.append(f.pixel_format.to_text().as_str());
        out.append(" - ");
        out.append(f.description.as_str());
        if is_format_known_broken(product, firmware, f.pixel_format) {
            out.append(" [KNOWN BROKEN - see quirk registry]\n");
        } else {
            out.append(" [UNTESTED]\n");
        }
        proof {
            assert(out@ =~= head + format_lines(all@, product, firmware, (i + 1) as nat));
        }
    }
    out
}

/// The line of one mode, from its text and the text of its bandwidth: a mode whose format is known
/// to be broken is marked.
pub fn mode_line(
    mode_text: &str,
    bandwidth_text: &str,
    format: PixelFormat,
    product: ElgatoProduct,
    firmware: FirmwareVersion,
) -> (r: String)
    ensures
        r@ == "  "@ + mode_text@ + bandwidth_text@ + (if quirks::known_broken(
            product,
            firmware,
            format,
        ) {
            " [BROKEN]\n"@
        } else {
            "\n"@
        }),
{
    let mut out = "  ".to_owned();
    out.append(mode_text);
    out.append(bandwidth_text);
    if is_format_known_broken(product, firmware, format) {
        out.append(" [BROKEN]\n");
    } else {
        out.append("\n");
    }
    out
}

// ---------------------------------------------------------------------------------------------
// Controls
// ---------------------------------------------------------------------------------------------

/// The line of one menu item: the current one is marked.
pub open spec fn item_line(item: MenuItem, value: i64) -> Seq<char> {
    "    ["@ + text::decimal(item.index as nat) + "] "@ + item.name@ + (if item.index == value {
        " <-- current\n"@
    } else {
        "\n"@
    })
}

/// The lines of the first `n` menu items.
pub open spec fn item_lines(items: Seq<MenuItem>, value: i64, n: nat) -> Seq<char>
    decreases n,
{
    if n == 0 {
        Seq::empty()
    } else {
        item_lines(items, value, (n - 1) as nat) + item_line(items[n - 1], value)
    }
}

/// The section of one control.
pub open spec fn control_section(c: ControlValue) -> Seq<char> {
    "  "@ + c.name@ + " (0x"@ + text::hex_padded(c.id as nat, 8) + "):\n    type="@
        + types::control_type_text(c.control_type) + "  value="@ + text::signed_decimal(
        c.value as int,
    ) + "  range=["@ + text::signed_decimal(c.minimum as int) + ", "@ + text::signed_decimal(
        c.maximum as int,
    ) + "]  step="@ + text::signed_decimal(c.step as int) + "  default="@ + text::signed_decimal(
        c.default as int,
    ) + "\n"@ + item_lines(c.menu_items@, c.value, c.menu_items@.len()) + "\n"@
}

/// The sections of the first `n` controls.
pub open spec fn control_sections(controls: Seq<ControlValue>, n: nat) -> Seq<char>
    decreases n,
{
    if n == 0 {
        Seq::empty()
    } else {
        control_sections(controls, (n - 1) as nat) + control_section(controls[n - 1])
    }
}

fn push_control_section(out: &mut String, c: &ControlValue)
    ensures
        final(out)@ == old(out)@ + control_section(*c),
{
    let ghost before = out@;
    out.append("  ");
    out.append(c.name.as_str());
    out.append(" (0x");
    push_hex(out, c.id, 8);
    out.append("):\n    type=");
    out.append(c.control_type.to_text().as_str());
    out.append("  value=");
    push_signed(out, c.value);
    out.append("  range=[");
    push_signed(out, c.minimum);
    out.append(", ");
    push_signed(out, c.maximum);
    out.append("]  step=");
    push_signed(out, c.step);
    out.append("  default=");
    push_signed(out, c.default);
    out.append("\n");
    let ghost head = out@;
    proof {
        assert(head + item_lines(c.menu_items@, c.value, 0) =~= head);
    }
    for i in 0..c.menu_items.len()
        invariant
            out@ == head + item_lines(c.menu_items@, c.value, i as nat),
    {
        let item = &c.menu_items[i];
        out.append("    [");
        push_decimal(out, item.index as u64);
        out.append("] ");
        out.append(item.name.as_str());
        if item.index as i64 == c.value {
            out.append(" <-- current\n");
        } else {
            out.append("\n");
        }
        proof {
            assert(out@ =~= head + item_lines(c.menu_items@, c.value, (i + 1) as nat));
        }
    }
    out.append("\n");
    proof {
        assert(out@ =~= before + control_section(*c));
    }
}

/// The report on the controls of a device.
pub fn control_report(dev_path: &str, controls: &Vec<ControlValue>) -> (r: String)
    ensures
        r@ == "=== V4L2 Controls: "@ + dev_path@ + " ===\n\n"@ + control_sections(
            controls@,
            controls@.len(),
        ),
{
    let mut out = "=== V4L2 Controls: ".to_owned();
    out.append(dev_path);
    out.append(" ===\n\n");
    let ghost head = out@;
    proof {
        assert(head + control_sections(controls@, 0) =~= head);
    }
    for i in 0..controls.len()
        invariant
            out@ == head + control_sections(controls@, i as nat),
    {
        push_control_section(&mut out, &controls[i]);
        proof {
            assert(out@ =~= head + control_sections(controls@, (i + 1) as nat));
        }
    }
    out
}

// ---------------------------------------------------------------------------------------------
// Topology
// ---------------------------------------------------------------------------------------------

/// What is printed where the camera is not in sysfs.
pub const NO_TOPOLOGY: &'static str = "Facecam not found in USB sysfs.\n";

/// The report on the USB topology of a camera.
pub open spec fn topology_text(t: UsbTopology) -> Seq<char> {
    "=== USB Topology ===\n\n  sysfs:         "@ + t.sysfs_path@ + "\n  bus/dev:       "@
        + text::opt_byte_form(t.busnum) + "/"@ + text::opt_byte_form(t.devnum)
        + "\n  speed:         "@ + text::opt_text_form(t.speed) + "\n  USB version:   "@
        + text::opt_text_form(t.version) + "\n  authorized:    "@ + text::opt_byte_form(t.authorized)
        + "\n  manufacturer:  "@ + text::opt_text_form(t.manufacturer) + "\n  product:       "@
        + text::opt_text_form(t.product_name) + "\n  bcdDevice:     "@ + text::opt_text_form(
        t.bcd_device,
    ) + "\n  configuration: "@ + text::opt_text_form(t.configuration) + "\n"@
}

/// The report on the USB topology of a camera.
pub fn topology_report(t: &UsbTopology) -> (r: String)
    ensures
        r@ == topology_text(*t),
{
    let mut out = "=== USB Topology ===\n\n  sysfs:         ".to_owned();
    out.append(t.sysfs_path.as_str());
    out.append("\n  bus/dev:       ");
    push_opt_byte(&mut out, t.busnum);
    out.append("/");
    push_opt_byte(&mut out, t.devnum);
    out.append("\n  speed:         ");
    push_opt_text(&mut out, &t.speed);
    out.append("\n  USB version:   ");
    push_opt_text(&mut out, &t.version);
    out.append("\n  authorized:    ");
    push_opt_byte(&mut out, t.authorized);
    out.append("\n  manufacturer:  ");
    push_opt_text(&mut out, &t.manufacturer);
    out.append("\n  product:       ");
    push_opt_text(&mut out, &t.product_name);
    out.append("\n  bcdDevice:     ");
    push_opt_text(&mut out, &t.bcd_device);
    out.append("\n  configuration: ");
    push_opt_text(&mut out, &t.configuration);
    out.append("\n");
    out
}

// ---------------------------------------------------------------------------------------------
// Quirks
// ---------------------------------------------------------------------------------------------

/// A severity as it appears in reports.
pub open spec fn severity_form(s: QuirkSeverity) -> Seq<char> {
    match s {
        QuirkSeverity::Info => "Info"@,
        QuirkSeverity::Warning => "Warning"@,
        QuirkSeverity::Error => "Error"@,
        QuirkSeverity::Critical => "Critical"@,
    }
}

/// The name of a pixel format as it appears in the list of quirks.
pub open spec fn format_form(f: PixelFormat) -> Seq<char> {
    match f {
        PixelFormat::Yuyv => "Yuyv"@,
        PixelFormat::Uyvy => "Uyvy"@,
        PixelFormat::Nv12 => "Nv12"@,
        PixelFormat::Yu12 => "Yu12"@,
        PixelFormat::Mjpeg => "Mjpeg"@,
        PixelFormat::H264 => "H264"@,
        PixelFormat::Unknown(code) => "Unknown("@ + text::decimal(code as nat) + ")"@,
    }
}

/// A mitigation as it appears in the list of quirks.
pub open spec fn mitigation_form(m: QuirkMitigation) -> Seq<char> {
    match m {
        QuirkMitigation::NormalizationPipeline => "NormalizationPipeline"@,
        QuirkMitigation::UsbReset => "UsbReset"@,
        QuirkMitigation::SkipFormat(f) => "SkipFormat("@ + format_form(f) + ")"@,
        QuirkMitigation::FirmwareUpdate(v) => "FirmwareUpdate(FirmwareVersion { major: "@
            + text::decimal(v.major as nat) + ", minor: "@ + text::decimal(v.minor as nat) + " })"@,
        QuirkMitigation::ForceFormat(f) => "ForceFormat("@ + format_form(f) + ")"@,
        QuirkMitigation::RetryStreamOn => "RetryStreamOn"@,
        QuirkMitigation::AvoidUnlessLastResort => "AvoidUnlessLastResort"@,
        QuirkMitigation::Manual(words) => "Manual("@ + text::quoted_text(words@) + ")"@,
    }
}

/// The section of one quirk.
pub open spec fn quirk_section(q: Quirk) -> Seq<char> {
    "  ["@ + q.id@ + "] "@ + q.summary@ + " ("@ + severity_form(q.severity) + ")\n    "@
        + q.description@ + "\n    Mitigation: "@ + mitigation_form(q.mitigation) + "\n\n"@
}

/// The sections of the first `n` quirks.
pub open spec fn quirk_sections(all: Seq<Quirk>, n: nat) -> Seq<char>
    decreases n,
{
    if n == 0 {
        Seq::empty()
    } else {
        quirk_sections(all, (n - 1) as nat) + quirk_section(all[n - 1])
    }
}

fn push_format_form(out: &mut String, f: PixelFormat)
    ensures
        final(out)@ == old(out)@ + format_form(f),
{
    let ghost before = out@;
    match f {
        PixelFormat::Yuyv => out.append("Yuyv"),
        PixelFormat::Uyvy => out.append("Uyvy"),
        PixelFormat::Nv12 => out.append("Nv12"),
        PixelFormat::Yu12 => out.append("Yu12"),
        PixelFormat::Mjpeg => out.append("Mjpeg"),
        PixelFormat::H264 => out.append("H264"),
        PixelFormat::Unknown(code) => {
            out.append("Unknown(");
            push_decimal(out, code as u64);
            out.append(")");
        },
    }
    proof {
        assert(out@ =~= before + format_form(f));
    }
}

fn push_mitigation_form(out: &mut String, m: &QuirkMitigation)
    ensures
        final(out)@ == old(out)@ + mitigation_form(*m),
{
    let ghost before = out@;
    match m {
        QuirkMitigation::NormalizationPipeline => out.append("NormalizationPipeline"),
        QuirkMitigation::UsbReset => out.append("UsbReset"),
        QuirkMitigation::SkipFormat(f) => {
            out.append("SkipFormat(");
            push_format_form(out, *f);
            out.append(")");
        },
        QuirkMitigation::FirmwareUpdate(v) => {
            out.append("FirmwareUpdate(FirmwareVersion { major: ");
            push_decimal(out, v.major as u64);
            out.append(", minor: ");
            push_decimal(out, v.minor as u64);
            out.append(" })");
        },
        QuirkMitigation::ForceFormat(f) => {
            out.append("ForceFormat(");
            push_format_form(out, *f);
            out.append(")");
        },
        QuirkMitigation::RetryStreamOn => out.append("RetryStreamOn"),
        QuirkMitigation::AvoidUnlessLastResort => out.append("AvoidUnlessLastResort"),
        QuirkMitigation::Manual(words) => {
            out.append("Manual(");
            out.append(quoted(*words).as_str());
            out.append(")");
        },
    }
    proof {
        assert(out@ =~= before + mitigation_form(*m));
    }
}

/// Appends the section of one quirk.
pub fn print_quirk(out: &mut String, q: &Quirk)
    ensures
        final(out)@ == old(out)@ + quirk_section(*q),
{
    let ghost before = out@;
    out.append("  [");
    out.append(q.id);
    out.append("] ");
    out.append(q.summary);
    out.append(" (");
    out.append(
        match q.severity {
            QuirkSeverity::Info => "Info",
            QuirkSeverity::Warning => "Warning",
            QuirkSeverity::Error => "Error",
            QuirkSeverity::Critical => "Critical",
        },
    );
    out.append(")\n    ");
    out.append(q.description);
    out.append("\n    Mitigation: ");
    push_mitigation_form(out, &q.mitigation);
    out.append("\n\n");
    proof {
        assert(out@ =~= before + quirk_section(*q));
    }
}

fn push_quirks(out: &mut String, all: &Vec<Quirk>)
    ensures
        final(out)@ == old(out)@ + quirk_sections(all@, all@.len()),
{
    let ghost head = out@;
    proof {
        assert(head + quirk_sections(all@, 0) =~= head);
    }
    for i in 0..all.len()
        invariant
            out@ == head + quirk_sections(all@, i as nat),
    {
        print_quirk(out, &all[i]);
        proof {
            assert(out@ =~= head + quirk_sections(all@, (i + 1) as nat));
        }
    }
}

/// The report on all known quirks, where no device is connected.
pub fn registry_report(all: &Vec<Quirk>) -> (r: String)
    ensures
        r@ == "=== Quirk Registry (all known quirks) ===\n\nNo device connected — showing complete registry.\n\n"@
            + quirk_sections(all@, all@.len()),
{
    let mut out =
        "=== Quirk Registry (all known quirks) ===\n\nNo device connected — showing complete registry.\n\n".to_owned();
    push_quirks(&mut out, all);
    out
}

/// The report on the quirks that apply to a device.
pub fn quirk_report(product: ElgatoProduct, firmware: FirmwareVersion, applicable: &Vec<Quirk>) -> (r:
    String)
    ensures
        r@ == "=== Applicable Quirks for "@ + device::product_text(product) + " (fw "@
            + device::firmware_text(firmware) + ") ===\n\n"@ + (if applicable@.len() == 0 {
            "No known quirks apply to this device/firmware combination.\n"@
        } else {
            quirk_sections(applicable@, applicable@.len())
        }),
{
    let mut out = "=== Applicable Quirks for ".to_owned();
    out.append(product.to_text().as_str());
    out.append(" (fw ");
    out.append(firmware.to_text().as_str());
    out.append(") ===\n\n");
    if applicable.len() == 0 {
        out.append("No known quirks apply to this device/firmware combination.\n");
    } else {
        push_quirks(&mut out, applicable);
    }
    out
}

// ---------------------------------------------------------------------------------------------
// System
// ---------------------------------------------------------------------------------------------

/// The state of a kernel module as it appears in reports.
pub open spec fn module_state(loaded: bool, version: Option<String>) -> Seq<char> {
    (if loaded {
        "loaded"@
    } else {
        "NOT loaded"@
    }) + " (version: "@ + (match version {
        Some(v) => v@,
        None => "n/a"@,
    }) + ")\n"@
}

/// The lines of the first `n` device nodes.
pub open spec fn node_lines(nodes: Seq<Seq<char>>, n: nat) -> Seq<char>
    decreases n,
{
    if n == 0 {
        Seq::empty()
    } else {
        node_lines(nodes, (n - 1) as nat) + "  "@ + nodes[n - 1] + "\n"@
    }
}

/// The report on the system.
pub open spec fn system_text(s: SystemInfo, m: KernelModuleInfo, nodes: Seq<Seq<char>>) -> Seq<char> {
    "=== System Diagnostics ===\n\nSystem:\n  Hostname:  "@ + s.hostname@ + "\n  Kernel:    "@
        + s.kernel_version@ + "\n  OS:        "@ + s.os_release@ + "\n  Ubuntu:    "@
        + s.ubuntu_version@ + "\n  Uptime:    "@ + text::decimal(s.uptime_secs as nat)
        + "s\n\nKernel Modules:\n  uvcvideo:     "@ + module_state(
        m.uvcvideo_loaded,
        m.uvcvideo_version,
    ) + "  v4l2loopback: "@ + module_state(m.v4l2loopback_loaded, m.v4l2loopback_version)
        + "\nV4L2 Devices:\n"@ + (if nodes.len() == 0 {
        "  (none)\n"@
    } else {
        node_lines(nodes, nodes.len())
    })
}

fn push_module_state(out: &mut String, loaded: bool, version: &Option<String>)
    ensures
        final(out)@ == old(out)@ + module_state(loaded, *version),
{
    let ghost before = out@;
    out.append(
        if loaded {
            "loaded"
        } else {
            "NOT loaded"
        },
    );
    out.append(" (version: ");
    out.append(
        match version {
            Some(v) => v.as_str(),
            None => "n/a",
        },
    );
    out.append(")\n");
    proof {
        assert(out@ =~= before + module_state(loaded, *version));
    }
}

/// The report on the system.
pub fn system_report(s: &SystemInfo, m: &KernelModuleInfo, nodes: &Vec<String>) -> (r: String)
    ensures
        r@ == system_text(*s, *m, text::views(nodes@)),
{
    let mut out = "=== System Diagnostics ===\n\nSystem:\n  Hostname:  ".to_owned();
    out.append(s.hostname.as_str());
    out.append("\n  Kernel:    ");
    out.append(s.kernel_version.as_str());
    out.append("\n  OS:        ");
    out.append(s.os_release.as_str());
    out.append("\n  Ubuntu:    ");
    out.append(s.ubuntu_version.as_str());
    out.append("\n  Uptime:    ");
    push_decimal(&mut out, s.uptime_secs);
    out.append("s\n\nKernel Modules:\n  uvcvideo:     ");
    push_module_state(&mut out, m.uvcvideo_loaded, &m.uvcvideo_version);
    out.append("  v4l2loopback: ");
    push_module_state(&mut out, m.v4l2loopback_loaded, &m.v4l2loopback_version);
    out.append("\nV4L2 Devices:\n");
    let ghost head = out@;
    let ghost all = text::views(nodes@);
    if nodes.len() == 0 {
        out.append("  (none)\n");
    } else {
        proof {
            assert(head + node_lines(all, 0) =~= head);
        }
        for i in 0..nodes.len()
            invariant
                all == text::views(nodes@),
                out@ == head + node_lines(all, i as nat),
        {
            out.append("  ");
            out.append(nodes[i].as_str());
            out.append("\n");
            proof {
                assert(out@ =~= head + node_lines(all, (i + 1) as nat));
            }
        }
    }
    out
}

// ---------------------------------------------------------------------------------------------
// Validation
// ---------------------------------------------------------------------------------------------

/// Whether a mode has the size at which formats are validated.
pub open spec fn is_full_hd(m: VideoMode) -> bool {
    m.width == 1920 && m.height == 1080
}

/// Whether a mode is in a list of modes by its format.
pub open spec fn has_format(modes: Seq<VideoMode>, format: PixelFormat) -> bool {
    exists|i: int| 0 <= i < modes.len() && (#[trigger] modes[i]).format == format
}

/// The modes that are validated: of each format the first one at 1920 by 1080.
pub open spec fn validated_modes(modes: Seq<VideoMode>) -> Seq<VideoMode>
    decreases modes.len(),
{
    if modes.len() == 0 {
        Seq::empty()
    } else {
        let before = validated_modes(modes.drop_last());
        let mode = modes.last();
        if is_full_hd(mode) && !has_format(before, mode.format) {
            before.push(mode)
        } else {
            before
        }
    }
}

/// The modes that are validated: a representative subset, one mode per format at 1080p.
pub fn modes_to_validate(modes: &Vec<VideoMode>) -> (r: Vec<VideoMode>)
    ensures
        r@ == validated_modes(modes@),
{
    let mut out: Vec<VideoMode> = Vec::new();
    for i in 0..modes.len()
        invariant
            out@ == validated_modes(modes@.take(i as int)),
    {
        let mode = modes[i];
        let mut known = false;
        for j in 0..out.len()
            invariant
                known == exists|k: int| 0 <= k < j && (#[trigger] out@[k]).format == mode.format,
        {
            if out[j].format == mode.format {
                known = true;
            }
        }
        if mode.width == 1920 && mode.height == 1080 && !known {
            out.push(mode);
        }
        proof {
            assert(modes@.take(i + 1).drop_last() =~= modes@.take(i as int));
        }
    }
    proof {
        assert(modes@.take(modes@.len() as int) =~= modes@);
    }
    out
}

/// What came of a stream: how many frames, whether the first one held anything but zeros, and
/// whether all of them had its size.
#[derive(Debug, Clone, Copy, PartialEq, Eq, Structural)]
pub struct Delivery {
    pub frames: u32,
    pub first_nonzero: bool,
    pub first_size: usize,
    pub sizes_agree: bool,
}

/// A stream of which no frame has come yet.
pub open spec fn no_delivery() -> Delivery {
    Delivery { frames: 0, first_nonzero: false, first_size: 0, sizes_agree: false }
}

/// Whether a frame holds anything but zeros.
pub open spec fn is_nonzero(frame: Seq<u8>) -> bool {
    exists|i: int| 0 <= i < frame.len() && #[trigger] frame[i] != 0
}

/// A stream after one more frame.
pub open spec fn after_frame(d: Delivery, frame: Seq<u8>) -> Delivery {
    if d.frames == 0 {
        Delivery {
            frames: 1,
            first_nonzero: is_nonzero(frame),
            first_size: frame.len() as usize,
            sizes_agree: true,
        }
    } else {
        Delivery {
            frames: (d.frames + 1) as u32,
            sizes_agree: d.sizes_agree && frame.len() == d.first_size,
            ..d
        }
    }
}

impl Delivery {
    /// A stream of which no frame has come yet.
    pub fn new() -> (r: Self)
        ensures
            r == no_delivery(),
    {
        Delivery { frames: 0, first_nonzero: false, first_size: 0, sizes_agree: false }
    }

    /// Takes one more frame. The frame counter must not be at its end.
    pub fn record(self, frame: &[u8]) -> (r: Self)
        requires
            self.frames < u32::MAX,
        ensures
            r == after_frame(self, frame@),
    {
        if self.frames > 0 {
            return Delivery {
                frames: self.frames + 1,
                first_nonzero: self.first_nonzero,
                first_size: self.first_size,
                sizes_agree: self.sizes_agree && frame.len() == self.first_size,
            };
        }
        let mut nonzero = false;
        for i in 0..frame.len()
            invariant
                nonzero == exists|j: int| 0 <= j < i && #[trigger] frame@[j] != 0,
        {
            if frame[i] != 0 {
                nonzero = true;
            }
        }
        Delivery { frames: 1, first_nonzero: nonzero, first_size: frame.len(), sizes_agree: true }
    }
}

/// How the probe of a mode went.
#[derive(Debug, Clone)]
pub enum Negotiation {
    /// The device could not be opened; the words of the error.
    NotOpened(String),
    /// The format was refused; the words of the error.
    FormatRefused(String),
    /// The format was accepted, but no buffers could be requested; the words of the error.
    BuffersRefused(String),
    /// The format was accepted, but the stream could not be started; the words of the error.
    NotStarted(String),
    /// The format was accepted and the stream started; what came of it.
    Accepted(Delivery),
}

/// The error of a probe, if any.
pub open spec fn probe_error(negotiation: Negotiation) -> Option<Seq<char>> {
    match negotiation {
        Negotiation::NotOpened(words) => Some(words@),
        Negotiation::FormatRefused(words) => Some("set_format failed: "@ + words@),
        Negotiation::BuffersRefused(words) => Some("request_buffers failed: "@ + words@),
        Negotiation::NotStarted(words) => Some("stream start failed: "@ + words@),
        Negotiation::Accepted(_) => None,
    }
}

/// What was delivered in a probe.
pub open spec fn probe_delivery(negotiation: Negotiation) -> Delivery {
    match negotiation {
        Negotiation::Accepted(delivery) => delivery,
        _ => no_delivery(),
    }
}

/// The verdict of a probe: a mode works where frames come, unless its format is known to be
/// broken.
pub open spec fn probe_verdict(
    negotiation: Negotiation,
    product: ElgatoProduct,
    firmware: FirmwareVersion,
    format: PixelFormat,
) -> FormatVerdict {
    match negotiation {
        Negotiation::Accepted(delivery) => if quirks::known_broken(product, firmware, format) {
            FormatVerdict::GarbageFrames
        } else if delivery.frames > 0 {
            FormatVerdict::Working
        } else {
            FormatVerdict::NoFrames
        },
        Negotiation::NotStarted(_) => FormatVerdict::NoFrames,
        _ => FormatVerdict::NegotiationFailed,
    }
}

/// The result of the validation of a mode: the verdict rests on the negotiation, on the frames that
/// came, and on what is known of the device.
pub fn validate_single_format(
    mode: &VideoMode,
    negotiation: &Negotiation,
    product: ElgatoProduct,
    firmware: FirmwareVersion,
) -> (r: FormatProbeResult)
    ensures
        r.mode == *mode,
        r.negotiation_ok == !(negotiation is NotOpened || negotiation is FormatRefused),
        r.stream_started == (negotiation is Accepted),
        r.frames_received == probe_delivery(*negotiation).frames,
        r.first_frame_nonzero == probe_delivery(*negotiation).first_nonzero,
        r.frame_size_consistent == probe_delivery(*negotiation).sizes_agree,
        r.avg_frame_interval_us is None,
        text::opt_view(r.error) == probe_error(*negotiation),
        r.verdict == probe_verdict(*negotiation, product, firmware, mode.format),
{
    let (negotiation_ok, error, verdict) = match negotiation {
        Negotiation::NotOpened(words) => (
            false,
            Some(words.clone()),
            FormatVerdict::NegotiationFailed,
        ),
        Negotiation::FormatRefused(words) => {
            let mut message = "set_format failed: ".to_owned();
            message.append(words.as_str());
            (false, Some(message), FormatVerdict::NegotiationFailed)
        },
        Negotiation::BuffersRefused(words) => {
            let mut message = "request_buffers failed: ".to_owned();
            message.append(words.as_str());
            (true, Some(message), FormatVerdict::NegotiationFailed)
        },
        Negotiation::NotStarted(words) => {
            let mut message = "stream start failed: ".to_owned();
            message.append(words.as_str());
            (true, Some(message), FormatVerdict::NoFrames)
        },
        Negotiation::Accepted(delivery) => {
            let verdict = if is_format_known_broken(product, firmware, mode.format) {
                FormatVerdict::GarbageFrames
            } else if delivery.frames > 0 {
                FormatVerdict::Working
            } else {
                FormatVerdict::NoFrames
            };
            (true, None, verdict)
        },
    };
    let (stream_started, delivery) = match negotiation {
        Negotiation::Accepted(delivery) => (true, *delivery),
        _ => (false, Delivery::new()),
    };
    FormatProbeResult {
        mode: *mode,
        negotiation_ok,
        stream_started,
        frames_received: delivery.frames,
        first_frame_nonzero: delivery.first_nonzero,
        frame_size_consistent: delivery.sizes_agree,
        avg_frame_interval_us: None,
        error,
        verdict,
    }
}

/// The line of one result in the summary of a validation.
pub open spec fn summary_line(r: FormatProbeResult) -> Seq<char> {
    "  "@ + formats::format_text(r.mode.format) + " : "@ + formats::verdict_text(r.verdict)
        + " (frames: "@ + text::decimal(r.frames_received as nat) + ", nonzero: "@ + text::truth(
        r.first_frame_nonzero,
    ) + ", consistent: "@ + text::truth(r.frame_size_consistent) + ")\n"@
}

/// The lines of the first `n` results.
pub open spec fn summary_lines(results: Seq<FormatProbeResult>, n: nat) -> Seq<char>
    decreases n,
{
    if n == 0 {
        Seq::empty()
    } else {
        summary_lines(results, (n - 1) as nat) + summary_line(results[n - 1])
    }
}

fn push_summary_line(out: &mut String, r: &FormatProbeResult)
    ensures
        final(out)@ == old(out)@ + summary_line(*r),
{
    let ghost before = out@;
    out.append("  ");
    out.append(r.mode.format.to_text().as_str());
    out.append(" : ");
    out.append(r.verdict.to_text());
    out.append(" (frames: ");
    push_decimal(out, r.frames_received as u64);
    out.append(", nonzero: ");
    out.append(truth_text(r.first_frame_nonzero));
    out.append(", consistent: ");
    out.append(truth_text(r.frame_size_consistent));
    out.append(")\n");
    proof {
        assert(out@ =~= before + summary_line(*r));
    }
}

/// The summary of a validation.
pub fn validation_summary(results: &Vec<FormatProbeResult>) -> (r: String)
    ensures
        r@ == "=== Validation Summary ===\n\n"@ + summary_lines(results@, results@.len()),
{
    let mut out = "=== Validation Summary ===\n\n".to_owned();
    let ghost head = out@;
    proof {
        assert(head + summary_lines(results@, 0) =~= head);
    }
    for i in 0..results.len()
        invariant
            out@ == head + summary_lines(results@, i as nat),
    {
        push_summary_line(&mut out, &results[i]);
        proof {
            assert(out@ =~= head + summary_lines(results@, (i + 1) as nat));
        }
    }
    out
}

// ---------------------------------------------------------------------------------------------
// Laws
// ---------------------------------------------------------------------------------------------

/// Every validated mode is a mode of the device at 1920 by 1080, and no two have the same format.
pub proof fn validated_modes_are_distinct(modes: Seq<VideoMode>)
    ensures
        forall|i: int|
            0 <= i < validated_modes(modes).len() ==> is_full_hd(
                #[trigger] validated_modes(modes)[i],
            ) && modes.contains(validated_modes(modes)[i]),
        forall|i: int, j: int|
            0 <= i < j < validated_modes(modes).len() ==> (#[trigger] validated_modes(
                modes,
            )[i]).format != (#[trigger] validated_modes(modes)[j]).format,
    decreases modes.len(),
{
    if modes.len() > 0 {
        let rest = modes.drop_last();
        validated_modes_are_distinct(rest);
        let before = validated_modes(rest);
        let all = validated_modes(modes);
        assert forall|i: int| 0 <= i < all.len() implies is_full_hd(#[trigger] all[i])
            && modes.contains(all[i]) by {
            if i < before.len() {
                assert(all[i] == before[i]);
                let k = choose|k: int| 0 <= k < rest.len() && rest[k] == before[i];
                assert(modes[k] == before[i]);
            } else {
                assert(modes[modes.len() - 1] == modes.last());
            }
        }
    }
}

/// Every format that a device offers at 1920 by 1080 is validated.
pub proof fn every_format_is_validated(modes: Seq<VideoMode>, i: int)
    requires
        0 <= i < modes.len(),
        is_full_hd(modes[i]),
    ensures
        has_format(validated_modes(modes), modes[i].format),
    decreases modes.len(),
{
    let before = validated_modes(modes.drop_last());
    let all = validated_modes(modes);
    if i < modes.len() - 1 {
        every_format_is_validated(modes.drop_last(), i);
        let k = choose|k: int|
            0 <= k < before.len() && (#[trigger] before[k]).format == modes[i].format;
        assert(all[k].format == modes[i].format);
    } else if has_format(before, modes[i].format) {
        let k = choose|k: int|
            0 <= k < before.len() && (#[trigger] before[k]).format == modes[i].format;
        assert(all[k].format == modes[i].format);
    } else {
        assert(all[all.len() - 1].format == modes[i].format);
    }
}

/// A stream after a list of frames.
pub open spec fn after_frames(frames: Seq<Seq<u8>>) -> Delivery
    decreases frames.len(),
{
    if frames.len() == 0 {
        no_delivery()
    } else {
        after_frame(after_frames(frames.drop_last()), frames.last())
    }
}

/// A stream is described by its frames: their number, whether the first one holds anything, and
/// whether all are as long as the first.
pub proof fn deliveries_describe_their_frames(frames: Seq<Seq<u8>>)
    requires
        frames.len() <= u32::MAX,
        forall|i: int| 0 <= i < frames.len() ==> (#[trigger] frames[i]).len() <= usize::MAX,
    ensures
        ({
            let d = after_frames(frames);
            &&& d.frames == frames.len()
            &&& d.first_nonzero == (frames.len() > 0 && is_nonzero(frames[0]))
            &&& d.sizes_agree == (frames.len() > 0 && forall|i: int|
                0 <= i < frames.len() ==> (#[trigger] frames[i]).len() == frames[0].len())
            &&& frames.len() > 0 ==> d.first_size == frames[0].len()
        }),
    decreases frames.len(),
{
    if frames.len() > 0 {
        let before = frames.drop_last();
        deliveries_describe_their_frames(before);
        if before.len() > 0 {
            assert(before[0] == frames[0]);
            assert forall|i: int| 0 <= i < before.len() implies before[i] == frames[i] by {}
            if after_frames(frames).sizes_agree {
                assert forall|i: int| 0 <= i < frames.len() implies (#[trigger] frames[i]).len()
                    == frames[0].len() by {
                    if i < before.len() {
                        assert(before[i] == frames[i]);
                    }
                }
            } else if before.len() > 0 && after_frames(before).sizes_agree {
                assert(frames[frames.len() - 1].len() != frames[0].len());
            } else {
                let i = choose|i: int|
                    0 <= i < before.len() && (#[trigger] before[i]).len() != before[0].len();
                assert(frames[i].len() != frames[0].len());
            }
        }
    }
}

/// A format is only called working where frames came from it.
pub proof fn working_formats_deliver(
    negotiation: Negotiation,
    product: ElgatoProduct,
    firmware: FirmwareVersion,
    format: PixelFormat,
)
    ensures
        probe_verdict(negotiation, product, firmware, format) == FormatVerdict::Working
            ==> probe_delivery(negotiation).frames > 0,
{
}

/// A device in USB 2.0 fallback mode is reported as it is, without a look at its node.
pub proof fn fallback_devices_are_left_alone(
    f: DeviceFingerprint,
    sysfs_path: Option<String>,
    node: Option<String>,
)
    requires
        f.product == ElgatoProduct::FacecamUsb2Fallback,
    ensures
        enriched(f, sysfs_path, node) == f,
        !records_capabilities(f, sysfs_path, node),
{
}

/// A device is completed with its sysfs path and its node as far as both are known; its other facts
/// stay. A camera in fallback mode has neither.
pub proof fn probed_devices_get_path_and_node(
    f: DeviceFingerprint,
    sysfs_path: String,
    node: Option<String>,
)
    requires
        f.product != ElgatoProduct::FacecamUsb2Fallback,
    ensures
        ({
            let r = enriched(f, Some(sysfs_path), node);
            &&& r.v4l2_sysfs_path == Some(sysfs_path)
            &&& node is Some ==> r.v4l2_device == node
            &&& node is None ==> r.v4l2_device == f.v4l2_device
            &&& r.product == f.product && r.firmware == f.firmware && r.serial == f.serial
            &&& r.usb_bus == f.usb_bus && r.usb_address == f.usb_address && r.usb_speed == f.usb_speed
            &&& r.usb_port_numbers == f.usb_port_numbers && r.driver_version == f.driver_version
                && r.card_name == f.card_name
        }),
        enriched(f, None, node) == f,
        records_capabilities(f, Some(sysfs_path), node) <==> node is Some,
        !records_capabilities(f, None, node),
{
}

/// A device is warned of where it is on a bus below SuperSpeed, where it is in fallback mode, and where
/// it is an original Facecam with a firmware before 4.00; a device without a warning shows only its
/// fingerprint.
pub proof fn warnings_are_given_where_due(f: DeviceFingerprint)
    ensures
        is_slow(f.usb_speed) <==> f.usb_speed != UsbSpeed::Super && f.usb_speed != UsbSpeed::SuperPlus
            && f.usb_speed != UsbSpeed::Unknown,
        lacks_mjpeg(f) <==> f.product == ElgatoProduct::Facecam && f.firmware.major < 4,
        !is_slow(f.usb_speed) && f.product != ElgatoProduct::FacecamUsb2Fallback && !(f.product
            == ElgatoProduct::Facecam && f.firmware.major < 4) ==> device_section(f)
            == device::fingerprint_text(f) + "\n"@,
        is_slow(f.usb_speed) && f.product == ElgatoProduct::FacecamPro ==> device_section(f)
            == device::fingerprint_text(f) + SPEED_WARNING@ + "\n"@,
        !is_slow(f.usb_speed) && f.product == ElgatoProduct::FacecamUsb2Fallback ==> device_section(f)
            == device::fingerprint_text(f) + FALLBACK_WARNING@ + "\n"@,
        !is_slow(f.usb_speed) && f.product == ElgatoProduct::Facecam && f.firmware.major < 4
            ==> device_section(f) == device::fingerprint_text(f) + ("  WARNING: Firmware "@
            + device::firmware_text(f.firmware) + FIRMWARE_WARNING@) + "\n"@,
{
    let text = device::fingerprint_text(f);
    let none = Seq::<char>::empty();
    assert(text + none =~= text);
    assert(text + FALLBACK_WARNING@ + none =~= text + FALLBACK_WARNING@);
    let words = "  WARNING: Firmware "@ + device::firmware_text(f.firmware) + FIRMWARE_WARNING@;
    assert(text + words + none =~= text + words);
}

/// The formats that are tested are those of the first original Facecam on the bus, with its firmware;
/// without one, those of an original Facecam of unknown firmware.
pub proof fn the_first_facecam_is_probed(devices: Seq<DeviceFingerprint>, i: int)
    requires
        0 <= i <= devices.len(),
        forall|k: int| 0 <= k < i ==> (#[trigger] devices[k]).product != ElgatoProduct::Facecam,
        i < devices.len() ==> devices[i].product == ElgatoProduct::Facecam,
    ensures
        probed_product(devices).0 == ElgatoProduct::Facecam,
        i < devices.len() ==> probed_product(devices).1 == devices[i].firmware,
        i == devices.len() ==> probed_product(devices).1.major == 0 && probed_product(
            devices,
        ).1.minor == 0,
{
    let pred = |d: DeviceFingerprint| d.product == ElgatoProduct::Facecam;
    seqs::lemma_first_index(devices, pred, i);
}

/// A path that is asked for is probed. Otherwise the first original Facecam with a known path and node
/// is, by its node; without one, the link of udev is, if it exists; and otherwise nothing.
pub proof fn probes_go_to_the_first_facecam(
    path: String,
    devices: Seq<LocatedDevice>,
    i: int,
    link_exists: bool,
)
    requires
        0 <= i <= devices.len(),
        forall|k: int|
            0 <= k < i ==> !((#[trigger] devices[k]).fingerprint.product == ElgatoProduct::Facecam
                && devices[k].sysfs_path is Some && devices[k].node is Some),
        i < devices.len() ==> devices[i].fingerprint.product == ElgatoProduct::Facecam
            && devices[i].sysfs_path is Some && devices[i].node is Some,
    ensures
        probe_target(Some(path), devices, link_exists) == Ok::<Seq<char>, Seq<char>>(path@),
        i < devices.len() ==> probe_target(None, devices, link_exists) == Ok::<Seq<char>, Seq<char>>(
            devices[i].node->0@,
        ),
        i == devices.len() && link_exists ==> probe_target(None, devices, link_exists) == Ok::<
            Seq<char>,
            Seq<char>,
        >("/dev/video-facecam"@),
        i == devices.len() && !link_exists ==> probe_target(None, devices, link_exists) is Err,
{
    let pred = |d: LocatedDevice| is_probe_target(d);
    seqs::lemma_first_index(devices, pred, i);
}

/// The first mode of a format in full HD is the one that is validated.
pub proof fn first_full_hd_modes_are_validated(modes: Seq<VideoMode>, i: int)
    requires
        0 <= i < modes.len(),
        modes[i].width == 1920 && modes[i].height == 1080,
        forall|k: int|
            0 <= k < i ==> !((#[trigger] modes[k]).width == 1920 && modes[k].height == 1080
                && modes[k].format == modes[i].format),
    ensures
        validated_modes(modes).contains(modes[i]),
    decreases modes.len(),
{
    let before = validated_modes(modes.drop_last());
    if i < modes.len() - 1 {
        first_full_hd_modes_are_validated(modes.drop_last(), i);
        let j = choose|j: int| 0 <= j < before.len() && before[j] == modes[i];
        assert(validated_modes(modes)[j] == modes[i]);
    } else {
        validated_modes_are_distinct(modes.drop_last());
        assert(!has_format(before, modes[i].format)) by {
            if has_format(before, modes[i].format) {
                let j = choose|j: int|
                    0 <= j < before.len() && (#[trigger] before[j]).format == modes[i].format;
                let k = choose|k: int|
                    0 <= k < modes.drop_last().len() && modes.drop_last()[k] == before[j];
                assert(modes[k] == before[j]);
            }
        }
        assert(validated_modes(modes).last() == modes[i]);
    }
}

/// A format that is not known to be broken works where frames came. Where the device accepts a format
/// that is broken, its frames are garbage; where no frame came, or the stream did not start, there are
/// none; and where the device refused, it was not negotiated. Each refusal is reported with its words.
pub proof fn verdicts_follow_the_frames(
    d: Delivery,
    words: String,
    product: ElgatoProduct,
    firmware: FirmwareVersion,
    format: PixelFormat,
)
    ensures
        ({
            let broken = product == ElgatoProduct::Facecam && (format == PixelFormat::Nv12 || format
                == PixelFormat::Yu12);
            let v = probe_verdict(Negotiation::Accepted(d), product, firmware, format);
            &&& v == FormatVerdict::Working <==> !broken && d.frames > 0
            &&& v == FormatVerdict::NoFrames <==> !broken && d.frames == 0
            &&& v == FormatVerdict::GarbageFrames <==> broken
        }),
        probe_verdict(Negotiation::NotStarted(words), product, firmware, format)
            == FormatVerdict::NoFrames,
        probe_verdict(Negotiation::NotOpened(words), product, firmware, format)
            == FormatVerdict::NegotiationFailed,
        probe_verdict(Negotiation::FormatRefused(words), product, firmware, format)
            == FormatVerdict::NegotiationFailed,
        probe_verdict(Negotiation::BuffersRefused(words), product, firmware, format)
            == FormatVerdict::NegotiationFailed,
        probe_error(Negotiation::NotOpened(words)) == Some(words@),
        probe_error(Negotiation::FormatRefused(words)) == Some("set_format failed: "@ + words@),
        probe_error(Negotiation::BuffersRefused(words)) == Some("request_buffers failed: "@ + words@),
        probe_error(Negotiation::NotStarted(words)) == Some("stream start failed: "@ + words@),
        probe_error(Negotiation::Accepted(d)) is None,
        probe_delivery(Negotiation::Accepted(d)) == d,
        probe_delivery(Negotiation::NotStarted(words)).frames == 0,
{
    quirks::broken_formats(product, firmware, format);
}

/// A frame is not zero where one of its bytes is not; a frame of zeroes, or of no bytes, is.
pub proof fn one_byte_makes_a_frame_nonzero(frame: Seq<u8>, byte: u8)
    ensures
        is_nonzero(frame.push(byte)) <==> is_nonzero(frame) || byte != 0,
        !is_nonzero(Seq::empty()),
{
    let all = frame.push(byte);
    assert(all[frame.len() as int] == byte);
    if is_nonzero(frame) {
        let i = choose|i: int| 0 <= i < frame.len() && #[trigger] frame[i] != 0;
        assert(all[i] == frame[i]);
    }
    if is_nonzero(all) && byte == 0 {
        let i = choose|i: int| 0 <= i < all.len() && #[trigger] all[i] != 0;
        assert(all[i] == frame[i]);
    }
}

/// A menu item is marked as current where its index is the value of the control.
pub proof fn current_items_are_marked(item: MenuItem, value: i64)
    ensures
        ({
            let line = "    ["@ + text::decimal(item.index as nat) + "] "@ + item.name@;
            &&& item.index == value ==> item_line(item, value) == line + " <-- current\n"@
            &&& item.index != value ==> item_line(item, value) == line + "\n"@
        }),
{
}

/// The formats are listed with their index, and those that are broken on the product are marked.
pub proof fn broken_formats_are_marked(
    f: FormatDescription,
    product: ElgatoProduct,
    firmware: FirmwareVersion,
)
    ensures
        ({
            let line = "  ["@ + text::decimal(f.index as nat) + "] "@ + formats::format_text(
                f.pixel_format,
            ) + " - "@ + f.description@;
            if product == ElgatoProduct::Facecam && (f.pixel_format == PixelFormat::Nv12
                || f.pixel_format == PixelFormat::Yu12) {
                format_line(f, product, firmware) == line + " [KNOWN BROKEN - see quirk registry]\n"@
            } else {
                format_line(f, product, firmware) == line + " [UNTESTED]\n"@
            }
        }),
{
    quirks::broken_formats(product, firmware, f.pixel_format);
}

proof fn lemma_regroup(a: Seq<char>, b: Seq<char>, c: Seq<char>)
    ensures
        a + b + c == a + (b + c),
{
    assert(a + b + c =~= a + (b + c));
}

proof fn lemma_begins(a: Seq<char>, b: Seq<char>)
    ensures
        text::has_prefix(a + b, a),
{
    assert((a + b).take(a.len() as int) =~= a);
}


/// The section of a control gives its value, then its range with the minimum first, then its step
/// and its default.
pub proof fn control_sections_name_their_numbers(c: ControlValue)
    ensures
        exists|a: Seq<char>, b: Seq<char>|
            control_section(c) == #[trigger] (a + b) && text::has_prefix(b, "  value="@
                + text::signed_decimal(c.value as int) + "  range=["@
                + text::signed_decimal(c.minimum as int) + ", "@
                + text::signed_decimal(c.maximum as int) + "]  step="@
                + text::signed_decimal(c.step as int) + "  default="@
                + text::signed_decimal(c.default as int)) && a == "  "@ + c.name@ + " (0x"@
                + text::hex_padded(c.id as nat, 8) + "):\n    type="@
                + types::control_type_text(c.control_type),
{
    let a = "  "@ + c.name@ + " (0x"@ + text::hex_padded(c.id as nat, 8) + "):\n    type="@
        + types::control_type_text(c.control_type);
    let m6 = "  value="@;
    lemma_regroup(a, m6, text::signed_decimal(c.value as int));
    let m7 = m6 + text::signed_decimal(c.value as int);
    lemma_regroup(a, m7, "  range=["@);
    let m8 = m7 + "  range=["@;
    lemma_regroup(a, m8, text::signed_decimal(c.minimum as int));
    let m9 = m8 + text::signed_decimal(c.minimum as int);
    lemma_regroup(a, m9, ", "@);
    let m10 = m9 + ", "@;
    lemma_regroup(a, m10, text::signed_decimal(c.maximum as int));
    let m11 = m10 + text::signed_decimal(c.maximum as int);
    lemma_regroup(a, m11, "]  step="@);
    let m12 = m11 + "]  step="@;
    lemma_regroup(a, m12, text::signed_decimal(c.step as int));
    let m13 = m12 + text::signed_decimal(c.step as int);
    lemma_regroup(a, m13, "  default="@);
    let m14 = m13 + "  default="@;
    lemma_regroup(a, m14, text::signed_decimal(c.default as int));
    let m15 = m14 + text::signed_decimal(c.default as int);
    let n = m15;
    let e16 = "\n"@;
    lemma_regroup(a, n, e16);
    lemma_regroup(a, n + e16, item_lines(c.menu_items@, c.value, c.menu_items@.len()));
    lemma_regroup(n, e16, item_lines(c.menu_items@, c.value, c.menu_items@.len()));
    let e17 = e16 + item_lines(c.menu_items@, c.value, c.menu_items@.len());
    lemma_regroup(a, n + e17, "\n"@);
    lemma_regroup(n, e17, "\n"@);
    let e18 = e17 + "\n"@;
    lemma_begins(n, e18);
    assert(control_section(c) == a + (n + e18));
}


/// The topology gives the bus before the device, and then the speed, the version and whether the
/// device is authorized.
pub proof fn topologies_name_bus_before_device(t: UsbTopology)
    ensures
        exists|a: Seq<char>, b: Seq<char>|
            topology_text(t) == #[trigger] (a + b) && text::has_prefix(b, "\n  bus/dev:       "@
                + text::opt_byte_form(t.busnum) + "/"@ + text::opt_byte_form(t.devnum)
                + "\n  speed:         "@ + text::opt_text_form(t.speed) + "\n  USB version:   "@
                + text::opt_text_form(t.version) + "\n  authorized:    "@
                + text::opt_byte_form(t.authorized) + "\n  manufacturer:  "@
                + text::opt_text_form(t.manufacturer) + "\n  product:       "@
                + text::opt_text_form(t.product_name) + "\n  bcdDevice:     "@
                + text::opt_text_form(t.bcd_device) + "\n  configuration: "@
                + text::opt_text_form(t.configuration)) && a == "=== USB Topology ===\n\n  sysfs:         "@
                + t.sysfs_path@,
{
    let a = "=== USB Topology ===\n\n  sysfs:         "@ + t.sysfs_path@;
    let m2 = "\n  bus/dev:       "@;
    lemma_regroup(a, m2, text::opt_byte_form(t.busnum));
    let m3 = m2 + text::opt_byte_form(t.busnum);
    lemma_regroup(a, m3, "/"@);
    let m4 = m3 + "/"@;
    lemma_regroup(a, m4, text::opt_byte_form(t.devnum));
    let m5 = m4 + text::opt_byte_form(t.devnum);
    lemma_regroup(a, m5, "\n  speed:         "@);
    let m6 = m5 + "\n  speed:         "@;
    lemma_regroup(a, m6, text::opt_text_form(t.speed));
    let m7 = m6 + text::opt_text_form(t.speed);
    lemma_regroup(a, m7, "\n  USB version:   "@);
    let m8 = m7 + "\n  USB version:   "@;
    lemma_regroup(a, m8, text::opt_text_form(t.version));
    let m9 = m8 + text::opt_text_form(t.version);
    lemma_regroup(a, m9, "\n  authorized:    "@);
    let m10 = m9 + "\n  authorized:    "@;
    lemma_regroup(a, m10, text::opt_byte_form(t.authorized));
    let m11 = m10 + text::opt_byte_form(t.authorized);
    lemma_regroup(a, m11, "\n  manufacturer:  "@);
    let m12 = m11 + "\n  manufacturer:  "@;
    lemma_regroup(a, m12, text::opt_text_form(t.manufacturer));
    let m13 = m12 + text::opt_text_form(t.manufacturer);
    lemma_regroup(a, m13, "\n  product:       "@);
    let m14 = m13 + "\n  product:       "@;
    lemma_regroup(a, m14, text::opt_text_form(t.product_name));
    let m15 = m14 + text::opt_text_form(t.product_name);
    lemma_regroup(a, m15, "\n  bcdDevice:     "@);
    let m16 = m15 + "\n  bcdDevice:     "@;
    lemma_regroup(a, m16, text::opt_text_form(t.bcd_device));
    let m17 = m16 + text::opt_text_form(t.bcd_device);
    lemma_regroup(a, m17, "\n  configuration: "@);
    let m18 = m17 + "\n  configuration: "@;
    lemma_regroup(a, m18, text::opt_text_form(t.configuration));
    let m19 = m18 + text::opt_text_form(t.configuration);
    let n = m19;
    let e20 = "\n"@;
    lemma_regroup(a, n, e20);
    lemma_begins(n, e20);
    assert(topology_text(t) == a + (n + e20));
}


/// A summary gives the verdict on a format, then the number of frames, and whether the first one
/// was not zero, before whether the sizes agreed.
pub proof fn summaries_name_verdict_and_frames(r: FormatProbeResult)
    ensures
        exists|a: Seq<char>, b: Seq<char>|
            summary_line(r) == #[trigger] (a + b) && text::has_prefix(b, " : "@
                + formats::verdict_text(r.verdict) + " (frames: "@
                + text::decimal(r.frames_received as nat) + ", nonzero: "@
                + text::truth(r.first_frame_nonzero) + ", consistent: "@
                + text::truth(r.frame_size_consistent)) && a == "  "@
                + formats::format_text(r.mode.format),
{
    let a = "  "@ + formats::format_text(r.mode.format);
    let m2 = " : "@;
    lemma_regroup(a, m2, formats::verdict_text(r.verdict));
    let m3 = m2 + formats::verdict_text(r.verdict);
    lemma_regroup(a, m3, " (frames: "@);
    let m4 = m3 + " (frames: "@;
    lemma_regroup(a, m4, text::decimal(r.frames_received as nat));
    let m5 = m4 + text::decimal(r.frames_received as nat);
    lemma_regroup(a, m5, ", nonzero: "@);
    let m6 = m5 + ", nonzero: "@;
    lemma_regroup(a, m6, text::truth(r.first_frame_nonzero));
    let m7 = m6 + text::truth(r.first_frame_nonzero);
    lemma_regroup(a, m7, ", consistent: "@);
    let m8 = m7 + ", consistent: "@;
    lemma_regroup(a, m8, text::truth(r.frame_size_consistent));
    let m9 = m8 + text::truth(r.frame_size_consistent);
    let n = m9;
    let e10 = ")\n"@;
    lemma_regroup(a, n, e10);
    lemma_begins(n, e10);
    assert(summary_line(r) == a + (n + e10));
}

/// Devices are shown in order: one more device adds its section at the end.
pub proof fn devices_are_shown_in_order(devices: Seq<DeviceFingerprint>, f: DeviceFingerprint)
    ensures
        device_sections(devices.push(f), devices.len() + 1) == device_sections(devices, devices.len())
            + device_section(f),
        device_sections(Seq::empty(), 0).len() == 0,
{
    lemma_device_sections(devices, f, devices.len());
}

proof fn lemma_device_sections(devices: Seq<DeviceFingerprint>, f: DeviceFingerprint, n: nat)
    requires
        n <= devices.len(),
    ensures
        device_sections(devices.push(f), n) == device_sections(devices, n),
    decreases n,
{
    if n > 0 {
        lemma_device_sections(devices, f, (n - 1) as nat);
    }
}


/// Formats are shown in order: one more format adds its line at the end.
pub proof fn formats_are_shown_in_order(
    all: Seq<FormatDescription>,
    f: FormatDescription,
    product: ElgatoProduct,
    firmware: FirmwareVersion,
)
    ensures
        format_lines(all.push(f), product, firmware, all.len() + 1) == format_lines(all, product, firmware, all.len())
            + format_line(f, product, firmware),
        format_lines(Seq::empty(), product, firmware, 0).len() == 0,
{
    lemma_format_lines(all, f, product, firmware, all.len());
}

proof fn lemma_format_lines(
    all: Seq<FormatDescription>,
    f: FormatDescription,
    product: ElgatoProduct,
    firmware: FirmwareVersion,
    n: nat,
)
    requires
        n <= all.len(),
    ensures
        format_lines(all.push(f), product, firmware, n) == format_lines(all, product, firmware, n),
    decreases n,
{
    if n > 0 {
        lemma_format_lines(all, f, product, firmware, (n - 1) as nat);
    }
}


/// Menu items are shown in order: one more item adds its line at the end.
pub proof fn items_are_shown_in_order(items: Seq<MenuItem>, item: MenuItem, value: i64)
    ensures
        item_lines(items.push(item), value, items.len() + 1) == item_lines(items, value, items.len())
            + item_line(item, value),
        item_lines(Seq::empty(), value, 0).len() == 0,
{
    lemma_item_lines(items, item, value, items.len());
}

proof fn lemma_item_lines(items: Seq<MenuItem>, item: MenuItem, value: i64, n: nat)
    requires
        n <= items.len(),
    ensures
        item_lines(items.push(item), value, n) == item_lines(items, value, n),
    decreases n,
{
    if n > 0 {
        lemma_item_lines(items, item, value, (n - 1) as nat);
    }
}


/// Controls are shown in order: one more control adds its section at the end.
pub proof fn controls_are_shown_in_order(controls: Seq<ControlValue>, c: ControlValue)
    ensures
        control_sections(controls.push(c), controls.len() + 1) == control_sections(controls, controls.len())
            + control_section(c),
        control_sections(Seq::empty(), 0).len() == 0,
{
    lemma_control_sections(controls, c, controls.len());
}

proof fn lemma_control_sections(controls: Seq<ControlValue>, c: ControlValue, n: nat)
    requires
        n <= controls.len(),
    ensures
        control_sections(controls.push(c), n) == control_sections(controls, n),
    decreases n,
{
    if n > 0 {
        lemma_control_sections(controls, c, (n - 1) as nat);
    }
}


/// Quirks are shown in order: one more quirk adds its section at the end.
pub proof fn quirks_are_shown_in_order(all: Seq<Quirk>, q: Quirk)
    ensures
        quirk_sections(all.push(q), all.len() + 1) == quirk_sections(all, all.len())
            + quirk_section(q),
        quirk_sections(Seq::empty(), 0).len() == 0,
{
    lemma_quirk_sections(all, q, all.len());
}

proof fn lemma_quirk_sections(all: Seq<Quirk>, q: Quirk, n: nat)
    requires
        n <= all.len(),
    ensures
        quirk_sections(all.push(q), n) == quirk_sections(all, n),
    decreases n,
{
    if n > 0 {
        lemma_quirk_sections(all, q, (n - 1) as nat);
    }
}


/// Results are shown in order: one more result adds its line at the end.
pub proof fn results_are_shown_in_order(results: Seq<FormatProbeResult>, r: FormatProbeResult)
    ensures
        summary_lines(results.push(r), results.len() + 1) == summary_lines(results, results.len())
            + summary_line(r),
        summary_lines(Seq::empty(), 0).len() == 0,
{
    lemma_summary_lines(results, r, results.len());
}

proof fn lemma_summary_lines(results: Seq<FormatProbeResult>, r: FormatProbeResult, n: nat)
    requires
        n <= results.len(),
    ensures
        summary_lines(results.push(r), n) == summary_lines(results, n),
    decreases n,
{
    if n > 0 {
        lemma_summary_lines(results, r, (n - 1) as nat);
    }
}


/// A quirk is shown under its id, with its summary, its severity, its description and its mitigation.
pub proof fn quirks_are_shown_in_full(q: Quirk, f: PixelFormat, v: FirmwareVersion, code: u32)
    ensures
        quirk_section(q) == "  ["@ + q.id@ + "] "@ + q.summary@ + " ("@ + severity_form(q.severity)
            + ")\n    "@ + q.description@ + "\n    Mitigation: "@ + mitigation_form(q.mitigation)
            + "\n\n"@,
        mitigation_form(QuirkMitigation::SkipFormat(f)) == "SkipFormat("@ + format_form(f) + ")"@,
        mitigation_form(QuirkMitigation::ForceFormat(f)) == "ForceFormat("@ + format_form(f) + ")"@,
        mitigation_form(QuirkMitigation::FirmwareUpdate(v))
            == "FirmwareUpdate(FirmwareVersion { major: "@ + text::decimal(v.major as nat)
            + ", minor: "@ + text::decimal(v.minor as nat) + " })"@,
        format_form(PixelFormat::Unknown(code)) == "Unknown("@ + text::decimal(code as nat) + ")"@,
{
}

/// Severities, mitigations without a value and known formats are shown by their own names.
pub proof fn names_are_shown_as_they_are()
    ensures
        severity_form(QuirkSeverity::Info) == "Info"@ && severity_form(QuirkSeverity::Warning)
            == "Warning"@ && severity_form(QuirkSeverity::Error) == "Error"@ && severity_form(
            QuirkSeverity::Critical,
        ) == "Critical"@,
        mitigation_form(QuirkMitigation::NormalizationPipeline) == "NormalizationPipeline"@
            && mitigation_form(QuirkMitigation::UsbReset) == "UsbReset"@ && mitigation_form(
            QuirkMitigation::RetryStreamOn,
        ) == "RetryStreamOn"@ && mitigation_form(QuirkMitigation::AvoidUnlessLastResort)
            == "AvoidUnlessLastResort"@,
        format_form(PixelFormat::Yuyv) == "Yuyv"@ && format_form(PixelFormat::Uyvy) == "Uyvy"@
            && format_form(PixelFormat::Nv12) == "Nv12"@ && format_form(PixelFormat::Yu12) == "Yu12"@
            && format_form(PixelFormat::Mjpeg) == "Mjpeg"@ && format_form(PixelFormat::H264)
            == "H264"@,
{
}

/// The system is shown with its modules, each with whether it is loaded and its version, and with its
/// video nodes, each on a line of its own.
pub proof fn systems_are_shown_with_their_modules(version: String, node: Seq<char>, loaded: bool)
    ensures
        module_state(true, Some(version)) == "loaded"@ + " (version: "@ + version@ + ")\n"@,
        module_state(false, Some(version)) == "NOT loaded"@ + " (version: "@ + version@ + ")\n"@,
        module_state(loaded, None) == (if loaded {
            "loaded"@
        } else {
            "NOT loaded"@
        }) + " (version: "@ + "n/a"@ + ")\n"@,
        node_lines(seq![node], 1) == "  "@ + node + "\n"@,
{
    assert(node_lines(seq![node], 0) =~= Seq::empty());
    assert(Seq::<char>::empty() + "  "@ =~= "  "@);
}

/// The system is shown with its host, its kernel, its release and its uptime, and then with its two
/// modules, that of the cameras first.
pub proof fn systems_name_host_and_kernel(s: SystemInfo, m: KernelModuleInfo, nodes: Seq<Seq<char>>)
    ensures
        exists|a: Seq<char>, b: Seq<char>|
            system_text(s, m, nodes) == #[trigger] (a + b) && text::has_prefix(b, s.hostname@
                + "\n  Kernel:    "@ + s.kernel_version@ + "\n  OS:        "@ + s.os_release@
                + "\n  Ubuntu:    "@ + s.ubuntu_version@ + "\n  Uptime:    "@
                + text::decimal(s.uptime_secs as nat) + "s\n\nKernel Modules:\n  uvcvideo:     "@
                + module_state(m.uvcvideo_loaded, m.uvcvideo_version) + "  v4l2loopback: "@
                + module_state(m.v4l2loopback_loaded, m.v4l2loopback_version)
                + "\nV4L2 Devices:\n"@) && a == "=== System Diagnostics ===\n\nSystem:\n  Hostname:  "@,
{
    let last = if nodes.len() == 0 {
        "  (none)\n"@
    } else {
        node_lines(nodes, nodes.len())
    };
    let a = "=== System Diagnostics ===\n\nSystem:\n  Hostname:  "@;
    let m1 = s.hostname@;
    lemma_regroup(a, m1, "\n  Kernel:    "@);
    let m2 = m1 + "\n  Kernel:    "@;
    lemma_regroup(a, m2, s.kernel_version@);
    let m3 = m2 + s.kernel_version@;
    lemma_regroup(a, m3, "\n  OS:        "@);
    let m4 = m3 + "\n  OS:        "@;
    lemma_regroup(a, m4, s.os_release@);
    let m5 = m4 + s.os_release@;
    lemma_regroup(a, m5, "\n  Ubuntu:    "@);
    let m6 = m5 + "\n  Ubuntu:    "@;
    lemma_regroup(a, m6, s.ubuntu_version@);
    let m7 = m6 + s.ubuntu_version@;
    lemma_regroup(a, m7, "\n  Uptime:    "@);
    let m8 = m7 + "\n  Uptime:    "@;
    lemma_regroup(a, m8, text::decimal(s.uptime_secs as nat));
    let m9 = m8 + text::decimal(s.uptime_secs as nat);
    lemma_regroup(a, m9, "s\n\nKernel Modules:\n  uvcvideo:     "@);
    let m10 = m9 + "s\n\nKernel Modules:\n  uvcvideo:     "@;
    lemma_regroup(a, m10, module_state(m.uvcvideo_loaded, m.uvcvideo_version));
    let m11 = m10 + module_state(m.uvcvideo_loaded, m.uvcvideo_version);
    lemma_regroup(a, m11, "  v4l2loopback: "@);
    let m12 = m11 + "  v4l2loopback: "@;
    lemma_regroup(a, m12, module_state(m.v4l2loopback_loaded, m.v4l2loopback_version));
    let m13 = m12 + module_state(m.v4l2loopback_loaded, m.v4l2loopback_version);
    lemma_regroup(a, m13, "\nV4L2 Devices:\n"@);
    let m14 = m13 + "\nV4L2 Devices:\n"@;
    let n = m14;
    let e15 = last;
    lemma_regroup(a, n, e15);
    lemma_begins(n, e15);
    assert(system_text(s, m, nodes) == a + (n + e15));
}

} // verus!
