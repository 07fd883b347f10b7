//! The registry of device quirks.
//!
//! Every entry traces to a device behavior that was observed on the products it names.

use crate::device::{self, ElgatoProduct, FirmwareVersion};
use crate::formats::PixelFormat;
use crate::seqs;
use vstd::prelude::*;

verus! {

#[derive(Debug, Clone)]
pub struct Quirk {
    pub id: &'static str,
    pub summary: &'static str,
    pub description: &'static str,
    /// Products on which this quirk has been EMPIRICALLY OBSERVED.
    /// Never inferred: speculative entries violate the project's
    /// "no speculative mitigations" rule.
    pub products: Vec<ElgatoProduct>,
    /// Inclusive lower bound on firmware where this quirk applies.
    pub firmware_min: Option<FirmwareVersion>,
    /// Exclusive upper bound on firmware where this quirk applies.
    pub firmware_max: Option<FirmwareVersion>,
    /// If set, this quirk only fires when the named pixel format is in use.
    pub format: Option<PixelFormat>,
    pub severity: QuirkSeverity,
    pub mitigation: QuirkMitigation,
}

#[derive(Debug, Clone, Copy, PartialEq, Eq, Structural)]
pub enum QuirkSeverity {
    Info,
    Warning,
    Error,
    Critical,
}

#[derive(Debug, Clone)]
pub enum QuirkMitigation {
    NormalizationPipeline,
    UsbReset,
    SkipFormat(PixelFormat),
    FirmwareUpdate(FirmwareVersion),
    ForceFormat(PixelFormat),
    /// Retry STREAMOFF/STREAMON once before resorting to USB reset.
    /// Used for the Pro's stream-start race.
    RetryStreamOn,
    /// Avoid this mitigation unless every cheaper recovery has failed.
    /// Used for USB reset on the Pro (destructive, multi-second cool-down).
    AvoidUnlessLastResort,
    Manual(&'static str),
}

/// What a quirk says, with its texts as character sequences.
pub ghost struct QuirkModel {
    pub id: Seq<char>,
    pub summary: Seq<char>,
    pub description: Seq<char>,
    pub products: Seq<ElgatoProduct>,
    pub firmware_min: Option<FirmwareVersion>,
    pub firmware_max: Option<FirmwareVersion>,
    pub format: Option<PixelFormat>,
    pub severity: QuirkSeverity,
    pub mitigation: MitigationModel,
}

/// What a mitigation says, with its text as a character sequence.
pub ghost enum MitigationModel {
    NormalizationPipeline,
    UsbReset,
    SkipFormat(PixelFormat),
    FirmwareUpdate(FirmwareVersion),
    ForceFormat(PixelFormat),
    RetryStreamOn,
    AvoidUnlessLastResort,
    Manual(Seq<char>),
}

impl View for QuirkMitigation {
    type V = MitigationModel;

    open spec fn view(&self) -> MitigationModel {
        match *self {
            QuirkMitigation::NormalizationPipeline => MitigationModel::NormalizationPipeline,
            QuirkMitigation::UsbReset => MitigationModel::UsbReset,
            QuirkMitigation::SkipFormat(f) => MitigationModel::SkipFormat(f),
            QuirkMitigation::FirmwareUpdate(v) => MitigationModel::FirmwareUpdate(v),
            QuirkMitigation::ForceFormat(f) => MitigationModel::ForceFormat(f),
            QuirkMitigation::RetryStreamOn => MitigationModel::RetryStreamOn,
            QuirkMitigation::AvoidUnlessLastResort => MitigationModel::AvoidUnlessLastResort,
            QuirkMitigation::Manual(text) => MitigationModel::Manual(text@),
        }
    }
}

impl View for Quirk {
    type V = QuirkModel;

    open spec fn view(&self) -> QuirkModel {
        QuirkModel {
            id: self.id@,
            summary: self.summary@,
            description: self.description@,
            products: self.products@,
            firmware_min: self.firmware_min,
            firmware_max: self.firmware_max,
            format: self.format,
            severity: self.severity,
            mitigation: self.mitigation@,
        }
    }
}

/// What the quirks of a list say.
pub open spec fn models(quirks: Seq<Quirk>) -> Seq<QuirkModel> {
    quirks.map_values(|q: Quirk| q@)
}

pub const BOGUS_NV12_SUMMARY: &'static str =
    "NV12 advertised but produces 0-byte streams (original Facecam)";

pub const BOGUS_NV12_DESCRIPTION: &'static str =
    "The original Facecam (PID 0x0078, fw 4.09) advertises NV12 in its UVC descriptors, but \
    `v4l2-ctl --stream-mmap pixelformat=NV12` returns zero bytes within a 5s timeout. Note: \
    the Pro (PID 0x0079, fw 0.06) was originally suspected of the same behavior, but on \
    2026-04-28 NV12 was empirically observed to deliver valid frames after a single \
    STREAM_START_RACE recovery cycle, so the Pro is tracked under PRO_STREAM_START_RACE only \
    and is no longer included in this quirk's applicability list.";

pub const BOGUS_YU12_SUMMARY: &'static str =
    "YU12 advertised but produces garbage frames (original Facecam)";

pub const BOGUS_YU12_DESCRIPTION: &'static str =
    "The original Facecam advertises YU12 (Planar YUV 4:2:0) but streaming in YU12 produces \
    green or empty frames. The Pro does not advertise YU12 — this quirk is original-Facecam \
    only.";

pub const OPEN_CLOSE_LOCKUP_SUMMARY: &'static str =
    "Device locks up after consumer close/reopen cycle (original Facecam)";

pub const OPEN_CLOSE_LOCKUP_DESCRIPTION: &'static str =
    "After the first application closes the V4L2 device, subsequent opens fail with EBUSY or \
    produce no frames. The device requires a USB reset to recover. The v4l2loopback \
    normalization pipeline mitigates this by keeping a single long-lived producer. The Pro \
    shows a structurally different alternation pattern, tracked separately as \
    PRO_STREAM_START_RACE.";

pub const STARTUP_UNRELIABILITY_SUMMARY: &'static str =
    "~50% failure rate on initial stream start (original Facecam)";

pub const STARTUP_UNRELIABILITY_DESCRIPTION: &'static str =
    "The original Facecam fails to initialize the video stream approximately half the time on \
    first open. A retry (typically with USB reset on persistent failure) resolves this. The \
    Pro shows a different failure mode (PRO_STREAM_START_RACE) that does NOT require USB \
    reset.";

pub const NO_MJPEG_OLD_FW_SUMMARY: &'static str =
    "No MJPEG support on original Facecam firmware below 4.00";

pub const NO_MJPEG_OLD_FW_DESCRIPTION: &'static str =
    "Original Facecam firmware versions below 4.00 only support uncompressed formats. \
    Chromium-based browsers require MJPEG or cannot negotiate the camera. The v4l2loopback \
    pipeline resolves this by presenting a normalized output. (Earlier comments cited 4.03; \
    firmware 4.00 has been observed to ship MJPEG.)";

pub const CHROMIUM_FORMAT_REJECT_SUMMARY: &'static str =
    "Chromium rejects devices with both CAPTURE and OUTPUT caps";

pub const CHROMIUM_FORMAT_REJECT_DESCRIPTION: &'static str =
    "Chromium-based browsers refuse to use V4L2 devices that report both \
    V4L2_CAP_VIDEO_CAPTURE and V4L2_CAP_VIDEO_OUTPUT in their capabilities. v4l2loopback \
    with exclusive_caps=1 resolves this. Observed empirically with Facecam (PID 0x0078) and \
    Facecam Pro (PID 0x0079); not yet verified on MK.2 or CamLink families.";

pub const USB2_FALLBACK_MODE_SUMMARY: &'static str =
    "Facecam presents PID 0x0077 on USB 2.0 with no video capability";

pub const USB2_FALLBACK_MODE_DESCRIPTION: &'static str =
    "When connected to a USB 2.0 port, the original Facecam enumerates with PID 0x0077 \
    instead of 0x0078 and a product string of 'USB3-REQUIRED-FOR-FACECAM'. No UVC interface \
    is exposed.";

pub const USB3_REQUIRED_SUMMARY: &'static str =
    "Device requires USB 3.0 SuperSpeed";

pub const USB3_REQUIRED_DESCRIPTION: &'static str =
    "The Facecam (PID 0x0078) and Facecam Pro (PID 0x0079) require USB 3.0 bandwidth (~249 \
    MB/s for YUYV 1080p60; up to ~3 Gbps for Pro 4Kp60 MJPG) — empirically tested. USB \
    topology must be validated during probe.";

pub const BANDWIDTH_STARVATION_SUMMARY: &'static str =
    "USB hub/dock sharing can cause frame drops or freezing";

pub const BANDWIDTH_STARVATION_DESCRIPTION: &'static str =
    "Both the original Facecam and the Pro use significant USB 3.0 bandwidth. Sharing a \
    controller with other high-bandwidth devices causes instability. MJPEG mode (firmware \
    4.00+ on original; default on Pro) reduces bandwidth.";

pub const YUYV_UYVY_AMBIGUITY_SUMMARY: &'static str =
    "Wire format may be UYVY despite V4L2 reporting YUYV (original Facecam)";

pub const YUYV_UYVY_AMBIGUITY_DESCRIPTION: &'static str =
    "On the original Facecam, community workarounds use uyvy422 as ffmpeg input format even \
    though v4l2-ctl reports YUYV. The Pro does not advertise YUYV or UYVY at all — this \
    quirk does not apply to it.";

pub const PRO_STREAM_START_RACE_SUMMARY: &'static str =
    "Pro: stream-start often fails on first attempt; retry succeeds";

pub const PRO_STREAM_START_RACE_DESCRIPTION: &'static str =
    "On Elgato Facecam Pro (PID 0x0079, fw 0.06), back-to-back STREAMON cycles show a strong \
    alternation: every other attempt returns zero frames within a 5s timeout, every other \
    attempt streams normally. Empirically: 20-of-20 alternating cycles observed 2026-04-27 \
    with no idle time between. Pattern softens (some adjacent OK/OK pairs) when idle time or \
    non-streaming opens are interleaved. The recovery is cheap: a same-process retry \
    (STREAMOFF then STREAMON, or close+reopen) succeeds. USB reset is NOT required — see \
    PRO_USB_RESET_DESTRUCTIVE.";

pub const PRO_USB_RESET_DESTRUCTIVE_SUMMARY: &'static str =
    "Pro: USB sysfs reset is destructive — last resort only";

pub const PRO_USB_RESET_DESTRUCTIVE_DESCRIPTION: &'static str =
    "On Elgato Facecam Pro (PID 0x0079, fw 0.06), `echo 0 > \
    /sys/bus/usb/devices/.../authorized` returns ETIMEDOUT (the kernel disconnect-wait times \
    out) but the device does re-enumerate. Multiple consecutive stream attempts after the \
    reset return zero bytes; the device needs ~5 seconds of cool-down before it accepts \
    streaming again. Empirically observed 2026-04-27. Recovery ladder must therefore use USB \
    reset only after cheaper recoveries (in-place STREAMOFF/STREAMON, then close+reopen) \
    have failed multiple times.";

/// All known quirks.
pub open spec fn registry() -> Seq<QuirkModel> {
    seq![
        QuirkModel {
            id: "BOGUS_NV12"@,
            summary: BOGUS_NV12_SUMMARY@,
            description: BOGUS_NV12_DESCRIPTION@,
            products: seq![ElgatoProduct::Facecam],
            firmware_min: None,
            firmware_max: None,
            format: Some(PixelFormat::Nv12),
            severity: QuirkSeverity::Error,
            mitigation: MitigationModel::SkipFormat(PixelFormat::Nv12),
        },
        QuirkModel {
            id: "BOGUS_YU12"@,
            summary: BOGUS_YU12_SUMMARY@,
            description: BOGUS_YU12_DESCRIPTION@,
            products: seq![ElgatoProduct::Facecam],
            firmware_min: None,
            firmware_max: None,
            format: Some(PixelFormat::Yu12),
            severity: QuirkSeverity::Error,
            mitigation: MitigationModel::SkipFormat(PixelFormat::Yu12),
        },
        QuirkModel {
            id: "OPEN_CLOSE_LOCKUP"@,
            summary: OPEN_CLOSE_LOCKUP_SUMMARY@,
            description: OPEN_CLOSE_LOCKUP_DESCRIPTION@,
            products: seq![ElgatoProduct::Facecam],
            firmware_min: None,
            firmware_max: None,
            format: None,
            severity: QuirkSeverity::Critical,
            mitigation: MitigationModel::NormalizationPipeline,
        },
        QuirkModel {
            id: "STARTUP_UNRELIABILITY"@,
            summary: STARTUP_UNRELIABILITY_SUMMARY@,
            description: STARTUP_UNRELIABILITY_DESCRIPTION@,
            products: seq![ElgatoProduct::Facecam],
            firmware_min: None,
            firmware_max: None,
            format: None,
            severity: QuirkSeverity::Error,
            mitigation: MitigationModel::UsbReset,
        },
        QuirkModel {
            id: "NO_MJPEG_OLD_FW"@,
            summary: NO_MJPEG_OLD_FW_SUMMARY@,
            description: NO_MJPEG_OLD_FW_DESCRIPTION@,
            products: seq![ElgatoProduct::Facecam],
            firmware_min: None,
            firmware_max: Some(FirmwareVersion { major: 4, minor: 0 }),
            format: None,
            severity: QuirkSeverity::Warning,
            mitigation: MitigationModel::NormalizationPipeline,
        },
        QuirkModel {
            id: "CHROMIUM_FORMAT_REJECT"@,
            summary: CHROMIUM_FORMAT_REJECT_SUMMARY@,
            description: CHROMIUM_FORMAT_REJECT_DESCRIPTION@,
            products: seq![ElgatoProduct::Facecam, ElgatoProduct::FacecamPro],
            firmware_min: None,
            firmware_max: None,
            format: None,
            severity: QuirkSeverity::Error,
            mitigation: MitigationModel::NormalizationPipeline,
        },
        QuirkModel {
            id: "USB2_FALLBACK_MODE"@,
            summary: USB2_FALLBACK_MODE_SUMMARY@,
            description: USB2_FALLBACK_MODE_DESCRIPTION@,
            products: seq![ElgatoProduct::FacecamUsb2Fallback],
            firmware_min: None,
            firmware_max: None,
            format: None,
            severity: QuirkSeverity::Critical,
            mitigation: MitigationModel::Manual("Move the camera to a USB 3.0 (blue) port"@),
        },
        QuirkModel {
            id: "USB3_REQUIRED"@,
            summary: USB3_REQUIRED_SUMMARY@,
            description: USB3_REQUIRED_DESCRIPTION@,
            products: seq![ElgatoProduct::Facecam, ElgatoProduct::FacecamPro],
            firmware_min: None,
            firmware_max: None,
            format: None,
            severity: QuirkSeverity::Critical,
            mitigation: MitigationModel::Manual("Connect to a USB 3.0 port directly, avoid hubs"@),
        },
        QuirkModel {
            id: "BANDWIDTH_STARVATION"@,
            summary: BANDWIDTH_STARVATION_SUMMARY@,
            description: BANDWIDTH_STARVATION_DESCRIPTION@,
            products: seq![ElgatoProduct::Facecam, ElgatoProduct::FacecamPro],
            firmware_min: None,
            firmware_max: None,
            format: None,
            severity: QuirkSeverity::Warning,
            mitigation: MitigationModel::ForceFormat(PixelFormat::Mjpeg),
        },
        QuirkModel {
            id: "YUYV_UYVY_AMBIGUITY"@,
            summary: YUYV_UYVY_AMBIGUITY_SUMMARY@,
            description: YUYV_UYVY_AMBIGUITY_DESCRIPTION@,
            products: seq![ElgatoProduct::Facecam],
            firmware_min: None,
            firmware_max: None,
            format: None,
            severity: QuirkSeverity::Info,
            mitigation: MitigationModel::Manual("Verify empirically via frame byte inspection"@),
        },
        QuirkModel {
            id: "PRO_STREAM_START_RACE"@,
            summary: PRO_STREAM_START_RACE_SUMMARY@,
            description: PRO_STREAM_START_RACE_DESCRIPTION@,
            products: seq![ElgatoProduct::FacecamPro],
            firmware_min: None,
            firmware_max: None,
            format: None,
            severity: QuirkSeverity::Error,
            mitigation: MitigationModel::RetryStreamOn,
        },
        QuirkModel {
            id: "PRO_USB_RESET_DESTRUCTIVE"@,
            summary: PRO_USB_RESET_DESTRUCTIVE_SUMMARY@,
            description: PRO_USB_RESET_DESTRUCTIVE_DESCRIPTION@,
            products: seq![ElgatoProduct::FacecamPro],
            firmware_min: None,
            firmware_max: None,
            format: None,
            severity: QuirkSeverity::Warning,
            mitigation: MitigationModel::AvoidUnlessLastResort,
        },
    ]
}

fn observed_on(product: ElgatoProduct) -> (r: Vec<ElgatoProduct>)
    ensures
        r@ == seq![product],
{
    let list = vec![product];
    proof {
        assert(list@ =~= seq![product]);
    }
    list
}

fn observed_on_both(first: ElgatoProduct, second: ElgatoProduct) -> (r: Vec<ElgatoProduct>)
    ensures
        r@ == seq![first, second],
{
    let list = vec![first, second];
    proof {
        assert(list@ =~= seq![first, second]);
    }
    list
}

/// All known quirks.
pub fn quirk_registry() -> (r: Vec<Quirk>)
    ensures
        models(r@) == registry(),
{
    let all = vec![
        Quirk {
            id: "BOGUS_NV12",
            summary: BOGUS_NV12_SUMMARY,
            description: BOGUS_NV12_DESCRIPTION,
            products: observed_on(ElgatoProduct::Facecam),
            firmware_min: None,
            firmware_max: None,
            format: Some(PixelFormat::Nv12),
            severity: QuirkSeverity::Error,
            mitigation: QuirkMitigation::SkipFormat(PixelFormat::Nv12),
        },
        Quirk {
            id: "BOGUS_YU12",
            summary: BOGUS_YU12_SUMMARY,
            description: BOGUS_YU12_DESCRIPTION,
            products: observed_on(ElgatoProduct::Facecam),
            firmware_min: None,
            firmware_max: None,
            format: Some(PixelFormat::Yu12),
            severity: QuirkSeverity::Error,
            mitigation: QuirkMitigation::SkipFormat(PixelFormat::Yu12),
        },
        Quirk {
            id: "OPEN_CLOSE_LOCKUP",
            summary: OPEN_CLOSE_LOCKUP_SUMMARY,
            description: OPEN_CLOSE_LOCKUP_DESCRIPTION,
            products: observed_on(ElgatoProduct::Facecam),
            firmware_min: None,
            firmware_max: None,
            format: None,
            severity: QuirkSeverity::Critical,
            mitigation: QuirkMitigation::NormalizationPipeline,
        },
        Quirk {
            id: "STARTUP_UNRELIABILITY",
            summary: STARTUP_UNRELIABILITY_SUMMARY,
            description: STARTUP_UNRELIABILITY_DESCRIPTION,
            products: observed_on(ElgatoProduct::Facecam),
            firmware_min: None,
            firmware_max: None,
            format: None,
            severity: QuirkSeverity::Error,
            mitigation: QuirkMitigation::UsbReset,
        },
        Quirk {
            id: "NO_MJPEG_OLD_FW",
            summary: NO_MJPEG_OLD_FW_SUMMARY,
            description: NO_MJPEG_OLD_FW_DESCRIPTION,
            products: observed_on(ElgatoProduct::Facecam),
            firmware_min: None,
            firmware_max: Some(FirmwareVersion { major: 4, minor: 0 }),
            format: None,
            severity: QuirkSeverity::Warning,
            mitigation: QuirkMitigation::NormalizationPipeline,
        },
        Quirk {
            id: "CHROMIUM_FORMAT_REJECT",
            summary: CHROMIUM_FORMAT_REJECT_SUMMARY,
            description: CHROMIUM_FORMAT_REJECT_DESCRIPTION,
            products: observed_on_both(ElgatoProduct::Facecam, ElgatoProduct::FacecamPro),
            firmware_min: None,
            firmware_max: None,
            format: None,
            severity: QuirkSeverity::Error,
            mitigation: QuirkMitigation::NormalizationPipeline,
        },
        Quirk {
            id: "USB2_FALLBACK_MODE",
            summary: USB2_FALLBACK_MODE_SUMMARY,
            description: USB2_FALLBACK_MODE_DESCRIPTION,
            products: observed_on(ElgatoProduct::FacecamUsb2Fallback),
            firmware_min: None,
            firmware_max: None,
            format: None,
            severity: QuirkSeverity::Critical,
            mitigation: QuirkMitigation::Manual("Move the camera to a USB 3.0 (blue) port"),
        },
        Quirk {
            id: "USB3_REQUIRED",
            summary: USB3_REQUIRED_SUMMARY,
            description: USB3_REQUIRED_DESCRIPTION,
            products: observed_on_both(ElgatoProduct::Facecam, ElgatoProduct::FacecamPro),
            firmware_min: None,
            firmware_max: None,
            format: None,
            severity: QuirkSeverity::Critical,
            mitigation: QuirkMitigation::Manual("Connect to a USB 3.0 port directly, avoid hubs"),
        },
        Quirk {
            id: "BANDWIDTH_STARVATION",
            summary: BANDWIDTH_STARVATION_SUMMARY,
            description: BANDWIDTH_STARVATION_DESCRIPTION,
            products: observed_on_both(ElgatoProduct::Facecam, ElgatoProduct::FacecamPro),
            firmware_min: None,
            firmware_max: None,
            format: None,
            severity: QuirkSeverity::Warning,
            mitigation: QuirkMitigation::ForceFormat(PixelFormat::Mjpeg),
        },
        Quirk {
            id: "YUYV_UYVY_AMBIGUITY",
            summary: YUYV_UYVY_AMBIGUITY_SUMMARY,
            description: YUYV_UYVY_AMBIGUITY_DESCRIPTION,
            products: observed_on(ElgatoProduct::Facecam),
            firmware_min: None,
            firmware_max: None,
            format: None,
            severity: QuirkSeverity::Info,
            mitigation: QuirkMitigation::Manual("Verify empirically via frame byte inspection"),
        },
        Quirk {
            id: "PRO_STREAM_START_RACE",
            summary: PRO_STREAM_START_RACE_SUMMARY,
            description: PRO_STREAM_START_RACE_DESCRIPTION,
            products: observed_on(ElgatoProduct::FacecamPro),
            firmware_min: None,
            firmware_max: None,
            format: None,
            severity: QuirkSeverity::Error,
            mitigation: QuirkMitigation::RetryStreamOn,
        },
        Quirk {
            id: "PRO_USB_RESET_DESTRUCTIVE",
            summary: PRO_USB_RESET_DESTRUCTIVE_SUMMARY,
            description: PRO_USB_RESET_DESTRUCTIVE_DESCRIPTION,
            products: observed_on(ElgatoProduct::FacecamPro),
            firmware_min: None,
            firmware_max: None,
            format: None,
            severity: QuirkSeverity::Warning,
            mitigation: QuirkMitigation::AvoidUnlessLastResort,
        },
    ];
    proof {
        assert(models(all@) =~= registry());
    }
    all
}

/// Whether a quirk was observed on a product and covers a firmware version.
pub open spec fn applies(q: QuirkModel, product: ElgatoProduct, firmware: FirmwareVersion) -> bool {
    &&& q.products.contains(product)
    &&& q.firmware_min matches Some(min) ==> !device::firmware_before(firmware, min)
    &&& q.firmware_max matches Some(max) ==> device::firmware_before(firmware, max)
}

/// Whether a list of products names a product.
fn names_product(products: &Vec<ElgatoProduct>, product: ElgatoProduct) -> (r: bool)
    ensures
        r == products@.contains(product),
{
    for i in 0..products.len()
        invariant
            forall|j: int| 0 <= j < i ==> products@[j] != product,
    {
        if products[i] == product {
            return true;
        }
    }
    false
}

/// Returns the quirks that apply to a given (product, firmware) pair.
pub fn applicable_quirks(product: ElgatoProduct, firmware: FirmwareVersion) -> (r: Vec<Quirk>)
    ensures
        models(r@) == registry().filter(|q: QuirkModel| applies(q, product, firmware)),
{
    let mut rest = quirk_registry();
    let total: usize = rest.len();
    let mut out: Vec<Quirk> = Vec::new();
    let ghost pred = |q: QuirkModel| applies(q, product, firmware);
    proof {
        seqs::lemma_filter_ends(registry(), pred);
        assert(models(out@) =~= registry().take(0).filter(pred));
        assert(registry().skip(0) =~= registry());
    }
    for i in 0..total
        invariant
            total == registry().len(),
            rest@.len() == total - i,
            models(rest@) == registry().skip(i as int),
            pred == (|q: QuirkModel| applies(q, product, firmware)),
            models(out@) == registry().take(i as int).filter(pred),
    {
        let ghost before = rest@;
        let q = rest.remove(0);
        proof {
            assert(q@ == registry()[i as int]) by {
                assert(models(before)[0] == q@);
                assert(registry().skip(i as int)[0] == registry()[i as int]);
            }
            assert(models(rest@) =~= registry().skip(i + 1)) by {
                assert(forall|j: int|
                    0 <= j < rest@.len() ==> #[trigger] models(rest@)[j] == models(before)[j + 1]);
            }
            seqs::lemma_filter_take(registry(), pred, i as int);
        }
        let above_min = match q.firmware_min {
            Some(min) => firmware >= min,
            None => true,
        };
        let below_max = match q.firmware_max {
            Some(max) => firmware < max,
            None => true,
        };
        if names_product(&q.products, product) && above_min && below_max {
            proof {
                assert(models(out@.push(q)) =~= models(out@).push(q@));
            }
            out.push(q);
        }
    }
    proof {
        seqs::lemma_filter_ends(registry(), pred);
    }
    out
}

/// Whether some quirk that applies to a product and firmware names a pixel format.
pub open spec fn known_broken(
    product: ElgatoProduct,
    firmware: FirmwareVersion,
    format: PixelFormat,
) -> bool {
    exists|i: int|
        0 <= i < registry().len() && applies(#[trigger] registry()[i], product, firmware)
            && registry()[i].format == Some(format)
}

/// True if the quirk DB knows this format produces broken output for this
/// product/firmware combo.
pub fn is_format_known_broken(
    product: ElgatoProduct,
    firmware: FirmwareVersion,
    format: PixelFormat,
) -> (r: bool)
    ensures
        r == known_broken(product, firmware, format),
{
    let quirks = applicable_quirks(product, firmware);
    let ghost pred = |q: QuirkModel| applies(q, product, firmware);
    let ghost chosen = registry().filter(pred);
    for i in 0..quirks.len()
        invariant
            pred == (|q: QuirkModel| applies(q, product, firmware)),
            chosen == registry().filter(pred),
            models(quirks@) == chosen,
            forall|j: int| 0 <= j < i ==> chosen[j].format != Some(format),
    {
        proof {
            assert(chosen[i as int] == quirks@[i as int]@);
        }
        if let Some(f) = quirks[i].format {
            if f == format {
                proof {
                    seqs::lemma_filter_source(registry(), pred, i as int);
                    let q = chosen[i as int];
                    let k = choose|k: int| 0 <= k < registry().len() && registry()[k] == q;
                    assert(applies(registry()[k], product, firmware));
                }
                return true;
            }
        }
    }
    proof {
        if known_broken(product, firmware, format) {
            let k = choose|k: int|
                0 <= k < registry().len() && applies(#[trigger] registry()[k], product, firmware)
                    && registry()[k].format == Some(format);
            seqs::lemma_filter_keeps(registry(), pred, k);
            assert(chosen.contains(registry()[k]));
        }
    }
    false
}

// ---------------------------------------------------------------------------------------------
// Laws
// ---------------------------------------------------------------------------------------------

/// Every quirk names at least one product on which it was observed.
pub proof fn every_quirk_names_a_product(i: int)
    requires
        0 <= i < registry().len(),
    ensures
        registry()[i].products.len() > 0,
{
}

/// No quirk has a firmware range that is empty by contradiction.
pub proof fn firmware_ranges_are_consistent(i: int)
    requires
        0 <= i < registry().len(),
    ensures
        registry()[i].firmware_min is Some && registry()[i].firmware_max is Some
            ==> device::firmware_before(
            registry()[i].firmware_min->0,
            registry()[i].firmware_max->0,
        ),
{
}

/// No two quirks share an id.
pub proof fn quirk_ids_are_distinct(i: int, j: int)
    requires
        0 <= i < j < registry().len(),
    ensures
        registry()[i].id != registry()[j].id,
{
    reveal_strlit("BOGUS_NV12");
    reveal_strlit("BOGUS_YU12");
    reveal_strlit("OPEN_CLOSE_LOCKUP");
    reveal_strlit("STARTUP_UNRELIABILITY");
    reveal_strlit("NO_MJPEG_OLD_FW");
    reveal_strlit("CHROMIUM_FORMAT_REJECT");
    reveal_strlit("USB2_FALLBACK_MODE");
    reveal_strlit("USB3_REQUIRED");
    reveal_strlit("BANDWIDTH_STARVATION");
    reveal_strlit("YUYV_UYVY_AMBIGUITY");
    reveal_strlit("PRO_STREAM_START_RACE");
    reveal_strlit("PRO_USB_RESET_DESTRUCTIVE");
    let (a, b) = (registry()[i].id, registry()[j].id);
    if a.len() == b.len() {
        assert(a[0] != b[0] || a[1] != b[1] || a[4] != b[4] || a[6] != b[6]);
    }
}

/// A quirk that names a pixel format is mitigated by skipping that format.
pub proof fn format_quirks_skip_their_format(i: int)
    requires
        0 <= i < registry().len(),
        registry()[i].format is Some,
    ensures
        registry()[i].mitigation == MitigationModel::SkipFormat(registry()[i].format->0),
{
}

/// The formats that are known to be broken are NV12 and YU12 on the original Facecam, whatever
/// its firmware, and no others.
pub proof fn broken_formats(product: ElgatoProduct, firmware: FirmwareVersion, format: PixelFormat)
    ensures
        known_broken(product, firmware, format) <==> product == ElgatoProduct::Facecam && (format
            == PixelFormat::Nv12 || format == PixelFormat::Yu12),
{
    let q0 = registry()[0];
    let q1 = registry()[1];
    assert(q0.products[0] == ElgatoProduct::Facecam);
    assert(q1.products[0] == ElgatoProduct::Facecam);
    if product == ElgatoProduct::Facecam && format == PixelFormat::Nv12 {
        assert(applies(registry()[0], product, firmware));
    }
    if product == ElgatoProduct::Facecam && format == PixelFormat::Yu12 {
        assert(applies(registry()[1], product, firmware));
    }
}

/// No quirk applies to a product that is not known, nor to the MK.2 and Cam Link families, on
/// which nothing was observed.
pub proof fn unobserved_products_have_no_quirks(
    product: ElgatoProduct,
    firmware: FirmwareVersion,
    i: int,
)
    requires
        product is Unknown || product == ElgatoProduct::FacecamMk2 || product
            == ElgatoProduct::FacecamMk2Usb2 || product == ElgatoProduct::CamLink4K,
        0 <= i < registry().len(),
    ensures
        !applies(registry()[i], product, firmware),
{
}

/// A USB reset is never the mitigation of a quirk that applies to the Facecam Pro.
pub proof fn usb_reset_never_mitigates_on_the_pro(firmware: FirmwareVersion, i: int)
    requires
        0 <= i < registry().len(),
        applies(registry()[i], ElgatoProduct::FacecamPro, firmware),
    ensures
        registry()[i].mitigation != MitigationModel::UsbReset,
{
}

/// The quirk of missing MJPEG support applies to an original Facecam exactly where its firmware
/// has no MJPEG.
pub proof fn mjpeg_quirk_matches_firmware(firmware: FirmwareVersion)
    ensures
        registry()[4].id == "NO_MJPEG_OLD_FW"@,
        applies(registry()[4], ElgatoProduct::Facecam, firmware) <==> device::firmware_before(
            firmware,
            (FirmwareVersion { major: 4, minor: 0 }),
        ),
{
    assert(registry()[4].products[0] == ElgatoProduct::Facecam);
}

/// A quirk holds for its products from its first firmware on, and below its last one: the lower bound
/// has the quirk and the upper bound has it no more.
pub proof fn quirks_hold_within_their_firmware(
    q: QuirkModel,
    product: ElgatoProduct,
    firmware: FirmwareVersion,
)
    ensures
        applies(q, product, firmware) <==> {
            &&& exists|i: int| 0 <= i < q.products.len() && #[trigger] q.products[i] == product
            &&& q.firmware_min matches Some(min) ==> 0x100 * min.major + min.minor <= 0x100
                * firmware.major + firmware.minor
            &&& q.firmware_max matches Some(max) ==> 0x100 * firmware.major + firmware.minor < 0x100
                * max.major + max.minor
        },
{
}

proof fn lemma_other_ids(i: int, j: int)
    requires
        0 <= i < registry().len(),
        0 <= j < registry().len(),
    ensures
        registry()[i].id == registry()[j].id <==> i == j,
{
    if i < j {
        quirk_ids_are_distinct(i, j);
    } else if j < i {
        quirk_ids_are_distinct(j, i);
    }
}

/// A quirk is critical where the camera does not work at all because of it: it locks up, or it is on
/// a bus that it cannot be used on. A quirk of a format is an error.
pub proof fn critical_quirks_stop_the_camera(i: int)
    requires
        0 <= i < registry().len(),
    ensures
        registry()[i].severity == QuirkSeverity::Critical <==> registry()[i].id
            == "OPEN_CLOSE_LOCKUP"@ || registry()[i].id == "USB2_FALLBACK_MODE"@ || registry()[i].id
            == "USB3_REQUIRED"@,
        registry()[i].format is Some ==> registry()[i].severity == QuirkSeverity::Error,
        registry()[i].mitigation == MitigationModel::UsbReset ==> registry()[i].id
            == "STARTUP_UNRELIABILITY"@,
        registry()[i].products.contains(ElgatoProduct::FacecamUsb2Fallback) <==> registry()[i].id
            == "USB2_FALLBACK_MODE"@,
        registry()[i].firmware_max is Some <==> registry()[i].id == "NO_MJPEG_OLD_FW"@,
        registry()[i].firmware_min is None,
{
    let r = registry();
    assert(r[2].id == "OPEN_CLOSE_LOCKUP"@);
    assert(r[3].id == "STARTUP_UNRELIABILITY"@);
    assert(r[4].id == "NO_MJPEG_OLD_FW"@);
    assert(r[6].id == "USB2_FALLBACK_MODE"@);
    assert(r[7].id == "USB3_REQUIRED"@);
    lemma_other_ids(i, 2);
    lemma_other_ids(i, 3);
    lemma_other_ids(i, 4);
    lemma_other_ids(i, 6);
    lemma_other_ids(i, 7);
    assert(r[6].products[0] == ElgatoProduct::FacecamUsb2Fallback);
}

/// A quirk is listed as it is registered, field by field and in order.
pub proof fn quirks_are_listed_as_registered(quirks: Seq<Quirk>, i: int)
    requires
        models(quirks) == registry(),
        0 <= i < registry().len(),
    ensures
        quirks.len() == registry().len(),
        quirks[i].id@ == registry()[i].id && quirks[i].summary@ == registry()[i].summary
            && quirks[i].description@ == registry()[i].description,
        quirks[i].products@ == registry()[i].products,
        quirks[i].firmware_min == registry()[i].firmware_min && quirks[i].firmware_max
            == registry()[i].firmware_max,
        quirks[i].format == registry()[i].format && quirks[i].severity == registry()[i].severity,
{
    assert(models(quirks)[i] == quirks[i]@);
}

} // verus!
