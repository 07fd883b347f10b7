//! The single tests of the compatibility harness: what each of them concludes.

use crate::device::{self, DeviceFingerprint, ElgatoProduct, FirmwareVersion, ProductDescriptor};
use crate::diagnostics::KernelModuleInfo;
use crate::formats::{self, PixelFormat};
use crate::harness::{
    CycleFailure, CyclePhase, FormatNegotiation, RoundTrip, TestDetails,
};
use crate::pipeline;
use crate::quirks::{self, is_format_known_broken};
use crate::recovery::DevicePresence;
use crate::seqs;
use crate::text::{self, clone_opt, contains, push_decimal, push_opt_text, text_eq};
use crate::types::ControlValue;
use crate::usb::UsbTopology;
use crate::v4l2::{self, control_field, FormatDescription};
use vstd::prelude::*;
use vstd::string::*;

verus! {

// ---------------------------------------------------------------------------------------------
// Enumerations
// ---------------------------------------------------------------------------------------------

/// Whether two lists of fingerprints say the same.
pub open spec fn same_devices(a: Seq<DeviceFingerprint>, b: Seq<DeviceFingerprint>) -> bool {
    a.len() == b.len() && forall|i: int| 0 <= i < a.len() ==> (#[trigger] a[i]).same_as(b[i])
}

/// The device detection passes where a capture device is on the bus, and finds all of them.
pub fn test_device_detection(devices: &Vec<DeviceFingerprint>) -> (r: Result<TestDetails, String>)
    ensures
        ({
            let cameras = devices@.filter(pipeline::is_camera());
            if cameras.len() == 0 {
                r matches Err(words) && words@
                    == "No Elgato UVC capture device detected via USB enumeration"@
            } else {
                r matches Ok(TestDetails::Devices(found)) && same_devices(found@, cameras)
            }
        }),
{
    let mut found: Vec<DeviceFingerprint> = Vec::new();
    let ghost pred = pipeline::is_camera();
    proof {
        seqs::lemma_filter_ends(devices@, pred);
    }
    for i in 0..devices.len()
        invariant
            pred == pipeline::is_camera(),
            same_devices(found@, devices@.take(i as int).filter(pred)),
    {
        proof {
            seqs::lemma_filter_take(devices@, pred, i as int);
        }
        if devices[i].product.is_uvc_capture() {
            found.push(devices[i].duplicate());
        }
    }
    if found.len() == 0 {
        Err("No Elgato UVC capture device detected via USB enumeration".to_owned())
    } else {
        Ok(TestDetails::Devices(found))
    }
}

/// How many of the first `n` formats are known to be broken.
pub open spec fn broken_among(
    all: Seq<FormatDescription>,
    product: ElgatoProduct,
    firmware: FirmwareVersion,
    n: nat,
) -> nat
    decreases n,
{
    if n == 0 {
        0
    } else {
        broken_among(all, product, firmware, (n - 1) as nat) + if quirks::known_broken(
            product,
            firmware,
            all[n - 1].pixel_format,
        ) {
            1nat
        } else {
            0nat
        }
    }
}

/// Whether a format is offered.
pub open spec fn offers(all: Seq<FormatDescription>, format: PixelFormat) -> bool {
    exists|i: int| 0 <= i < all.len() && (#[trigger] all[i]).pixel_format == format
}

fn is_offered(all: &Vec<FormatDescription>, format: PixelFormat) -> (r: bool)
    ensures
        r == offers(all@, format),
{
    for i in 0..all.len()
        invariant
            forall|j: int| 0 <= j < i ==> (#[trigger] all@[j]).pixel_format != format,
    {
        if all[i].pixel_format == format {
            return true;
        }
    }
    false
}

/// The format enumeration passes where the device offers a format. It counts the modes and the
/// formats that are known to be broken, and looks for YUYV and MJPEG.
pub fn test_format_enumeration(
    all: Vec<FormatDescription>,
    mode_count: usize,
    product: ElgatoProduct,
    firmware: FirmwareVersion,
) -> (r: Result<TestDetails, String>)
    ensures
        if all@.len() == 0 {
            r matches Err(words) && words@ == "No formats enumerated from device"@
        } else {
            r matches Ok(
                TestDetails::Formats {
                    formats,
                    mode_count: modes,
                    bogus_format_count,
                    has_yuyv,
                    has_mjpeg,
                },
            ) && formats == all && modes == mode_count && bogus_format_count == broken_among(
                all@,
                product,
                firmware,
                all@.len(),
            ) && has_yuyv == offers(all@, PixelFormat::Yuyv) && has_mjpeg == offers(
                all@,
                PixelFormat::Mjpeg,
            )
        },
{
    if all.len() == 0 {
        return Err("No formats enumerated from device".to_owned());
    }
    let mut bogus: usize = 0;
    for i in 0..all.len()
        invariant
            bogus == broken_among(all@, product, firmware, i as nat),
            bogus <= i,
    {
        if is_format_known_broken(product, firmware, all[i].pixel_format) {
            bogus += 1;
        }
    }
    let has_yuyv = is_offered(&all, PixelFormat::Yuyv);
    let has_mjpeg = is_offered(&all, PixelFormat::Mjpeg);
    Ok(
        TestDetails::Formats {
            formats: all,
            mode_count,
            bogus_format_count: bogus,
            has_yuyv,
            has_mjpeg,
        },
    )
}

/// The control enumeration passes where the device has a control, and lists their names.
pub fn test_control_enumeration(controls: &Vec<ControlValue>) -> (r: Result<TestDetails, String>)
    ensures
        if controls@.len() == 0 {
            r matches Err(words) && words@ == "No controls enumerated from device"@
        } else {
            r matches Ok(TestDetails::Controls(names)) && text::views(names@)
                == controls@.map_values(|c: ControlValue| c.name@)
        },
{
    if controls.len() == 0 {
        return Err("No controls enumerated from device".to_owned());
    }
    let ghost all = controls@.map_values(|c: ControlValue| c.name@);
    let mut names: Vec<String> = Vec::new();
    proof {
        assert(text::views(names@) =~= all.take(0));
    }
    for i in 0..controls.len()
        invariant
            all == controls@.map_values(|c: ControlValue| c.name@),
            text::views(names@) == all.take(i as int),
    {
        broadcast use text::lemma_views_push;

        names.push(controls[i].name.clone());
        proof {
            assert(text::views(names@) =~= all.take(i + 1));
        }
    }
    proof {
        assert(all.take(controls@.len() as int) =~= all);
    }
    Ok(TestDetails::Controls(names))
}

/// Whether a result says how a format was negotiated, and whether that was to be expected.
pub open spec fn negotiated(
    n: FormatNegotiation,
    f: FormatDescription,
    ok: bool,
    product: ElgatoProduct,
    firmware: FirmwareVersion,
) -> bool {
    &&& n.format@ == formats::format_text(f.pixel_format)
    &&& n.negotiation_ok == ok
    &&& n.expected_reliable == !quirks::known_broken(product, firmware, f.pixel_format)
}

/// The format negotiation records for every format whether it could be set at 1920 by 1080.
pub fn test_format_negotiation(
    all: &Vec<FormatDescription>,
    accepted: &Vec<bool>,
    product: ElgatoProduct,
    firmware: FirmwareVersion,
) -> (r: Vec<FormatNegotiation>)
    requires
        accepted@.len() == all@.len(),
    ensures
        r@.len() == all@.len(),
        forall|i: int|
            0 <= i < r@.len() ==> negotiated(
                #[trigger] r@[i],
                all@[i],
                accepted@[i],
                product,
                firmware,
            ),
{
    let mut results: Vec<FormatNegotiation> = Vec::new();
    for i in 0..all.len()
        invariant
            accepted@.len() == all@.len(),
            results@.len() == i,
            forall|j: int|
                0 <= j < i ==> negotiated(
                    #[trigger] results@[j],
                    all@[j],
                    accepted@[j],
                    product,
                    firmware,
                ),
    {
        results.push(
            FormatNegotiation {
                format: all[i].pixel_format.fourcc_str(),
                negotiation_ok: accepted[i],
                expected_reliable: !is_format_known_broken(product, firmware, all[i].pixel_format),
            },
        );
    }
    results
}

// ---------------------------------------------------------------------------------------------
// Open/close cycles
// ---------------------------------------------------------------------------------------------

/// The pause after a cycle in which the device could be opened.
pub const CYCLE_PAUSE_MS: u64 = 100;

/// The pause after a reset that succeeded.
pub const CYCLE_RESET_PAUSE_MS: u64 = 2000;

/// What the open/close test is to do next.
#[derive(Debug, Clone, Copy, PartialEq, Eq, Structural)]
pub enum CycleStep {
    /// Open the device.
    Open,
    /// Ask the open device for its capabilities, to see that it responds.
    QueryCaps,
    /// Close the device and make a short pause.
    Close,
    /// Reset the device, so that the next cycle has a chance.
    Reset,
    /// Make a pause after the reset.
    Settle,
    /// Nothing: all cycles were made.
    Finished,
}

/// What came of it.
#[derive(Debug, Clone)]
pub enum CycleReply {
    Done,
    Failed(String),
}

/// The open/close test.
#[derive(Debug, Clone)]
pub struct OpenClose {
    pub cycles: u32,
    /// The current cycle, counted from 0.
    pub cycle: u32,
    pub step: CycleStep,
    pub successes: u32,
    pub failures: Vec<CycleFailure>,
}

/// The open/close test, with its failures as a sequence.
pub ghost struct CyclesModel {
    pub cycles: u32,
    pub cycle: u32,
    pub step: CycleStep,
    pub successes: u32,
    pub failures: Seq<CycleFailure>,
}

impl View for OpenClose {
    type V = CyclesModel;

    open spec fn view(&self) -> CyclesModel {
        CyclesModel {
            cycles: self.cycles,
            cycle: self.cycle,
            step: self.step,
            successes: self.successes,
            failures: self.failures@,
        }
    }
}

/// The test at the start of a cycle, or at its end where there are no more cycles.
pub open spec fn at_cycle(m: CyclesModel, cycle: int) -> CyclesModel {
    CyclesModel {
        cycle: cycle as u32,
        step: if cycle < m.cycles {
            CycleStep::Open
        } else {
            CycleStep::Finished
        },
        ..m
    }
}

/// The test before its first cycle.
pub open spec fn cycles_start(cycles: u32) -> CyclesModel {
    at_cycle(
        CyclesModel {
            cycles,
            cycle: 0,
            step: CycleStep::Open,
            successes: 0,
            failures: Seq::empty(),
        },
        0,
    )
}

/// The test with one more failure, in the current cycle.
pub open spec fn with_failure(m: CyclesModel, phase: CyclePhase, error: String, step: CycleStep) -> CyclesModel {
    CyclesModel { failures: m.failures.push(CycleFailure { cycle: m.cycle, phase, error }), step, ..m }
}

/// The test after a step.
pub open spec fn after_cycle_step(m: CyclesModel, reply: CycleReply) -> CyclesModel {
    match m.step {
        CycleStep::Open => match reply {
            CycleReply::Done => CyclesModel { step: CycleStep::QueryCaps, ..m },
            CycleReply::Failed(error) => with_failure(
                m,
                CyclePhase::Open,
                error,
                CycleStep::Reset,
            ),
        },
        CycleStep::QueryCaps => match reply {
            CycleReply::Done => CyclesModel {
                step: CycleStep::Close,
                successes: (m.successes + 1) as u32,
                ..m
            },
            CycleReply::Failed(error) => with_failure(
                m,
                CyclePhase::QueryCaps,
                error,
                CycleStep::Close,
            ),
        },
        CycleStep::Close => at_cycle(m, m.cycle + 1),
        CycleStep::Reset => match reply {
            CycleReply::Done => CyclesModel { step: CycleStep::Settle, ..m },
            CycleReply::Failed(_) => at_cycle(m, m.cycle + 1),
        },
        CycleStep::Settle => at_cycle(m, m.cycle + 1),
        CycleStep::Finished => m,
    }
}

/// What holds of the test in every state: each cycle that was tried succeeded or failed, once.
pub open spec fn cycles_ok(m: CyclesModel) -> bool {
    match m.step {
        CycleStep::Open | CycleStep::QueryCaps => m.cycle < m.cycles && m.successes
            + m.failures.len() == m.cycle,
        CycleStep::Close | CycleStep::Reset | CycleStep::Settle => m.cycle < m.cycles && m.successes
            + m.failures.len() == m.cycle + 1,
        CycleStep::Finished => m.cycle == m.cycles && m.successes + m.failures.len() == m.cycles,
    }
}

impl OpenClose {
    /// Begins the test with so many cycles.
    pub fn new(cycles: u32) -> (r: Self)
        ensures
            r@ == cycles_start(cycles),
            cycles_ok(r@),
    {
        let r = OpenClose {
            cycles,
            cycle: 0,
            step: if cycles > 0 {
                CycleStep::Open
            } else {
                CycleStep::Finished
            },
            successes: 0,
            failures: Vec::new(),
        };
        proof {
            assert(r.failures@ =~= Seq::empty());
        }
        r
    }

    fn next_cycle(&mut self)
        requires
            old(self).cycle < old(self).cycles,
        ensures
            final(self)@ == at_cycle(old(self)@, old(self).cycle + 1),
    {
        self.cycle = self.cycle + 1;
        self.step = if self.cycle < self.cycles {
            CycleStep::Open
        } else {
            CycleStep::Finished
        };
    }

    /// Takes what came of the step.
    pub fn reply(&mut self, reply: CycleReply)
        requires
            cycles_ok(old(self)@),
        ensures
            final(self)@ == after_cycle_step(old(self)@, reply),
            cycles_ok(final(self)@),
    {
        match self.step {
            CycleStep::Open => match reply {
                CycleReply::Done => {
                    self.step = CycleStep::QueryCaps;
                },
                CycleReply::Failed(error) => {
                    self.failures.push(
                        CycleFailure { cycle: self.cycle, phase: CyclePhase::Open, error },
                    );
                    self.step = CycleStep::Reset;
                },
            },
            CycleStep::QueryCaps => match reply {
                CycleReply::Done => {
                    self.successes = self.successes + 1;
                    self.step = CycleStep::Close;
                },
                CycleReply::Failed(error) => {
                    self.failures.push(
                        CycleFailure { cycle: self.cycle, phase: CyclePhase::QueryCaps, error },
                    );
                    self.step = CycleStep::Close;
                },
            },
            CycleStep::Close => {
                self.next_cycle();
            },
            CycleStep::Reset => match reply {
                CycleReply::Done => {
                    self.step = CycleStep::Settle;
                },
                CycleReply::Failed(_) => {
                    self.next_cycle();
                },
            },
            CycleStep::Settle => {
                self.next_cycle();
            },
            CycleStep::Finished => {},
        }
    }

    /// What the test concludes: it passes where no cycle failed.
    pub fn test_open_close(&self) -> (r: Result<TestDetails, String>)
        ensures
            if self.failures@.len() == 0 {
                r == Ok::<TestDetails, String>(
                    TestDetails::OpenClose { cycles: self.cycles, successes: self.successes },
                )
            } else {
                r matches Err(words) && words@ == text::decimal(self.failures@.len()) + " of "@
                    + text::decimal(self.cycles as nat) + " open/close cycles failed"@
            },
    {
        if self.failures.len() == 0 {
            Ok(TestDetails::OpenClose { cycles: self.cycles, successes: self.successes })
        } else {
            let mut words = text::decimal_text(self.failures.len() as u64);
            words.append(" of ");
            push_decimal(&mut words, self.cycles as u64);
            words.append(" open/close cycles failed");
            Err(words)
        }
    }
}

// ---------------------------------------------------------------------------------------------
// Control round trip
// ---------------------------------------------------------------------------------------------

/// What is to be done with the control of the round trip: set it to the test value, read it back,
/// and set it to its original value again.
#[derive(Debug, Clone)]
pub struct RoundTripPlan {
    pub control: String,
    pub id: u32,
    pub original: i64,
    pub test_value: i64,
}

/// The value in the middle of the range of a control. Half of an odd range is rounded towards the
/// minimum.
pub open spec fn middle(c: ControlValue) -> int {
    if c.minimum <= c.maximum {
        c.minimum + (c.maximum - c.minimum) / 2
    } else {
        c.minimum - (c.minimum - c.maximum) / 2
    }
}

/// Whether a control is the one of the round trip.
pub open spec fn is_brightness() -> spec_fn(ControlValue) -> bool {
    |c: ControlValue| c.name@ == "brightness"@
}

/// The plan of the round trip: the brightness is safe to modify and restore. A device without it
/// has none.
pub fn plan_roundtrip(controls: &Vec<ControlValue>) -> (r: Option<RoundTripPlan>)
    ensures
        ({
            let i = seqs::first_index(controls@, is_brightness());
            if i < controls@.len() {
                r matches Some(plan) && plan.control@ == "brightness"@ && plan.id
                    == controls@[i].id && plan.original == controls@[i].value && plan.test_value
                    == middle(controls@[i])
            } else {
                r is None
            }
        }),
{
    for i in 0..controls.len()
        invariant
            forall|j: int| 0 <= j < i ==> !is_brightness()(#[trigger] controls@[j]),
    {
        let c = &controls[i];
        if text_eq(c.name.as_str(), "brightness") {
            proof {
                seqs::lemma_first_index(controls@, is_brightness(), i as int);
            }
            let minimum: i128 = c.minimum as i128;
            let maximum: i128 = c.maximum as i128;
            let test_value: i64 = if minimum <= maximum {
                let half: u128 = (maximum - minimum) as u128 / 2;
                (minimum + half as i128) as i64
            } else {
                let half: u128 = (minimum - maximum) as u128 / 2;
                (minimum - half as i128) as i64
            };
            return Some(
                RoundTripPlan {
                    control: c.name.clone(),
                    id: c.id,
                    original: c.value,
                    test_value,
                },
            );
        }
    }
    proof {
        seqs::lemma_first_index(controls@, is_brightness(), controls@.len() as int);
    }
    None
}

/// The two values that the control is set to, as they fit the kernel's field: the test value, and
/// then the original value.
pub fn roundtrip_values(plan: &RoundTripPlan) -> (r: (i32, i32))
    ensures
        r.0 == v4l2::low_half(plan.test_value),
        r.1 == v4l2::low_half(plan.original),
{
    (control_field(plan.test_value), control_field(plan.original))
}

/// How the control came through: whether it could be set, what was read back, where it could be
/// read, and whether it could be restored.
pub fn test_control_roundtrip(
    plan: &RoundTripPlan,
    set_ok: bool,
    readback: Option<i64>,
    restored: bool,
) -> (r: RoundTrip)
    ensures
        r.control@ == plan.control@,
        r.original == plan.original,
        r.test_value == plan.test_value,
        r.set_ok == set_ok,
        r.readback == match readback {
            Some(value) => value as int,
            None => -1,
        },
        r.readback_matches == (r.readback == plan.test_value),
        r.restored == restored,
{
    let value: i64 = match readback {
        Some(value) => value,
        None => -1,
    };
    RoundTrip {
        control: plan.control.clone(),
        original: plan.original,
        test_value: plan.test_value,
        set_ok,
        readback: value,
        readback_matches: value == plan.test_value,
        restored,
    }
}

// ---------------------------------------------------------------------------------------------
// Stream stability
// ---------------------------------------------------------------------------------------------

/// The pause after each check of the stability test.
pub const STABILITY_PAUSE_MS: u64 = 1000;

/// The counts of the stability test.
#[derive(Debug, Clone, Copy, PartialEq, Eq, Structural)]
pub struct Stability {
    /// How often the device responded.
    pub checks: u32,
    /// How often it did not.
    pub failures: u32,
}

impl Stability {
    /// No check was made yet.
    pub fn new() -> (r: Self)
        ensures
            r == (Stability { checks: 0, failures: 0 }),
    {
        Stability { checks: 0, failures: 0 }
    }

    /// Whether another check is made, after so much time of a test that lasts so long.
    pub fn goes_on(&self, elapsed_ns: u128, duration_ns: u128) -> (r: bool)
        ensures
            r == (elapsed_ns < duration_ns),
    {
        elapsed_ns < duration_ns
    }

    /// Counts one check.
    pub fn record(self, responded: bool) -> (r: Self)
        requires
            self.checks + self.failures < u32::MAX,
        ensures
            r == if responded {
                Stability { checks: (self.checks + 1) as u32, ..self }
            } else {
                Stability { failures: (self.failures + 1) as u32, ..self }
            },
    {
        if responded {
            Stability { checks: self.checks + 1, failures: self.failures }
        } else {
            Stability { checks: self.checks, failures: self.failures + 1 }
        }
    }

    /// What the test concludes: it passes where the device always responded.
    pub fn test_stream_stability(&self, duration_secs: u64) -> (r: Result<TestDetails, String>)
        requires
            self.checks + self.failures <= u32::MAX,
        ensures
            if self.failures == 0 {
                r == Ok::<TestDetails, String>(
                    TestDetails::Stability { duration_secs, checks: self.checks },
                )
            } else {
                r matches Err(words) && words@ == "Device became unresponsive "@ + text::decimal(
                    self.failures as nat,
                ) + " times during "@ + text::decimal((self.checks + self.failures) as nat)
                    + " checks"@
            },
    {
        if self.failures == 0 {
            Ok(TestDetails::Stability { duration_secs, checks: self.checks })
        } else {
            let mut words = "Device became unresponsive ".to_owned();
            push_decimal(&mut words, self.failures as u64);
            words.append(" times during ");
            push_decimal(&mut words, (self.checks + self.failures) as u64);
            words.append(" checks");
            Err(words)
        }
    }
}

// ---------------------------------------------------------------------------------------------
// USB topology, kernel modules and recovery
// ---------------------------------------------------------------------------------------------

/// The message where the camera is not in sysfs.
pub const NOT_IN_SYSFS: &'static str = "Facecam not found in sysfs";

/// Whether a speed is at least that of USB 3.0.
pub open spec fn is_super_speed(speed: Option<String>) -> bool {
    speed matches Some(s) && (text::occurs_in(s@, "5000"@) || text::occurs_in(s@, "10000"@)
        || text::occurs_in(s@, "20000"@))
}

/// The topology test passes where the camera is on USB 3.0 or better.
pub fn test_usb_topology(topology: &UsbTopology) -> (r: Result<TestDetails, String>)
    ensures
        if is_super_speed(topology.speed) {
            r == Ok::<TestDetails, String>(
                TestDetails::Topology {
                    sysfs_path: topology.sysfs_path,
                    speed: topology.speed,
                    usb_version: topology.version,
                },
            )
        } else {
            r matches Err(words) && words@ == "Device not on USB 3.0+ (speed: "@
                + text::opt_text_form(topology.speed) + "). USB 3.0 is required."@
        },
{
    let speed_ok = match &topology.speed {
        Some(s) => contains(s.as_str(), "5000") || contains(s.as_str(), "10000") || contains(
            s.as_str(),
            "20000",
        ),
        None => false,
    };
    if speed_ok {
        Ok(
            TestDetails::Topology {
                sysfs_path: topology.sysfs_path.clone(),
                speed: clone_opt(&topology.speed),
                usb_version: clone_opt(&topology.version),
            },
        )
    } else {
        let mut words = "Device not on USB 3.0+ (speed: ".to_owned();
        push_opt_text(&mut words, &topology.speed);
        words.append("). USB 3.0 is required.");
        Err(words)
    }
}

/// The issue where v4l2loopback is missing.
pub const NO_LOOPBACK: &'static str =
    "v4l2loopback module not loaded (required for normalization pipeline)";

/// The module test passes where uvcvideo is loaded. A missing v4l2loopback is noted as an issue.
pub fn test_kernel_modules(info: KernelModuleInfo) -> (r: Result<TestDetails, String>)
    ensures
        if info.uvcvideo_loaded {
            r matches Ok(TestDetails::Modules { info: i, issues }) && i == info && text::views(
                issues@,
            ) == if info.v4l2loopback_loaded {
                Seq::empty()
            } else {
                seq![NO_LOOPBACK@]
            }
        } else {
            r matches Err(words) && words@ == "uvcvideo kernel module not loaded"@
        },
{
    if !info.uvcvideo_loaded {
        return Err("uvcvideo kernel module not loaded".to_owned());
    }
    let mut issues: Vec<String> = Vec::new();
    proof {
        assert(text::views(issues@) =~= Seq::empty());
    }
    if !info.v4l2loopback_loaded {
        issues.push(NO_LOOPBACK.to_owned());
        proof {
            assert(text::views(issues@) =~= seq![NO_LOOPBACK@]);
        }
    }
    Ok(TestDetails::Modules { info, issues })
}

/// Whether the recovery can be tested: the camera has to be connected.
pub fn recovery_precheck(before: &DevicePresence) -> (r: Result<(), String>)
    ensures
        if before.connected {
            r == Ok::<(), String>(())
        } else {
            r matches Err(words) && words@ == "Facecam not connected — cannot test recovery"@
        },
{
    if before.connected {
        Ok(())
    } else {
        Err("Facecam not connected — cannot test recovery".to_owned())
    }
}

/// The recovery test passes where the camera is connected again after the reset.
pub fn test_usb_recovery(reset_success: bool, after: &DevicePresence) -> (r: Result<
    TestDetails,
    String,
>)
    ensures
        if after.connected {
            r == Ok::<TestDetails, String>(
                TestDetails::Recovery {
                    reset_success,
                    device_recovered: true,
                    device_authorized: after.authorized,
                },
            )
        } else {
            r matches Err(words) && words@ == "Device did not re-appear after USB reset"@
        },
{
    if after.connected {
        Ok(
            TestDetails::Recovery {
                reset_success,
                device_recovered: true,
                device_authorized: after.authorized,
            },
        )
    } else {
        Err("Device did not re-appear after USB reset".to_owned())
    }
}

// ---------------------------------------------------------------------------------------------
// Streaming on the Pro
// ---------------------------------------------------------------------------------------------

/// How long a frame is waited for.
pub const FRAME_WAIT_MS: u64 = 1000;

/// What a streaming test is to do next.
#[derive(Debug, Clone)]
pub enum StreamStep {
    /// Start a session, in this attempt.
    Start { attempt: u32 },
    /// Wait for a frame; so many were waited for before, and so many came.
    Frame { attempt: u32, tried: u32, received: u32 },
    /// Stop the session; so many frames came.
    Stop { attempt: u32, received: u32 },
    /// Enough frames came in this attempt.
    Passed { attempt: u32, received: u32 },
    /// Too few frames came in the second attempt too.
    TooFew { received: u32 },
    /// A session could not be started; the words of the error.
    NoSession(String),
}

/// What came of it.
#[derive(Debug, Clone)]
pub enum StreamReply {
    Done,
    Failed(String),
}

/// A streaming test: it waits for so many frames and needs so many of them, and has two attempts.
/// The first STREAMON of the Pro after an open returns no frames roughly half the time; a second
/// one does.
#[derive(Debug, Clone)]
pub struct StreamTest {
    pub frames: u32,
    pub needed: u32,
    pub step: StreamStep,
}

/// The step after one was made.
pub open spec fn after_stream_step(t: StreamTest, reply: StreamReply) -> StreamStep {
    match t.step {
        StreamStep::Start { attempt } => match reply {
            StreamReply::Done => StreamStep::Frame { attempt, tried: 0, received: 0 },
            StreamReply::Failed(words) => StreamStep::NoSession(words),
        },
        StreamStep::Frame { attempt, tried, received } => {
            let received = (received + if reply is Done {
                1int
            } else {
                0int
            }) as u32;
            if tried + 1 < t.frames {
                StreamStep::Frame { attempt, tried: (tried + 1) as u32, received }
            } else {
                StreamStep::Stop { attempt, received }
            }
        },
        StreamStep::Stop { attempt, received } => if received >= t.needed {
            StreamStep::Passed { attempt, received }
        } else if attempt == 1 {
            StreamStep::Start { attempt: 2 }
        } else {
            StreamStep::TooFew { received }
        },
        other => other,
    }
}

/// What holds of a streaming test in every state: there are one or two attempts, no more frames
/// come than are waited for, and what is concluded fits the count.
pub open spec fn stream_ok(t: StreamTest) -> bool {
    &&& t.frames > 0
    &&& match t.step {
        StreamStep::Start { attempt } => 1 <= attempt <= 2,
        StreamStep::Frame { attempt, tried, received } => 1 <= attempt <= 2 && received <= tried
            < t.frames,
        StreamStep::Stop { attempt, received } => 1 <= attempt <= 2 && received <= t.frames,
        StreamStep::Passed { attempt, received } => 1 <= attempt <= 2 && t.needed <= received
            <= t.frames,
        StreamStep::TooFew { received } => received < t.needed,
        StreamStep::NoSession(_) => true,
    }
}

impl StreamTest {
    /// The test of a format on the Pro: at least three of five frames have to come.
    pub fn format_probe() -> (r: Self)
        ensures
            r == (StreamTest { frames: 5, needed: 3, step: StreamStep::Start { attempt: 1 } }),
            stream_ok(r),
    {
        StreamTest { frames: 5, needed: 3, step: StreamStep::Start { attempt: 1 } }
    }

    /// The test of the stream start on the Pro: one frame has to come.
    pub fn stream_start() -> (r: Self)
        ensures
            r == (StreamTest { frames: 1, needed: 1, step: StreamStep::Start { attempt: 1 } }),
            stream_ok(r),
    {
        StreamTest { frames: 1, needed: 1, step: StreamStep::Start { attempt: 1 } }
    }

    /// Takes what came of the step.
    pub fn reply(self, reply: StreamReply) -> (r: Self)
        requires
            stream_ok(self),
        ensures
            r == (StreamTest { step: after_stream_step(self, reply), ..self }),
            stream_ok(r),
    {
        let StreamTest { frames, needed, step } = self;
        let step = match step {
            StreamStep::Start { attempt } => match reply {
                StreamReply::Done => StreamStep::Frame { attempt, tried: 0, received: 0 },
                StreamReply::Failed(words) => StreamStep::NoSession(words),
            },
            StreamStep::Frame { attempt, tried, received } => {
                let received: u32 = match reply {
                    StreamReply::Done => received + 1,
                    StreamReply::Failed(_) => received,
                };
                if tried + 1 < frames {
                    StreamStep::Frame { attempt, tried: tried + 1, received }
                } else {
                    StreamStep::Stop { attempt, received }
                }
            },
            StreamStep::Stop { attempt, received } => if received >= needed {
                StreamStep::Passed { attempt, received }
            } else if attempt == 1 {
                StreamStep::Start { attempt: 2 }
            } else {
                StreamStep::TooFew { received }
            },
            StreamStep::Passed { attempt, received } => StreamStep::Passed { attempt, received },
            StreamStep::TooFew { received } => StreamStep::TooFew { received },
            StreamStep::NoSession(words) => StreamStep::NoSession(words),
        };
        StreamTest { frames, needed, step }
    }

    /// What the test of a format concludes, once it is over.
    pub fn probe_pro_format_with_recovery(&self, format: PixelFormat, width: u32, height: u32) -> (r:
        Option<Result<TestDetails, String>>)
        ensures
            match self.step {
                StreamStep::Passed { attempt, received } => r == Some(
                    Ok::<TestDetails, String>(
                        TestDetails::ProFormat {
                            format,
                            frames_received: received,
                            attempts: attempt,
                        },
                    ),
                ),
                StreamStep::TooFew { received } => r matches Some(Err(words)) && words@
                    == formats::format_text(format) + " probe at "@ + text::decimal(width as nat)
                    + "x"@ + text::decimal(height as nat) + " failed both attempts (got "@
                    + text::decimal(received as nat) + " frames on attempt 2)"@,
                StreamStep::NoSession(cause) => r matches Some(Err(words)) && words@ == cause@,
                _ => r is None,
            },
    {
        match &self.step {
            StreamStep::Passed { attempt, received } => Some(
                Ok(
                    TestDetails::ProFormat {
                        format,
                        frames_received: *received,
                        attempts: *attempt,
                    },
                ),
            ),
            StreamStep::TooFew { received } => {
                let mut words = format.to_text();
                words.append(" probe at ");
                push_decimal(&mut words, width as u64);
                words.append("x");
                push_decimal(&mut words, height as u64);
                words.append(" failed both attempts (got ");
                push_decimal(&mut words, *received as u64);
                words.append(" frames on attempt 2)");
                Some(Err(words))
            },
            StreamStep::NoSession(cause) => Some(Err(cause.clone())),
            _ => None,
        }
    }

    /// What the test of the stream start concludes, once it is over.
    pub fn test_pro_stream_start_recovery(&self, elapsed_ms: u128) -> (r: Option<
        Result<TestDetails, String>,
    >)
        ensures
            match self.step {
                StreamStep::Passed { attempt, .. } => r == Some(
                    Ok::<TestDetails, String>(
                        TestDetails::StreamStart { attempts: attempt, elapsed_ms },
                    ),
                ),
                StreamStep::TooFew { .. } => r matches Some(Err(words)) && words@
                    == "two MJPG STREAMON attempts both failed to produce a frame"@,
                StreamStep::NoSession(cause) => r matches Some(Err(words)) && words@ == cause@,
                _ => r is None,
            },
    {
        match &self.step {
            StreamStep::Passed { attempt, .. } => Some(
                Ok(TestDetails::StreamStart { attempts: *attempt, elapsed_ms }),
            ),
            StreamStep::TooFew { .. } => Some(
                Err("two MJPG STREAMON attempts both failed to produce a frame".to_owned()),
            ),
            StreamStep::NoSession(cause) => Some(Err(cause.clone())),
            _ => None,
        }
    }
}

// ---------------------------------------------------------------------------------------------
// Laws
// ---------------------------------------------------------------------------------------------

/// The state of the open/close test after a list of replies.
pub open spec fn after_cycle_steps(m: CyclesModel, replies: Seq<CycleReply>) -> CyclesModel
    decreases replies.len(),
{
    if replies.len() == 0 {
        m
    } else {
        after_cycle_step(after_cycle_steps(m, replies.drop_last()), replies.last())
    }
}

/// Whatever the device does, each cycle counts exactly once, as a success or as a failure; when the
/// test is finished there are as many of both together as there are cycles.
pub proof fn every_cycle_counts_once(cycles: u32, replies: Seq<CycleReply>)
    ensures
        cycles_ok(after_cycle_steps(cycles_start(cycles), replies)),
        ({
            let m = after_cycle_steps(cycles_start(cycles), replies);
            m.step is Finished ==> m.successes + m.failures.len() == cycles
        }),
    decreases replies.len(),
{
    if replies.len() > 0 {
        every_cycle_counts_once(cycles, replies.drop_last());
    }
    lemma_cycles_kept(cycles, replies);
}

proof fn lemma_cycles_kept(cycles: u32, replies: Seq<CycleReply>)
    ensures
        after_cycle_steps(cycles_start(cycles), replies).cycles == cycles,
    decreases replies.len(),
{
    if replies.len() > 0 {
        lemma_cycles_kept(cycles, replies.drop_last());
    }
}

/// The device is only reset after it could not be opened.
pub proof fn resets_follow_failed_opens(m: CyclesModel, reply: CycleReply)
    requires
        m.step != CycleStep::Reset,
        after_cycle_step(m, reply).step == CycleStep::Reset,
    ensures
        m.step == CycleStep::Open,
        reply is Failed,
{
}

/// The test value of the round trip lies in the range of the control.
pub proof fn test_value_is_in_range(c: ControlValue)
    requires
        c.minimum <= c.maximum,
    ensures
        c.minimum <= middle(c) <= c.maximum,
{
}

/// A streaming test that passed received as many frames as it needs; one that failed for want of
/// frames had two attempts.
pub proof fn streams_pass_on_enough_frames(t: StreamTest, reply: StreamReply)
    requires
        stream_ok(t),
    ensures
        after_stream_step(t, reply) matches StreamStep::Passed { received, .. } ==> received
            >= t.needed,
        after_stream_step(t, reply) is TooFew && !(t.step is TooFew) ==> (t.step
            matches StreamStep::Stop { attempt, .. } && attempt == 2),
{
}

/// The value that a control is tested with lies half-way between the ends of its range, whichever of
/// them is larger.
pub proof fn test_values_lie_half_way(c: ControlValue)
    ensures
        c.minimum <= c.maximum ==> 2 * middle(c) <= c.minimum + c.maximum <= 2 * middle(c) + 1,
        c.minimum > c.maximum ==> 2 * middle(c) - 1 <= c.minimum + c.maximum <= 2 * middle(c),
{
}

/// A format counts as broken where it is NV12 or YU12 on the original Facecam: one more format adds one
/// to the count or nothing.
pub proof fn broken_formats_are_counted(
    all: Seq<FormatDescription>,
    f: FormatDescription,
    product: ElgatoProduct,
    firmware: FirmwareVersion,
)
    ensures
        broken_among(all.push(f), product, firmware, all.len() + 1) == broken_among(
            all,
            product,
            firmware,
            all.len(),
        ) + if product == ElgatoProduct::Facecam && (f.pixel_format == PixelFormat::Nv12
            || f.pixel_format == PixelFormat::Yu12) {
            1nat
        } else {
            0nat
        },
        broken_among(Seq::empty(), product, firmware, 0) == 0,
{
    quirks::broken_formats(product, firmware, f.pixel_format);
    lemma_same_count(all, f, product, firmware, all.len());
}

proof fn lemma_same_count(
    all: Seq<FormatDescription>,
    f: FormatDescription,
    product: ElgatoProduct,
    firmware: FirmwareVersion,
    n: nat,
)
    requires
        n <= all.len(),
    ensures
        broken_among(all.push(f), product, firmware, n) == broken_among(all, product, firmware, n),
    decreases n,
{
    if n > 0 {
        lemma_same_count(all, f, product, firmware, (n - 1) as nat);
    }
}

/// A negotiation is reported under the letters of its format, with what the device answered, and as
/// reliable unless the format is broken on the product.
pub proof fn negotiations_are_reported(
    n: FormatNegotiation,
    f: FormatDescription,
    ok: bool,
    product: ElgatoProduct,
    firmware: FirmwareVersion,
)
    requires
        negotiated(n, f, ok, product, firmware),
    ensures
        n.format@ == formats::format_text(f.pixel_format),
        n.negotiation_ok == ok,
        n.expected_reliable <==> !(product == ElgatoProduct::Facecam && (f.pixel_format
            == PixelFormat::Nv12 || f.pixel_format == PixelFormat::Yu12)),
{
    quirks::broken_formats(product, firmware, f.pixel_format);
}

/// A cycle that opens the device and asks for its capabilities is a success. One that cannot open it
/// is a failure of this cycle, and the device is reset; one that cannot ask is a failure too, and the
/// device is only closed. Each of them goes on to the next cycle, and the last one ends the test.
pub proof fn cycles_open_ask_and_close(m: CyclesModel, error: String, reply: CycleReply)
    requires
        m.step is Open,
        cycles_ok(m),
    ensures
        ({
            let asked = after_cycle_step(m, CycleReply::Done);
            let good = after_cycle_step(asked, CycleReply::Done);
            let mute = after_cycle_step(asked, CycleReply::Failed(error));
            let shut = after_cycle_step(m, CycleReply::Failed(error));
            let next = if m.cycle + 1 < m.cycles {
                CycleStep::Open
            } else {
                CycleStep::Finished
            };
            &&& asked.step is QueryCaps && good.step is Close && mute.step is Close && shut.step
                is Reset
            &&& good.successes == m.successes + 1 && good.failures == m.failures
            &&& mute.successes == m.successes && mute.failures == m.failures.push(
                CycleFailure { cycle: m.cycle, phase: CyclePhase::QueryCaps, error },
            )
            &&& shut.successes == m.successes && shut.failures == m.failures.push(
                CycleFailure { cycle: m.cycle, phase: CyclePhase::Open, error },
            )
            &&& after_cycle_step(good, reply).step == next && after_cycle_step(good, reply).cycle
                == m.cycle + 1
            &&& after_cycle_step(shut, CycleReply::Failed(error)).step == next
            &&& after_cycle_step(shut, CycleReply::Done).step is Settle
            &&& after_cycle_step(after_cycle_step(shut, CycleReply::Done), reply).step == next
        }),
        CYCLE_PAUSE_MS == 100 && CYCLE_RESET_PAUSE_MS == 2000,
{
}

/// How many of the answers are frames.
pub open spec fn frames_among(replies: Seq<StreamReply>) -> nat
    decreases replies.len(),
{
    if replies.len() == 0 {
        0
    } else {
        frames_among(replies.drop_last()) + if replies.last() is Done {
            1nat
        } else {
            0nat
        }
    }
}

/// The step of a streaming test after some answers.
pub open spec fn after_stream_steps(t: StreamTest, replies: Seq<StreamReply>) -> StreamStep
    decreases replies.len(),
{
    if replies.len() == 0 {
        t.step
    } else {
        after_stream_step(
            StreamTest { step: after_stream_steps(t, replies.drop_last()), ..t },
            replies.last(),
        )
    }
}

/// An attempt that starts waits for all its frames and counts those that come. It passes where as many
/// came as are needed; otherwise there is a second attempt, and after that one the test fails with the
/// number of frames that came.
pub proof fn attempts_count_their_frames(
    t: StreamTest,
    attempt: u32,
    replies: Seq<StreamReply>,
    reply: StreamReply,
)
    requires
        t.step == (StreamStep::Start { attempt }),
        1 <= attempt <= 2,
        t.frames > 0,
        replies.len() == t.frames,
    ensures
        ({
            let started = StreamTest { step: after_stream_step(t, StreamReply::Done), ..t };
            let end = after_stream_steps(started, replies);
            let verdict = after_stream_step(StreamTest { step: end, ..t }, reply);
            &&& end == (StreamStep::Stop { attempt, received: frames_among(replies) as u32 })
            &&& frames_among(replies) >= t.needed ==> verdict == (StreamStep::Passed {
                attempt,
                received: frames_among(replies) as u32,
            })
            &&& frames_among(replies) < t.needed && attempt == 1 ==> verdict == (StreamStep::Start {
                attempt: 2,
            })
            &&& frames_among(replies) < t.needed && attempt == 2 ==> verdict == (StreamStep::TooFew {
                received: frames_among(replies) as u32,
            })
        }),
{
    let started = StreamTest { step: after_stream_step(t, StreamReply::Done), ..t };
    lemma_frames_are_counted(started, attempt, replies);
}

proof fn lemma_frames_are_counted(t: StreamTest, attempt: u32, replies: Seq<StreamReply>)
    requires
        t.step == (StreamStep::Frame { attempt, tried: 0, received: 0 }),
        replies.len() <= t.frames,
        t.frames > 0,
    ensures
        frames_among(replies) <= replies.len(),
        replies.len() < t.frames ==> after_stream_steps(t, replies) == (StreamStep::Frame {
            attempt,
            tried: replies.len() as u32,
            received: frames_among(replies) as u32,
        }),
        replies.len() == t.frames ==> after_stream_steps(t, replies) == (StreamStep::Stop {
            attempt,
            received: frames_among(replies) as u32,
        }),
    decreases replies.len(),
{
    if replies.len() > 0 {
        lemma_frames_are_counted(t, attempt, replies.drop_last());
    }
}

/// A session that does not start ends the test with its words.
pub proof fn sessions_that_do_not_start_end_the_test(t: StreamTest, attempt: u32, words: String)
    requires
        t.step == (StreamStep::Start { attempt }),
    ensures
        after_stream_step(t, StreamReply::Failed(words)) == StreamStep::NoSession(words),
{
}

/// A bus is fast where its speed names five, ten or twenty thousand megabits, whatever stands around
/// the number; a bus of unknown speed is not.
pub proof fn fast_speeds_name_thousands(speed: String, before: Seq<char>, behind: Seq<char>)
    ensures
        speed@ == before + "5000"@ + behind || speed@ == before + "10000"@ + behind || speed@ == before
            + "20000"@ + behind ==> is_super_speed(Some(speed)),
        is_super_speed(Some(speed)) ==> speed@.len() >= 4,
        !is_super_speed(None),
{
    text::occurrences_have_surroundings(before, "5000"@, behind);
    text::occurrences_have_surroundings(before, "10000"@, behind);
    text::occurrences_have_surroundings(before, "20000"@, behind);
    reveal_strlit("5000");
    reveal_strlit("10000");
    reveal_strlit("20000");
    if is_super_speed(Some(speed)) {
        let s = speed@;
        assert(forall|i: int|
            0 <= i <= s.len() ==> (#[trigger] s.skip(i)).len() == s.len() - i);
    }
}

/// A format is offered where it was described; one more description offers its own format.
pub proof fn described_formats_are_offered(
    all: Seq<FormatDescription>,
    f: FormatDescription,
    format: PixelFormat,
)
    ensures
        offers(all.push(f), format) <==> offers(all, format) || f.pixel_format == format,
        !offers(Seq::empty(), format),
{
    let more = all.push(f);
    assert(more[all.len() as int] == f);
    if offers(all, format) {
        let i = choose|i: int| 0 <= i < all.len() && (#[trigger] all[i]).pixel_format == format;
        assert(more[i] == all[i]);
    }
    if offers(more, format) && f.pixel_format != format {
        let i = choose|i: int| 0 <= i < more.len() && (#[trigger] more[i]).pixel_format == format;
        assert(more[i] == all[i]);
    }
}

/// The devices that a test lists are those that were found, in order.
pub proof fn listed_devices_agree(a: Seq<DeviceFingerprint>, b: Seq<DeviceFingerprint>, i: int)
    requires
        same_devices(a, b),
        0 <= i < b.len(),
    ensures
        a.len() == b.len(),
        a[i].product == b[i].product && a[i].firmware == b[i].firmware && a[i].serial == b[i].serial,
        a[i].usb_bus == b[i].usb_bus && a[i].usb_address == b[i].usb_address,
        a[i].v4l2_device == b[i].v4l2_device,
{
    assert(a[i].same_as(b[i]));
}

/// The open/close test shows its own counts.
pub proof fn counts_are_shown(t: OpenClose, c: ControlValue)
    ensures
        t@.cycles == t.cycles && t@.cycle == t.cycle && t@.successes == t.successes && t@.failures
            == t.failures@,
        is_brightness()(c) <==> c.name@ == "brightness"@,
{
}

} // verus!
