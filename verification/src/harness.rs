//! The compatibility harness: its tests, what they find, and how it is reported.

use crate::clock::{self, stamped_name};
use crate::device::{
    self, DeviceFingerprint, ElgatoProduct, FirmwareVersion, ProductDescriptor, UsbSpeed,
};
use crate::diagnostics::{self, data_directory, KernelModuleInfo, SystemInfo};
use crate::formats::PixelFormat;
use crate::pipeline::{self, UDEV_LINK};
use crate::seqs;
use crate::text::{
    self, chars_of, join, path_below, push_decimal, quoted,
    sorted, text_eq,
};
use crate::v4l2::FormatDescription;
use vstd::prelude::*;
use vstd::string::*;

verus! {

// ---------------------------------------------------------------------------------------------
// Results
// ---------------------------------------------------------------------------------------------

/// One cycle of the open/close test that failed.
#[derive(Debug, Clone)]
pub struct CycleFailure {
    pub cycle: u32,
    pub phase: CyclePhase,
    pub error: String,
}

/// The part of a cycle that failed.
#[derive(Debug, Clone, Copy, PartialEq, Eq, Structural)]
pub enum CyclePhase {
    Open,
    QueryCaps,
}

/// How one format was negotiated.
#[derive(Debug, Clone)]
pub struct FormatNegotiation {
    pub format: String,
    pub negotiation_ok: bool,
    pub expected_reliable: bool,
}

/// How a control came through a change and back.
#[derive(Debug, Clone)]
pub struct RoundTrip {
    pub control: String,
    pub original: i64,
    pub test_value: i64,
    pub set_ok: bool,
    pub readback: i64,
    pub readback_matches: bool,
    pub restored: bool,
}

/// What a test found.
#[derive(Debug, Clone)]
pub enum TestDetails {
    /// The test failed, and found nothing.
    Nothing,
    Devices(Vec<DeviceFingerprint>),
    Formats {
        formats: Vec<FormatDescription>,
        mode_count: usize,
        bogus_format_count: usize,
        has_yuyv: bool,
        has_mjpeg: bool,
    },
    Controls(Vec<String>),
    Negotiations(Vec<FormatNegotiation>),
    OpenClose { cycles: u32, successes: u32 },
    RoundTrips { roundtrip: Option<RoundTrip>, total_controls: usize },
    Stability { duration_secs: u64, checks: u32 },
    Topology { sysfs_path: String, speed: Option<String>, usb_version: Option<String> },
    Modules { info: KernelModuleInfo, issues: Vec<String> },
    Recovery { reset_success: bool, device_recovered: bool, device_authorized: bool },
    ProFormat { format: PixelFormat, frames_received: u32, attempts: u32 },
    StreamStart { attempts: u32, elapsed_ms: u128 },
}

/// Results from a single test
#[derive(Debug, Clone)]
pub struct TestResult {
    pub name: String,
    pub passed: bool,
    pub duration_ms: u64,
    pub details: TestDetails,
    pub error: Option<String>,
}

/// Results from a full test suite run
#[derive(Debug, Clone)]
pub struct SuiteResults {
    /// When the run started and ended, in seconds since the start of 1970.
    pub started_at: i64,
    pub completed_at: i64,
    pub device_path: String,
    pub system: SystemInfo,
    pub kernel_modules: KernelModuleInfo,
    pub tests: Vec<TestResult>,
    pub passed: usize,
    pub failed: usize,
    pub total: usize,
}

/// The result of a test that took so long and ended so.
pub fn run_test(name: &str, duration_ms: u64, outcome: Result<TestDetails, String>) -> (r: TestResult)
    ensures
        r.name@ == name@,
        r.duration_ms == duration_ms,
        match outcome {
            Ok(details) => r.passed && r.details == details && r.error is None,
            Err(words) => !r.passed && r.details is Nothing && r.error == Some(words),
        },
{
    match outcome {
        Ok(details) => TestResult {
            name: name.to_owned(),
            passed: true,
            duration_ms,
            details,
            error: None,
        },
        Err(words) => TestResult {
            name: name.to_owned(),
            passed: false,
            duration_ms,
            details: TestDetails::Nothing,
            error: Some(words),
        },
    }
}

// ---------------------------------------------------------------------------------------------
// The suite
// ---------------------------------------------------------------------------------------------

/// A test of the suite.
#[derive(Debug, Clone, Copy, PartialEq, Eq, Structural)]
pub enum TestId {
    DeviceDetection,
    FormatEnumeration,
    ControlEnumeration,
    FormatNegotiation,
    OpenCloseCycles,
    ControlRoundtrip,
    UsbTopology,
    KernelModules,
    ProH264Probe,
    ProNv12Recovers,
    ProStreamStartRecovery,
}

/// How often the suite opens and closes the device.
pub const SUITE_CYCLES: u32 = 5;

/// The name of a test.
pub open spec fn test_name(id: TestId) -> Seq<char> {
    match id {
        TestId::DeviceDetection => "device_detection"@,
        TestId::FormatEnumeration => "format_enumeration"@,
        TestId::ControlEnumeration => "control_enumeration"@,
        TestId::FormatNegotiation => "format_negotiation"@,
        TestId::OpenCloseCycles => "open_close_cycles"@,
        TestId::ControlRoundtrip => "control_roundtrip"@,
        TestId::UsbTopology => "usb_topology"@,
        TestId::KernelModules => "kernel_modules"@,
        TestId::ProH264Probe => "pro_h264_probe"@,
        TestId::ProNv12Recovers => "pro_nv12_recovers"@,
        TestId::ProStreamStartRecovery => "pro_stream_start_recovery"@,
    }
}

impl TestId {
    /// The name of the test.
    pub fn name(&self) -> (r: &'static str)
        ensures
            r@ == test_name(*self),
    {
        match self {
            TestId::DeviceDetection => "device_detection",
            TestId::FormatEnumeration => "format_enumeration",
            TestId::ControlEnumeration => "control_enumeration",
            TestId::FormatNegotiation => "format_negotiation",
            TestId::OpenCloseCycles => "open_close_cycles",
            TestId::ControlRoundtrip => "control_roundtrip",
            TestId::UsbTopology => "usb_topology",
            TestId::KernelModules => "kernel_modules",
            TestId::ProH264Probe => "pro_h264_probe",
            TestId::ProNv12Recovers => "pro_nv12_recovers",
            TestId::ProStreamStartRecovery => "pro_stream_start_recovery",
        }
    }
}

/// Whether a test runs on a product: a test for no product in particular runs on all.
pub open spec fn runs_on(product: ElgatoProduct, families: Seq<ElgatoProduct>) -> bool {
    families.len() == 0 || families.contains(product)
}

/// Returns true if the test should run on the resolved product.
/// Empty `families` means the test applies to every UVC capture product.
pub fn test_applies(product: ElgatoProduct, families: &Vec<ElgatoProduct>) -> (r: bool)
    ensures
        r == runs_on(product, families@),
{
    if families.len() == 0 {
        return true;
    }
    for i in 0..families.len()
        invariant
            families@.len() > 0,
            forall|j: int| 0 <= j < i ==> families@[j] != product,
    {
        if families[i] == product {
            return true;
        }
    }
    false
}

/// A test of the suite, and whether it runs or is skipped.
#[derive(Debug, Clone, Copy, PartialEq, Eq, Structural)]
pub struct PlannedTest {
    pub id: TestId,
    pub runs: bool,
}

/// The tests of the suite in order. The last three are for the Facecam Pro alone.
pub open spec fn suite(product: ElgatoProduct) -> Seq<PlannedTest> {
    let pro = runs_on(product, seq![ElgatoProduct::FacecamPro]);
    seq![
        PlannedTest { id: TestId::DeviceDetection, runs: true },
        PlannedTest { id: TestId::FormatEnumeration, runs: true },
        PlannedTest { id: TestId::ControlEnumeration, runs: true },
        PlannedTest { id: TestId::FormatNegotiation, runs: true },
        PlannedTest { id: TestId::OpenCloseCycles, runs: true },
        PlannedTest { id: TestId::ControlRoundtrip, runs: true },
        PlannedTest { id: TestId::UsbTopology, runs: true },
        PlannedTest { id: TestId::KernelModules, runs: true },
        PlannedTest { id: TestId::ProH264Probe, runs: pro },
        PlannedTest { id: TestId::ProNv12Recovers, runs: pro },
        PlannedTest { id: TestId::ProStreamStartRecovery, runs: pro },
    ]
}

/// The tests of the full suite on a product.
pub fn plan_suite(product: ElgatoProduct) -> (r: Vec<PlannedTest>)
    ensures
        r@ == suite(product),
{
    let mut pro_only: Vec<ElgatoProduct> = Vec::new();
    pro_only.push(ElgatoProduct::FacecamPro);
    proof {
        assert(pro_only@ =~= seq![ElgatoProduct::FacecamPro]);
    }
    let pro = test_applies(product, &pro_only);
    let mut plan: Vec<PlannedTest> = Vec::new();
    plan.push(PlannedTest { id: TestId::DeviceDetection, runs: true });
    plan.push(PlannedTest { id: TestId::FormatEnumeration, runs: true });
    plan.push(PlannedTest { id: TestId::ControlEnumeration, runs: true });
    plan.push(PlannedTest { id: TestId::FormatNegotiation, runs: true });
    plan.push(PlannedTest { id: TestId::OpenCloseCycles, runs: true });
    plan.push(PlannedTest { id: TestId::ControlRoundtrip, runs: true });
    plan.push(PlannedTest { id: TestId::UsbTopology, runs: true });
    plan.push(PlannedTest { id: TestId::KernelModules, runs: true });
    plan.push(PlannedTest { id: TestId::ProH264Probe, runs: pro });
    plan.push(PlannedTest { id: TestId::ProNv12Recovers, runs: pro });
    plan.push(PlannedTest { id: TestId::ProStreamStartRecovery, runs: pro });
    proof {
        assert(plan@ =~= suite(product));
    }
    plan
}

/// The line for a test that is skipped.
pub fn skip_line(id: TestId, product: ElgatoProduct) -> (r: String)
    ensures
        r@ == "  [SKIP] "@ + test_name(id) + " (does not apply to "@ + device::product_text(product)
            + ")\n"@,
{
    let mut out = "  [SKIP] ".to_owned();
    out.append(id.name());
    out.append(" (does not apply to ");
    out.append(product.to_text().as_str());
    out.append(")\n");
    out
}

/// How many of the first `n` tests passed.
pub open spec fn passed_in(tests: Seq<TestResult>, n: nat) -> nat
    decreases n,
{
    if n == 0 {
        0
    } else {
        passed_in(tests, (n - 1) as nat) + if tests[n - 1].passed {
            1nat
        } else {
            0nat
        }
    }
}

/// The results of a run of the suite: how many tests there were, how many passed and how many
/// failed.
pub fn suite_results(
    started_at: i64,
    completed_at: i64,
    device_path: String,
    system: SystemInfo,
    kernel_modules: KernelModuleInfo,
    tests: Vec<TestResult>,
) -> (r: SuiteResults)
    ensures
        r.started_at == started_at,
        r.completed_at == completed_at,
        r.device_path == device_path,
        r.system == system,
        r.kernel_modules == kernel_modules,
        r.tests == tests,
        r.passed == passed_in(tests@, tests@.len()),
        r.failed == tests@.len() - passed_in(tests@, tests@.len()),
        r.total == tests@.len(),
{
    let mut passed: usize = 0;
    let mut failed: usize = 0;
    for i in 0..tests.len()
        invariant
            passed == passed_in(tests@, i as nat),
            passed + failed == i,
    {
        if tests[i].passed {
            passed += 1;
        } else {
            failed += 1;
        }
    }
    let total: usize = tests.len();
    SuiteResults {
        started_at,
        completed_at,
        device_path,
        system,
        kernel_modules,
        tests,
        passed,
        failed,
        total,
    }
}

/// The word for the outcome of a test.
pub open spec fn outcome_word(passed: bool) -> Seq<char> {
    if passed {
        "PASS"@
    } else {
        "FAIL"@
    }
}

fn outcome_text(passed: bool) -> (r: &'static str)
    ensures
        r@ == outcome_word(passed),
{
    if passed {
        "PASS"
    } else {
        "FAIL"
    }
}

/// The lines of one result: its outcome, and its error where it failed. `indent` comes before the
/// first line, `error_indent` before the error.
pub open spec fn result_lines(t: TestResult, indent: Seq<char>, error_indent: Seq<char>) -> Seq<char> {
    indent + "["@ + outcome_word(t.passed) + "] "@ + t.name@ + " ("@ + text::decimal(
        t.duration_ms as nat,
    ) + "ms)\n"@ + (match t.error {
        Some(words) => error_indent + "Error: "@ + words@ + "\n"@,
        None => Seq::empty(),
    })
}

/// The lines of the first `n` results of a suite.
pub open spec fn suite_lines(tests: Seq<TestResult>, n: nat) -> Seq<char>
    decreases n,
{
    if n == 0 {
        Seq::empty()
    } else {
        suite_lines(tests, (n - 1) as nat) + result_lines(tests[n - 1], "  "@, "        "@)
    }
}

fn push_result(out: &mut String, t: &TestResult, indent: &str, error_indent: &str)
    ensures
        final(out)@ == old(out)@ + result_lines(*t, indent@, error_indent@),
{
    let ghost before = out@;
    out.append(indent);
    out.append("[");
    out.append(outcome_text(t.passed));
    out.append("] ");
    out.append(t.name.as_str());
    out.append(" (");
    push_decimal(out, t.duration_ms);
    out.append("ms)\n");
    if let Some(words) = &t.error {
        out.append(error_indent);
        out.append("Error: ");
        out.append(words.as_str());
        out.append("\n");
    }
    proof {
        assert(out@ =~= before + result_lines(*t, indent@, error_indent@));
    }
}

/// The report on a run of the suite.
pub fn suite_report(suite: &SuiteResults) -> (r: String)
    ensures
        r@ == "\n=== Results ===\n\n"@ + suite_lines(suite.tests@, suite.tests@.len()) + "\n  "@
            + text::decimal(suite.passed as nat) + "/"@ + text::decimal(suite.total as nat)
            + " passed, "@ + text::decimal(suite.failed as nat) + " failed\n"@,
{
    let mut out = "\n=== Results ===\n\n".to_owned();
    let ghost head = out@;
    proof {
        assert(head + suite_lines(suite.tests@, 0) =~= head);
    }
    for i in 0..suite.tests.len()
        invariant
            out@ == head + suite_lines(suite.tests@, i as nat),
    {
        push_result(&mut out, &suite.tests[i], "  ", "        ");
        proof {
            assert(out@ =~= head + suite_lines(suite.tests@, (i + 1) as nat));
        }
    }
    out.append("\n  ");
    push_decimal(&mut out, suite.passed as u64);
    out.append("/");
    push_decimal(&mut out, suite.total as u64);
    out.append(" passed, ");
    push_decimal(&mut out, suite.failed as u64);
    out.append(" failed\n");
    out
}

/// The report on a single test.
pub fn print_single_result(t: &TestResult) -> (r: String)
    ensures
        r@ == result_lines(*t, Seq::empty(), "  "@),
{
    let mut out = "".to_owned();
    push_result(&mut out, t, "", "  ");
    proof {
        reveal_strlit("");
        assert(""@ =~= Seq::empty());
        assert(Seq::<char>::empty() + result_lines(*t, Seq::empty(), "  "@) =~= result_lines(
            *t,
            Seq::empty(),
            "  "@,
        ));
    }
    out
}

// ---------------------------------------------------------------------------------------------
// Saved reports
// ---------------------------------------------------------------------------------------------

/// The path that a report is saved to at a point in time, in seconds since the start of 1970;
/// nothing where the calendar does not reach.
pub fn report_path(home: &Option<String>, secs: i64) -> (r: Option<String>)
    ensures
        match r {
            Some(path) => clock::utc_stamp(secs) is Some && path@ == text::below(
                diagnostics::data_dir(*home, "harness"@),
                clock::stamped("harness-"@, clock::utc_stamp(secs)->0, ".json"@),
            ),
            None => clock::utc_stamp(secs) is None,
        },
        0 <= secs <= 253_402_300_799 ==> r is Some,
{
    let dir = data_directory(home, "harness");
    match stamped_name("harness-", secs, ".json") {
        Some(name) => Some(path_below(dir.as_str(), name.as_str())),
        None => None,
    }
}

/// Whether a file name has the extension of a report: something, then `.json`.
pub open spec fn is_report(name: Seq<char>) -> bool {
    name.len() > 5 && name.skip(name.len() - 5) == seq!['.', 'j', 's', 'o', 'n']
}

/// The reports among the files of a directory.
pub open spec fn reports_among(names: Seq<Seq<char>>) -> Seq<Seq<char>>
    decreases names.len(),
{
    if names.len() == 0 {
        Seq::empty()
    } else {
        let before = reports_among(names.drop_last());
        if is_report(names.last()) {
            before.push(names.last())
        } else {
            before
        }
    }
}

fn report_name(name: &str) -> (r: bool)
    ensures
        r == is_report(name@),
{
    let c = chars_of(name);
    let n: usize = c.len();
    if n > 5 && c[n - 5] == '.' && c[n - 4] == 'j' && c[n - 3] == 's' && c[n - 2] == 'o' && c[n
        - 1] == 'n' {
        proof {
            assert(name@.skip(name@.len() - 5) =~= seq!['.', 'j', 's', 'o', 'n']);
        }
        true
    } else {
        proof {
            if name@.len() > 5 && name@.skip(name@.len() - 5) == seq!['.', 'j', 's', 'o', 'n'] {
                let tail = name@.skip(name@.len() - 5);
                assert(tail[0] == c@[n - 5] && tail[1] == c@[n - 4] && tail[2] == c@[n - 3]
                    && tail[3] == c@[n - 2] && tail[4] == c@[n - 1]);
            }
        }
        false
    }
}

/// The names of the saved reports, in order: the last one is the latest. `names` are the files of
/// the directory.
pub fn saved_reports(names: &Vec<String>) -> (r: Vec<String>)
    ensures
        text::views(r@) == text::in_order(reports_among(text::views(names@))),
{
    let mut reports: Vec<String> = Vec::new();
    proof {
        assert(text::views(reports@) =~= Seq::empty());
    }
    for i in 0..names.len()
        invariant
            text::views(reports@) == reports_among(text::views(names@).take(i as int)),
    {
        broadcast use text::lemma_views_push;

        let ghost all = text::views(names@);
        if report_name(names[i].as_str()) {
            reports.push(names[i].clone());
        }
        proof {
            assert(all.take(i + 1).drop_last() =~= all.take(i as int));
            assert(all.take(i + 1).last() == names@[i as int]@);
        }
    }
    proof {
        assert(text::views(names@).take(names@.len() as int) =~= text::views(names@));
    }
    sorted(reports)
}

// ---------------------------------------------------------------------------------------------
// The target
// ---------------------------------------------------------------------------------------------

/// The product and the firmware of the first capture device, or an original Facecam of unknown
/// firmware where there is none.
pub open spec fn tested_product(devices: Seq<DeviceFingerprint>) -> (ElgatoProduct, FirmwareVersion) {
    let i = seqs::first_index(devices, pipeline::is_camera());
    if i < devices.len() {
        (devices[i].product, devices[i].firmware)
    } else {
        (ElgatoProduct::Facecam, pipeline::no_firmware())
    }
}

/// Detect the first connected UVC capture camera, falling back to Facecam.
/// Accepts both Facecam (0x0078) and FacecamPro (0x0079), anything that
/// claims a UVC capture interface, so Pro hardware is correctly identified.
/// `devices` is empty where the devices could not be enumerated.
pub fn detect_product_firmware_or_default(devices: &Vec<DeviceFingerprint>) -> (r: (
    ElgatoProduct,
    FirmwareVersion,
))
    ensures
        r == tested_product(devices@),
{
    for i in 0..devices.len()
        invariant
            forall|j: int| 0 <= j < i ==> !pipeline::is_camera()(#[trigger] devices@[j]),
    {
        if devices[i].product.is_uvc_capture() {
            proof {
                seqs::lemma_first_index(devices@, pipeline::is_camera(), i as int);
            }
            return (devices[i].product, devices[i].firmware);
        }
    }
    proof {
        seqs::lemma_first_index(devices@, pipeline::is_camera(), devices@.len() as int);
    }
    (ElgatoProduct::Facecam, FirmwareVersion { major: 0, minor: 0 })
}

/// Whether a fingerprint says only where a device is and what product it is taken for.
pub open spec fn is_placeholder(f: DeviceFingerprint, product: ElgatoProduct, path: Seq<char>) -> bool {
    &&& f.product == product
    &&& f.firmware == pipeline::no_firmware()
    &&& f.serial@ == Seq::<char>::empty()
    &&& f.usb_bus == 0
    &&& f.usb_address == 0
    &&& f.usb_port_numbers@ == Seq::<u8>::empty()
    &&& f.usb_speed == UsbSpeed::Unknown
    &&& text::opt_view(f.v4l2_device) == Some(path)
    &&& f.v4l2_sysfs_path is None
    &&& f.driver_version is None
    &&& f.card_name is None
}

/// Whether a device is a capture device whose node is known.
pub open spec fn is_target() -> spec_fn(DeviceFingerprint) -> bool {
    |c: DeviceFingerprint| device::exposes_uvc_capture(c.product) && c.v4l2_device is Some
}

/// The names of products as they appear in a list.
pub open spec fn product_forms(devices: Seq<DeviceFingerprint>) -> Seq<Seq<char>> {
    devices.map_values(|d: DeviceFingerprint| text::quoted_text(device::product_text(d.product)))
}

/// The message where there is no device to test: it lists what is connected.
pub open spec fn no_target_text(connected: Seq<DeviceFingerprint>) -> Seq<char> {
    "No Elgato UVC capture device found. Connected Elgato devices: ["@ + text::joined(
        product_forms(connected),
        ", "@,
    ) + "]"@
}

fn placeholder(product: ElgatoProduct, path: &str) -> (r: DeviceFingerprint)
    ensures
        is_placeholder(r, product, path@),
{
    let r = DeviceFingerprint {
        product,
        firmware: FirmwareVersion { major: 0, minor: 0 },
        serial: "".to_owned(),
        usb_bus: 0,
        usb_address: 0,
        usb_port_numbers: Vec::new(),
        usb_speed: UsbSpeed::Unknown,
        v4l2_device: Some(path.to_owned()),
        v4l2_sysfs_path: None,
        driver_version: None,
        card_name: None,
    };
    proof {
        reveal_strlit("");
        assert(r.serial@ =~= Seq::empty());
        assert(r.usb_port_numbers@ =~= Seq::empty());
    }
    r
}

fn no_target(connected: &Vec<DeviceFingerprint>) -> (r: String)
    ensures
        r@ == no_target_text(connected@),
{
    let mut names: Vec<String> = Vec::new();
    let ghost all = product_forms(connected@);
    proof {
        assert(text::views(names@) =~= all.take(0));
    }
    for i in 0..connected.len()
        invariant
            all == product_forms(connected@),
            text::views(names@) == all.take(i as int),
    {
        broadcast use text::lemma_views_push;

        let name = connected[i].product.to_text();
        names.push(quoted(name.as_str()));
        proof {
            assert(text::views(names@) =~= all.take(i + 1));
        }
    }
    proof {
        assert(all.take(connected@.len() as int) =~= all);
    }
    let mut out = "No Elgato UVC capture device found. Connected Elgato devices: [".to_owned();
    let list = join(&names, ", ");
    out.append(list.as_str());
    out.append("]");
    out
}

fn first_owner(cameras: &Vec<DeviceFingerprint>, path: &str) -> (r: usize)
    ensures
        r == seqs::first_index(cameras@, pipeline::has_node(path@)),
        r <= cameras@.len(),
{
    for i in 0..cameras.len()
        invariant
            forall|j: int| 0 <= j < i ==> !pipeline::has_node(path@)(#[trigger] cameras@[j]),
    {
        if let Some(node) = &cameras[i].v4l2_device {
            if text_eq(node.as_str(), path) {
                proof {
                    seqs::lemma_first_index(cameras@, pipeline::has_node(path@), i as int);
                }
                return i;
            }
        }
    }
    proof {
        seqs::lemma_first_index(cameras@, pipeline::has_node(path@), cameras@.len() as int);
    }
    cameras.len()
}

fn first_target(cameras: &Vec<DeviceFingerprint>) -> (r: usize)
    ensures
        r == seqs::first_index(cameras@, is_target()),
        r <= cameras@.len(),
        r < cameras@.len() ==> is_target()(cameras@[r as int]),
{
    for i in 0..cameras.len()
        invariant
            forall|j: int| 0 <= j < i ==> !is_target()(#[trigger] cameras@[j]),
    {
        if cameras[i].product.is_uvc_capture() && cameras[i].v4l2_device.is_some() {
            proof {
                seqs::lemma_first_index(cameras@, is_target(), i as int);
            }
            return i;
        }
    }
    proof {
        seqs::lemma_first_index(cameras@, is_target(), cameras@.len() as int);
    }
    cameras.len()
}

/// The device to test and its path: the one at the path that was asked for, which has to exist and
/// may be a device of which nothing more is known; else the first capture device whose node is
/// known; else the link that udev makes, if it exists.
///
/// `cameras` are the capture devices, or why they could not be enumerated; `connected` are all
/// Elgato devices, as far as they could be enumerated.
pub fn resolve_target(
    explicit: &Option<String>,
    explicit_exists: bool,
    cameras: &Result<Vec<DeviceFingerprint>, String>,
    link_exists: bool,
    connected: &Vec<DeviceFingerprint>,
) -> (r: Result<(DeviceFingerprint, String), String>)
    ensures
        match (*explicit, *cameras) {
            (Some(path), _) if !explicit_exists => r matches Err(words) && words@ == "--device "@
                + path@ + " does not exist"@,
            (_, Err(words)) => r == Err::<(DeviceFingerprint, String), String>(words),
            (Some(path), Ok(found)) => {
                let i = seqs::first_index(found@, pipeline::has_node(path@));
                r matches Ok(target) && target.1@ == path@ && if i < found@.len() {
                    target.0.same_as(found@[i])
                } else {
                    is_placeholder(target.0, ElgatoProduct::Unknown(0), path@)
                }
            },
            (None, Ok(found)) => {
                let i = seqs::first_index(found@, is_target());
                if i < found@.len() {
                    r matches Ok(target) && target.0.same_as(found@[i]) && text::opt_view(
                        found@[i].v4l2_device,
                    ) == Some(target.1@)
                } else if link_exists {
                    r matches Ok(target) && target.1@ == UDEV_LINK@ && is_placeholder(
                        target.0,
                        ElgatoProduct::Facecam,
                        UDEV_LINK@,
                    )
                } else {
                    r matches Err(words) && words@ == no_target_text(connected@)
                }
            },
        },
{
    if let Some(path) = explicit {
        if !explicit_exists {
            let mut message = "--device ".to_owned();
            message.append(path.as_str());
            message.append(" does not exist");
            return Err(message);
        }
    }
    let found = match cameras {
        Ok(found) => found,
        Err(words) => {
            return Err(words.clone());
        },
    };
    if let Some(path) = explicit {
        let i = first_owner(found, path.as_str());
        if i < found.len() {
            return Ok((found[i].duplicate(), path.clone()));
        }
        return Ok((placeholder(ElgatoProduct::Unknown(0), path.as_str()), path.clone()));
    }
    let i = first_target(found);
    if i < found.len() {
        if let Some(node) = &found[i].v4l2_device {
            return Ok((found[i].duplicate(), node.clone()));
        }
    }
    if link_exists {
        return Ok((placeholder(ElgatoProduct::Facecam, UDEV_LINK), UDEV_LINK.to_owned()));
    }
    Err(no_target(connected))
}

// ---------------------------------------------------------------------------------------------
// Laws
// ---------------------------------------------------------------------------------------------

/// Whether a test is for the Facecam Pro alone.
pub open spec fn is_pro_test(id: TestId) -> bool {
    id is ProH264Probe || id is ProNv12Recovers || id is ProStreamStartRecovery
}

/// The tests of the Pro run on the Pro and on no other product; every other test runs on all
/// products.
pub proof fn pro_tests_run_on_the_pro_only(product: ElgatoProduct, i: int)
    requires
        0 <= i < suite(product).len(),
    ensures
        suite(product)[i].runs == (!is_pro_test(suite(product)[i].id) || product
            == ElgatoProduct::FacecamPro),
{
    let pro_only = seq![ElgatoProduct::FacecamPro];
    assert(pro_only[0] == ElgatoProduct::FacecamPro);
    assert(pro_only.contains(product) == (product == ElgatoProduct::FacecamPro));
}

/// Whatever the product, every test is planned, once, and at the same place.
pub proof fn every_test_is_planned_once(product: ElgatoProduct, other: ElgatoProduct, id: TestId)
    ensures
        exists|i: int| 0 <= i < suite(product).len() && #[trigger] suite(product)[i].id == id,
        forall|i: int, j: int|
            0 <= i < suite(product).len() && 0 <= j < suite(other).len() && #[trigger] suite(
                product,
            )[i].id == id && #[trigger] suite(other)[j].id == id ==> i == j,
{
    let i: int = match id {
        TestId::DeviceDetection => 0,
        TestId::FormatEnumeration => 1,
        TestId::ControlEnumeration => 2,
        TestId::FormatNegotiation => 3,
        TestId::OpenCloseCycles => 4,
        TestId::ControlRoundtrip => 5,
        TestId::UsbTopology => 6,
        TestId::KernelModules => 7,
        TestId::ProH264Probe => 8,
        TestId::ProNv12Recovers => 9,
        TestId::ProStreamStartRecovery => 10,
    };
    assert(suite(product)[i].id == id);
}

proof fn lemma_reports_among(names: Seq<Seq<char>>, name: Seq<char>)
    ensures
        reports_among(names).contains(name) <==> names.contains(name) && is_report(name),
    decreases names.len(),
{
    if names.len() > 0 {
        let init = names.drop_last();
        let before = reports_among(init);
        lemma_reports_among(init, name);
        assert(names =~= init.push(names.last()));
        if names.contains(name) {
            let k = choose|k: int| 0 <= k < names.len() && names[k] == name;
            if k < init.len() {
                assert(init[k] == name);
            }
        }
        if init.contains(name) {
            let k = choose|k: int| 0 <= k < init.len() && init[k] == name;
            assert(names[k] == name);
        }
        if is_report(names.last()) {
            let all = before.push(names.last());
            assert(all[before.len() as int] == names.last());
            if all.contains(name) {
                let k = choose|k: int| 0 <= k < all.len() && all[k] == name;
                if k < before.len() {
                    assert(before[k] == name);
                }
            }
            if before.contains(name) {
                let k = choose|k: int| 0 <= k < before.len() && before[k] == name;
                assert(all[k] == name);
            }
        }
        assert(names.contains(names.last())) by {
            assert(names[names.len() - 1] == names.last());
        }
    }
}

/// The saved reports are the files with the name of a report, and no file of them comes after the
/// last one.
pub proof fn latest_report_is_last(names: Seq<Seq<char>>, name: Seq<char>)
    requires
        names.contains(name),
        is_report(name),
    ensures
        ({
            let saved = text::in_order(reports_among(names));
            &&& saved.len() > 0
            &&& saved.contains(name)
            &&& names.contains(saved.last()) && is_report(saved.last())
            &&& text::lex_le(name, saved.last())
        }),
{
    broadcast use vstd::seq_lib::group_to_multiset_ensures;

    let found = reports_among(names);
    let saved = text::in_order(found);
    text::texts_can_be_put_in_order(found);
    lemma_reports_among(names, name);
    assert(found.to_multiset().count(name) > 0);
    assert(saved.contains(name));
    let k = choose|k: int| 0 <= k < saved.len() && saved[k] == name;
    if k == saved.len() - 1 {
        text::lemma_lex_total(name, name);
    }
    assert(saved.contains(saved.last()));
    assert(found.to_multiset().count(saved.last()) > 0);
    assert(found.contains(saved.last()));
    lemma_reports_among(names, saved.last());
}

/// The tests that passed are counted: one more result adds one to the count where it passed.
pub proof fn passed_tests_are_counted(tests: Seq<TestResult>, t: TestResult)
    ensures
        passed_in(tests.push(t), tests.len() + 1) == passed_in(tests, tests.len()) + if t.passed {
            1nat
        } else {
            0nat
        },
        passed_in(Seq::empty(), 0) == 0,
        passed_in(tests, tests.len()) <= tests.len(),
{
    lemma_same_passed(tests, t, tests.len());
}

proof fn lemma_same_passed(tests: Seq<TestResult>, t: TestResult, n: nat)
    requires
        n <= tests.len(),
    ensures
        passed_in(tests.push(t), n) == passed_in(tests, n),
        passed_in(tests, n) <= n,
    decreases n,
{
    if n > 0 {
        lemma_same_passed(tests, t, (n - 1) as nat);
    }
}

/// A result shows PASS or FAIL, its name and its time in milliseconds, and the words of its error on a
/// line of their own.
pub proof fn results_show_their_outcome(
    t: TestResult,
    indent: Seq<char>,
    error_indent: Seq<char>,
)
    ensures
        t.error is None ==> result_lines(t, indent, error_indent) == indent + "["@ + (if t.passed {
            "PASS"@
        } else {
            "FAIL"@
        }) + "] "@ + t.name@ + " ("@ + text::decimal(t.duration_ms as nat) + "ms)\n"@,
        t.error matches Some(words) ==> result_lines(t, indent, error_indent) == result_lines(
            TestResult { error: None, ..t },
            indent,
            error_indent,
        ) + (error_indent + "Error: "@ + words@ + "\n"@),
{
    let line = indent + "["@ + outcome_word(t.passed) + "] "@ + t.name@ + " ("@ + text::decimal(
        t.duration_ms as nat,
    ) + "ms)\n"@;
    lemma_nothing_added(line);
}

proof fn lemma_nothing_added(line: Seq<char>)
    ensures
        line + Seq::<char>::empty() == line,
{
    assert(line + Seq::<char>::empty() =~= line);
}

/// A report is a file with a name before the ending json.
pub proof fn reports_end_in_json(stem: Seq<char>, names: Seq<Seq<char>>, name: Seq<char>)
    ensures
        is_report(stem + seq!['.', 'j', 's', 'o', 'n']) <==> stem.len() > 0,
        is_report(name) ==> name == name.take(name.len() - 5) + seq!['.', 'j', 's', 'o', 'n'],
        is_report(name) ==> reports_among(names.push(name)) == reports_among(names).push(name),
        !is_report(name) ==> reports_among(names.push(name)) == reports_among(names),
        reports_among(Seq::empty()).len() == 0,
{
    let whole = stem + seq!['.', 'j', 's', 'o', 'n'];
    assert(whole.skip(whole.len() - 5) =~= seq!['.', 'j', 's', 'o', 'n']);
    if is_report(name) {
        assert(name =~= name.take(name.len() - 5) + name.skip(name.len() - 5));
    }
    assert(names.push(name).drop_last() =~= names);
}

/// The product that is tested is that of the first capture device on the bus, with its firmware.
/// Without one it is an original Facecam of unknown firmware.
pub proof fn the_first_camera_is_tested(devices: Seq<DeviceFingerprint>, i: int)
    requires
        0 <= i <= devices.len(),
        forall|k: int|
            0 <= k < i ==> !device::exposes_uvc_capture((#[trigger] devices[k]).product),
        i < devices.len() ==> device::exposes_uvc_capture(devices[i].product),
    ensures
        i < devices.len() ==> tested_product(devices).0 == devices[i].product && tested_product(
            devices,
        ).1 == devices[i].firmware,
        i == devices.len() ==> tested_product(devices).0 == ElgatoProduct::Facecam && tested_product(
            devices,
        ).1.major == 0 && tested_product(devices).1.minor == 0,
{
    seqs::lemma_first_index(devices, pipeline::is_camera(), i);
}

/// A camera can be tested where it is a capture device with a known node.
pub proof fn targets_have_a_node(c: DeviceFingerprint)
    ensures
        is_target()(c) <==> c.v4l2_device is Some && !(c.product == ElgatoProduct::FacecamUsb2Fallback
            || c.product is Unknown),
{
}

/// Of a path that was given nothing is known but the path and the product that it is taken for.
pub proof fn placeholders_know_their_path(
    f: DeviceFingerprint,
    product: ElgatoProduct,
    path: Seq<char>,
)
    requires
        is_placeholder(f, product, path),
    ensures
        f.product == product,
        f.v4l2_device matches Some(node) && node@ == path,
        f.firmware.major == 0 && f.firmware.minor == 0 && f.serial@.len() == 0,
        f.usb_bus == 0 && f.usb_address == 0 && f.usb_port_numbers@.len() == 0 && f.usb_speed
            == UsbSpeed::Unknown,
        f.v4l2_sysfs_path is None && f.driver_version is None && f.card_name is None,
{
}

/// No two tests have the same name.
pub proof fn tests_are_told_apart(a: TestId, b: TestId)
    requires
        test_name(a) == test_name(b),
    ensures
        a == b,
{
    reveal_strlit("device_detection");
    reveal_strlit("format_enumeration");
    reveal_strlit("control_enumeration");
    reveal_strlit("format_negotiation");
    reveal_strlit("open_close_cycles");
    reveal_strlit("control_roundtrip");
    reveal_strlit("usb_topology");
    reveal_strlit("kernel_modules");
    reveal_strlit("pro_h264_probe");
    reveal_strlit("pro_nv12_recovers");
    reveal_strlit("pro_stream_start_recovery");
    assert("device_detection"@[0] == 'd');
    assert("format_enumeration"@[0] == 'f' && "format_enumeration"@[7] == 'e');
    assert("format_negotiation"@[0] == 'f' && "format_negotiation"@[7] == 'n');
    assert("control_enumeration"@[0] == 'c' && "control_enumeration"@[8] == 'e');
    assert("control_roundtrip"@[0] == 'c' && "control_roundtrip"@[8] == 'r');
    assert("open_close_cycles"@[0] == 'o');
    assert("usb_topology"@[0] == 'u');
    assert("kernel_modules"@[0] == 'k');
    assert("pro_h264_probe"@[0] == 'p' && "pro_h264_probe"@[4] == 'h');
    assert("pro_nv12_recovers"@[0] == 'p' && "pro_nv12_recovers"@[4] == 'n');
    assert("pro_stream_start_recovery"@[0] == 'p' && "pro_stream_start_recovery"@[4] == 's');
}

/// Results are listed in order: one more result adds its lines at the end.
pub proof fn results_are_added_in_order(tests: Seq<TestResult>, t: TestResult)
    ensures
        suite_lines(tests.push(t), tests.len() + 1) == suite_lines(tests, tests.len()) + result_lines(
            t,
            seq![' ', ' '],
            seq![' ', ' ', ' ', ' ', ' ', ' ', ' ', ' '],
        ),
        suite_lines(Seq::empty(), 0).len() == 0,
{
    reveal_strlit("  ");
    reveal_strlit("        ");
    assert("  "@ =~= seq![' ', ' ']);
    assert("        "@ =~= seq![' ', ' ', ' ', ' ', ' ', ' ', ' ', ' ']);
    lemma_same_suite_lines(tests, t, tests.len());
}

proof fn lemma_same_suite_lines(tests: Seq<TestResult>, t: TestResult, n: nat)
    requires
        n <= tests.len(),
    ensures
        suite_lines(tests.push(t), n) == suite_lines(tests, n),
    decreases n,
{
    if n > 0 {
        lemma_same_suite_lines(tests, t, (n - 1) as nat);
    }
}

/// Where there is nothing to test, the devices that are connected are named in order.
pub proof fn connected_devices_are_named(connected: Seq<DeviceFingerprint>, i: int)
    requires
        0 <= i < connected.len(),
    ensures
        product_forms(connected).len() == connected.len(),
        product_forms(connected)[i] == text::quoted_text(device::product_text(connected[i].product)),
        no_target_text(connected) == "No Elgato UVC capture device found. Connected Elgato devices: ["@
            + text::joined(product_forms(connected), ", "@) + "]"@,
{
}

} // verus!
