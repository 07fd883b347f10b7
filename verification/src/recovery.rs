//! Recovery of a camera that stopped responding.

use crate::bytes::{self, ByteOrder};
use crate::capture::BufferCall;
use crate::device::{self, ElgatoProduct};
use crate::text::{self, parse_natural, path_below, push_decimal, push_wide, text_eq, trim};
use crate::v4l2;
use vstd::prelude::*;
use vstd::string::*;

verus! {

/// How long the kernel is given to clean up after a device was deauthorized.
pub const DEAUTHORIZE_WAIT_MS: u64 = 1500;

/// How long a device is given to come back after it was authorized again.
pub const REAUTHORIZE_WAIT_MS: u64 = 4000;

#[derive(Debug, Clone)]
pub struct ResetResult {
    pub sysfs_path: String,
    pub success: bool,
    pub previous_state: String,
    pub new_state: String,
    /// Non-fatal anomalies during reset (e.g. ETIMEDOUT on authorized=0
    /// write, which the Pro produces but still re-enumerates afterward).
    pub warnings: Vec<String>,
}

/// Why a reset failed.
#[derive(Debug, Clone)]
pub enum ResetError {
    /// The device has no file with its authorized state.
    NoFile,
    /// The state could not be read before the reset.
    ReadBefore,
    /// The device could not be deauthorized.
    Deauthorize,
    /// The device could not be authorized again.
    Reauthorize,
    /// The state could not be read after the reset.
    ReadAfter,
    /// The device did not come back: what its state file holds.
    NotBack(String),
}

/// The message of a failed reset of the device at a sysfs path.
pub open spec fn reset_error_text(error: ResetError, sysfs_path: Seq<char>) -> Seq<char> {
    match error {
        ResetError::NoFile => "sysfs authorized file not found at "@ + text::below(
            sysfs_path,
            "authorized"@,
        ),
        ResetError::ReadBefore => "Failed to read authorized state"@,
        ResetError::Deauthorize => "Failed to deauthorize USB device"@,
        ResetError::Reauthorize => "Failed to reauthorize USB device"@,
        ResetError::ReadAfter => "Failed to read authorized state after reset"@,
        ResetError::NotBack(state) => "Device did not come back after reset (authorized = "@
            + text::trimmed(state@) + ")"@,
    }
}

impl ResetError {
    /// The message of the error, for the device at a sysfs path.
    pub fn to_text(&self, sysfs_path: &str) -> (r: String)
        ensures
            r@ == reset_error_text(*self, sysfs_path@),
    {
        match self {
            ResetError::NoFile => {
                let mut out = "sysfs authorized file not found at ".to_owned();
                out.append(path_below(sysfs_path, "authorized").as_str());
                out
            },
            ResetError::ReadBefore => "Failed to read authorized state".to_owned(),
            ResetError::Deauthorize => "Failed to deauthorize USB device".to_owned(),
            ResetError::Reauthorize => "Failed to reauthorize USB device".to_owned(),
            ResetError::ReadAfter => "Failed to read authorized state after reset".to_owned(),
            ResetError::NotBack(state) => {
                let mut out = "Device did not come back after reset (authorized = ".to_owned();
                out.append(trim(state.as_str()).as_str());
                out.append(")");
                out
            },
        }
    }
}

/// What a reset needs to be done next.
#[derive(Debug, Clone, PartialEq, Eq)]
pub enum ResetRequest {
    /// See whether the state file exists.
    Exists,
    /// Read the state file.
    Read,
    /// Write one character to the state file.
    Write(char),
    /// Wait this many milliseconds.
    Sleep(u64),
    /// Nothing: the reset is over.
    Nothing,
}

/// What came of it.
#[derive(Debug, Clone)]
pub enum ResetReply {
    /// Whether the file exists.
    Exists(bool),
    /// What the file holds.
    Content(String),
    /// The file was written, or the time has passed.
    Done,
    /// Reading or writing failed: whether the error is of the timed-out kind, the number of the
    /// error if it has one, and its words.
    Failed { timed_out: bool, os_error: Option<i32>, words: String },
}

/// Where a reset stands.
#[derive(Debug, Clone)]
pub enum ResetPhase {
    CheckFile,
    ReadBefore,
    Deauthorize { before: String },
    WaitGone { before: String, warning: Option<String> },
    Reauthorize { before: String, warning: Option<String> },
    WaitBack { before: String, warning: Option<String> },
    ReadAfter { before: String, warning: Option<String> },
    Succeeded { before: String, warning: Option<String>, after: String },
    Failed(ResetError),
}

/// What a phase of a reset asks for.
pub open spec fn reset_request(phase: ResetPhase) -> ResetRequest {
    match phase {
        ResetPhase::CheckFile => ResetRequest::Exists,
        ResetPhase::ReadBefore => ResetRequest::Read,
        ResetPhase::Deauthorize { .. } => ResetRequest::Write('0'),
        ResetPhase::WaitGone { .. } => ResetRequest::Sleep(DEAUTHORIZE_WAIT_MS),
        ResetPhase::Reauthorize { .. } => ResetRequest::Write('1'),
        ResetPhase::WaitBack { .. } => ResetRequest::Sleep(REAUTHORIZE_WAIT_MS),
        ResetPhase::ReadAfter { .. } => ResetRequest::Read,
        ResetPhase::Succeeded { .. } => ResetRequest::Nothing,
        ResetPhase::Failed(_) => ResetRequest::Nothing,
    }
}

/// Whether a failed write is a timeout. The Pro lets the write of its deauthorization time out and
/// disconnects all the same.
pub open spec fn is_timeout(timed_out: bool, os_error: Option<i32>, timeout_errno: i32) -> bool {
    timed_out || os_error == Some(timeout_errno)
}

/// The phase after an answer. An answer that does not belong to the request changes nothing.
pub open spec fn after_answer(phase: ResetPhase, reply: ResetReply, timeout_errno: i32) -> ResetPhase {
    match phase {
        ResetPhase::CheckFile => match reply {
            ResetReply::Exists(true) => ResetPhase::ReadBefore,
            ResetReply::Exists(false) => ResetPhase::Failed(ResetError::NoFile),
            _ => phase,
        },
        ResetPhase::ReadBefore => match reply {
            ResetReply::Content(before) => ResetPhase::Deauthorize { before },
            ResetReply::Failed { .. } => ResetPhase::Failed(ResetError::ReadBefore),
            _ => phase,
        },
        ResetPhase::Deauthorize { before } => match reply {
            ResetReply::Done => ResetPhase::WaitGone { before, warning: None },
            ResetReply::Failed { timed_out, os_error, words } => if is_timeout(
                timed_out,
                os_error,
                timeout_errno,
            ) {
                ResetPhase::WaitGone { before, warning: Some(words) }
            } else {
                ResetPhase::Failed(ResetError::Deauthorize)
            },
            _ => phase,
        },
        ResetPhase::WaitGone { before, warning } => match reply {
            ResetReply::Done => ResetPhase::Reauthorize { before, warning },
            _ => phase,
        },
        ResetPhase::Reauthorize { before, warning } => match reply {
            ResetReply::Done => ResetPhase::WaitBack { before, warning },
            ResetReply::Failed { .. } => ResetPhase::Failed(ResetError::Reauthorize),
            _ => phase,
        },
        ResetPhase::WaitBack { before, warning } => match reply {
            ResetReply::Done => ResetPhase::ReadAfter { before, warning },
            _ => phase,
        },
        ResetPhase::ReadAfter { before, warning } => match reply {
            ResetReply::Content(after) => if text::trimmed(after@) == "1"@ {
                ResetPhase::Succeeded { before, warning, after }
            } else {
                ResetPhase::Failed(ResetError::NotBack(after))
            },
            ResetReply::Failed { .. } => ResetPhase::Failed(ResetError::ReadAfter),
            _ => phase,
        },
        _ => phase,
    }
}

/// The warning of a deauthorization that timed out.
pub open spec fn timeout_warning(words: Seq<char>) -> Seq<char> {
    "authorized=0 returned ETIMEDOUT: "@ + words
}

/// A USB device reset via the sysfs authorized flag cycle.
///
/// This is the primary recovery mechanism for the open/close lockup bug.
/// Writing 0 to the `authorized` sysfs file deauthorizes the device,
/// causing the kernel to unbind the driver. Writing 1 reauthorizes it,
/// causing re-enumeration, equivalent to a physical unplug/replug.
#[derive(Debug, Clone)]
pub struct UsbReset {
    pub sysfs_path: String,
    /// The number that the system gives to the error of a timed-out call.
    pub timeout_errno: i32,
    pub phase: ResetPhase,
}

/// Reset a USB device by its sysfs path
pub fn usb_reset_device(sysfs_path: String, timeout_errno: i32) -> (r: UsbReset)
    ensures
        r == (UsbReset { sysfs_path, timeout_errno, phase: ResetPhase::CheckFile }),
{
    UsbReset { sysfs_path, timeout_errno, phase: ResetPhase::CheckFile }
}

/// Reset a product. `found` is what the search for its sysfs path gave: the path, nothing where
/// the product is not connected, or why the search failed.
pub fn usb_reset_product(
    product: ElgatoProduct,
    found: Result<Option<String>, String>,
    timeout_errno: i32,
) -> (r: Result<UsbReset, String>)
    ensures
        match found {
            Ok(Some(path)) => r == Ok::<UsbReset, String>(
                UsbReset { sysfs_path: path, timeout_errno, phase: ResetPhase::CheckFile },
            ),
            Ok(None) => r matches Err(message) && message@ == device::product_text(product)
                + " not found in sysfs"@,
            Err(words) => r == Err::<UsbReset, String>(words),
        },
{
    match found {
        Ok(Some(path)) => Ok(usb_reset_device(path, timeout_errno)),
        Ok(None) => {
            let mut message = product.to_text();
            message.append(" not found in sysfs");
            Err(message)
        },
        Err(words) => Err(words),
    }
}

impl UsbReset {
    /// The file with the authorized state of the device.
    pub fn file(&self) -> (r: String)
        ensures
            r@ == text::below(self.sysfs_path@, "authorized"@),
    {
        path_below(self.sysfs_path.as_str(), "authorized")
    }

    /// What is to be done next.
    pub fn request(&self) -> (r: ResetRequest)
        ensures
            r == reset_request(self.phase),
    {
        match &self.phase {
            ResetPhase::CheckFile => ResetRequest::Exists,
            ResetPhase::ReadBefore => ResetRequest::Read,
            ResetPhase::Deauthorize { .. } => ResetRequest::Write('0'),
            ResetPhase::WaitGone { .. } => ResetRequest::Sleep(DEAUTHORIZE_WAIT_MS),
            ResetPhase::Reauthorize { .. } => ResetRequest::Write('1'),
            ResetPhase::WaitBack { .. } => ResetRequest::Sleep(REAUTHORIZE_WAIT_MS),
            ResetPhase::ReadAfter { .. } => ResetRequest::Read,
            ResetPhase::Succeeded { .. } => ResetRequest::Nothing,
            ResetPhase::Failed(_) => ResetRequest::Nothing,
        }
    }

    /// Takes what came of the last request.
    pub fn reply(self, reply: ResetReply) -> (r: Self)
        ensures
            r == (UsbReset {
                phase: after_answer(self.phase, reply, self.timeout_errno),
                ..self
            }),
    {
        let UsbReset { sysfs_path, timeout_errno, phase } = self;
        let phase = match phase {
            ResetPhase::CheckFile => match reply {
                ResetReply::Exists(true) => ResetPhase::ReadBefore,
                ResetReply::Exists(false) => ResetPhase::Failed(ResetError::NoFile),
                _ => ResetPhase::CheckFile,
            },
            ResetPhase::ReadBefore => match reply {
                ResetReply::Content(before) => ResetPhase::Deauthorize { before },
                ResetReply::Failed { .. } => ResetPhase::Failed(ResetError::ReadBefore),
                _ => ResetPhase::ReadBefore,
            },
            ResetPhase::Deauthorize { before } => match reply {
                ResetReply::Done => ResetPhase::WaitGone { before, warning: None },
                ResetReply::Failed { timed_out, os_error, words } => {
                    let numbered = match os_error {
                        Some(errno) => errno == timeout_errno,
                        None => false,
                    };
                    if timed_out || numbered {
                        ResetPhase::WaitGone { before, warning: Some(words) }
                    } else {
                        ResetPhase::Failed(ResetError::Deauthorize)
                    }
                },
                _ => ResetPhase::Deauthorize { before },
            },
            ResetPhase::WaitGone { before, warning } => match reply {
                ResetReply::Done => ResetPhase::Reauthorize { before, warning },
                _ => ResetPhase::WaitGone { before, warning },
            },
            ResetPhase::Reauthorize { before, warning } => match reply {
                ResetReply::Done => ResetPhase::WaitBack { before, warning },
                ResetReply::Failed { .. } => ResetPhase::Failed(ResetError::Reauthorize),
                _ => ResetPhase::Reauthorize { before, warning },
            },
            ResetPhase::WaitBack { before, warning } => match reply {
                ResetReply::Done => ResetPhase::ReadAfter { before, warning },
                _ => ResetPhase::WaitBack { before, warning },
            },
            ResetPhase::ReadAfter { before, warning } => match reply {
                ResetReply::Content(after) => {
                    let state = trim(after.as_str());
                    if text_eq(state.as_str(), "1") {
                        ResetPhase::Succeeded { before, warning, after }
                    } else {
                        ResetPhase::Failed(ResetError::NotBack(after))
                    }
                },
                ResetReply::Failed { .. } => ResetPhase::Failed(ResetError::ReadAfter),
                _ => ResetPhase::ReadAfter { before, warning },
            },
            ResetPhase::Succeeded { before, warning, after } => ResetPhase::Succeeded {
                before,
                warning,
                after,
            },
            ResetPhase::Failed(error) => ResetPhase::Failed(error),
        };
        UsbReset { sysfs_path, timeout_errno, phase }
    }

    /// The result of the reset, once it is over: `None` before that.
    pub fn result(&self) -> (r: Option<Result<ResetResult, String>>)
        ensures
            match self.phase {
                ResetPhase::Succeeded { before, warning, after } => r matches Some(Ok(result))
                    && result.sysfs_path@ == self.sysfs_path@ && result.success
                    && result.previous_state@ == text::trimmed(before@) && result.new_state@
                    == text::trimmed(after@) && text::views(result.warnings@) == match warning {
                    Some(words) => seq![timeout_warning(words@)],
                    None => Seq::empty(),
                },
                ResetPhase::Failed(error) => r matches Some(Err(message)) && message@
                    == reset_error_text(error, self.sysfs_path@),
                _ => r is None,
            },
    {
        match &self.phase {
            ResetPhase::Succeeded { before, warning, after } => {
                let mut warnings: Vec<String> = Vec::new();
                proof {
                    assert(text::views(warnings@) =~= Seq::empty());
                }
                if let Some(words) = warning {
                    let mut line = "authorized=0 returned ETIMEDOUT: ".to_owned();
                    line.append(words.as_str());
                    warnings.push(line);
                    proof {
                        assert(text::views(warnings@) =~= seq![timeout_warning(words@)]);
                    }
                }
                Some(
                    Ok(
                        ResetResult {
                            sysfs_path: self.sysfs_path.clone(),
                            success: true,
                            previous_state: trim(before.as_str()),
                            new_state: trim(after.as_str()),
                            warnings,
                        },
                    ),
                )
            },
            ResetPhase::Failed(error) => Some(Err(error.to_text(self.sysfs_path.as_str()))),
            _ => None,
        }
    }
}

/// In-place STREAMOFF/STREAMON cycle for VIDEO_CAPTURE. Cheapest first-line
/// recovery for the Pro's stream-start race (PRO_STREAM_START_RACE).
///
/// The first of the two calls may fail, since the device may not be streaming; what it returns
/// does not matter. The cycle succeeds where the second one does.
pub fn stream_off_then_on(order: ByteOrder) -> (r: (BufferCall, BufferCall))
    ensures
        r.0 matches BufferCall::StreamOff(b) && b@ == bytes::u32_bytes(
            order,
            v4l2::V4L2_BUF_TYPE_VIDEO_CAPTURE,
        ),
        r.1 matches BufferCall::StreamOn(b) && b@ == bytes::u32_bytes(
            order,
            v4l2::V4L2_BUF_TYPE_VIDEO_CAPTURE,
        ),
{
    let capture: u32 = v4l2::V4L2_BUF_TYPE_VIDEO_CAPTURE;
    (
        BufferCall::StreamOff(v4l2::stream_off(order, capture)),
        BufferCall::StreamOn(v4l2::stream_on(order, capture)),
    )
}

/// The message where the stream could not be started again.
pub const STREAM_CYCLE_FAILED: &'static str = "STREAMON after in-place recovery";

// ---------------------------------------------------------------------------------------------
// Waiting for a device
// ---------------------------------------------------------------------------------------------

/// How long is waited between two looks for a device.
pub const SCAN_PAUSE_MS: u64 = 200;

/// Where the wait for a device stands.
#[derive(Debug, Clone)]
pub enum WaitPhase {
    /// The time that has passed is to be compared with the timeout.
    CheckTime,
    /// The device is to be looked for.
    Scan,
    /// A pause is to be made.
    Pause,
    /// The device is there, at this sysfs path.
    Found(String),
    /// The device did not appear in time.
    TimedOut,
}

/// What came of the last step.
#[derive(Debug, Clone)]
pub enum WaitReply {
    /// So much time has passed since the wait began, in nanoseconds.
    Elapsed(u128),
    /// What was found, or nothing.
    Scanned(Option<String>),
    /// The search failed.
    ScanFailed,
    /// The pause is over.
    Paused,
}

/// The phase after a step. An answer that does not belong to the step changes nothing.
pub open spec fn after_wait(phase: WaitPhase, reply: WaitReply, timeout_ns: u128) -> WaitPhase {
    match phase {
        WaitPhase::CheckTime => match reply {
            WaitReply::Elapsed(elapsed) => if elapsed > timeout_ns {
                WaitPhase::TimedOut
            } else {
                WaitPhase::Scan
            },
            _ => phase,
        },
        WaitPhase::Scan => match reply {
            WaitReply::Scanned(Some(path)) => WaitPhase::Found(path),
            WaitReply::Scanned(None) => WaitPhase::Pause,
            WaitReply::ScanFailed => WaitPhase::Pause,
            _ => phase,
        },
        WaitPhase::Pause => match reply {
            WaitReply::Paused => WaitPhase::CheckTime,
            _ => phase,
        },
        _ => phase,
    }
}

/// The message where a product did not appear in time. The timeout is given in whole milliseconds.
pub open spec fn wait_timeout_text(product: ElgatoProduct, timeout_ns: u128) -> Seq<char> {
    "Timeout waiting for "@ + device::product_text(product) + " to appear ("@ + text::decimal(
        (timeout_ns / 1_000_000) as nat,
    ) + "ms)"@
}

/// The wait for a product to appear in sysfs after a reset or plug event.
#[derive(Debug, Clone)]
pub struct DeviceWait {
    pub product: ElgatoProduct,
    pub timeout_ns: u128,
    pub phase: WaitPhase,
}

/// Wait for an Elgato product to appear in sysfs after a reset or plug event
pub fn wait_for_device(product: ElgatoProduct, timeout_ns: u128) -> (r: DeviceWait)
    ensures
        r == (DeviceWait { product, timeout_ns, phase: WaitPhase::CheckTime }),
{
    DeviceWait { product, timeout_ns, phase: WaitPhase::CheckTime }
}

impl DeviceWait {
    /// Takes what came of the last step.
    pub fn reply(self, reply: WaitReply) -> (r: Self)
        ensures
            r == (DeviceWait { phase: after_wait(self.phase, reply, self.timeout_ns), ..self }),
    {
        let DeviceWait { product, timeout_ns, phase } = self;
        let phase = match phase {
            WaitPhase::CheckTime => match reply {
                WaitReply::Elapsed(elapsed) => if elapsed > timeout_ns {
                    WaitPhase::TimedOut
                } else {
                    WaitPhase::Scan
                },
                _ => WaitPhase::CheckTime,
            },
            WaitPhase::Scan => match reply {
                WaitReply::Scanned(Some(path)) => WaitPhase::Found(path),
                WaitReply::Scanned(None) => WaitPhase::Pause,
                WaitReply::ScanFailed => WaitPhase::Pause,
                _ => WaitPhase::Scan,
            },
            WaitPhase::Pause => match reply {
                WaitReply::Paused => WaitPhase::CheckTime,
                _ => WaitPhase::Pause,
            },
            WaitPhase::Found(path) => WaitPhase::Found(path),
            WaitPhase::TimedOut => WaitPhase::TimedOut,
        };
        DeviceWait { product, timeout_ns, phase }
    }

    /// The message where the device did not appear in time. The timeout is given in whole
    /// milliseconds.
    pub fn timeout_text(&self) -> (r: String)
        ensures
            r@ == wait_timeout_text(self.product, self.timeout_ns),
    {
        let mut out = "Timeout waiting for ".to_owned();
        out.append(self.product.to_text().as_str());
        out.append(" to appear (");
        push_wide(&mut out, self.timeout_ns / 1_000_000);
        out.append("ms)");
        out
    }
}

// ---------------------------------------------------------------------------------------------
// Retries
// ---------------------------------------------------------------------------------------------

/// The pause after a successful reset, before the device is looked for.
pub const RETRY_PAUSE_MS: u64 = 1000;

/// How long a device is waited for after a successful reset, in nanoseconds.
pub const REAPPEAR_TIMEOUT_NS: u128 = 10_000_000_000;

/// Where a series of attempts stands.
#[derive(Debug, Clone)]
pub enum RetryPhase {
    /// The operation is to be tried, for the time with this number; the first one is number 1.
    Attempt(u32),
    /// The product is to be reset after the attempt with this number failed.
    Reset { failed: u32 },
    /// A pause is to be made after the reset.
    Pause { failed: u32 },
    /// The device is waited for; where the wait stands.
    Await { failed: u32, wait: WaitPhase },
    /// The attempt with this number succeeded.
    Succeeded(u32),
    /// All attempts failed. The error of the last one, where there was one.
    GaveUp(Option<String>),
}

/// What came of the last step.
#[derive(Debug, Clone)]
pub enum RetryReply {
    /// The operation, the reset or the pause succeeded.
    Done,
    /// The operation or the reset failed; the words of the error.
    Failed(String),
    /// What came of a step of the wait.
    Wait(WaitReply),
}

/// How a series of attempts begins.
pub open spec fn retry_start(max_attempts: u32) -> RetryPhase {
    if max_attempts == 0 {
        RetryPhase::GaveUp(None)
    } else {
        RetryPhase::Attempt(1)
    }
}

/// The phase while the device is waited for: the operation is tried again once the device is there,
/// or the time is over.
pub open spec fn awaited(failed: u32, wait: WaitPhase) -> RetryPhase {
    match wait {
        WaitPhase::Found(_) => RetryPhase::Attempt((failed + 1) as u32),
        WaitPhase::TimedOut => RetryPhase::Attempt((failed + 1) as u32),
        _ => RetryPhase::Await { failed, wait },
    }
}

/// The phase after a step. An answer that does not belong to the step changes nothing.
pub open spec fn after_step(phase: RetryPhase, reply: RetryReply, max_attempts: u32) -> RetryPhase {
    match phase {
        RetryPhase::Attempt(n) => match reply {
            RetryReply::Done => RetryPhase::Succeeded(n),
            RetryReply::Failed(words) => if n < max_attempts {
                RetryPhase::Reset { failed: n }
            } else {
                RetryPhase::GaveUp(Some(words))
            },
            _ => phase,
        },
        RetryPhase::Reset { failed } => match reply {
            RetryReply::Done => RetryPhase::Pause { failed },
            RetryReply::Failed(_) => RetryPhase::Attempt((failed + 1) as u32),
            _ => phase,
        },
        RetryPhase::Pause { failed } => match reply {
            RetryReply::Done => RetryPhase::Await { failed, wait: WaitPhase::CheckTime },
            _ => phase,
        },
        RetryPhase::Await { failed, wait } => match reply {
            RetryReply::Wait(answer) => awaited(
                failed,
                after_wait(wait, answer, REAPPEAR_TIMEOUT_NS),
            ),
            _ => phase,
        },
        _ => phase,
    }
}

/// Whether a phase belongs to a series of at most so many attempts.
pub open spec fn retry_ok(phase: RetryPhase, max_attempts: u32) -> bool {
    match phase {
        RetryPhase::Attempt(n) => 1 <= n <= max_attempts,
        RetryPhase::Reset { failed } => 1 <= failed < max_attempts,
        RetryPhase::Pause { failed } => 1 <= failed < max_attempts,
        RetryPhase::Await { failed, wait } => 1 <= failed < max_attempts && !(wait is Found) && !(
        wait is TimedOut),
        RetryPhase::Succeeded(n) => 1 <= n <= max_attempts,
        RetryPhase::GaveUp(error) => error is None <==> max_attempts == 0,
    }
}

/// A series of attempts to start a stream, with a reset before each further attempt.
///
/// Due to the ~50% startup failure rate, the series:
/// 1. Attempts to open and start the stream
/// 2. On failure, performs a USB reset
/// 3. Waits for the device to re-appear
/// 4. Retries the open
///
/// A device that does not re-appear in time is not waited for any longer. After a reset that failed
/// the device is where it was, and the open is tried again at once.
#[derive(Debug, Clone)]
pub struct Retry {
    pub product: ElgatoProduct,
    pub max_attempts: u32,
    pub phase: RetryPhase,
}

/// Begins a series of at most `max_attempts` attempts on a product.
pub fn retry_with_reset(product: ElgatoProduct, max_attempts: u32) -> (r: Retry)
    ensures
        r == (Retry { product, max_attempts, phase: retry_start(max_attempts) }),
        r.wf(),
{
    Retry {
        product,
        max_attempts,
        phase: if max_attempts == 0 {
            RetryPhase::GaveUp(None)
        } else {
            RetryPhase::Attempt(1)
        },
    }
}

impl Retry {
    /// Whether the series is in a state that it can reach.
    pub open spec fn wf(self) -> bool {
        retry_ok(self.phase, self.max_attempts)
    }

    /// Takes what came of the last step.
    pub fn reply(self, reply: RetryReply) -> (r: Self)
        requires
            self.wf(),
        ensures
            r == (Retry { phase: after_step(self.phase, reply, self.max_attempts), ..self }),
            r.wf(),
    {
        let Retry { product, max_attempts, phase } = self;
        let phase = match phase {
            RetryPhase::Attempt(n) => match reply {
                RetryReply::Done => RetryPhase::Succeeded(n),
                RetryReply::Failed(words) => if n < max_attempts {
                    RetryPhase::Reset { failed: n }
                } else {
                    RetryPhase::GaveUp(Some(words))
                },
                RetryReply::Wait(_) => RetryPhase::Attempt(n),
            },
            RetryPhase::Reset { failed } => match reply {
                RetryReply::Done => RetryPhase::Pause { failed },
                RetryReply::Failed(_) => RetryPhase::Attempt(failed + 1),
                RetryReply::Wait(_) => RetryPhase::Reset { failed },
            },
            RetryPhase::Pause { failed } => match reply {
                RetryReply::Done => RetryPhase::Await { failed, wait: WaitPhase::CheckTime },
                _ => RetryPhase::Pause { failed },
            },
            RetryPhase::Await { failed, wait } => match reply {
                RetryReply::Wait(answer) => {
                    let waited = DeviceWait {
                        product,
                        timeout_ns: REAPPEAR_TIMEOUT_NS,
                        phase: wait,
                    }.reply(answer);
                    match waited.phase {
                        WaitPhase::Found(_) => RetryPhase::Attempt(failed + 1),
                        WaitPhase::TimedOut => RetryPhase::Attempt(failed + 1),
                        WaitPhase::CheckTime => RetryPhase::Await {
                            failed,
                            wait: WaitPhase::CheckTime,
                        },
                        WaitPhase::Scan => RetryPhase::Await { failed, wait: WaitPhase::Scan },
                        WaitPhase::Pause => RetryPhase::Await { failed, wait: WaitPhase::Pause },
                    }
                },
                _ => RetryPhase::Await { failed, wait },
            },
            RetryPhase::Succeeded(n) => RetryPhase::Succeeded(n),
            RetryPhase::GaveUp(error) => RetryPhase::GaveUp(error),
        };
        Retry { product, max_attempts, phase }
    }

    /// The error where all attempts failed: the one of the last attempt.
    pub fn failure(&self) -> (r: Option<String>)
        ensures
            match self.phase {
                RetryPhase::GaveUp(Some(words)) => r matches Some(message) && message@ == words@,
                RetryPhase::GaveUp(None) => r matches Some(message) && message@ == "All "@
                    + text::decimal(self.max_attempts as nat) + " attempts failed"@,
                _ => r is None,
            },
    {
        match &self.phase {
            RetryPhase::GaveUp(Some(words)) => Some(words.clone()),
            RetryPhase::GaveUp(None) => {
                let mut message = "All ".to_owned();
                push_decimal(&mut message, self.max_attempts as u64);
                message.append(" attempts failed");
                Some(message)
            },
            _ => None,
        }
    }
}

// ---------------------------------------------------------------------------------------------
// Presence
// ---------------------------------------------------------------------------------------------

#[derive(Debug, Clone)]
pub struct DevicePresence {
    pub connected: bool,
    pub authorized: bool,
    pub sysfs_path: Option<String>,
}

/// Check if an Elgato product is currently connected and authorized. `found` is its sysfs path,
/// and `authorized` what its state file holds, where there is one.
pub fn check_device_present(found: Option<String>, authorized: Option<String>) -> (r: DevicePresence)
    ensures
        r.connected == (found is Some),
        r.sysfs_path == found,
        r.authorized == (found is Some && authorized is Some && text::natural_up_to(
            text::trimmed(authorized->0@),
            255,
        ) == Some(1nat)),
{
    match found {
        Some(path) => {
            let authorized = match authorized {
                Some(content) => {
                    let state = trim(content.as_str());
                    match parse_natural(state.as_str(), 255) {
                        Some(n) => n == 1,
                        None => false,
                    }
                },
                None => false,
            };
            DevicePresence { connected: true, authorized, sysfs_path: Some(path) }
        },
        None => DevicePresence { connected: false, authorized: false, sysfs_path: None },
    }
}

// ---------------------------------------------------------------------------------------------
// Laws
// ---------------------------------------------------------------------------------------------

/// What the system answers during a reset of a device that has a state file.
pub ghost struct ResetAnswers {
    pub read_before: ResetReply,
    pub write_zero: ResetReply,
    pub write_one: ResetReply,
    pub read_after: ResetReply,
}

/// Whether the answers belong to the questions: files are read or written, or that fails.
pub open spec fn answers_fit(a: ResetAnswers) -> bool {
    &&& a.read_before is Content || a.read_before is Failed
    &&& a.write_zero is Done || a.write_zero is Failed
    &&& a.write_one is Done || a.write_one is Failed
    &&& a.read_after is Content || a.read_after is Failed
}

/// Whether the deauthorization counts as made: the write succeeded, or it timed out.
pub open spec fn deauthorized(a: ResetAnswers, timeout_errno: i32) -> bool {
    match a.write_zero {
        ResetReply::Failed { timed_out, os_error, .. } => is_timeout(
            timed_out,
            os_error,
            timeout_errno,
        ),
        _ => true,
    }
}

/// The phase after all answers of a reset, the waits included.
pub open spec fn full_reset(a: ResetAnswers, timeout_errno: i32) -> ResetPhase {
    let p1 = after_answer(ResetPhase::CheckFile, ResetReply::Exists(true), timeout_errno);
    let p2 = after_answer(p1, a.read_before, timeout_errno);
    let p3 = after_answer(p2, a.write_zero, timeout_errno);
    let p4 = after_answer(p3, ResetReply::Done, timeout_errno);
    let p5 = after_answer(p4, a.write_one, timeout_errno);
    let p6 = after_answer(p5, ResetReply::Done, timeout_errno);
    after_answer(p6, a.read_after, timeout_errno)
}

/// A reset succeeds exactly where the state can be read before and after, the deauthorization
/// succeeds or times out, the reauthorization succeeds, and the device is authorized in the end.
pub proof fn reset_succeeds_iff(a: ResetAnswers, timeout_errno: i32)
    requires
        answers_fit(a),
    ensures
        full_reset(a, timeout_errno) is Succeeded <==> {
            &&& a.read_before is Content
            &&& deauthorized(a, timeout_errno)
            &&& a.write_one is Done
            &&& a.read_after matches ResetReply::Content(after) && text::trimmed(after@) == "1"@
        },
        full_reset(a, timeout_errno) is Succeeded || full_reset(a, timeout_errno) is Failed,
{
}

/// A reset that succeeds carries a warning exactly where the deauthorization timed out.
pub proof fn reset_warns_iff_timed_out(a: ResetAnswers, timeout_errno: i32)
    requires
        answers_fit(a),
    ensures
        full_reset(a, timeout_errno) matches ResetPhase::Succeeded { warning, .. } ==> (warning
            is Some <==> a.write_zero is Failed),
{
}

/// A device is never authorized again unless it was deauthorized before: the write of `1` is asked
/// for only after the wait that follows the write of `0`.
pub proof fn reauthorization_follows_deauthorization(
    phase: ResetPhase,
    reply: ResetReply,
    timeout_errno: i32,
)
    requires
        reset_request(after_answer(phase, reply, timeout_errno)) == ResetRequest::Write('1'),
        reset_request(phase) != ResetRequest::Write('1'),
    ensures
        phase is WaitGone,
        reset_request(phase) == ResetRequest::Sleep(DEAUTHORIZE_WAIT_MS),
{
}

/// A reset that is over stays over.
pub proof fn finished_reset_stays(phase: ResetPhase, reply: ResetReply, timeout_errno: i32)
    requires
        reset_request(phase) == ResetRequest::Nothing,
    ensures
        after_answer(phase, reply, timeout_errno) == phase,
{
}

/// The phase of a series of attempts after a list of answers, from some phase on.
pub open spec fn after_steps_from(phase: RetryPhase, replies: Seq<RetryReply>, max_attempts: u32) -> RetryPhase
    decreases replies.len(),
{
    if replies.len() == 0 {
        phase
    } else {
        after_step(
            after_steps_from(phase, replies.drop_last(), max_attempts),
            replies.last(),
            max_attempts,
        )
    }
}

/// The phase of a series of attempts after a list of answers.
pub open spec fn after_steps(replies: Seq<RetryReply>, max_attempts: u32) -> RetryPhase {
    after_steps_from(retry_start(max_attempts), replies, max_attempts)
}

/// Whether an answer says that the device is there.
pub open spec fn says_present(reply: RetryReply) -> bool {
    reply matches RetryReply::Wait(WaitReply::Scanned(Some(_)))
}

/// Whether an answer says that the device was waited for too long.
pub open spec fn says_late(reply: RetryReply) -> bool {
    reply matches RetryReply::Wait(WaitReply::Elapsed(elapsed)) && elapsed > REAPPEAR_TIMEOUT_NS
}

/// After a reset that succeeded, the operation is not tried again before an answer says that the
/// device is there, or that the time for it is over, whatever else is answered.
pub proof fn attempts_wait_for_the_device(failed: u32, replies: Seq<RetryReply>, max_attempts: u32)
    requires
        1 <= failed < max_attempts,
        replies.len() > 0,
        replies[0] is Done,
        forall|i: int|
            0 <= i < replies.len() ==> !says_present(#[trigger] replies[i]) && !says_late(replies[i]),
    ensures
        ({
            let phase = after_steps_from(RetryPhase::Reset { failed }, replies, max_attempts);
            &&& retry_ok(phase, max_attempts)
            &&& phase is Pause || phase is Await
        }),
    decreases replies.len(),
{
    let before = replies.drop_last();
    if before.len() > 0 {
        assert(before[0] == replies[0]);
        assert forall|i: int| 0 <= i < before.len() implies !says_present(#[trigger] before[i])
            && !says_late(before[i]) by {
            assert(before[i] == replies[i]);
        }
        attempts_wait_for_the_device(failed, before, max_attempts);
        assert(!says_present(replies[replies.len() - 1]));
    } else {
        assert(after_steps_from(RetryPhase::Reset { failed }, before, max_attempts)
            == RetryPhase::Reset { failed });
    }
}

/// Whatever the answers are, no more attempts are made than allowed, a reset only comes before a
/// further attempt, and only a series of no attempts ends without an error of its own.
pub proof fn retries_are_bounded(replies: Seq<RetryReply>, max_attempts: u32)
    ensures
        retry_ok(after_steps(replies, max_attempts), max_attempts),
    decreases replies.len(),
{
    if replies.len() > 0 {
        retries_are_bounded(replies.drop_last(), max_attempts);
    }
}

/// Where `k` attempts fail and every reset fails too, the attempt after them is number `k + 1`;
/// with no attempt left, the series ends with the error of the last one.
pub proof fn failing_attempts_are_counted(
    words: Seq<String>,
    reset_words: String,
    max_attempts: u32,
)
    requires
        0 < words.len() <= max_attempts,
    ensures
        words.len() < max_attempts ==> after_steps(
            failing_replies(words, reset_words),
            max_attempts,
        ) == RetryPhase::Attempt((words.len() + 1) as u32),
        words.len() == max_attempts ==> after_steps(
            failing_replies(words, reset_words).drop_last(),
            max_attempts,
        ) == RetryPhase::GaveUp(Some(words.last())),
    decreases words.len(),
{
    let all = failing_replies(words, reset_words);
    let before = failing_replies(words.drop_last(), reset_words);
    if words.len() > 1 {
        failing_attempts_are_counted(words.drop_last(), reset_words, max_attempts);
    } else {
        assert(words.drop_last().len() == 0);
        assert(before =~= Seq::empty());
    }
    let one = before.push(RetryReply::Failed(words.last()));
    assert(all.drop_last() =~= one);
    assert(one.drop_last() =~= before);
    let n = words.len();
    assert(after_steps(before, max_attempts) == RetryPhase::Attempt(n as u32));
    assert(after_steps(one, max_attempts) == after_step(
        RetryPhase::Attempt(n as u32),
        RetryReply::Failed(words.last()),
        max_attempts,
    ));
}

/// The answers where every attempt and every reset fails.
pub open spec fn failing_replies(words: Seq<String>, reset_words: String) -> Seq<RetryReply>
    decreases words.len(),
{
    if words.len() == 0 {
        Seq::empty()
    } else {
        failing_replies(words.drop_last(), reset_words).push(RetryReply::Failed(words.last())).push(
            RetryReply::Failed(reset_words),
        )
    }
}

/// The wait ends only in two ways: with a path that a search found, or when more time than allowed
/// had passed at a check.
pub proof fn waits_end_for_a_reason(phase: WaitPhase, reply: WaitReply, timeout_ns: u128)
    requires
        !(phase is Found),
        !(phase is TimedOut),
    ensures
        after_wait(phase, reply, timeout_ns) matches WaitPhase::Found(path) ==> phase is Scan
            && reply == WaitReply::Scanned(Some(path)),
        after_wait(phase, reply, timeout_ns) is TimedOut ==> phase is CheckTime && (
        reply matches WaitReply::Elapsed(elapsed) && elapsed > timeout_ns),
{
}

/// A reset in which every step succeeds makes these requests: it looks for the file, reads it, writes
/// 0, waits a second and a half, writes 1, waits four seconds and reads the file again. It ends with
/// what was read before and after.
pub proof fn a_reset_makes_these_requests(before: String, after: String, timeout_errno: i32)
    requires
        text::trimmed(after@) == seq!['1'],
    ensures
        ({
            let p1 = ResetPhase::CheckFile;
            let p2 = after_answer(p1, ResetReply::Exists(true), timeout_errno);
            let p3 = after_answer(p2, ResetReply::Content(before), timeout_errno);
            let p4 = after_answer(p3, ResetReply::Done, timeout_errno);
            let p5 = after_answer(p4, ResetReply::Done, timeout_errno);
            let p6 = after_answer(p5, ResetReply::Done, timeout_errno);
            let p7 = after_answer(p6, ResetReply::Done, timeout_errno);
            let p8 = after_answer(p7, ResetReply::Content(after), timeout_errno);
            &&& reset_request(p1) == ResetRequest::Exists
            &&& reset_request(p2) == ResetRequest::Read
            &&& reset_request(p3) == ResetRequest::Write('0')
            &&& reset_request(p4) == ResetRequest::Sleep(1500)
            &&& reset_request(p5) == ResetRequest::Write('1')
            &&& reset_request(p6) == ResetRequest::Sleep(4000)
            &&& reset_request(p7) == ResetRequest::Read
            &&& reset_request(p8) == ResetRequest::Nothing
            &&& p8 == (ResetPhase::Succeeded { before, warning: None, after })
        }),
{
    reveal_strlit("1");
    assert("1"@ =~= seq!['1']);
}

/// A step that fails ends the reset with its own error, except that the first write may time out: then
/// the reset goes on and remembers the words. A device that is not authorized at the end is not back.
pub proof fn resets_fail_with_their_step(
    before: String,
    after: String,
    warning: Option<String>,
    words: String,
    timed_out: bool,
    os_error: Option<i32>,
    timeout_errno: i32,
)
    ensures
        ({
            let failed = ResetReply::Failed { timed_out, os_error, words };
            &&& after_answer(ResetPhase::CheckFile, ResetReply::Exists(false), timeout_errno)
                == ResetPhase::Failed(ResetError::NoFile)
            &&& after_answer(ResetPhase::ReadBefore, failed, timeout_errno) == ResetPhase::Failed(
                ResetError::ReadBefore,
            )
            &&& !timed_out && os_error != Some(timeout_errno) ==> after_answer(
                ResetPhase::Deauthorize { before },
                failed,
                timeout_errno,
            ) == ResetPhase::Failed(ResetError::Deauthorize)
            &&& timed_out || os_error == Some(timeout_errno) ==> after_answer(
                ResetPhase::Deauthorize { before },
                failed,
                timeout_errno,
            ) == (ResetPhase::WaitGone { before, warning: Some(words) })
            &&& after_answer(ResetPhase::Reauthorize { before, warning }, failed, timeout_errno)
                == ResetPhase::Failed(ResetError::Reauthorize)
            &&& after_answer(ResetPhase::ReadAfter { before, warning }, failed, timeout_errno)
                == ResetPhase::Failed(ResetError::ReadAfter)
            &&& text::trimmed(after@) != seq!['1'] ==> after_answer(
                ResetPhase::ReadAfter { before, warning },
                ResetReply::Content(after),
                timeout_errno,
            ) == ResetPhase::Failed(ResetError::NotBack(after))
        }),
{
    reveal_strlit("1");
    assert("1"@ =~= seq!['1']);
}

/// A wait goes on while no more than its time has passed: at the very end of it there is one more
/// scan. It ends with the path that was found, and pauses after a scan that found nothing or failed.
pub proof fn waits_scan_until_their_time_is_over(elapsed: u128, timeout_ns: u128, path: String)
    ensures
        elapsed <= timeout_ns ==> after_wait(
            WaitPhase::CheckTime,
            WaitReply::Elapsed(elapsed),
            timeout_ns,
        ) is Scan,
        elapsed > timeout_ns ==> after_wait(
            WaitPhase::CheckTime,
            WaitReply::Elapsed(elapsed),
            timeout_ns,
        ) is TimedOut,
        after_wait(WaitPhase::Scan, WaitReply::Scanned(Some(path)), timeout_ns) == WaitPhase::Found(
            path,
        ),
        after_wait(WaitPhase::Scan, WaitReply::Scanned(None), timeout_ns) is Pause,
        after_wait(WaitPhase::Scan, WaitReply::ScanFailed, timeout_ns) is Pause,
        after_wait(WaitPhase::Pause, WaitReply::Paused, timeout_ns) is CheckTime,
        SCAN_PAUSE_MS == 200 && RETRY_PAUSE_MS == 1000 && REAPPEAR_TIMEOUT_NS == 10_000 * 1_000_000,
{
}

/// The time of a wait is shown in whole milliseconds.
pub proof fn waits_are_shown_in_milliseconds(
    product: ElgatoProduct,
    ms: nat,
    rest: nat,
    timeout_ns: u128,
)
    requires
        rest < 1_000_000,
        timeout_ns == ms * 1_000_000 + rest,
    ensures
        wait_timeout_text(product, timeout_ns) == "Timeout waiting for "@ + device::product_text(
            product,
        ) + " to appear ("@ + text::decimal(ms) + "ms)"@,
{
    assert(timeout_ns / 1_000_000 == ms);
}

/// An attempt that fails is followed by a reset while attempts are left; the last one that fails gives
/// its words. A reset that fails is followed by the next attempt at once, and one that succeeds by a
/// pause and the wait for the device. An attempt that succeeds ends the series with its number.
pub proof fn attempts_follow_each_other(n: u32, max_attempts: u32, words: String)
    requires
        1 <= n <= max_attempts,
    ensures
        after_step(RetryPhase::Attempt(n), RetryReply::Done, max_attempts) == RetryPhase::Succeeded(n),
        n == max_attempts ==> after_step(
            RetryPhase::Attempt(n),
            RetryReply::Failed(words),
            max_attempts,
        ) == RetryPhase::GaveUp(Some(words)),
        n < max_attempts ==> {
            let reset = after_step(RetryPhase::Attempt(n), RetryReply::Failed(words), max_attempts);
            &&& reset == (RetryPhase::Reset { failed: n })
            &&& after_step(reset, RetryReply::Failed(words), max_attempts) == RetryPhase::Attempt(
                (n + 1) as u32,
            )
            &&& after_step(reset, RetryReply::Done, max_attempts) == (RetryPhase::Pause { failed: n })
            &&& after_step(RetryPhase::Pause { failed: n }, RetryReply::Done, max_attempts) == (
            RetryPhase::Await { failed: n, wait: WaitPhase::CheckTime })
        },
        retry_start(max_attempts) == RetryPhase::Attempt(1),
        retry_start(0) == RetryPhase::GaveUp(None),
{
}

/// An error of a reset names the step that failed, and a device that is not back is shown with what its
/// file holds.
pub proof fn reset_errors_name_their_step(path: Seq<char>, state: String, words: Seq<char>)
    requires
        path.len() > 0,
        path.last() != '/',
    ensures
        reset_error_text(ResetError::NoFile, path) == "sysfs authorized file not found at "@ + (path
            + "/authorized"@),
        reset_error_text(ResetError::ReadBefore, path) == "Failed to read authorized state"@,
        reset_error_text(ResetError::Deauthorize, path) == "Failed to deauthorize USB device"@,
        reset_error_text(ResetError::Reauthorize, path) == "Failed to reauthorize USB device"@,
        reset_error_text(ResetError::ReadAfter, path)
            == "Failed to read authorized state after reset"@,
        reset_error_text(ResetError::NotBack(state), path)
            == "Device did not come back after reset (authorized = "@ + text::trimmed(state@) + ")"@,
        timeout_warning(words) == "authorized=0 returned ETIMEDOUT: "@ + words,
{
    reveal_strlit("/authorized");
    reveal_strlit("authorized");
    text::names_stand_behind_one_slash(path, "authorized"@);
    assert(path + seq!['/'] + "authorized"@ =~= path + "/authorized"@);
}

/// While a device is awaited after a reset, it is scanned for up to ten seconds; when it is found, and
/// when the time is over, the next attempt is made.
pub proof fn awaited_devices_lead_to_the_next_attempt(
    failed: u32,
    max_attempts: u32,
    path: String,
    elapsed: u128,
)
    requires
        1 <= failed < max_attempts,
    ensures
        after_step(
            RetryPhase::Await { failed, wait: WaitPhase::Scan },
            RetryReply::Wait(WaitReply::Scanned(Some(path))),
            max_attempts,
        ) == RetryPhase::Attempt((failed + 1) as u32),
        after_step(
            RetryPhase::Await { failed, wait: WaitPhase::Scan },
            RetryReply::Wait(WaitReply::Scanned(None)),
            max_attempts,
        ) == (RetryPhase::Await { failed, wait: WaitPhase::Pause }),
        after_step(
            RetryPhase::Await { failed, wait: WaitPhase::CheckTime },
            RetryReply::Wait(WaitReply::Elapsed(elapsed)),
            max_attempts,
        ) == if elapsed > 10_000_000_000 {
            RetryPhase::Attempt((failed + 1) as u32)
        } else {
            RetryPhase::Await { failed, wait: WaitPhase::Scan }
        },
{
}

} // verus!
