use facecam::bytes::ByteOrder;
use facecam::capture::BufferCall;
use facecam::device::ElgatoProduct;
use facecam::recovery::{
    check_device_present, retry_with_reset, stream_off_then_on, usb_reset_device,
    usb_reset_product, wait_for_device, ResetReply, ResetRequest, ResetResult, RetryPhase,
    RetryReply, UsbReset, WaitPhase, WaitReply, STREAM_CYCLE_FAILED,
};

const ETIMEDOUT: i32 = 110;

fn text(s: &str) -> ResetReply {
    ResetReply::Content(s.to_string())
}

fn failure(timed_out: bool, os_error: Option<i32>) -> ResetReply {
    ResetReply::Failed { timed_out, os_error, words: "words".to_string() }
}

fn run(replies: Vec<ResetReply>) -> (UsbReset, Vec<ResetRequest>) {
    let mut reset = usb_reset_device("/sys/x".to_string(), ETIMEDOUT);
    let mut asked = Vec::new();
    for reply in replies {
        asked.push(reset.request());
        reset = reset.reply(reply);
    }
    (reset, asked)
}

fn message(reset: &UsbReset) -> String {
    reset.result().unwrap().unwrap_err()
}

#[test]
fn reset_result_supports_warnings() {
    let r = ResetResult {
        sysfs_path: "/dev/null".to_string(),
        success: true,
        previous_state: "1".into(),
        new_state: "1".into(),
        warnings: vec!["authorized=0 timed out".into()],
    };
    assert_eq!(r.warnings.len(), 1);
}

#[test]
fn a_reset_switches_the_device_off_and_on() {
    let (reset, asked) = run(vec![
        ResetReply::Exists(true),
        text("1\n"),
        ResetReply::Done,
        ResetReply::Done,
        ResetReply::Done,
        ResetReply::Done,
        text("1\n"),
    ]);
    assert_eq!(
        asked,
        vec![
            ResetRequest::Exists,
            ResetRequest::Read,
            ResetRequest::Write('0'),
            ResetRequest::Sleep(1500),
            ResetRequest::Write('1'),
            ResetRequest::Sleep(4000),
            ResetRequest::Read,
        ]
    );
    assert_eq!(reset.request(), ResetRequest::Nothing);
    assert_eq!(reset.file(), "/sys/x/authorized");
    let result = reset.result().unwrap().unwrap();
    assert_eq!(result.sysfs_path, "/sys/x");
    assert!(result.success && result.warnings.is_empty());
    assert_eq!((result.previous_state.as_str(), result.new_state.as_str()), ("1", "1"));
}

#[test]
fn a_timed_out_deauthorization_is_only_a_warning() {
    for timeout in [failure(true, None), failure(false, Some(ETIMEDOUT))] {
        let (reset, _) = run(vec![
            ResetReply::Exists(true),
            text("1"),
            timeout,
            ResetReply::Done,
            ResetReply::Done,
            ResetReply::Done,
            text("1"),
        ]);
        let result = reset.result().unwrap().unwrap();
        assert_eq!(result.warnings, vec!["authorized=0 returned ETIMEDOUT: words"]);
    }
}

#[test]
fn every_failed_step_of_a_reset_is_named() {
    let (reset, _) = run(vec![ResetReply::Exists(false)]);
    assert_eq!(message(&reset), "sysfs authorized file not found at /sys/x/authorized");
    let (reset, _) = run(vec![ResetReply::Exists(true), failure(false, None)]);
    assert_eq!(message(&reset), "Failed to read authorized state");
    let (reset, _) = run(vec![ResetReply::Exists(true), text("1"), failure(false, Some(13))]);
    assert_eq!(message(&reset), "Failed to deauthorize USB device");
    let start = || vec![ResetReply::Exists(true), text("1"), ResetReply::Done, ResetReply::Done];
    let mut replies = start();
    replies.push(failure(true, None));
    assert_eq!(message(&run(replies).0), "Failed to reauthorize USB device");
    let mut replies = start();
    replies.extend([ResetReply::Done, ResetReply::Done, failure(false, None)]);
    assert_eq!(message(&run(replies).0), "Failed to read authorized state after reset");
    let mut replies = start();
    replies.extend([ResetReply::Done, ResetReply::Done, text(" 0\n")]);
    assert_eq!(
        message(&run(replies).0),
        "Device did not come back after reset (authorized = 0)"
    );
    let (reset, _) = run(start());
    assert!(reset.result().is_none());
}

#[test]
fn a_product_has_to_be_found_for_a_reset() {
    let missing = usb_reset_product(ElgatoProduct::FacecamPro, Ok(None), ETIMEDOUT).unwrap_err();
    assert_eq!(missing, format!("{} not found in sysfs", ElgatoProduct::FacecamPro.to_text()));
    let broken = usb_reset_product(ElgatoProduct::Facecam, Err("io".to_string()), ETIMEDOUT);
    assert_eq!(broken.unwrap_err(), "io");
    let found = usb_reset_product(ElgatoProduct::Facecam, Ok(Some("/sys/y".to_string())), 7).unwrap();
    assert_eq!((found.sysfs_path.as_str(), found.timeout_errno), ("/sys/y", 7));
}

#[test]
fn the_stream_cycle_is_off_then_on() {
    let (off, on) = stream_off_then_on(ByteOrder::Little);
    assert!(matches!(off, BufferCall::StreamOff([1, 0, 0, 0])));
    assert!(matches!(on, BufferCall::StreamOn([1, 0, 0, 0])));
    assert_eq!(STREAM_CYCLE_FAILED, "STREAMON after in-place recovery");
}

#[test]
fn retries_reset_between_attempts() {
    let fail = |w: &str| RetryReply::Failed(w.to_string());
    let mut retry = retry_with_reset(ElgatoProduct::FacecamPro, 3);
    retry = retry.reply(fail("first"));
    assert!(matches!(retry.phase, RetryPhase::Reset { failed: 1 }));
    retry = retry.reply(RetryReply::Done);
    assert!(matches!(retry.phase, RetryPhase::Pause { failed: 1 }));
    retry = retry.reply(RetryReply::Done);
    for elapsed in [0, 1_000_000_000, 2_000_000_000, 3_000_000_000] {
        assert!(matches!(retry.phase, RetryPhase::Await { failed: 1, wait: WaitPhase::CheckTime }));
        retry = retry.reply(RetryReply::Wait(WaitReply::Elapsed(elapsed)));
        retry = retry.reply(RetryReply::Done);
        retry = retry.reply(RetryReply::Wait(WaitReply::Scanned(None)));
        retry = retry.reply(RetryReply::Wait(WaitReply::Paused));
    }
    let late = retry.clone().reply(RetryReply::Wait(WaitReply::Elapsed(10_000_000_001)));
    assert!(matches!(late.phase, RetryPhase::Attempt(2)));
    retry = retry.reply(RetryReply::Wait(WaitReply::Elapsed(3_200_000_000)));
    retry = retry.reply(RetryReply::Wait(WaitReply::Scanned(Some("/sys/x".to_string()))));
    assert!(matches!(retry.phase, RetryPhase::Attempt(2)));
    retry = retry.reply(fail("second"));
    retry = retry.reply(fail("reset"));
    assert!(matches!(retry.phase, RetryPhase::Attempt(3)));
    assert!(retry.failure().is_none());
    retry = retry.reply(fail("third"));
    assert_eq!(retry.failure(), Some("third".to_string()));
    let lucky = retry_with_reset(ElgatoProduct::FacecamPro, 2).reply(RetryReply::Done);
    assert!(matches!(lucky.phase, RetryPhase::Succeeded(1)));
    assert_eq!(retry_with_reset(ElgatoProduct::FacecamPro, 0).failure(), Some("All 0 attempts failed".to_string()));
}

#[test]
fn waiting_ends_with_the_device_or_the_timeout() {
    let mut wait = wait_for_device(ElgatoProduct::Facecam, 1_500_000_000);
    wait = wait.reply(WaitReply::Elapsed(1_500_000_000));
    assert!(matches!(wait.phase, WaitPhase::Scan));
    wait = wait.reply(WaitReply::Scanned(None));
    wait = wait.reply(WaitReply::Paused);
    wait = wait.reply(WaitReply::Elapsed(1));
    wait = wait.reply(WaitReply::ScanFailed);
    assert!(matches!(wait.phase, WaitPhase::Pause));
    wait = wait.reply(WaitReply::Paused);
    let found = wait.clone().reply(WaitReply::Elapsed(2)).reply(WaitReply::Scanned(Some("/sys/x".to_string())));
    assert!(matches!(found.phase, WaitPhase::Found(p) if p == "/sys/x"));
    wait = wait.reply(WaitReply::Elapsed(1_500_000_001));
    assert!(matches!(wait.phase, WaitPhase::TimedOut));
    assert_eq!(
        wait_for_device(ElgatoProduct::Facecam, u128::MAX).timeout_text(),
        format!(
            "Timeout waiting for {} to appear ({}ms)",
            ElgatoProduct::Facecam.to_text(),
            u128::MAX / 1_000_000
        )
    );
    assert_eq!(
        wait.timeout_text(),
        format!("Timeout waiting for {} to appear (1500ms)", ElgatoProduct::Facecam.to_text())
    );
}

#[test]
fn presence_needs_a_path_and_the_state_one() {
    let path = || Some("/sys/x".to_string());
    let state = |s: &str| Some(s.to_string());
    let p = check_device_present(path(), state("1\n"));
    assert!(p.connected && p.authorized);
    assert_eq!(p.sysfs_path, path());
    assert!(!check_device_present(path(), state("0")).authorized);
    assert!(!check_device_present(path(), state("x")).authorized);
    assert!(!check_device_present(path(), None).authorized);
    let gone = check_device_present(None, state("1"));
    assert!(!gone.connected && !gone.authorized && gone.sysfs_path.is_none());
}
