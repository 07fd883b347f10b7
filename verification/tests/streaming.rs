use facecam::streaming::{reports_drop, signal, CaptureLoop, LoopPhase, LoopReply};
use facecam::types::{DaemonStatus, PipelineState, StatusUpdate};

fn fail(words: &str) -> LoopReply {
    LoopReply::Failed(words.to_string())
}

#[test]
fn frames_are_counted_and_published() {
    let mut l = CaptureLoop::new();
    for written in [true, false, true] {
        l = l.reply(LoopReply::Shutdown(false));
        l = l.reply(LoopReply::Done);
        assert!(matches!(l.phase, LoopPhase::Write));
        l = l.reply(if written { LoopReply::Done } else { fail("full") });
        l = l.reply(LoopReply::Elapsed(5_000_000_000));
        assert!(matches!(l.phase, LoopPhase::CheckShutdown));
    }
    assert_eq!((l.acquired, l.written, l.dropped), (3, 2, 1));
    assert!(matches!(l.counts(), StatusUpdate::FrameCounts(3, 2, 1)));
    l = l.reply(LoopReply::Shutdown(false)).reply(LoopReply::Done).reply(LoopReply::Done);
    l = l.reply(LoopReply::Elapsed(5_000_000_001));
    assert!(matches!(l.phase, LoopPhase::Publish));
    l = l.reply(LoopReply::Done).reply(LoopReply::Shutdown(true));
    assert!(matches!(l.phase, LoopPhase::StopAndEnd));
    l = l.reply(LoopReply::Done);
    assert!(matches!(l.phase, LoopPhase::Ended));
    assert!(l.failure().is_none());
    assert!(reports_drop(1) && reports_drop(101) && !reports_drop(100));
}

#[test]
fn the_first_missing_frame_tries_rung_one() {
    let mut l = CaptureLoop::new().reply(LoopReply::Shutdown(false)).reply(fail("timeout"));
    assert!(matches!(l.phase, LoopPhase::StopForRungOne { .. }));
    l = l.reply(LoopReply::Done);
    assert!(matches!(l.phase, LoopPhase::CycleStream { .. }));
    l = l.reply(fail("EINVAL"));
    l = l.reply(LoopReply::Done);
    assert!(matches!(l.phase, LoopPhase::CheckShutdown));
    assert!(l.rung_one_tried);
    let failed = l.clone().reply(LoopReply::Shutdown(false)).reply(fail("again")).reply(LoopReply::Done);
    assert_eq!(
        failed.failure().unwrap(),
        "Capture failed twice in succession; reopening pipeline: again"
    );
    l = l.reply(LoopReply::Shutdown(false)).reply(LoopReply::Done);
    assert!(!l.rung_one_tried);
}

#[test]
fn failures_tell_what_rung_one_ran_into() {
    let cycle = || CaptureLoop::new().reply(LoopReply::Shutdown(false)).reply(fail("t")).reply(LoopReply::Done);
    let both = cycle().reply(fail("s")).reply(fail("r")).reply(LoopReply::Done);
    assert_eq!(
        both.failure().unwrap(),
        "Capture failed twice in succession; reopening pipeline: t (after rung 1 STREAMON: s; session restart: r)"
    );
    let session = cycle().reply(LoopReply::Done).reply(fail("r"));
    assert!(session.failure().is_none());
    assert_eq!(
        session.reply(fail("ignored")).failure().unwrap(),
        "Capture failed twice in succession; reopening pipeline: t (after rung 1 session restart: r)"
    );
}

#[test]
fn restarts_end_the_session() {
    let mut status = DaemonStatus::initial(None, "/dev/video10".to_string(), "default".to_string());
    status.state = PipelineState::Streaming;
    assert!(matches!(signal(false, status.state), LoopReply::Shutdown(false)));
    status.apply(StatusUpdate::Restart);
    assert!(matches!(signal(true, status.state), LoopReply::Shutdown(true)));
    let mut l = CaptureLoop::new();
    assert!(!l.delivered());
    l = l.reply(LoopReply::Shutdown(false)).reply(LoopReply::Done).reply(LoopReply::Done);
    l = l.reply(LoopReply::Elapsed(1));
    assert!(l.delivered());
    l = l.reply(signal(false, status.state));
    assert!(matches!(l.phase, LoopPhase::StopForRestart));
    l = l.reply(LoopReply::Done);
    assert!(matches!(l.phase, LoopPhase::Restarting));
    assert!(l.failure().is_none());
}
