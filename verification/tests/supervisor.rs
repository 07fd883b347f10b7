use facecam::device::ElgatoProduct;
use facecam::supervisor::{Duty, DutyReply, Supervisor};
use facecam::types::{HealthStatus, PipelineState, StatusUpdate};

fn fail(words: &str) -> DutyReply {
    DutyReply::Failed(words.to_string())
}

fn broke(words: &str) -> DutyReply {
    DutyReply::Broke { words: words.to_string(), delivered: false }
}

fn running(max: u32) -> Supervisor {
    Supervisor::new(max)
        .reply(DutyReply::Found(ElgatoProduct::FacecamPro))
        .reply(DutyReply::Shutdown(false))
}

#[test]
fn without_a_source_the_supervisor_fails_at_once() {
    let s = Supervisor::new(5).reply(fail("none"));
    assert!(matches!(&s.duty, Duty::NoSource(w) if w == "none"));
    let published = s.announcements();
    assert!(matches!(published[0], StatusUpdate::State(PipelineState::Failed, HealthStatus::Unhealthy)));
    assert!(matches!(&published[1], StatusUpdate::LastError(Some(w)) if w == "none"));
}

#[test]
fn recovery_climbs_from_reopening_to_a_reset() {
    let mut s = running(5);
    s = s.reply(broke("one"));
    assert!(matches!(s.duty, Duty::Reopen));
    assert_eq!(s.pause_ms(), Some(500));
    let published = s.announcements();
    assert!(matches!(published[0], StatusUpdate::State(PipelineState::Recovering, HealthStatus::Degraded)));
    assert!(matches!(published[1], StatusUpdate::RecoveryCount(1)));
    s = s.reply(DutyReply::Done).reply(DutyReply::Shutdown(false)).reply(broke("two"));
    assert!(matches!(s.duty, Duty::Redetect));
    let fallback = s.clone().reply(fail("unplugged"));
    assert!(matches!(fallback.duty, Duty::Reset(ElgatoProduct::FacecamPro)));
    s = s.reply(DutyReply::Found(ElgatoProduct::Facecam));
    assert!(matches!(s.duty, Duty::Reset(ElgatoProduct::Facecam)));
    let failed = s.clone().reply(fail("reset"));
    assert_eq!(failed.pause_ms(), Some(3000));
    assert_eq!(failed.reply(DutyReply::Done).consecutive_failures, 2);
    s = s.reply(DutyReply::Done);
    assert_eq!(s.pause_ms(), Some(2000));
    s = s.reply(DutyReply::Done);
    assert_eq!((s.consecutive_failures, s.recovery_count), (0, 2));
    s = s.reply(DutyReply::Shutdown(true));
    assert!(matches!(
        s.announcements()[..],
        [StatusUpdate::State(PipelineState::ShuttingDown, HealthStatus::Healthy)]
    ));
}

#[test]
fn too_many_failures_end_in_a_hold_until_shutdown() {
    let mut s = running(1);
    s = s.reply(broke("one")).reply(DutyReply::Done).reply(DutyReply::Shutdown(false));
    s = s.reply(broke("two"));
    assert!(matches!(&s.duty, Duty::GaveUp(w) if w == "two"));
    assert!(matches!(&s.announcements()[1], StatusUpdate::LastError(Some(w)) if w == "two"));
    assert_eq!(s.recovery_count, 1);
    s = s.reply(DutyReply::Shutdown(false));
    assert_eq!(s.pause_ms(), Some(5000));
    s = s.reply(DutyReply::Done);
    assert!(matches!(s.duty, Duty::Hold));
    assert!(s.announcements().is_empty());
    s = s.reply(DutyReply::Shutdown(true));
    assert!(matches!(s.duty, Duty::Ended));
    let clean = running(1).reply(DutyReply::Done);
    assert!(matches!(clean.duty, Duty::Ended));
}

#[test]
fn successful_resets_keep_the_pipeline_going() {
    let mut s = running(2);
    for _ in 0..50 {
        s = s.reply(broke("x")).reply(DutyReply::Done).reply(DutyReply::Shutdown(false));
        s = s.reply(broke("x"));
        assert!(matches!(s.duty, Duty::Redetect));
        s = s.reply(fail("no")).reply(DutyReply::Done).reply(DutyReply::Done).reply(DutyReply::Shutdown(false));
        assert!(matches!(s.duty, Duty::RunOnce));
    }
    assert_eq!(s.recovery_count, 100);
}

#[test]
fn frames_start_the_ladder_anew() {
    let late = || DutyReply::Broke { words: "late".to_string(), delivered: true };
    let mut s = running(2).reply(broke("one")).reply(DutyReply::Done).reply(DutyReply::Shutdown(false));
    for round in 0..5 {
        s = s.reply(late());
        assert!(matches!(s.duty, Duty::Reopen));
        assert_eq!((s.consecutive_failures, s.recovery_count), (1, 2 + round));
        s = s.reply(DutyReply::Done).reply(DutyReply::Shutdown(false));
    }
    s = s.reply(broke("two"));
    assert!(matches!(s.duty, Duty::Redetect));
    assert!(matches!(running(0).reply(late()).duty, Duty::GaveUp(_)));
}

#[test]
fn restarts_run_the_pipeline_again() {
    let s = running(2).reply(broke("one")).reply(DutyReply::Done).reply(DutyReply::Shutdown(false));
    let again = s.clone().reply(DutyReply::Restart { delivered: false });
    assert!(matches!(again.duty, Duty::CheckShutdown));
    assert_eq!((again.consecutive_failures, again.recovery_count), (1, 1));
    let worked = s.reply(DutyReply::Restart { delivered: true }).reply(DutyReply::Shutdown(false));
    assert!(matches!(worked.duty, Duty::RunOnce));
    assert_eq!((worked.consecutive_failures, worked.recovery_count), (0, 1));
}
