//! The loop that forwards frames from the camera to the sink, with the first rung of recovery.

use crate::types::{self, DaemonStatus, PipelineState, StatusUpdate};
use vstd::prelude::*;
use vstd::string::*;

verus! {

/// How much time passes at least between two updates of the frame counts, in nanoseconds.
pub const STATS_INTERVAL_NS: u128 = 5_000_000_000;

/// Why the first rung of recovery did not help.
#[derive(Debug, Clone)]
pub struct RungOne {
    /// The stream could not be started again in place; the words of the error.
    pub stream_on: Option<String>,
    /// The session could not be started again; the words of the error.
    pub session: Option<String>,
}

/// What the loop is to do next.
#[derive(Debug, Clone)]
pub enum LoopPhase {
    /// See whether a shutdown or a restart was asked for.
    CheckShutdown,
    /// Wait for the next frame.
    Acquire,
    /// Write the frame to the sink.
    Write,
    /// See how much time has passed since the counts were published.
    CheckTime,
    /// Publish the frame counts, and start measuring time anew.
    Publish,
    /// Stop the session, for the first rung of recovery; why no frame came.
    StopForRungOne { cause: String },
    /// Stop and start the stream in place.
    CycleStream { cause: String },
    /// Start the session again.
    RestartSession { cause: String, stream_on: Option<String> },
    /// Stop the session, and give up.
    StopAndFail { cause: String, rung_one: RungOne },
    /// Stop the session, since a shutdown was asked for.
    StopAndEnd,
    /// Stop the session, since a restart was asked for.
    StopForRestart,
    /// The loop has ended for a shutdown.
    Ended,
    /// The loop has ended so that the pipeline is opened again.
    Restarting,
    /// The loop has failed.
    Failed { cause: String, rung_one: RungOne },
}

/// What came of it.
#[derive(Debug, Clone)]
pub enum LoopReply {
    /// Whether a shutdown was asked for.
    Shutdown(bool),
    /// A restart was asked for.
    Restart,
    /// It succeeded.
    Done,
    /// It failed; the words of the error.
    Failed(String),
    /// So much time has passed, in nanoseconds.
    Elapsed(u128),
}

/// The loop: what is next, the frame counts, and whether the first rung of recovery was tried since
/// the last frame.
#[derive(Debug, Clone)]
pub struct CaptureLoop {
    pub phase: LoopPhase,
    pub acquired: u64,
    pub written: u64,
    pub dropped: u64,
    pub rung_one_tried: bool,
}

/// A loop that has not forwarded any frame yet.
pub open spec fn new_loop() -> CaptureLoop {
    CaptureLoop {
        phase: LoopPhase::CheckShutdown,
        acquired: 0,
        written: 0,
        dropped: 0,
        rung_one_tried: false,
    }
}

/// The loop after a step. An answer that does not belong to the step changes nothing.
pub open spec fn after_step(l: CaptureLoop, reply: LoopReply) -> CaptureLoop {
    match l.phase {
        LoopPhase::CheckShutdown => match reply {
            LoopReply::Shutdown(true) => CaptureLoop { phase: LoopPhase::StopAndEnd, ..l },
            LoopReply::Shutdown(false) => CaptureLoop { phase: LoopPhase::Acquire, ..l },
            LoopReply::Restart => CaptureLoop { phase: LoopPhase::StopForRestart, ..l },
            _ => l,
        },
        LoopPhase::Acquire => match reply {
            LoopReply::Done => CaptureLoop {
                phase: LoopPhase::Write,
                acquired: (l.acquired + 1) as u64,
                rung_one_tried: false,
                ..l
            },
            LoopReply::Failed(cause) => if l.rung_one_tried {
                CaptureLoop {
                    phase: LoopPhase::StopAndFail {
                        cause,
                        rung_one: RungOne { stream_on: None, session: None },
                    },
                    ..l
                }
            } else {
                CaptureLoop {
                    phase: LoopPhase::StopForRungOne { cause },
                    rung_one_tried: true,
                    ..l
                }
            },
            _ => l,
        },
        LoopPhase::Write => match reply {
            LoopReply::Done => CaptureLoop {
                phase: LoopPhase::CheckTime,
                written: (l.written + 1) as u64,
                ..l
            },
            LoopReply::Failed(_) => CaptureLoop {
                phase: LoopPhase::CheckTime,
                dropped: (l.dropped + 1) as u64,
                ..l
            },
            _ => l,
        },
        LoopPhase::CheckTime => match reply {
            LoopReply::Elapsed(elapsed) => CaptureLoop {
                phase: if elapsed > STATS_INTERVAL_NS {
                    LoopPhase::Publish
                } else {
                    LoopPhase::CheckShutdown
                },
                ..l
            },
            _ => l,
        },
        LoopPhase::Publish => match reply {
            LoopReply::Done => CaptureLoop { phase: LoopPhase::CheckShutdown, ..l },
            _ => l,
        },
        LoopPhase::StopForRungOne { cause } => match reply {
            LoopReply::Done | LoopReply::Failed(_) => CaptureLoop {
                phase: LoopPhase::CycleStream { cause },
                ..l
            },
            _ => l,
        },
        LoopPhase::CycleStream { cause } => match reply {
            LoopReply::Done => CaptureLoop {
                phase: LoopPhase::RestartSession { cause, stream_on: None },
                ..l
            },
            LoopReply::Failed(words) => CaptureLoop {
                phase: LoopPhase::RestartSession { cause, stream_on: Some(words) },
                ..l
            },
            _ => l,
        },
        LoopPhase::RestartSession { cause, stream_on } => match reply {
            LoopReply::Done => CaptureLoop { phase: LoopPhase::CheckShutdown, ..l },
            LoopReply::Failed(words) => CaptureLoop {
                phase: LoopPhase::StopAndFail {
                    cause,
                    rung_one: RungOne { stream_on, session: Some(words) },
                },
                ..l
            },
            _ => l,
        },
        LoopPhase::StopAndFail { cause, rung_one } => match reply {
            LoopReply::Done | LoopReply::Failed(_) => CaptureLoop {
                phase: LoopPhase::Failed { cause, rung_one },
                ..l
            },
            _ => l,
        },
        LoopPhase::StopAndEnd => match reply {
            LoopReply::Done | LoopReply::Failed(_) => CaptureLoop { phase: LoopPhase::Ended, ..l },
            _ => l,
        },
        LoopPhase::StopForRestart => match reply {
            LoopReply::Done | LoopReply::Failed(_) => CaptureLoop {
                phase: LoopPhase::Restarting,
                ..l
            },
            _ => l,
        },
        LoopPhase::Ended => l,
        LoopPhase::Restarting => l,
        LoopPhase::Failed { .. } => l,
    }
}

/// Whether the counts agree: every frame that was acquired was written or dropped, or is being
/// written.
pub open spec fn counts_ok(l: CaptureLoop) -> bool {
    l.acquired == l.written + l.dropped + if l.phase is Write {
        1int
    } else {
        0int
    }
}

/// The message of a loop that failed: why no frame came, and what went wrong in the first rung of
/// recovery.
pub open spec fn failure_text(cause: Seq<char>, rung_one: RungOne) -> Seq<char> {
    "Capture failed twice in succession; reopening pipeline: "@ + cause + match (
        rung_one.stream_on,
        rung_one.session,
    ) {
        (Some(s), Some(r)) => " (after rung 1 STREAMON: "@ + s@ + "; session restart: "@ + r@
            + ")"@,
        (Some(s), None) => " (after rung 1 STREAMON: "@ + s@ + ")"@,
        (None, Some(r)) => " (after rung 1 session restart: "@ + r@ + ")"@,
        (None, None) => Seq::empty(),
    }
}

/// Whether a failed write is worth a word: the first one, and then every hundredth.
pub fn reports_drop(dropped: u64) -> (r: bool)
    ensures
        r == (dropped % 100 == 1),
{
    dropped % 100 == 1
}

/// What was asked for, where the loop looks for it: a shutdown comes first, and a pipeline whose
/// state was set to recovering while it streams is to be restarted.
pub open spec fn asked(shutdown: bool, state: PipelineState) -> LoopReply {
    if shutdown {
        LoopReply::Shutdown(true)
    } else if state == PipelineState::Recovering {
        LoopReply::Restart
    } else {
        LoopReply::Shutdown(false)
    }
}

/// What was asked for: `shutdown` is whether a shutdown was, and `state` the state that is
/// published at this time.
pub fn signal(shutdown: bool, state: PipelineState) -> (r: LoopReply)
    ensures
        r == asked(shutdown, state),
{
    if shutdown {
        LoopReply::Shutdown(true)
    } else if state == PipelineState::Recovering {
        LoopReply::Restart
    } else {
        LoopReply::Shutdown(false)
    }
}

impl CaptureLoop {
    /// A loop that has not forwarded any frame yet.
    pub fn new() -> (r: Self)
        ensures
            r == new_loop(),
            counts_ok(r),
    {
        CaptureLoop {
            phase: LoopPhase::CheckShutdown,
            acquired: 0,
            written: 0,
            dropped: 0,
            rung_one_tried: false,
        }
    }

    /// Takes what came of the last step. The frame counter must not be at its end.
    pub fn reply(self, reply: LoopReply) -> (r: Self)
        requires
            counts_ok(self),
            self.acquired < u64::MAX,
        ensures
            r == after_step(self, reply),
            counts_ok(r),
    {
        let CaptureLoop { phase, acquired, written, dropped, rung_one_tried } = self;
        let mut next = CaptureLoop {
            phase: LoopPhase::Ended,
            acquired,
            written,
            dropped,
            rung_one_tried,
        };
        next.phase = match phase {
            LoopPhase::CheckShutdown => match reply {
                LoopReply::Shutdown(true) => LoopPhase::StopAndEnd,
                LoopReply::Shutdown(false) => LoopPhase::Acquire,
                LoopReply::Restart => LoopPhase::StopForRestart,
                _ => LoopPhase::CheckShutdown,
            },
            LoopPhase::Acquire => match reply {
                LoopReply::Done => {
                    next.acquired = acquired + 1;
                    next.rung_one_tried = false;
                    LoopPhase::Write
                },
                LoopReply::Failed(cause) => if rung_one_tried {
                    LoopPhase::StopAndFail {
                        cause,
                        rung_one: RungOne { stream_on: None, session: None },
                    }
                } else {
                    next.rung_one_tried = true;
                    LoopPhase::StopForRungOne { cause }
                },
                _ => LoopPhase::Acquire,
            },
            LoopPhase::Write => match reply {
                LoopReply::Done => {
                    next.written = written + 1;
                    LoopPhase::CheckTime
                },
                LoopReply::Failed(_) => {
                    next.dropped = dropped + 1;
                    LoopPhase::CheckTime
                },
                _ => LoopPhase::Write,
            },
            LoopPhase::CheckTime => match reply {
                LoopReply::Elapsed(elapsed) => if elapsed > STATS_INTERVAL_NS {
                    LoopPhase::Publish
                } else {
                    LoopPhase::CheckShutdown
                },
                _ => LoopPhase::CheckTime,
            },
            LoopPhase::Publish => match reply {
                LoopReply::Done => LoopPhase::CheckShutdown,
                _ => LoopPhase::Publish,
            },
            LoopPhase::StopForRungOne { cause } => match reply {
                LoopReply::Done | LoopReply::Failed(_) => LoopPhase::CycleStream { cause },
                _ => LoopPhase::StopForRungOne { cause },
            },
            LoopPhase::CycleStream { cause } => match reply {
                LoopReply::Done => LoopPhase::RestartSession { cause, stream_on: None },
                LoopReply::Failed(words) => LoopPhase::RestartSession {
                    cause,
                    stream_on: Some(words),
                },
                _ => LoopPhase::CycleStream { cause },
            },
            LoopPhase::RestartSession { cause, stream_on } => match reply {
                LoopReply::Done => LoopPhase::CheckShutdown,
                LoopReply::Failed(words) => LoopPhase::StopAndFail {
                    cause,
                    rung_one: RungOne { stream_on, session: Some(words) },
                },
                _ => LoopPhase::RestartSession { cause, stream_on },
            },
            LoopPhase::StopAndFail { cause, rung_one } => match reply {
                LoopReply::Done | LoopReply::Failed(_) => LoopPhase::Failed { cause, rung_one },
                _ => LoopPhase::StopAndFail { cause, rung_one },
            },
            LoopPhase::StopAndEnd => match reply {
                LoopReply::Done | LoopReply::Failed(_) => LoopPhase::Ended,
                _ => LoopPhase::StopAndEnd,
            },
            LoopPhase::StopForRestart => match reply {
                LoopReply::Done | LoopReply::Failed(_) => LoopPhase::Restarting,
                _ => LoopPhase::StopForRestart,
            },
            LoopPhase::Ended => LoopPhase::Ended,
            LoopPhase::Restarting => LoopPhase::Restarting,
            LoopPhase::Failed { cause, rung_one } => LoopPhase::Failed { cause, rung_one },
        };
        next
    }

    /// The frame counts, as they are published.
    pub fn counts(&self) -> (r: StatusUpdate)
        ensures
            r == StatusUpdate::FrameCounts(self.acquired, self.written, self.dropped),
    {
        StatusUpdate::FrameCounts(self.acquired, self.written, self.dropped)
    }

    /// Whether a frame came from the camera.
    pub fn delivered(&self) -> (r: bool)
        ensures
            r == (self.acquired > 0),
    {
        self.acquired > 0
    }

    /// The message of a loop that failed.
    pub fn failure(&self) -> (r: Option<String>)
        ensures
            match self.phase {
                LoopPhase::Failed { cause, rung_one } => r matches Some(message) && message@
                    == failure_text(cause@, rung_one),
                _ => r is None,
            },
    {
        match &self.phase {
            LoopPhase::Failed { cause, rung_one } => {
                let mut out = "Capture failed twice in succession; reopening pipeline: ".to_owned();
                out.append(cause.as_str());
                let ghost head = out@;
                match (&rung_one.stream_on, &rung_one.session) {
                    (Some(s), Some(r)) => {
                        out.append(" (after rung 1 STREAMON: ");
                        out.append(s.as_str());
                        out.append("; session restart: ");
                        out.append(r.as_str());
                        out.append(")");
                    },
                    (Some(s), None) => {
                        out.append(" (after rung 1 STREAMON: ");
                        out.append(s.as_str());
                        out.append(")");
                    },
                    (None, Some(r)) => {
                        out.append(" (after rung 1 session restart: ");
                        out.append(r.as_str());
                        out.append(")");
                    },
                    (None, None) => {},
                }
                proof {
                    assert(out@ =~= failure_text(cause@, *rung_one));
                }
                Some(out)
            },
            _ => None,
        }
    }
}

// ---------------------------------------------------------------------------------------------
// Laws
// ---------------------------------------------------------------------------------------------

/// No frame is lost from the counts: at every point, each acquired frame was written or dropped,
/// or is being written.
pub proof fn every_frame_is_counted(l: CaptureLoop, reply: LoopReply)
    requires
        counts_ok(l),
        l.acquired < u64::MAX,
    ensures
        counts_ok(after_step(l, reply)),
{
}

/// The first missing frame after one that came is answered with the first rung of recovery, and
/// not with a failure.
pub proof fn first_failure_tries_rung_one(l: CaptureLoop, cause: String)
    requires
        l.phase is Acquire,
        !l.rung_one_tried,
    ensures
        after_step(l, LoopReply::Failed(cause)).phase == (LoopPhase::StopForRungOne { cause }),
        after_step(l, LoopReply::Failed(cause)).rung_one_tried,
{
}

/// The loop gives up only after the first rung was tried and no frame came since: either the
/// session could not be restarted, or the frame after the restart is missing too.
pub proof fn giving_up_follows_rung_one(l: CaptureLoop, reply: LoopReply)
    requires
        !(l.phase is StopAndFail),
        l.phase is RestartSession ==> l.rung_one_tried,
    ensures
        after_step(l, reply).phase is StopAndFail ==> l.rung_one_tried && (l.phase is Acquire
            || l.phase is RestartSession),
{
}

/// While the first rung is being tried, the loop remembers it, and a frame makes it forget.
pub proof fn rung_one_is_remembered(l: CaptureLoop, reply: LoopReply)
    requires
        l.phase is StopForRungOne || l.phase is CycleStream || l.phase is RestartSession
            ==> l.rung_one_tried,
    ensures
        ({
            let next = after_step(l, reply);
            &&& next.phase is StopForRungOne || next.phase is CycleStream
                || next.phase is RestartSession ==> next.rung_one_tried
            &&& l.phase is Acquire && reply is Done ==> !next.rung_one_tried
        }),
{
}

/// A shutdown is looked for before every frame, and it ends the loop without a failure.
pub proof fn shutdown_ends_the_loop(l: CaptureLoop)
    requires
        l.phase is CheckShutdown,
    ensures
        after_step(
            after_step(l, LoopReply::Shutdown(true)),
            LoopReply::Done,
        ).phase is Ended,
{
}

/// A restart that is published while the pipeline streams ends the session and the loop, without a
/// failure, so that the pipeline is opened again.
pub proof fn restarts_end_the_session(l: CaptureLoop, status: DaemonStatus)
    requires
        l.phase is CheckShutdown,
    ensures
        ({
            let told = asked(false, types::updated(status, StatusUpdate::Restart).state);
            let stopping = after_step(l, told);
            &&& stopping.phase is StopForRestart
            &&& after_step(stopping, LoopReply::Done).phase is Restarting
        }),
{
}

/// The loop after a list of replies.
pub open spec fn after_steps(replies: Seq<LoopReply>) -> CaptureLoop
    decreases replies.len(),
{
    if replies.len() == 0 {
        new_loop()
    } else {
        after_step(after_steps(replies.drop_last()), replies.last())
    }
}

/// What the loop was to do after the first `k` replies.
pub open spec fn phase_at(replies: Seq<LoopReply>, k: int) -> LoopPhase {
    after_steps(replies.take(k)).phase
}

/// Whether the first rung was begun at some point up to the `n`th reply, with no frame since.
pub open spec fn rung_one_since_frame(replies: Seq<LoopReply>, n: int) -> bool {
    exists|j: int|
        0 <= j <= n && #[trigger] phase_at(replies, j) is StopForRungOne && forall|k: int|
            j < k <= n ==> !(#[trigger] phase_at(replies, k) is Write)
}

proof fn lemma_steps(replies: Seq<LoopReply>)
    ensures
        ({
            let l = after_steps(replies);
            &&& l.rung_one_tried ==> rung_one_since_frame(replies, replies.len() as int)
            &&& l.phase is StopForRungOne || l.phase is CycleStream || l.phase is RestartSession
                || l.phase is StopAndFail || l.phase is Failed ==> l.rung_one_tried
            &&& l.phase is Write ==> !l.rung_one_tried
        }),
    decreases replies.len(),
{
    let n = replies.len() as int;
    assert(replies.take(n) =~= replies);
    if n > 0 {
        let before = replies.drop_last();
        lemma_steps(before);
        let l = after_steps(before);
        let next = after_steps(replies);
        assert forall|k: int| 0 <= k <= n - 1 implies #[trigger] phase_at(replies, k) == phase_at(
            before,
            k,
        ) by {
            assert(replies.take(k) =~= before.take(k));
        }
        if rung_one_since_frame(before, n - 1) {
            let j = choose|j: int|
                0 <= j <= n - 1 && #[trigger] phase_at(before, j) is StopForRungOne && forall|
                    k: int,
                |
                    j < k <= n - 1 ==> !(#[trigger] phase_at(before, k) is Write);
            assert(phase_at(replies, j) is StopForRungOne);
            if !(next.phase is Write) {
                assert forall|k: int| j < k <= n implies !(#[trigger] phase_at(replies, k)
                    is Write) by {
                    if k < n {
                        assert(!(phase_at(before, k) is Write));
                    }
                }
                assert(rung_one_since_frame(replies, n));
            }
        }
        if next.phase is StopForRungOne {
            assert(phase_at(replies, n) is StopForRungOne);
            assert(rung_one_since_frame(replies, n));
        }
    }
}

/// The first rung comes first: whatever happens, the loop only fails after it has stopped and
/// started the stream in place, with no frame since.
pub proof fn failures_come_after_rung_one(replies: Seq<LoopReply>)
    requires
        after_steps(replies).phase is Failed,
    ensures
        rung_one_since_frame(replies, replies.len() as int),
{
    lemma_steps(replies);
}

/// A frame that is captured and written counts as captured and as written; one that cannot be written
/// counts as captured and as dropped, and the loop goes on. Statistics are published where more than
/// five seconds have passed.
pub proof fn frames_are_captured_and_written(l: CaptureLoop, words: String, elapsed: u128)
    requires
        l.phase is CheckShutdown,
        l.acquired < u64::MAX,
        l.written < u64::MAX,
        l.dropped < u64::MAX,
    ensures
        ({
            let asked = after_step(l, LoopReply::Shutdown(false));
            let captured = after_step(asked, LoopReply::Done);
            let written = after_step(captured, LoopReply::Done);
            let dropped = after_step(captured, LoopReply::Failed(words));
            let end = after_step(written, LoopReply::Elapsed(elapsed));
            &&& asked.phase is Acquire && captured.phase is Write
            &&& captured.acquired == l.acquired + 1 && captured.written == l.written
                && captured.dropped == l.dropped
            &&& written.phase is CheckTime && dropped.phase is CheckTime
            &&& written.acquired == l.acquired + 1 && written.written == l.written + 1
                && written.dropped == l.dropped
            &&& dropped.acquired == l.acquired + 1 && dropped.written == l.written
                && dropped.dropped == l.dropped + 1
            &&& elapsed > 5_000_000_000 ==> end.phase is Publish && after_step(
                end,
                LoopReply::Done,
            ).phase is CheckShutdown
            &&& elapsed <= 5_000_000_000 ==> end.phase is CheckShutdown
            &&& end.acquired == written.acquired && end.written == written.written && end.dropped
                == written.dropped
        }),
{
}

/// The first rung stops the session, cycles the stream and starts the session again, however the stop
/// and the cycle end. If the session starts, the loop goes on; if not, it fails with the error of the
/// capture and with the errors of the cycle and of the session.
pub proof fn rung_one_goes_through(
    l: CaptureLoop,
    cause: String,
    on: String,
    session: String,
    r: LoopReply,
)
    requires
        l.phase is Acquire,
        !l.rung_one_tried,
        r is Done || r is Failed,
    ensures
        ({
            let stop = after_step(l, LoopReply::Failed(cause));
            let cycle = after_step(stop, r);
            let start = after_step(cycle, LoopReply::Failed(on));
            let start_clean = after_step(cycle, LoopReply::Done);
            let fail = after_step(start, LoopReply::Failed(session));
            let fail_clean = after_step(start_clean, LoopReply::Failed(session));
            &&& stop.phase == (LoopPhase::StopForRungOne { cause })
            &&& cycle.phase == (LoopPhase::CycleStream { cause })
            &&& start.phase == (LoopPhase::RestartSession { cause, stream_on: Some(on) })
            &&& start_clean.phase == (LoopPhase::RestartSession { cause, stream_on: None })
            &&& after_step(start, LoopReply::Done).phase is CheckShutdown
            &&& after_step(start_clean, LoopReply::Done).phase is CheckShutdown
            &&& after_step(fail, r).phase == (LoopPhase::Failed {
                cause,
                rung_one: RungOne { stream_on: Some(on), session: Some(session) },
            })
            &&& after_step(fail_clean, r).phase == (LoopPhase::Failed {
                cause,
                rung_one: RungOne { stream_on: None, session: Some(session) },
            })
            &&& fail.acquired == l.acquired && fail.written == l.written && fail.dropped == l.dropped
        }),
{
}

/// A capture that fails again before a frame came, after the first rung, ends the loop with the error
/// of this capture.
pub proof fn second_failures_end_the_loop(l: CaptureLoop, cause: String, r: LoopReply)
    requires
        l.phase is Acquire,
        l.rung_one_tried,
        r is Done || r is Failed,
    ensures
        after_step(after_step(l, LoopReply::Failed(cause)), r).phase == (LoopPhase::Failed {
            cause,
            rung_one: RungOne { stream_on: None, session: None },
        }),
{
}

/// A request to end goes before a request to restart; without either the loop goes on.
pub proof fn ending_goes_before_restarting(state: PipelineState)
    ensures
        asked(true, state) == LoopReply::Shutdown(true),
        asked(false, PipelineState::Recovering) == LoopReply::Restart,
        state != PipelineState::Recovering ==> asked(false, state) == LoopReply::Shutdown(false),
{
}

/// The text of a failure names its cause first, then the error of the stream, then that of the
/// session, as far as there are any.
pub proof fn failures_name_their_causes_in_order(cause: Seq<char>, on: String, session: String)
    ensures
        failure_text(cause, RungOne { stream_on: Some(on), session: Some(session) })
            == "Capture failed twice in succession; reopening pipeline: "@ + cause
            + " (after rung 1 STREAMON: "@ + on@ + "; session restart: "@ + session@ + ")"@,
        failure_text(cause, RungOne { stream_on: Some(on), session: None })
            == "Capture failed twice in succession; reopening pipeline: "@ + cause
            + " (after rung 1 STREAMON: "@ + on@ + ")"@,
        failure_text(cause, RungOne { stream_on: None, session: Some(session) })
            == "Capture failed twice in succession; reopening pipeline: "@ + cause
            + " (after rung 1 session restart: "@ + session@ + ")"@,
        failure_text(cause, RungOne { stream_on: None, session: None })
            == "Capture failed twice in succession; reopening pipeline: "@ + cause,
{
    let head = "Capture failed twice in succession; reopening pipeline: "@ + cause;
    assert(head + (" (after rung 1 STREAMON: "@ + on@ + "; session restart: "@ + session@ + ")"@)
        =~= head + " (after rung 1 STREAMON: "@ + on@ + "; session restart: "@ + session@ + ")"@);
    assert(head + (" (after rung 1 STREAMON: "@ + on@ + ")"@) =~= head
        + " (after rung 1 STREAMON: "@ + on@ + ")"@);
    assert(head + (" (after rung 1 session restart: "@ + session@ + ")"@) =~= head
        + " (after rung 1 session restart: "@ + session@ + ")"@);
}

} // verus!
