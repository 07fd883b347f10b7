//! The supervisor of the pipeline: it runs the pipeline, and climbs the ladder of recovery when it
//! fails.
//!
//! The first failure is answered by opening the pipeline again. Only where no frame comes then, the
//! next failure is answered by a USB reset; a run in which frames came starts the ladder anew. After
//! too many failures in a row the supervisor gives up and waits for a shutdown.

use crate::device::ElgatoProduct;
use crate::types::{HealthStatus, PipelineState, StatusUpdate};
use vstd::prelude::*;
use vstd::string::*;

verus! {

/// The pause before the pipeline is opened again: the kernel gets a moment to release its state.
pub const REOPEN_PAUSE_MS: u64 = 500;

/// The pause after a successful USB reset: the kernel needs time to bind the driver again.
pub const RESET_PAUSE_MS: u64 = 2000;

/// The pause after a failed USB reset.
pub const RESET_FAILED_PAUSE_MS: u64 = 3000;

/// The pause between two looks for a shutdown after the supervisor has given up.
pub const HOLD_PAUSE_MS: u64 = 5000;

/// What the supervisor is to do next.
#[derive(Debug, Clone)]
pub enum Duty {
    /// Find the source, for the first time.
    Detect,
    /// See whether a shutdown was asked for.
    CheckShutdown,
    /// Run the pipeline until it ends.
    RunOnce,
    /// Make a pause, and open the pipeline again.
    Reopen,
    /// Find the source again, for a reset.
    Redetect,
    /// Reset this product.
    Reset(ElgatoProduct),
    /// Make a pause after a successful reset.
    SettleAfterReset,
    /// Make a pause after a failed reset.
    BackOff,
    /// See whether a shutdown was asked for, having given up with this error.
    GaveUp(String),
    /// Make a pause, having given up.
    HoldPause,
    /// See whether a shutdown was asked for, having given up before.
    Hold,
    /// There was no source in the first place; why.
    NoSource(String),
    /// A shutdown was asked for between two runs.
    ShutDown,
    /// The pipeline ended, or a shutdown came after the supervisor had given up.
    Ended,
}

/// What came of it.
#[derive(Debug, Clone)]
pub enum DutyReply {
    /// The product that was found.
    Found(ElgatoProduct),
    /// Whether a shutdown was asked for.
    Shutdown(bool),
    /// It succeeded: the pipeline ended by itself, the reset was made, the pause is over.
    Done,
    /// The search or the reset failed; the words of the error.
    Failed(String),
    /// The pipeline failed; the words of the error, and whether a frame came before.
    Broke { words: String, delivered: bool },
    /// The pipeline ended to be opened again, and whether a frame came before.
    Restart { delivered: bool },
}

/// The supervisor.
#[derive(Debug, Clone)]
pub struct Supervisor {
    pub duty: Duty,
    /// The product that was found first.
    pub product: ElgatoProduct,
    pub max_recovery_attempts: u32,
    pub recovery_count: u32,
    pub consecutive_failures: u32,
}

/// A supervisor that has not looked for a source yet.
pub open spec fn new_supervisor(max_recovery_attempts: u32) -> Supervisor {
    Supervisor {
        duty: Duty::Detect,
        product: ElgatoProduct::Facecam,
        max_recovery_attempts,
        recovery_count: 0,
        consecutive_failures: 0,
    }
}

/// How many runs in a row have failed, with this one: a run in which frames came has worked, and
/// its failure is the first one again.
pub open spec fn failures_now(s: Supervisor, delivered: bool) -> int {
    if delivered {
        1
    } else {
        s.consecutive_failures + 1
    }
}

/// The supervisor after the pipeline has failed.
pub open spec fn after_failure(s: Supervisor, words: String, delivered: bool) -> Supervisor {
    let failures = failures_now(s, delivered) as u32;
    if failures > s.max_recovery_attempts {
        Supervisor { duty: Duty::GaveUp(words), consecutive_failures: failures, ..s }
    } else {
        Supervisor {
            duty: if failures == 1 {
                Duty::Reopen
            } else {
                Duty::Redetect
            },
            recovery_count: (s.recovery_count + 1) as u32,
            consecutive_failures: failures,
            ..s
        }
    }
}

/// The supervisor after a step. An answer that does not belong to the step changes nothing.
pub open spec fn after_duty(s: Supervisor, reply: DutyReply) -> Supervisor {
    match s.duty {
        Duty::Detect => match reply {
            DutyReply::Found(product) => Supervisor { duty: Duty::CheckShutdown, product, ..s },
            DutyReply::Failed(words) => Supervisor { duty: Duty::NoSource(words), ..s },
            _ => s,
        },
        Duty::CheckShutdown => match reply {
            DutyReply::Shutdown(true) => Supervisor { duty: Duty::ShutDown, ..s },
            DutyReply::Shutdown(false) => Supervisor { duty: Duty::RunOnce, ..s },
            _ => s,
        },
        Duty::RunOnce => match reply {
            DutyReply::Done => Supervisor { duty: Duty::Ended, ..s },
            DutyReply::Broke { words, delivered } => after_failure(s, words, delivered),
            DutyReply::Restart { delivered } => Supervisor {
                duty: Duty::CheckShutdown,
                consecutive_failures: if delivered {
                    0
                } else {
                    s.consecutive_failures
                },
                ..s
            },
            _ => s,
        },
        Duty::Reopen => match reply {
            DutyReply::Done => Supervisor { duty: Duty::CheckShutdown, ..s },
            _ => s,
        },
        Duty::Redetect => match reply {
            DutyReply::Found(product) => Supervisor { duty: Duty::Reset(product), ..s },
            DutyReply::Failed(_) => Supervisor { duty: Duty::Reset(s.product), ..s },
            _ => s,
        },
        Duty::Reset(_) => match reply {
            DutyReply::Done => Supervisor { duty: Duty::SettleAfterReset, ..s },
            DutyReply::Failed(_) => Supervisor { duty: Duty::BackOff, ..s },
            _ => s,
        },
        Duty::SettleAfterReset => match reply {
            DutyReply::Done => Supervisor {
                duty: Duty::CheckShutdown,
                consecutive_failures: 0,
                ..s
            },
            _ => s,
        },
        Duty::BackOff => match reply {
            DutyReply::Done => Supervisor { duty: Duty::CheckShutdown, ..s },
            _ => s,
        },
        Duty::GaveUp(_) | Duty::Hold => match reply {
            DutyReply::Shutdown(true) => Supervisor { duty: Duty::Ended, ..s },
            DutyReply::Shutdown(false) => Supervisor { duty: Duty::HoldPause, ..s },
            _ => s,
        },
        Duty::HoldPause => match reply {
            DutyReply::Done => Supervisor { duty: Duty::Hold, ..s },
            _ => s,
        },
        Duty::NoSource(_) => s,
        Duty::ShutDown => s,
        Duty::Ended => s,
    }
}

/// What holds of a supervisor in every state: failures in a row are recoveries too, unless the
/// supervisor has given up, and before that there are not more of them than allowed.
pub open spec fn supervisor_ok(s: Supervisor) -> bool {
    match s.duty {
        Duty::GaveUp(_) | Duty::Hold | Duty::HoldPause | Duty::Ended => true,
        _ => s.consecutive_failures <= s.recovery_count && s.consecutive_failures
            <= s.max_recovery_attempts,
    }
}

/// What is published when a step is entered, before it is made.
pub open spec fn announced(s: Supervisor) -> Seq<StatusUpdate> {
    match s.duty {
        Duty::NoSource(words) => seq![
            StatusUpdate::State(PipelineState::Failed, HealthStatus::Unhealthy),
            StatusUpdate::LastError(Some(words)),
        ],
        Duty::ShutDown => seq![
            StatusUpdate::State(PipelineState::ShuttingDown, HealthStatus::Healthy),
        ],
        Duty::GaveUp(words) => seq![
            StatusUpdate::State(PipelineState::Failed, HealthStatus::Unhealthy),
            StatusUpdate::LastError(Some(words)),
        ],
        Duty::Reopen | Duty::Redetect => seq![
            StatusUpdate::State(PipelineState::Recovering, HealthStatus::Degraded),
            StatusUpdate::RecoveryCount(s.recovery_count),
        ],
        _ => Seq::empty(),
    }
}

/// How long a step pauses, in milliseconds, where it is a pause.
pub open spec fn pause_of(duty: Duty) -> Option<u64> {
    match duty {
        Duty::Reopen => Some(REOPEN_PAUSE_MS),
        Duty::SettleAfterReset => Some(RESET_PAUSE_MS),
        Duty::BackOff => Some(RESET_FAILED_PAUSE_MS),
        Duty::HoldPause => Some(HOLD_PAUSE_MS),
        _ => None,
    }
}

impl Supervisor {
    /// A supervisor that has not looked for a source yet.
    pub fn new(max_recovery_attempts: u32) -> (r: Self)
        ensures
            r == new_supervisor(max_recovery_attempts),
            supervisor_ok(r),
    {
        Supervisor {
            duty: Duty::Detect,
            product: ElgatoProduct::Facecam,
            max_recovery_attempts,
            recovery_count: 0,
            consecutive_failures: 0,
        }
    }

    /// What is to be published before the step is made.
    pub fn announcements(&self) -> (r: Vec<StatusUpdate>)
        ensures
            r@ == announced(*self),
    {
        let mut out: Vec<StatusUpdate> = Vec::new();
        match &self.duty {
            Duty::NoSource(words) => {
                out.push(StatusUpdate::State(PipelineState::Failed, HealthStatus::Unhealthy));
                out.push(StatusUpdate::LastError(Some(words.clone())));
            },
            Duty::ShutDown => {
                out.push(StatusUpdate::State(PipelineState::ShuttingDown, HealthStatus::Healthy));
            },
            Duty::GaveUp(words) => {
                out.push(StatusUpdate::State(PipelineState::Failed, HealthStatus::Unhealthy));
                out.push(StatusUpdate::LastError(Some(words.clone())));
            },
            Duty::Reopen | Duty::Redetect => {
                out.push(StatusUpdate::State(PipelineState::Recovering, HealthStatus::Degraded));
                out.push(StatusUpdate::RecoveryCount(self.recovery_count));
            },
            _ => {},
        }
        proof {
            assert(out@ =~= announced(*self));
        }
        out
    }

    /// How long the step pauses, in milliseconds, where it is a pause.
    pub fn pause_ms(&self) -> (r: Option<u64>)
        ensures
            r == pause_of(self.duty),
    {
        match &self.duty {
            Duty::Reopen => Some(REOPEN_PAUSE_MS),
            Duty::SettleAfterReset => Some(RESET_PAUSE_MS),
            Duty::BackOff => Some(RESET_FAILED_PAUSE_MS),
            Duty::HoldPause => Some(HOLD_PAUSE_MS),
            _ => None,
        }
    }

    /// Takes what came of the step. The recovery counter must not be at its end.
    pub fn reply(self, reply: DutyReply) -> (r: Self)
        requires
            supervisor_ok(self),
            self.recovery_count < u32::MAX,
        ensures
            r == after_duty(self, reply),
            supervisor_ok(r),
    {
        let Supervisor {
            duty,
            product,
            max_recovery_attempts,
            recovery_count,
            consecutive_failures,
        } = self;
        let mut next = Supervisor {
            duty: Duty::Ended,
            product,
            max_recovery_attempts,
            recovery_count,
            consecutive_failures,
        };
        next.duty = match duty {
            Duty::Detect => match reply {
                DutyReply::Found(found) => {
                    next.product = found;
                    Duty::CheckShutdown
                },
                DutyReply::Failed(words) => Duty::NoSource(words),
                _ => Duty::Detect,
            },
            Duty::CheckShutdown => match reply {
                DutyReply::Shutdown(true) => Duty::ShutDown,
                DutyReply::Shutdown(false) => Duty::RunOnce,
                _ => Duty::CheckShutdown,
            },
            Duty::RunOnce => match reply {
                DutyReply::Done => Duty::Ended,
                DutyReply::Restart { delivered } => {
                    if delivered {
                        next.consecutive_failures = 0;
                    }
                    Duty::CheckShutdown
                },
                DutyReply::Broke { words, delivered } => {
                    let failures: u32 = if delivered {
                        1
                    } else {
                        consecutive_failures + 1
                    };
                    next.consecutive_failures = failures;
                    if failures > max_recovery_attempts {
                        Duty::GaveUp(words)
                    } else {
                        next.recovery_count = recovery_count + 1;
                        if failures == 1 {
                            Duty::Reopen
                        } else {
                            Duty::Redetect
                        }
                    }
                },
                _ => Duty::RunOnce,
            },
            Duty::Reopen => match reply {
                DutyReply::Done => Duty::CheckShutdown,
                _ => Duty::Reopen,
            },
            Duty::Redetect => match reply {
                DutyReply::Found(found) => Duty::Reset(found),
                DutyReply::Failed(_) => Duty::Reset(product),
                _ => Duty::Redetect,
            },
            Duty::Reset(target) => match reply {
                DutyReply::Done => Duty::SettleAfterReset,
                DutyReply::Failed(_) => Duty::BackOff,
                _ => Duty::Reset(target),
            },
            Duty::SettleAfterReset => match reply {
                DutyReply::Done => {
                    next.consecutive_failures = 0;
                    Duty::CheckShutdown
                },
                _ => Duty::SettleAfterReset,
            },
            Duty::BackOff => match reply {
                DutyReply::Done => Duty::CheckShutdown,
                _ => Duty::BackOff,
            },
            Duty::GaveUp(words) => match reply {
                DutyReply::Shutdown(true) => Duty::Ended,
                DutyReply::Shutdown(false) => Duty::HoldPause,
                _ => Duty::GaveUp(words),
            },
            Duty::Hold => match reply {
                DutyReply::Shutdown(true) => Duty::Ended,
                DutyReply::Shutdown(false) => Duty::HoldPause,
                _ => Duty::Hold,
            },
            Duty::HoldPause => match reply {
                DutyReply::Done => Duty::Hold,
                _ => Duty::HoldPause,
            },
            Duty::NoSource(words) => Duty::NoSource(words),
            Duty::ShutDown => Duty::ShutDown,
            Duty::Ended => Duty::Ended,
        };
        next
    }
}

// ---------------------------------------------------------------------------------------------
// Laws
// ---------------------------------------------------------------------------------------------

/// The first failure in a row opens the pipeline again, without a USB reset, and so does every
/// failure of a run in which frames came.
pub proof fn first_failure_reopens(s: Supervisor, words: String, delivered: bool)
    requires
        s.duty is RunOnce,
        s.consecutive_failures == 0 || delivered,
        s.max_recovery_attempts > 0,
    ensures
        after_duty(s, DutyReply::Broke { words, delivered }).duty is Reopen,
{
}

/// A restart that was asked for runs the pipeline again, and counts neither as a failure nor as a
/// recovery.
pub proof fn restarts_run_the_pipeline_again(s: Supervisor, delivered: bool)
    requires
        s.duty is RunOnce,
    ensures
        ({
            let next = after_duty(
                after_duty(s, DutyReply::Restart { delivered }),
                DutyReply::Shutdown(false),
            );
            &&& next.duty is RunOnce
            &&& next.recovery_count == s.recovery_count
            &&& next.consecutive_failures <= s.consecutive_failures
        }),
{
}

/// A USB reset is only made after at least two failures in a row.
pub proof fn resets_follow_repeated_failures(s: Supervisor, reply: DutyReply)
    requires
        supervisor_ok(s),
        s.recovery_count < u32::MAX,
        !(s.duty is Redetect),
    ensures
        after_duty(s, reply).duty is Redetect ==> s.duty is RunOnce && after_duty(
            s,
            reply,
        ).consecutive_failures >= 2,
{
}

/// A reset goes to the product that is found at that time, or to the one that was found first.
pub proof fn resets_go_to_a_detected_product(s: Supervisor, reply: DutyReply)
    requires
        s.duty is Redetect,
    ensures
        after_duty(s, reply).duty matches Duty::Reset(product) ==> reply == DutyReply::Found(product)
            || (product == s.product && reply is Failed),
{
}

/// The supervisor gives up exactly when there were more failures in a row than allowed.
pub proof fn giving_up_needs_too_many_failures(s: Supervisor, words: String, delivered: bool)
    requires
        s.duty is RunOnce,
        s.consecutive_failures < u32::MAX,
    ensures
        after_duty(s, DutyReply::Broke { words, delivered }).duty is GaveUp <==> failures_now(
            s,
            delivered,
        ) > s.max_recovery_attempts,
{
}

/// Whether the failures in a row are few: what holds as long as every reset succeeds.
pub open spec fn few_failures(s: Supervisor) -> bool {
    match s.duty {
        Duty::Detect | Duty::CheckShutdown | Duty::RunOnce | Duty::Reopen =>
            s.consecutive_failures <= 1,
        Duty::Redetect | Duty::Reset(_) | Duty::SettleAfterReset => s.consecutive_failures <= 2,
        Duty::GaveUp(_) | Duty::Hold | Duty::HoldPause | Duty::BackOff => false,
        _ => true,
    }
}

/// As long as every USB reset succeeds, the supervisor never gives up, if it may recover at least
/// twice in a row.
pub proof fn working_resets_keep_the_pipeline_alive(s: Supervisor, reply: DutyReply)
    requires
        few_failures(s),
        s.max_recovery_attempts >= 2,
        s.duty is Reset ==> !(reply is Failed),
    ensures
        few_failures(after_duty(s, reply)),
        !(after_duty(s, reply).duty is GaveUp),
{
}

/// A new supervisor has few failures.
pub proof fn supervisors_start_without_failures(max_recovery_attempts: u32)
    ensures
        few_failures(new_supervisor(max_recovery_attempts)),
{
}

/// Once it has given up, the supervisor never runs the pipeline or resets the device again; only a
/// shutdown ends it.
pub proof fn giving_up_is_final(s: Supervisor, reply: DutyReply)
    requires
        s.duty is GaveUp || s.duty is Hold || s.duty is HoldPause,
    ensures
        ({
            let next = after_duty(s, reply).duty;
            &&& next is GaveUp || next is Hold || next is HoldPause || next is Ended
            &&& next is Ended ==> reply == DutyReply::Shutdown(true)
        }),
{
}

/// The recovery counter counts every recovery, and nothing else.
pub proof fn recoveries_are_counted(s: Supervisor, reply: DutyReply)
    requires
        s.recovery_count < u32::MAX,
    ensures
        ({
            let next = after_duty(s, reply);
            let recovers = s.duty is RunOnce && (next.duty is Reopen || next.duty is Redetect);
            next.recovery_count == s.recovery_count + if recovers {
                1int
            } else {
                0int
            }
        }),
{
}

/// The supervisor after a list of replies.
pub open spec fn after_duties(max_recovery_attempts: u32, replies: Seq<DutyReply>) -> Supervisor
    decreases replies.len(),
{
    if replies.len() == 0 {
        new_supervisor(max_recovery_attempts)
    } else {
        after_duty(after_duties(max_recovery_attempts, replies.drop_last()), replies.last())
    }
}

/// What the supervisor was to do after the first `k` replies.
pub open spec fn duty_at(max_recovery_attempts: u32, replies: Seq<DutyReply>, k: int) -> Duty {
    after_duties(max_recovery_attempts, replies.take(k)).duty
}

/// Whether a run of the pipeline brought frames and then ended, with the reply at `k`.
pub open spec fn frames_came(max_recovery_attempts: u32, replies: Seq<DutyReply>, k: int) -> bool {
    &&& duty_at(max_recovery_attempts, replies, k) is RunOnce
    &&& match replies[k] {
        DutyReply::Broke { delivered, .. } => delivered,
        DutyReply::Restart { delivered } => delivered,
        _ => false,
    }
}

/// Whether a run of the pipeline failed without a frame, with the reply at `k`.
pub open spec fn no_frame_came(max_recovery_attempts: u32, replies: Seq<DutyReply>, k: int) -> bool {
    &&& duty_at(max_recovery_attempts, replies, k) is RunOnce
    &&& replies[k] matches DutyReply::Broke { delivered, .. } && !delivered
}

/// Whether the pipeline was opened again after `j` replies, and up to the `n`th reply no run has
/// brought frames and no reset has succeeded since.
pub open spec fn reopened_in_vain(
    max_recovery_attempts: u32,
    replies: Seq<DutyReply>,
    j: int,
    n: int,
) -> bool {
    &&& 0 <= j <= n
    &&& duty_at(max_recovery_attempts, replies, j) is Reopen
    &&& forall|k: int|
        j < k <= n ==> !(#[trigger] duty_at(max_recovery_attempts, replies, k) is SettleAfterReset)
    &&& forall|k: int| j <= k < n ==> !#[trigger] frames_came(max_recovery_attempts, replies, k)
}

/// Whether the supervisor is on the ladder: it has neither given up nor ended, and no reset has
/// just succeeded.
spec fn is_climbing(duty: Duty) -> bool {
    !(duty is SettleAfterReset || duty is GaveUp || duty is Hold || duty is HoldPause || duty
        is Ended)
}

proof fn lemma_same_duties(max_recovery_attempts: u32, replies: Seq<DutyReply>)
    requires
        replies.len() > 0,
    ensures
        forall|k: int|
            0 <= k < replies.len() ==> #[trigger] duty_at(max_recovery_attempts, replies, k)
                == duty_at(max_recovery_attempts, replies.drop_last(), k),
{
    assert forall|k: int| 0 <= k < replies.len() implies #[trigger] duty_at(
        max_recovery_attempts,
        replies,
        k,
    ) == duty_at(max_recovery_attempts, replies.drop_last(), k) by {
        assert(replies.take(k) =~= replies.drop_last().take(k));
    }
}

/// A reopening that was in vain stays so where the next reply brings neither frames nor a reset.
proof fn lemma_still_in_vain(max_recovery_attempts: u32, replies: Seq<DutyReply>, j: int)
    requires
        replies.len() > 0,
        reopened_in_vain(max_recovery_attempts, replies.drop_last(), j, replies.len() - 1),
        !(after_duties(max_recovery_attempts, replies).duty is SettleAfterReset),
        !frames_came(max_recovery_attempts, replies, replies.len() - 1),
    ensures
        reopened_in_vain(max_recovery_attempts, replies, j, replies.len() as int),
{
    let n = replies.len() as int;
    let before = replies.drop_last();
    lemma_same_duties(max_recovery_attempts, replies);
    assert(replies.take(n) =~= replies);
    assert(duty_at(max_recovery_attempts, replies, j) is Reopen);
    assert forall|k: int| j < k <= n implies !(#[trigger] duty_at(
        max_recovery_attempts,
        replies,
        k,
    ) is SettleAfterReset) by {
        if k < n {
            assert(!(duty_at(max_recovery_attempts, before, k) is SettleAfterReset));
        }
    }
    assert forall|k: int| j <= k < n implies !#[trigger] frames_came(
        max_recovery_attempts,
        replies,
        k,
    ) by {
        if k < n - 1 {
            assert(!frames_came(max_recovery_attempts, before, k));
            assert(replies[k] == before[k]);
        }
    }
}

proof fn lemma_duties(max_recovery_attempts: u32, replies: Seq<DutyReply>)
    requires
        replies.len() < u32::MAX,
    ensures
        ({
            let s = after_duties(max_recovery_attempts, replies);
            let n = replies.len() as int;
            &&& supervisor_ok(s)
            &&& s.recovery_count <= n
            &&& s.duty is Redetect || s.duty is Reset || s.duty is SettleAfterReset
                ==> s.consecutive_failures >= 2
            &&& is_climbing(s.duty) && s.consecutive_failures >= 1 ==> exists|j: int|
                #[trigger] reopened_in_vain(max_recovery_attempts, replies, j, n)
            &&& is_climbing(s.duty) && s.consecutive_failures >= 2 ==> exists|j: int, m: int|
                #[trigger] reopened_in_vain(max_recovery_attempts, replies, j, n) && j < m < n
                    && #[trigger] no_frame_came(max_recovery_attempts, replies, m)
        }),
    decreases replies.len(),
{
    let max = max_recovery_attempts;
    let n = replies.len() as int;
    assert(replies.take(n) =~= replies);
    if n > 0 {
        let before = replies.drop_last();
        lemma_duties(max, before);
        lemma_same_duties(max, replies);
        let s = after_duties(max, before);
        let next = after_duties(max, replies);
        assert(before.take(n - 1) =~= before);
        assert(duty_at(max, replies, n - 1) == s.duty);
        if is_climbing(next.duty) && next.consecutive_failures >= 1 {
            if next.duty is Reopen && s.duty is RunOnce {
                assert(reopened_in_vain(max, replies, n, n));
                assert(next.consecutive_failures == 1);
            } else {
                assert(is_climbing(s.duty));
                assert(!frames_came(max, replies, n - 1));
                assert(s.consecutive_failures >= 1);
                let j = choose|j: int| #[trigger] reopened_in_vain(max, before, j, n - 1);
                lemma_still_in_vain(max, replies, j);
                if next.consecutive_failures >= 2 {
                    if s.consecutive_failures >= 2 {
                        let (i, m) = choose|i: int, m: int|
                            #[trigger] reopened_in_vain(max, before, i, n - 1) && i < m < n - 1
                                && #[trigger] no_frame_came(max, before, m);
                        lemma_still_in_vain(max, replies, i);
                        assert(replies[m] == before[m]);
                        assert(no_frame_came(max, replies, m));
                    } else {
                        assert(s.duty is RunOnce);
                        assert(no_frame_came(max, replies, n - 1));
                        assert(j < n - 1) by {
                            if j == n - 1 {
                                assert(duty_at(max, before, j) is Reopen);
                            }
                        }
                    }
                }
            }
        }
    }
}

/// The last rung comes last: whatever happens, a USB reset is only made after the pipeline was
/// opened again and then failed without a frame, and where no run has brought frames and no reset
/// has succeeded since it was opened.
pub proof fn resets_come_after_reopening(max_recovery_attempts: u32, replies: Seq<DutyReply>)
    requires
        replies.len() < u32::MAX,
        after_duties(max_recovery_attempts, replies).duty is Reset,
    ensures
        after_duties(max_recovery_attempts, replies).consecutive_failures >= 2,
        exists|j: int, m: int|
            #[trigger] reopened_in_vain(max_recovery_attempts, replies, j, replies.len() as int)
                && j < m < replies.len() && #[trigger] no_frame_came(
                max_recovery_attempts,
                replies,
                m,
            ),
{
    lemma_duties(max_recovery_attempts, replies);
}

/// A run without frames that breaks adds one failure, and a run with frames starts the count again:
/// it breaks for the first time. Up to the limit the pipeline is recovered, by opening it again the
/// first time and by a reset afterwards; beyond it the supervisor gives up with the words of the
/// error.
pub proof fn failures_are_counted_in_a_row(s: Supervisor, words: String)
    requires
        s.duty is RunOnce,
        s.consecutive_failures < u32::MAX,
        s.recovery_count < u32::MAX,
    ensures
        ({
            let vain = after_duty(s, DutyReply::Broke { words, delivered: false });
            let late = after_duty(s, DutyReply::Broke { words, delivered: true });
            &&& vain.consecutive_failures == s.consecutive_failures + 1
            &&& late.consecutive_failures == 1
            &&& s.consecutive_failures >= s.max_recovery_attempts ==> vain.duty == Duty::GaveUp(words)
                && vain.recovery_count == s.recovery_count
            &&& s.consecutive_failures < s.max_recovery_attempts ==> vain.recovery_count
                == s.recovery_count + 1 && (vain.duty is Reopen <==> s.consecutive_failures == 0) && (
            vain.duty is Redetect <==> s.consecutive_failures > 0)
            &&& s.max_recovery_attempts > 0 ==> late.duty is Reopen && late.recovery_count
                == s.recovery_count + 1
            &&& s.max_recovery_attempts == 0 ==> late.duty == Duty::GaveUp(words)
            &&& vain.product == s.product && vain.max_recovery_attempts == s.max_recovery_attempts
        }),
{
}

/// A reset goes to the product that is found at the time. Where it succeeds, the failures are
/// forgotten after two seconds; where it fails, they are kept, and the pipeline is run again after
/// three. Opening again takes half a second, and holding goes on in steps of five.
pub proof fn resets_clear_the_failures(s: Supervisor, product: ElgatoProduct, words: String)
    requires
        s.duty is Redetect,
    ensures
        ({
            let reset = after_duty(s, DutyReply::Found(product));
            let settled = after_duty(reset, DutyReply::Done);
            let missed = after_duty(reset, DutyReply::Failed(words));
            &&& reset.duty == Duty::Reset(product)
            &&& after_duty(s, DutyReply::Failed(words)).duty == Duty::Reset(s.product)
            &&& pause_of(settled.duty) == Some(2000u64)
            &&& pause_of(missed.duty) == Some(3000u64)
            &&& after_duty(settled, DutyReply::Done).duty is CheckShutdown
            &&& after_duty(settled, DutyReply::Done).consecutive_failures == 0
            &&& after_duty(missed, DutyReply::Done).duty is CheckShutdown
            &&& after_duty(missed, DutyReply::Done).consecutive_failures == s.consecutive_failures
            &&& pause_of(Duty::Reopen) == Some(500u64)
            &&& pause_of(Duty::HoldPause) == Some(5000u64)
            &&& pause_of(Duty::RunOnce) is None && pause_of(reset.duty) is None
        }),
{
}

/// While the supervisor recovers it is published as recovering, with the number of recoveries; when
/// it gives up, or finds no source, as failed with the words of the error; when it is told to end, as
/// shutting down.
pub proof fn duties_are_published(s: Supervisor, words: String)
    ensures
        s.duty is Reopen || s.duty is Redetect ==> announced(s) == seq![
            StatusUpdate::State(PipelineState::Recovering, HealthStatus::Degraded),
            StatusUpdate::RecoveryCount(s.recovery_count),
        ],
        s.duty == Duty::GaveUp(words) || s.duty == Duty::NoSource(words) ==> announced(s) == seq![
            StatusUpdate::State(PipelineState::Failed, HealthStatus::Unhealthy),
            StatusUpdate::LastError(Some(words)),
        ],
        s.duty is ShutDown ==> announced(s) == seq![
            StatusUpdate::State(PipelineState::ShuttingDown, HealthStatus::Healthy),
        ],
        s.duty is RunOnce || s.duty is CheckShutdown || s.duty is Detect || s.duty is Hold
            ==> announced(s).len() == 0,
{
}

/// A source that is found at the start is run unless the supervisor is told to end; a source that is
/// not found is an error with its words.
pub proof fn supervision_starts_with_a_source(max: u32, product: ElgatoProduct, words: String)
    ensures
        ({
            let found = after_duty(new_supervisor(max), DutyReply::Found(product));
            &&& found.duty is CheckShutdown && found.product == product
            &&& found.max_recovery_attempts == max
            &&& after_duty(found, DutyReply::Shutdown(false)).duty is RunOnce
            &&& after_duty(found, DutyReply::Shutdown(true)).duty is ShutDown
            &&& after_duty(new_supervisor(max), DutyReply::Failed(words)).duty == Duty::NoSource(words)
        }),
{
}

} // verus!
