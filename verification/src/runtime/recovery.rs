//! Deterministic cross-generation connection recovery policy.
//!
//! This reducer owns retry timing and generation publication decisions. It
//! never owns a transport or generation runtime; a coordinator applies its
//! effects only after the previous generation has completely joined.

use crate::clock::{Duration, MonotonicTime};
use crate::runtime::reducer::GenerationId;
use vstd::arithmetic::power2::{lemma2_to64, lemma_pow2_strictly_increases, pow2};
use vstd::prelude::*;

verus! {

#[derive(Clone, Copy, Debug, PartialEq, Eq, Structural)]
pub struct RecoveryPolicy {
    pub max_attempts: u32,
    pub attempt_timeout: Duration,
    pub total_timeout: Duration,
    pub initial_backoff: Duration,
    pub maximum_backoff: Duration,
    pub maximum_jitter: Duration,
    pub max_waiting_operations: usize,
}

/// The wait after `failed_attempt` attempts: none before the first failure,
/// then the first wait doubled with each failure, at most 31 times, and never
/// longer than the longest wait.
pub open spec fn doubled_backoff(initial: Duration, maximum: Duration, failed_attempt: u32) -> Duration {
    if failed_attempt == 0 {
        Duration::of(0)
    } else {
        let doublings = if failed_attempt - 1 <= 31 {
            (failed_attempt - 1) as nat
        } else {
            31nat
        };
        initial.times(pow2(doublings)).least(maximum)
    }
}

/// The wait before the attempt that follows `failed_attempt` failures.
pub fn exponential_backoff(initial: Duration, maximum: Duration, failed_attempt: u32) -> (wait:
    Duration)
    ensures
        wait == doubled_backoff(initial, maximum, failed_attempt),
{
    if failed_attempt == 0 {
        return Duration::zero();
    }
    let shift: u32 = if failed_attempt - 1 <= 31 {
        failed_attempt - 1
    } else {
        31
    };
    let mut factor: u32 = 1;
    let mut doubled: u32 = 0;
    proof {
        lemma2_to64();
    }
    while doubled < shift
        invariant
            doubled <= shift <= 31,
            factor == pow2(doubled as nat),
        decreases shift - doubled,
    {
        proof {
            lemma2_to64();
            lemma_pow2_strictly_increases(doubled as nat, 31);
            vstd::arithmetic::power2::lemma_pow2_unfold((doubled + 1) as nat);
        }
        factor = factor * 2;
        doubled += 1;
    }
    initial.saturating_mul(factor).min(maximum)
}

impl RecoveryPolicy {
    pub fn disabled() -> (policy: Self)
        ensures
            policy == (RecoveryPolicy {
                max_attempts: 0,
                attempt_timeout: Duration::of(0),
                total_timeout: Duration::of(0),
                initial_backoff: Duration::of(0),
                maximum_backoff: Duration::of(0),
                maximum_jitter: Duration::of(0),
                max_waiting_operations: 0,
            }),
    {
        RecoveryPolicy {
            max_attempts: 0,
            attempt_timeout: Duration::zero(),
            total_timeout: Duration::zero(),
            initial_backoff: Duration::zero(),
            maximum_backoff: Duration::zero(),
            maximum_jitter: Duration::zero(),
            max_waiting_operations: 0,
        }
    }

    pub fn backoff(self, failed_attempt: u32) -> (wait: Duration)
        ensures
            wait == doubled_backoff(self.initial_backoff, self.maximum_backoff, failed_attempt),
    {
        exponential_backoff(self.initial_backoff, self.maximum_backoff, failed_attempt)
    }
}

#[derive(Clone, Copy, Debug, PartialEq, Eq, Structural)]
pub enum RecoveryState {
    Connected(GenerationId),
    Waiting { attempt: u32, wake_at: MonotonicTime, total_deadline: MonotonicTime },
    Connecting { attempt: u32, attempt_deadline: MonotonicTime, total_deadline: MonotonicTime },
    Failed,
    Closed,
}

#[derive(Clone, Copy, Debug, PartialEq, Eq, Structural)]
pub enum RecoveryEvent {
    TransportLost { generation: GenerationId, now: MonotonicTime },
    Wake { now: MonotonicTime },
    AttemptSucceeded { generation: GenerationId },
    AttemptFailed { now: MonotonicTime, jitter: Duration },
    Close,
}

#[derive(Clone, Copy, Debug, PartialEq, Eq, Structural)]
pub enum RecoveryEffect {
    ScheduleAttempt { attempt: u32, at: MonotonicTime },
    StartAttempt { attempt: u32, deadline: MonotonicTime },
    PublishGeneration(GenerationId),
    RecoveryFailed,
    Closed,
}

/// Waiting for the next attempt.
pub open spec fn attempt_scheduled(
    policy: RecoveryPolicy,
    attempt: u32,
    now: MonotonicTime,
    total_deadline: MonotonicTime,
) -> (RecoveryState, Option<RecoveryEffect>) {
    let failed = if attempt > 0 {
        (attempt - 1) as u32
    } else {
        0
    };
    let at = now.plus(
        doubled_backoff(policy.initial_backoff, policy.maximum_backoff, failed),
    ).earliest(total_deadline);
    (
        RecoveryState::Waiting { attempt, wake_at: at, total_deadline },
        Some(RecoveryEffect::ScheduleAttempt { attempt, at }),
    )
}

/// The state and the effect after one event.
pub open spec fn recovery_step(
    policy: RecoveryPolicy,
    state: RecoveryState,
    event: RecoveryEvent,
) -> (RecoveryState, Option<RecoveryEffect>) {
    let failed = (RecoveryState::Failed, Some(RecoveryEffect::RecoveryFailed));
    match (state, event) {
        (RecoveryState::Closed, _) | (RecoveryState::Failed, _) => (state, None),
        (_, RecoveryEvent::Close) => (RecoveryState::Closed, Some(RecoveryEffect::Closed)),
        (
            RecoveryState::Connected(active),
            RecoveryEvent::TransportLost { generation, now },
        ) => if active != generation {
            (state, None)
        } else if policy.max_attempts == 0 {
            failed
        } else {
            attempt_scheduled(policy, 1, now, now.plus(policy.total_timeout))
        },
        (
            RecoveryState::Waiting { attempt, wake_at, total_deadline },
            RecoveryEvent::Wake { now },
        ) => if now@ < wake_at@ {
            (state, None)
        } else if now@ >= total_deadline@ {
            failed
        } else {
            let deadline = now.plus(policy.attempt_timeout).earliest(total_deadline);
            (
                RecoveryState::Connecting { attempt, attempt_deadline: deadline, total_deadline },
                Some(RecoveryEffect::StartAttempt { attempt, deadline }),
            )
        },
        (RecoveryState::Connecting { .. }, RecoveryEvent::AttemptSucceeded { generation }) => (
            RecoveryState::Connected(generation),
            Some(RecoveryEffect::PublishGeneration(generation)),
        ),
        (
            RecoveryState::Connecting { attempt, total_deadline, .. },
            RecoveryEvent::AttemptFailed { now, jitter },
        ) => if attempt >= policy.max_attempts || now@ >= total_deadline@ {
            failed
        } else {
            attempt_scheduled(
                policy,
                (attempt + 1) as u32,
                now.plus(jitter.least(policy.maximum_jitter)),
                total_deadline,
            )
        },
        _ => (state, None),
    }
}

pub struct RecoveryCoordinator {
    policy: RecoveryPolicy,
    state: RecoveryState,
}

impl RecoveryCoordinator {
    pub closed spec fn policy(&self) -> RecoveryPolicy {
        self.policy
    }

    pub closed spec fn phase(&self) -> RecoveryState {
        self.state
    }

    pub fn new(generation: GenerationId, policy: RecoveryPolicy) -> (coordinator: Self)
        ensures
            coordinator.policy() == policy,
            coordinator.phase() == RecoveryState::Connected(generation),
    {
        RecoveryCoordinator { policy, state: RecoveryState::Connected(generation) }
    }

    pub fn state(&self) -> (state: RecoveryState)
        ensures
            state == self.phase(),
    {
        self.state
    }

    pub fn reduce(&mut self, event: RecoveryEvent) -> (effect: Option<RecoveryEffect>)
        ensures
            (final(self).phase(), effect) == recovery_step(
                old(self).policy(),
                old(self).phase(),
                event,
            ),
            final(self).policy() == old(self).policy(),
    {
        match (self.state, event) {
            (RecoveryState::Closed, _) | (RecoveryState::Failed, _) => None,
            (_, RecoveryEvent::Close) => {
                self.state = RecoveryState::Closed;
                Some(RecoveryEffect::Closed)
            },
            (
                RecoveryState::Connected(active),
                RecoveryEvent::TransportLost { generation, now },
            ) => {
                if active != generation {
                    return None;
                }
                if self.policy.max_attempts == 0 {
                    return self.fail();
                }
                let total_deadline = now.saturating_add(self.policy.total_timeout);
                self.schedule(1, now, total_deadline)
            },
            (
                RecoveryState::Waiting { attempt, wake_at, total_deadline },
                RecoveryEvent::Wake { now },
            ) => {
                if !wake_at.at_or_before(now) {
                    return None;
                }
                if total_deadline.at_or_before(now) {
                    self.fail()
                } else {
                    let deadline = now.saturating_add(self.policy.attempt_timeout).min(
                        total_deadline,
                    );
                    self.state = RecoveryState::Connecting {
                        attempt,
                        attempt_deadline: deadline,
                        total_deadline,
                    };
                    Some(RecoveryEffect::StartAttempt { attempt, deadline })
                }
            },
            (RecoveryState::Connecting { .. }, RecoveryEvent::AttemptSucceeded { generation }) => {
                self.state = RecoveryState::Connected(generation);
                Some(RecoveryEffect::PublishGeneration(generation))
            },
            (
                RecoveryState::Connecting { attempt, total_deadline, .. },
                RecoveryEvent::AttemptFailed { now, jitter },
            ) => {
                if attempt >= self.policy.max_attempts || total_deadline.at_or_before(now) {
                    self.fail()
                } else {
                    let after_jitter = now.saturating_add(jitter.min(self.policy.maximum_jitter));
                    self.schedule(attempt + 1, after_jitter, total_deadline)
                }
            },
            _ => None,
        }
    }

    fn schedule(&mut self, attempt: u32, now: MonotonicTime, total_deadline: MonotonicTime) -> (effect:
        Option<RecoveryEffect>)
        ensures
            (final(self).phase(), effect) == attempt_scheduled(
                old(self).policy(),
                attempt,
                now,
                total_deadline,
            ),
            final(self).policy() == old(self).policy(),
    {
        let wait = self.policy.backoff(attempt.saturating_sub(1));
        let at = now.saturating_add(wait).min(total_deadline);
        self.state = RecoveryState::Waiting { attempt, wake_at: at, total_deadline };
        Some(RecoveryEffect::ScheduleAttempt { attempt, at })
    }

    fn fail(&mut self) -> (effect: Option<RecoveryEffect>)
        ensures
            final(self).phase() == RecoveryState::Failed,
            effect == Some(RecoveryEffect::RecoveryFailed),
            final(self).policy() == old(self).policy(),
    {
        self.state = RecoveryState::Failed;
        Some(RecoveryEffect::RecoveryFailed)
    }
}

/// What holds of a coordinator in every state it can reach: an attempt is
/// numbered from one up to the most attempts allowed, and no wait and no
/// attempt reaches past the deadline of the whole recovery.
pub open spec fn recovery_bounded(policy: RecoveryPolicy, state: RecoveryState) -> bool {
    match state {
        RecoveryState::Waiting { attempt, wake_at, total_deadline } => 1 <= attempt
            <= policy.max_attempts && wake_at@ <= total_deadline@,
        RecoveryState::Connecting { attempt, attempt_deadline, total_deadline } => 1 <= attempt
            <= policy.max_attempts && attempt_deadline@ <= total_deadline@,
        _ => true,
    }
}

/// Recovery stays within its bounds: attempts are counted without gaps up to
/// the policy's limit, and everything ends by the total deadline, which is set
/// when the transport is lost and never moves.
pub proof fn recovery_stays_bounded(
    policy: RecoveryPolicy,
    state: RecoveryState,
    event: RecoveryEvent,
)
    requires
        recovery_bounded(policy, state),
    ensures
        recovery_bounded(policy, recovery_step(policy, state, event).0),
        match (state, recovery_step(policy, state, event).0) {
            (
                RecoveryState::Waiting { attempt: a, total_deadline: d, .. },
                RecoveryState::Connecting { attempt: b, total_deadline: e, .. },
            ) => a == b && d == e,
            (
                RecoveryState::Connecting { attempt: a, total_deadline: d, .. },
                RecoveryState::Waiting { attempt: b, total_deadline: e, .. },
            ) => b == a + 1 && d == e,
            _ => true,
        },
{
}

/// A coordinator that failed or was closed never does anything again.
pub proof fn ended_recovery_is_inert(
    policy: RecoveryPolicy,
    state: RecoveryState,
    event: RecoveryEvent,
)
    requires
        state == RecoveryState::Failed || state == RecoveryState::Closed,
    ensures
        recovery_step(policy, state, event) == (state, None::<RecoveryEffect>),
{
}

/// Only a running attempt publishes a generation, and closing before it ends
/// keeps its result from being published.
pub proof fn only_a_running_attempt_publishes(
    policy: RecoveryPolicy,
    state: RecoveryState,
    event: RecoveryEvent,
)
    ensures
        recovery_step(policy, state, event).1 matches Some(RecoveryEffect::PublishGeneration(g))
            ==> state is Connecting && event == (RecoveryEvent::AttemptSucceeded { generation: g }),
        recovery_step(
            policy,
            recovery_step(policy, state, RecoveryEvent::Close).0,
            event,
        ).1 is None,
{
}

/// A loss reported for another generation than the connected one is ignored.
pub proof fn foreign_loss_is_ignored(
    policy: RecoveryPolicy,
    active: GenerationId,
    generation: GenerationId,
    now: MonotonicTime,
)
    requires
        active != generation,
    ensures
        recovery_step(
            policy,
            RecoveryState::Connected(active),
            RecoveryEvent::TransportLost { generation, now },
        ) == (RecoveryState::Connected(active), None::<RecoveryEffect>),
{
}

/// The wait is nothing before the first failure, the first wait behind one
/// failure, and doubles with each further one until it reaches the longest
/// wait; behind the 32nd failure it stays as it is.
pub proof fn waits_double(initial: Duration, maximum: Duration, failed: u32)
    requires
        initial@ <= 18_446_744_073_709_551_615_999_999_999,
        maximum@ <= 18_446_744_073_709_551_615_999_999_999,
    ensures
        doubled_backoff(initial, maximum, 0)@ == 0,
        doubled_backoff(initial, maximum, failed)@ <= maximum@,
        doubled_backoff(initial, maximum, 1)@ == if initial@ <= maximum@ {
            initial@
        } else {
            maximum@
        },
        1 <= failed < 32 ==> doubled_backoff(initial, maximum, (failed + 1) as u32)@ == ({
            let wait = doubled_backoff(initial, maximum, failed)@;
            if 2 * wait <= maximum@ {
                2 * wait
            } else {
                maximum@
            }
        }),
        32 <= failed < u32::MAX ==> doubled_backoff(initial, maximum, (failed + 1) as u32)
            == doubled_backoff(initial, maximum, failed),
{
    broadcast use crate::clock::span_of_length;

    lemma2_to64();
    assert(initial@ * 1 == initial@);
    if 1 <= failed < 32 {
        let doublings = (failed - 1) as nat;
        vstd::arithmetic::power2::lemma_pow2_unfold((doublings + 1) as nat);
        let once = pow2(doublings) as int;
        let twice = pow2((doublings + 1) as nat) as int;
        let length = initial@ as int;
        assert(length * twice == 2 * (length * once)) by (nonlinear_arith)
            requires
                twice == 2 * once,
        ;
    }
}

/// A lost connection is recovered where any attempt is allowed: the first
/// attempt is due at once, and the whole recovery ends when its time is over.
pub proof fn losses_begin_recoveries(
    policy: RecoveryPolicy,
    generation: GenerationId,
    now: MonotonicTime,
)
    requires
        now@ <= 18_446_744_073_709_551_615_999_999_999,
        policy.max_attempts > 0,
    ensures
        match recovery_step(
            policy,
            RecoveryState::Connected(generation),
            RecoveryEvent::TransportLost { generation, now },
        ) {
            (
                RecoveryState::Waiting { attempt, wake_at, total_deadline },
                Some(RecoveryEffect::ScheduleAttempt { attempt: scheduled, at }),
            ) => {
                &&& attempt == 1
                &&& scheduled == 1
                &&& wake_at@ == now@
                &&& at == wake_at
                &&& total_deadline == now.plus(policy.total_timeout)
            },
            _ => false,
        },
{
    broadcast use crate::clock::instant_plus_span, crate::clock::span_of_length;

}

/// A failed attempt is followed by the next one as long as any is allowed and
/// time is left. The wait before it is the doubled one, behind as much of the
/// jitter as is allowed, and never goes past the deadline of the recovery.
pub proof fn failed_attempts_are_followed(
    policy: RecoveryPolicy,
    attempt: u32,
    attempt_deadline: MonotonicTime,
    total_deadline: MonotonicTime,
    now: MonotonicTime,
    jitter: Duration,
)
    requires
        attempt < policy.max_attempts,
        now@ < total_deadline@ <= 18_446_744_073_709_551_615_999_999_999,
    ensures
        match recovery_step(
            policy,
            RecoveryState::Connecting { attempt, attempt_deadline, total_deadline },
            RecoveryEvent::AttemptFailed { now, jitter },
        ) {
            (
                RecoveryState::Waiting { attempt: next, wake_at, total_deadline: end },
                Some(RecoveryEffect::ScheduleAttempt { attempt: scheduled, at }),
            ) => {
                let extra = if jitter@ <= policy.maximum_jitter@ {
                    jitter@
                } else {
                    policy.maximum_jitter@
                };
                let wait = doubled_backoff(
                    policy.initial_backoff,
                    policy.maximum_backoff,
                    attempt,
                )@;
                &&& next == attempt + 1
                &&& scheduled == attempt + 1
                &&& end == total_deadline
                &&& at == wake_at
                &&& wake_at@ == if now@ + extra + wait <= total_deadline@ {
                    now@ + extra + wait
                } else {
                    total_deadline@
                }
            },
            _ => false,
        },
{
    broadcast use crate::clock::instant_plus_span;

}

/// An attempt that is due starts, with its own deadline or that of the whole
/// recovery, whichever comes first. Before it is due nothing happens.
pub proof fn due_attempts_start(
    policy: RecoveryPolicy,
    attempt: u32,
    wake_at: MonotonicTime,
    total_deadline: MonotonicTime,
    now: MonotonicTime,
)
    requires
        now@ < total_deadline@ <= 18_446_744_073_709_551_615_999_999_999,
    ensures
        ({
            let waiting = RecoveryState::Waiting { attempt, wake_at, total_deadline };
            let step = recovery_step(policy, waiting, RecoveryEvent::Wake { now });
            if now@ < wake_at@ {
                step == (waiting, None::<RecoveryEffect>)
            } else {
                match step {
                    (
                        RecoveryState::Connecting {
                            attempt: running,
                            attempt_deadline,
                            total_deadline: end,
                        },
                        Some(RecoveryEffect::StartAttempt { attempt: started, deadline }),
                    ) => {
                        &&& running == attempt
                        &&& started == attempt
                        &&& end == total_deadline
                        &&& deadline == attempt_deadline
                        &&& deadline@ == if now@ + policy.attempt_timeout@ <= total_deadline@ {
                            now@ + policy.attempt_timeout@
                        } else {
                            total_deadline@
                        }
                    },
                    _ => false,
                }
            }
        }),
{
    broadcast use crate::clock::instant_plus_span;

}

/// A recovery fails for three reasons alone: no attempt is allowed at all, a
/// failed attempt was the last one allowed, or the whole recovery is out of
/// time.
pub proof fn recoveries_fail_when_they_are_spent(
    policy: RecoveryPolicy,
    state: RecoveryState,
    event: RecoveryEvent,
)
    ensures
        recovery_step(policy, state, event).1 == Some(RecoveryEffect::RecoveryFailed) <==> match (
            state,
            event,
        ) {
            (
                RecoveryState::Connected(active),
                RecoveryEvent::TransportLost { generation, .. },
            ) => active == generation && policy.max_attempts == 0,
            (
                RecoveryState::Waiting { wake_at, total_deadline, .. },
                RecoveryEvent::Wake { now },
            ) => wake_at@ <= now@ && total_deadline@ <= now@,
            (
                RecoveryState::Connecting { attempt, total_deadline, .. },
                RecoveryEvent::AttemptFailed { now, .. },
            ) => policy.max_attempts <= attempt || total_deadline@ <= now@,
            _ => false,
        },
        recovery_step(policy, state, event).0 == RecoveryState::Failed <==> state
            == RecoveryState::Failed || recovery_step(policy, state, event).1 == Some(
            RecoveryEffect::RecoveryFailed,
        ),
{
}

/// An attempt that succeeds publishes its generation, a recovery can be
/// closed until it has ended, and what is not foreseen changes nothing.
pub proof fn recoveries_end_as_they_are_told(
    policy: RecoveryPolicy,
    state: RecoveryState,
    event: RecoveryEvent,
)
    ensures
        state is Connecting ==> (event matches RecoveryEvent::AttemptSucceeded { generation }
            ==> recovery_step(policy, state, event) == (
            RecoveryState::Connected(generation),
            Some(RecoveryEffect::PublishGeneration(generation)),
        )),
        recovery_step(policy, state, event).1 == Some(RecoveryEffect::Closed) <==> event is Close
            && !(state is Failed) && !(state is Closed),
        recovery_step(policy, state, event).0 == RecoveryState::Closed <==> state is Closed
            || recovery_step(policy, state, event).1 == Some(RecoveryEffect::Closed),
        recovery_step(policy, state, event).1 is None <==> recovery_step(policy, state, event)
            == (state, None::<RecoveryEffect>),
        event is Wake && !(state is Waiting) ==> recovery_step(policy, state, event).1 is None,
        event is TransportLost && !(state is Connected) ==> recovery_step(
            policy,
            state,
            event,
        ).1 is None,
        (event is AttemptSucceeded || event is AttemptFailed) && !(state is Connecting)
            ==> recovery_step(policy, state, event).1 is None,
{
}

} // verus!
