//! The coordinator that carries a connection from a lost generation to the
//! next one, and the operations that wait for it.

use crate::clock::{Duration, MonotonicTime};
use crate::runtime::error::{GenerationExit, GenerationExitCause, RuntimeError};
use crate::runtime::object_state::{ObjectEffect, ObjectToken};
use crate::runtime::recovery::{
    recovery_step, RecoveryCoordinator, RecoveryEffect, RecoveryEvent, RecoveryPolicy, RecoveryState,
};
use crate::runtime::recovery_queue::{
    RecoveryQueue, RecoveryQueueError, RecoveryWaitId, RecoveryWaitOutcome,
};
use crate::runtime::reducer::GenerationId;
use crate::runtime::wait_list::{
    filtered_waits_are_waits, ids_of, others, Wait, WaitListError, WaitListModel,
};
use rand::Rng;
use vstd::prelude::*;

verus! {

#[derive(Clone, Copy, Debug, PartialEq, Eq, Structural)]
pub enum RecoveryError {
    NotRecoverable,
    Closed,
    AttemptsExhausted,
    StaleGeneration,
    GenerationExhausted,
    MismatchedGeneration,
    QueueFull,
    DependencyNotConnection,
    WaitTimedOut,
    WaitCancelled,
    WaitFailed,
}

/// A number from `rand::thread_rng`, by `Rng::gen_range` over `0..=maximum`:
/// no greater than `maximum`. Which one is random and left unsaid.
#[verifier::external_body]
fn random_up_to(maximum: u64) -> (number: u64)
    ensures
        number <= maximum,
{
    rand::thread_rng().gen_range(0..=maximum)
}

/// Spreads the attempts of many clients over time.
#[derive(Clone, Copy, Debug, PartialEq, Eq, Structural)]
pub struct RandomRecoveryJitter {
    maximum: Duration,
}

impl RandomRecoveryJitter {
    pub closed spec fn maximum(&self) -> Duration {
        self.maximum
    }

    pub fn new(maximum: Duration) -> (jitter: Self)
        ensures
            jitter.maximum() == maximum,
    {
        RandomRecoveryJitter { maximum }
    }

    /// The largest number of nanoseconds that is drawn.
    pub fn bound(&self) -> (bound: u64)
        ensures
            bound == (if self.maximum()@ <= u64::MAX {
                self.maximum()@
            } else {
                u64::MAX as nat
            }),
    {
        let nanos: u128 = self.maximum.as_nanos();
        if nanos <= u64::MAX as u128 {
            nanos as u64
        } else {
            u64::MAX
        }
    }

    /// How long to wait on top of the backoff.
    pub fn next(&self, failed_attempt: u32) -> (wait: Duration)
        ensures
            wait@ <= self.maximum()@,
            wait@ <= u64::MAX,
    {
        let bound: u64 = self.bound();
        if bound == 0 {
            Duration::zero()
        } else {
            Duration::from_nanos(random_up_to(bound))
        }
    }
}

/// What a waiting operation is told.
#[derive(Clone, Copy, Debug, PartialEq, Eq)]
pub struct WaitResult {
    pub id: RecoveryWaitId,
    pub result: Result<ObjectToken, RecoveryError>,
}

/// What an operation does about its dependency.
#[derive(Clone, Copy, Debug, PartialEq, Eq, Structural)]
pub enum DependencyStep {
    /// It can be used.
    Ready(ObjectToken),
    /// The operation waits, until the deadline at the latest.
    Wait { id: RecoveryWaitId, deadline: MonotonicTime },
}

/// What the driver does next.
#[derive(Clone, Copy, Debug, PartialEq, Eq, Structural)]
pub enum DriveStep {
    Sleep { until: MonotonicTime },
    Attempt { attempt: u32, deadline: MonotonicTime },
    End(RecoveryError),
}

/// How an attempt to start the next generation ended.
#[derive(Clone, Copy, Debug, PartialEq, Eq, Structural)]
pub enum AttemptResult {
    /// A generation was started, with this connection object.
    Started(ObjectToken),
    Failed(RuntimeError),
}

/// What follows from the end of an attempt.
#[derive(Debug)]
pub enum AttemptStep {
    /// The new generation is published; these operations go on with it.
    Published(Vec<WaitResult>),
    /// The new generation is closed, and the recovery ends.
    Discard(RecoveryError),
    End(RecoveryError),
    /// Another attempt may follow.
    Again(Option<RecoveryEffect>),
}

#[verifier::ext_equal]
pub struct DriverModel {
    pub policy: RecoveryPolicy,
    pub state: RecoveryState,
    pub active: ObjectToken,
    pub recovering: bool,
    pub queue: WaitListModel,
    pub closed: bool,
}

pub open spec fn told(waits: Seq<Wait>, result: Result<ObjectToken, RecoveryError>) -> Seq<
    WaitResult,
> {
    waits.map_values(|wait: Wait| WaitResult { id: RecoveryWaitId(wait.id), result })
}

pub open spec fn step_of(effect: Option<RecoveryEffect>) -> DriveStep {
    match effect {
        Some(RecoveryEffect::ScheduleAttempt { at, .. }) => DriveStep::Sleep { until: at },
        Some(RecoveryEffect::StartAttempt { attempt, deadline }) => DriveStep::Attempt {
            attempt,
            deadline,
        },
        Some(RecoveryEffect::RecoveryFailed) => DriveStep::End(RecoveryError::AttemptsExhausted),
        Some(RecoveryEffect::Closed) | Some(RecoveryEffect::PublishGeneration(_)) | None => {
            DriveStep::End(RecoveryError::Closed)
        },
    }
}

impl DriverModel {
    /// Everybody who waits waits for the active connection, and only while
    /// it is being recovered.
    pub open spec fn wf(self) -> bool {
        &&& self.queue.wf()
        &&& !self.recovering ==> self.queue.waits.len() == 0
        &&& forall|i: int|
            0 <= i < self.queue.waits.len() ==> (#[trigger] self.queue.waits[i]).dependency
                == self.active
    }

    pub open spec fn stepped(self, event: RecoveryEvent) -> (Self, Option<RecoveryEffect>) {
        let (state, effect) = recovery_step(self.policy, self.state, event);
        (DriverModel { state, ..self }, effect)
    }

    /// The queue is emptied, and nothing is recovered any more.
    pub open spec fn drained(self) -> Self {
        DriverModel {
            recovering: false,
            queue: WaitListModel { waits: Seq::empty(), ..self.queue },
            ..self
        }
    }

    /// A generation ended; its recovery begins.
    pub open spec fn lost(self, exit: GenerationExit, now: MonotonicTime) -> (
        Self,
        Result<(GenerationId, Option<RecoveryEffect>), RecoveryError>,
    ) {
        if !(exit.cause is Transport) {
            (self, Err(RecoveryError::NotRecoverable))
        } else if self.closed {
            (self, Err(RecoveryError::Closed))
        } else if exit.generation.0 == u64::MAX {
            (self, Err(RecoveryError::GenerationExhausted))
        } else if self.state != RecoveryState::Connected(exit.generation) {
            (self, Err(RecoveryError::StaleGeneration))
        } else {
            let (next, effect) = self.stepped(
                RecoveryEvent::TransportLost { generation: exit.generation, now },
            );
            if self.active.generation != exit.generation || self.recovering {
                (next, Err(RecoveryError::StaleGeneration))
            } else {
                (
                    DriverModel { recovering: true, ..next },
                    Ok((GenerationId((exit.generation.0 + 1) as u64), effect)),
                )
            }
        }
    }

    /// A dependency is asked for.
    pub open spec fn resolved(
        self,
        dependency: ObjectToken,
        deadline: Option<MonotonicTime>,
        now: MonotonicTime,
    ) -> (Self, Result<DependencyStep, RecoveryError>) {
        if !self.recovering {
            (self, Ok(DependencyStep::Ready(dependency)))
        } else if dependency != self.active {
            (self, Err(RecoveryError::DependencyNotConnection))
        } else {
            let until = match deadline {
                Some(deadline) => deadline,
                None => now.plus(self.policy.total_timeout),
            };
            let (queue, id) = self.queue.enqueued(dependency, Some(until));
            (
                DriverModel { queue, ..self },
                match id {
                    Ok(id) => Ok(DependencyStep::Wait { id: RecoveryWaitId(id), deadline: until }),
                    Err(WaitListError::Full) => Err(RecoveryError::QueueFull),
                    Err(WaitListError::IdExhausted) => Err(RecoveryError::WaitFailed),
                },
            )
        }
    }
}

/// However a recovery ends, nobody is left waiting for it.
pub proof fn ended_recoveries_leave_nobody_waiting(driver: DriverModel)
    ensures
        driver.drained().queue.waits.len() == 0,
        !driver.drained().recovering,
        driver.wf() ==> driver.drained().wf(),
{
}

/// Operations only wait while the connection they ask for is being
/// recovered, and never without a deadline.
pub proof fn waits_are_bounded(
    driver: DriverModel,
    dependency: ObjectToken,
    deadline: Option<MonotonicTime>,
    now: MonotonicTime,
)
    requires
        driver.wf(),
    ensures
        driver.resolved(dependency, deadline, now).1 matches Ok(DependencyStep::Wait { id, deadline: until })
            ==> driver.recovering && dependency == driver.active && until == (match deadline {
            Some(deadline) => deadline,
            None => now.plus(driver.policy.total_timeout),
        }),
        driver.resolved(dependency, deadline, now).0.queue.waits.len() <= driver.queue.capacity,
        driver.resolved(dependency, deadline, now).0.wf(),
{
}

pub struct RecoveryDriver {
    coordinator: RecoveryCoordinator,
    active: ObjectToken,
    recovering: bool,
    queue: RecoveryQueue,
    default_wait: Duration,
    closed: bool,
}

impl View for RecoveryDriver {
    type V = DriverModel;

    closed spec fn view(&self) -> DriverModel {
        DriverModel {
            policy: self.coordinator.policy(),
            state: self.coordinator.phase(),
            active: self.active,
            recovering: self.recovering,
            queue: self.queue@,
            closed: self.closed,
        }
    }
}

impl RecoveryDriver {
    /// The longest wait is the time that a recovery may take, and everybody
    /// who waits waits for the active connection.
    pub closed spec fn wf(&self) -> bool {
        self@.wf() && self.default_wait == self@.policy.total_timeout
    }

    pub fn new(connection: ObjectToken, policy: RecoveryPolicy) -> (driver: Self)
        ensures
            driver.wf(),
            driver@ == (DriverModel {
                policy,
                state: RecoveryState::Connected(connection.generation),
                active: connection,
                recovering: false,
                queue: WaitListModel::empty(policy.max_waiting_operations),
                closed: false,
            }),
    {
        RecoveryDriver {
            coordinator: RecoveryCoordinator::new(connection.generation(), policy),
            active: connection,
            recovering: false,
            queue: RecoveryQueue::new(policy.max_waiting_operations),
            default_wait: policy.total_timeout,
            closed: false,
        }
    }

    pub fn state(&self) -> (state: RecoveryState)
        ensures
            state == self@.state,
    {
        self.coordinator.state()
    }

    pub fn active_connection(&self) -> (active: ObjectToken)
        ensures
            active == self@.active,
    {
        self.active
    }

    pub fn is_closed(&self) -> (closed: bool)
        ensures
            closed == self@.closed,
    {
        self.closed
    }

    fn reduce(&mut self, event: RecoveryEvent) -> (effect: Option<RecoveryEffect>)
        requires
            old(self).wf(),
        ensures
            final(self).wf(),
            (final(self)@, effect) == old(self)@.stepped(event),
    {
        self.coordinator.reduce(event)
    }

    /// A generation ended: begins its recovery, where there is one.
    pub fn recover(&mut self, exit: &GenerationExit, now: MonotonicTime) -> (begun: Result<
        (GenerationId, Option<RecoveryEffect>),
        RecoveryError,
    >)
        requires
            old(self).wf(),
        ensures
            final(self).wf(),
            (final(self)@, begun) == old(self)@.lost(*exit, now),
    {
        match exit.cause {
            GenerationExitCause::Transport(_) => {},
            _ => {
                return Err(RecoveryError::NotRecoverable);
            },
        }
        if self.closed {
            return Err(RecoveryError::Closed);
        }
        let next = match exit.generation.checked_next() {
            Some(next) => next,
            None => {
                return Err(RecoveryError::GenerationExhausted);
            },
        };
        if self.coordinator.state() != RecoveryState::Connected(exit.generation) {
            return Err(RecoveryError::StaleGeneration);
        }
        let effect = self.reduce(
            RecoveryEvent::TransportLost { generation: exit.generation, now },
        );
        if self.active.generation() != exit.generation || self.recovering {
            return Err(RecoveryError::StaleGeneration);
        }
        self.recovering = true;
        Ok((next, effect))
    }

    /// What an effect asks of the driver. A driver that was closed ends.
    pub fn drive(&self, effect: Option<RecoveryEffect>) -> (step: DriveStep)
        ensures
            step == (match step_of(effect) {
                DriveStep::End(error) => DriveStep::End(error),
                other => if self@.closed {
                    DriveStep::End(RecoveryError::Closed)
                } else {
                    other
                },
            }),
    {
        let step = match effect {
            Some(RecoveryEffect::ScheduleAttempt { at, .. }) => DriveStep::Sleep { until: at },
            Some(RecoveryEffect::StartAttempt { attempt, deadline }) => DriveStep::Attempt {
                attempt,
                deadline,
            },
            Some(RecoveryEffect::RecoveryFailed) => {
                return DriveStep::End(RecoveryError::AttemptsExhausted);
            },
            Some(RecoveryEffect::Closed) | Some(RecoveryEffect::PublishGeneration(_)) | None => {
                return DriveStep::End(RecoveryError::Closed);
            },
        };
        if self.closed {
            return DriveStep::End(RecoveryError::Closed);
        }
        step
    }

    /// The time of the next attempt came.
    pub fn wake(&mut self, now: MonotonicTime) -> (effect: Option<RecoveryEffect>)
        requires
            old(self).wf(),
        ensures
            final(self).wf(),
            (final(self)@, effect) == old(self)@.stepped(RecoveryEvent::Wake { now }),
    {
        self.reduce(RecoveryEvent::Wake { now })
    }

    /// An attempt to start `next_generation` ended.
    pub fn attempt_ended(
        &mut self,
        next_generation: GenerationId,
        result: AttemptResult,
        now: MonotonicTime,
        jitter: Duration,
    ) -> (step: AttemptStep)
        requires
            old(self).wf(),
        ensures
            final(self).wf(),
            match result {
                AttemptResult::Started(connection) => if connection.generation != next_generation {
                    step == AttemptStep::Discard(RecoveryError::MismatchedGeneration)
                        && final(self)@ == old(self)@
                } else {
                    let (next, effect) = old(self)@.stepped(
                        RecoveryEvent::AttemptSucceeded { generation: next_generation },
                    );
                    if effect == Some(RecoveryEffect::PublishGeneration(next_generation)) {
                        &&& step matches AttemptStep::Published(results)
                        &&& results@ == told(old(self)@.queue.waits, Ok(connection))
                        &&& final(self)@ == (DriverModel { active: connection, ..next.drained() })
                    } else {
                        step == AttemptStep::End(RecoveryError::Closed) && final(self)@ == next
                    }
                },
                AttemptResult::Failed(RuntimeError::Closed) => step == AttemptStep::End(
                    RecoveryError::Closed,
                ) && final(self)@ == old(self)@,
                AttemptResult::Failed(_) => {
                    &&& step matches AttemptStep::Again(effect)
                    &&& (final(self)@, effect) == old(self)@.stepped(
                        RecoveryEvent::AttemptFailed { now, jitter },
                    )
                },
            },
    {
        match result {
            AttemptResult::Started(connection) => {
                if connection.generation() != next_generation {
                    return AttemptStep::Discard(RecoveryError::MismatchedGeneration);
                }
                let effect = self.reduce(
                    RecoveryEvent::AttemptSucceeded { generation: next_generation },
                );
                let published = match effect {
                    Some(RecoveryEffect::PublishGeneration(generation)) => generation
                        == next_generation,
                    _ => false,
                };
                if published {
                    AttemptStep::Published(self.finish_recovery(connection))
                } else {
                    AttemptStep::End(RecoveryError::Closed)
                }
            },
            AttemptResult::Failed(RuntimeError::Closed) => AttemptStep::End(RecoveryError::Closed),
            AttemptResult::Failed(_) => AttemptStep::Again(
                self.reduce(RecoveryEvent::AttemptFailed { now, jitter }),
            ),
        }
    }

    /// The replacement is there: everybody who waited goes on with it.
    fn finish_recovery(&mut self, replacement: ObjectToken) -> (results: Vec<WaitResult>)
        requires
            old(self).wf(),
        ensures
            final(self).wf(),
            final(self)@ == (DriverModel { active: replacement, ..old(self)@.drained() }),
            results@ == told(old(self)@.queue.waits, Ok(replacement)),
    {
        let previous = self.active;
        let ghost waits = self.queue@.waits;
        self.queue.publish_replacement(
            ObjectEffect::ReplacementPublished { previous, replacement },
        );
        let ghost renamed = self.queue@.waits;
        self.active = replacement;
        self.recovering = false;
        let outcomes = self.queue.release_dependency(replacement);
        proof {
            let select = |wait: Wait| wait.dependency == replacement;
            assert forall|i: int| 0 <= i < renamed.len() implies select(#[trigger] renamed[i]) by {
                assert(waits[i].dependency == previous);
            }
            all_are_taken(renamed, select);
            assert(ids_of(renamed, select) =~= waits.map_values(|wait: Wait| wait.id));
            assert(others(renamed, select) =~= Seq::<Wait>::empty());
            assert(self@ =~= DriverModel { active: replacement, ..old(self)@.drained() });
        }
        let results = Self::complete_waits(&outcomes, Some(replacement));
        proof {
            assert(results@ =~= told(waits, Ok(replacement)));
        }
        results
    }

    /// A recovery ended without a replacement: everybody who waited is told.
    pub fn fail_waiters(&mut self) -> (results: Vec<WaitResult>)
        requires
            old(self).wf(),
        ensures
            final(self).wf(),
            final(self)@ == old(self)@.drained(),
            results@ == told(old(self)@.queue.waits, Err(RecoveryError::WaitFailed)),
    {
        let ghost waits = self.queue@.waits;
        self.recovering = false;
        let outcomes = self.queue.fail_all();
        let results = Self::complete_waits(&outcomes, None);
        proof {
            assert(results@ =~= told(waits, Err(RecoveryError::WaitFailed)));
        }
        results
    }

    /// What each wait is told.
    fn complete_waits(outcomes: &Vec<RecoveryWaitOutcome>, replacement: Option<ObjectToken>) -> (
        results: Vec<WaitResult>)
        ensures
            results@.len() == outcomes@.len(),
            forall|i: int|
                0 <= i < outcomes@.len() ==> #[trigger] results@[i] == (WaitResult {
                    id: outcomes@[i].wait_id(),
                    result: match (outcomes@[i], replacement) {
                        (RecoveryWaitOutcome::Ready(_), Some(replacement)) => Ok(replacement),
                        _ => Err(RecoveryError::WaitFailed),
                    },
                }),
    {
        let mut results: Vec<WaitResult> = Vec::new();
        let mut i: usize = 0;
        while i < outcomes.len()
            invariant
                i <= outcomes@.len(),
                results@.len() == i,
                forall|k: int|
                    0 <= k < i ==> #[trigger] results@[k] == (WaitResult {
                        id: outcomes@[k].wait_id(),
                        result: match (outcomes@[k], replacement) {
                            (RecoveryWaitOutcome::Ready(_), Some(replacement)) => Ok(replacement),
                            _ => Err(RecoveryError::WaitFailed),
                        },
                    }),
            decreases outcomes@.len() - i,
        {
            let outcome = outcomes[i];
            let result = match (outcome, replacement) {
                (RecoveryWaitOutcome::Ready(_), Some(replacement)) => Ok(replacement),
                _ => Err(RecoveryError::WaitFailed),
            };
            results.push(WaitResult { id: outcome.id(), result });
            i = i + 1;
        }
        results
    }

    /// Closes the driver for good.
    pub fn close(&mut self) -> (results: Vec<WaitResult>)
        requires
            old(self).wf(),
        ensures
            final(self).wf(),
            final(self)@ == (DriverModel {
                closed: true,
                ..old(self)@.stepped(RecoveryEvent::Close).0.drained()
            }),
            results@ == told(old(self)@.queue.waits, Err(RecoveryError::WaitFailed)),
    {
        self.closed = true;
        let _ = self.reduce(RecoveryEvent::Close);
        self.fail_waiters()
    }

    /// No recovery goes on or begins from now on; whoever drives one ends it.
    pub fn abandon(&mut self)
        requires
            old(self).wf(),
        ensures
            final(self).wf(),
            final(self)@ == (DriverModel { closed: true, ..old(self)@ }),
    {
        self.closed = true;
    }

    /// The moment that lies `duration` after `now`.
    pub fn deadline_after(&self, now: MonotonicTime, duration: Duration) -> (at: MonotonicTime)
        ensures
            at == now.plus(duration),
    {
        now.saturating_add(duration)
    }

    /// Asks for a dependency, and waits for it while it is being recovered.
    pub fn resolve_dependency(
        &mut self,
        dependency: ObjectToken,
        deadline: Option<MonotonicTime>,
        now: MonotonicTime,
    ) -> (step: Result<DependencyStep, RecoveryError>)
        requires
            old(self).wf(),
        ensures
            final(self).wf(),
            (final(self)@, step) == old(self)@.resolved(dependency, deadline, now),
    {
        if !self.recovering {
            return Ok(DependencyStep::Ready(dependency));
        }
        if dependency != self.active {
            return Err(RecoveryError::DependencyNotConnection);
        }
        let until = match deadline {
            Some(deadline) => deadline,
            None => now.saturating_add(self.default_wait),
        };
        match self.queue.enqueue(dependency, Some(until)) {
            Ok(id) => Ok(DependencyStep::Wait { id, deadline: until }),
            Err(RecoveryQueueError::Full) => Err(RecoveryError::QueueFull),
            Err(RecoveryQueueError::IdExhausted) => Err(RecoveryError::WaitFailed),
        }
    }

    /// A wait ended before its recovery: its deadline came, or it was
    /// cancelled.
    pub fn remove_wait(&mut self, id: RecoveryWaitId, cancelled: bool) -> (error: RecoveryError)
        requires
            old(self).wf(),
        ensures
            final(self).wf(),
            final(self)@ == (DriverModel {
                queue: old(self)@.queue.without(|wait: Wait| wait.id == id.0),
                ..old(self)@
            }),
            error == (if cancelled {
                RecoveryError::WaitCancelled
            } else {
                RecoveryError::WaitTimedOut
            }),
    {
        let ghost waits = self.queue@.waits;
        let _ = self.queue.cancel(id);
        proof {
            let select = |wait: Wait| wait.id == id.0;
            filtered_waits_are_waits(waits, select);
            assert forall|i: int| 0 <= i < self.queue@.waits.len() implies (
            #[trigger] self.queue@.waits[i]).dependency == self.active by {
                let wait = others(waits, select)[i];
                assert(waits.contains(wait));
                let j = choose|j: int| 0 <= j < waits.len() && waits[j] == wait;
                assert(waits[j].dependency == self.active);
            }
            if !self.recovering {
                assert(waits =~= Seq::<Wait>::empty());
                if self.queue@.waits.len() > 0 {
                    assert(waits.contains(others(waits, select)[0]));
                }
            }
        }
        if cancelled {
            RecoveryError::WaitCancelled
        } else {
            RecoveryError::WaitTimedOut
        }
    }
}

proof fn all_are_taken(waits: Seq<Wait>, select: spec_fn(Wait) -> bool)
    requires
        forall|i: int| 0 <= i < waits.len() ==> select(#[trigger] waits[i]),
    ensures
        waits.filter(select) =~= waits,
        others(waits, select) =~= Seq::<Wait>::empty(),
    decreases waits.len(),
{
    reveal(Seq::filter);
    if waits.len() > 0 {
        let rest = waits.drop_last();
        assert(forall|i: int| 0 <= i < rest.len() ==> rest[i] == waits[i]);
        all_are_taken(rest, select);
        assert(select(waits.last()));
    }
}

/// A generation is recovered where its transport was lost, it is the one that
/// is connected, and nothing was closed or is being recovered already; the
/// next generation follows it. Everything else is refused with its reason.
pub proof fn transport_losses_are_recovered(
    driver: DriverModel,
    exit: GenerationExit,
    now: MonotonicTime,
)
    ensures
        ({
            let (next, begun) = driver.lost(exit, now);
            let recoverable = exit.cause is Transport;
            let left = exit.generation.0 < u64::MAX;
            let connected = driver.state == RecoveryState::Connected(exit.generation);
            let current = driver.active.generation == exit.generation && !driver.recovering;
            &&& begun is Ok <==> recoverable && !driver.closed && left && connected && current
            &&& begun is Err ==> begun->Err_0 == if !recoverable {
                RecoveryError::NotRecoverable
            } else if driver.closed {
                RecoveryError::Closed
            } else if !left {
                RecoveryError::GenerationExhausted
            } else {
                RecoveryError::StaleGeneration
            }
            &&& begun matches Ok((generation, effect)) ==> {
                &&& generation.0 == exit.generation.0 + 1
                &&& next.recovering
                &&& (next.state, effect) == recovery_step(
                    driver.policy,
                    driver.state,
                    RecoveryEvent::TransportLost { generation: exit.generation, now },
                )
            }
            &&& next.policy == driver.policy
            &&& next.active == driver.active
            &&& next.queue == driver.queue
            &&& next.closed == driver.closed
            &&& begun is Err ==> next.recovering == driver.recovering
        }),
{
}

/// A dependency can be used as it is while nothing is recovered. While its
/// connection is, whoever asks for it waits behind the others, until the
/// deadline that was set or else for as long as a recovery may take; nothing
/// else can be waited for.
pub proof fn dependencies_wait_for_the_recovery(
    driver: DriverModel,
    dependency: ObjectToken,
    deadline: Option<MonotonicTime>,
    now: MonotonicTime,
)
    ensures
        ({
            let (next, step) = driver.resolved(dependency, deadline, now);
            let room = driver.queue.waits.len() < driver.queue.capacity;
            let id_left = driver.queue.next_id is Some;
            &&& !driver.recovering ==> step == Ok::<DependencyStep, RecoveryError>(
                DependencyStep::Ready(dependency),
            ) && next == driver
            &&& driver.recovering && dependency != driver.active ==> step == Err::<
                DependencyStep,
                RecoveryError,
            >(RecoveryError::DependencyNotConnection) && next == driver
            &&& driver.recovering && dependency == driver.active ==> {
                &&& step == Err::<DependencyStep, RecoveryError>(RecoveryError::QueueFull)
                    <==> !room
                &&& step == Err::<DependencyStep, RecoveryError>(RecoveryError::WaitFailed)
                    <==> room && !id_left
                &&& room && id_left ==> {
                    let until = match deadline {
                        Some(deadline) => deadline,
                        None => now.plus(driver.policy.total_timeout),
                    };
                    let id = driver.queue.next_id->Some_0;
                    &&& step == Ok::<DependencyStep, RecoveryError>(
                        DependencyStep::Wait { id: RecoveryWaitId(id), deadline: until },
                    )
                    &&& next.queue.waits == driver.queue.waits.push(
                        Wait { id, dependency, deadline: Some(until) },
                    )
                }
            }
            &&& next == (DriverModel { queue: next.queue, ..driver })
        }),
{
}

/// Everybody who waits is told once, in the order of arrival, and all are
/// told the same.
pub proof fn everybody_is_told_the_same(
    waits: Seq<Wait>,
    result: Result<ObjectToken, RecoveryError>,
)
    ensures
        told(waits, result).len() == waits.len(),
        forall|i: int|
            0 <= i < waits.len() ==> (#[trigger] told(waits, result)[i]).id.0 == waits[i].id
                && told(waits, result)[i].result == result,
{
}

/// The driver sleeps until an attempt is due, makes the attempt that is
/// started, and ends otherwise: where the attempts are used up it says so.
pub proof fn drivers_do_what_is_decided(effect: Option<RecoveryEffect>)
    ensures
        match step_of(effect) {
            DriveStep::Sleep { until } => effect matches Some(RecoveryEffect::ScheduleAttempt {
                at,
                ..
            }) && at == until,
            DriveStep::Attempt { attempt, deadline } => effect == Some(
                RecoveryEffect::StartAttempt { attempt, deadline },
            ),
            DriveStep::End(RecoveryError::AttemptsExhausted) => effect == Some(
                RecoveryEffect::RecoveryFailed,
            ),
            DriveStep::End(error) => error == RecoveryError::Closed && (effect is None || effect
                == Some(RecoveryEffect::Closed) || effect matches Some(
                RecoveryEffect::PublishGeneration(_),
            )),
        },
{
}

/// Ending a recovery empties the queue and touches nothing else; an event
/// changes the state alone.
pub proof fn drivers_keep_what_is_theirs(driver: DriverModel, event: RecoveryEvent)
    ensures
        driver.drained().state == driver.state,
        driver.drained().policy == driver.policy,
        driver.drained().active == driver.active,
        driver.drained().closed == driver.closed,
        driver.drained().queue.capacity == driver.queue.capacity,
        driver.drained().queue.next_id == driver.queue.next_id,
        (driver.stepped(event).0.state, driver.stepped(event).1) == recovery_step(
            driver.policy,
            driver.state,
            event,
        ),
        driver.stepped(event).0 == (DriverModel { state: driver.stepped(event).0.state, ..driver }),
{
}

} // verus!
