//! Deterministic authority for replaying a tree connect after its session was
//! replaced.

use crate::clock::{Duration, MonotonicTime};
use crate::runtime::object_state::ObjectToken;
use crate::runtime::wait_list::{
    expired, filtered_waits_are_waits, ids_of, outcomes_of, Wait, WaitList, WaitListError, WaitListModel,
};
use vstd::prelude::*;

verus! {

#[derive(Clone, Copy, Debug, PartialEq, Eq, Hash, Structural)]
pub struct ShareWaitId(pub u64);

#[derive(Clone, Copy, Debug, PartialEq, Eq, Structural)]
pub enum ShareWaitError {
    Full,
    DependencyNotShare,
    IdExhausted,
}

#[derive(Clone, Copy, Debug, PartialEq, Eq, Structural)]
pub enum ShareWaitOutcome {
    Ready { id: ShareWaitId, share: ObjectToken },
    Cancelled(ShareWaitId),
    TimedOut(ShareWaitId),
    RecoveryFailed(ShareWaitId),
}

/// Bounded FIFO of operations that wait for one share.
pub struct ShareWaitQueue {
    share: ObjectToken,
    list: WaitList,
}

impl View for ShareWaitQueue {
    type V = WaitListModel;

    closed spec fn view(&self) -> WaitListModel {
        self.list@
    }
}

impl ShareWaitQueue {
    /// The share that operations wait for.
    pub closed spec fn dependency(&self) -> ObjectToken {
        self.share
    }

    /// The list is well-formed, and everybody in it waits for the share.
    pub open spec fn wf(&self) -> bool {
        &&& self@.wf()
        &&& forall|i: int|
            0 <= i < self@.waits.len() ==> (#[trigger] self@.waits[i]).dependency
                == self.dependency()
    }

    pub fn new(share: ObjectToken, capacity: usize) -> (queue: Self)
        ensures
            queue.dependency() == share,
            queue@ == WaitListModel::empty(capacity),
            queue.wf(),
    {
        ShareWaitQueue { share, list: WaitList::new(capacity) }
    }

    pub fn enqueue(&mut self, dependency: ObjectToken, deadline: Option<MonotonicTime>) -> (id:
        Result<ShareWaitId, ShareWaitError>)
        requires
            old(self).wf(),
        ensures
            dependency != old(self).dependency() ==> id == Err::<ShareWaitId, ShareWaitError>(
                ShareWaitError::DependencyNotShare,
            ) && final(self)@ == old(self)@,
            dependency == old(self).dependency() ==> final(self)@ == old(self)@.enqueued(
                dependency,
                deadline,
            ).0 && id == match old(self)@.enqueued(dependency, deadline).1 {
                Ok(id) => Ok::<ShareWaitId, ShareWaitError>(ShareWaitId(id)),
                Err(WaitListError::Full) => Err(ShareWaitError::Full),
                Err(WaitListError::IdExhausted) => Err(ShareWaitError::IdExhausted),
            },
            final(self).dependency() == old(self).dependency(),
            final(self).wf(),
    {
        if dependency != self.share {
            return Err(ShareWaitError::DependencyNotShare);
        }
        match self.list.enqueue(dependency, deadline) {
            Ok(id) => Ok(ShareWaitId(id)),
            Err(WaitListError::Full) => Err(ShareWaitError::Full),
            Err(WaitListError::IdExhausted) => Err(ShareWaitError::IdExhausted),
        }
    }

    pub fn cancel(&mut self, id: ShareWaitId) -> (outcome: Option<ShareWaitOutcome>)
        requires
            old(self).wf(),
        ensures
            outcome == if old(self)@.holds(id.0) {
                Some(ShareWaitOutcome::Cancelled(id))
            } else {
                None::<ShareWaitOutcome>
            },
            final(self)@ == old(self)@.without(|wait: Wait| wait.id == id.0),
            final(self).dependency() == old(self).dependency(),
            final(self).wf(),
    {
        proof {
            filtered_waits_are_waits(old(self)@.waits, |wait: Wait| wait.id == id.0);
        }
        if self.list.remove(id.0) {
            Some(ShareWaitOutcome::Cancelled(id))
        } else {
            None
        }
    }

    pub fn advance_time(&mut self, now: MonotonicTime) -> (outcomes: Vec<ShareWaitOutcome>)
        requires
            old(self).wf(),
        ensures
            outcomes@ == ids_of(
                old(self)@.waits,
                |wait: Wait| expired(wait, now),
            ).map_values(|id: u64| ShareWaitOutcome::TimedOut(ShareWaitId(id))),
            final(self)@ == old(self)@.without(|wait: Wait| expired(wait, now)),
            final(self).dependency() == old(self).dependency(),
            final(self).wf(),
    {
        proof {
            filtered_waits_are_waits(old(self)@.waits, |wait: Wait| expired(wait, now));
        }
        let ids = self.list.take_expired(now);
        let outcome = |id: u64| -> (o: ShareWaitOutcome)
            ensures
                o == ShareWaitOutcome::TimedOut(ShareWaitId(id)),
        {
            ShareWaitOutcome::TimedOut(ShareWaitId(id))
        };
        let outcomes = outcomes_of(&ids, outcome);
        assert(outcomes@ =~= ids@.map_values(
            |id: u64| ShareWaitOutcome::TimedOut(ShareWaitId(id)),
        ));
        outcomes
    }

    /// Hands the replacement to everybody who waits, in order of arrival.
    pub fn publish(&mut self, replacement: ObjectToken) -> (outcomes: Vec<ShareWaitOutcome>)
        requires
            old(self).wf(),
        ensures
            outcomes@ == old(self)@.waits.map_values(
                |wait: Wait| ShareWaitOutcome::Ready { id: ShareWaitId(wait.id), share: replacement },
            ),
            final(self)@ == (WaitListModel { waits: Seq::empty(), ..old(self)@ }),
            final(self).dependency() == replacement,
            final(self).wf(),
    {
        self.share = replacement;
        let ids = self.list.take_all();
        let outcome = |id: u64| -> (o: ShareWaitOutcome)
            ensures
                o == (ShareWaitOutcome::Ready { id: ShareWaitId(id), share: replacement }),
        {
            ShareWaitOutcome::Ready { id: ShareWaitId(id), share: replacement }
        };
        let outcomes = outcomes_of(&ids, outcome);
        assert(outcomes@ =~= old(self)@.waits.map_values(
            |wait: Wait| ShareWaitOutcome::Ready { id: ShareWaitId(wait.id), share: replacement },
        ));
        outcomes
    }

    /// Fails everybody who waits, in order of arrival.
    pub fn fail(&mut self) -> (outcomes: Vec<ShareWaitOutcome>)
        requires
            old(self).wf(),
        ensures
            outcomes@ == old(self)@.waits.map_values(
                |wait: Wait| ShareWaitOutcome::RecoveryFailed(ShareWaitId(wait.id)),
            ),
            final(self)@ == (WaitListModel { waits: Seq::empty(), ..old(self)@ }),
            final(self).dependency() == old(self).dependency(),
            final(self).wf(),
    {
        let ids = self.list.take_all();
        let outcome = |id: u64| -> (o: ShareWaitOutcome)
            ensures
                o == ShareWaitOutcome::RecoveryFailed(ShareWaitId(id)),
        {
            ShareWaitOutcome::RecoveryFailed(ShareWaitId(id))
        };
        let outcomes = outcomes_of(&ids, outcome);
        assert(outcomes@ =~= old(self)@.waits.map_values(
            |wait: Wait| ShareWaitOutcome::RecoveryFailed(ShareWaitId(wait.id)),
        ));
        outcomes
    }
}

#[derive(Clone, Copy, Debug, PartialEq, Eq, Structural)]
pub struct ShareRecoveryPolicy {
    pub max_attempts: u32,
    pub attempt_timeout: Duration,
}

#[derive(Clone, Copy, Debug, PartialEq, Eq, Structural)]
pub enum ShareRecoveryState {
    Active(ObjectToken),
    Replaying {
        previous: ObjectToken,
        session: ObjectToken,
        attempt: u32,
        deadline: MonotonicTime,
    },
    Revoked(ObjectToken),
    Closed,
}

#[derive(Clone, Copy, Debug, PartialEq, Eq, Structural)]
pub enum ShareRecoveryEvent {
    SessionReplaced { session: ObjectToken, now: MonotonicTime },
    AttemptFailed { session: ObjectToken, now: MonotonicTime },
    AttemptSucceeded { session: ObjectToken, share: ObjectToken },
    Close,
}

#[derive(Clone, Copy, Debug, PartialEq, Eq, Structural)]
pub enum ShareRecoveryEffect {
    StartTreeConnect { session: ObjectToken, attempt: u32, deadline: MonotonicTime },
    PublishShare { previous: ObjectToken, replacement: ObjectToken },
    RevokeShare(ObjectToken),
    Closed,
}

/// An attempt begins, unless the policy allows none.
pub open spec fn replay_started(
    policy: ShareRecoveryPolicy,
    previous: ObjectToken,
    session: ObjectToken,
    attempt: u32,
    now: MonotonicTime,
) -> (ShareRecoveryState, Option<ShareRecoveryEffect>) {
    if policy.max_attempts == 0 {
        (ShareRecoveryState::Revoked(previous), Some(ShareRecoveryEffect::RevokeShare(previous)))
    } else {
        let deadline = now.plus(policy.attempt_timeout);
        (
            ShareRecoveryState::Replaying { previous, session, attempt, deadline },
            Some(ShareRecoveryEffect::StartTreeConnect { session, attempt, deadline }),
        )
    }
}

/// The state and the effect after one event.
pub open spec fn share_step(
    policy: ShareRecoveryPolicy,
    state: ShareRecoveryState,
    event: ShareRecoveryEvent,
) -> (ShareRecoveryState, Option<ShareRecoveryEffect>) {
    match (state, event) {
        (ShareRecoveryState::Closed, _) | (ShareRecoveryState::Revoked(_), _) => (state, None),
        (_, ShareRecoveryEvent::Close) => (
            ShareRecoveryState::Closed,
            Some(ShareRecoveryEffect::Closed),
        ),
        (
            ShareRecoveryState::Active(previous),
            ShareRecoveryEvent::SessionReplaced { session, now },
        ) => replay_started(policy, previous, session, 1, now),
        (
            ShareRecoveryState::Replaying { previous, session: current, .. },
            ShareRecoveryEvent::SessionReplaced { session, now },
        ) => if session != current {
            replay_started(policy, previous, session, 1, now)
        } else {
            (state, None)
        },
        (
            ShareRecoveryState::Replaying { previous, session: current, attempt, .. },
            ShareRecoveryEvent::AttemptFailed { session, now },
        ) => if session != current {
            (state, None)
        } else if attempt >= policy.max_attempts {
            (
                ShareRecoveryState::Revoked(previous),
                Some(ShareRecoveryEffect::RevokeShare(previous)),
            )
        } else {
            replay_started(policy, previous, session, (attempt + 1) as u32, now)
        },
        (
            ShareRecoveryState::Replaying { previous, session: current, .. },
            ShareRecoveryEvent::AttemptSucceeded { session, share },
        ) => if session == current && share.generation == session.generation {
            (
                ShareRecoveryState::Active(share),
                Some(ShareRecoveryEffect::PublishShare { previous, replacement: share }),
            )
        } else {
            (state, None)
        },
        _ => (state, None),
    }
}

pub struct ShareRecoveryCoordinator {
    policy: ShareRecoveryPolicy,
    state: ShareRecoveryState,
}

impl ShareRecoveryCoordinator {
    pub closed spec fn policy(&self) -> ShareRecoveryPolicy {
        self.policy
    }

    pub closed spec fn phase(&self) -> ShareRecoveryState {
        self.state
    }

    pub fn new(share: ObjectToken, policy: ShareRecoveryPolicy) -> (coordinator: Self)
        ensures
            coordinator.policy() == policy,
            coordinator.phase() == ShareRecoveryState::Active(share),
    {
        ShareRecoveryCoordinator { policy, state: ShareRecoveryState::Active(share) }
    }

    pub fn reduce(&mut self, event: ShareRecoveryEvent) -> (effect: Option<ShareRecoveryEffect>)
        ensures
            (final(self).phase(), effect) == share_step(
                old(self).policy(),
                old(self).phase(),
                event,
            ),
            final(self).policy() == old(self).policy(),
    {
        match (self.state, event) {
            (ShareRecoveryState::Closed, _) | (ShareRecoveryState::Revoked(_), _) => None,
            (_, ShareRecoveryEvent::Close) => {
                self.state = ShareRecoveryState::Closed;
                Some(ShareRecoveryEffect::Closed)
            },
            (
                ShareRecoveryState::Active(previous),
                ShareRecoveryEvent::SessionReplaced { session, now },
            ) => self.start(previous, session, 1, now),
            (
                ShareRecoveryState::Replaying { previous, session: current, .. },
                ShareRecoveryEvent::SessionReplaced { session, now },
            ) => {
                if session == current {
                    return None;
                }
                self.start(previous, session, 1, now)
            },
            (
                ShareRecoveryState::Replaying { previous, session: current, attempt, .. },
                ShareRecoveryEvent::AttemptFailed { session, now },
            ) => {
                if session != current {
                    return None;
                }
                if attempt >= self.policy.max_attempts {
                    self.state = ShareRecoveryState::Revoked(previous);
                    Some(ShareRecoveryEffect::RevokeShare(previous))
                } else {
                    self.start(previous, session, attempt + 1, now)
                }
            },
            (
                ShareRecoveryState::Replaying { previous, session: current, .. },
                ShareRecoveryEvent::AttemptSucceeded { session, share },
            ) => {
                if session != current || share.generation() != session.generation() {
                    return None;
                }
                self.state = ShareRecoveryState::Active(share);
                Some(ShareRecoveryEffect::PublishShare { previous, replacement: share })
            },
            _ => None,
        }
    }

    fn start(
        &mut self,
        previous: ObjectToken,
        session: ObjectToken,
        attempt: u32,
        now: MonotonicTime,
    ) -> (effect: Option<ShareRecoveryEffect>)
        ensures
            (final(self).phase(), effect) == replay_started(
                old(self).policy(),
                previous,
                session,
                attempt,
                now,
            ),
            final(self).policy() == old(self).policy(),
    {
        if self.policy.max_attempts == 0 {
            self.state = ShareRecoveryState::Revoked(previous);
            return Some(ShareRecoveryEffect::RevokeShare(previous));
        }
        let deadline = now.saturating_add(self.policy.attempt_timeout);
        self.state = ShareRecoveryState::Replaying { previous, session, attempt, deadline };
        Some(ShareRecoveryEffect::StartTreeConnect { session, attempt, deadline })
    }
}

/// Attempts are numbered from one up to the policy's limit, restarting at one
/// for each new session.
pub proof fn share_attempts_are_bounded(
    policy: ShareRecoveryPolicy,
    state: ShareRecoveryState,
    event: ShareRecoveryEvent,
)
    requires
        state matches ShareRecoveryState::Replaying { attempt, .. } ==> 1 <= attempt
            <= policy.max_attempts,
    ensures
        share_step(policy, state, event).0 matches ShareRecoveryState::Replaying { attempt, .. }
            ==> 1 <= attempt <= policy.max_attempts,
        share_step(policy, state, event).1 matches Some(
            ShareRecoveryEffect::StartTreeConnect { attempt, session, .. },
        ) ==> attempt == 1 || (state matches ShareRecoveryState::Replaying {
            attempt: a,
            session: s,
            ..
        } && attempt == a + 1 && session == s),
{
}

/// A share is published only by the replay that runs, for its own session and
/// in that session's generation; the share that comes out replaces the one
/// that was lost.
pub proof fn share_publication_is_current(
    policy: ShareRecoveryPolicy,
    state: ShareRecoveryState,
    event: ShareRecoveryEvent,
)
    ensures
        share_step(policy, state, event).1 matches Some(
            ShareRecoveryEffect::PublishShare { previous, replacement },
        ) ==> (state matches ShareRecoveryState::Replaying { previous: p, session, .. } && p
            == previous && event == (ShareRecoveryEvent::AttemptSucceeded {
            session,
            share: replacement,
        }) && replacement.generation == session.generation && share_step(policy, state, event).0
            == ShareRecoveryState::Active(replacement)),
{
}

/// A revoked or closed share never recovers and never acts again.
pub proof fn ended_share_is_inert(
    policy: ShareRecoveryPolicy,
    state: ShareRecoveryState,
    event: ShareRecoveryEvent,
)
    requires
        state is Revoked || state is Closed,
    ensures
        share_step(policy, state, event) == (state, None::<ShareRecoveryEffect>),
{
}

/// A share whose session was replaced is connected again, under the session
/// that is there now: the first attempt begins at once, and each replaced
/// session begins anew with the first one. Where no attempt is allowed the
/// share is revoked at once.
pub proof fn shares_are_connected_again(
    policy: ShareRecoveryPolicy,
    state: ShareRecoveryState,
    previous: ObjectToken,
    session: ObjectToken,
    now: MonotonicTime,
)
    requires
        match state {
            ShareRecoveryState::Active(active) => active == previous,
            ShareRecoveryState::Replaying { previous: lost, session: current, .. } => lost
                == previous && current != session,
            _ => false,
        },
    ensures
        policy.max_attempts > 0 ==> ({
            let deadline = now.plus(policy.attempt_timeout);
            share_step(policy, state, ShareRecoveryEvent::SessionReplaced { session, now }) == (
                ShareRecoveryState::Replaying { previous, session, attempt: 1, deadline },
                Some(ShareRecoveryEffect::StartTreeConnect { session, attempt: 1, deadline }),
            )
        }),
        policy.max_attempts == 0 ==> share_step(
            policy,
            state,
            ShareRecoveryEvent::SessionReplaced { session, now },
        ) == (
            ShareRecoveryState::Revoked(previous),
            Some(ShareRecoveryEffect::RevokeShare(previous)),
        ),
{
}

/// A failed attempt is followed by the next one as long as any is allowed,
/// with a deadline of its own.
pub proof fn failed_tree_connects_are_followed(
    policy: ShareRecoveryPolicy,
    previous: ObjectToken,
    session: ObjectToken,
    attempt: u32,
    earlier: MonotonicTime,
    now: MonotonicTime,
)
    requires
        attempt < policy.max_attempts,
    ensures
        ({
            let deadline = now.plus(policy.attempt_timeout);
            let next = (attempt + 1) as u32;
            share_step(
                policy,
                ShareRecoveryState::Replaying { previous, session, attempt, deadline: earlier },
                ShareRecoveryEvent::AttemptFailed { session, now },
            ) == (
                ShareRecoveryState::Replaying { previous, session, attempt: next, deadline },
                Some(ShareRecoveryEffect::StartTreeConnect { session, attempt: next, deadline }),
            )
        }),
{
}

/// A share is revoked for two reasons alone: its last attempt failed, or none
/// is allowed. It is published again for one: an attempt under the current
/// session succeeded with a share of that session's generation.
pub proof fn shares_end_with_their_attempts(
    policy: ShareRecoveryPolicy,
    state: ShareRecoveryState,
    event: ShareRecoveryEvent,
    share: ObjectToken,
    replacement: ObjectToken,
)
    ensures
        share_step(policy, state, event).1 == Some(ShareRecoveryEffect::RevokeShare(share))
            <==> match (state, event) {
            (ShareRecoveryState::Active(active), ShareRecoveryEvent::SessionReplaced { .. }) => active
                == share && policy.max_attempts == 0,
            (
                ShareRecoveryState::Replaying { previous, session: current, .. },
                ShareRecoveryEvent::SessionReplaced { session, .. },
            ) => previous == share && session != current && policy.max_attempts == 0,
            (
                ShareRecoveryState::Replaying { previous, session: current, attempt, .. },
                ShareRecoveryEvent::AttemptFailed { session, .. },
            ) => previous == share && session == current && policy.max_attempts <= attempt,
            _ => false,
        },
        share_step(policy, state, event).1 == Some(
            ShareRecoveryEffect::PublishShare { previous: share, replacement },
        ) <==> match (state, event) {
            (
                ShareRecoveryState::Replaying { previous, session: current, .. },
                ShareRecoveryEvent::AttemptSucceeded { session, share: made },
            ) => previous == share && made == replacement && session == current
                && made.generation == current.generation,
            _ => false,
        },
        share_step(policy, state, event).1 matches Some(ShareRecoveryEffect::RevokeShare(gone))
            ==> share_step(policy, state, event).0 == ShareRecoveryState::Revoked(gone),
        share_step(policy, state, event).1 matches Some(
            ShareRecoveryEffect::PublishShare { replacement: made, .. },
        ) ==> share_step(policy, state, event).0 == ShareRecoveryState::Active(made),
{
}

/// A recovery can be closed until it has ended, and an event that belongs to
/// another session or another moment changes nothing.
pub proof fn foreign_share_events_change_nothing(
    policy: ShareRecoveryPolicy,
    state: ShareRecoveryState,
    event: ShareRecoveryEvent,
)
    ensures
        share_step(policy, state, event).1 == Some(ShareRecoveryEffect::Closed) <==> event is Close
            && (state is Active || state is Replaying),
        share_step(policy, state, event).1 == Some(ShareRecoveryEffect::Closed) ==> share_step(
            policy,
            state,
            event,
        ).0 is Closed,
        share_step(policy, state, event).1 is None ==> share_step(policy, state, event).0 == state,
        match (state, event) {
            (ShareRecoveryState::Closed | ShareRecoveryState::Revoked(_), _) => true,
            (ShareRecoveryState::Active(_), ShareRecoveryEvent::AttemptFailed { .. }) => true,
            (ShareRecoveryState::Active(_), ShareRecoveryEvent::AttemptSucceeded { .. }) => true,
            (
                ShareRecoveryState::Replaying { session: current, .. },
                ShareRecoveryEvent::SessionReplaced { session, .. },
            ) => session == current,
            (
                ShareRecoveryState::Replaying { session: current, .. },
                ShareRecoveryEvent::AttemptFailed { session, .. },
            ) => session != current,
            (
                ShareRecoveryState::Replaying { session: current, .. },
                ShareRecoveryEvent::AttemptSucceeded { session, share },
            ) => session != current || share.generation != current.generation,
            _ => false,
        } <==> share_step(policy, state, event).1 is None,
{
}

} // verus!
