//! Deterministic session reauthentication authority.
//!
//! The reducer owns only lifecycle decisions. Credential acquisition and the
//! session setup exchange are effects executed by one coordinator.

use crate::clock::{Duration, MonotonicTime};
use crate::runtime::object_state::ObjectToken;
use crate::runtime::wait_list::{
    expired, filtered_waits_are_waits, ids_of, outcomes_of, Wait, WaitList, WaitListError, WaitListModel,
};
use vstd::prelude::*;

verus! {

#[derive(Clone, Copy, Debug, PartialEq, Eq, Hash, Structural)]
pub struct SessionWaitId(pub u64);

#[derive(Clone, Copy, Debug, PartialEq, Eq, Structural)]
pub enum SessionWaitError {
    Full,
    DependencyNotSession,
    IdExhausted,
}

#[derive(Clone, Copy, Debug, PartialEq, Eq, Structural)]
pub enum SessionWaitOutcome {
    Ready { id: SessionWaitId, session: ObjectToken },
    Cancelled(SessionWaitId),
    TimedOut(SessionWaitId),
    RecoveryFailed(SessionWaitId),
}

/// Bounded FIFO of operations that wait for one session.
pub struct SessionWaitQueue {
    session: ObjectToken,
    list: WaitList,
}

impl View for SessionWaitQueue {
    type V = WaitListModel;

    closed spec fn view(&self) -> WaitListModel {
        self.list@
    }
}

impl SessionWaitQueue {
    /// The session that operations wait for.
    pub closed spec fn dependency(&self) -> ObjectToken {
        self.session
    }

    /// The list is well-formed, and everybody in it waits for the session.
    pub open spec fn wf(&self) -> bool {
        &&& self@.wf()
        &&& forall|i: int|
            0 <= i < self@.waits.len() ==> (#[trigger] self@.waits[i]).dependency
                == self.dependency()
    }

    pub fn new(session: ObjectToken, capacity: usize) -> (queue: Self)
        ensures
            queue.dependency() == session,
            queue@ == WaitListModel::empty(capacity),
            queue.wf(),
    {
        SessionWaitQueue { session, list: WaitList::new(capacity) }
    }

    pub fn enqueue(&mut self, dependency: ObjectToken, deadline: Option<MonotonicTime>) -> (id:
        Result<SessionWaitId, SessionWaitError>)
        requires
            old(self).wf(),
        ensures
            dependency != old(self).dependency() ==> id == Err::<SessionWaitId, SessionWaitError>(
                SessionWaitError::DependencyNotSession,
            ) && final(self)@ == old(self)@,
            dependency == old(self).dependency() ==> final(self)@ == old(self)@.enqueued(
                dependency,
                deadline,
            ).0 && id == match old(self)@.enqueued(dependency, deadline).1 {
                Ok(id) => Ok::<SessionWaitId, SessionWaitError>(SessionWaitId(id)),
                Err(WaitListError::Full) => Err(SessionWaitError::Full),
                Err(WaitListError::IdExhausted) => Err(SessionWaitError::IdExhausted),
            },
            final(self).dependency() == old(self).dependency(),
            final(self).wf(),
    {
        if dependency != self.session {
            return Err(SessionWaitError::DependencyNotSession);
        }
        match self.list.enqueue(dependency, deadline) {
            Ok(id) => Ok(SessionWaitId(id)),
            Err(WaitListError::Full) => Err(SessionWaitError::Full),
            Err(WaitListError::IdExhausted) => Err(SessionWaitError::IdExhausted),
        }
    }

    pub fn cancel(&mut self, id: SessionWaitId) -> (outcome: Option<SessionWaitOutcome>)
        requires
            old(self).wf(),
        ensures
            outcome == if old(self)@.holds(id.0) {
                Some(SessionWaitOutcome::Cancelled(id))
            } else {
                None::<SessionWaitOutcome>
            },
            final(self)@ == old(self)@.without(|wait: Wait| wait.id == id.0),
            final(self).dependency() == old(self).dependency(),
            final(self).wf(),
    {
        proof {
            filtered_waits_are_waits(old(self)@.waits, |wait: Wait| wait.id == id.0);
        }
        if self.list.remove(id.0) {
            Some(SessionWaitOutcome::Cancelled(id))
        } else {
            None
        }
    }

    pub fn advance_time(&mut self, now: MonotonicTime) -> (outcomes: Vec<SessionWaitOutcome>)
        requires
            old(self).wf(),
        ensures
            outcomes@ == ids_of(
                old(self)@.waits,
                |wait: Wait| expired(wait, now),
            ).map_values(|id: u64| SessionWaitOutcome::TimedOut(SessionWaitId(id))),
            final(self)@ == old(self)@.without(|wait: Wait| expired(wait, now)),
            final(self).dependency() == old(self).dependency(),
            final(self).wf(),
    {
        proof {
            filtered_waits_are_waits(old(self)@.waits, |wait: Wait| expired(wait, now));
        }
        let ids = self.list.take_expired(now);
        let outcome = |id: u64| -> (o: SessionWaitOutcome)
            ensures
                o == SessionWaitOutcome::TimedOut(SessionWaitId(id)),
        {
            SessionWaitOutcome::TimedOut(SessionWaitId(id))
        };
        let outcomes = outcomes_of(&ids, outcome);
        assert(outcomes@ =~= ids@.map_values(
            |id: u64| SessionWaitOutcome::TimedOut(SessionWaitId(id)),
        ));
        outcomes
    }

    /// Hands the replacement to everybody who waits, in order of arrival.
    pub fn publish(&mut self, replacement: ObjectToken) -> (outcomes: Vec<SessionWaitOutcome>)
        requires
            old(self).wf(),
        ensures
            outcomes@ == old(self)@.waits.map_values(
                |wait: Wait| SessionWaitOutcome::Ready { id: SessionWaitId(wait.id), session: replacement },
            ),
            final(self)@ == (WaitListModel { waits: Seq::empty(), ..old(self)@ }),
            final(self).dependency() == replacement,
            final(self).wf(),
    {
        self.session = replacement;
        let ids = self.list.take_all();
        let outcome = |id: u64| -> (o: SessionWaitOutcome)
            ensures
                o == (SessionWaitOutcome::Ready { id: SessionWaitId(id), session: replacement }),
        {
            SessionWaitOutcome::Ready { id: SessionWaitId(id), session: replacement }
        };
        let outcomes = outcomes_of(&ids, outcome);
        assert(outcomes@ =~= old(self)@.waits.map_values(
            |wait: Wait| SessionWaitOutcome::Ready { id: SessionWaitId(wait.id), session: replacement },
        ));
        outcomes
    }

    /// Fails everybody who waits, in order of arrival.
    pub fn fail(&mut self) -> (outcomes: Vec<SessionWaitOutcome>)
        requires
            old(self).wf(),
        ensures
            outcomes@ == old(self)@.waits.map_values(
                |wait: Wait| SessionWaitOutcome::RecoveryFailed(SessionWaitId(wait.id)),
            ),
            final(self)@ == (WaitListModel { waits: Seq::empty(), ..old(self)@ }),
            final(self).dependency() == old(self).dependency(),
            final(self).wf(),
    {
        let ids = self.list.take_all();
        let outcome = |id: u64| -> (o: SessionWaitOutcome)
            ensures
                o == SessionWaitOutcome::RecoveryFailed(SessionWaitId(id)),
        {
            SessionWaitOutcome::RecoveryFailed(SessionWaitId(id))
        };
        let outcomes = outcomes_of(&ids, outcome);
        assert(outcomes@ =~= old(self)@.waits.map_values(
            |wait: Wait| SessionWaitOutcome::RecoveryFailed(SessionWaitId(wait.id)),
        ));
        outcomes
    }
}

#[derive(Clone, Copy, Debug, PartialEq, Eq, Structural)]
pub struct SessionRecoveryPolicy {
    pub max_attempts: u32,
    pub attempt_timeout: Duration,
}

#[derive(Clone, Copy, Debug, PartialEq, Eq, Structural)]
pub enum SessionRecoveryState {
    Active(ObjectToken),
    Authenticating {
        previous: ObjectToken,
        connection: ObjectToken,
        attempt: u32,
        deadline: MonotonicTime,
    },
    Revoked(ObjectToken),
    Closed,
}

#[derive(Clone, Copy, Debug, PartialEq, Eq, Structural)]
pub enum SessionRecoveryEvent {
    SessionLost { session: ObjectToken, connection: ObjectToken, now: MonotonicTime },
    ConnectionReplaced { connection: ObjectToken, now: MonotonicTime },
    AttemptFailed { connection: ObjectToken, now: MonotonicTime },
    AttemptSucceeded { connection: ObjectToken, session: ObjectToken },
    Close,
}

#[derive(Clone, Copy, Debug, PartialEq, Eq, Structural)]
pub enum SessionRecoveryEffect {
    StartAuthentication { connection: ObjectToken, attempt: u32, deadline: MonotonicTime },
    PublishSession { previous: ObjectToken, replacement: ObjectToken },
    RevokeSession(ObjectToken),
    Closed,
}

/// An attempt begins, unless the policy allows none.
pub open spec fn authentication_started(
    policy: SessionRecoveryPolicy,
    previous: ObjectToken,
    connection: ObjectToken,
    attempt: u32,
    now: MonotonicTime,
) -> (SessionRecoveryState, Option<SessionRecoveryEffect>) {
    if policy.max_attempts == 0 {
        (
            SessionRecoveryState::Revoked(previous),
            Some(SessionRecoveryEffect::RevokeSession(previous)),
        )
    } else {
        let deadline = now.plus(policy.attempt_timeout);
        (
            SessionRecoveryState::Authenticating { previous, connection, attempt, deadline },
            Some(SessionRecoveryEffect::StartAuthentication { connection, attempt, deadline }),
        )
    }
}

/// The state and the effect after one event.
pub open spec fn session_step(
    policy: SessionRecoveryPolicy,
    state: SessionRecoveryState,
    event: SessionRecoveryEvent,
) -> (SessionRecoveryState, Option<SessionRecoveryEffect>) {
    match (state, event) {
        (SessionRecoveryState::Closed, _) | (SessionRecoveryState::Revoked(_), _) => (state, None),
        (_, SessionRecoveryEvent::Close) => (
            SessionRecoveryState::Closed,
            Some(SessionRecoveryEffect::Closed),
        ),
        (
            SessionRecoveryState::Active(previous),
            SessionRecoveryEvent::SessionLost { session, connection, now },
        ) => if session == previous {
            authentication_started(policy, previous, connection, 1, now)
        } else {
            (state, None)
        },
        (
            SessionRecoveryState::Active(previous),
            SessionRecoveryEvent::ConnectionReplaced { connection, now },
        ) => if connection.generation != previous.generation {
            authentication_started(policy, previous, connection, 1, now)
        } else {
            (state, None)
        },
        (
            SessionRecoveryState::Authenticating { previous, connection: current, .. },
            SessionRecoveryEvent::ConnectionReplaced { connection, now },
        ) => if connection.generation != current.generation {
            authentication_started(policy, previous, connection, 1, now)
        } else {
            (state, None)
        },
        (
            SessionRecoveryState::Authenticating { previous, connection: current, attempt, .. },
            SessionRecoveryEvent::AttemptFailed { connection, now },
        ) => if connection != current {
            (state, None)
        } else if attempt >= policy.max_attempts {
            (
                SessionRecoveryState::Revoked(previous),
                Some(SessionRecoveryEffect::RevokeSession(previous)),
            )
        } else {
            authentication_started(policy, previous, connection, (attempt + 1) as u32, now)
        },
        (
            SessionRecoveryState::Authenticating { previous, connection: current, .. },
            SessionRecoveryEvent::AttemptSucceeded { connection, session },
        ) => if connection == current && session.generation == connection.generation {
            (
                SessionRecoveryState::Active(session),
                Some(
                    SessionRecoveryEffect::PublishSession { previous, replacement: session },
                ),
            )
        } else {
            (state, None)
        },
        _ => (state, None),
    }
}

pub struct SessionRecoveryCoordinator {
    policy: SessionRecoveryPolicy,
    state: SessionRecoveryState,
}

impl SessionRecoveryCoordinator {
    pub closed spec fn policy(&self) -> SessionRecoveryPolicy {
        self.policy
    }

    pub closed spec fn phase(&self) -> SessionRecoveryState {
        self.state
    }

    pub fn new(session: ObjectToken, policy: SessionRecoveryPolicy) -> (coordinator: Self)
        ensures
            coordinator.policy() == policy,
            coordinator.phase() == SessionRecoveryState::Active(session),
    {
        SessionRecoveryCoordinator { policy, state: SessionRecoveryState::Active(session) }
    }

    pub fn state(&self) -> (state: SessionRecoveryState)
        ensures
            state == self.phase(),
    {
        self.state
    }

    pub fn reduce(&mut self, event: SessionRecoveryEvent) -> (effect: Option<SessionRecoveryEffect>)
        ensures
            (final(self).phase(), effect) == session_step(
                old(self).policy(),
                old(self).phase(),
                event,
            ),
            final(self).policy() == old(self).policy(),
    {
        match (self.state, event) {
            (SessionRecoveryState::Closed, _) | (SessionRecoveryState::Revoked(_), _) => None,
            (_, SessionRecoveryEvent::Close) => {
                self.state = SessionRecoveryState::Closed;
                Some(SessionRecoveryEffect::Closed)
            },
            (
                SessionRecoveryState::Active(previous),
                SessionRecoveryEvent::SessionLost { session, connection, now },
            ) => {
                if session != previous {
                    return None;
                }
                self.start(previous, connection, 1, now)
            },
            (
                SessionRecoveryState::Active(previous),
                SessionRecoveryEvent::ConnectionReplaced { connection, now },
            ) => {
                if connection.generation() == previous.generation() {
                    return None;
                }
                self.start(previous, connection, 1, now)
            },
            (
                SessionRecoveryState::Authenticating { previous, connection: current, .. },
                SessionRecoveryEvent::ConnectionReplaced { connection, now },
            ) => {
                if connection.generation() == current.generation() {
                    return None;
                }
                self.start(previous, connection, 1, now)
            },
            (
                SessionRecoveryState::Authenticating { previous, connection: current, attempt, .. },
                SessionRecoveryEvent::AttemptFailed { connection, now },
            ) => {
                if connection != current {
                    return None;
                }
                if attempt >= self.policy.max_attempts {
                    self.state = SessionRecoveryState::Revoked(previous);
                    Some(SessionRecoveryEffect::RevokeSession(previous))
                } else {
                    self.start(previous, connection, attempt + 1, now)
                }
            },
            (
                SessionRecoveryState::Authenticating { previous, connection: current, .. },
                SessionRecoveryEvent::AttemptSucceeded { connection, session },
            ) => {
                if connection != current || session.generation() != connection.generation() {
                    return None;
                }
                self.state = SessionRecoveryState::Active(session);
                Some(SessionRecoveryEffect::PublishSession { previous, replacement: session })
            },
            _ => None,
        }
    }

    fn start(
        &mut self,
        previous: ObjectToken,
        connection: ObjectToken,
        attempt: u32,
        now: MonotonicTime,
    ) -> (effect: Option<SessionRecoveryEffect>)
        ensures
            (final(self).phase(), effect) == authentication_started(
                old(self).policy(),
                previous,
                connection,
                attempt,
                now,
            ),
            final(self).policy() == old(self).policy(),
    {
        if self.policy.max_attempts == 0 {
            self.state = SessionRecoveryState::Revoked(previous);
            return Some(SessionRecoveryEffect::RevokeSession(previous));
        }
        let deadline = now.saturating_add(self.policy.attempt_timeout);
        self.state = SessionRecoveryState::Authenticating { previous, connection, attempt, deadline };
        Some(SessionRecoveryEffect::StartAuthentication { connection, attempt, deadline })
    }
}

/// Attempts are numbered from one up to the policy's limit, restarting at one
/// for each new connection.
pub proof fn session_attempts_are_bounded(
    policy: SessionRecoveryPolicy,
    state: SessionRecoveryState,
    event: SessionRecoveryEvent,
)
    requires
        state matches SessionRecoveryState::Authenticating { attempt, .. } ==> 1 <= attempt
            <= policy.max_attempts,
    ensures
        session_step(policy, state, event).0 matches SessionRecoveryState::Authenticating {
            attempt,
            ..
        } ==> 1 <= attempt <= policy.max_attempts,
        session_step(policy, state, event).1 matches Some(
            SessionRecoveryEffect::StartAuthentication { attempt, connection, .. },
        ) ==> attempt == 1 || (state matches SessionRecoveryState::Authenticating {
            attempt: a,
            connection: c,
            ..
        } && attempt == a + 1 && connection == c),
{
}

/// A session is published only by the attempt that runs, for its own
/// connection and in that connection's generation; the session that comes out
/// replaces the one that was lost.
pub proof fn session_publication_is_current(
    policy: SessionRecoveryPolicy,
    state: SessionRecoveryState,
    event: SessionRecoveryEvent,
)
    ensures
        session_step(policy, state, event).1 matches Some(
            SessionRecoveryEffect::PublishSession { previous, replacement },
        ) ==> (state matches SessionRecoveryState::Authenticating {
            previous: p,
            connection,
            ..
        } && p == previous && event == (SessionRecoveryEvent::AttemptSucceeded {
            connection,
            session: replacement,
        }) && replacement.generation == connection.generation && session_step(
            policy,
            state,
            event,
        ).0 == SessionRecoveryState::Active(replacement)),
{
}

/// A revoked or closed session never recovers and never acts again.
pub proof fn ended_session_is_inert(
    policy: SessionRecoveryPolicy,
    state: SessionRecoveryState,
    event: SessionRecoveryEvent,
)
    requires
        state is Revoked || state is Closed,
    ensures
        session_step(policy, state, event) == (state, None::<SessionRecoveryEffect>),
{
}

/// A session that is lost is authenticated again, on the connection that is
/// there now: the first attempt begins at once, and each replaced connection
/// begins anew with the first one. Where no attempt is allowed the session is
/// revoked at once.
pub proof fn lost_sessions_are_authenticated_again(
    policy: SessionRecoveryPolicy,
    state: SessionRecoveryState,
    event: SessionRecoveryEvent,
    previous: ObjectToken,
    connection: ObjectToken,
    now: MonotonicTime,
)
    requires
        match (state, event) {
            (
                SessionRecoveryState::Active(active),
                SessionRecoveryEvent::SessionLost { session, connection: on, now: at },
            ) => active == previous && session == previous && on == connection && at == now,
            (
                SessionRecoveryState::Active(active),
                SessionRecoveryEvent::ConnectionReplaced { connection: on, now: at },
            ) => active == previous && on == connection && at == now && on.generation
                != active.generation,
            (
                SessionRecoveryState::Authenticating { previous: lost, connection: current, .. },
                SessionRecoveryEvent::ConnectionReplaced { connection: on, now: at },
            ) => lost == previous && on == connection && at == now && on.generation
                != current.generation,
            _ => false,
        },
    ensures
        policy.max_attempts > 0 ==> ({
            let deadline = now.plus(policy.attempt_timeout);
            session_step(policy, state, event) == (
                SessionRecoveryState::Authenticating { previous, connection, attempt: 1, deadline },
                Some(
                    SessionRecoveryEffect::StartAuthentication { connection, attempt: 1, deadline },
                ),
            )
        }),
        policy.max_attempts == 0 ==> session_step(policy, state, event) == (
            SessionRecoveryState::Revoked(previous),
            Some(SessionRecoveryEffect::RevokeSession(previous)),
        ),
{
}

/// A failed authentication is followed by the next one as long as any is
/// allowed, with a deadline of its own.
pub proof fn failed_authentications_are_followed(
    policy: SessionRecoveryPolicy,
    previous: ObjectToken,
    connection: ObjectToken,
    attempt: u32,
    earlier: MonotonicTime,
    now: MonotonicTime,
)
    requires
        attempt < policy.max_attempts,
    ensures
        ({
            let deadline = now.plus(policy.attempt_timeout);
            let next = (attempt + 1) as u32;
            session_step(
                policy,
                SessionRecoveryState::Authenticating {
                    previous,
                    connection,
                    attempt,
                    deadline: earlier,
                },
                SessionRecoveryEvent::AttemptFailed { connection, now },
            ) == (
                SessionRecoveryState::Authenticating {
                    previous,
                    connection,
                    attempt: next,
                    deadline,
                },
                Some(
                    SessionRecoveryEffect::StartAuthentication {
                        connection,
                        attempt: next,
                        deadline,
                    },
                ),
            )
        }),
{
}

/// A session is revoked for two reasons alone: its last attempt failed, or
/// none is allowed. It is published again for one: an attempt on the current
/// connection succeeded with a session of that connection's generation.
pub proof fn sessions_end_with_their_attempts(
    policy: SessionRecoveryPolicy,
    state: SessionRecoveryState,
    event: SessionRecoveryEvent,
    session: ObjectToken,
    replacement: ObjectToken,
)
    ensures
        session_step(policy, state, event).1 == Some(SessionRecoveryEffect::RevokeSession(session))
            <==> match (state, event) {
            (
                SessionRecoveryState::Active(active),
                SessionRecoveryEvent::SessionLost { session: lost, .. },
            ) => active == session && lost == session && policy.max_attempts == 0,
            (
                SessionRecoveryState::Active(active),
                SessionRecoveryEvent::ConnectionReplaced { connection, .. },
            ) => active == session && connection.generation != active.generation
                && policy.max_attempts == 0,
            (
                SessionRecoveryState::Authenticating { previous, connection: current, .. },
                SessionRecoveryEvent::ConnectionReplaced { connection, .. },
            ) => previous == session && connection.generation != current.generation
                && policy.max_attempts == 0,
            (
                SessionRecoveryState::Authenticating { previous, connection: current, attempt, .. },
                SessionRecoveryEvent::AttemptFailed { connection, .. },
            ) => previous == session && connection == current && policy.max_attempts <= attempt,
            _ => false,
        },
        session_step(policy, state, event).1 == Some(
            SessionRecoveryEffect::PublishSession { previous: session, replacement },
        ) <==> match (state, event) {
            (
                SessionRecoveryState::Authenticating { previous, connection: current, .. },
                SessionRecoveryEvent::AttemptSucceeded { connection, session: made },
            ) => previous == session && made == replacement && connection == current
                && made.generation == current.generation,
            _ => false,
        },
        session_step(policy, state, event).1 matches Some(
            SessionRecoveryEffect::RevokeSession(gone),
        ) ==> session_step(policy, state, event).0 == SessionRecoveryState::Revoked(gone),
        session_step(policy, state, event).1 matches Some(
            SessionRecoveryEffect::PublishSession { replacement: made, .. },
        ) ==> session_step(policy, state, event).0 == SessionRecoveryState::Active(made),
{
}

/// A recovery can be closed until it has ended, and an event that belongs to
/// another session, another connection or another moment changes nothing.
pub proof fn foreign_session_events_change_nothing(
    policy: SessionRecoveryPolicy,
    state: SessionRecoveryState,
    event: SessionRecoveryEvent,
)
    ensures
        session_step(policy, state, event).1 == Some(SessionRecoveryEffect::Closed) <==> event
            is Close && (state is Active || state is Authenticating),
        session_step(policy, state, event).1 == Some(SessionRecoveryEffect::Closed)
            ==> session_step(policy, state, event).0 is Closed,
        session_step(policy, state, event).1 is None ==> session_step(policy, state, event).0
            == state,
        match (state, event) {
            (SessionRecoveryState::Closed | SessionRecoveryState::Revoked(_), _) => true,
            (SessionRecoveryState::Active(_), SessionRecoveryEvent::AttemptFailed { .. }) => true,
            (
                SessionRecoveryState::Active(_),
                SessionRecoveryEvent::AttemptSucceeded { .. },
            ) => true,
            (
                SessionRecoveryState::Active(active),
                SessionRecoveryEvent::SessionLost { session, .. },
            ) => session != active,
            (
                SessionRecoveryState::Active(active),
                SessionRecoveryEvent::ConnectionReplaced { connection, .. },
            ) => connection.generation == active.generation,
            (
                SessionRecoveryState::Authenticating { connection: current, .. },
                SessionRecoveryEvent::ConnectionReplaced { connection, .. },
            ) => connection.generation == current.generation,
            (
                SessionRecoveryState::Authenticating { connection: current, .. },
                SessionRecoveryEvent::AttemptFailed { connection, .. },
            ) => connection != current,
            (
                SessionRecoveryState::Authenticating { connection: current, .. },
                SessionRecoveryEvent::AttemptSucceeded { connection, session },
            ) => connection != current || session.generation != current.generation,
            (
                SessionRecoveryState::Authenticating { .. },
                SessionRecoveryEvent::SessionLost { .. },
            ) => true,
            _ => false,
        } <==> session_step(policy, state, event).1 is None,
{
}

} // verus!
