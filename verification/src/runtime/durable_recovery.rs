//! Deterministic authority for reconnecting a durable or persistent resource
//! after its share was replaced.

use crate::clock::{Duration, MonotonicTime};
use crate::identity::{FileId, Guid};
use crate::runtime::object_state::ObjectToken;
use vstd::prelude::*;

verus! {

#[derive(Clone, Copy, Debug, PartialEq, Eq, Structural)]
pub struct DurableIdentity {
    pub file_id: FileId,
    pub create_guid: Guid,
    pub persistent: bool,
}

impl DurableIdentity {
    /// Whether two identities belong to one open; the file id may change when
    /// the open is reconnected.
    pub open spec fn same_open(self, other: DurableIdentity) -> bool {
        self.create_guid == other.create_guid && self.persistent == other.persistent
    }
}

#[derive(Clone, Copy, Debug, PartialEq, Eq, Structural)]
pub struct DurableRecoveryPolicy {
    pub max_attempts: u32,
    pub attempt_timeout: Duration,
}

#[derive(Clone, Copy, Debug, PartialEq, Eq, Structural)]
pub enum DurableRecoveryState {
    Active { resource: ObjectToken, identity: DurableIdentity },
    Reconnecting {
        previous: ObjectToken,
        identity: DurableIdentity,
        share: ObjectToken,
        attempt: u32,
        deadline: MonotonicTime,
    },
    Revoked(ObjectToken),
    Closed,
}

#[derive(Clone, Copy, Debug, PartialEq, Eq, Structural)]
pub enum DurableRecoveryEvent {
    ShareReplaced { share: ObjectToken, now: MonotonicTime },
    AttemptFailed { share: ObjectToken, now: MonotonicTime },
    AttemptSucceeded { share: ObjectToken, resource: ObjectToken, identity: DurableIdentity },
    Close,
}

#[derive(Clone, Copy, Debug, PartialEq, Eq, Structural)]
pub enum DurableRecoveryEffect {
    StartReconnect {
        share: ObjectToken,
        identity: DurableIdentity,
        attempt: u32,
        deadline: MonotonicTime,
    },
    PublishResource {
        previous: ObjectToken,
        replacement: ObjectToken,
        identity: DurableIdentity,
    },
    RevokeResource(ObjectToken),
    Closed,
}

/// An attempt begins, unless the policy allows none.
pub open spec fn reconnect_started(
    policy: DurableRecoveryPolicy,
    previous: ObjectToken,
    identity: DurableIdentity,
    share: ObjectToken,
    attempt: u32,
    now: MonotonicTime,
) -> (DurableRecoveryState, Option<DurableRecoveryEffect>) {
    if policy.max_attempts == 0 {
        (
            DurableRecoveryState::Revoked(previous),
            Some(DurableRecoveryEffect::RevokeResource(previous)),
        )
    } else {
        let deadline = now.plus(policy.attempt_timeout);
        (
            DurableRecoveryState::Reconnecting { previous, identity, share, attempt, deadline },
            Some(DurableRecoveryEffect::StartReconnect { share, identity, attempt, deadline }),
        )
    }
}

/// The state and the effect after one event.
pub open spec fn durable_step(
    policy: DurableRecoveryPolicy,
    state: DurableRecoveryState,
    event: DurableRecoveryEvent,
) -> (DurableRecoveryState, Option<DurableRecoveryEffect>) {
    match (state, event) {
        (DurableRecoveryState::Closed, _) | (DurableRecoveryState::Revoked(_), _) => (state, None),
        (_, DurableRecoveryEvent::Close) => (
            DurableRecoveryState::Closed,
            Some(DurableRecoveryEffect::Closed),
        ),
        (
            DurableRecoveryState::Active { resource, identity },
            DurableRecoveryEvent::ShareReplaced { share, now },
        ) => reconnect_started(policy, resource, identity, share, 1, now),
        (
            DurableRecoveryState::Reconnecting { previous, identity, share: current, .. },
            DurableRecoveryEvent::ShareReplaced { share, now },
        ) => if share != current {
            reconnect_started(policy, previous, identity, share, 1, now)
        } else {
            (state, None)
        },
        (
            DurableRecoveryState::Reconnecting { previous, identity, share: current, attempt, .. },
            DurableRecoveryEvent::AttemptFailed { share, now },
        ) => if share != current {
            (state, None)
        } else if attempt >= policy.max_attempts {
            (
                DurableRecoveryState::Revoked(previous),
                Some(DurableRecoveryEffect::RevokeResource(previous)),
            )
        } else {
            reconnect_started(policy, previous, identity, share, (attempt + 1) as u32, now)
        },
        (
            DurableRecoveryState::Reconnecting { previous, identity, share: current, .. },
            DurableRecoveryEvent::AttemptSucceeded { share, resource, identity: candidate },
        ) => if share == current && resource.generation == share.generation && candidate.same_open(
            identity,
        ) {
            (
                DurableRecoveryState::Active { resource, identity: candidate },
                Some(
                    DurableRecoveryEffect::PublishResource {
                        previous,
                        replacement: resource,
                        identity: candidate,
                    },
                ),
            )
        } else {
            (state, None)
        },
        _ => (state, None),
    }
}

pub struct DurableRecoveryCoordinator {
    policy: DurableRecoveryPolicy,
    state: DurableRecoveryState,
}

impl DurableRecoveryCoordinator {
    pub closed spec fn policy(&self) -> DurableRecoveryPolicy {
        self.policy
    }

    pub closed spec fn phase(&self) -> DurableRecoveryState {
        self.state
    }

    pub fn new(
        resource: ObjectToken,
        identity: DurableIdentity,
        policy: DurableRecoveryPolicy,
    ) -> (coordinator: Self)
        ensures
            coordinator.policy() == policy,
            coordinator.phase() == (DurableRecoveryState::Active { resource, identity }),
    {
        DurableRecoveryCoordinator {
            policy,
            state: DurableRecoveryState::Active { resource, identity },
        }
    }

    pub fn reduce(&mut self, event: DurableRecoveryEvent) -> (effect: Option<DurableRecoveryEffect>)
        ensures
            (final(self).phase(), effect) == durable_step(
                old(self).policy(),
                old(self).phase(),
                event,
            ),
            final(self).policy() == old(self).policy(),
    {
        match (self.state, event) {
            (DurableRecoveryState::Closed, _) | (DurableRecoveryState::Revoked(_), _) => None,
            (_, DurableRecoveryEvent::Close) => {
                self.state = DurableRecoveryState::Closed;
                Some(DurableRecoveryEffect::Closed)
            },
            (
                DurableRecoveryState::Active { resource, identity },
                DurableRecoveryEvent::ShareReplaced { share, now },
            ) => self.start(resource, identity, share, 1, now),
            (
                DurableRecoveryState::Reconnecting { previous, identity, share: current, .. },
                DurableRecoveryEvent::ShareReplaced { share, now },
            ) => {
                if share == current {
                    return None;
                }
                self.start(previous, identity, share, 1, now)
            },
            (
                DurableRecoveryState::Reconnecting {
                    previous,
                    identity,
                    share: current,
                    attempt,
                    ..
                },
                DurableRecoveryEvent::AttemptFailed { share, now },
            ) => {
                if share != current {
                    return None;
                }
                if attempt >= self.policy.max_attempts {
                    self.state = DurableRecoveryState::Revoked(previous);
                    Some(DurableRecoveryEffect::RevokeResource(previous))
                } else {
                    self.start(previous, identity, share, attempt + 1, now)
                }
            },
            (
                DurableRecoveryState::Reconnecting { previous, identity, share: current, .. },
                DurableRecoveryEvent::AttemptSucceeded { share, resource, identity: candidate },
            ) => {
                if share != current || resource.generation() != share.generation()
                    || candidate.create_guid != identity.create_guid || candidate.persistent
                    != identity.persistent {
                    return None;
                }
                self.state = DurableRecoveryState::Active { resource, identity: candidate };
                Some(
                    DurableRecoveryEffect::PublishResource {
                        previous,
                        replacement: resource,
                        identity: candidate,
                    },
                )
            },
            _ => None,
        }
    }

    fn start(
        &mut self,
        previous: ObjectToken,
        identity: DurableIdentity,
        share: ObjectToken,
        attempt: u32,
        now: MonotonicTime,
    ) -> (effect: Option<DurableRecoveryEffect>)
        ensures
            (final(self).phase(), effect) == reconnect_started(
                old(self).policy(),
                previous,
                identity,
                share,
                attempt,
                now,
            ),
            final(self).policy() == old(self).policy(),
    {
        if self.policy.max_attempts == 0 {
            self.state = DurableRecoveryState::Revoked(previous);
            return Some(DurableRecoveryEffect::RevokeResource(previous));
        }
        let deadline = now.saturating_add(self.policy.attempt_timeout);
        self.state = DurableRecoveryState::Reconnecting {
            previous,
            identity,
            share,
            attempt,
            deadline,
        };
        Some(DurableRecoveryEffect::StartReconnect { share, identity, attempt, deadline })
    }
}

/// Attempts are numbered from one up to the policy's limit, restarting at one
/// for each new share.
pub proof fn reconnect_attempts_are_bounded(
    policy: DurableRecoveryPolicy,
    state: DurableRecoveryState,
    event: DurableRecoveryEvent,
)
    requires
        state matches DurableRecoveryState::Reconnecting { attempt, .. } ==> 1 <= attempt
            <= policy.max_attempts,
    ensures
        durable_step(policy, state, event).0 matches DurableRecoveryState::Reconnecting {
            attempt,
            ..
        } ==> 1 <= attempt <= policy.max_attempts,
        durable_step(policy, state, event).1 matches Some(
            DurableRecoveryEffect::StartReconnect { attempt, share, .. },
        ) ==> attempt == 1 || (state matches DurableRecoveryState::Reconnecting {
            attempt: a,
            share: s,
            ..
        } && attempt == a + 1 && share == s),
{
}

/// A resource is published only by the reconnect that runs, for its own share,
/// in that share's generation, and for the same open: its create guid and its
/// persistence never change over any number of reconnects.
pub proof fn reconnect_keeps_the_open(
    policy: DurableRecoveryPolicy,
    state: DurableRecoveryState,
    event: DurableRecoveryEvent,
)
    ensures
        durable_step(policy, state, event).1 matches Some(
            DurableRecoveryEffect::PublishResource { previous, replacement, identity },
        ) ==> (state matches DurableRecoveryState::Reconnecting {
            previous: p,
            identity: known,
            share,
            ..
        } && p == previous && identity.same_open(known) && replacement.generation
            == share.generation && durable_step(policy, state, event).0 == (
        DurableRecoveryState::Active { resource: replacement, identity })),
        durable_step(policy, state, event).1 matches Some(
            DurableRecoveryEffect::StartReconnect { identity, .. },
        ) ==> match state {
            DurableRecoveryState::Active { identity: known, .. } => identity == known,
            DurableRecoveryState::Reconnecting { identity: known, .. } => identity == known,
            _ => false,
        },
{
}

/// A revoked or closed resource never recovers and never acts again.
pub proof fn ended_resource_is_inert(
    policy: DurableRecoveryPolicy,
    state: DurableRecoveryState,
    event: DurableRecoveryEvent,
)
    requires
        state is Revoked || state is Closed,
    ensures
        durable_step(policy, state, event) == (state, None::<DurableRecoveryEffect>),
{
}

/// A durable resource whose share was replaced is opened again on the share
/// that is there now, as the open that it was: the first attempt begins at
/// once, and each replaced share begins anew with the first one. Where no
/// attempt is allowed the resource is revoked at once.
pub proof fn durable_resources_are_reconnected(
    policy: DurableRecoveryPolicy,
    state: DurableRecoveryState,
    previous: ObjectToken,
    identity: DurableIdentity,
    share: ObjectToken,
    now: MonotonicTime,
)
    requires
        match state {
            DurableRecoveryState::Active { resource, identity: open } => resource == previous && open
                == identity,
            DurableRecoveryState::Reconnecting {
                previous: lost,
                identity: open,
                share: current,
                ..
            } => lost == previous && open == identity && current != share,
            _ => false,
        },
    ensures
        policy.max_attempts > 0 ==> ({
            let deadline = now.plus(policy.attempt_timeout);
            durable_step(policy, state, DurableRecoveryEvent::ShareReplaced { share, now }) == (
                DurableRecoveryState::Reconnecting {
                    previous,
                    identity,
                    share,
                    attempt: 1,
                    deadline,
                },
                Some(
                    DurableRecoveryEffect::StartReconnect { share, identity, attempt: 1, deadline },
                ),
            )
        }),
        policy.max_attempts == 0 ==> durable_step(
            policy,
            state,
            DurableRecoveryEvent::ShareReplaced { share, now },
        ) == (
            DurableRecoveryState::Revoked(previous),
            Some(DurableRecoveryEffect::RevokeResource(previous)),
        ),
{
}

/// A failed attempt is followed by the next one as long as any is allowed,
/// with a deadline of its own.
pub proof fn failed_durable_attempts_are_followed(
    policy: DurableRecoveryPolicy,
    previous: ObjectToken,
    identity: DurableIdentity,
    share: ObjectToken,
    attempt: u32,
    earlier: MonotonicTime,
    now: MonotonicTime,
)
    requires
        attempt < policy.max_attempts,
    ensures
        ({
            let deadline = now.plus(policy.attempt_timeout);
            let next = (attempt + 1) as u32;
            durable_step(
                policy,
                DurableRecoveryState::Reconnecting {
                    previous,
                    identity,
                    share,
                    attempt,
                    deadline: earlier,
                },
                DurableRecoveryEvent::AttemptFailed { share, now },
            ) == (
                DurableRecoveryState::Reconnecting {
                    previous,
                    identity,
                    share,
                    attempt: next,
                    deadline,
                },
                Some(
                    DurableRecoveryEffect::StartReconnect {
                        share,
                        identity,
                        attempt: next,
                        deadline,
                    },
                ),
            )
        }),
{
}

/// A resource is revoked for two reasons alone: its last attempt failed, or
/// none is allowed. It is published again for one: an attempt on the current
/// share succeeded with a resource of that share's generation, and with the
/// open that was lost: the same identifier, and as persistent as before.
pub proof fn durable_resources_end_with_their_attempts(
    policy: DurableRecoveryPolicy,
    state: DurableRecoveryState,
    event: DurableRecoveryEvent,
    resource: ObjectToken,
    replacement: ObjectToken,
    found: DurableIdentity,
)
    ensures
        durable_step(policy, state, event).1 == Some(
            DurableRecoveryEffect::RevokeResource(resource),
        ) <==> match (state, event) {
            (
                DurableRecoveryState::Active { resource: active, .. },
                DurableRecoveryEvent::ShareReplaced { .. },
            ) => active == resource && policy.max_attempts == 0,
            (
                DurableRecoveryState::Reconnecting { previous, share: current, .. },
                DurableRecoveryEvent::ShareReplaced { share, .. },
            ) => previous == resource && share != current && policy.max_attempts == 0,
            (
                DurableRecoveryState::Reconnecting { previous, share: current, attempt, .. },
                DurableRecoveryEvent::AttemptFailed { share, .. },
            ) => previous == resource && share == current && policy.max_attempts <= attempt,
            _ => false,
        },
        durable_step(policy, state, event).1 == Some(
            DurableRecoveryEffect::PublishResource {
                previous: resource,
                replacement,
                identity: found,
            },
        ) <==> match (state, event) {
            (
                DurableRecoveryState::Reconnecting { previous, identity, share: current, .. },
                DurableRecoveryEvent::AttemptSucceeded { share, resource: made, identity: open },
            ) => {
                &&& previous == resource
                &&& made == replacement
                &&& open == found
                &&& share == current
                &&& made.generation == current.generation
                &&& open.create_guid == identity.create_guid
                &&& open.persistent == identity.persistent
            },
            _ => false,
        },
        durable_step(policy, state, event).1 matches Some(
            DurableRecoveryEffect::RevokeResource(gone),
        ) ==> durable_step(policy, state, event).0 == DurableRecoveryState::Revoked(gone),
        durable_step(policy, state, event).1 matches Some(
            DurableRecoveryEffect::PublishResource { replacement: made, identity: open, .. },
        ) ==> durable_step(policy, state, event).0 == (DurableRecoveryState::Active {
            resource: made,
            identity: open,
        }),
{
}

/// A recovery can be closed until it has ended, and an event that belongs to
/// another share, another open or another moment changes nothing.
pub proof fn foreign_durable_events_change_nothing(
    policy: DurableRecoveryPolicy,
    state: DurableRecoveryState,
    event: DurableRecoveryEvent,
)
    ensures
        durable_step(policy, state, event).1 == Some(DurableRecoveryEffect::Closed) <==> event
            is Close && (state is Active || state is Reconnecting),
        durable_step(policy, state, event).1 == Some(DurableRecoveryEffect::Closed)
            ==> durable_step(policy, state, event).0 is Closed,
        durable_step(policy, state, event).1 is None ==> durable_step(policy, state, event).0
            == state,
        match (state, event) {
            (DurableRecoveryState::Closed | DurableRecoveryState::Revoked(_), _) => true,
            (
                DurableRecoveryState::Active { .. },
                DurableRecoveryEvent::AttemptFailed { .. },
            ) => true,
            (
                DurableRecoveryState::Active { .. },
                DurableRecoveryEvent::AttemptSucceeded { .. },
            ) => true,
            (
                DurableRecoveryState::Reconnecting { share: current, .. },
                DurableRecoveryEvent::ShareReplaced { share, .. },
            ) => share == current,
            (
                DurableRecoveryState::Reconnecting { share: current, .. },
                DurableRecoveryEvent::AttemptFailed { share, .. },
            ) => share != current,
            (
                DurableRecoveryState::Reconnecting { identity, share: current, .. },
                DurableRecoveryEvent::AttemptSucceeded { share, resource, identity: open },
            ) => share != current || resource.generation != current.generation
                || open.create_guid != identity.create_guid || open.persistent
                != identity.persistent,
            _ => false,
        } <==> durable_step(policy, state, event).1 is None,
{
}

} // verus!
