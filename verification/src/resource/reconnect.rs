//! Opening a durable resource again after its share was replaced.
//!
//! A resource is current as long as it belongs to the share as it is now.
//! Where it is not, and was opened durably, it is opened again in a bounded
//! number of attempts. Each attempt looks the share up before its request
//! and once more behind the answer: an answer from a share that is gone
//! opens nothing.

use crate::clock::Duration;
use crate::identity::FileId;
use crate::resource::ResourceGeneration;
use crate::runtime::object_state::ObjectToken;
use crate::runtime::recovery::{doubled_backoff, exponential_backoff, RecoveryPolicy};
use vstd::prelude::*;

verus! {

/// Where an attempt stands.
#[derive(Clone, Copy, Debug, PartialEq, Eq, Structural)]
pub enum ReconnectPhase {
    /// No attempt was begun.
    Idle,
    /// The delay before an attempt runs.
    Sleeping,
    /// The share is being looked up.
    LookingUp,
    /// The request was sent, on this share.
    Sent { share: ObjectToken },
    /// The share is looked up behind the answer.
    Checking { share: ObjectToken, file_id: FileId },
    /// An object is being made for what was opened.
    Opening { share: ObjectToken, file_id: FileId },
    Ended,
}

/// What happened.
#[derive(Debug)]
pub enum ReconnectEvent<E> {
    /// The resource is found not to be current, and nobody else is opening it.
    Begin,
    Slept,
    /// The share as it is now. `previous` is the one that the resource
    /// belongs to.
    Share { previous: ObjectToken, current: ObjectToken },
    /// The request was answered.
    Answered(FileId),
    /// The object was made.
    Object(ObjectToken),
    /// The attempt failed, or ran out of time.
    Failed(E),
}

/// Why an attempt failed.
#[derive(Debug, PartialEq, Eq)]
pub enum ReconnectError<E> {
    /// The share was replaced while the request was under way.
    ShareChanged,
    Attempt(E),
}

/// What is to be done.
#[derive(Debug)]
pub enum ReconnectAction<E> {
    Sleep(Duration),
    LookUpShare,
    Send,
    /// Make an object for the resource, on this share.
    MakeObject(ObjectToken),
    /// The resource is this one from now on.
    Adopt(ResourceGeneration),
    /// The resource is current.
    Done,
    /// No attempt is left. Reconnects are switched off where none was made.
    GiveUp(Option<ReconnectError<E>>),
    /// The event means nothing at this point.
    Ignore,
}

#[verifier::ext_equal]
#[verifier::reject_recursive_types(E)]
pub struct ReconnectModel<E> {
    pub policy: RecoveryPolicy,
    pub phase: ReconnectPhase,
    /// How many attempts were begun.
    pub attempts: u32,
    /// Why the last attempt failed.
    pub last_error: Option<ReconnectError<E>>,
}

impl<E> ReconnectModel<E> {
    pub open spec fn initial(policy: RecoveryPolicy) -> ReconnectModel<E> {
        ReconnectModel { policy, phase: ReconnectPhase::Idle, attempts: 0, last_error: None }
    }

    pub open spec fn wf(self) -> bool {
        self.attempts <= self.policy.max_attempts
    }

    /// The next attempt: the first is made at once, each later one after a
    /// delay that doubles.
    pub open spec fn attempted(self) -> (Self, ReconnectAction<E>) {
        if self.attempts >= self.policy.max_attempts {
            (
                ReconnectModel { phase: ReconnectPhase::Ended, last_error: None, ..self },
                ReconnectAction::GiveUp(self.last_error),
            )
        } else if self.attempts == 0 {
            (
                ReconnectModel { phase: ReconnectPhase::LookingUp, attempts: 1, ..self },
                ReconnectAction::LookUpShare,
            )
        } else {
            (
                ReconnectModel {
                    phase: ReconnectPhase::Sleeping,
                    attempts: (self.attempts + 1) as u32,
                    ..self
                },
                ReconnectAction::Sleep(
                    doubled_backoff(
                        self.policy.initial_backoff,
                        self.policy.maximum_backoff,
                        self.attempts,
                    ),
                ),
            )
        }
    }

    pub open spec fn failed(self, error: ReconnectError<E>) -> (Self, ReconnectAction<E>) {
        ReconnectModel { last_error: Some(error), ..self }.attempted()
    }

    pub open spec fn to(self, phase: ReconnectPhase, action: ReconnectAction<E>) -> (
        Self,
        ReconnectAction<E>,
    ) {
        (ReconnectModel { phase, ..self }, action)
    }

    pub open spec fn step(self, event: ReconnectEvent<E>) -> (Self, ReconnectAction<E>) {
        match (self.phase, event) {
            (ReconnectPhase::Idle, ReconnectEvent::Begin) => self.attempted(),
            (ReconnectPhase::Sleeping, ReconnectEvent::Slept) => self.to(
                ReconnectPhase::LookingUp,
                ReconnectAction::LookUpShare,
            ),
            (ReconnectPhase::LookingUp, ReconnectEvent::Share { previous, current }) => if previous
                == current {
                self.to(ReconnectPhase::Ended, ReconnectAction::Done)
            } else {
                self.to(ReconnectPhase::Sent { share: current }, ReconnectAction::Send)
            },
            (ReconnectPhase::Sent { share }, ReconnectEvent::Answered(file_id)) => self.to(
                ReconnectPhase::Checking { share, file_id },
                ReconnectAction::LookUpShare,
            ),
            (
                ReconnectPhase::Checking { share, file_id },
                ReconnectEvent::Share { previous, current },
            ) => if current == share {
                self.to(
                    ReconnectPhase::Opening { share, file_id },
                    ReconnectAction::MakeObject(share),
                )
            } else {
                self.failed(ReconnectError::ShareChanged)
            },
            (ReconnectPhase::Opening { share, file_id }, ReconnectEvent::Object(object)) => self.to(
                ReconnectPhase::Ended,
                ReconnectAction::Adopt(ResourceGeneration { file_id, object, share }),
            ),
            (ReconnectPhase::LookingUp, ReconnectEvent::Failed(error)) => self.failed(
                ReconnectError::Attempt(error),
            ),
            (ReconnectPhase::Sent { .. }, ReconnectEvent::Failed(error)) => self.failed(
                ReconnectError::Attempt(error),
            ),
            (ReconnectPhase::Checking { .. }, ReconnectEvent::Failed(error)) => self.failed(
                ReconnectError::Attempt(error),
            ),
            (ReconnectPhase::Opening { .. }, ReconnectEvent::Failed(error)) => self.failed(
                ReconnectError::Attempt(error),
            ),
            _ => (self, ReconnectAction::Ignore),
        }
    }
}

/// The attempts to open a durable resource again.
pub struct DurableReconnect<E> {
    policy: RecoveryPolicy,
    phase: ReconnectPhase,
    attempts: u32,
    last_error: Option<ReconnectError<E>>,
}

impl<E> View for DurableReconnect<E> {
    type V = ReconnectModel<E>;

    closed spec fn view(&self) -> ReconnectModel<E> {
        ReconnectModel {
            policy: self.policy,
            phase: self.phase,
            attempts: self.attempts,
            last_error: self.last_error,
        }
    }
}

impl<E> DurableReconnect<E> {
    pub fn new(policy: RecoveryPolicy) -> (reconnect: Self)
        ensures
            reconnect@ == ReconnectModel::<E>::initial(policy),
            reconnect@.wf(),
    {
        DurableReconnect { policy, phase: ReconnectPhase::Idle, attempts: 0, last_error: None }
    }

    fn attempt(&mut self) -> (action: ReconnectAction<E>)
        requires
            old(self)@.wf(),
        ensures
            final(self)@.wf(),
            (final(self)@, action) == old(self)@.attempted(),
    {
        if self.attempts >= self.policy.max_attempts {
            self.phase = ReconnectPhase::Ended;
            return ReconnectAction::GiveUp(self.last_error.take());
        }
        let made: u32 = self.attempts;
        self.attempts = made + 1;
        if made == 0 {
            self.phase = ReconnectPhase::LookingUp;
            return ReconnectAction::LookUpShare;
        }
        self.phase = ReconnectPhase::Sleeping;
        ReconnectAction::Sleep(
            exponential_backoff(self.policy.initial_backoff, self.policy.maximum_backoff, made),
        )
    }

    fn fail(&mut self, error: ReconnectError<E>) -> (action: ReconnectAction<E>)
        requires
            old(self)@.wf(),
        ensures
            final(self)@.wf(),
            (final(self)@, action) == old(self)@.failed(error),
    {
        self.last_error = Some(error);
        self.attempt()
    }

    /// Takes what happened, and says what is to be done.
    pub fn reduce(&mut self, event: ReconnectEvent<E>) -> (action: ReconnectAction<E>)
        requires
            old(self)@.wf(),
        ensures
            final(self)@.wf(),
            (final(self)@, action) == old(self)@.step(event),
    {
        match (self.phase, event) {
            (ReconnectPhase::Idle, ReconnectEvent::Begin) => self.attempt(),
            (ReconnectPhase::Sleeping, ReconnectEvent::Slept) => {
                self.phase = ReconnectPhase::LookingUp;
                ReconnectAction::LookUpShare
            },
            (ReconnectPhase::LookingUp, ReconnectEvent::Share { previous, current }) => {
                if previous == current {
                    self.phase = ReconnectPhase::Ended;
                    ReconnectAction::Done
                } else {
                    self.phase = ReconnectPhase::Sent { share: current };
                    ReconnectAction::Send
                }
            },
            (ReconnectPhase::Sent { share }, ReconnectEvent::Answered(file_id)) => {
                self.phase = ReconnectPhase::Checking { share, file_id };
                ReconnectAction::LookUpShare
            },
            (
                ReconnectPhase::Checking { share, file_id },
                ReconnectEvent::Share { previous, current },
            ) => {
                if current == share {
                    self.phase = ReconnectPhase::Opening { share, file_id };
                    ReconnectAction::MakeObject(share)
                } else {
                    self.fail(ReconnectError::ShareChanged)
                }
            },
            (ReconnectPhase::Opening { share, file_id }, ReconnectEvent::Object(object)) => {
                self.phase = ReconnectPhase::Ended;
                ReconnectAction::Adopt(ResourceGeneration { file_id, object, share })
            },
            (ReconnectPhase::LookingUp, ReconnectEvent::Failed(error)) => self.fail(
                ReconnectError::Attempt(error),
            ),
            (ReconnectPhase::Sent { .. }, ReconnectEvent::Failed(error)) => self.fail(
                ReconnectError::Attempt(error),
            ),
            (ReconnectPhase::Checking { .. }, ReconnectEvent::Failed(error)) => self.fail(
                ReconnectError::Attempt(error),
            ),
            (ReconnectPhase::Opening { .. }, ReconnectEvent::Failed(error)) => self.fail(
                ReconnectError::Attempt(error),
            ),
            _ => ReconnectAction::Ignore,
        }
    }
}

/// A reconnect after some events, and what was to be done each time.
pub open spec fn run<E>(model: ReconnectModel<E>, events: Seq<ReconnectEvent<E>>) -> (
    ReconnectModel<E>,
    Seq<ReconnectAction<E>>,
)
    decreases events.len(),
{
    if events.len() == 0 {
        (model, Seq::empty())
    } else {
        let (before, actions) = run(model, events.drop_last());
        let (after, action) = before.step(events.last());
        (after, actions.push(action))
    }
}

/// A resource is only adopted on a share that was found before its request
/// was sent and again behind the answer, and with the file that was answered.
pub proof fn adopted_resources_are_current<E>(model: ReconnectModel<E>, event: ReconnectEvent<E>)
    ensures
        model.step(event).1 matches ReconnectAction::Adopt(generation) ==> {
            &&& model.phase == (ReconnectPhase::Opening {
                share: generation.share,
                file_id: generation.file_id,
            })
            &&& event == ReconnectEvent::<E>::Object(generation.object)
        },
        model.step(event).0.phase matches ReconnectPhase::Opening { share, file_id } ==> {
            ||| model.phase == model.step(event).0.phase
            ||| model.phase == (ReconnectPhase::Checking { share, file_id }) && (event matches
                ReconnectEvent::Share { current, .. } && current == share)
        },
        model.step(event).0.phase matches ReconnectPhase::Sent { share } ==> {
            ||| model.phase == model.step(event).0.phase
            ||| model.phase == ReconnectPhase::LookingUp && (event matches ReconnectEvent::Share {
                previous,
                current,
            } && current == share && previous != current)
        },
{
}

/// How many requests were sent.
pub open spec fn sent<E>(actions: Seq<ReconnectAction<E>>) -> nat
    decreases actions.len(),
{
    if actions.len() == 0 {
        0
    } else {
        sent(actions.drop_last()) + if actions.last() is Send {
            1nat
        } else {
            0nat
        }
    }
}

/// However a reconnect goes, it sends no more requests than attempts are
/// allowed.
pub proof fn reconnects_are_bounded<E>(policy: RecoveryPolicy, events: Seq<ReconnectEvent<E>>)
    ensures
        run(ReconnectModel::<E>::initial(policy), events).0.wf(),
        run(ReconnectModel::<E>::initial(policy), events).0.policy == policy,
        sent(run(ReconnectModel::<E>::initial(policy), events).1) <= policy.max_attempts,
{
    requests_are_counted(policy, events);
}

proof fn requests_are_counted<E>(policy: RecoveryPolicy, events: Seq<ReconnectEvent<E>>)
    ensures
        ({
            let (model, actions) = run(ReconnectModel::<E>::initial(policy), events);
            &&& model.wf()
            &&& model.policy == policy
            &&& sent(actions) + (if model.phase is Sleeping || model.phase is LookingUp {
                1int
            } else {
                0
            }) <= model.attempts
        }),
    decreases events.len(),
{
    if events.len() > 0 {
        requests_are_counted(policy, events.drop_last());
        let (before, actions) = run(ReconnectModel::<E>::initial(policy), events.drop_last());
        let (after, action) = before.step(events.last());
        assert(actions.push(action).drop_last() =~= actions);
    }
}

/// A reconnect that ended does nothing more.
pub proof fn ended_reconnects_are_inert<E>(model: ReconnectModel<E>, event: ReconnectEvent<E>)
    requires
        model.phase == ReconnectPhase::Ended,
    ensures
        model.step(event) == (model, ReconnectAction::<E>::Ignore),
{
}

/// An attempt that fails is followed by another one as long as any is left,
/// behind the doubled wait; where none is left, the reconnect gives up and
/// tells why the last attempt failed. A share that was replaced behind the
/// request makes its attempt fail.
pub proof fn failed_reconnects_are_tried_again<E>(model: ReconnectModel<E>, event: ReconnectEvent<E>)
    requires
        ({
            ||| (model.phase is LookingUp || model.phase is Sent || model.phase is Checking
                || model.phase is Opening) && event is Failed
            ||| model.phase is Checking && event is Share && event->current
                != model.phase->Checking_share
        }),
        0 < model.attempts,
    ensures
        ({
            let (next, action) = model.step(event);
            let error = match event {
                ReconnectEvent::Failed(error) => ReconnectError::Attempt(error),
                _ => ReconnectError::<E>::ShareChanged,
            };
            &&& next.policy == model.policy
            &&& model.attempts < model.policy.max_attempts ==> {
                &&& next.phase is Sleeping
                &&& next.attempts == model.attempts + 1
                &&& next.last_error == Some(error)
                &&& action == ReconnectAction::<E>::Sleep(
                    doubled_backoff(
                        model.policy.initial_backoff,
                        model.policy.maximum_backoff,
                        model.attempts,
                    ),
                )
            }
            &&& model.attempts >= model.policy.max_attempts ==> {
                &&& next.phase is Ended
                &&& action == ReconnectAction::<E>::GiveUp(Some(error))
            }
        }),
{
}

/// The first attempt is made at once, where any is allowed.
pub proof fn reconnects_begin_at_once<E>(policy: RecoveryPolicy)
    ensures
        ({
            let (next, action) = ReconnectModel::<E>::initial(policy).step(ReconnectEvent::Begin);
            &&& policy.max_attempts > 0 ==> action is LookUpShare && next.phase is LookingUp
                && next.attempts == 1
            &&& policy.max_attempts == 0 ==> action == ReconnectAction::<E>::GiveUp(None)
                && next.phase is Ended
        }),
{
}

/// Each step of an attempt leads to the next: the share is looked up, the
/// request is sent on a share that was replaced, the share is looked up again
/// behind the answer, an object is made on it, and the resource is adopted.
/// A resource that is found on its own share is left as it is. Everything
/// else is ignored.
pub proof fn reconnects_go_step_by_step<E>(model: ReconnectModel<E>, event: ReconnectEvent<E>)
    ensures
        ({
            let (next, action) = model.step(event);
            let moved = ReconnectModel { phase: next.phase, ..model };
            match (model.phase, event) {
                (ReconnectPhase::Sleeping, ReconnectEvent::Slept) => next == moved && next.phase
                    is LookingUp && action is LookUpShare,
                (ReconnectPhase::LookingUp, ReconnectEvent::Share { previous, current }) => {
                    &&& next == moved
                    &&& previous == current ==> next.phase is Ended && action is Done
                    &&& previous != current ==> action is Send && next.phase
                        == (ReconnectPhase::Sent { share: current })
                },
                (ReconnectPhase::Sent { share }, ReconnectEvent::Answered(file_id)) => next == moved
                    && action is LookUpShare && next.phase == (ReconnectPhase::Checking {
                    share,
                    file_id,
                }),
                (
                    ReconnectPhase::Checking { share, file_id },
                    ReconnectEvent::Share { current, .. },
                ) => current == share ==> next == moved && action
                    == ReconnectAction::<E>::MakeObject(share) && next.phase
                    == (ReconnectPhase::Opening { share, file_id }),
                (ReconnectPhase::Opening { share, file_id }, ReconnectEvent::Object(object)) => next
                    == moved && next.phase is Ended && action == ReconnectAction::<E>::Adopt(
                    ResourceGeneration { file_id, object, share },
                ),
                (ReconnectPhase::Idle, ReconnectEvent::Begin) => true,
                (
                    ReconnectPhase::LookingUp
                    | ReconnectPhase::Sent { .. }
                    | ReconnectPhase::Checking { .. }
                    | ReconnectPhase::Opening { .. },
                    ReconnectEvent::Failed(_),
                ) => true,
                _ => next == model && action is Ignore,
            }
        }),
{
}

} // verus!
