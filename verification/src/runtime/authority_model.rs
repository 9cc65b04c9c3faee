//! What the owner of a generation decides about each command and report.

use crate::clock::MonotonicTime;
use crate::protocol::Status;
use crate::runtime::early_responses::{held, held_at, holding, letting_go, one_each, ResponseFacts};
use crate::runtime::error::{RuntimeError, TransportFault, WireFault};
use crate::runtime::frames::{first_place, waits, FrameModel, FramesModel};
use crate::runtime::generation_model::GenerationModel;
use crate::runtime::object_state::RegistryModel;
use crate::runtime::operation::TypedOperation;
use crate::runtime::pending::{
    distinct, effects_applied, ended, known, place, Delivery, OperationOutcome, OperationPending,
};
use crate::runtime::reducer::{CallerOutcome, ReduceEffect, RequestKey, TerminalOutcome};
use crate::runtime::state::{
    AdmissionError, OwnerEffect, OwnerEvent, PreparationPlan, RequestProgress, ResponseEvent,
};
use crate::runtime::waiters::{outcomes_delivered, TerminalDelivery};
use vstd::prelude::*;

verus! {

/// What becomes of a decoded message.
#[derive(Clone, Copy, Debug, PartialEq, Eq, Structural)]
pub enum MessageDecision {
    /// The generation cannot go on.
    Fault(RuntimeError),
    /// An interim answer; the final one is still to come.
    Interim,
    /// The message goes to the operation's waiter.
    Deliver(Delivery),
    /// The message is kept until somebody asks for it.
    Keep,
    /// The operation failed without the message's content; its waiter, if any,
    /// is told.
    Failed(Option<Delivery>),
    /// Nobody needs the message.
    Discard,
    /// The message waits for its operation to be known.
    Hold,
    /// The message goes to the listener for server notifications.
    Notify,
}

#[verifier::ext_equal]
pub struct AuthorityModel {
    pub state: GenerationModel,
    pub objects: RegistryModel,
    /// Callers that wait for the bare outcome of a frame.
    pub terminals: Seq<RequestKey>,
    pub operations: Seq<OperationPending>,
    pub early: Seq<ResponseFacts>,
    pub frames: FramesModel,
    /// Whether somebody listens for server notifications.
    pub notifications: bool,
    pub large_mtu: bool,
    pub target_credits: u32,
    pub fatal: Option<RuntimeError>,
    /// The deadline of the close that was asked for.
    pub close_deadline: Option<MonotonicTime>,
}

/// What an event sends to callers.
#[verifier::ext_equal]
pub struct DeliveriesModel {
    pub operations: Seq<Delivery>,
    pub terminals: Seq<TerminalDelivery>,
}

impl DeliveriesModel {
    pub open spec fn none() -> DeliveriesModel {
        DeliveriesModel { operations: Seq::empty(), terminals: Seq::empty() }
    }

    pub open spec fn then_also(self, further: DeliveriesModel) -> DeliveriesModel {
        DeliveriesModel {
            operations: self.operations + further.operations,
            terminals: self.terminals + further.terminals,
        }
    }
}

/// The request state and the effects after one event.
#[verifier::opaque]
pub open spec fn stepped(state: GenerationModel, event: OwnerEvent) -> (
    GenerationModel,
    Seq<OwnerEffect>,
) {
    state.step(event)
}

/// The request state and the single effect after a request to be admitted.
pub open spec fn admission(
    state: GenerationModel,
    payload_bytes: u64,
    credit_charge: u16,
    caller_deadline: Option<MonotonicTime>,
) -> (GenerationModel, OwnerEffect) {
    let (next, effects) = stepped(
        state,
        OwnerEvent::Admit { payload_bytes, credit_charge, caller_deadline },
    );
    (next, effects[0])
}

/// The credits that a list of operations costs together, if each has a price.
pub open spec fn total_charge(operations: Seq<TypedOperation>, large_mtu: bool) -> Option<nat>
    decreases operations.len(),
{
    if operations.len() == 0 {
        Some(0)
    } else {
        match (
            total_charge(operations.drop_last(), large_mtu),
            operations.last().charge(large_mtu),
        ) {
            (Some(earlier), Ok(charge)) => Some((earlier + charge) as nat),
            _ => None,
        }
    }
}

/// The state after the members of a frame have made the same progress.
pub open spec fn progressed_all(
    state: GenerationModel,
    members: Seq<RequestKey>,
    event: RequestProgress,
) -> GenerationModel
    decreases members.len(),
{
    if members.len() == 0 {
        state
    } else {
        stepped(
            progressed_all(state, members.drop_last(), event),
            OwnerEvent::Request { key: members.last(), event },
        ).0
    }
}

/// The state after the preparation of several requests failed.
pub open spec fn failed_all(state: GenerationModel, keys: Seq<RequestKey>) -> GenerationModel
    decreases keys.len(),
{
    if keys.len() == 0 {
        state
    } else {
        stepped(
            failed_all(state, keys.drop_last()),
            OwnerEvent::PrepareFailed { key: keys.last() },
        ).0
    }
}

/// Two lengths together, as far as a machine word counts.
pub open spec fn added_len(a: nat, b: nat) -> nat {
    if a + b <= usize::MAX {
        a + b
    } else {
        usize::MAX as nat
    }
}

pub open spec fn keys_of(plans: Seq<PreparationPlan>) -> Seq<RequestKey> {
    plans.map_values(|plan: PreparationPlan| plan.key)
}

/// Admits the operations one after the other until one is refused.
pub open spec fn admitted_in_turn(
    state: GenerationModel,
    operations: Seq<TypedOperation>,
    large_mtu: bool,
    deadline: Option<MonotonicTime>,
) -> (GenerationModel, Result<Seq<PreparationPlan>, (Seq<PreparationPlan>, AdmissionError)>)
    decreases operations.len(),
{
    if operations.len() == 0 {
        (state, Ok(Seq::empty()))
    } else {
        match admitted_in_turn(state, operations.drop_last(), large_mtu, deadline) {
            (next, Err(error)) => (next, Err(error)),
            (next, Ok(plans)) => {
                let last = operations.last();
                let charge = last.charge(large_mtu)->Ok_0;
                match admission(next, last.spec_payload_bytes(), charge, deadline) {
                    (after, OwnerEffect::Admitted(plan)) => (after, Ok(plans.push(plan))),
                    (after, OwnerEffect::AdmissionRejected(error)) => (after, Err((plans, error))),
                    (after, _) => (after, Ok(plans)),
                }
            },
        }
    }
}

/// The table entry of an operation that was just admitted.
pub open spec fn entered(key: RequestKey, operation: TypedOperation, waiter: bool) -> OperationPending {
    OperationPending {
        key,
        response: operation.response,
        replay: operation.outgoing.replay,
        wants_raw: operation.outgoing.return_raw_data,
        request_raw: false,
        waiter,
        buffered: None,
        draining: false,
        caller_completed: false,
    }
}

/// What becomes of an operation that asks to be admitted.
pub enum AdmissionVerdict {
    Refused(RuntimeError),
    /// The credits for it are not there yet.
    Waiting,
    Admitted(PreparationPlan),
}

pub enum CompoundVerdict {
    Refused(RuntimeError),
    Waiting,
    Admitted(Seq<PreparationPlan>),
}

/// What becomes of an operation whose frame was prepared.
pub enum PreparedVerdict {
    /// The caller is refused; the waiter, if there is one to tell, fails too.
    Refused { error: RuntimeError, waiter: bool },
    /// The frame waits for the wire, and the raw request is retained or not;
    /// an answer that came early is dealt with.
    Queued { request_raw: bool, early: Option<MessageDecision> },
}

impl AuthorityModel {
    pub open spec fn wf(self) -> bool {
        &&& self.state.wf()
        &&& self.objects.wf()
        &&& self.terminals.no_duplicates()
        &&& distinct(self.operations)
        &&& one_each(self.early)
        &&& forall|k: RequestKey| #[trigger] self.terminals.contains(k) ==> self.state.tracks(k)
        &&& forall|i: int|
            0 <= i < self.operations.len() ==> self.state.tracks(
                (#[trigger] self.operations[i]).key,
            )
    }

    pub open spec fn key_of(self, message_id: u64) -> RequestKey {
        RequestKey { generation: self.state.generation, message_id }
    }

    pub open spec fn faulted(self, error: RuntimeError) -> AuthorityModel {
        AuthorityModel { fatal: Some(error), ..self }
    }

    /// Delivers the effects of one event to the operations and callers they
    /// concern.
    pub open spec fn applied(self, effects: Seq<OwnerEffect>) -> (AuthorityModel, DeliveriesModel) {
        let (operations, deliveries) = effects_applied(self.operations, effects);
        let (terminals, outcomes) = outcomes_delivered(self.terminals, effects);
        (
            AuthorityModel { operations, terminals, ..self },
            DeliveriesModel { operations: deliveries, terminals: outcomes },
        )
    }

    /// Admits a frame that its caller sealed itself.
    pub open spec fn submitted(
        self,
        payload_bytes: u64,
        credit_charge: u16,
        deadline: Option<MonotonicTime>,
    ) -> (AuthorityModel, Result<RequestKey, RuntimeError>) {
        let (state, effect) = admission(self.state, payload_bytes, credit_charge, deadline);
        match effect {
            OwnerEffect::Admitted(plan) => (
                AuthorityModel {
                    state,
                    terminals: self.terminals.push(plan.key),
                    frames: FramesModel {
                        queue: self.frames.queue.push(
                            FrameModel { key: plan.key, members: seq![plan.key] },
                        ),
                        ..self.frames
                    },
                    ..self
                },
                Ok(plan.key),
            ),
            OwnerEffect::AdmissionRejected(error) => (self, Err(RuntimeError::Admission(error))),
            _ => (self, Err(RuntimeError::OwnerTerminated)),
        }
    }

    pub open spec fn operation_admitted(
        self,
        operation: TypedOperation,
        deadline: Option<MonotonicTime>,
        waiter: bool,
    ) -> (AuthorityModel, AdmissionVerdict) {
        let validity = match operation.outgoing.dependency {
            Some(dependency) => self.objects.validated(dependency),
            None => Ok(()),
        };
        if validity is Err {
            (self, AdmissionVerdict::Refused(RuntimeError::Object(validity->Err_0)))
        } else if self.operations.len() >= self.state.limits.max_operations {
            (
                self,
                AdmissionVerdict::Refused(
                    RuntimeError::Admission(AdmissionError::OperationsExhausted),
                ),
            )
        } else {
            match operation.charge(self.large_mtu) {
                Err(_) => (
                    self,
                    AdmissionVerdict::Refused(RuntimeError::Wire(WireFault::CreditCharge)),
                ),
                Ok(charge) => if charge > self.state.available_credits {
                    (self, AdmissionVerdict::Waiting)
                } else {
                    match admission(
                        self.state,
                        operation.spec_payload_bytes(),
                        charge,
                        deadline,
                    ) {
                        (state, OwnerEffect::Admitted(plan)) => (
                            AuthorityModel {
                                state,
                                operations: self.operations.push(
                                    entered(plan.key, operation, waiter),
                                ),
                                ..self
                            },
                            AdmissionVerdict::Admitted(plan),
                        ),
                        (_, OwnerEffect::AdmissionRejected(error)) => (
                            self,
                            AdmissionVerdict::Refused(RuntimeError::Admission(error)),
                        ),
                        _ => (self, AdmissionVerdict::Refused(RuntimeError::OwnerTerminated)),
                    }
                },
            }
        }
    }

    /// Settles an operation whose final answer had these effects: the answer
    /// goes to its waiter or is kept; where the caller was told another outcome
    /// before, it only ends the draining.
    pub open spec fn settled(self, key: RequestKey, effects: Seq<OwnerEffect>) -> (
        AuthorityModel,
        MessageDecision,
        Seq<TerminalDelivery>,
    ) {
        let entry = self.operations[place(self.operations, key)];
        let (terminals, outcomes) = outcomes_delivered(self.terminals, effects);
        let next = AuthorityModel { terminals, ..self };
        if effects.contains(
            OwnerEffect::Request { key, effect: ReduceEffect::Publish(TerminalOutcome::Response) },
        ) {
            let (operations, delivery) = ended(
                self.operations,
                key,
                OperationOutcome::Response { request_raw: false },
            );
            (
                AuthorityModel { operations, ..next },
                match delivery {
                    Some(delivery) => MessageDecision::Deliver(delivery),
                    None => MessageDecision::Keep,
                },
                outcomes,
            )
        } else if entry.draining {
            (
                AuthorityModel {
                    operations: self.operations.remove(place(self.operations, key)),
                    ..next
                },
                MessageDecision::Discard,
                outcomes,
            )
        } else {
            (next, MessageDecision::Discard, outcomes)
        }
    }

    /// Takes an answer to an operation in the table.
    pub open spec fn responded(self, facts: ResponseFacts) -> (
        AuthorityModel,
        MessageDecision,
        Seq<TerminalDelivery>,
    ) {
        let key = self.key_of(facts.message_id);
        let entry = self.operations[place(self.operations, key)];
        let gone = facts.status.says_session_gone();
        let no_operation = RuntimeError::Wire(WireFault::ResponseWithoutOperation);
        let no_async_id = RuntimeError::Wire(WireFault::PendingWithoutAsyncId);
        let false_hint = RuntimeError::Wire(WireFault::InvalidRecoveryHint);
        let broken = RuntimeError::Wire(WireFault::OperationResponseContract);
        if !known(self.operations, key) {
            (self.faulted(no_operation), MessageDecision::Fault(no_operation), Seq::empty())
        } else if facts.status == Status::Pending {
            match facts.async_id {
                None => (
                    self.faulted(no_async_id),
                    MessageDecision::Fault(no_async_id),
                    Seq::empty(),
                ),
                Some(async_id) => (
                    AuthorityModel {
                        state: stepped(
                            self.state,
                            OwnerEvent::Response {
                                key,
                                event: ResponseEvent::Pending { async_id },
                                credit_grant: facts.credit_grant,
                            },
                        ).0,
                        ..self
                    },
                    MessageDecision::Interim,
                    Seq::empty(),
                ),
            }
        } else if facts.recovery_hint && !gone {
            (self.faulted(false_hint), MessageDecision::Fault(false_hint), Seq::empty())
        } else if facts.recovery_hint {
            let (state, effects) = stepped(self.state, OwnerEvent::RecoveryHint { key });
            let (terminals, outcomes) = outcomes_delivered(self.terminals, effects);
            let (operations, delivery) = ended(
                self.operations,
                key,
                OperationOutcome::Failed(
                    RuntimeError::Terminal(TerminalOutcome::SessionInvalidated),
                ),
            );
            (
                AuthorityModel { state, terminals, operations, ..self },
                MessageDecision::Failed(delivery),
                outcomes,
            )
        } else if facts.command != entry.response.command || !(gone || entry.draining
            || facts.is_error || entry.response.statuses.accepts(facts.status)) {
            (self.faulted(broken), MessageDecision::Fault(broken), Seq::empty())
        } else {
            let (state, effects) = stepped(
                self.state,
                OwnerEvent::Response {
                    key,
                    event: ResponseEvent::Final,
                    credit_grant: facts.credit_grant,
                },
            );
            AuthorityModel { state, ..self }.settled(key, effects)
        }
    }

    /// Deals with the answer that came before its operation was known.
    pub open spec fn early_taken(self, key: RequestKey) -> (
        AuthorityModel,
        Option<MessageDecision>,
        Seq<TerminalDelivery>,
    ) {
        if held(self.early, key.message_id) {
            let facts = self.early[held_at(self.early, key.message_id)];
            let (next, decision, outcomes) = AuthorityModel {
                early: letting_go(self.early, key.message_id),
                ..self
            }.responded(facts);
            (next, Some(decision), outcomes)
        } else {
            (self, None, Seq::empty())
        }
    }

    pub open spec fn without_operation(self, key: RequestKey) -> AuthorityModel {
        if known(self.operations, key) {
            AuthorityModel {
                operations: self.operations.remove(place(self.operations, key)),
                ..self
            }
        } else {
            self
        }
    }

    /// The frame of an operation was prepared (`Some`, with whether there is a
    /// raw request) or could not be (`None`). The raw request is retained for
    /// a caller that wants it back.
    pub open spec fn operation_prepared(self, key: RequestKey, prepared: Option<bool>) -> (
        AuthorityModel,
        PreparedVerdict,
        Seq<TerminalDelivery>,
    ) {
        let unprepared = RuntimeError::Wire(WireFault::PrepareOutgoing);
        let missing = RuntimeError::Wire(WireFault::PreparedOperationMissing);
        if !self.state.tracks(key) {
            (
                self.without_operation(key),
                PreparedVerdict::Refused {
                    error: RuntimeError::Terminal(TerminalOutcome::TimedOut),
                    waiter: false,
                },
                Seq::empty(),
            )
        } else {
            match self.state.request(key).lifecycle.caller {
                CallerOutcome::Terminal(outcome) => (
                    self.without_operation(key),
                    PreparedVerdict::Refused {
                        error: RuntimeError::Terminal(outcome),
                        waiter: false,
                    },
                    Seq::empty(),
                ),
                CallerOutcome::Open => match prepared {
                    None => (
                        AuthorityModel {
                            state: stepped(self.state, OwnerEvent::PrepareFailed { key }).0,
                            ..self.without_operation(key)
                        },
                        PreparedVerdict::Refused {
                            error: unprepared,
                            waiter: known(self.operations, key) && self.operations[place(
                                self.operations,
                                key,
                            )].waiter,
                        },
                        Seq::empty(),
                    ),
                    Some(available) => if !known(self.operations, key) {
                        (
                            self.faulted(missing),
                            PreparedVerdict::Refused { error: missing, waiter: false },
                            Seq::empty(),
                        )
                    } else {
                        let i = place(self.operations, key);
                        let request_raw = available && self.operations[i].wants_raw;
                        let (next, early, outcomes) = AuthorityModel {
                            operations: self.operations.update(
                                i,
                                OperationPending { request_raw, ..self.operations[i] },
                            ),
                            frames: FramesModel {
                                queue: self.frames.queue.push(
                                    FrameModel { key, members: seq![key] },
                                ),
                                ..self.frames
                            },
                            ..self
                        }.early_taken(key);
                        (next, PreparedVerdict::Queued { request_raw, early }, outcomes)
                    },
                },
            }
        }
    }

    /// The first dependency of a list that is not active, and why.
    pub open spec fn first_refused(self, operations: Seq<TypedOperation>) -> Option<RuntimeError>
        decreases operations.len(),
    {
        if operations.len() == 0 {
            None
        } else {
            match self.first_refused(operations.drop_last()) {
                Some(error) => Some(error),
                None => match operations.last().outgoing.dependency {
                    None => None,
                    Some(dependency) => match self.objects.validated(dependency) {
                        Ok(_) => None,
                        Err(error) => Some(RuntimeError::Object(error)),
                    },
                },
            }
        }
    }

    /// The table with one entry for each operation of a compound.
    pub open spec fn entered_all(
        self,
        plans: Seq<PreparationPlan>,
        operations: Seq<TypedOperation>,
    ) -> Seq<OperationPending> {
        self.operations + Seq::new(
            operations.len(),
            |i: int| entered(plans[i].key, operations[i], false),
        )
    }

    pub open spec fn compound_admitted(
        self,
        operations: Seq<TypedOperation>,
        deadline: Option<MonotonicTime>,
    ) -> (AuthorityModel, CompoundVerdict) {
        let unpriced = CompoundVerdict::Refused(RuntimeError::Wire(WireFault::CreditCharge));
        if operations.len() == 0 {
            (self, CompoundVerdict::Refused(RuntimeError::Wire(WireFault::EmptyCompound)))
        } else if self.first_refused(operations) is Some {
            (self, CompoundVerdict::Refused(self.first_refused(operations).unwrap()))
        } else if added_len(self.operations.len(), operations.len())
            > self.state.limits.max_operations {
            (
                self,
                CompoundVerdict::Refused(
                    RuntimeError::Admission(AdmissionError::OperationsExhausted),
                ),
            )
        } else {
            match total_charge(operations, self.large_mtu) {
                None => (self, unpriced),
                Some(credits) => if credits > u32::MAX {
                    (self, unpriced)
                } else if credits > self.state.available_credits {
                    (self, CompoundVerdict::Waiting)
                } else {
                    match admitted_in_turn(self.state, operations, self.large_mtu, deadline) {
                        (state, Ok(plans)) => (
                            AuthorityModel {
                                state,
                                operations: self.entered_all(plans, operations),
                                ..self
                            },
                            CompoundVerdict::Admitted(plans),
                        ),
                        (state, Err((plans, error))) => (
                            AuthorityModel { state: failed_all(state, keys_of(plans)), ..self },
                            CompoundVerdict::Refused(RuntimeError::Admission(error)),
                        ),
                    }
                },
            }
        }
    }

    /// Deals, in order, with the answers that came before the operations of a
    /// compound were known.
    pub open spec fn early_taken_all(self, keys: Seq<RequestKey>) -> (
        AuthorityModel,
        Seq<Option<MessageDecision>>,
        Seq<TerminalDelivery>,
    )
        decreases keys.len(),
    {
        if keys.len() == 0 {
            (self, Seq::empty(), Seq::empty())
        } else {
            let (next, decisions, outcomes) = self.early_taken_all(keys.drop_last());
            let (last, decision, further) = next.early_taken(keys.last());
            (last, decisions.push(decision), outcomes + further)
        }
    }

    pub open spec fn without_operations(self, keys: Seq<RequestKey>) -> AuthorityModel
        decreases keys.len(),
    {
        if keys.len() == 0 {
            self
        } else {
            self.without_operations(keys.drop_last()).without_operation(keys.last())
        }
    }

    /// The frame of a compound was prepared, or could not be.
    pub open spec fn compound_prepared(self, keys: Seq<RequestKey>, prepared: bool) -> (
        AuthorityModel,
        Result<Seq<Option<MessageDecision>>, RuntimeError>,
        Seq<TerminalDelivery>,
    ) {
        if prepared {
            let (next, decisions, outcomes) = self.early_taken_all(keys);
            (
                AuthorityModel {
                    frames: FramesModel {
                        queue: next.frames.queue.push(FrameModel { key: keys[0], members: keys }),
                        ..next.frames
                    },
                    ..next
                },
                Ok(decisions),
                outcomes,
            )
        } else {
            (
                AuthorityModel {
                    state: failed_all(self.state, keys),
                    ..self.without_operations(keys)
                },
                Err(RuntimeError::Wire(WireFault::PrepareCompound)),
                Seq::empty(),
            )
        }
    }

    /// Somebody cancels the request `key`.
    pub open spec fn cancelled(self, key: RequestKey, now: MonotonicTime) -> (
        AuthorityModel,
        DeliveriesModel,
    ) {
        let withdrawn = waits(self.frames.queue, key);
        let frames = if withdrawn {
            FramesModel {
                queue: self.frames.queue.remove(first_place(self.frames.queue, key)),
                ..self.frames
            }
        } else {
            self.frames
        };
        let committed = self.state.tracks(key) && self.state.request(
            key,
        ).lifecycle.send.is_committed();
        if withdrawn || committed || !self.frames.writes(key) {
            let (state, effects) = stepped(self.state, OwnerEvent::Cancel { key, now });
            AuthorityModel { state, frames, ..self }.applied(effects)
        } else {
            (
                AuthorityModel {
                    frames: FramesModel {
                        deferred: match frames.deferred {
                            Some(at) => Some(at),
                            None => Some(now),
                        },
                        ..frames
                    },
                    ..self
                },
                DeliveriesModel::none(),
            )
        }
    }

    /// Begins to write the next frame.
    pub open spec fn dispatched(self) -> (AuthorityModel, Option<RequestKey>) {
        if self.frames.active is Some || self.frames.queue.len() == 0 {
            (self, None)
        } else {
            let frame = self.frames.queue[0];
            (
                AuthorityModel {
                    state: progressed_all(self.state, frame.members, RequestProgress::Queued),
                    frames: FramesModel {
                        queue: self.frames.queue.drop_first(),
                        active: Some(frame),
                        deferred: None,
                    },
                    ..self
                },
                Some(frame.key),
            )
        }
    }

    /// Cancels several requests, in order.
    pub open spec fn cancelled_all(self, keys: Seq<RequestKey>, now: MonotonicTime) -> (
        AuthorityModel,
        DeliveriesModel,
    )
        decreases keys.len(),
    {
        if keys.len() == 0 {
            (self, DeliveriesModel::none())
        } else {
            let (earlier, deliveries) = self.cancelled_all(keys.drop_last(), now);
            let (state, effects) = stepped(
                earlier.state,
                OwnerEvent::Cancel { key: keys.last(), now },
            );
            let (next, further) = AuthorityModel { state, ..earlier }.applied(effects);
            (next, deliveries.then_also(further))
        }
    }

    /// The frame `key` was given up before any of it was written.
    pub open spec fn write_cancelled(self, key: RequestKey) -> (AuthorityModel, DeliveriesModel) {
        let now = match self.frames.deferred_for(key) {
            Some(now) => now,
            None => MonotonicTime::origin(),
        };
        AuthorityModel { frames: self.frames.released(key), ..self }.cancelled_all(
            self.frames.members_of(key),
            now,
        )
    }

    /// Decides a cancellation of the frame `key` that was put off.
    pub open spec fn deferred_decided(self, key: RequestKey, deferred: Option<MonotonicTime>) -> (
        AuthorityModel,
        DeliveriesModel,
    ) {
        match deferred {
            Some(now) => {
                let (state, effects) = stepped(self.state, OwnerEvent::Cancel { key, now });
                AuthorityModel { state, ..self }.applied(effects)
            },
            None => (self, DeliveriesModel::none()),
        }
    }

    /// More of the frame `key` was written.
    pub open spec fn write_progressed(self, key: RequestKey, bytes: usize) -> (
        AuthorityModel,
        DeliveriesModel,
    ) {
        AuthorityModel {
            state: progressed_all(
                self.state,
                self.frames.members_of(key),
                RequestProgress::WriteProgress { bytes },
            ),
            frames: self.frames.undeferred(key),
            ..self
        }.deferred_decided(key, self.frames.deferred_for(key))
    }

    /// The frame `key` was written to its end.
    pub open spec fn write_completed(self, key: RequestKey) -> (AuthorityModel, DeliveriesModel) {
        AuthorityModel {
            state: progressed_all(
                self.state,
                self.frames.members_of(key),
                RequestProgress::WriteComplete,
            ),
            frames: self.frames.released(key),
            ..self
        }.deferred_decided(key, self.frames.deferred_for(key))
    }

    /// A decoded message arrived.
    pub open spec fn message_taken(self, facts: ResponseFacts) -> (
        AuthorityModel,
        MessageDecision,
        Seq<TerminalDelivery>,
    ) {
        let overflow = RuntimeError::Wire(WireFault::EarlyResponseOverflowOrDuplicate);
        if known(self.operations, self.key_of(facts.message_id)) {
            self.responded(facts)
        } else if facts.message_id == u64::MAX {
            (
                self,
                if self.notifications {
                    MessageDecision::Notify
                } else {
                    MessageDecision::Discard
                },
                Seq::empty(),
            )
        } else if self.early.len() >= self.state.limits.max_operations {
            (self.faulted(overflow), MessageDecision::Fault(overflow), Seq::empty())
        } else {
            let holding_it = AuthorityModel { early: holding(self.early, facts), ..self };
            if held(self.early, facts.message_id) {
                (holding_it.faulted(overflow), MessageDecision::Fault(overflow), Seq::empty())
            } else {
                (holding_it, MessageDecision::Hold, Seq::empty())
            }
        }
    }

    /// Time advanced; a generation that lost track of the wire cannot go on.
    pub open spec fn time_advanced(self, now: MonotonicTime) -> (AuthorityModel, DeliveriesModel) {
        let (state, effects) = stepped(self.state, OwnerEvent::AdvanceTime { now });
        let (next, deliveries) = AuthorityModel { state, ..self }.applied(effects);
        (
            if state.unhealthy {
                next.faulted(RuntimeError::Transport(TransportFault::GenerationUnhealthy))
            } else {
                next
            },
            deliveries,
        )
    }

    /// The error for whoever is left when the generation ends.
    pub open spec fn final_error(self) -> RuntimeError {
        match self.fatal {
            Some(error) => error,
            None => RuntimeError::Closed,
        }
    }

    /// The generation ends: every object is revoked before any caller learns
    /// of it, then everybody is told.
    pub open spec fn shut_down(self) -> (AuthorityModel, DeliveriesModel) {
        let (state, effects) = stepped(self.state, OwnerEvent::Disconnect);
        AuthorityModel { state, objects: self.objects.lost().0, ..self }.applied(effects)
    }

    /// The operations whose waiters are still to be told when the generation
    /// has ended.
    pub open spec fn left_waiting(operations: Seq<OperationPending>) -> Seq<RequestKey> {
        operations.filter(|entry: OperationPending| entry.waiter).map_values(
            |entry: OperationPending| entry.key,
        )
    }

    /// The connection was negotiated: without large transfers one credit at a
    /// time is all that is asked for.
    pub open spec fn negotiated(self, large_mtu: bool) -> AuthorityModel {
        let target = if large_mtu {
            self.target_credits
        } else {
            1
        };
        AuthorityModel {
            large_mtu,
            state: GenerationModel {
                target_credits: if target == 0 {
                    1
                } else {
                    target
                },
                ..self.state
            },
            ..self
        }
    }
}

} // verus!
