//! The owner of one connection generation.
//!
//! The owner holds every decision about requests, objects, frames and callers.
//! It performs no I/O: the application reads, writes, sleeps and encodes, and
//! reports to the owner, which answers with what is to be done.

use crate::clock::{Duration, MonotonicTime};
use crate::protocol::Status;
use crate::runtime::authority_model::{
    admission, admitted_in_turn, entered, failed_all, keys_of, progressed_all, stepped,
    total_charge, AdmissionVerdict, AuthorityModel, CompoundVerdict, DeliveriesModel, MessageDecision,
    PreparedVerdict,
};
use crate::runtime::early_responses::{one_each, EarlyResponses, ResponseFacts};
use crate::runtime::error::{
    CloseReport, GenerationExit, GenerationExitCause, RuntimeError, TransportError, TransportFault,
    WireFault,
};
use crate::runtime::frames::{waits, Frame, FrameModel, FrameQueue, FramesModel};
use crate::runtime::generation_laws::{
    admitted_ids_are_new, evolution_is_transitive, evolves, history_is_never_rewritten,
    requests_are_never_forgotten,
};
use crate::runtime::generation_model::{open_caller_weight, total, GenerationModel};
use crate::runtime::object_state::{
    ObjectEffect, ObjectError, ObjectKind, ObjectPhase, ObjectRegistry, ObjectToken, RegistryModel,
};
use crate::runtime::operation::TypedOperation;
use crate::runtime::pending::{
    asked, asking_is_within, distinct, effects_are_within, ended, ending_is_within, known, place,
    removing_is_within, within, AwaitDecision, Delivery, OperationOutcome, OperationPending,
    OperationTable,
};
use crate::runtime::reducer::{
    CallerOutcome, GenerationId, ReduceEffect, RequestKey, TerminalOutcome,
};
use crate::runtime::state::{
    AdmissionError, AdmissionLimits, GenerationState, OwnerEffect, OwnerEvent, PreparationPlan,
    RequestProgress, ResponseEvent,
};
use crate::runtime::waiters::{outcomes_delivered, TerminalDelivery, TerminalWaiters};
use vstd::prelude::*;

verus! {

/// What an event sends to callers.
#[derive(Debug)]
pub struct Deliveries {
    pub operations: Vec<Delivery>,
    pub terminals: Vec<TerminalDelivery>,
}

impl View for Deliveries {
    type V = DeliveriesModel;

    open spec fn view(&self) -> DeliveriesModel {
        DeliveriesModel { operations: self.operations@, terminals: self.terminals@ }
    }
}

impl Deliveries {
    pub fn none() -> (deliveries: Self)
        ensures
            deliveries@ == DeliveriesModel::none(),
    {
        Deliveries { operations: Vec::new(), terminals: Vec::new() }
    }

    fn append(&mut self, further: Deliveries)
        ensures
            final(self)@ == old(self)@.then_also(further@),
    {
        let mut further = further;
        self.operations.append(&mut further.operations);
        self.terminals.append(&mut further.terminals);
    }
}

/// The sole authority over the requests of one generation.
pub struct RequestAuthority {
    state: GenerationState,
    objects: ObjectRegistry,
    terminals: TerminalWaiters,
    operations: OperationTable,
    early: EarlyResponses,
    frames: FrameQueue,
    notifications: bool,
    large_mtu: bool,
    target_credits: u32,
    fatal: Option<RuntimeError>,
    close_deadline: Option<MonotonicTime>,
}

impl View for RequestAuthority {
    type V = AuthorityModel;

    closed spec fn view(&self) -> AuthorityModel {
        AuthorityModel {
            state: self.state@,
            objects: self.objects@,
            terminals: self.terminals@,
            operations: self.operations@,
            early: self.early@,
            frames: self.frames@,
            notifications: self.notifications,
            large_mtu: self.large_mtu,
            target_credits: self.target_credits,
            fatal: self.fatal,
            close_deadline: self.close_deadline,
        }
    }
}

/// What becomes of an operation that asks to be admitted.
#[derive(Debug)]
pub enum OperationDecision {
    Refused(RuntimeError),
    /// The credits for it are not there yet; it is handed back.
    Waiting(TypedOperation),
    Admitted(PreparationPlan),
}

/// What becomes of a decoded message, and which other callers it settles.
#[derive(Debug)]
pub struct MessageOutcome {
    pub decision: MessageDecision,
    pub terminals: Vec<TerminalDelivery>,
}

/// A request that the generation did not know waits in no table.
proof fn new_keys_are_unknown(authority: AuthorityModel, key: RequestKey)
    requires
        authority.wf(),
        !authority.state.tracks(key),
    ensures
        !known(authority.operations, key),
{
    if known(authority.operations, key) {
        let i = place(authority.operations, key);
        assert(authority.state.tracks(authority.operations[i].key));
    }
}

/// An authority stays well-formed when its parts do, no request is forgotten,
/// and nobody new waits.
proof fn parts_keep_wf(before: AuthorityModel, after: AuthorityModel)
    requires
        before.wf(),
        after.state.wf(),
        evolves(before.state, after.state),
        after.objects.wf(),
        after.terminals.no_duplicates(),
        forall|k: RequestKey| #[trigger]
            after.terminals.contains(k) ==> before.terminals.contains(k),
        distinct(after.operations),
        within(before.operations, after.operations),
        one_each(after.early),
    ensures
        after.wf(),
{
    assert forall|k: RequestKey| #[trigger] after.terminals.contains(k) implies after.state.tracks(
        k,
    ) by {
        assert(before.terminals.contains(k));
        requests_are_never_forgotten(before.state, after.state, k);
    }
    assert forall|i: int| 0 <= i < after.operations.len() implies after.state.tracks(
        (#[trigger] after.operations[i]).key,
    ) by {
        let key = after.operations[i].key;
        assert(known(before.operations, key));
        let j = place(before.operations, key);
        assert(before.state.tracks(before.operations[j].key));
        requests_are_never_forgotten(before.state, after.state, key);
    }
}

/// A dependency that is refused early in a list decides for the whole list.
proof fn refusal_stays(authority: AuthorityModel, operations: Seq<TypedOperation>, n: int)
    requires
        0 <= n <= operations.len(),
        authority.first_refused(operations.take(n)) is Some,
    ensures
        authority.first_refused(operations) == authority.first_refused(operations.take(n)),
    decreases operations.len() - n,
{
    if n < operations.len() {
        assert(operations.take(n + 1).drop_last() =~= operations.take(n));
        refusal_stays(authority, operations, n + 1);
    } else {
        assert(operations.take(n) =~= operations);
    }
}

/// The price of a list is at least that of its beginning, and a list with an
/// unpriced beginning has no price.
proof fn price_only_grows(operations: Seq<TypedOperation>, large_mtu: bool, n: int)
    requires
        0 <= n <= operations.len(),
    ensures
        total_charge(operations.take(n), large_mtu) is None ==> total_charge(
            operations,
            large_mtu,
        ) is None,
        total_charge(operations, large_mtu) matches Some(all) ==> total_charge(
            operations.take(n),
            large_mtu,
        ) matches Some(some) && some <= all,
    decreases operations.len() - n,
{
    if n < operations.len() {
        assert(operations.take(n + 1).drop_last() =~= operations.take(n));
        price_only_grows(operations, large_mtu, n + 1);
    } else {
        assert(operations.take(n) =~= operations);
    }
}

/// An operation that is refused ends the admission of the whole list.
proof fn refused_in_turn(
    state: GenerationModel,
    operations: Seq<TypedOperation>,
    large_mtu: bool,
    deadline: Option<MonotonicTime>,
    n: int,
)
    requires
        0 <= n <= operations.len(),
        admitted_in_turn(state, operations.take(n), large_mtu, deadline).1 is Err,
    ensures
        admitted_in_turn(state, operations, large_mtu, deadline) == admitted_in_turn(
            state,
            operations.take(n),
            large_mtu,
            deadline,
        ),
    decreases operations.len() - n,
{
    if n < operations.len() {
        assert(operations.take(n + 1).drop_last() =~= operations.take(n));
        refused_in_turn(state, operations, large_mtu, deadline, n + 1);
    } else {
        assert(operations.take(n) =~= operations);
    }
}

/// Every state is a change of itself.
pub proof fn state_evolves_to_itself(state: GenerationModel)
    ensures
        evolves(state, state),
{
}

proof fn operations_are_within_themselves(entries: Seq<OperationPending>)
    ensures
        within(entries, entries),
{
    assert forall|k: int| 0 <= k < entries.len() implies known(
        entries,
        (#[trigger] entries[k]).key,
    ) by {}
}

impl RequestAuthority {
    /// The authority of a fresh generation. Until the connection is negotiated
    /// it aims for a single credit.
    pub fn new(
        generation: GenerationId,
        initial_message_id: u64,
        initial_credits: u32,
        target_credits: u32,
        limits: AdmissionLimits,
        tombstone_drain_timeout: Duration,
    ) -> (authority: Self)
        ensures
            authority@ == (AuthorityModel {
                state: GenerationModel::initial(
                    generation,
                    initial_message_id,
                    initial_credits,
                    1,
                    limits,
                    tombstone_drain_timeout,
                ),
                objects: RegistryModel::initial(generation),
                terminals: Seq::empty(),
                operations: Seq::empty(),
                early: Seq::empty(),
                frames: FramesModel::empty(),
                notifications: false,
                large_mtu: false,
                target_credits,
                fatal: None,
                close_deadline: None,
            }),
            authority@.wf(),
    {
        RequestAuthority {
            state: GenerationState::new(
                generation,
                initial_message_id,
                initial_credits,
                1,
                limits,
                tombstone_drain_timeout,
            ),
            objects: ObjectRegistry::new(generation),
            terminals: TerminalWaiters::new(),
            operations: OperationTable::new(),
            early: EarlyResponses::new(),
            frames: FrameQueue::new(),
            notifications: false,
            large_mtu: false,
            target_credits,
            fatal: None,
            close_deadline: None,
        }
    }

    /// Reduces one event of the request state.
    fn reduce(&mut self, event: OwnerEvent) -> (effects: Vec<OwnerEffect>)
        requires
            old(self)@.wf(),
        ensures
            (final(self)@.state, effects@) == stepped(old(self)@.state, event),
            final(self)@ == (AuthorityModel { state: final(self)@.state, ..old(self)@ }),
            evolves(old(self)@.state, final(self)@.state),
            final(self)@.wf(),
    {
        let effects = self.state.reduce(event);
        proof {
            reveal(stepped);
            history_is_never_rewritten(old(self)@.state, event);
            operations_are_within_themselves(old(self)@.operations);
            parts_keep_wf(old(self)@, self@);
        }
        effects
    }

    /// Asks the request state for an admission.
    fn admit_request(
        &mut self,
        payload_bytes: u64,
        credit_charge: u16,
        deadline: Option<MonotonicTime>,
    ) -> (effect: OwnerEffect)
        requires
            old(self)@.wf(),
        ensures
            (final(self)@.state, effect) == admission(
                old(self)@.state,
                payload_bytes,
                credit_charge,
                deadline,
            ),
            final(self)@ == (AuthorityModel { state: final(self)@.state, ..old(self)@ }),
            final(self)@.wf(),
            effect is Admitted || effect is AdmissionRejected,
            effect is AdmissionRejected ==> final(self)@ == old(self)@,
            evolves(old(self)@.state, final(self)@.state),
            effect matches OwnerEffect::Admitted(plan) ==> {
                &&& !old(self)@.state.tracks(plan.key)
                &&& !known(old(self)@.operations, plan.key)
                &&& !old(self)@.terminals.contains(plan.key)
                &&& final(self)@.state.tracks(plan.key)
            },
    {
        let event = OwnerEvent::Admit { payload_bytes, credit_charge, caller_deadline: deadline };
        let effects = self.reduce(event);
        proof {
            reveal(stepped);
            if effects@[0] is Admitted {
                admitted_ids_are_new(old(self)@.state, payload_bytes, credit_charge, deadline);
                new_keys_are_unknown(old(self)@, effects@[0]->Admitted_0.key);
            }
        }
        effects[0]
    }

    /// Delivers the effects of one event.
    fn apply(&mut self, effects: Vec<OwnerEffect>) -> (deliveries: Deliveries)
        requires
            old(self)@.wf(),
        ensures
            (final(self)@, deliveries@) == old(self)@.applied(effects@),
            final(self)@.wf(),
            evolves(old(self)@.state, final(self)@.state),
    {
        let operations = self.operations.apply_operation_effects(&effects);
        let terminals = self.terminals.apply_owner_effects(&effects);
        proof {
            effects_are_within(old(self)@.operations, effects@);
            state_evolves_to_itself(old(self)@.state);
            parts_keep_wf(old(self)@, self@);
        }
        Deliveries { operations, terminals }
    }

    /// Admits a frame that its caller sealed itself.
    pub fn submit(
        &mut self,
        payload_bytes: u64,
        credit_charge: u16,
        deadline: Option<MonotonicTime>,
    ) -> (key: Result<RequestKey, RuntimeError>)
        requires
            old(self)@.wf(),
        ensures
            (final(self)@, key) == old(self)@.submitted(payload_bytes, credit_charge, deadline),
            final(self)@.wf(),
            evolves(old(self)@.state, final(self)@.state),
    {
        let effect = self.admit_request(payload_bytes, credit_charge, deadline);
        match effect {
            OwnerEffect::Admitted(plan) => {
                let ghost middle = self@;
                self.terminals.push(plan.key);
                self.frames.push(Frame::single(plan.key));
                proof {
                    assert forall|k: RequestKey| #[trigger]
                        self@.terminals.contains(k) implies self@.state.tracks(k) by {
                        let i = choose|i: int|
                            0 <= i < self@.terminals.len() && self@.terminals[i] == k;
                        if i < middle.terminals.len() {
                            assert(middle.terminals[i] == k);
                            assert(middle.terminals.contains(k));
                        }
                    }
                }
                Ok(plan.key)
            },
            OwnerEffect::AdmissionRejected(error) => Err(RuntimeError::Admission(error)),
            _ => Err(RuntimeError::OwnerTerminated),
        }
    }

    /// Admits an operation, unless it must wait for credits, and enters it in
    /// the table.
    pub fn admit_operation(
        &mut self,
        operation: TypedOperation,
        deadline: Option<MonotonicTime>,
        waiter: bool,
    ) -> (decision: OperationDecision)
        requires
            old(self)@.wf(),
        ensures
            final(self)@ == old(self)@.operation_admitted(operation, deadline, waiter).0,
            match (decision, old(self)@.operation_admitted(operation, deadline, waiter).1) {
                (OperationDecision::Refused(told), AdmissionVerdict::Refused(error)) => told
                    == error,
                (OperationDecision::Waiting(back), AdmissionVerdict::Waiting) => back == operation,
                (OperationDecision::Admitted(told), AdmissionVerdict::Admitted(plan)) => told
                    == plan && !old(self)@.state.tracks(plan.key) && final(self)@.state.tracks(
                    plan.key,
                ) && plan.key.generation == old(self)@.state.generation,
                _ => false,
            },
            final(self)@.wf(),
            evolves(old(self)@.state, final(self)@.state),
    {
        if let Some(dependency) = operation.dependency() {
            if let Err(error) = self.objects.validate_active(dependency) {
                return OperationDecision::Refused(RuntimeError::Object(error));
            }
        }
        if self.operations.len() >= self.state.operation_limit() {
            return OperationDecision::Refused(
                RuntimeError::Admission(AdmissionError::OperationsExhausted),
            );
        }
        let payload_bytes: u64 = operation.payload_bytes();
        let credit_charge: u16 = match operation.credit_charge(self.large_mtu) {
            Ok(charge) => charge,
            Err(_) => {
                return OperationDecision::Refused(RuntimeError::Wire(WireFault::CreditCharge));
            },
        };
        if credit_charge as u32 > self.state.available_credits() {
            return OperationDecision::Waiting(operation);
        }
        match self.admit_request(payload_bytes, credit_charge, deadline) {
            OwnerEffect::Admitted(plan) => {
                let replay = operation.replay_policy();
                let wants_raw = operation.outgoing.return_raw_data;
                self.operations.insert(
                    OperationPending {
                        key: plan.key,
                        response: operation.response,
                        replay,
                        wants_raw,
                        request_raw: false,
                        waiter,
                        buffered: None,
                        draining: false,
                        caller_completed: false,
                    },
                );
                OperationDecision::Admitted(plan)
            },
            OwnerEffect::AdmissionRejected(error) => OperationDecision::Refused(
                RuntimeError::Admission(error),
            ),
            _ => OperationDecision::Refused(RuntimeError::OwnerTerminated),
        }
    }

    /// Takes an answer to an operation in the table.
    fn process_decoded_response(&mut self, facts: ResponseFacts) -> (outcome: MessageOutcome)
        requires
            old(self)@.wf(),
        ensures
            (final(self)@, outcome.decision, outcome.terminals@) == old(self)@.responded(facts),
            final(self)@.wf(),
            evolves(old(self)@.state, final(self)@.state),
    {
        let key = RequestKey::new(self.state.generation(), facts.message_id);
        let i: usize = match self.operations.find(key) {
            Some(i) => i,
            None => {
                return self.fault(RuntimeError::Wire(WireFault::ResponseWithoutOperation));
            },
        };
        if facts.status == Status::Pending {
            let async_id: u64 = match facts.async_id {
                Some(async_id) => async_id,
                None => {
                    return self.fault(RuntimeError::Wire(WireFault::PendingWithoutAsyncId));
                },
            };
            let _ = self.reduce(
                OwnerEvent::Response {
                    key,
                    event: ResponseEvent::Pending { async_id },
                    credit_grant: facts.credit_grant,
                },
            );
            return MessageOutcome { decision: MessageDecision::Interim, terminals: Vec::new() };
        }
        let gone = facts.status.session_gone();
        if facts.recovery_hint && !gone {
            return self.fault(RuntimeError::Wire(WireFault::InvalidRecoveryHint));
        }
        if facts.recovery_hint {
            return self.take_recovery_hint(key);
        }
        let draining = self.operations.entry(i).draining;
        let command = self.operations.entry(i).response.wire_command();
        let accepted = gone || draining || facts.is_error || self.operations.entry(
            i,
        ).response.accepts_status(facts.status);
        if facts.command != command || !accepted {
            return self.fault(RuntimeError::Wire(WireFault::OperationResponseContract));
        }
        let effects = self.reduce(
            OwnerEvent::Response {
                key,
                event: ResponseEvent::Final,
                credit_grant: facts.credit_grant,
            },
        );
        self.settle_operation(key, effects, draining)
    }

    /// Records a fault that ends the generation.
    fn fault(&mut self, error: RuntimeError) -> (outcome: MessageOutcome)
        requires
            old(self)@.wf(),
        ensures
            final(self)@ == old(self)@.faulted(error),
            outcome.decision == MessageDecision::Fault(error),
            outcome.terminals@ == Seq::<TerminalDelivery>::empty(),
            final(self)@.wf(),
            evolves(old(self)@.state, final(self)@.state),
    {
        self.fatal = Some(error);
        MessageOutcome { decision: MessageDecision::Fault(error), terminals: Vec::new() }
    }

    fn take_recovery_hint(&mut self, key: RequestKey) -> (outcome: MessageOutcome)
        requires
            old(self)@.wf(),
        ensures
            ({
                let (state, effects) = stepped(old(self)@.state, OwnerEvent::RecoveryHint { key });
                let (terminals, outcomes) = outcomes_delivered(old(self)@.terminals, effects);
                let (operations, delivery) = ended(
                    old(self)@.operations,
                    key,
                    OperationOutcome::Failed(
                        RuntimeError::Terminal(TerminalOutcome::SessionInvalidated),
                    ),
                );
                &&& final(self)@ == (AuthorityModel { state, terminals, operations, ..old(self)@ })
                &&& outcome.decision == MessageDecision::Failed(delivery)
                &&& outcome.terminals@ == outcomes
            }),
            final(self)@.wf(),
            evolves(old(self)@.state, final(self)@.state),
    {
        let effects = self.reduce(OwnerEvent::RecoveryHint { key });
        let ghost hinted = self@;
        let terminals = self.terminals.apply_owner_effects(&effects);
        let failed = OperationOutcome::Failed(
            RuntimeError::Terminal(TerminalOutcome::SessionInvalidated),
        );
        let delivery = self.operations.complete_operation(key, failed);
        proof {
            state_evolves_to_itself(hinted.state);
            ending_is_within(hinted.operations, key, failed);
            parts_keep_wf(hinted, self@);
        }
        MessageOutcome { decision: MessageDecision::Failed(delivery), terminals }
    }

    /// Settles an operation whose final answer had these effects.
    fn settle_operation(&mut self, key: RequestKey, effects: Vec<OwnerEffect>, draining: bool) -> (outcome:
        MessageOutcome)
        requires
            old(self)@.wf(),
            known(old(self)@.operations, key),
            draining == old(self)@.operations[place(old(self)@.operations, key)].draining,
        ensures
            (final(self)@, outcome.decision, outcome.terminals@) == old(self)@.settled(
                key,
                effects@,
            ),
            final(self)@.wf(),
            evolves(old(self)@.state, final(self)@.state),
    {
        let published = publishes_response(&effects, key);
        let terminals = self.terminals.apply_owner_effects(&effects);
        proof {
            state_evolves_to_itself(old(self)@.state);
            operations_are_within_themselves(old(self)@.operations);
            ending_is_within(
                old(self)@.operations,
                key,
                OperationOutcome::Response { request_raw: false },
            );
            removing_is_within(old(self)@.operations, key);
        }
        let decision = if published {
            match self.operations.complete_operation(
                key,
                OperationOutcome::Response { request_raw: false },
            ) {
                Some(delivery) => MessageDecision::Deliver(delivery),
                None => MessageDecision::Keep,
            }
        } else {
            if draining {
                let _ = self.operations.remove(key);
            }
            MessageDecision::Discard
        };
        proof {
            parts_keep_wf(old(self)@, self@);
        }
        MessageOutcome { decision, terminals }
    }

    /// A decoded message arrived.
    pub fn take_message(&mut self, facts: ResponseFacts) -> (outcome: MessageOutcome)
        requires
            old(self)@.wf(),
        ensures
            (final(self)@, outcome.decision, outcome.terminals@) == old(self)@.message_taken(facts),
            final(self)@.wf(),
            evolves(old(self)@.state, final(self)@.state),
    {
        let key = RequestKey::new(self.state.generation(), facts.message_id);
        if self.operations.find(key).is_some() {
            return self.process_decoded_response(facts);
        }
        if facts.message_id == u64::MAX {
            let decision = if self.notifications {
                MessageDecision::Notify
            } else {
                MessageDecision::Discard
            };
            return MessageOutcome { decision, terminals: Vec::new() };
        }
        let overflow = RuntimeError::Wire(WireFault::EarlyResponseOverflowOrDuplicate);
        if self.early.len() >= self.state.operation_limit() {
            return self.fault(overflow);
        }
        if self.early.hold(facts) {
            return self.fault(overflow);
        }
        MessageOutcome { decision: MessageDecision::Hold, terminals: Vec::new() }
    }

    /// Deals with the answer that came before its operation was known.
    fn take_early(&mut self, key: RequestKey) -> (outcome: Option<MessageOutcome>)
        requires
            old(self)@.wf(),
        ensures
            final(self)@ == old(self)@.early_taken(key).0,
            match (outcome, old(self)@.early_taken(key).1) {
                (Some(told), Some(decision)) => told.decision == decision && told.terminals@
                    == old(self)@.early_taken(key).2,
                (None, None) => old(self)@.early_taken(key).2 == Seq::<TerminalDelivery>::empty(),
                _ => false,
            },
            final(self)@.wf(),
            evolves(old(self)@.state, final(self)@.state),
    {
        match self.early.take(key.message_id) {
            Some(facts) => Some(self.process_decoded_response(facts)),
            None => None,
        }
    }

    /// Takes an operation out of the table.
    fn forget_operation(&mut self, key: RequestKey) -> (entry: Option<OperationPending>)
        requires
            old(self)@.wf(),
        ensures
            final(self)@ == old(self)@.without_operation(key),
            entry == if known(old(self)@.operations, key) {
                Some(old(self)@.operations[place(old(self)@.operations, key)])
            } else {
                None::<OperationPending>
            },
            final(self)@.wf(),
            evolves(old(self)@.state, final(self)@.state),
    {
        let entry = self.operations.remove(key);
        proof {
            state_evolves_to_itself(old(self)@.state);
            operations_are_within_themselves(old(self)@.operations);
            removing_is_within(old(self)@.operations, key);
            parts_keep_wf(old(self)@, self@);
        }
        entry
    }

    /// The frame of an operation was prepared (`Some`, with whether the raw
    /// request is retained) or could not be (`None`).
    pub fn finish_prepared_operation(&mut self, key: RequestKey, prepared: Option<bool>) -> (decision:
        PreparedDecision)
        requires
            old(self)@.wf(),
        ensures
            final(self)@ == old(self)@.operation_prepared(key, prepared).0,
            match (decision, old(self)@.operation_prepared(key, prepared).1) {
                (
                    PreparedDecision::Refused { error, waiter },
                    PreparedVerdict::Refused { error: e, waiter: w },
                ) => error == e && waiter == w && old(self)@.operation_prepared(key, prepared).2
                    == Seq::<TerminalDelivery>::empty(),
                (
                    PreparedDecision::Queued { request_raw, early },
                    PreparedVerdict::Queued { request_raw: r, early: e },
                ) => request_raw == r && match (early, e) {
                    (Some(outcome), Some(told)) => outcome.decision == told && outcome.terminals@
                        == old(self)@.operation_prepared(key, prepared).2,
                    (None, None) => old(self)@.operation_prepared(key, prepared).2
                        == Seq::<TerminalDelivery>::empty(),
                    _ => false,
                },
                _ => false,
            },
            final(self)@.wf(),
            evolves(old(self)@.state, final(self)@.state),
    {
        let caller = match self.state.request(key) {
            Some(record) => record.caller(),
            None => {
                let _ = self.forget_operation(key);
                return PreparedDecision::Refused {
                    error: RuntimeError::Terminal(TerminalOutcome::TimedOut),
                    waiter: false,
                };
            },
        };
        if let CallerOutcome::Terminal(outcome) = caller {
            let _ = self.forget_operation(key);
            return PreparedDecision::Refused {
                error: RuntimeError::Terminal(outcome),
                waiter: false,
            };
        }
        let available: bool = match prepared {
            Some(available) => available,
            None => {
                let _ = self.reduce(OwnerEvent::PrepareFailed { key });
                let waiter = match self.forget_operation(key) {
                    Some(entry) => entry.waiter,
                    None => false,
                };
                return PreparedDecision::Refused {
                    error: RuntimeError::Wire(WireFault::PrepareOutgoing),
                    waiter,
                };
            },
        };
        let request_raw: bool = match self.operations.retain_raw(key, available) {
            Some(request_raw) => request_raw,
            None => {
                let error = RuntimeError::Wire(WireFault::PreparedOperationMissing);
                let _ = self.fault(error);
                return PreparedDecision::Refused { error, waiter: false };
            },
        };
        proof {
            let entries = old(self)@.operations;
            let i = place(entries, key);
            assert forall|k: int| 0 <= k < self@.operations.len() implies known(
                entries,
                (#[trigger] self@.operations[k]).key,
            ) by {
                assert(entries[k].key == self@.operations[k].key);
            }
            state_evolves_to_itself(old(self)@.state);
            parts_keep_wf(old(self)@, self@);
        }
        self.frames.push(Frame::single(key));
        let early = self.take_early(key);
        PreparedDecision::Queued { request_raw, early }
    }

    /// The first dependency of a compound that is not active, and why.
    fn refused_dependency(&self, operations: &Vec<TypedOperation>) -> (error: Option<RuntimeError>)
        requires
            self@.wf(),
        ensures
            error == self@.first_refused(operations@),
    {
        let mut i: usize = 0;
        while i < operations.len()
            invariant
                i <= operations@.len(),
                self@.wf(),
                self@.objects == self.objects@,
                self@.first_refused(operations@.take(i as int)) is None,
            decreases operations@.len() - i,
        {
            proof {
                assert(operations@.take(i + 1).drop_last() =~= operations@.take(i as int));
            }
            if let Some(dependency) = operations[i].dependency() {
                if let Err(error) = self.objects.validate_active(dependency) {
                    proof {
                        refusal_stays(self@, operations@, i + 1);
                    }
                    return Some(RuntimeError::Object(error));
                }
            }
            i += 1;
        }
        proof {
            assert(operations@.take(i as int) =~= operations@);
        }
        None
    }

    /// The credits that a compound costs, if each part has a price and they
    /// can be counted.
    fn compound_charge(&self, operations: &Vec<TypedOperation>) -> (credits: Option<u32>)
        ensures
            credits == match total_charge(operations@, self@.large_mtu) {
                Some(credits) => if credits <= u32::MAX {
                    Some(credits as u32)
                } else {
                    None::<u32>
                },
                None => None,
            },
    {
        let mut credits: u32 = 0;
        let mut i: usize = 0;
        while i < operations.len()
            invariant
                i <= operations@.len(),
                self@.large_mtu == self.large_mtu,
                total_charge(operations@.take(i as int), self@.large_mtu) == Some(credits as nat),
            decreases operations@.len() - i,
        {
            proof {
                assert(operations@.take(i + 1).drop_last() =~= operations@.take(i as int));
            }
            let charge: u16 = match operations[i].credit_charge(self.large_mtu) {
                Ok(charge) => charge,
                Err(_) => {
                    proof {
                        price_only_grows(operations@, self@.large_mtu, i + 1);
                    }
                    return None;
                },
            };
            credits = match credits.checked_add(charge as u32) {
                Some(credits) => credits,
                None => {
                    proof {
                        price_only_grows(operations@, self@.large_mtu, i + 1);
                    }
                    return None;
                },
            };
            i += 1;
        }
        proof {
            assert(operations@.take(i as int) =~= operations@);
        }
        Some(credits)
    }

    /// Takes back the reservations of several requests.
    fn fail_preparations(&mut self, plans: &Vec<PreparationPlan>)
        requires
            old(self)@.wf(),
        ensures
            final(self)@ == (AuthorityModel {
                state: failed_all(old(self)@.state, keys_of(plans@)),
                ..old(self)@
            }),
            final(self)@.wf(),
            evolves(old(self)@.state, final(self)@.state),
    {
        let ghost keys = keys_of(plans@);
        proof {
            state_evolves_to_itself(old(self)@.state);
        }
        let mut i: usize = 0;
        while i < plans.len()
            invariant
                i <= plans@.len(),
                keys == keys_of(plans@),
                self@.wf(),
                evolves(old(self)@.state, self@.state),
                self@ == (AuthorityModel {
                    state: failed_all(old(self)@.state, keys.take(i as int)),
                    ..old(self)@
                }),
            decreases plans@.len() - i,
        {
            let ghost reached = self@.state;
            proof {
                assert(keys.take(i + 1).drop_last() =~= keys.take(i as int));
            }
            let _ = self.reduce(OwnerEvent::PrepareFailed { key: plans[i].key });
            proof {
                evolution_is_transitive(old(self)@.state, reached, self@.state);
            }
            i += 1;
        }
        proof {
            assert(keys.take(i as int) =~= keys);
        }
    }

    /// Admits the operations of a compound, all or none, unless they must wait
    /// for credits, and enters them in the table.
    pub fn admit_compound(
        &mut self,
        operations: Vec<TypedOperation>,
        deadline: Option<MonotonicTime>,
    ) -> (decision: CompoundDecision)
        requires
            old(self)@.wf(),
        ensures
            final(self)@ == old(self)@.compound_admitted(operations@, deadline).0,
            match (decision, old(self)@.compound_admitted(operations@, deadline).1) {
                (CompoundDecision::Refused(told), CompoundVerdict::Refused(error)) => told == error,
                (CompoundDecision::Waiting(back), CompoundVerdict::Waiting) => back == operations,
                (CompoundDecision::Admitted(told), CompoundVerdict::Admitted(plans)) => told@
                    == plans,
                _ => false,
            },
            final(self)@.wf(),
            evolves(old(self)@.state, final(self)@.state),
    {
        if operations.len() == 0 {
            return CompoundDecision::Refused(RuntimeError::Wire(WireFault::EmptyCompound));
        }
        if let Some(error) = self.refused_dependency(&operations) {
            return CompoundDecision::Refused(error);
        }
        if self.operations.len().saturating_add(operations.len()) > self.state.operation_limit() {
            return CompoundDecision::Refused(
                RuntimeError::Admission(AdmissionError::OperationsExhausted),
            );
        }
        let credits: u32 = match self.compound_charge(&operations) {
            Some(credits) => credits,
            None => {
                return CompoundDecision::Refused(RuntimeError::Wire(WireFault::CreditCharge));
            },
        };
        if credits > self.state.available_credits() {
            return CompoundDecision::Waiting(operations);
        }
        match self.admit_in_turn(&operations, deadline) {
            Ok(plans) => {
                self.enter_all(&plans, operations);
                CompoundDecision::Admitted(plans)
            },
            Err((plans, error)) => {
                self.fail_preparations(&plans);
                CompoundDecision::Refused(RuntimeError::Admission(error))
            },
        }
    }

    /// Admits the operations one after the other until one is refused.
    fn admit_in_turn(
        &mut self,
        operations: &Vec<TypedOperation>,
        deadline: Option<MonotonicTime>,
    ) -> (plans: Result<Vec<PreparationPlan>, (Vec<PreparationPlan>, AdmissionError)>)
        requires
            old(self)@.wf(),
            total_charge(operations@, old(self)@.large_mtu) is Some,
        ensures
            ({
                let (state, told) = admitted_in_turn(
                    old(self)@.state,
                    operations@,
                    old(self)@.large_mtu,
                    deadline,
                );
                &&& final(self)@ == (AuthorityModel { state, ..old(self)@ })
                &&& match (plans, told) {
                    (Ok(made), Ok(expected)) => made@ == expected,
                    (Err(made), Err(expected)) => made.0@ == expected.0 && made.1 == expected.1,
                    _ => false,
                }
            }),
            plans matches Ok(made) ==> {
                &&& made@.len() == operations@.len()
                &&& forall|i: int|
                    0 <= i < made@.len() ==> !known(
                        old(self)@.operations,
                        (#[trigger] made@[i]).key,
                    ) && final(self)@.state.tracks(made@[i].key)
                &&& forall|i: int, j: int|
                    0 <= i < j < made@.len() ==> (#[trigger] made@[i]).key != (
                    #[trigger] made@[j]).key
            },
            final(self)@.wf(),
            evolves(old(self)@.state, final(self)@.state),
    {
        let mut plans: Vec<PreparationPlan> = Vec::new();
        proof {
            state_evolves_to_itself(old(self)@.state);
        }
        let mut i: usize = 0;
        while i < operations.len()
            invariant
                i <= operations@.len(),
                self@.wf(),
                evolves(old(self)@.state, self@.state),
                self@.large_mtu == self.large_mtu,
                self@ == (AuthorityModel { state: self@.state, ..old(self)@ }),
                total_charge(operations@, self@.large_mtu) is Some,
                plans@.len() == i,
                (self@.state, Ok::<_, (Seq<PreparationPlan>, AdmissionError)>(plans@))
                    == admitted_in_turn(
                    old(self)@.state,
                    operations@.take(i as int),
                    self@.large_mtu,
                    deadline,
                ),
                forall|k: int|
                    0 <= k < plans@.len() ==> !known(
                        self@.operations,
                        (#[trigger] plans@[k]).key,
                    ) && self@.state.tracks(plans@[k].key),
                forall|a: int, b: int|
                    0 <= a < b < plans@.len() ==> (#[trigger] plans@[a]).key != (
                    #[trigger] plans@[b]).key,
            decreases operations@.len() - i,
        {
            let ghost reached = self@.state;
            proof {
                assert(operations@.take(i + 1).drop_last() =~= operations@.take(i as int));
                price_only_grows(operations@, self@.large_mtu, i + 1);
            }
            let payload_bytes: u64 = operations[i].payload_bytes();
            let charge: u16 = match operations[i].credit_charge(self.large_mtu) {
                Ok(charge) => charge,
                Err(_) => 1,
            };
            let ghost before = self@;
            let ghost earlier = plans@;
            match self.admit_request(payload_bytes, charge, deadline) {
                OwnerEffect::Admitted(plan) => {
                    proof {
                        assert forall|k: int| 0 <= k < earlier.len() implies self@.state.tracks(
                            (#[trigger] earlier[k]).key,
                        ) && earlier[k].key != plan.key by {
                            assert(before.state.tracks(earlier[k].key));
                            requests_are_never_forgotten(
                                before.state,
                                self@.state,
                                earlier[k].key,
                            );
                        }
                    }
                    plans.push(plan);
                },
                OwnerEffect::AdmissionRejected(error) => {
                    proof {
                        refused_in_turn(
                            old(self)@.state,
                            operations@,
                            self@.large_mtu,
                            deadline,
                            i + 1,
                        );
                    }
                    return Err((plans, error));
                },
                _ => {},
            }
            proof {
                evolution_is_transitive(old(self)@.state, reached, self@.state);
            }
            i += 1;
        }
        proof {
            assert(operations@.take(i as int) =~= operations@);
        }
        Ok(plans)
    }

    /// Enters the operations of an admitted compound in the table.
    fn enter_all(&mut self, plans: &Vec<PreparationPlan>, operations: Vec<TypedOperation>)
        requires
            old(self)@.wf(),
            plans@.len() == operations@.len(),
            forall|i: int|
                0 <= i < plans@.len() ==> !known(
                    old(self)@.operations,
                    (#[trigger] plans@[i]).key,
                ) && old(self)@.state.tracks(plans@[i].key),
            forall|i: int, j: int|
                0 <= i < j < plans@.len() ==> (#[trigger] plans@[i]).key != (
                #[trigger] plans@[j]).key,
        ensures
            final(self)@ == (AuthorityModel {
                operations: old(self)@.entered_all(plans@, operations@),
                ..old(self)@
            }),
            final(self)@.wf(),
            evolves(old(self)@.state, final(self)@.state),
    {
        let ghost table = old(self)@.operations;
        let ghost all = operations@;
        let mut rest = operations;
        let mut i: usize = 0;
        while i < plans.len()
            invariant
                i <= plans@.len(),
                plans@.len() == all.len(),
                rest@ == all.skip(i as int),
                self@.wf(),
                table == old(self)@.operations,
                self@ == (AuthorityModel { operations: self@.operations, ..old(self)@ }),
                self@.operations == table + Seq::new(
                    i as nat,
                    |k: int| entered(plans@[k].key, all[k], false),
                ),
                forall|k: int|
                    0 <= k < plans@.len() ==> !known(table, (#[trigger] plans@[k]).key)
                        && self@.state.tracks(plans@[k].key),
                forall|a: int, b: int|
                    0 <= a < b < plans@.len() ==> (#[trigger] plans@[a]).key != (
                    #[trigger] plans@[b]).key,
            decreases plans@.len() - i,
        {
            let ghost entries = self@.operations;
            let operation = rest.remove(0);
            let key = plans[i].key;
            proof {
                assert(rest@ =~= all.skip(i + 1));
                assert(operation == all[i as int]);
                if known(entries, key) {
                    let p = place(entries, key);
                    if p < table.len() {
                        assert(table[p].key == key);
                    } else {
                        assert(entries[p].key == plans@[p - table.len()].key);
                        assert(plans@[p - table.len()].key != plans@[i as int].key);
                    }
                }
            }
            let replay = operation.replay_policy();
            let wants_raw = operation.outgoing.return_raw_data;
            self.operations.insert(
                OperationPending {
                    key,
                    response: operation.response,
                    replay,
                    wants_raw,
                    request_raw: false,
                    waiter: false,
                    buffered: None,
                    draining: false,
                    caller_completed: false,
                },
            );
            i += 1;
            proof {
                assert(self@.operations =~= table + Seq::new(
                    i as nat,
                    |k: int| entered(plans@[k].key, all[k], false),
                ));
            }
        }
        proof {
            assert(self@.operations =~= old(self)@.entered_all(plans@, all));
        }
    }

    /// The frame of an admitted compound was prepared, or could not be. The
    /// answers that came early are dealt with in the order of the keys.
    pub fn finish_prepared_compound(&mut self, keys: Vec<RequestKey>, prepared: bool) -> (decision:
        Result<Vec<Option<MessageOutcome>>, RuntimeError>)
        requires
            old(self)@.wf(),
            keys@.len() > 0,
        ensures
            final(self)@ == old(self)@.compound_prepared(keys@, prepared).0,
            match (decision, old(self)@.compound_prepared(keys@, prepared).1) {
                (Ok(told), Ok(expected)) => told_in_order(told@, expected) && terminals_of(told@)
                    == old(self)@.compound_prepared(keys@, prepared).2,
                (Err(told), Err(expected)) => told == expected,
                _ => false,
            },
            final(self)@.wf(),
            evolves(old(self)@.state, final(self)@.state),
    {
        if prepared {
            let outcomes = self.take_all_early(&keys);
            let key = keys[0];
            self.frames.push(Frame { key, members: keys });
            Ok(outcomes)
        } else {
            self.abandon_all(&keys);
            Err(RuntimeError::Wire(WireFault::PrepareCompound))
        }
    }

    fn take_all_early(&mut self, keys: &Vec<RequestKey>) -> (outcomes: Vec<Option<MessageOutcome>>)
        requires
            old(self)@.wf(),
        ensures
            final(self)@ == old(self)@.early_taken_all(keys@).0,
            told_in_order(outcomes@, old(self)@.early_taken_all(keys@).1),
            terminals_of(outcomes@) == old(self)@.early_taken_all(keys@).2,
            final(self)@.wf(),
            evolves(old(self)@.state, final(self)@.state),
    {
        let mut outcomes: Vec<Option<MessageOutcome>> = Vec::new();
        proof {
            state_evolves_to_itself(old(self)@.state);
        }
        let mut i: usize = 0;
        while i < keys.len()
            invariant
                i <= keys@.len(),
                self@.wf(),
                evolves(old(self)@.state, self@.state),
                self@ == old(self)@.early_taken_all(keys@.take(i as int)).0,
                told_in_order(outcomes@, old(self)@.early_taken_all(keys@.take(i as int)).1),
                terminals_of(outcomes@) == old(self)@.early_taken_all(keys@.take(i as int)).2,
            decreases keys@.len() - i,
        {
            let ghost reached = self@.state;
            proof {
                assert(keys@.take(i + 1).drop_last() =~= keys@.take(i as int));
            }
            let ghost earlier = outcomes@;
            let outcome = self.take_early(keys[i]);
            outcomes.push(outcome);
            proof {
                evolution_is_transitive(old(self)@.state, reached, self@.state);
            }
            i += 1;
            proof {
                assert(outcomes@.drop_last() =~= earlier);
            }
        }
        proof {
            assert(keys@.take(i as int) =~= keys@);
        }
        outcomes
    }

    /// Takes back the reservations of a compound and forgets its operations.
    fn abandon_all(&mut self, keys: &Vec<RequestKey>)
        requires
            old(self)@.wf(),
        ensures
            final(self)@ == (AuthorityModel {
                state: failed_all(old(self)@.state, keys@),
                ..old(self)@.without_operations(keys@)
            }),
            final(self)@.wf(),
            evolves(old(self)@.state, final(self)@.state),
    {
        proof {
            state_evolves_to_itself(old(self)@.state);
        }
        let mut i: usize = 0;
        while i < keys.len()
            invariant
                i <= keys@.len(),
                self@.wf(),
                evolves(old(self)@.state, self@.state),
                self@ == (AuthorityModel {
                    state: failed_all(old(self)@.state, keys@.take(i as int)),
                    ..old(self)@.without_operations(keys@.take(i as int))
                }),
            decreases keys@.len() - i,
        {
            let ghost reached = self@.state;
            proof {
                assert(keys@.take(i + 1).drop_last() =~= keys@.take(i as int));
            }
            let _ = self.reduce(OwnerEvent::PrepareFailed { key: keys[i] });
            let _ = self.forget_operation(keys[i]);
            proof {
                evolution_is_transitive(old(self)@.state, reached, self@.state);
            }
            i += 1;
        }
        proof {
            assert(keys@.take(i as int) =~= keys@);
        }
    }

    /// Somebody asks for the result of an operation.
    pub fn await_operation(&mut self, key: RequestKey) -> (decision: AwaitDecision)
        requires
            old(self)@.wf(),
        ensures
            ({
                let (operations, told) = asked(old(self)@.operations, key);
                &&& final(self)@ == (AuthorityModel { operations, ..old(self)@ })
                &&& decision == told
            }),
            final(self)@.wf(),
            evolves(old(self)@.state, final(self)@.state),
    {
        let decision = self.operations.await_operation(key);
        proof {
            asking_is_within(old(self)@.operations, key);
            state_evolves_to_itself(old(self)@.state);
            parts_keep_wf(old(self)@, self@);
        }
        decision
    }

    /// Somebody cancels the request `key`.
    pub fn cancel(&mut self, key: RequestKey, now: MonotonicTime) -> (decision: CancelDecision)
        requires
            old(self)@.wf(),
        ensures
            decision.withdrawn == waits(old(self)@.frames.queue, key),
            decision.signal_active == old(self)@.frames.writes(key),
            (final(self)@, decision.deliveries@) == old(self)@.cancelled(key, now),
            final(self)@.wf(),
            evolves(old(self)@.state, final(self)@.state),
    {
        let withdrawn = self.frames.withdraw(key);
        let signal_active = self.frames.writes(key);
        let committed = match self.state.request(key) {
            Some(record) => record.wire_committed(),
            None => false,
        };
        let deliveries = if withdrawn || committed || !signal_active {
            let effects = self.reduce(OwnerEvent::Cancel { key, now });
            self.apply(effects)
        } else {
            self.frames.defer(key, now);
            Deliveries::none()
        };
        CancelDecision { withdrawn, signal_active, deliveries }
    }

    /// Begins to write the next frame, if none is being written, and returns
    /// its name.
    pub fn dispatch_next(&mut self) -> (key: Option<RequestKey>)
        requires
            old(self)@.wf(),
        ensures
            (final(self)@, key) == old(self)@.dispatched(),
            final(self)@.wf(),
            evolves(old(self)@.state, final(self)@.state),
    {
        let key = match self.frames.begin() {
            Some(key) => key,
            None => {
                return None;
            },
        };
        let members = self.frames.members_of(key);
        self.progress_all(&members, RequestProgress::Queued);
        Some(key)
    }

    /// Reports the same progress for all members of a frame.
    fn progress_all(&mut self, members: &Vec<RequestKey>, event: RequestProgress)
        requires
            old(self)@.wf(),
        ensures
            final(self)@ == (AuthorityModel {
                state: progressed_all(old(self)@.state, members@, event),
                ..old(self)@
            }),
            final(self)@.wf(),
            evolves(old(self)@.state, final(self)@.state),
    {
        proof {
            state_evolves_to_itself(old(self)@.state);
        }
        let mut i: usize = 0;
        while i < members.len()
            invariant
                i <= members@.len(),
                self@.wf(),
                evolves(old(self)@.state, self@.state),
                self@ == (AuthorityModel {
                    state: progressed_all(old(self)@.state, members@.take(i as int), event),
                    ..old(self)@
                }),
            decreases members@.len() - i,
        {
            let ghost reached = self@.state;
            proof {
                assert(members@.take(i + 1).drop_last() =~= members@.take(i as int));
            }
            let _ = self.reduce(OwnerEvent::Request { key: members[i], event });
            proof {
                evolution_is_transitive(old(self)@.state, reached, self@.state);
            }
            i += 1;
        }
        proof {
            assert(members@.take(i as int) =~= members@);
        }
    }

    /// Cancels several requests, in order.
    fn cancel_all(&mut self, keys: &Vec<RequestKey>, now: MonotonicTime) -> (deliveries: Deliveries)
        requires
            old(self)@.wf(),
        ensures
            (final(self)@, deliveries@) == old(self)@.cancelled_all(keys@, now),
            final(self)@.wf(),
            evolves(old(self)@.state, final(self)@.state),
    {
        let mut deliveries = Deliveries::none();
        proof {
            state_evolves_to_itself(old(self)@.state);
        }
        let mut i: usize = 0;
        while i < keys.len()
            invariant
                i <= keys@.len(),
                self@.wf(),
                evolves(old(self)@.state, self@.state),
                (self@, deliveries@) == old(self)@.cancelled_all(keys@.take(i as int), now),
            decreases keys@.len() - i,
        {
            let ghost reached = self@.state;
            proof {
                assert(keys@.take(i + 1).drop_last() =~= keys@.take(i as int));
            }
            let effects = self.reduce(OwnerEvent::Cancel { key: keys[i], now });
            let further = self.apply(effects);
            deliveries.append(further);
            proof {
                evolution_is_transitive(old(self)@.state, reached, self@.state);
            }
            i += 1;
        }
        proof {
            assert(keys@.take(i as int) =~= keys@);
        }
        deliveries
    }

    /// The frame `key` was given up before any of it was written.
    pub fn write_cancelled(&mut self, key: RequestKey) -> (deliveries: Deliveries)
        requires
            old(self)@.wf(),
        ensures
            (final(self)@, deliveries@) == old(self)@.write_cancelled(key),
            final(self)@.wf(),
            evolves(old(self)@.state, final(self)@.state),
    {
        let members = self.frames.members_of(key);
        let now = match self.frames.take_deferred(key) {
            Some(now) => now,
            None => MonotonicTime::zero(),
        };
        self.frames.release(key);
        self.cancel_all(&members, now)
    }

    /// Decides a cancellation of the frame `key` that was put off.
    fn decide_deferred(&mut self, key: RequestKey, deferred: Option<MonotonicTime>) -> (deliveries:
        Deliveries)
        requires
            old(self)@.wf(),
        ensures
            (final(self)@, deliveries@) == old(self)@.deferred_decided(key, deferred),
            final(self)@.wf(),
            evolves(old(self)@.state, final(self)@.state),
    {
        match deferred {
            Some(now) => {
                let effects = self.reduce(OwnerEvent::Cancel { key, now });
                self.apply(effects)
            },
            None => Deliveries::none(),
        }
    }

    /// More of the frame `key` was written.
    pub fn write_progress(&mut self, key: RequestKey, bytes: usize) -> (deliveries: Deliveries)
        requires
            old(self)@.wf(),
        ensures
            (final(self)@, deliveries@) == old(self)@.write_progressed(key, bytes),
            final(self)@.wf(),
            evolves(old(self)@.state, final(self)@.state),
    {
        let members = self.frames.members_of(key);
        self.progress_all(&members, RequestProgress::WriteProgress { bytes });
        let deferred = self.frames.take_deferred(key);
        self.decide_deferred(key, deferred)
    }

    /// The frame `key` was written to its end.
    pub fn write_complete(&mut self, key: RequestKey) -> (deliveries: Deliveries)
        requires
            old(self)@.wf(),
        ensures
            (final(self)@, deliveries@) == old(self)@.write_completed(key),
            final(self)@.wf(),
            evolves(old(self)@.state, final(self)@.state),
    {
        let members = self.frames.members_of(key);
        self.progress_all(&members, RequestProgress::WriteComplete);
        let deferred = self.frames.take_deferred(key);
        self.frames.release(key);
        self.decide_deferred(key, deferred)
    }

    /// The read or the write side of the transport failed.
    pub fn transport_failed(&mut self, error: TransportError)
        requires
            old(self)@.wf(),
        ensures
            final(self)@ == old(self)@.faulted(
                RuntimeError::Transport(TransportFault::Failed(error)),
            ),
            final(self)@.wf(),
            evolves(old(self)@.state, final(self)@.state),
    {
        self.fatal = Some(RuntimeError::Transport(TransportFault::Failed(error)));
    }

    /// Something outside the owner makes it impossible to go on.
    pub fn fail(&mut self, error: RuntimeError)
        requires
            old(self)@.wf(),
        ensures
            final(self)@ == old(self)@.faulted(error),
            final(self)@.wf(),
            evolves(old(self)@.state, final(self)@.state),
    {
        self.fatal = Some(error);
    }

    /// Time advanced.
    pub fn advance_time(&mut self, now: MonotonicTime) -> (deliveries: Deliveries)
        requires
            old(self)@.wf(),
        ensures
            (final(self)@, deliveries@) == old(self)@.time_advanced(now),
            final(self)@.wf(),
            evolves(old(self)@.state, final(self)@.state),
    {
        let effects = self.reduce(OwnerEvent::AdvanceTime { now });
        let deliveries = self.apply(effects);
        if self.state.is_unhealthy() {
            self.fatal = Some(RuntimeError::Transport(TransportFault::GenerationUnhealthy));
        }
        deliveries
    }

    /// Carries out one control command.
    pub fn handle_control(&mut self, command: ControlCommand) -> (reply: ControlReply)
        requires
            old(self)@.wf(),
        ensures
            controlled(old(self)@, command, final(self)@, reply),
            final(self)@.wf(),
            evolves(old(self)@.state, final(self)@.state),
    {
        match command {
            ControlCommand::CreateObject { parent, kind } => ControlReply::Object(
                self.create_object(parent, kind),
            ),
            ControlCommand::LoseObjectGeneration => ControlReply::Revoked(
                self.lose_object_generation(),
            ),
            ControlCommand::BeginObjectRecovery { object } => ControlReply::Done(
                self.begin_object_recovery(object),
            ),
            ControlCommand::PublishObjectReplacement { object } => ControlReply::Object(
                self.publish_object_replacement(object),
            ),
            ControlCommand::FailObjectRecovery { object } => ControlReply::Done(
                self.fail_object_recovery(object),
            ),
            ControlCommand::InstallNotifications => {
                self.install_notifications();
                ControlReply::Done(Ok(()))
            },
            ControlCommand::AwaitOperation { key } => ControlReply::Awaited(
                self.await_operation(key),
            ),
            ControlCommand::Negotiated { large_mtu } => {
                self.negotiated(large_mtu);
                ControlReply::Done(Ok(()))
            },
            ControlCommand::Cancel { key, now } => ControlReply::Cancelled(self.cancel(key, now)),
            ControlCommand::Close { deadline } => ControlReply::Closing(self.close(deadline)),
        }
    }

    /// Creates an object below `parent`.
    pub fn create_object(&mut self, parent: ObjectToken, kind: ObjectKind) -> (object: Result<
        ObjectToken,
        RuntimeError,
    >)
        requires
            old(self)@.wf(),
        ensures
            ({
                let (objects, made) = old(self)@.objects.with_child(parent, kind);
                &&& final(self)@ == (AuthorityModel { objects, ..old(self)@ })
                &&& object == match made {
                    Ok(token) => Ok::<ObjectToken, RuntimeError>(token),
                    Err(error) => Err(RuntimeError::Object(error)),
                }
            }),
            final(self)@.wf(),
            evolves(old(self)@.state, final(self)@.state),
    {
        match self.objects.create_child(parent, kind) {
            Ok(token) => Ok(token),
            Err(error) => Err(RuntimeError::Object(error)),
        }
    }

    /// Revokes every object and says how many it revoked.
    pub fn lose_object_generation(&mut self) -> (revoked: usize)
        requires
            old(self)@.wf(),
        ensures
            final(self)@ == (AuthorityModel { objects: old(self)@.objects.lost().0, ..old(self)@ }),
            revoked == old(self)@.objects.lost().1.len(),
            final(self)@.wf(),
            evolves(old(self)@.state, final(self)@.state),
    {
        self.objects.lose_generation().len()
    }

    pub fn begin_object_recovery(&mut self, object: ObjectToken) -> (begun: Result<
        (),
        RuntimeError,
    >)
        requires
            old(self)@.wf(),
        ensures
            begun == match old(self)@.objects.validated(object) {
                Ok(_) => Ok::<(), RuntimeError>(()),
                Err(error) => Err(RuntimeError::Object(error)),
            },
            final(self)@ == if begun is Ok {
                AuthorityModel {
                    objects: old(self)@.objects.with_phase(object.id, ObjectPhase::Recovering),
                    ..old(self)@
                }
            } else {
                old(self)@
            },
            final(self)@.wf(),
            evolves(old(self)@.state, final(self)@.state),
    {
        match self.objects.begin_recovery(object) {
            Ok(()) => Ok(()),
            Err(error) => Err(RuntimeError::Object(error)),
        }
    }

    /// Publishes the replacement of an object; everything below it is revoked.
    pub fn publish_object_replacement(&mut self, object: ObjectToken) -> (replacement: Result<
        ObjectToken,
        RuntimeError,
    >)
        requires
            old(self)@.wf(),
        ensures
            ({
                let (objects, made) = old(self)@.objects.replaced_alone(object);
                &&& final(self)@ == (AuthorityModel { objects, ..old(self)@ })
                &&& replacement == match made {
                    Ok((effect, _)) => Ok::<ObjectToken, RuntimeError>(effect->replacement),
                    Err(error) => Err(RuntimeError::Object(error)),
                }
            }),
            final(self)@.wf(),
            evolves(old(self)@.state, final(self)@.state),
    {
        match self.objects.publish_replacement_revoking_descendants(object) {
            Ok((effect, _)) => match effect {
                ObjectEffect::ReplacementPublished { replacement, .. } => Ok(replacement),
                ObjectEffect::Revoked(_) => Err(RuntimeError::Object(ObjectError::Stale)),
            },
            Err(error) => Err(RuntimeError::Object(error)),
        }
    }

    pub fn fail_object_recovery(&mut self, object: ObjectToken) -> (failed: Result<
        (),
        RuntimeError,
    >)
        requires
            old(self)@.wf(),
        ensures
            ({
                let (objects, made) = old(self)@.objects.recovery_failed(object);
                &&& final(self)@ == (AuthorityModel { objects, ..old(self)@ })
                &&& failed == match made {
                    Ok(_) => Ok::<(), RuntimeError>(()),
                    Err(error) => Err(RuntimeError::Object(error)),
                }
            }),
            final(self)@.wf(),
            evolves(old(self)@.state, final(self)@.state),
    {
        match self.objects.fail_recovery(object) {
            Ok(_) => Ok(()),
            Err(error) => Err(RuntimeError::Object(error)),
        }
    }

    /// Somebody listens for server notifications from now on.
    pub fn install_notifications(&mut self)
        requires
            old(self)@.wf(),
        ensures
            final(self)@ == (AuthorityModel { notifications: true, ..old(self)@ }),
            final(self)@.wf(),
            evolves(old(self)@.state, final(self)@.state),
    {
        self.notifications = true;
    }

    /// The connection was negotiated.
    pub fn negotiated(&mut self, large_mtu: bool)
        requires
            old(self)@.wf(),
        ensures
            final(self)@ == old(self)@.negotiated(large_mtu),
            final(self)@.wf(),
            evolves(old(self)@.state, final(self)@.state),
    {
        self.large_mtu = large_mtu;
        let target: u32 = if large_mtu {
            self.target_credits
        } else {
            1
        };
        self.state.set_target_credits(target);
        proof {
            operations_are_within_themselves(old(self)@.operations);
            assert(evolves(old(self)@.state, self@.state));
            parts_keep_wf(old(self)@, self@);
        }
    }

    /// Somebody asks the generation to close; only the first one is heard.
    pub fn close(&mut self, deadline: MonotonicTime) -> (accepted: Result<(), RuntimeError>)
        requires
            old(self)@.wf(),
        ensures
            accepted == if old(self)@.close_deadline is None {
                Ok::<(), RuntimeError>(())
            } else {
                Err(RuntimeError::Closed)
            },
            final(self)@ == if old(self)@.close_deadline is None {
                AuthorityModel { close_deadline: Some(deadline), ..old(self)@ }
            } else {
                old(self)@
            },
            final(self)@.wf(),
            evolves(old(self)@.state, final(self)@.state),
    {
        if self.close_deadline.is_some() {
            return Err(RuntimeError::Closed);
        }
        self.close_deadline = Some(deadline);
        Ok(())
    }

    /// Whether the owner's loop is to end.
    pub fn must_stop(&self) -> (stop: bool)
        ensures
            stop == (self@.close_deadline is Some || self@.fatal is Some),
    {
        self.close_deadline.is_some() || self.fatal.is_some()
    }

    pub fn fatal(&self) -> (fatal: Option<RuntimeError>)
        ensures
            fatal == self@.fatal,
    {
        self.fatal
    }

    pub fn close_deadline(&self) -> (deadline: Option<MonotonicTime>)
        ensures
            deadline == self@.close_deadline,
    {
        self.close_deadline
    }

    pub fn next_deadline(&self) -> (at: Option<MonotonicTime>)
        ensures
            at == if self@.state.deadlines.len() > 0 {
                Some(self@.state.deadlines[0].at)
            } else {
                None::<MonotonicTime>
            },
    {
        self.state.next_deadline()
    }

    /// Whether no operation is on its way.
    pub fn operations_idle(&self) -> (idle: bool)
        ensures
            idle == (self@.operations.len() == 0),
    {
        self.operations.len() == 0
    }

    /// The connection object of the generation.
    pub fn connection_object(&self) -> (connection: ObjectToken)
        ensures
            connection == self@.objects.connection,
    {
        self.objects.connection()
    }

    /// The error for whoever is left when the generation ends.
    pub fn final_error(&self) -> (error: RuntimeError)
        ensures
            error == self@.final_error(),
    {
        match self.fatal {
            Some(error) => error,
            None => RuntimeError::Closed,
        }
    }

    /// Ends the generation.
    pub fn shut_down(&mut self) -> (plan: ShutdownPlan)
        requires
            old(self)@.wf(),
        ensures
            ({
                let (next, deliveries) = old(self)@.shut_down();
                &&& plan.deliveries@ == deliveries
                &&& plan.failed_terminals@ == next.terminals
                &&& plan.failed_operations@ == AuthorityModel::left_waiting(next.operations)
                &&& plan.error == next.final_error()
                &&& plan.dropped_frames@ == next.frames.queue.map_values(
                    |frame: FrameModel| frame.key,
                )
                &&& plan.signal_active == next.frames.active is Some
                &&& final(self)@ == (AuthorityModel {
                    terminals: Seq::empty(),
                    operations: Seq::empty(),
                    frames: FramesModel { queue: Seq::empty(), ..next.frames },
                    ..next
                })
            }),
            final(self)@.wf(),
            evolves(old(self)@.state, final(self)@.state),
    {
        let _ = self.objects.lose_generation();
        let effects = self.reduce(OwnerEvent::Disconnect);
        let deliveries = self.apply(effects);
        let failed_terminals = self.terminals.drain();
        let failed_operations = self.operations.drain_waiters();
        let dropped_frames = self.frames.drop_queue();
        let signal_active = self.frames.is_writing();
        let error = self.final_error();
        ShutdownPlan {
            deliveries,
            failed_terminals,
            failed_operations,
            error,
            dropped_frames,
            signal_active,
        }
    }

    /// How the generation ended, once nothing of it runs any more.
    pub fn exit(&self, read_panicked: bool, write: WriteEnd) -> (exit: GenerationExit)
        ensures
            exit.generation == self@.state.generation,
            exit.cause == if self@.close_deadline is Some {
                GenerationExitCause::ExplicitClose
            } else {
                match self@.fatal {
                    Some(error) => GenerationExitCause::Transport(error),
                    None => GenerationExitCause::HandlesDropped,
                }
            },
            exit.report == (CloseReport {
                timed_out: write == WriteEnd::TimedOut,
                unresolved_requests: exit.report.unresolved_requests,
                joined_tasks: (if read_panicked {
                    0int
                } else {
                    1
                } + if write == WriteEnd::Joined {
                    1int
                } else {
                    0
                }) as usize,
                failed_tasks: (if read_panicked {
                    1int
                } else {
                    0
                } + if write == WriteEnd::Joined {
                    0int
                } else {
                    1
                }) as usize,
            }),
            exit.report.unresolved_requests == total(
                self@.state.requests,
                open_caller_weight(),
            ),
            exit.report.joined_tasks + exit.report.failed_tasks == 2,
    {
        let read_joined: usize = if read_panicked {
            0
        } else {
            1
        };
        let write_joined: usize = if write == WriteEnd::Joined {
            1
        } else {
            0
        };
        let report = CloseReport {
            timed_out: write == WriteEnd::TimedOut,
            unresolved_requests: self.state.unresolved_callers(),
            joined_tasks: read_joined + write_joined,
            failed_tasks: 2 - (read_joined + write_joined),
        };
        let cause = if self.close_deadline.is_some() {
            GenerationExitCause::ExplicitClose
        } else {
            match self.fatal {
                Some(error) => GenerationExitCause::Transport(error),
                None => GenerationExitCause::HandlesDropped,
            }
        };
        GenerationExit { generation: self.state.generation(), cause, report }
    }
}

/// What can be asked of the owner outside the order of admissions.
#[derive(Clone, Copy, Debug, PartialEq, Eq, Structural)]
pub enum ControlCommand {
    CreateObject { parent: ObjectToken, kind: ObjectKind },
    LoseObjectGeneration,
    BeginObjectRecovery { object: ObjectToken },
    PublishObjectReplacement { object: ObjectToken },
    FailObjectRecovery { object: ObjectToken },
    InstallNotifications,
    AwaitOperation { key: RequestKey },
    Negotiated { large_mtu: bool },
    Cancel { key: RequestKey, now: MonotonicTime },
    Close { deadline: MonotonicTime },
}

#[derive(Debug)]
pub enum ControlReply {
    Object(Result<ObjectToken, RuntimeError>),
    Revoked(usize),
    Done(Result<(), RuntimeError>),
    Awaited(AwaitDecision),
    Cancelled(CancelDecision),
    /// Whether this is the close that is carried out; either way no more work
    /// is taken on.
    Closing(Result<(), RuntimeError>),
}

/// What a control command does and answers.
pub open spec fn controlled(
    before: AuthorityModel,
    command: ControlCommand,
    after: AuthorityModel,
    reply: ControlReply,
) -> bool {
    match (command, reply) {
        (ControlCommand::CreateObject { parent, kind }, ControlReply::Object(object)) => {
            let (objects, made) = before.objects.with_child(parent, kind);
            &&& after == (AuthorityModel { objects, ..before })
            &&& object == match made {
                Ok(token) => Ok::<ObjectToken, RuntimeError>(token),
                Err(error) => Err(RuntimeError::Object(error)),
            }
        },
        (ControlCommand::LoseObjectGeneration, ControlReply::Revoked(revoked)) => {
            &&& after == (AuthorityModel { objects: before.objects.lost().0, ..before })
            &&& revoked == before.objects.lost().1.len()
        },
        (ControlCommand::BeginObjectRecovery { object }, ControlReply::Done(begun)) => {
            &&& begun == match before.objects.validated(object) {
                Ok(_) => Ok::<(), RuntimeError>(()),
                Err(error) => Err(RuntimeError::Object(error)),
            }
            &&& after == if begun is Ok {
                AuthorityModel {
                    objects: before.objects.with_phase(object.id, ObjectPhase::Recovering),
                    ..before
                }
            } else {
                before
            }
        },
        (ControlCommand::PublishObjectReplacement { object }, ControlReply::Object(replacement)) => {
            let (objects, made) = before.objects.replaced_alone(object);
            &&& after == (AuthorityModel { objects, ..before })
            &&& replacement == match made {
                Ok((effect, _)) => Ok::<ObjectToken, RuntimeError>(effect->replacement),
                Err(error) => Err(RuntimeError::Object(error)),
            }
        },
        (ControlCommand::FailObjectRecovery { object }, ControlReply::Done(failed)) => {
            let (objects, made) = before.objects.recovery_failed(object);
            &&& after == (AuthorityModel { objects, ..before })
            &&& failed == match made {
                Ok(_) => Ok::<(), RuntimeError>(()),
                Err(error) => Err(RuntimeError::Object(error)),
            }
        },
        (ControlCommand::InstallNotifications, ControlReply::Done(done)) => {
            &&& done is Ok
            &&& after == (AuthorityModel { notifications: true, ..before })
        },
        (ControlCommand::AwaitOperation { key }, ControlReply::Awaited(decision)) => {
            let (operations, told) = asked(before.operations, key);
            &&& after == (AuthorityModel { operations, ..before })
            &&& decision == told
        },
        (ControlCommand::Negotiated { large_mtu }, ControlReply::Done(done)) => {
            &&& done is Ok
            &&& after == before.negotiated(large_mtu)
        },
        (ControlCommand::Cancel { key, now }, ControlReply::Cancelled(decision)) => {
            &&& decision.withdrawn == waits(before.frames.queue, key)
            &&& decision.signal_active == before.frames.writes(key)
            &&& (after, decision.deliveries@) == before.cancelled(key, now)
        },
        (ControlCommand::Close { deadline }, ControlReply::Closing(accepted)) => {
            &&& accepted == if before.close_deadline is None {
                Ok::<(), RuntimeError>(())
            } else {
                Err(RuntimeError::Closed)
            }
            &&& after == if before.close_deadline is None {
                AuthorityModel { close_deadline: Some(deadline), ..before }
            } else {
                before
            }
        },
        _ => false,
    }
}

/// How the write side ended.
#[derive(Clone, Copy, Debug, PartialEq, Eq, Structural)]
pub enum WriteEnd {
    /// It was idle, or its last frame ended.
    Joined,
    /// It broke down.
    Panicked,
    /// It had to be abandoned at the deadline of the close.
    TimedOut,
}

/// What is left to do when a generation ends.
#[derive(Debug)]
pub struct ShutdownPlan {
    pub deliveries: Deliveries,
    /// Callers of frames that are told `error`.
    pub failed_terminals: Vec<RequestKey>,
    /// Operations whose waiters are told `error`.
    pub failed_operations: Vec<RequestKey>,
    pub error: RuntimeError,
    /// Frames that will not be written.
    pub dropped_frames: Vec<RequestKey>,
    /// Whether the frame that is being written is to stop if it has not begun.
    pub signal_active: bool,
}

/// What becomes of an operation whose frame was prepared.
#[derive(Debug)]
pub enum PreparedDecision {
    /// The caller is refused; `waiter` says whether its waiter is told as well.
    Refused { error: RuntimeError, waiter: bool },
    /// The frame waits for the wire, and the raw request is retained or not;
    /// an answer that came early is dealt with.
    Queued { request_raw: bool, early: Option<MessageOutcome> },
}

/// What becomes of a compound that asks to be admitted.
#[derive(Debug)]
pub enum CompoundDecision {
    Refused(RuntimeError),
    /// The credits for it are not there yet; it is handed back.
    Waiting(Vec<TypedOperation>),
    Admitted(Vec<PreparationPlan>),
}

/// Whether the outcomes of several early answers are those that were decided,
/// in order.
pub open spec fn told_in_order(
    outcomes: Seq<Option<MessageOutcome>>,
    decisions: Seq<Option<MessageDecision>>,
) -> bool {
    &&& outcomes.len() == decisions.len()
    &&& forall|i: int|
        0 <= i < outcomes.len() ==> match (#[trigger] outcomes[i], decisions[i]) {
            (Some(outcome), Some(decision)) => outcome.decision == decision,
            (None, None) => true,
            _ => false,
        }
}

/// All that several early answers tell other callers, in order.
pub open spec fn terminals_of(outcomes: Seq<Option<MessageOutcome>>) -> Seq<TerminalDelivery>
    decreases outcomes.len(),
{
    if outcomes.len() == 0 {
        Seq::empty()
    } else {
        terminals_of(outcomes.drop_last()) + match outcomes.last() {
            Some(outcome) => outcome.terminals@,
            None => Seq::empty(),
        }
    }
}

/// What follows from a cancellation.
#[derive(Debug)]
pub struct CancelDecision {
    /// The frame was taken out of the queue.
    pub withdrawn: bool,
    /// The frame is being written; the writer is to stop if it has not begun.
    pub signal_active: bool,
    pub deliveries: Deliveries,
}

/// Whether `effects` publish a response to the caller of `key`.
fn publishes_response(effects: &Vec<OwnerEffect>, key: RequestKey) -> (published: bool)
    ensures
        published == effects@.contains(
            OwnerEffect::Request {
                key,
                effect: ReduceEffect::Publish(TerminalOutcome::Response),
            },
        ),
{
    let wanted = OwnerEffect::Request {
        key,
        effect: ReduceEffect::Publish(TerminalOutcome::Response),
    };
    let mut i: usize = 0;
    while i < effects.len()
        invariant
            i <= effects@.len(),
            wanted == (OwnerEffect::Request {
                key,
                effect: ReduceEffect::Publish(TerminalOutcome::Response),
            }),
            forall|k: int| 0 <= k < i ==> effects@[k] != wanted,
        decreases effects@.len() - i,
    {
        if effects[i] == wanted {
            assert(effects@[i as int] == wanted);
            return true;
        }
        i += 1;
    }
    false
}

} // verus!
