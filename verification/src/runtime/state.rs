//! All request authority of one connection generation.
//!
//! The owner reduces one typed event at a time. Admission charges credits and
//! payload bytes, responses return credits exactly once, cancellations and
//! deadlines settle callers without losing the wire's own bookkeeping, and a
//! disconnect settles everyone who is left.

use crate::clock::{Duration, MonotonicTime};
use crate::runtime::deadline::{
    outstanding, schedule, scheduling_keeps_order, DeadlineEntry, DeadlineKind,
};
use crate::runtime::generation_model::{
    async_id_is_free, firing_takes_work_away, holdings_are_counted, ledger_change_keeps_wf,
    open_caller_weight, popping_keeps_wf, position_is_unique, push_keeps_wf, total,
    update_keeps_wf, GenerationModel,
};
use crate::runtime::reducer::{
    CallerOutcome, GenerationId, ReduceEffect, RequestEvent, RequestKey, RequestRecord,
    ResponseProgress, TerminalOutcome,
};
use std::collections::VecDeque;
use vstd::prelude::*;

verus! {

#[derive(Clone, Copy, Debug, PartialEq, Eq, Structural)]
pub struct AdmissionLimits {
    pub max_operations: usize,
    pub max_payload_bytes: u64,
}

#[derive(Clone, Copy, Debug, PartialEq, Eq, Structural)]
pub enum AdmissionError {
    OperationsExhausted,
    PayloadBytesExhausted,
    CreditsExhausted { available: u32, requested: u16 },
    MessageIdExhausted,
    InvalidCreditCharge,
}

#[derive(Clone, Copy, Debug, PartialEq, Eq, Structural)]
pub struct PreparationPlan {
    pub key: RequestKey,
    pub payload_bytes: u64,
    pub credit_charge: u16,
    pub credit_request: u16,
    pub caller_deadline: Option<MonotonicTime>,
}

#[derive(Clone, Copy, Debug, PartialEq, Eq, Structural)]
pub enum ResponseEvent {
    Pending { async_id: u64 },
    Final,
}

#[derive(Clone, Copy, Debug, PartialEq, Eq, Structural)]
pub enum RequestProgress {
    Queued,
    WriteProgress { bytes: usize },
    WriteComplete,
}

/// Typed input lane for the sole state owner of one connection generation.
#[derive(Clone, Copy, Debug, PartialEq, Eq, Structural)]
#[allow(inconsistent_fields)]
pub enum OwnerEvent {
    Admit { payload_bytes: u64, credit_charge: u16, caller_deadline: Option<MonotonicTime> },
    Request { key: RequestKey, event: RequestProgress },
    PrepareFailed { key: RequestKey },
    Cancel { key: RequestKey, now: MonotonicTime },
    Response { key: RequestKey, event: ResponseEvent, credit_grant: u16 },
    /// An unauthenticated answer that says the session is gone. Nothing else
    /// that it carries is believed.
    RecoveryHint { key: RequestKey },
    AdvanceTime { now: MonotonicTime },
    Disconnect,
}

#[derive(Clone, Copy, Debug, PartialEq, Eq, Structural)]
#[allow(inconsistent_fields)]
pub enum OwnerEffect {
    Admitted(PreparationPlan),
    AdmissionRejected(AdmissionError),
    Request { key: RequestKey, effect: ReduceEffect },
    ReservationRolledBack(RequestKey),
    CreditGrantApplied { key: RequestKey, grant: u16, available: u32 },
    DuplicateResponse(RequestKey),
    CancelControlQueued(RequestKey),
    DuplicateCancel(RequestKey),
    BestEffortWireCancel(RequestKey),
    StaleDeadlineIgnored(RequestKey),
    GenerationUnhealthy { key: RequestKey },
    AsyncIdConflict { async_id: u64, existing: RequestKey, incoming: RequestKey },
    AsyncIdChanged { key: RequestKey, existing: u64, incoming: u64 },
    CreditLedgerOverflow { key: RequestKey, available: u32, grant: u16 },
    UnknownRequest(RequestKey),
}

/// One admitted request with what it holds of the generation's budgets.
#[derive(Clone, Copy, Debug, PartialEq, Eq, Structural)]
pub struct OwnedRequest {
    pub lifecycle: RequestRecord,
    pub payload_bytes: u64,
    pub credit_charge: u16,
    pub requested_extra_credits: u32,
    pub credit_response_seen: bool,
    pub admission_held: bool,
    pub payload_held: bool,
    pub credit_obligation: bool,
    pub cancel_seen: bool,
    pub deadline_version: u64,
}

/// All mutable request authority for exactly one physical generation.
pub struct GenerationState {
    generation: GenerationId,
    limits: AdmissionLimits,
    next_message_id: Option<u64>,
    available_credits: u32,
    total_credits: u32,
    pending_extra_credits: u32,
    target_credits: u32,
    admitted_operations: usize,
    retained_payload_bytes: u64,
    requests: Vec<OwnedRequest>,
    deadlines: VecDeque<DeadlineEntry>,
    next_deadline_sequence: u64,
    tombstone_drain_timeout: Duration,
    unhealthy: bool,
}

impl View for GenerationState {
    type V = GenerationModel;

    closed spec fn view(&self) -> GenerationModel {
        GenerationModel {
            generation: self.generation,
            limits: self.limits,
            next_message_id: self.next_message_id,
            available_credits: self.available_credits,
            total_credits: self.total_credits,
            pending_extra_credits: self.pending_extra_credits,
            target_credits: self.target_credits,
            admitted_operations: self.admitted_operations,
            retained_payload_bytes: self.retained_payload_bytes,
            requests: self.requests@,
            deadlines: self.deadlines@,
            next_deadline_sequence: self.next_deadline_sequence,
            tombstone_drain_timeout: self.tombstone_drain_timeout,
            unhealthy: self.unhealthy,
        }
    }
}

impl GenerationState {
    pub fn new(
        generation: GenerationId,
        initial_message_id: u64,
        initial_credits: u32,
        target_credits: u32,
        limits: AdmissionLimits,
        tombstone_drain_timeout: Duration,
    ) -> (state: Self)
        ensures
            state@ == GenerationModel::initial(
                generation,
                initial_message_id,
                initial_credits,
                target_credits,
                limits,
                tombstone_drain_timeout,
            ),
            state@.wf(),
    {
        GenerationState {
            generation,
            limits,
            next_message_id: Some(initial_message_id),
            available_credits: initial_credits,
            total_credits: initial_credits,
            pending_extra_credits: 0,
            target_credits,
            admitted_operations: 0,
            retained_payload_bytes: 0,
            requests: Vec::new(),
            deadlines: VecDeque::new(),
            next_deadline_sequence: 0,
            tombstone_drain_timeout,
            unhealthy: false,
        }
    }

    /// Where the request named by `key` stands.
    fn find(&self, key: RequestKey) -> (found: Option<usize>)
        requires
            self@.wf(),
        ensures
            found is Some == self@.tracks(key),
            found matches Some(i) ==> i < self@.requests.len() && i == self@.position(key)
                && self@.requests[i as int].lifecycle.key == key,
    {
        if key.generation != self.generation {
            assert(forall|i: int|
                0 <= i < self@.requests.len() ==> self@.request_ok(#[trigger] self@.requests[i]));
            return None;
        }
        let mut low: usize = 0;
        let mut high: usize = self.requests.len();
        while low < high
            invariant
                low <= high <= self.requests@.len(),
                self@.wf(),
                self@.requests == self.requests@,
                key.generation == self@.generation,
                forall|i: int|
                    0 <= i < low ==> (#[trigger] self.requests@[i]).lifecycle.key.message_id
                        < key.message_id,
                forall|i: int|
                    high <= i < self.requests@.len() ==> (
                    #[trigger] self.requests@[i]).lifecycle.key.message_id > key.message_id,
            decreases high - low,
        {
            let middle: usize = low + (high - low) / 2;
            let id: u64 = self.requests[middle].lifecycle.key.message_id;
            assert(self@.request_ok(self@.requests[middle as int]));
            if id == key.message_id {
                assert(self@.requests[middle as int].lifecycle.key.generation == self@.generation);
                proof {
                    position_is_unique(self@, key, middle as int);
                }
                return Some(middle);
            }
            assert(forall|i: int|
                0 <= i < middle ==> (#[trigger] self@.requests[i]).lifecycle.key.message_id
                    < self@.requests[middle as int].lifecycle.key.message_id);
            assert(forall|i: int|
                middle < i < self@.requests.len() ==> (
                #[trigger] self@.requests[i]).lifecycle.key.message_id
                    > self@.requests[middle as int].lifecycle.key.message_id);
            if id < key.message_id {
                low = middle + 1;
            } else {
                high = middle;
            }
        }
        None
    }

    fn release_payload(&mut self, i: usize)
        requires
            old(self)@.wf(),
            i < old(self)@.requests.len(),
        ensures
            final(self)@ == old(self)@.payload_released(i as int),
            final(self)@.wf(),
    {
        let mut request = self.requests[i];
        if request.payload_held {
            proof {
                holdings_are_counted(self@, i as int);
            }
            self.retained_payload_bytes = self.retained_payload_bytes - request.payload_bytes;
            request.payload_held = false;
            self.requests.set(i, request);
            proof {
                assert(old(self)@.request_ok(old(self)@.requests[i as int]));
                update_keeps_wf(old(self)@, self@, i as int, request);
            }
        }
    }

    fn release_request_ownership(&mut self, i: usize)
        requires
            old(self)@.wf(),
            i < old(self)@.requests.len(),
        ensures
            final(self)@ == old(self)@.ownership_released(i as int),
            final(self)@.wf(),
    {
        self.release_payload(i);
        let ghost released = self@;
        let mut request = self.requests[i];
        if request.admission_held {
            proof {
                holdings_are_counted(self@, i as int);
            }
            self.admitted_operations = self.admitted_operations - 1;
            request.admission_held = false;
            self.requests.set(i, request);
            proof {
                assert(released.request_ok(released.requests[i as int]));
                assert(old(self)@.request_ok(old(self)@.requests[i as int]));
                update_keeps_wf(released, self@, i as int, request);
            }
        }
    }

    /// Replaces the lifecycle of one request.
    fn set_lifecycle(&mut self, i: usize, lifecycle: RequestRecord)
        requires
            old(self)@.wf(),
            i < old(self)@.requests.len(),
            lifecycle.key == old(self)@.requests[i as int].lifecycle.key,
            lifecycle.consistent(),
            lifecycle.response is AsyncPending ==> forall|j: int|
                0 <= j < old(self)@.requests.len() && j != i ==> (
                #[trigger] old(self)@.requests[j]).lifecycle.response != lifecycle.response,
        ensures
            final(self)@ == old(self)@.with_lifecycle(i as int, lifecycle),
            final(self)@.wf(),
    {
        let mut request = self.requests[i];
        request.lifecycle = lifecycle;
        self.requests.set(i, request);
        proof {
            assert(old(self)@.request_ok(old(self)@.requests[i as int]));
            update_keeps_wf(old(self)@, self@, i as int, request);
        }
    }

    fn schedule_deadline(&mut self, i: usize, at: MonotonicTime, kind: DeadlineKind) -> (set: bool)
        requires
            old(self)@.wf(),
            i < old(self)@.requests.len(),
        ensures
            (final(self)@, set) == old(self)@.deadline_set(i as int, at, kind),
            final(self)@.wf(),
    {
        let mut request = self.requests[i];
        let version: u64 = match request.deadline_version.checked_add(1) {
            Some(version) => version,
            None => {
                self.unhealthy = true;
                return false;
            },
        };
        request.deadline_version = version;
        self.requests.set(i, request);
        proof {
            assert(old(self)@.request_ok(old(self)@.requests[i as int]));
            update_keeps_wf(old(self)@, self@, i as int, request);
        }
        let ghost versioned = self@;
        let sequence: u64 = self.next_deadline_sequence;
        self.next_deadline_sequence = self.next_deadline_sequence.saturating_add(1);
        let entry = DeadlineEntry { at, sequence, key: request.lifecycle.key, kind, version };
        schedule(&mut self.deadlines, entry);
        proof {
            scheduling_keeps_order(versioned.deadlines, entry);
            assert(self@.requests == versioned.requests);
            assert forall|j: int| 0 <= j < self@.requests.len() implies self@.request_ok(
                #[trigger] self@.requests[j],
            ) by {
                assert(versioned.request_ok(versioned.requests[j]));
            }
        }
        true
    }

    fn rollback(&mut self, i: usize) -> (done: bool)
        requires
            old(self)@.wf(),
            i < old(self)@.requests.len(),
        ensures
            (final(self)@, done) == old(self)@.rolled_back(i as int),
            final(self)@.wf(),
    {
        let mut request = self.requests[i];
        if !request.credit_obligation && !request.admission_held {
            return false;
        }
        if request.credit_obligation {
            let available: u32 = match self.available_credits.checked_add(
                request.credit_charge as u32,
            ) {
                Some(available) => available,
                None => {
                    return false;
                },
            };
            self.available_credits = available;
            self.pending_extra_credits = self.pending_extra_credits.saturating_sub(
                request.requested_extra_credits,
            );
            request.credit_obligation = false;
            self.requests.set(i, request);
            proof {
                assert(old(self)@.request_ok(old(self)@.requests[i as int]));
                update_keeps_wf(old(self)@, self@, i as int, request);
            }
        }
        self.release_request_ownership(i);
        true
    }

    pub fn admit_request(
        &mut self,
        payload_bytes: u64,
        credit_charge: u16,
        caller_deadline: Option<MonotonicTime>,
    ) -> (effect: OwnerEffect)
        requires
            old(self)@.wf(),
        ensures
            (final(self)@, effect) == old(self)@.admitted(
                payload_bytes,
                credit_charge,
                caller_deadline,
            ),
            final(self)@.wf(),
    {
        if credit_charge == 0 {
            return OwnerEffect::AdmissionRejected(AdmissionError::InvalidCreditCharge);
        }
        if self.admitted_operations >= self.limits.max_operations {
            return OwnerEffect::AdmissionRejected(AdmissionError::OperationsExhausted);
        }
        let retained: u64 = match self.retained_payload_bytes.checked_add(payload_bytes) {
            Some(retained) => retained,
            None => {
                return OwnerEffect::AdmissionRejected(AdmissionError::PayloadBytesExhausted);
            },
        };
        if retained > self.limits.max_payload_bytes {
            return OwnerEffect::AdmissionRejected(AdmissionError::PayloadBytesExhausted);
        }
        if credit_charge as u32 > self.available_credits {
            return OwnerEffect::AdmissionRejected(
                AdmissionError::CreditsExhausted {
                    available: self.available_credits,
                    requested: credit_charge,
                },
            );
        }
        let message_id: u64 = match self.next_message_id {
            Some(message_id) => message_id,
            None => {
                return OwnerEffect::AdmissionRejected(AdmissionError::MessageIdExhausted);
            },
        };
        let projected: u32 = self.total_credits.saturating_add(self.pending_extra_credits);
        let missing: u32 = self.target_credits.saturating_sub(projected);
        let wanted: u32 = (credit_charge as u32).saturating_add(missing);
        let credit_request: u16 = if wanted > 0xffff {
            0xffff
        } else {
            wanted as u16
        };
        let requested_extra_credits: u32 = credit_request as u32 - credit_charge as u32;
        let key = RequestKey::new(self.generation, message_id);
        let request = OwnedRequest {
            lifecycle: RequestRecord::new(key),
            payload_bytes,
            credit_charge,
            requested_extra_credits,
            credit_response_seen: false,
            admission_held: true,
            payload_held: true,
            credit_obligation: true,
            cancel_seen: false,
            deadline_version: 0,
        };
        self.next_message_id = message_id.checked_add(credit_charge as u64);
        self.available_credits = self.available_credits - credit_charge as u32;
        self.pending_extra_credits = self.pending_extra_credits.saturating_add(
            requested_extra_credits,
        );
        self.admitted_operations = self.admitted_operations + 1;
        self.retained_payload_bytes = retained;
        let place: usize = self.requests.len();
        self.requests.push(request);
        proof {
            push_keeps_wf(old(self)@, self@, request);
        }
        if let Some(at) = caller_deadline {
            let _ = self.schedule_deadline(place, at, DeadlineKind::Caller);
        }
        OwnerEffect::Admitted(
            PreparationPlan { key, payload_bytes, credit_charge, credit_request, caller_deadline },
        )
    }

    /// The effects for a key that names no admitted request.
    fn unaddressed(&self, key: RequestKey) -> (effects: Vec<OwnerEffect>)
        ensures
            effects@ == self@.unaddressed(key),
    {
        if key.generation != self.generation {
            vec![OwnerEffect::Request { key, effect: ReduceEffect::IgnoredForeignGeneration }]
        } else {
            vec![OwnerEffect::UnknownRequest(key)]
        }
    }

    pub fn request_event(&mut self, key: RequestKey, event: RequestProgress) -> (effects: Vec<
        OwnerEffect,
    >)
        requires
            old(self)@.wf(),
        ensures
            (final(self)@, effects@) == old(self)@.progressed(key, event),
            final(self)@.wf(),
    {
        let i: usize = match self.find(key) {
            Some(i) => i,
            None => {
                return self.unaddressed(key);
            },
        };
        proof {
            assert(self@.request_ok(self@.requests[i as int]));
        }
        let mut lifecycle = self.requests[i].lifecycle;
        let lifecycle_event = match event {
            RequestProgress::Queued => RequestEvent::Queued,
            RequestProgress::WriteProgress { bytes } => RequestEvent::WriteProgress { bytes },
            RequestProgress::WriteComplete => RequestEvent::WriteComplete,
        };
        let effect = lifecycle.reduce(lifecycle_event);
        self.set_lifecycle(i, lifecycle);
        if event == RequestProgress::WriteComplete {
            self.release_payload(i);
        }
        vec![OwnerEffect::Request { key, effect }]
    }

    /// What follows when the caller of the `i`th request stops waiting.
    fn wind_down(
        &mut self,
        i: usize,
        now: MonotonicTime,
        committed: bool,
        effects: &mut Vec<OwnerEffect>,
    )
        requires
            old(self)@.wf(),
            i < old(self)@.requests.len(),
        ensures
            final(self)@ == old(self)@.wound_down(i as int, now, committed).0,
            final(effects)@ == old(effects)@ + old(self)@.wound_down(i as int, now, committed).1,
            final(self)@.wf(),
    {
        let key = self.requests[i].lifecycle.key;
        if committed {
            effects.push(OwnerEffect::BestEffortWireCancel(key));
            let at = now.saturating_add(self.tombstone_drain_timeout);
            if !self.schedule_deadline(i, at, DeadlineKind::Tombstone) {
                effects.push(OwnerEffect::GenerationUnhealthy { key });
            }
        } else if self.rollback(i) {
            effects.push(OwnerEffect::ReservationRolledBack(key));
        }
    }

    pub fn cancel(&mut self, key: RequestKey, now: MonotonicTime) -> (effects: Vec<OwnerEffect>)
        requires
            old(self)@.wf(),
        ensures
            (final(self)@, effects@) == old(self)@.cancelled(key, now),
            final(self)@.wf(),
    {
        let i: usize = match self.find(key) {
            Some(i) => i,
            None => {
                return self.unaddressed(key);
            },
        };
        proof {
            assert(self@.request_ok(self@.requests[i as int]));
        }
        let mut request = self.requests[i];
        let duplicate = request.cancel_seen || !request.lifecycle.caller_is_open();
        let committed = request.lifecycle.wire_committed();
        request.cancel_seen = true;
        self.requests.set(i, request);
        proof {
            update_keeps_wf(old(self)@, self@, i as int, request);
        }
        if duplicate {
            return vec![OwnerEffect::DuplicateCancel(key)];
        }
        let mut lifecycle = request.lifecycle;
        let effect = lifecycle.reduce(RequestEvent::Cancel);
        self.set_lifecycle(i, lifecycle);
        let mut effects = vec![
            OwnerEffect::CancelControlQueued(key),
            OwnerEffect::Request { key, effect },
        ];
        self.wind_down(i, now, committed, &mut effects);
        effects
    }

    pub fn prepare_failed(&mut self, key: RequestKey) -> (effects: Vec<OwnerEffect>)
        requires
            old(self)@.wf(),
        ensures
            (final(self)@, effects@) == old(self)@.preparation_failed(key),
            final(self)@.wf(),
    {
        let i: usize = match self.find(key) {
            Some(i) => i,
            None => {
                return self.unaddressed(key);
            },
        };
        proof {
            assert(self@.request_ok(self@.requests[i as int]));
        }
        let mut lifecycle = self.requests[i].lifecycle;
        if lifecycle.wire_committed() {
            return vec![OwnerEffect::Request { key, effect: ReduceEffect::BookkeepingOnly }];
        }
        let effect = lifecycle.publish_once(TerminalOutcome::PreparationFailed);
        self.set_lifecycle(i, lifecycle);
        let mut effects = vec![OwnerEffect::Request { key, effect }];
        if self.rollback(i) {
            effects.push(OwnerEffect::ReservationRolledBack(key));
        }
        effects
    }

    /// Settles the caller of a request whose session is reported gone by an
    /// answer that nothing authenticates.
    pub fn recovery_hint(&mut self, key: RequestKey) -> (effects: Vec<OwnerEffect>)
        requires
            old(self)@.wf(),
        ensures
            (final(self)@, effects@) == old(self)@.hinted(key),
            final(self)@.wf(),
    {
        let i: usize = match self.find(key) {
            Some(i) => i,
            None => {
                return self.unaddressed(key);
            },
        };
        proof {
            assert(self@.request_ok(self@.requests[i as int]));
        }
        let mut lifecycle = self.requests[i].lifecycle;
        let effect = lifecycle.publish_once(TerminalOutcome::SessionInvalidated);
        self.set_lifecycle(i, lifecycle);
        self.release_request_ownership(i);
        vec![OwnerEffect::Request { key, effect }]
    }

    /// The request that an interim response left pending under `async_id`.
    pub fn request_for_async_id(&self, async_id: u64) -> (found: Option<RequestKey>)
        requires
            self@.wf(),
        ensures
            found == self@.async_holder(async_id),
    {
        let mut i: usize = 0;
        while i < self.requests.len()
            invariant
                i <= self.requests@.len(),
                self@.wf(),
                self@.requests == self.requests@,
                forall|j: int| 0 <= j < i ==> !self@.pending_under(async_id, j),
            decreases self.requests@.len() - i,
        {
            if self.requests[i].lifecycle.response == (ResponseProgress::AsyncPending { async_id })
            {
                assert(self@.pending_under(async_id, i as int));
                proof {
                    let held = choose|j: int| self@.pending_under(async_id, j);
                    assert(self@.pending_under(async_id, held));
                    if held != i {
                        assert(self@.requests[held].lifecycle.response
                            != self@.requests[i as int].lifecycle.response);
                    }
                }
                return Some(self.requests[i].lifecycle.key);
            }
            i += 1;
        }
        None
    }

    /// Settles the credits of one answer and records that it came.
    fn settle_credits(&mut self, i: usize, credit_grant: u16)
        requires
            old(self)@.wf(),
            i < old(self)@.requests.len(),
        ensures
            final(self)@ == old(self)@.credits_settled(i as int, credit_grant),
            final(self)@.wf(),
    {
        proof {
            assert(self@.request_ok(self@.requests[i as int]));
        }
        let mut request = self.requests[i];
        if !request.credit_response_seen {
            self.pending_extra_credits = self.pending_extra_credits.saturating_sub(
                request.requested_extra_credits,
            );
            self.total_credits = self.total_credits.saturating_sub(
                request.credit_charge as u32,
            ).saturating_add(credit_grant as u32);
            request.credit_response_seen = true;
        } else {
            self.total_credits = self.total_credits.saturating_add(credit_grant as u32);
        }
        request.lifecycle.observe_response_commitment();
        self.requests.set(i, request);
        proof {
            update_keeps_wf(old(self)@, self@, i as int, request);
        }
        self.release_payload(i);
    }

    /// Records the answer itself.
    fn record_answer(&mut self, i: usize, event: ResponseEvent, effects: &mut Vec<OwnerEffect>)
        requires
            old(self)@.wf(),
            i < old(self)@.requests.len(),
            old(self)@.requests[i as int].lifecycle.response != ResponseProgress::Final,
            event matches ResponseEvent::Pending { async_id } ==> forall|j: int|
                j != i ==> !old(self)@.pending_under(async_id, j),
        ensures
            final(self)@ == old(self)@.answer_recorded(i as int, event).0,
            final(effects)@ == old(effects)@ + old(self)@.answer_recorded(i as int, event).1,
            final(self)@.wf(),
    {
        proof {
            assert(self@.request_ok(self@.requests[i as int]));
        }
        let mut request = self.requests[i];
        let key = request.lifecycle.key;
        match event {
            ResponseEvent::Pending { async_id } => {
                let effect = request.lifecycle.reduce(RequestEvent::AsyncPending { key, async_id });
                proof {
                    assert forall|j: int| 0 <= j < self@.requests.len() && j != i implies (
                    #[trigger] self@.requests[j]).lifecycle.response
                        != request.lifecycle.response by {
                        assert(!self@.pending_under(async_id, j));
                    }
                }
                self.set_lifecycle(i, request.lifecycle);
                effects.push(OwnerEffect::Request { key, effect });
            },
            ResponseEvent::Final => {
                let effect = request.lifecycle.reduce(RequestEvent::FinalResponse { key });
                effects.push(OwnerEffect::Request { key, effect });
                request.credit_obligation = false;
                match request.deadline_version.checked_add(1) {
                    Some(version) => {
                        request.deadline_version = version;
                    },
                    None => {
                        self.unhealthy = true;
                        effects.push(OwnerEffect::GenerationUnhealthy { key });
                    },
                }
                self.requests.set(i, request);
                proof {
                    update_keeps_wf(old(self)@, self@, i as int, request);
                }
                self.release_request_ownership(i);
            },
        }
    }

    /// Takes an answer that the `i`th request still expects.
    fn take_answer(&mut self, i: usize, event: ResponseEvent, credit_grant: u16) -> (effects: Vec<
        OwnerEffect,
    >)
        requires
            old(self)@.wf(),
            i < old(self)@.requests.len(),
            old(self)@.requests[i as int].lifecycle.response != ResponseProgress::Final,
            event matches ResponseEvent::Pending { async_id } ==> forall|j: int|
                j != i ==> !old(self)@.pending_under(async_id, j),
        ensures
            (final(self)@, effects@) == old(self)@.answered(i as int, event, credit_grant),
            final(self)@.wf(),
    {
        let key = self.requests[i].lifecycle.key;
        // Protocol bookkeeping precedes the caller's completion.
        self.settle_credits(i, credit_grant);
        let ghost settled = self@;
        let available: u32 = match self.available_credits.checked_add(credit_grant as u32) {
            Some(available) => available,
            None => {
                self.unhealthy = true;
                proof {
                    ledger_change_keeps_wf(settled, self@);
                }
                return vec![
                    OwnerEffect::CreditLedgerOverflow {
                        key,
                        available: self.available_credits,
                        grant: credit_grant,
                    },
                    OwnerEffect::GenerationUnhealthy { key },
                ];
            },
        };
        self.available_credits = available;
        proof {
            ledger_change_keeps_wf(settled, self@);
            if event is Pending {
                let async_id = event->async_id;
                assert forall|j: int| j != i implies !self@.pending_under(async_id, j) by {
                    assert(!old(self)@.pending_under(async_id, j));
                }
            }
        }
        let mut effects = vec![
            OwnerEffect::CreditGrantApplied { key, grant: credit_grant, available },
        ];
        self.record_answer(i, event, &mut effects);
        effects
    }

    pub fn response(&mut self, key: RequestKey, event: ResponseEvent, credit_grant: u16) -> (effects:
        Vec<OwnerEffect>)
        requires
            old(self)@.wf(),
        ensures
            (final(self)@, effects@) == old(self)@.responded(key, event, credit_grant),
            final(self)@.wf(),
    {
        if key.generation != self.generation {
            return self.unaddressed(key);
        }
        if let ResponseEvent::Pending { async_id } = event {
            if let Some(existing) = self.request_for_async_id(async_id) {
                if existing != key {
                    self.unhealthy = true;
                    proof {
                        ledger_change_keeps_wf(old(self)@, self@);
                    }
                    return vec![
                        OwnerEffect::AsyncIdConflict { async_id, existing, incoming: key },
                        OwnerEffect::GenerationUnhealthy { key },
                    ];
                }
            }
        }
        let i: usize = match self.find(key) {
            Some(i) => i,
            None => {
                return self.unaddressed(key);
            },
        };
        let progress = self.requests[i].lifecycle.response;
        if let ResponseEvent::Pending { async_id } = event {
            if let ResponseProgress::AsyncPending { async_id: existing } = progress {
                if existing != async_id {
                    self.unhealthy = true;
                    proof {
                        ledger_change_keeps_wf(old(self)@, self@);
                    }
                    return vec![
                        OwnerEffect::AsyncIdChanged { key, existing, incoming: async_id },
                        OwnerEffect::GenerationUnhealthy { key },
                    ];
                }
            }
        }
        if progress == ResponseProgress::Final {
            return vec![OwnerEffect::DuplicateResponse(key)];
        }
        proof {
            if event is Pending {
                async_id_is_free(self@, key, event->async_id, i as int);
            }
        }
        self.take_answer(i, event, credit_grant)
    }

    /// Fires the first deadline.
    fn fire_first(&mut self, now: MonotonicTime, effects: &mut Vec<OwnerEffect>)
        requires
            old(self)@.wf(),
            old(self)@.deadlines.len() > 0,
        ensures
            final(self)@ == old(self)@.fired(now).0,
            final(effects)@ == old(effects)@ + old(self)@.fired(now).1,
            final(self)@.wf(),
    {
        let entry = self.deadlines[0];
        let _ = self.deadlines.pop_front();
        proof {
            assert(self.deadlines@ =~= old(self)@.deadlines.drop_first());
            popping_keeps_wf(old(self)@, self@);
        }
        let i: usize = match self.find(entry.key) {
            Some(i) => i,
            None => {
                effects.push(OwnerEffect::StaleDeadlineIgnored(entry.key));
                return;
            },
        };
        proof {
            assert(self@.request_ok(self@.requests[i as int]));
            position_is_unique(old(self)@, entry.key, i as int);
        }
        let request = self.requests[i];
        if request.deadline_version != entry.version {
            effects.push(OwnerEffect::StaleDeadlineIgnored(entry.key));
            return;
        }
        match entry.kind {
            DeadlineKind::Caller => {
                if !request.lifecycle.caller_is_open() {
                    effects.push(OwnerEffect::StaleDeadlineIgnored(entry.key));
                    return;
                }
                let committed = request.lifecycle.wire_committed();
                let mut lifecycle = request.lifecycle;
                let effect = lifecycle.reduce(RequestEvent::Deadline);
                self.set_lifecycle(i, lifecycle);
                effects.push(OwnerEffect::Request { key: entry.key, effect });
                self.wind_down(i, now, committed, effects);
            },
            DeadlineKind::Tombstone => {
                if request.lifecycle.is_tombstone() && request.lifecycle.response()
                    != ResponseProgress::Final {
                    let ghost popped = self@;
                    self.unhealthy = true;
                    effects.push(OwnerEffect::GenerationUnhealthy { key: entry.key });
                    proof {
                        ledger_change_keeps_wf(popped, self@);
                    }
                } else {
                    effects.push(OwnerEffect::StaleDeadlineIgnored(entry.key));
                }
            },
        }
    }

    pub fn advance_time(&mut self, now: MonotonicTime) -> (effects: Vec<OwnerEffect>)
        requires
            old(self)@.wf(),
        ensures
            (final(self)@, effects@) == old(self)@.advanced(now),
            final(self)@.wf(),
    {
        let mut effects: Vec<OwnerEffect> = Vec::new();
        while self.deadlines.len() > 0 && self.deadlines[0].at.at_or_before(now)
            invariant
                self@.wf(),
                self@.deadlines == self.deadlines@,
                old(self)@.advanced(now).0 == self@.advanced(now).0,
                old(self)@.advanced(now).1 == effects@ + self@.advanced(now).1,
            decreases outstanding(self@.deadlines),
        {
            let ghost before = self@;
            let ghost told = effects@;
            proof {
                firing_takes_work_away(before, now);
            }
            self.fire_first(now, &mut effects);
            proof {
                assert(before.advanced(now).1 == before.fired(now).1 + self@.advanced(now).1);
                assert(told + (before.fired(now).1 + self@.advanced(now).1) =~= effects@
                    + self@.advanced(now).1);
            }
        }
        proof {
            assert(!self@.due(now));
            assert(effects@ + seq![] =~= effects@);
        }
        effects
    }

    pub fn disconnect(&mut self) -> (effects: Vec<OwnerEffect>)
        requires
            old(self)@.wf(),
        ensures
            (final(self)@, effects@) == old(self)@.disconnected(0),
            final(self)@.wf(),
    {
        let mut effects: Vec<OwnerEffect> = Vec::new();
        let mut i: usize = 0;
        while i < self.requests.len()
            invariant
                i <= self.requests@.len(),
                self@.wf(),
                self@.requests == self.requests@,
                old(self)@.disconnected(0).0 == self@.disconnected(i as int).0,
                old(self)@.disconnected(0).1 == effects@ + self@.disconnected(i as int).1,
            decreases self.requests@.len() - i,
        {
            let ghost before = self@;
            let ghost told = effects@;
            proof {
                assert(self@.request_ok(self@.requests[i as int]));
            }
            let mut lifecycle = self.requests[i].lifecycle;
            let effect = lifecycle.reduce(RequestEvent::Disconnect);
            let key = lifecycle.key;
            self.set_lifecycle(i, lifecycle);
            self.release_request_ownership(i);
            effects.push(OwnerEffect::Request { key, effect });
            proof {
                assert(told + before.disconnected(i as int).1 =~= effects@ + self@.disconnected(
                    i + 1,
                ).1);
            }
            i += 1;
        }
        proof {
            assert(effects@ + seq![] =~= effects@);
        }
        effects
    }

    /// Reduces one event to the effects it has outside the state.
    pub fn reduce(&mut self, event: OwnerEvent) -> (effects: Vec<OwnerEffect>)
        requires
            old(self)@.wf(),
        ensures
            (final(self)@, effects@) == old(self)@.step(event),
            final(self)@.wf(),
    {
        match event {
            OwnerEvent::Admit { payload_bytes, credit_charge, caller_deadline } => {
                vec![self.admit_request(payload_bytes, credit_charge, caller_deadline)]
            },
            OwnerEvent::Request { key, event } => self.request_event(key, event),
            OwnerEvent::PrepareFailed { key } => self.prepare_failed(key),
            OwnerEvent::Cancel { key, now } => self.cancel(key, now),
            OwnerEvent::Response { key, event, credit_grant } => self.response(
                key,
                event,
                credit_grant,
            ),
            OwnerEvent::RecoveryHint { key } => self.recovery_hint(key),
            OwnerEvent::AdvanceTime { now } => self.advance_time(now),
            OwnerEvent::Disconnect => self.disconnect(),
        }
    }

    pub fn generation(&self) -> (generation: GenerationId)
        ensures
            generation == self@.generation,
    {
        self.generation
    }

    pub fn operation_limit(&self) -> (limit: usize)
        ensures
            limit == self@.limits.max_operations,
    {
        self.limits.max_operations
    }

    /// Sets the credits to aim for; at least one is always wanted.
    pub fn set_target_credits(&mut self, target: u32)
        requires
            old(self)@.wf(),
        ensures
            final(self)@ == (GenerationModel {
                target_credits: if target == 0 {
                    1
                } else {
                    target
                },
                ..old(self)@
            }),
            final(self)@.wf(),
    {
        self.target_credits = if target == 0 {
            1
        } else {
            target
        };
        proof {
            ledger_change_keeps_wf(old(self)@, self@);
        }
    }

    /// The lifecycle of an admitted request.
    pub fn request(&self, key: RequestKey) -> (record: Option<&RequestRecord>)
        requires
            self@.wf(),
        ensures
            record == if self@.tracks(key) {
                Some(&self@.request(key).lifecycle)
            } else {
                None::<&RequestRecord>
            },
    {
        match self.find(key) {
            Some(i) => Some(&self.requests[i].lifecycle),
            None => None,
        }
    }

    pub fn available_credits(&self) -> (credits: u32)
        ensures
            credits == self@.available_credits,
    {
        self.available_credits
    }

    pub fn admitted_operations(&self) -> (operations: usize)
        ensures
            operations == self@.admitted_operations,
    {
        self.admitted_operations
    }

    pub fn retained_payload_bytes(&self) -> (bytes: u64)
        ensures
            bytes == self@.retained_payload_bytes,
    {
        self.retained_payload_bytes
    }

    /// When the next deadline is due.
    pub fn next_deadline(&self) -> (at: Option<MonotonicTime>)
        ensures
            at == if self@.deadlines.len() > 0 {
                Some(self@.deadlines[0].at)
            } else {
                None::<MonotonicTime>
            },
    {
        if self.deadlines.len() > 0 {
            Some(self.deadlines[0].at)
        } else {
            None
        }
    }

    pub fn is_unhealthy(&self) -> (unhealthy: bool)
        ensures
            unhealthy == self@.unhealthy,
    {
        self.unhealthy
    }

    /// How many callers still wait.
    pub fn unresolved_callers(&self) -> (callers: usize)
        ensures
            callers == total(self@.requests, open_caller_weight()),
    {
        let mut callers: usize = 0;
        let mut i: usize = 0;
        while i < self.requests.len()
            invariant
                i <= self.requests@.len(),
                callers <= i,
                callers == total(self.requests@.take(i as int), open_caller_weight()),
            decreases self.requests@.len() - i,
        {
            proof {
                assert(self.requests@.take(i + 1).drop_last() =~= self.requests@.take(i as int));
            }
            if self.requests[i].lifecycle.caller_is_open() {
                callers += 1;
            }
            i += 1;
        }
        proof {
            assert(self.requests@.take(i as int) =~= self.requests@);
        }
        callers
    }

    /// What the caller of a request was told.
    pub fn terminal_outcome(&self, key: RequestKey) -> (outcome: Option<TerminalOutcome>)
        requires
            self@.wf(),
        ensures
            outcome == if self@.tracks(key) && self@.request(key).lifecycle.caller is Terminal {
                Some(self@.request(key).lifecycle.caller->Terminal_0)
            } else {
                None::<TerminalOutcome>
            },
    {
        match self.find(key) {
            Some(i) => match self.requests[i].lifecycle.caller {
                CallerOutcome::Open => None,
                CallerOutcome::Terminal(outcome) => Some(outcome),
            },
            None => None,
        }
    }
}

} // verus!
