//! What one event does to a connection generation.
//!
//! The model says in one function per event what the owner's state and effects
//! are afterwards; the owner in `state` is proved to follow it.

use crate::clock::{Duration, MonotonicTime};
use crate::runtime::deadline::{
    fires_before, in_firing_order, outstanding, scheduled, scheduling_adds_weight, scheduling_keeps_order, weight,
    DeadlineEntry, DeadlineKind,
};
use crate::runtime::reducer::{
    CallerOutcome, GenerationId, ReduceEffect, RequestEvent, RequestKey, RequestRecord,
    ResponseProgress, TerminalOutcome,
};
use crate::runtime::state::{
    AdmissionError, AdmissionLimits, OwnedRequest, OwnerEffect, OwnerEvent, PreparationPlan,
    RequestProgress, ResponseEvent,
};
use vstd::prelude::*;

verus! {

/// The sum of a weight over all requests.
pub open spec fn total(requests: Seq<OwnedRequest>, weight: spec_fn(OwnedRequest) -> nat) -> nat
    decreases requests.len(),
{
    if requests.len() == 0 {
        0
    } else {
        total(requests.drop_last(), weight) + weight(requests.last())
    }
}

pub proof fn total_after_update(
    requests: Seq<OwnedRequest>,
    weight: spec_fn(OwnedRequest) -> nat,
    i: int,
    request: OwnedRequest,
)
    requires
        0 <= i < requests.len(),
    ensures
        total(requests.update(i, request), weight) + weight(requests[i]) == total(requests, weight)
            + weight(request),
        total(requests, weight) >= weight(requests[i]),
    decreases requests.len(),
{
    let updated = requests.update(i, request);
    if i == requests.len() - 1 {
        assert(updated.drop_last() =~= requests.drop_last());
    } else {
        assert(updated.drop_last() =~= requests.drop_last().update(i, request));
        total_after_update(requests.drop_last(), weight, i, request);
    }
}

pub proof fn total_after_push(
    requests: Seq<OwnedRequest>,
    weight: spec_fn(OwnedRequest) -> nat,
    request: OwnedRequest,
)
    ensures
        total(requests.push(request), weight) == total(requests, weight) + weight(request),
{
    assert(requests.push(request).drop_last() =~= requests);
}

/// One for each request that occupies an operation slot.
pub open spec fn operation_weight() -> spec_fn(OwnedRequest) -> nat {
    |r: OwnedRequest|
        if r.admission_held {
            1nat
        } else {
            0nat
        }
}

/// The payload bytes that a request still retains.
pub open spec fn payload_weight() -> spec_fn(OwnedRequest) -> nat {
    |r: OwnedRequest|
        if r.payload_held {
            r.payload_bytes as nat
        } else {
            0nat
        }
}

/// One for each caller that still waits.
pub open spec fn open_caller_weight() -> spec_fn(OwnedRequest) -> nat {
    |r: OwnedRequest|
        if r.lifecycle.caller == CallerOutcome::Open {
            1nat
        } else {
            0nat
        }
}

pub open spec fn min_u32(a: int, b: int) -> u32 {
    if a <= b {
        a as u32
    } else {
        b as u32
    }
}

pub open spec fn saturated_add(a: u32, b: u32) -> u32 {
    min_u32(a + b, u32::MAX as int)
}

pub open spec fn saturated_sub(a: u32, b: u32) -> u32 {
    if a >= b {
        (a - b) as u32
    } else {
        0
    }
}

/// The state of one generation.
#[verifier::ext_equal]
pub struct GenerationModel {
    pub generation: GenerationId,
    pub limits: AdmissionLimits,
    pub next_message_id: Option<u64>,
    pub available_credits: u32,
    pub total_credits: u32,
    pub pending_extra_credits: u32,
    pub target_credits: u32,
    pub admitted_operations: usize,
    pub retained_payload_bytes: u64,
    /// Every request admitted so far, by ascending message id.
    pub requests: Seq<OwnedRequest>,
    /// Deadlines that have not fired, in firing order.
    pub deadlines: Seq<DeadlineEntry>,
    pub next_deadline_sequence: u64,
    pub tombstone_drain_timeout: Duration,
    pub unhealthy: bool,
}

impl GenerationModel {
    pub open spec fn initial(
        generation: GenerationId,
        initial_message_id: u64,
        initial_credits: u32,
        target_credits: u32,
        limits: AdmissionLimits,
        tombstone_drain_timeout: Duration,
    ) -> GenerationModel {
        GenerationModel {
            generation,
            limits,
            next_message_id: Some(initial_message_id),
            available_credits: initial_credits,
            total_credits: initial_credits,
            pending_extra_credits: 0,
            target_credits,
            admitted_operations: 0,
            retained_payload_bytes: 0,
            requests: Seq::empty(),
            deadlines: Seq::empty(),
            next_deadline_sequence: 0,
            tombstone_drain_timeout,
            unhealthy: false,
        }
    }

    /// Facts about each request on its own.
    pub open spec fn request_ok(self, request: OwnedRequest) -> bool {
        &&& request.lifecycle.key.generation == self.generation
        &&& request.lifecycle.consistent()
        &&& request.payload_held ==> request.admission_held
        &&& self.next_message_id matches Some(next) ==> request.lifecycle.key.message_id < next
    }

    /// What holds in every state: message ids are unique and ascend, the
    /// budgets in use are exactly what the requests hold and never exceed the
    /// limits, an async id belongs to one request, and deadlines are in order.
    pub open spec fn wf(self) -> bool {
        &&& forall|i: int|
            0 <= i < self.requests.len() ==> self.request_ok(#[trigger] self.requests[i])
        &&& forall|i: int, j: int|
            0 <= i < j < self.requests.len() ==> (#[trigger] self.requests[i]).lifecycle.key.message_id
                < (#[trigger] self.requests[j]).lifecycle.key.message_id
        &&& self.admitted_operations == total(self.requests, operation_weight())
        &&& self.admitted_operations <= self.limits.max_operations
        &&& self.retained_payload_bytes == total(self.requests, payload_weight())
        &&& self.retained_payload_bytes <= self.limits.max_payload_bytes
        &&& forall|i: int, j: int|
            0 <= i < self.requests.len() && 0 <= j < self.requests.len() && i != j && (
            #[trigger] self.requests[i]).lifecycle.response is AsyncPending ==> (
            #[trigger] self.requests[j]).lifecycle.response != self.requests[i].lifecycle.response
        &&& in_firing_order(self.deadlines)
        &&& forall|d: DeadlineEntry| #[trigger]
            self.deadlines.contains(d) ==> d.key.generation == self.generation
    }

    /// Whether `key` names an admitted request of this generation.
    pub open spec fn tracks(self, key: RequestKey) -> bool {
        exists|i: int| 0 <= i < self.requests.len() && (#[trigger] self.requests[i]).lifecycle.key == key
    }

    pub open spec fn position(self, key: RequestKey) -> int {
        choose|i: int| 0 <= i < self.requests.len() && (#[trigger] self.requests[i]).lifecycle.key == key
    }

    pub open spec fn request(self, key: RequestKey) -> OwnedRequest {
        self.requests[self.position(key)]
    }

    pub open spec fn with_request(self, i: int, request: OwnedRequest) -> GenerationModel {
        GenerationModel { requests: self.requests.update(i, request), ..self }
    }

    pub open spec fn with_lifecycle(self, i: int, lifecycle: RequestRecord) -> GenerationModel {
        self.with_request(i, OwnedRequest { lifecycle, ..self.requests[i] })
    }

    /// The first reason, if any, to refuse an admission.
    pub open spec fn refusal(self, payload_bytes: u64, credit_charge: u16) -> Option<
        AdmissionError,
    > {
        if credit_charge == 0 {
            Some(AdmissionError::InvalidCreditCharge)
        } else if self.admitted_operations >= self.limits.max_operations {
            Some(AdmissionError::OperationsExhausted)
        } else if self.retained_payload_bytes + payload_bytes > self.limits.max_payload_bytes {
            Some(AdmissionError::PayloadBytesExhausted)
        } else if credit_charge > self.available_credits {
            Some(
                AdmissionError::CreditsExhausted {
                    available: self.available_credits,
                    requested: credit_charge,
                },
            )
        } else if self.next_message_id is None {
            Some(AdmissionError::MessageIdExhausted)
        } else {
            None
        }
    }

    /// Credits to ask for: the charge, and what is missing to the target, as
    /// far as the header field reaches.
    pub open spec fn credit_request(self, credit_charge: u16) -> u16 {
        let missing = saturated_sub(
            self.target_credits,
            saturated_add(self.total_credits, self.pending_extra_credits),
        );
        if credit_charge + missing <= u16::MAX {
            (credit_charge + missing) as u16
        } else {
            u16::MAX
        }
    }

    pub open spec fn admitted(
        self,
        payload_bytes: u64,
        credit_charge: u16,
        caller_deadline: Option<MonotonicTime>,
    ) -> (GenerationModel, OwnerEffect) {
        match self.refusal(payload_bytes, credit_charge) {
            Some(error) => (self, OwnerEffect::AdmissionRejected(error)),
            None => {
                let message_id = self.next_message_id.unwrap();
                let key = RequestKey { generation: self.generation, message_id };
                let credit_request = self.credit_request(credit_charge);
                let extra = (credit_request - credit_charge) as u32;
                let reserved = GenerationModel {
                    next_message_id: if message_id + credit_charge <= u64::MAX {
                        Some((message_id + credit_charge) as u64)
                    } else {
                        None
                    },
                    available_credits: (self.available_credits - credit_charge) as u32,
                    pending_extra_credits: saturated_add(self.pending_extra_credits, extra),
                    admitted_operations: (self.admitted_operations + 1) as usize,
                    retained_payload_bytes: (self.retained_payload_bytes + payload_bytes) as u64,
                    requests: self.requests.push(
                        OwnedRequest {
                            lifecycle: RequestRecord::fresh(key),
                            payload_bytes,
                            credit_charge,
                            requested_extra_credits: extra,
                            credit_response_seen: false,
                            admission_held: true,
                            payload_held: true,
                            credit_obligation: true,
                            cancel_seen: false,
                            deadline_version: 0,
                        },
                    ),
                    ..self
                };
                (
                    match caller_deadline {
                        Some(at) => reserved.deadline_set(
                            self.requests.len() as int,
                            at,
                            DeadlineKind::Caller,
                        ).0,
                        None => reserved,
                    },
                    OwnerEffect::Admitted(
                        PreparationPlan {
                            key,
                            payload_bytes,
                            credit_charge,
                            credit_request,
                            caller_deadline,
                        },
                    ),
                )
            },
        }
    }

    /// Sets a deadline for one request, which makes its earlier ones stale.
    /// Fails when the request has used up its deadline versions.
    pub open spec fn deadline_set(self, i: int, at: MonotonicTime, kind: DeadlineKind) -> (
        GenerationModel,
        bool,
    ) {
        let request = self.requests[i];
        if request.deadline_version == u64::MAX {
            (GenerationModel { unhealthy: true, ..self }, false)
        } else {
            let version = (request.deadline_version + 1) as u64;
            (
                GenerationModel {
                    next_deadline_sequence: if self.next_deadline_sequence < u64::MAX {
                        (self.next_deadline_sequence + 1) as u64
                    } else {
                        u64::MAX
                    },
                    deadlines: scheduled(
                        self.deadlines,
                        DeadlineEntry {
                            at,
                            sequence: self.next_deadline_sequence,
                            key: request.lifecycle.key,
                            kind,
                            version,
                        },
                    ),
                    ..self.with_request(i, OwnedRequest { deadline_version: version, ..request })
                },
                true,
            )
        }
    }

    pub open spec fn payload_released(self, i: int) -> GenerationModel {
        let request = self.requests[i];
        if request.payload_held {
            GenerationModel {
                retained_payload_bytes: (self.retained_payload_bytes
                    - request.payload_bytes) as u64,
                ..self.with_request(i, OwnedRequest { payload_held: false, ..request })
            }
        } else {
            self
        }
    }

    pub open spec fn ownership_released(self, i: int) -> GenerationModel {
        let released = self.payload_released(i);
        let request = released.requests[i];
        if request.admission_held {
            GenerationModel {
                admitted_operations: (released.admitted_operations - 1) as usize,
                ..released.with_request(i, OwnedRequest { admission_held: false, ..request })
            }
        } else {
            released
        }
    }

    /// Gives back what a request that never reached the wire had reserved.
    /// Nothing happens to one that holds nothing, or whose credits no longer
    /// fit the ledger.
    pub open spec fn rolled_back(self, i: int) -> (GenerationModel, bool) {
        let request = self.requests[i];
        if !request.credit_obligation && !request.admission_held {
            (self, false)
        } else if !request.credit_obligation {
            (self.ownership_released(i), true)
        } else if self.available_credits + request.credit_charge > u32::MAX {
            (self, false)
        } else {
            (
                GenerationModel {
                    available_credits: (self.available_credits + request.credit_charge) as u32,
                    pending_extra_credits: saturated_sub(
                        self.pending_extra_credits,
                        request.requested_extra_credits,
                    ),
                    ..self.with_request(i, OwnedRequest { credit_obligation: false, ..request })
                }.ownership_released(i),
                true,
            )
        }
    }

    /// The effects for a key that is not an admitted request of this
    /// generation.
    pub open spec fn unaddressed(self, key: RequestKey) -> Seq<OwnerEffect> {
        if key.generation != self.generation {
            seq![OwnerEffect::Request { key, effect: ReduceEffect::IgnoredForeignGeneration }]
        } else {
            seq![OwnerEffect::UnknownRequest(key)]
        }
    }

    pub open spec fn progressed(self, key: RequestKey, event: RequestProgress) -> (
        GenerationModel,
        Seq<OwnerEffect>,
    ) {
        if !self.tracks(key) {
            (self, self.unaddressed(key))
        } else {
            let i = self.position(key);
            let (lifecycle, effect) = self.requests[i].lifecycle.reduced(
                match event {
                    RequestProgress::Queued => RequestEvent::Queued,
                    RequestProgress::WriteProgress { bytes } => RequestEvent::WriteProgress {
                        bytes,
                    },
                    RequestProgress::WriteComplete => RequestEvent::WriteComplete,
                },
            );
            let reduced = self.with_lifecycle(i, lifecycle);
            (
                if event == RequestProgress::WriteComplete {
                    reduced.payload_released(i)
                } else {
                    reduced
                },
                seq![OwnerEffect::Request { key, effect }],
            )
        }
    }

    /// What follows when a caller stops waiting. A request on the wire is
    /// cancelled there and drained until its tombstone deadline; any other is
    /// rolled back.
    pub open spec fn wound_down(self, i: int, now: MonotonicTime, committed: bool) -> (
        GenerationModel,
        Seq<OwnerEffect>,
    ) {
        let key = self.requests[i].lifecycle.key;
        if committed {
            let (next, set) = self.deadline_set(
                i,
                now.plus(self.tombstone_drain_timeout),
                DeadlineKind::Tombstone,
            );
            (
                next,
                if set {
                    seq![OwnerEffect::BestEffortWireCancel(key)]
                } else {
                    seq![
                        OwnerEffect::BestEffortWireCancel(key),
                        OwnerEffect::GenerationUnhealthy { key },
                    ]
                },
            )
        } else {
            let (next, done) = self.rolled_back(i);
            (
                next,
                if done {
                    seq![OwnerEffect::ReservationRolledBack(key)]
                } else {
                    seq![]
                },
            )
        }
    }

    pub open spec fn cancelled(self, key: RequestKey, now: MonotonicTime) -> (
        GenerationModel,
        Seq<OwnerEffect>,
    ) {
        if !self.tracks(key) {
            (self, self.unaddressed(key))
        } else {
            let i = self.position(key);
            let request = self.requests[i];
            let seen = self.with_request(i, OwnedRequest { cancel_seen: true, ..request });
            if request.cancel_seen || request.lifecycle.caller != CallerOutcome::Open {
                (seen, seq![OwnerEffect::DuplicateCancel(key)])
            } else {
                let (lifecycle, effect) = request.lifecycle.reduced(RequestEvent::Cancel);
                let (next, further) = seen.with_lifecycle(i, lifecycle).wound_down(
                    i,
                    now,
                    request.lifecycle.send.is_committed(),
                );
                (
                    next,
                    seq![
                        OwnerEffect::CancelControlQueued(key),
                        OwnerEffect::Request { key, effect },
                    ] + further,
                )
            }
        }
    }

    pub open spec fn preparation_failed(self, key: RequestKey) -> (
        GenerationModel,
        Seq<OwnerEffect>,
    ) {
        if !self.tracks(key) {
            (self, self.unaddressed(key))
        } else {
            let i = self.position(key);
            let request = self.requests[i];
            if request.lifecycle.send.is_committed() {
                (self, seq![OwnerEffect::Request { key, effect: ReduceEffect::BookkeepingOnly }])
            } else {
                let (lifecycle, effect) = request.lifecycle.published(
                    TerminalOutcome::PreparationFailed,
                );
                let (next, done) = self.with_lifecycle(i, lifecycle).rolled_back(i);
                (
                    next,
                    if done {
                        seq![
                            OwnerEffect::Request { key, effect },
                            OwnerEffect::ReservationRolledBack(key),
                        ]
                    } else {
                        seq![OwnerEffect::Request { key, effect }]
                    },
                )
            }
        }
    }

    /// Believes of an unauthenticated answer only that the session is gone:
    /// the caller is told, its budgets are freed, and no credit moves.
    pub open spec fn hinted(self, key: RequestKey) -> (GenerationModel, Seq<OwnerEffect>) {
        if !self.tracks(key) {
            (self, self.unaddressed(key))
        } else {
            let i = self.position(key);
            let (lifecycle, effect) = self.requests[i].lifecycle.published(
                TerminalOutcome::SessionInvalidated,
            );
            (
                self.with_lifecycle(i, lifecycle).ownership_released(i),
                seq![OwnerEffect::Request { key, effect }],
            )
        }
    }

    /// The request that an interim response left pending under `async_id`.
    pub open spec fn pending_under(self, async_id: u64, i: int) -> bool {
        0 <= i < self.requests.len() && self.requests[i].lifecycle.response
            == (ResponseProgress::AsyncPending { async_id })
    }

    pub open spec fn async_holder(self, async_id: u64) -> Option<RequestKey> {
        if exists|i: int| self.pending_under(async_id, i) {
            Some(
                self.requests[choose|i: int| self.pending_under(async_id, i)].lifecycle.key,
            )
        } else {
            None
        }
    }

    /// The ledger once an answer's grant is known: the first answer settles
    /// the charge and the credits asked for, later ones only add their grant.
    pub open spec fn credits_settled(self, i: int, credit_grant: u16) -> GenerationModel {
        let request = self.requests[i];
        let settled = if !request.credit_response_seen {
            GenerationModel {
                pending_extra_credits: saturated_sub(
                    self.pending_extra_credits,
                    request.requested_extra_credits,
                ),
                total_credits: saturated_add(
                    saturated_sub(self.total_credits, request.credit_charge as u32),
                    credit_grant as u32,
                ),
                ..self
            }
        } else {
            GenerationModel {
                total_credits: saturated_add(self.total_credits, credit_grant as u32),
                ..self
            }
        };
        settled.with_request(
            i,
            OwnedRequest {
                credit_response_seen: true,
                lifecycle: request.lifecycle.answered(),
                ..request
            },
        ).payload_released(i)
    }

    /// The wire state once the answer itself is recorded.
    pub open spec fn answer_recorded(self, i: int, event: ResponseEvent) -> (
        GenerationModel,
        Seq<OwnerEffect>,
    ) {
        let request = self.requests[i];
        let key = request.lifecycle.key;
        match event {
            ResponseEvent::Pending { async_id } => {
                let (lifecycle, effect) = request.lifecycle.reduced(
                    RequestEvent::AsyncPending { key, async_id },
                );
                (self.with_lifecycle(i, lifecycle), seq![OwnerEffect::Request { key, effect }])
            },
            ResponseEvent::Final => {
                let (lifecycle, effect) = request.lifecycle.reduced(
                    RequestEvent::FinalResponse { key },
                );
                let exhausted = request.deadline_version == u64::MAX;
                let settled = OwnedRequest {
                    lifecycle,
                    credit_obligation: false,
                    deadline_version: if exhausted {
                        request.deadline_version
                    } else {
                        (request.deadline_version + 1) as u64
                    },
                    ..request
                };
                (
                    (GenerationModel {
                        unhealthy: self.unhealthy || exhausted,
                        ..self.with_request(i, settled)
                    }).ownership_released(i),
                    if exhausted {
                        seq![
                            OwnerEffect::Request { key, effect },
                            OwnerEffect::GenerationUnhealthy { key },
                        ]
                    } else {
                        seq![OwnerEffect::Request { key, effect }]
                    },
                )
            },
        }
    }

    /// An answer that the request still expects: its credits are settled first,
    /// and it is recorded unless the ledger cannot hold the grant.
    pub open spec fn answered(self, i: int, event: ResponseEvent, credit_grant: u16) -> (
        GenerationModel,
        Seq<OwnerEffect>,
    ) {
        let key = self.requests[i].lifecycle.key;
        let settled = self.credits_settled(i, credit_grant);
        if settled.available_credits + credit_grant > u32::MAX {
            (
                GenerationModel { unhealthy: true, ..settled },
                seq![
                    OwnerEffect::CreditLedgerOverflow {
                        key,
                        available: settled.available_credits,
                        grant: credit_grant,
                    },
                    OwnerEffect::GenerationUnhealthy { key },
                ],
            )
        } else {
            let available = (settled.available_credits + credit_grant) as u32;
            let (next, further) = (GenerationModel {
                available_credits: available,
                ..settled
            }).answer_recorded(i, event);
            (
                next,
                seq![OwnerEffect::CreditGrantApplied { key, grant: credit_grant, available }]
                    + further,
            )
        }
    }

    pub open spec fn responded(self, key: RequestKey, event: ResponseEvent, credit_grant: u16) -> (
        GenerationModel,
        Seq<OwnerEffect>,
    ) {
        let sick = GenerationModel { unhealthy: true, ..self };
        let holder = match event {
            ResponseEvent::Pending { async_id } => self.async_holder(async_id),
            ResponseEvent::Final => None,
        };
        if key.generation != self.generation {
            (self, self.unaddressed(key))
        } else if holder is Some && holder != Some(key) {
            (
                sick,
                seq![
                    OwnerEffect::AsyncIdConflict {
                        async_id: event->async_id,
                        existing: holder.unwrap(),
                        incoming: key,
                    },
                    OwnerEffect::GenerationUnhealthy { key },
                ],
            )
        } else if !self.tracks(key) {
            (self, self.unaddressed(key))
        } else {
            let i = self.position(key);
            let progress = self.requests[i].lifecycle.response;
            if event is Pending && progress is AsyncPending && progress->async_id
                != event->async_id {
                (
                    sick,
                    seq![
                        OwnerEffect::AsyncIdChanged {
                            key,
                            existing: progress->async_id,
                            incoming: event->async_id,
                        },
                        OwnerEffect::GenerationUnhealthy { key },
                    ],
                )
            } else if progress == ResponseProgress::Final {
                (self, seq![OwnerEffect::DuplicateResponse(key)])
            } else {
                self.answered(i, event, credit_grant)
            }
        }
    }

    /// Fires the first deadline.
    pub open spec fn fired(self, now: MonotonicTime) -> (GenerationModel, Seq<OwnerEffect>) {
        let entry = self.deadlines[0];
        let popped = GenerationModel { deadlines: self.deadlines.drop_first(), ..self };
        let stale = (popped, seq![OwnerEffect::StaleDeadlineIgnored(entry.key)]);
        if !self.tracks(entry.key) {
            stale
        } else {
            let i = self.position(entry.key);
            let request = self.requests[i];
            if request.deadline_version != entry.version {
                stale
            } else if entry.kind == DeadlineKind::Caller {
                if request.lifecycle.caller != CallerOutcome::Open {
                    stale
                } else {
                    let (lifecycle, effect) = request.lifecycle.reduced(RequestEvent::Deadline);
                    let (next, further) = popped.with_lifecycle(i, lifecycle).wound_down(
                        i,
                        now,
                        request.lifecycle.send.is_committed(),
                    );
                    (next, seq![OwnerEffect::Request { key: entry.key, effect }] + further)
                }
            } else if request.lifecycle.tombstone && request.lifecycle.response
                != ResponseProgress::Final {
                (
                    GenerationModel { unhealthy: true, ..popped },
                    seq![OwnerEffect::GenerationUnhealthy { key: entry.key }],
                )
            } else {
                stale
            }
        }
    }

    pub open spec fn due(self, now: MonotonicTime) -> bool {
        self.deadlines.len() > 0 && self.deadlines[0].at@ <= now@
    }

    /// Fires every deadline that is due, in firing order, those that firing
    /// sets included.
    pub open spec fn advanced(self, now: MonotonicTime) -> (GenerationModel, Seq<OwnerEffect>)
        decreases outstanding(self.deadlines),
    {
        if self.due(now) {
            proof {
                firing_takes_work_away(self, now);
            }
            let (next, effects) = self.fired(now);
            let (last, further) = next.advanced(now);
            (last, effects + further)
        } else {
            (self, seq![])
        }
    }

    /// Settles the requests from the `i`th on: their callers learn that the
    /// generation ended, and all that they hold is freed.
    pub open spec fn disconnected(self, i: int) -> (GenerationModel, Seq<OwnerEffect>)
        decreases self.requests.len() - i,
    {
        if i < 0 || i >= self.requests.len() {
            (self, seq![])
        } else {
            let (lifecycle, effect) = self.requests[i].lifecycle.reduced(RequestEvent::Disconnect);
            let next = self.with_lifecycle(i, lifecycle).ownership_released(i);
            let (last, further) = next.disconnected(i + 1);
            (
                last,
                seq![
                    OwnerEffect::Request { key: self.requests[i].lifecycle.key, effect },
                ] + further,
            )
        }
    }

    /// The state and the effects after one event.
    pub open spec fn step(self, event: OwnerEvent) -> (GenerationModel, Seq<OwnerEffect>) {
        match event {
            OwnerEvent::Admit { payload_bytes, credit_charge, caller_deadline } => {
                let (next, effect) = self.admitted(payload_bytes, credit_charge, caller_deadline);
                (next, seq![effect])
            },
            OwnerEvent::Request { key, event } => self.progressed(key, event),
            OwnerEvent::PrepareFailed { key } => self.preparation_failed(key),
            OwnerEvent::Cancel { key, now } => self.cancelled(key, now),
            OwnerEvent::Response { key, event, credit_grant } => self.responded(
                key,
                event,
                credit_grant,
            ),
            OwnerEvent::RecoveryHint { key } => self.hinted(key),
            OwnerEvent::AdvanceTime { now } => self.advanced(now),
            OwnerEvent::Disconnect => self.disconnected(0),
        }
    }
}

/// Firing a deadline leaves less work than before: it is gone, and at most a
/// tombstone has taken the place of a caller's deadline.
pub proof fn firing_takes_work_away(model: GenerationModel, now: MonotonicTime)
    requires
        model.deadlines.len() > 0,
    ensures
        outstanding(model.fired(now).0.deadlines) < outstanding(model.deadlines),
{
    let entry = model.deadlines[0];
    let rest = model.deadlines.drop_first();
    assert(outstanding(model.deadlines) == weight(entry) + outstanding(rest));
    let i = model.position(entry.key);
    let request = model.requests[i];
    if model.tracks(entry.key) && request.deadline_version == entry.version && entry.kind
        == DeadlineKind::Caller && request.lifecycle.caller == CallerOutcome::Open {
        let popped = GenerationModel { deadlines: rest, ..model };
        let reduced = popped.with_lifecycle(
            i,
            request.lifecycle.reduced(RequestEvent::Deadline).0,
        );
        assert(reduced.deadlines == rest);
        if request.lifecycle.send.is_committed() {
            let next = reduced.deadline_set(
                i,
                now.plus(model.tombstone_drain_timeout),
                DeadlineKind::Tombstone,
            );
            if next.1 {
                let tombstone = DeadlineEntry {
                    at: now.plus(model.tombstone_drain_timeout),
                    sequence: reduced.next_deadline_sequence,
                    key: reduced.requests[i].lifecycle.key,
                    kind: DeadlineKind::Tombstone,
                    version: (reduced.requests[i].deadline_version + 1) as u64,
                };
                scheduling_adds_weight(rest, tombstone);
                assert(next.0.deadlines == scheduled(rest, tombstone));
            }
        } else {
            assert(reduced.rolled_back(i).0.deadlines == rest);
        }
    }
}

/// A key names at most one request.
pub proof fn position_is_unique(model: GenerationModel, key: RequestKey, i: int)
    requires
        model.wf(),
        0 <= i < model.requests.len(),
        model.requests[i].lifecycle.key == key,
    ensures
        model.tracks(key),
        model.position(key) == i,
{
    let p = model.position(key);
    assert(0 <= p < model.requests.len() && model.requests[p].lifecycle.key == key);
    if p < i {
        assert(model.requests[p].lifecycle.key.message_id
            < model.requests[i].lifecycle.key.message_id);
    } else if i < p {
        assert(model.requests[i].lifecycle.key.message_id
            < model.requests[p].lifecycle.key.message_id);
    }
}

/// Replacing one request keeps the state well-formed, as long as the request
/// keeps its identity, the budgets follow what it holds, and it takes no async
/// id from another.
pub proof fn update_keeps_wf(
    model: GenerationModel,
    next: GenerationModel,
    i: int,
    request: OwnedRequest,
)
    requires
        model.wf(),
        0 <= i < model.requests.len(),
        next.requests == model.requests.update(i, request),
        next.generation == model.generation,
        next.limits == model.limits,
        next.next_message_id == model.next_message_id,
        next.deadlines == model.deadlines,
        request.lifecycle.key == model.requests[i].lifecycle.key,
        request.lifecycle.consistent(),
        request.payload_bytes == model.requests[i].payload_bytes,
        request.payload_held ==> request.admission_held && model.requests[i].payload_held,
        request.admission_held ==> model.requests[i].admission_held,
        next.admitted_operations == model.admitted_operations - (if model.requests[i].admission_held
            && !request.admission_held {
            1int
        } else {
            0int
        }),
        next.retained_payload_bytes == model.retained_payload_bytes - (
        if model.requests[i].payload_held && !request.payload_held {
            request.payload_bytes as int
        } else {
            0int
        }),
        request.lifecycle.response is AsyncPending ==> forall|j: int|
            0 <= j < model.requests.len() && j != i ==> (
            #[trigger] model.requests[j]).lifecycle.response != request.lifecycle.response,
    ensures
        next.wf(),
{
    total_after_update(model.requests, operation_weight(), i, request);
    total_after_update(model.requests, payload_weight(), i, request);
    assert forall|j: int| 0 <= j < next.requests.len() implies next.request_ok(
        #[trigger] next.requests[j],
    ) by {
        assert(model.request_ok(model.requests[j]));
        assert(model.request_ok(model.requests[i]));
    }
    assert forall|a: int, b: int| 0 <= a < b < next.requests.len() implies (
    #[trigger] next.requests[a]).lifecycle.key.message_id < (
    #[trigger] next.requests[b]).lifecycle.key.message_id by {
        assert(model.requests[a].lifecycle.key.message_id
            < model.requests[b].lifecycle.key.message_id);
    }
    assert forall|a: int, b: int|
        0 <= a < next.requests.len() && 0 <= b < next.requests.len() && a != b && (
        #[trigger] next.requests[a]).lifecycle.response is AsyncPending implies (
    #[trigger] next.requests[b]).lifecycle.response != next.requests[a].lifecycle.response by {
        let x = model.requests[a];
        let y = model.requests[b];
        if a != i && b != i {
            assert(x.lifecycle.response is AsyncPending ==> y.lifecycle.response
                != x.lifecycle.response);
        }
    }
}

/// Changing only credits or health keeps the state well-formed.
pub proof fn ledger_change_keeps_wf(model: GenerationModel, next: GenerationModel)
    requires
        model.wf(),
        next.requests == model.requests,
        next.generation == model.generation,
        next.limits == model.limits,
        next.next_message_id == model.next_message_id,
        next.deadlines == model.deadlines,
        next.admitted_operations == model.admitted_operations,
        next.retained_payload_bytes == model.retained_payload_bytes,
    ensures
        next.wf(),
{
    assert forall|j: int| 0 <= j < next.requests.len() implies next.request_ok(
        #[trigger] next.requests[j],
    ) by {
        assert(model.request_ok(model.requests[j]));
    }
}

/// What a request holds is part of the budgets in use.
pub proof fn holdings_are_counted(model: GenerationModel, i: int)
    requires
        model.wf(),
        0 <= i < model.requests.len(),
    ensures
        model.requests[i].admission_held ==> model.admitted_operations >= 1,
        model.requests[i].payload_held ==> model.retained_payload_bytes
            >= model.requests[i].payload_bytes,
{
    total_after_update(model.requests, operation_weight(), i, model.requests[i]);
    total_after_update(model.requests, payload_weight(), i, model.requests[i]);
}

/// Admitting one request keeps the state well-formed.
pub proof fn push_keeps_wf(model: GenerationModel, next: GenerationModel, request: OwnedRequest)
    requires
        model.wf(),
        model.next_message_id is Some,
        request.lifecycle == RequestRecord::fresh(
            RequestKey { generation: model.generation, message_id: model.next_message_id.unwrap() },
        ),
        request.admission_held,
        request.payload_held,
        next.requests == model.requests.push(request),
        next.generation == model.generation,
        next.limits == model.limits,
        next.deadlines == model.deadlines,
        next.next_message_id matches Some(id) ==> id > model.next_message_id.unwrap(),
        next.admitted_operations == model.admitted_operations + 1,
        next.admitted_operations <= next.limits.max_operations,
        next.retained_payload_bytes == model.retained_payload_bytes + request.payload_bytes,
        next.retained_payload_bytes <= next.limits.max_payload_bytes,
    ensures
        next.wf(),
{
    total_after_push(model.requests, operation_weight(), request);
    total_after_push(model.requests, payload_weight(), request);
    assert forall|j: int| 0 <= j < next.requests.len() implies next.request_ok(
        #[trigger] next.requests[j],
    ) by {
        if j < model.requests.len() {
            assert(model.request_ok(model.requests[j]));
        }
    }
    assert forall|a: int, b: int| 0 <= a < b < next.requests.len() implies (
    #[trigger] next.requests[a]).lifecycle.key.message_id < (
    #[trigger] next.requests[b]).lifecycle.key.message_id by {
        if b < model.requests.len() {
            assert(model.requests[a].lifecycle.key.message_id
                < model.requests[b].lifecycle.key.message_id);
        } else {
            assert(model.request_ok(model.requests[a]));
        }
    }
    assert forall|a: int, b: int|
        0 <= a < next.requests.len() && 0 <= b < next.requests.len() && a != b && (
        #[trigger] next.requests[a]).lifecycle.response is AsyncPending implies (
    #[trigger] next.requests[b]).lifecycle.response != next.requests[a].lifecycle.response by {
        if b < model.requests.len() {
            let x = model.requests[a];
            let y = model.requests[b];
            assert(y.lifecycle.response != x.lifecycle.response);
        }
    }
}

/// When nobody but `key` holds an async id, no other request is pending under
/// it.
pub proof fn async_id_is_free(model: GenerationModel, key: RequestKey, async_id: u64, i: int)
    requires
        model.wf(),
        0 <= i < model.requests.len(),
        model.requests[i].lifecycle.key == key,
        model.async_holder(async_id) is None || model.async_holder(async_id) == Some(key),
    ensures
        forall|j: int| j != i ==> !model.pending_under(async_id, j),
{
    assert forall|j: int| j != i implies !model.pending_under(async_id, j) by {
        if model.pending_under(async_id, j) {
            let held = choose|h: int| model.pending_under(async_id, h);
            assert(model.pending_under(async_id, held));
            position_is_unique(model, key, held);
            position_is_unique(model, key, i);
            assert(model.requests[j].lifecycle.response
                != model.requests[held].lifecycle.response);
        }
    }
}

/// Taking the first deadline keeps the state well-formed.
pub proof fn popping_keeps_wf(model: GenerationModel, next: GenerationModel)
    requires
        model.wf(),
        model.deadlines.len() > 0,
        next == (GenerationModel { deadlines: model.deadlines.drop_first(), ..model }),
    ensures
        next.wf(),
{
    assert forall|j: int| 0 <= j < next.requests.len() implies next.request_ok(
        #[trigger] next.requests[j],
    ) by {
        assert(model.request_ok(model.requests[j]));
    }
    assert forall|a: int, b: int| 0 <= a < b < next.deadlines.len() implies !fires_before(
        #[trigger] next.deadlines[b],
        #[trigger] next.deadlines[a],
    ) by {
        assert(!fires_before(model.deadlines[b + 1], model.deadlines[a + 1]));
    }
    assert forall|d: DeadlineEntry| #[trigger] next.deadlines.contains(d) implies d.key.generation
        == next.generation by {
        let k = choose|k: int| 0 <= k < next.deadlines.len() && next.deadlines[k] == d;
        assert(model.deadlines[k + 1] == d);
        assert(model.deadlines.contains(d));
    }
}

/// Releasing what a request holds keeps the state well-formed.
pub proof fn release_keeps_wf(model: GenerationModel, i: int)
    requires
        model.wf(),
        0 <= i < model.requests.len(),
    ensures
        model.payload_released(i).wf(),
        model.ownership_released(i).wf(),
{
    let request = model.requests[i];
    assert(model.request_ok(request));
    holdings_are_counted(model, i);
    let emptied = model.payload_released(i);
    if request.payload_held {
        update_keeps_wf(model, emptied, i, OwnedRequest { payload_held: false, ..request });
    }
    let held = emptied.requests[i];
    assert(emptied.request_ok(held));
    holdings_are_counted(emptied, i);
    if held.admission_held {
        update_keeps_wf(
            emptied,
            model.ownership_released(i),
            i,
            OwnedRequest { admission_held: false, ..held },
        );
    }
}

/// Setting a deadline keeps the state well-formed.
pub proof fn deadline_keeps_wf(
    model: GenerationModel,
    i: int,
    at: MonotonicTime,
    kind: DeadlineKind,
)
    requires
        model.wf(),
        0 <= i < model.requests.len(),
    ensures
        model.deadline_set(i, at, kind).0.wf(),
{
    let request = model.requests[i];
    assert(model.request_ok(request));
    let next = model.deadline_set(i, at, kind).0;
    if request.deadline_version == u64::MAX {
        ledger_change_keeps_wf(model, next);
    } else {
        let version = (request.deadline_version + 1) as u64;
        let updated = OwnedRequest { deadline_version: version, ..request };
        let versioned = model.with_request(i, updated);
        update_keeps_wf(model, versioned, i, updated);
        let entry = DeadlineEntry {
            at,
            sequence: model.next_deadline_sequence,
            key: request.lifecycle.key,
            kind,
            version,
        };
        scheduling_keeps_order(model.deadlines, entry);
        assert forall|j: int| 0 <= j < next.requests.len() implies next.request_ok(
            #[trigger] next.requests[j],
        ) by {
            assert(versioned.request_ok(versioned.requests[j]));
        }
    }
}

/// Rolling a request back keeps the state well-formed.
pub proof fn rollback_keeps_wf(model: GenerationModel, i: int)
    requires
        model.wf(),
        0 <= i < model.requests.len(),
    ensures
        model.rolled_back(i).0.wf(),
{
    let request = model.requests[i];
    assert(model.request_ok(request));
    if request.credit_obligation && model.available_credits + request.credit_charge <= u32::MAX {
        let updated = OwnedRequest { credit_obligation: false, ..request };
        let returned = GenerationModel {
            available_credits: (model.available_credits + request.credit_charge) as u32,
            pending_extra_credits: saturated_sub(
                model.pending_extra_credits,
                request.requested_extra_credits,
            ),
            ..model.with_request(i, updated)
        };
        update_keeps_wf(model, returned, i, updated);
        release_keeps_wf(returned, i);
    }
    release_keeps_wf(model, i);
}

/// Changing the lifecycle of one request keeps the state well-formed, as long
/// as it keeps its key and takes no async id from another.
pub proof fn lifecycle_keeps_wf(model: GenerationModel, i: int, lifecycle: RequestRecord)
    requires
        model.wf(),
        0 <= i < model.requests.len(),
        lifecycle.key == model.requests[i].lifecycle.key,
        lifecycle.consistent(),
        lifecycle.response is AsyncPending ==> forall|j: int|
            0 <= j < model.requests.len() && j != i ==> (
            #[trigger] model.requests[j]).lifecycle.response != lifecycle.response,
    ensures
        model.with_lifecycle(i, lifecycle).wf(),
{
    assert(model.request_ok(model.requests[i]));
    update_keeps_wf(
        model,
        model.with_lifecycle(i, lifecycle),
        i,
        OwnedRequest { lifecycle, ..model.requests[i] },
    );
}

/// Winding a request down keeps the state well-formed.
pub proof fn wind_down_keeps_wf(
    model: GenerationModel,
    i: int,
    now: MonotonicTime,
    committed: bool,
)
    requires
        model.wf(),
        0 <= i < model.requests.len(),
    ensures
        model.wound_down(i, now, committed).0.wf(),
{
    if committed {
        deadline_keeps_wf(
            model,
            i,
            now.plus(model.tombstone_drain_timeout),
            DeadlineKind::Tombstone,
        );
    } else {
        rollback_keeps_wf(model, i);
    }
}

/// Firing a deadline keeps the state well-formed.
pub proof fn firing_keeps_wf(model: GenerationModel, now: MonotonicTime)
    requires
        model.wf(),
        model.deadlines.len() > 0,
    ensures
        model.fired(now).0.wf(),
{
    let entry = model.deadlines[0];
    let popped = GenerationModel { deadlines: model.deadlines.drop_first(), ..model };
    popping_keeps_wf(model, popped);
    let i = model.position(entry.key);
    if model.tracks(entry.key) {
        let request = model.requests[i];
        assert(model.request_ok(request));
        if request.deadline_version == entry.version {
            if entry.kind == DeadlineKind::Caller {
                if request.lifecycle.caller == CallerOutcome::Open {
                    let lifecycle = request.lifecycle.reduced(RequestEvent::Deadline).0;
                    lifecycle_keeps_wf(popped, i, lifecycle);
                    wind_down_keeps_wf(
                        popped.with_lifecycle(i, lifecycle),
                        i,
                        now,
                        request.lifecycle.send.is_committed(),
                    );
                }
            } else {
                ledger_change_keeps_wf(popped, GenerationModel { unhealthy: true, ..popped });
            }
        }
    }
}

/// Sums and differences of credits stop at the ends of the ledger.
pub proof fn ledgers_stop_at_their_ends(a: u32, b: u32)
    ensures
        a + b <= 0xffff_ffff ==> saturated_add(a, b) == a + b,
        a + b > 0xffff_ffff ==> saturated_add(a, b) == 0xffff_ffff,
        a >= b ==> saturated_sub(a, b) == a - b,
        a < b ==> saturated_sub(a, b) == 0,
{
}

} // verus!
