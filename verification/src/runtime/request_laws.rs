//! What each event means to the request that it is about: when it is
//! admitted, what it is charged, what its caller is told, and what it gives
//! back.

use crate::clock::{Duration, MonotonicTime};
use crate::runtime::deadline::{fires_before, scheduling_keeps_order, DeadlineEntry, DeadlineKind};
use crate::runtime::generation_laws::release_is_local;
use crate::runtime::generation_model::{holdings_are_counted, GenerationModel};
use crate::runtime::reducer::{
    CallerOutcome, GenerationId, ReduceEffect, RequestKey, ResponseProgress, TerminalOutcome,
};
use crate::runtime::state::{
    AdmissionError, AdmissionLimits, OwnedRequest, OwnerEffect, OwnerEvent, RequestProgress,
    ResponseEvent,
};
use vstd::prelude::*;

verus! {

/// Whether bytes of a request may have reached the server.
pub open spec fn on_wire(request: OwnedRequest) -> bool {
    request.lifecycle.send is Partial || request.lifecycle.send is Complete
}

/// Whether a caller still waits for a request.
pub open spec fn awaited(request: OwnedRequest) -> bool {
    request.lifecycle.caller is Open
}

/// That an outcome is published to the caller of a request.
pub open spec fn publication(key: RequestKey, outcome: TerminalOutcome) -> OwnerEffect {
    OwnerEffect::Request { key, effect: ReduceEffect::Publish(outcome) }
}

/// A request is refused for five reasons alone, each named: it costs nothing,
/// no operation slot is free, its payload does not fit, its credits are not
/// there, or no message id is left. Where several hold, the first of these is
/// told.
pub proof fn admissions_are_refused_with_reason(
    model: GenerationModel,
    payload_bytes: u64,
    credit_charge: u16,
    caller_deadline: Option<MonotonicTime>,
)
    ensures
        ({
            let effect = model.admitted(payload_bytes, credit_charge, caller_deadline).1;
            let costless = credit_charge == 0;
            let crowded = model.admitted_operations >= model.limits.max_operations;
            let bulky = model.retained_payload_bytes + payload_bytes
                > model.limits.max_payload_bytes;
            let broke = model.available_credits < credit_charge;
            let numberless = model.next_message_id is None;
            &&& effect is Admitted <==> !costless && !crowded && !bulky && !broke && !numberless
            &&& effect is Admitted || effect is AdmissionRejected
            &&& effect == OwnerEffect::AdmissionRejected(AdmissionError::InvalidCreditCharge)
                <==> costless
            &&& effect == OwnerEffect::AdmissionRejected(AdmissionError::OperationsExhausted)
                <==> !costless && crowded
            &&& effect == OwnerEffect::AdmissionRejected(AdmissionError::PayloadBytesExhausted)
                <==> !costless && !crowded && bulky
            &&& effect == OwnerEffect::AdmissionRejected(
                AdmissionError::CreditsExhausted {
                    available: model.available_credits,
                    requested: credit_charge,
                },
            ) <==> !costless && !crowded && !bulky && broke
            &&& effect == OwnerEffect::AdmissionRejected(AdmissionError::MessageIdExhausted)
                <==> !costless && !crowded && !bulky && !broke && numberless
        }),
{
}

/// An admitted request takes what it costs: its credits, an operation slot
/// and its payload bytes, and as many message ids as credits. It asks for its
/// charge back, and beyond that for what is missing to the target, as far as
/// 65535 credits go. Whoever waited before is not touched.
pub proof fn admissions_take_what_they_cost(
    model: GenerationModel,
    payload_bytes: u64,
    credit_charge: u16,
    caller_deadline: Option<MonotonicTime>,
)
    requires
        model.wf(),
        model.admitted(payload_bytes, credit_charge, caller_deadline).1 is Admitted,
    ensures
        ({
            let (next, effect) = model.admitted(payload_bytes, credit_charge, caller_deadline);
            let plan = effect->Admitted_0;
            let request = next.requests.last();
            let in_circulation = model.total_credits + model.pending_extra_credits;
            let missing = if in_circulation < model.target_credits {
                model.target_credits - in_circulation
            } else {
                0
            };
            &&& plan.key.generation == model.generation
            &&& Some(plan.key.message_id) == model.next_message_id
            &&& plan.payload_bytes == payload_bytes
            &&& plan.credit_charge == credit_charge
            &&& plan.caller_deadline == caller_deadline
            &&& plan.credit_request == if credit_charge + missing <= 65535 {
                credit_charge + missing
            } else {
                65535
            }
            &&& next.available_credits == model.available_credits - credit_charge
            &&& next.total_credits == model.total_credits
            &&& next.admitted_operations == model.admitted_operations + 1
            &&& next.retained_payload_bytes == model.retained_payload_bytes + payload_bytes
            &&& next.unhealthy == model.unhealthy
            &&& next.requests.drop_last() == model.requests
            &&& request.lifecycle.key == plan.key
            &&& awaited(request)
            &&& request.lifecycle.send is NotQueued
            &&& request.lifecycle.response is NoResponse
            &&& !request.lifecycle.tombstone
            &&& request.payload_bytes == payload_bytes
            &&& request.credit_charge == credit_charge
            &&& request.requested_extra_credits == plan.credit_request - credit_charge
            &&& request.admission_held
            &&& request.payload_held
            &&& request.credit_obligation
            &&& !request.credit_response_seen
            &&& !request.cancel_seen
            &&& request.deadline_version == if caller_deadline is None {
                0int
            } else {
                1
            }
            &&& next.target_credits == model.target_credits
            &&& next.limits == model.limits
            &&& caller_deadline is None ==> next.deadlines == model.deadlines
            &&& caller_deadline matches Some(at) ==> {
                &&& model.next_deadline_sequence < u64::MAX ==> next.next_deadline_sequence
                    == model.next_deadline_sequence + 1
                &&& next.deadlines.len() == model.deadlines.len() + 1
                &&& next.deadlines.contains(
                    DeadlineEntry {
                        at,
                        sequence: model.next_deadline_sequence,
                        key: plan.key,
                        kind: DeadlineKind::Caller,
                        version: request.deadline_version,
                    },
                )
            }
        }),
{
    let (next, effect) = model.admitted(payload_bytes, credit_charge, caller_deadline);
    let key = effect->Admitted_0.key;
    assert(next.requests.drop_last() =~= model.requests);
    if caller_deadline is Some {
        scheduling_keeps_order(
            model.deadlines,
            DeadlineEntry {
                at: caller_deadline->Some_0,
                sequence: model.next_deadline_sequence,
                key,
                kind: DeadlineKind::Caller,
                version: 1,
            },
        );
    }
}

/// The credits asked for beyond the charge stay on record until an answer
/// comes or the request is rolled back.
pub proof fn extra_credits_are_on_record(
    model: GenerationModel,
    payload_bytes: u64,
    credit_charge: u16,
    caller_deadline: Option<MonotonicTime>,
)
    requires
        model.admitted(payload_bytes, credit_charge, caller_deadline).1 is Admitted,
        model.pending_extra_credits + u16::MAX <= u32::MAX,
    ensures
        ({
            let (next, effect) = model.admitted(payload_bytes, credit_charge, caller_deadline);
            next.pending_extra_credits == model.pending_extra_credits
                + effect->Admitted_0.credit_request - credit_charge
        }),
{
}

/// Progress of the write is recorded on the request alone, and its payload is
/// let go once it was written as a whole.
pub proof fn written_payloads_are_let_go(
    model: GenerationModel,
    key: RequestKey,
    event: RequestProgress,
)
    requires
        model.wf(),
        model.tracks(key),
    ensures
        ({
            let (next, effects) = model.step(OwnerEvent::Request { key, event });
            let before = model.request(key);
            let after = next.requests[model.position(key)];
            &&& effects == seq![OwnerEffect::Request { key, effect: ReduceEffect::NoEffect }]
            &&& event is WriteComplete ==> after.lifecycle.send is Complete && !after.payload_held
            &&& event is WriteComplete && before.payload_held ==> next.retained_payload_bytes
                == model.retained_payload_bytes - before.payload_bytes
            &&& event matches RequestProgress::WriteProgress { bytes } ==> bytes > 0 ==> on_wire(
                after,
            )
            &&& event is Queued && before.lifecycle.send is NotQueued ==> after.lifecycle.send
                is Queued
            &&& !(event is WriteComplete) ==> after.payload_held == before.payload_held
                && next.retained_payload_bytes == model.retained_payload_bytes
            &&& after.lifecycle.caller == before.lifecycle.caller
            &&& after.lifecycle.response == before.lifecycle.response
            &&& after.admission_held == before.admission_held
            &&& next.available_credits == model.available_credits
            &&& next.total_credits == model.total_credits
            &&& next.admitted_operations == model.admitted_operations
        }),
{
    holdings_are_counted(model, model.position(key));
}

/// A reservation that is rolled back is given back as a whole: the charge to
/// the credits at hand, the extra credits from the record, the operation
/// slot, and the payload bytes. Only a request that holds something is.
pub proof fn rollbacks_give_everything_back(model: GenerationModel, i: int)
    requires
        model.wf(),
        0 <= i < model.requests.len(),
    ensures
        ({
            let (next, done) = model.rolled_back(i);
            let before = model.requests[i];
            let after = next.requests[i];
            let fits = model.available_credits + before.credit_charge <= u32::MAX;
            &&& done <==> if before.credit_obligation {
                fits
            } else {
                before.admission_held
            }
            &&& !done ==> next == model
            &&& done ==> {
                &&& !after.admission_held
                &&& !after.payload_held
                &&& !after.credit_obligation
                &&& after.lifecycle == before.lifecycle
                &&& next.total_credits == model.total_credits
                &&& next.admitted_operations + (if before.admission_held {
                    1int
                } else {
                    0
                }) == model.admitted_operations
                &&& next.retained_payload_bytes + (if before.payload_held {
                    before.payload_bytes as int
                } else {
                    0
                }) == model.retained_payload_bytes
                &&& next.available_credits == model.available_credits + (if before.credit_obligation {
                    before.credit_charge as int
                } else {
                    0
                })
                &&& before.credit_obligation && before.requested_extra_credits
                    <= model.pending_extra_credits ==> next.pending_extra_credits
                    == model.pending_extra_credits - before.requested_extra_credits
            }
        }),
{
    holdings_are_counted(model, i);
    assert(model.request_ok(model.requests[i]));
    let request = model.requests[i];
    if request.credit_obligation {
        let returned = GenerationModel {
            available_credits: (model.available_credits + request.credit_charge) as u32,
            pending_extra_credits: crate::runtime::generation_model::saturated_sub(
                model.pending_extra_credits,
                request.requested_extra_credits,
            ),
            ..model.with_request(i, OwnedRequest { credit_obligation: false, ..request })
        };
        release_is_local(returned, i);
    }
    release_is_local(model, i);
}

/// A caller that cancels a request is told the truth once: that it is
/// cancelled where nothing reached the wire, and that the outcome is unknown
/// where something did. Then the server is asked to cancel, too, and its
/// answer is waited for until the drain is over. Cancelling again does
/// nothing.
pub proof fn cancellations_are_told_truly(
    model: GenerationModel,
    key: RequestKey,
    now: MonotonicTime,
)
    requires
        model.wf(),
        model.tracks(key),
    ensures
        ({
            let (next, effects) = model.step(OwnerEvent::Cancel { key, now });
            let before = model.request(key);
            let after = next.requests[model.position(key)];
            let first = awaited(before) && !before.cancel_seen;
            &&& after.cancel_seen
            &&& !first ==> effects == seq![OwnerEffect::DuplicateCancel(key)] && next
                == model.with_request(
                model.position(key),
                OwnedRequest { cancel_seen: true, ..before },
            )
            &&& first ==> effects.len() >= 2 && effects[0] == OwnerEffect::CancelControlQueued(key)
            &&& first && !on_wire(before) ==> {
                &&& effects[1] == publication(key, TerminalOutcome::Cancelled)
                &&& after.lifecycle.caller == CallerOutcome::Terminal(TerminalOutcome::Cancelled)
                &&& effects.len() == 3 ==> effects[2] == OwnerEffect::ReservationRolledBack(key)
                &&& effects.len() <= 3
                &&& effects.len() == 3 <==> model.rolled_back(model.position(key)).1
                &&& !after.lifecycle.tombstone || before.lifecycle.tombstone
            }
            &&& first && on_wire(before) ==> {
                &&& effects[1] == publication(key, TerminalOutcome::OutcomeUnknown)
                &&& after.lifecycle.caller == CallerOutcome::Terminal(
                    TerminalOutcome::OutcomeUnknown,
                )
                &&& effects.len() >= 3
                &&& effects[2] == OwnerEffect::BestEffortWireCancel(key)
                &&& effects.len() == 4 ==> effects[3] == (OwnerEffect::GenerationUnhealthy { key })
                    && next.unhealthy
                &&& effects.len() <= 4
                &&& effects.len() == 4 <==> before.deadline_version == u64::MAX
                &&& after.lifecycle.tombstone == !(before.lifecycle.response is Final)
                &&& next.available_credits == model.available_credits
                &&& before.deadline_version < u64::MAX ==> after.deadline_version
                    == before.deadline_version + 1 && next.unhealthy == model.unhealthy
                &&& before.deadline_version < u64::MAX ==> next.deadlines.contains(
                    DeadlineEntry {
                        at: now.plus(model.tombstone_drain_timeout),
                        sequence: model.next_deadline_sequence,
                        key,
                        kind: DeadlineKind::Tombstone,
                        version: after.deadline_version,
                    },
                )
            }
        }),
{
    let i = model.position(key);
    let request = model.requests[i];
    assert(model.request_ok(request));
    let seen = model.with_request(i, OwnedRequest { cancel_seen: true, ..request });
    let lifecycle = request.lifecycle.reduced(crate::runtime::reducer::RequestEvent::Cancel).0;
    let told = seen.with_lifecycle(i, lifecycle);
    release_is_local(told, i);
    if request.credit_obligation {
        let returned = GenerationModel {
            available_credits: (told.available_credits + request.credit_charge) as u32,
            pending_extra_credits: crate::runtime::generation_model::saturated_sub(
                told.pending_extra_credits,
                request.requested_extra_credits,
            ),
            ..told.with_request(i, OwnedRequest { credit_obligation: false, ..told.requests[i] })
        };
        release_is_local(returned, i);
    }
    if on_wire(request) && request.deadline_version < u64::MAX {
        scheduling_keeps_order(
            told.deadlines,
            DeadlineEntry {
                at: now.plus(told.tombstone_drain_timeout),
                sequence: told.next_deadline_sequence,
                key: request.lifecycle.key,
                kind: DeadlineKind::Tombstone,
                version: (request.deadline_version + 1) as u64,
            },
        );
    }
}

/// A request whose preparation fails ends with that, and gives back what it
/// took, unless it reached the wire: then nothing happens.
pub proof fn failed_preparations_are_told(model: GenerationModel, key: RequestKey)
    requires
        model.wf(),
        model.tracks(key),
    ensures
        ({
            let (next, effects) = model.step(OwnerEvent::PrepareFailed { key });
            let before = model.request(key);
            let after = next.requests[model.position(key)];
            let back = model.rolled_back(model.position(key)).1;
            &&& on_wire(before) ==> next == model && effects == seq![
                OwnerEffect::Request { key, effect: ReduceEffect::BookkeepingOnly },
            ]
            &&& !on_wire(before) ==> {
                &&& effects.len() == if back {
                    2int
                } else {
                    1
                }
                &&& awaited(before) ==> effects[0] == publication(
                    key,
                    TerminalOutcome::PreparationFailed,
                ) && after.lifecycle.caller == CallerOutcome::Terminal(
                    TerminalOutcome::PreparationFailed,
                )
                &&& !awaited(before) ==> effects[0] == (OwnerEffect::Request {
                    key,
                    effect: ReduceEffect::BookkeepingOnly,
                }) && after.lifecycle.caller == before.lifecycle.caller
                &&& back ==> effects[1] == OwnerEffect::ReservationRolledBack(key)
            }
        }),
{
    let i = model.position(key);
    let request = model.requests[i];
    let told = model.with_lifecycle(
        i,
        request.lifecycle.published(TerminalOutcome::PreparationFailed).0,
    );
    release_is_local(told, i);
    if request.credit_obligation {
        let returned = GenerationModel {
            available_credits: (told.available_credits + request.credit_charge) as u32,
            pending_extra_credits: crate::runtime::generation_model::saturated_sub(
                told.pending_extra_credits,
                request.requested_extra_credits,
            ),
            ..told.with_request(i, OwnedRequest { credit_obligation: false, ..told.requests[i] })
        };
        release_is_local(returned, i);
    }
}

/// A hint that the session is gone ends a request that is waited for with
/// that, frees its slot and its payload, and moves no credit.
pub proof fn hints_invalidate_the_session(model: GenerationModel, key: RequestKey)
    requires
        model.wf(),
        model.tracks(key),
    ensures
        ({
            let (next, effects) = model.step(OwnerEvent::RecoveryHint { key });
            let before = model.request(key);
            let after = next.requests[model.position(key)];
            &&& awaited(before) ==> effects == seq![
                publication(key, TerminalOutcome::SessionInvalidated),
            ] && after.lifecycle.caller == CallerOutcome::Terminal(
                TerminalOutcome::SessionInvalidated,
            )
            &&& !awaited(before) ==> effects == seq![
                OwnerEffect::Request { key, effect: ReduceEffect::BookkeepingOnly },
            ] && after.lifecycle.caller == before.lifecycle.caller
            &&& !after.admission_held
            &&& !after.payload_held
            &&& after.credit_obligation == before.credit_obligation
            &&& after.lifecycle.send == before.lifecycle.send
            &&& after.lifecycle.response == before.lifecycle.response
            &&& next.available_credits == model.available_credits
            &&& next.total_credits == model.total_credits
            &&& next.pending_extra_credits == model.pending_extra_credits
        }),
{
    let i = model.position(key);
    let told = model.with_lifecycle(
        i,
        model.requests[i].lifecycle.published(TerminalOutcome::SessionInvalidated).0,
    );
    release_is_local(told, i);
}

/// The first final answer to a request ends it: its grant is added to the
/// credits at hand, its charge is settled, whatever it held is freed, and a
/// caller that still waits gets the response.
pub proof fn final_answers_end_requests(
    model: GenerationModel,
    key: RequestKey,
    credit_grant: u16,
)
    requires
        model.wf(),
        model.tracks(key),
        !(model.request(key).lifecycle.response is Final),
        model.available_credits + credit_grant <= u32::MAX,
    ensures
        ({
            let (next, effects) = model.step(
                OwnerEvent::Response { key, event: ResponseEvent::Final, credit_grant },
            );
            let before = model.request(key);
            let after = next.requests[model.position(key)];
            &&& effects.len() == if before.deadline_version == u64::MAX {
                3int
            } else {
                2
            }
            &&& effects[0] == (OwnerEffect::CreditGrantApplied {
                key,
                grant: credit_grant,
                available: (model.available_credits + credit_grant) as u32,
            })
            &&& awaited(before) ==> effects[1] == publication(key, TerminalOutcome::Response)
                && after.lifecycle.caller == CallerOutcome::Terminal(TerminalOutcome::Response)
            &&& !awaited(before) ==> effects[1] == (OwnerEffect::Request {
                key,
                effect: ReduceEffect::BookkeepingOnly,
            }) && after.lifecycle.caller == before.lifecycle.caller
            &&& effects.len() == 3 ==> effects[2] == (OwnerEffect::GenerationUnhealthy { key })
                && next.unhealthy
            &&& before.deadline_version < u64::MAX ==> after.deadline_version
                == before.deadline_version + 1 && next.unhealthy == model.unhealthy
            &&& next.deadlines == model.deadlines
            &&& after.lifecycle.response is Final
            &&& on_wire(after)
            &&& !after.lifecycle.tombstone
            &&& !after.admission_held
            &&& !after.payload_held
            &&& !after.credit_obligation
            &&& after.credit_response_seen
            &&& next.available_credits == model.available_credits + credit_grant
            &&& next.admitted_operations + (if before.admission_held {
                1int
            } else {
                0
            }) == model.admitted_operations
            &&& next.retained_payload_bytes + (if before.payload_held {
                before.payload_bytes as int
            } else {
                0
            }) == model.retained_payload_bytes
            &&& before.credit_response_seen && model.total_credits + credit_grant <= u32::MAX
                ==> next.total_credits == model.total_credits + credit_grant
            &&& !before.credit_response_seen && model.total_credits >= before.credit_charge
                && model.total_credits - before.credit_charge + credit_grant <= u32::MAX
                ==> next.total_credits == model.total_credits - before.credit_charge + credit_grant
            &&& !before.credit_response_seen && model.pending_extra_credits
                >= before.requested_extra_credits ==> next.pending_extra_credits
                == model.pending_extra_credits - before.requested_extra_credits
            &&& before.credit_response_seen ==> next.pending_extra_credits
                == model.pending_extra_credits
        }),
{
    let i = model.position(key);
    let request = model.requests[i];
    assert(model.request_ok(request));
    holdings_are_counted(model, i);
    let settled = model.credits_settled(i, credit_grant);
    assert(settled.requests =~= model.requests.update(
        i,
        OwnedRequest {
            credit_response_seen: true,
            lifecycle: request.lifecycle.answered(),
            payload_held: false,
            ..request
        },
    ));
}

/// An interim answer keeps its request waiting: it is on record with its
/// async id, nobody is told anything, and its grant counts as any other. The
/// charge is settled by whichever answer comes first.
pub proof fn interim_answers_keep_requests_waiting(
    model: GenerationModel,
    key: RequestKey,
    async_id: u64,
    credit_grant: u16,
)
    requires
        model.wf(),
        model.tracks(key),
        !(model.request(key).lifecycle.response is Final),
        model.request(key).lifecycle.response matches ResponseProgress::AsyncPending {
            async_id: known,
        } ==> known == async_id,
        model.async_holder(async_id) is None || model.async_holder(async_id) == Some(key),
        model.available_credits + credit_grant <= u32::MAX,
    ensures
        ({
            let (next, effects) = model.step(
                OwnerEvent::Response {
                    key,
                    event: ResponseEvent::Pending { async_id },
                    credit_grant,
                },
            );
            let before = model.request(key);
            let after = next.requests[model.position(key)];
            &&& effects == seq![
                OwnerEffect::CreditGrantApplied {
                    key,
                    grant: credit_grant,
                    available: (model.available_credits + credit_grant) as u32,
                },
                OwnerEffect::Request { key, effect: ReduceEffect::BookkeepingOnly },
            ]
            &&& after.lifecycle.response == (ResponseProgress::AsyncPending { async_id })
            &&& after.lifecycle.caller == before.lifecycle.caller
            &&& after.lifecycle.tombstone == before.lifecycle.tombstone
            &&& on_wire(after)
            &&& after.admission_held == before.admission_held
            &&& after.credit_obligation == before.credit_obligation
            &&& !after.payload_held
            &&& after.credit_response_seen
            &&& next.available_credits == model.available_credits + credit_grant
            &&& next.admitted_operations == model.admitted_operations
            &&& !before.credit_response_seen && model.total_credits >= before.credit_charge
                && model.total_credits - before.credit_charge + credit_grant <= u32::MAX
                ==> next.total_credits == model.total_credits - before.credit_charge + credit_grant
            &&& before.credit_response_seen && model.total_credits + credit_grant <= u32::MAX
                ==> next.total_credits == model.total_credits + credit_grant
        }),
{
    let i = model.position(key);
    let request = model.requests[i];
    assert(model.request_ok(request));
    holdings_are_counted(model, i);
    let settled = model.credits_settled(i, credit_grant);
    assert(settled.requests =~= model.requests.update(
        i,
        OwnedRequest {
            credit_response_seen: true,
            lifecycle: request.lifecycle.answered(),
            payload_held: false,
            ..request
        },
    ));
    let (next, effects) = model.step(
        OwnerEvent::Response { key, event: ResponseEvent::Pending { async_id }, credit_grant },
    );
    assert(effects =~= seq![
        OwnerEffect::CreditGrantApplied {
            key,
            grant: credit_grant,
            available: (model.available_credits + credit_grant) as u32,
        },
        OwnerEffect::Request { key, effect: ReduceEffect::BookkeepingOnly },
    ]);
}

/// A grant that the ledger cannot hold, and an async id that belongs to
/// another request or changes under way, make the generation unhealthy; no
/// caller is told anything by them.
pub proof fn broken_answers_make_a_generation_unhealthy(
    model: GenerationModel,
    key: RequestKey,
    event: ResponseEvent,
    credit_grant: u16,
)
    requires
        model.wf(),
        model.tracks(key),
    ensures
        ({
            let (next, effects) = model.step(OwnerEvent::Response { key, event, credit_grant });
            let before = model.request(key);
            let taken = event matches ResponseEvent::Pending { async_id } && model.async_holder(
                async_id,
            ) matches Some(holder) && holder != key;
            let changed = event matches ResponseEvent::Pending { async_id }
                && before.lifecycle.response matches ResponseProgress::AsyncPending {
                async_id: known,
            } && known != async_id;
            let over = model.available_credits + credit_grant > u32::MAX;
            let answered = before.lifecycle.response is Final;
            &&& taken ==> effects == seq![
                OwnerEffect::AsyncIdConflict {
                    async_id: event->async_id,
                    existing: model.async_holder(event->async_id)->Some_0,
                    incoming: key,
                },
                OwnerEffect::GenerationUnhealthy { key },
            ]
            &&& !taken && changed ==> effects == seq![
                OwnerEffect::AsyncIdChanged {
                    key,
                    existing: before.lifecycle.response->async_id,
                    incoming: event->async_id,
                },
                OwnerEffect::GenerationUnhealthy { key },
            ]
            &&& taken || changed ==> next == (GenerationModel { unhealthy: true, ..model })
            &&& !taken && !changed && !answered && over ==> next.unhealthy && effects == seq![
                OwnerEffect::CreditLedgerOverflow {
                    key,
                    available: model.available_credits,
                    grant: credit_grant,
                },
                OwnerEffect::GenerationUnhealthy { key },
            ] && next.available_credits == model.available_credits
            &&& !taken && !changed && answered ==> next == model && effects == seq![
                OwnerEffect::DuplicateResponse(key),
            ]
        }),
{
    let i = model.position(key);
    assert(model.request_ok(model.requests[i]));
}

/// Whoever holds an async id is a request that an interim answer left pending
/// under it.
pub proof fn async_ids_name_their_request(model: GenerationModel, async_id: u64)
    ensures
        match model.async_holder(async_id) {
            Some(key) => exists|i: int|
                0 <= i < model.requests.len() && (#[trigger] model.requests[i]).lifecycle.key == key
                    && model.requests[i].lifecycle.response == (ResponseProgress::AsyncPending {
                    async_id,
                }),
            None => forall|i: int|
                0 <= i < model.requests.len() ==> (#[trigger] model.requests[i]).lifecycle.response
                    != (ResponseProgress::AsyncPending { async_id }),
        },
{
    if model.async_holder(async_id) is None {
        assert forall|i: int| 0 <= i < model.requests.len() implies (
        #[trigger] model.requests[i]).lifecycle.response != (ResponseProgress::AsyncPending {
            async_id,
        }) by {
            if model.requests[i].lifecycle.response == (ResponseProgress::AsyncPending {
                async_id,
            }) {
                assert(model.pending_under(async_id, i));
            }
        }
    } else {
        let i = choose|i: int| model.pending_under(async_id, i);
        assert(model.pending_under(async_id, i));
        assert(model.requests[i].lifecycle.key == model.async_holder(async_id)->Some_0);
    }
}

/// A deadline of a caller that still waits ends its request as a timeout
/// where nothing reached the wire, and with an unknown outcome where
/// something did. A request whose answer does not come until the drain is
/// over makes the generation unhealthy. Every other deadline is stale and
/// does nothing.
pub proof fn deadlines_are_told_truly(model: GenerationModel, now: MonotonicTime)
    requires
        model.wf(),
        model.deadlines.len() > 0,
        model.tracks(model.deadlines[0].key),
    ensures
        ({
            let (next, effects) = model.fired(now);
            let entry = model.deadlines[0];
            let key = entry.key;
            let before = model.request(key);
            let after = next.requests[model.position(key)];
            let current = before.deadline_version == entry.version;
            let times_out = current && entry.kind is Caller && awaited(before);
            let undrained = current && entry.kind is Tombstone && before.lifecycle.tombstone && !(
            before.lifecycle.response is Final);
            &&& times_out && !on_wire(before) ==> {
                &&& effects.len() == 1 || effects.len() == 2
                &&& effects[0] == publication(key, TerminalOutcome::TimedOut)
                &&& effects.len() == 2 ==> effects[1] == OwnerEffect::ReservationRolledBack(key)
                &&& effects.len() == 2 <==> model.rolled_back(model.position(key)).1
                &&& after.lifecycle.caller == CallerOutcome::Terminal(TerminalOutcome::TimedOut)
            }
            &&& times_out && on_wire(before) ==> {
                &&& effects.len() == 2 || effects.len() == 3
                &&& effects[0] == publication(key, TerminalOutcome::OutcomeUnknown)
                &&& effects[1] == OwnerEffect::BestEffortWireCancel(key)
                &&& effects.len() == 3 ==> effects[2] == (OwnerEffect::GenerationUnhealthy { key })
                &&& effects.len() == 3 <==> before.deadline_version == u64::MAX
                &&& after.lifecycle.caller == CallerOutcome::Terminal(
                    TerminalOutcome::OutcomeUnknown,
                )
                &&& after.lifecycle.tombstone == !(before.lifecycle.response is Final)
            }
            &&& undrained ==> effects == seq![OwnerEffect::GenerationUnhealthy { key }] && next
                == (GenerationModel {
                unhealthy: true,
                deadlines: model.deadlines.drop_first(),
                ..model
            })
            &&& !times_out && !undrained ==> effects == seq![
                OwnerEffect::StaleDeadlineIgnored(key),
            ] && next == (GenerationModel { deadlines: model.deadlines.drop_first(), ..model })
        }),
{
    let entry = model.deadlines[0];
    let i = model.position(entry.key);
    let request = model.requests[i];
    assert(model.request_ok(request));
    let popped = GenerationModel { deadlines: model.deadlines.drop_first(), ..model };
    let told = popped.with_lifecycle(
        i,
        request.lifecycle.reduced(crate::runtime::reducer::RequestEvent::Deadline).0,
    );
    release_is_local(told, i);
    if request.credit_obligation {
        let returned = GenerationModel {
            available_credits: (told.available_credits + request.credit_charge) as u32,
            pending_extra_credits: crate::runtime::generation_model::saturated_sub(
                told.pending_extra_credits,
                request.requested_extra_credits,
            ),
            ..told.with_request(i, OwnedRequest { credit_obligation: false, ..told.requests[i] })
        };
        release_is_local(returned, i);
    }
}

/// A deadline of a request that is not known is stale.
pub proof fn deadlines_of_strangers_are_stale(model: GenerationModel, now: MonotonicTime)
    requires
        model.deadlines.len() > 0,
        !model.tracks(model.deadlines[0].key),
    ensures
        model.fired(now) == (
            GenerationModel { deadlines: model.deadlines.drop_first(), ..model },
            seq![OwnerEffect::StaleDeadlineIgnored(model.deadlines[0].key)],
        ),
{
}

/// Time fires what is due, and only that: where no deadline has come, nothing
/// happens, and else the earliest one fires before all others.
pub proof fn time_fires_what_is_due(model: GenerationModel, now: MonotonicTime)
    requires
        model.wf(),
    ensures
        (forall|i: int|
            0 <= i < model.deadlines.len() ==> (#[trigger] model.deadlines[i]).at@ > now@)
            ==> model.step(OwnerEvent::AdvanceTime { now }) == (model, Seq::<OwnerEffect>::empty()),
        model.deadlines.len() > 0 && model.deadlines[0].at@ <= now@ ==> ({
            let (first, effects) = model.fired(now);
            let (last, further) = first.step(OwnerEvent::AdvanceTime { now });
            model.step(OwnerEvent::AdvanceTime { now }) == (last, effects + further)
        }),
        forall|i: int|
            0 <= i < model.deadlines.len() ==> model.deadlines[0].at@ <= (
            #[trigger] model.deadlines[i]).at@,
{
    if model.deadlines.len() > 0 {
        assert forall|i: int| 0 <= i < model.deadlines.len() implies model.deadlines[0].at@ <= (
        #[trigger] model.deadlines[i]).at@ by {
            if i > 0 {
                assert(!fires_before(model.deadlines[i], model.deadlines[0]));
            }
        }
    }
}

/// Deadlines fire by time, and those of one moment in the order in which they
/// were set.
pub proof fn deadlines_fire_by_time(a: DeadlineEntry, b: DeadlineEntry)
    ensures
        a.at@ < b.at@ ==> fires_before(a, b) && !fires_before(b, a),
        a.at@ == b.at@ && a.sequence < b.sequence ==> fires_before(a, b) && !fires_before(b, a),
{
}

/// When the connection is lost, every caller that still waits is told: that
/// its generation was lost where nothing of its request reached the wire, and
/// that the outcome is unknown where something did. Whoever was told before
/// keeps what it was told.
pub proof fn disconnects_are_told_truly(model: GenerationModel, i: int)
    requires
        model.wf(),
        0 <= i < model.requests.len(),
    ensures
        ({
            let (next, effects) = model.step(OwnerEvent::Disconnect);
            let before = model.requests[i];
            let after = next.requests[i];
            &&& effects.len() == model.requests.len()
            &&& next.requests.len() == model.requests.len()
            &&& !awaited(before) ==> after.lifecycle.caller == before.lifecycle.caller
                && effects[i] == (OwnerEffect::Request {
                key: before.lifecycle.key,
                effect: ReduceEffect::BookkeepingOnly,
            })
            &&& awaited(before) ==> {
                let outcome = if on_wire(before) {
                    TerminalOutcome::OutcomeUnknown
                } else {
                    TerminalOutcome::GenerationLost
                };
                &&& after.lifecycle.caller == CallerOutcome::Terminal(outcome)
                &&& effects[i] == publication(before.lifecycle.key, outcome)
            }
            &&& !after.lifecycle.tombstone
            &&& !after.admission_held
            &&& !after.payload_held
        }),
{
    disconnected_from(model, 0, i);
}

proof fn disconnected_from(model: GenerationModel, from: int, i: int)
    requires
        0 <= from,
        0 <= i < model.requests.len(),
        from <= model.requests.len(),
    ensures
        ({
            let (next, effects) = model.disconnected(from);
            let before = model.requests[i];
            let after = next.requests[i];
            &&& effects.len() == model.requests.len() - from
            &&& next.requests.len() == model.requests.len()
            &&& i < from ==> after == before
            &&& i >= from ==> {
                &&& !awaited(before) ==> after.lifecycle.caller == before.lifecycle.caller
                    && effects[i - from] == (OwnerEffect::Request {
                    key: before.lifecycle.key,
                    effect: ReduceEffect::BookkeepingOnly,
                })
                &&& awaited(before) ==> {
                    let outcome = if on_wire(before) {
                        TerminalOutcome::OutcomeUnknown
                    } else {
                        TerminalOutcome::GenerationLost
                    };
                    &&& after.lifecycle.caller == CallerOutcome::Terminal(outcome)
                    &&& effects[i - from] == publication(before.lifecycle.key, outcome)
                }
                &&& !after.lifecycle.tombstone
                &&& !after.admission_held
                &&& !after.payload_held
            }
        }),
    decreases model.requests.len() - from,
{
    if from < model.requests.len() {
        let lifecycle = model.requests[from].lifecycle.reduced(
            crate::runtime::reducer::RequestEvent::Disconnect,
        ).0;
        let told = model.with_lifecycle(from, lifecycle);
        release_is_local(told, from);
        disconnected_from(told.ownership_released(from), from + 1, i);
    }
}

/// An event for another generation is ignored as such; one for a request that
/// was never admitted is reported as unknown.
pub proof fn strangers_are_told_apart(model: GenerationModel, key: RequestKey)
    ensures
        key.generation != model.generation ==> model.unaddressed(key) == seq![
            OwnerEffect::Request { key, effect: ReduceEffect::IgnoredForeignGeneration },
        ],
        key.generation == model.generation ==> model.unaddressed(key) == seq![
            OwnerEffect::UnknownRequest(key),
        ],
{
}

/// A generation begins with the credits it was given and nothing else.
pub proof fn generations_begin_empty(
    generation: GenerationId,
    initial_message_id: u64,
    initial_credits: u32,
    target_credits: u32,
    limits: AdmissionLimits,
    tombstone_drain_timeout: Duration,
)
    ensures
        ({
            let model = GenerationModel::initial(
                generation,
                initial_message_id,
                initial_credits,
                target_credits,
                limits,
                tombstone_drain_timeout,
            );
            &&& model.generation == generation
            &&& model.limits == limits
            &&& model.next_message_id == Some(initial_message_id)
            &&& model.available_credits == initial_credits
            &&& model.total_credits == initial_credits
            &&& model.target_credits == target_credits
            &&& model.tombstone_drain_timeout == tombstone_drain_timeout
            &&& model.pending_extra_credits == 0
            &&& model.admitted_operations == 0
            &&& model.retained_payload_bytes == 0
            &&& model.requests.len() == 0
            &&& model.deadlines.len() == 0
            &&& !model.unhealthy
        }),
{
}

} // verus!
