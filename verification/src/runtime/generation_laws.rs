//! What holds of a connection generation over its whole life.

use crate::clock::MonotonicTime;
use crate::runtime::deadline::{fires_before, outstanding, DeadlineKind};
use crate::runtime::generation_model::{
    async_id_is_free, deadline_keeps_wf, firing_keeps_wf, firing_takes_work_away,
    ledger_change_keeps_wf, lifecycle_keeps_wf, open_caller_weight, operation_weight,
    payload_weight, position_is_unique, push_keeps_wf, release_keeps_wf, rollback_keeps_wf,
    saturated_add, saturated_sub, total, total_after_push, total_after_update, update_keeps_wf,
    wind_down_keeps_wf, GenerationModel,
};
use crate::runtime::reducer::{
    CallerOutcome, ReduceEffect, RequestEvent, RequestKey, ResponseProgress, TerminalOutcome,
};
use crate::runtime::state::{OwnedRequest, OwnerEffect, OwnerEvent, RequestProgress, ResponseEvent};
use vstd::prelude::*;

verus! {

/// Whether an effect publishes an outcome at all.
pub open spec fn publishes(effect: OwnerEffect) -> bool {
    effect matches OwnerEffect::Request { effect: e, .. } && e is Publish
}

/// Whether one effect publishes an outcome to the caller of `key`.
pub open spec fn tells(effect: OwnerEffect, key: RequestKey) -> bool {
    effect matches OwnerEffect::Request { key: k, effect: e } && k == key && e is Publish
}

/// How often `effects` publish an outcome to the caller of `key`.
pub open spec fn told(effects: Seq<OwnerEffect>, key: RequestKey) -> nat
    decreases effects.len(),
{
    if effects.len() == 0 {
        0
    } else {
        told(effects.drop_last(), key) + if tells(effects.last(), key) {
            1nat
        } else {
            0nat
        }
    }
}

proof fn told_nothing(effects: Seq<OwnerEffect>, key: RequestKey)
    requires
        forall|i: int| 0 <= i < effects.len() ==> !tells(#[trigger] effects[i], key),
    ensures
        told(effects, key) == 0,
    decreases effects.len(),
{
    if effects.len() > 0 {
        told_nothing(effects.drop_last(), key);
    }
}

/// Effects of which only the `at`th may tell the caller of `key` something.
proof fn told_once(effects: Seq<OwnerEffect>, key: RequestKey, at: int)
    requires
        0 <= at < effects.len(),
        forall|i: int| 0 <= i < effects.len() && i != at ==> !tells(#[trigger] effects[i], key),
    ensures
        told(effects, key) == if tells(effects[at], key) {
            1nat
        } else {
            0nat
        },
    decreases effects.len(),
{
    if at == effects.len() - 1 {
        told_nothing(effects.drop_last(), key);
    } else {
        told_once(effects.drop_last(), key, at);
    }
}

proof fn told_concat(a: Seq<OwnerEffect>, b: Seq<OwnerEffect>, key: RequestKey)
    ensures
        told(a + b, key) == told(a, key) + told(b, key),
    decreases b.len(),
{
    if b.len() == 0 {
        assert(a + b =~= a);
    } else {
        assert((a + b).drop_last() =~= a + b.drop_last());
        told_concat(a, b.drop_last(), key);
    }
}

/// What may become of one request: its identity and its charges stay, a
/// published outcome stays, wire progress only grows, and what it gave back it
/// never holds again.
pub open spec fn request_evolves(before: OwnedRequest, after: OwnedRequest) -> bool {
    &&& after.lifecycle.key == before.lifecycle.key
    &&& after.payload_bytes == before.payload_bytes
    &&& after.credit_charge == before.credit_charge
    &&& before.lifecycle.caller != CallerOutcome::Open ==> after.lifecycle.caller
        == before.lifecycle.caller
    &&& before.lifecycle.send.is_committed() ==> after.lifecycle.send.is_committed()
    &&& before.lifecycle.response == ResponseProgress::Final ==> after.lifecycle.response
        == ResponseProgress::Final
    &&& !before.admission_held ==> !after.admission_held
    &&& !before.payload_held ==> !after.payload_held
    &&& !before.credit_obligation ==> !after.credit_obligation
    &&& before.credit_response_seen ==> after.credit_response_seen
    &&& before.cancel_seen ==> after.cancel_seen
    &&& before.deadline_version <= after.deadline_version
}

/// What may become of a generation: no request is forgotten, message ids only
/// move forward, and a generation that became unhealthy stays so.
pub open spec fn evolves(before: GenerationModel, after: GenerationModel) -> bool {
    &&& after.generation == before.generation
    &&& after.limits == before.limits
    &&& after.tombstone_drain_timeout == before.tombstone_drain_timeout
    &&& before.unhealthy ==> after.unhealthy
    &&& before.next_message_id is None ==> after.next_message_id is None
    &&& before.next_message_id matches Some(a) ==> after.next_message_id matches Some(b) ==> a <= b
    &&& before.requests.len() <= after.requests.len()
    &&& forall|i: int|
        #![trigger before.requests[i]]
        #![trigger after.requests[i]]
        0 <= i < before.requests.len() ==> request_evolves(before.requests[i], after.requests[i])
}

/// The effects tell each caller exactly what the state says it was told.
pub open spec fn told_truly(
    before: GenerationModel,
    effects: Seq<OwnerEffect>,
    after: GenerationModel,
) -> bool {
    forall|i: int|
        #![trigger before.requests[i]]
        0 <= i < before.requests.len() ==> told(effects, before.requests[i].lifecycle.key) == (
        if before.requests[i].lifecycle.caller == CallerOutcome::Open
            && after.requests[i].lifecycle.caller != CallerOutcome::Open {
            1nat
        } else {
            0nat
        })
}

proof fn settled_in_turn(
    a: GenerationModel,
    first: Seq<OwnerEffect>,
    b: GenerationModel,
    second: Seq<OwnerEffect>,
    c: GenerationModel,
)
    requires
        evolves(a, b),
        evolves(b, c),
        told_truly(a, first, b),
        told_truly(b, second, c),
    ensures
        evolves(a, c),
        told_truly(a, first + second, c),
{
    assert forall|i: int| 0 <= i < a.requests.len() implies request_evolves(
        #[trigger] a.requests[i],
        c.requests[i],
    ) by {
        assert(request_evolves(a.requests[i], b.requests[i]));
        assert(request_evolves(b.requests[i], c.requests[i]));
    }
    assert forall|i: int| 0 <= i < a.requests.len() implies told(
        first + second,
        (#[trigger] a.requests[i]).lifecycle.key,
    ) == (if a.requests[i].lifecycle.caller == CallerOutcome::Open
        && c.requests[i].lifecycle.caller != CallerOutcome::Open {
        1nat
    } else {
        0nat
    }) by {
        told_concat(first, second, a.requests[i].lifecycle.key);
        assert(request_evolves(a.requests[i], b.requests[i]));
        assert(request_evolves(b.requests[i], c.requests[i]));
    }
}

/// A step that changes one request and tells at most its caller.
proof fn settled_one(
    before: GenerationModel,
    effects: Seq<OwnerEffect>,
    after: GenerationModel,
    i: int,
    at: int,
)
    requires
        before.wf(),
        0 <= i < before.requests.len(),
        after.requests =~= before.requests.update(i, after.requests[i]),
        request_evolves(before.requests[i], after.requests[i]),
        after.generation == before.generation,
        after.limits == before.limits,
        after.tombstone_drain_timeout == before.tombstone_drain_timeout,
        before.unhealthy ==> after.unhealthy,
        after.next_message_id == before.next_message_id,
        0 <= at < effects.len(),
        forall|j: int| 0 <= j < effects.len() && j != at ==> !publishes(#[trigger] effects[j]),
        forall|key: RequestKey|
            key != before.requests[i].lifecycle.key ==> !(#[trigger] tells(effects[at], key)),
        tells(effects[at], before.requests[i].lifecycle.key) == (
        before.requests[i].lifecycle.caller == CallerOutcome::Open
            && after.requests[i].lifecycle.caller != CallerOutcome::Open),
    ensures
        evolves(before, after),
        told_truly(before, effects, after),
{
    assert forall|j: int| 0 <= j < before.requests.len() implies request_evolves(
        #[trigger] before.requests[j],
        after.requests[j],
    ) by {}
    assert forall|j: int| 0 <= j < before.requests.len() implies told(
        effects,
        (#[trigger] before.requests[j]).lifecycle.key,
    ) == (if before.requests[j].lifecycle.caller == CallerOutcome::Open
        && after.requests[j].lifecycle.caller != CallerOutcome::Open {
        1nat
    } else {
        0nat
    }) by {
        let key = before.requests[j].lifecycle.key;
        told_once(effects, key, at);
        if j != i {
            position_is_unique(before, key, j);
            if before.requests[i].lifecycle.key == key {
                position_is_unique(before, key, i);
            }
        }
    }
}

/// A step that changes no request and tells nobody.
proof fn settled_none(before: GenerationModel, effects: Seq<OwnerEffect>, after: GenerationModel)
    requires
        after.requests == before.requests,
        after.generation == before.generation,
        after.limits == before.limits,
        after.tombstone_drain_timeout == before.tombstone_drain_timeout,
        before.unhealthy ==> after.unhealthy,
        after.next_message_id == before.next_message_id,
        forall|j: int| 0 <= j < effects.len() ==> !publishes(#[trigger] effects[j]),
    ensures
        evolves(before, after),
        told_truly(before, effects, after),
{
    assert forall|j: int| 0 <= j < before.requests.len() implies told(
        effects,
        (#[trigger] before.requests[j]).lifecycle.key,
    ) == 0 by {
        told_nothing(effects, before.requests[j].lifecycle.key);
    }
}

/// Releasing what a request holds touches nothing else.
pub(crate) proof fn release_is_local(model: GenerationModel, i: int)
    requires
        0 <= i < model.requests.len(),
    ensures
        model.ownership_released(i).requests =~= model.requests.update(
            i,
            OwnedRequest { payload_held: false, admission_held: false, ..model.requests[i] },
        ),
        model.ownership_released(i).deadlines == model.deadlines,
        model.ownership_released(i).generation == model.generation,
        model.ownership_released(i).limits == model.limits,
        model.ownership_released(i).next_message_id == model.next_message_id,
        model.ownership_released(i).unhealthy == model.unhealthy,
        model.ownership_released(i).tombstone_drain_timeout == model.tombstone_drain_timeout,
        model.ownership_released(i).available_credits == model.available_credits,
        model.ownership_released(i).total_credits == model.total_credits,
        model.ownership_released(i).pending_extra_credits == model.pending_extra_credits,
{
}

/// Winding a request down touches no other request and publishes nothing.
pub(crate) proof fn wind_down_is_local(model: GenerationModel, i: int, now: MonotonicTime, committed: bool)
    requires
        0 <= i < model.requests.len(),
    ensures
        ({
            let (next, effects) = model.wound_down(i, now, committed);
            &&& next.requests =~= model.requests.update(i, next.requests[i])
            &&& next.requests.len() == model.requests.len()
            &&& request_evolves(model.requests[i], next.requests[i])
            &&& next.requests[i].lifecycle == model.requests[i].lifecycle
            &&& next.generation == model.generation
            &&& next.limits == model.limits
            &&& next.next_message_id == model.next_message_id
            &&& next.tombstone_drain_timeout == model.tombstone_drain_timeout
            &&& model.unhealthy ==> next.unhealthy
            &&& forall|j: int| 0 <= j < effects.len() ==> !publishes(#[trigger] effects[j])
        }),
{
    release_is_local(model, i);
    let request = model.requests[i];
    if !committed && request.credit_obligation {
        let returned = GenerationModel {
            available_credits: (model.available_credits + request.credit_charge) as u32,
            pending_extra_credits: saturated_sub(
                model.pending_extra_credits,
                request.requested_extra_credits,
            ),
            ..model.with_request(i, OwnedRequest { credit_obligation: false, ..request })
        };
        release_is_local(returned, i);
    }
}

pub(crate) proof fn firing_settles(model: GenerationModel, now: MonotonicTime)
    requires
        model.wf(),
        model.deadlines.len() > 0,
    ensures
        evolves(model, model.fired(now).0),
        told_truly(model, model.fired(now).1, model.fired(now).0),
{
    let entry = model.deadlines[0];
    let popped = GenerationModel { deadlines: model.deadlines.drop_first(), ..model };
    let (next, effects) = model.fired(now);
    let i = model.position(entry.key);
    let request = model.requests[i];
    if model.tracks(entry.key) && request.deadline_version == entry.version && entry.kind
        == DeadlineKind::Caller && request.lifecycle.caller == CallerOutcome::Open {
        let lifecycle = request.lifecycle.reduced(RequestEvent::Deadline).0;
        let reduced = popped.with_lifecycle(i, lifecycle);
        wind_down_is_local(reduced, i, now, request.lifecycle.send.is_committed());
        assert(next.requests =~= model.requests.update(i, next.requests[i]));
        settled_one(model, effects, next, i, 0);
    } else {
        settled_none(model, effects, next);
    }
}

proof fn disconnecting_settles(model: GenerationModel, i: int)
    requires
        model.wf(),
        0 <= i < model.requests.len(),
    ensures
        ({
            let (lifecycle, effect) = model.requests[i].lifecycle.reduced(RequestEvent::Disconnect);
            let next = model.with_lifecycle(i, lifecycle).ownership_released(i);
            let effects = seq![
                OwnerEffect::Request { key: model.requests[i].lifecycle.key, effect },
            ];
            evolves(model, next) && told_truly(model, effects, next)
        }),
{
    let (lifecycle, effect) = model.requests[i].lifecycle.reduced(RequestEvent::Disconnect);
    let reduced = model.with_lifecycle(i, lifecycle);
    release_is_local(reduced, i);
    let next = reduced.ownership_released(i);
    assert(next.requests =~= model.requests.update(i, next.requests[i]));
    let effects = seq![OwnerEffect::Request { key: model.requests[i].lifecycle.key, effect }];
    settled_one(model, effects, next, i, 0);
}

proof fn time_settles(model: GenerationModel, now: MonotonicTime)
    requires
        model.wf(),
    ensures
        model.advanced(now).0.wf(),
        !model.advanced(now).0.due(now),
        evolves(model, model.advanced(now).0),
        told_truly(model, model.advanced(now).1, model.advanced(now).0),
    decreases outstanding(model.deadlines),
{
    if model.due(now) {
        let (next, effects) = model.fired(now);
        firing_takes_work_away(model, now);
        firing_keeps_wf(model, now);
        firing_settles(model, now);
        time_settles(next, now);
        let (last, further) = next.advanced(now);
        settled_in_turn(model, effects, next, further, last);
    } else {
        settled_none(model, seq![], model);
    }
}

proof fn disconnect_settles(model: GenerationModel, i: int)
    requires
        model.wf(),
        0 <= i <= model.requests.len(),
        forall|j: int|
            0 <= j < i ==> (#[trigger] model.requests[j]).lifecycle.caller != CallerOutcome::Open
                && !model.requests[j].admission_held,
    ensures
        model.disconnected(i).0.wf(),
        evolves(model, model.disconnected(i).0),
        told_truly(model, model.disconnected(i).1, model.disconnected(i).0),
        model.disconnected(i).0.requests.len() == model.requests.len(),
        forall|j: int|
            0 <= j < model.requests.len() ==> (
            #[trigger] model.disconnected(i).0.requests[j]).lifecycle.caller != CallerOutcome::Open
                && !model.disconnected(i).0.requests[j].admission_held,
        model.disconnected(i).0.available_credits == model.available_credits,
        model.disconnected(i).0.unhealthy == model.unhealthy,
    decreases model.requests.len() - i,
{
    if i < model.requests.len() {
        let (lifecycle, effect) = model.requests[i].lifecycle.reduced(RequestEvent::Disconnect);
        let reduced = model.with_lifecycle(i, lifecycle);
        let next = reduced.ownership_released(i);
        let effects = seq![OwnerEffect::Request { key: model.requests[i].lifecycle.key, effect }];
        assert(model.request_ok(model.requests[i]));
        lifecycle_keeps_wf(model, i, lifecycle);
        release_keeps_wf(reduced, i);
        release_is_local(reduced, i);
        disconnecting_settles(model, i);
        disconnect_settles(next, i + 1);
        let (last, further) = next.disconnected(i + 1);
        settled_in_turn(model, effects, next, further, last);
    } else {
        settled_none(model, seq![], model);
    }
}

proof fn admission_settles(
    model: GenerationModel,
    payload_bytes: u64,
    credit_charge: u16,
    caller_deadline: Option<MonotonicTime>,
)
    requires
        model.wf(),
    ensures
        ({
            let (next, effect) = model.admitted(payload_bytes, credit_charge, caller_deadline);
            next.wf() && evolves(model, next) && told_truly(model, seq![effect], next)
        }),
{
    let (next, effect) = model.admitted(payload_bytes, credit_charge, caller_deadline);
    if model.refusal(payload_bytes, credit_charge) is Some {
        settled_none(model, seq![effect], next);
    } else {
        let bare = model.admitted(payload_bytes, credit_charge, None).0;
        let place = model.requests.len() as int;
        push_keeps_wf(model, bare, bare.requests[place]);
        if caller_deadline is Some {
            deadline_keeps_wf(bare, place, caller_deadline.unwrap(), DeadlineKind::Caller);
        }
        assert forall|j: int| 0 <= j < model.requests.len() implies request_evolves(
            #[trigger] model.requests[j],
            next.requests[j],
        ) by {
            assert(bare.requests[j] == model.requests[j]);
        }
        assert forall|j: int| 0 <= j < model.requests.len() implies told(
            seq![effect],
            (#[trigger] model.requests[j]).lifecycle.key,
        ) == 0 by {
            told_nothing(seq![effect], model.requests[j].lifecycle.key);
        }
    }
}

proof fn progress_settles(model: GenerationModel, key: RequestKey, event: RequestProgress)
    requires
        model.wf(),
    ensures
        ({
            let (next, effects) = model.progressed(key, event);
            next.wf() && evolves(model, next) && told_truly(model, effects, next)
        }),
{
    let (next, effects) = model.progressed(key, event);
    if model.tracks(key) {
        let i = model.position(key);
        assert(model.request_ok(model.requests[i]));
        let lifecycle = next.requests[i].lifecycle;
        let reduced = model.with_lifecycle(i, lifecycle);
        lifecycle_keeps_wf(model, i, lifecycle);
        release_keeps_wf(reduced, i);
        assert(next.requests =~= model.requests.update(i, next.requests[i]));
        settled_one(model, effects, next, i, 0);
    } else {
        settled_none(model, effects, next);
    }
}

proof fn cancellation_settles(model: GenerationModel, key: RequestKey, now: MonotonicTime)
    requires
        model.wf(),
    ensures
        ({
            let (next, effects) = model.cancelled(key, now);
            next.wf() && evolves(model, next) && told_truly(model, effects, next)
        }),
{
    let (next, effects) = model.cancelled(key, now);
    if model.tracks(key) {
        let i = model.position(key);
        let request = model.requests[i];
        assert(model.request_ok(request));
        let marked = OwnedRequest { cancel_seen: true, ..request };
        let seen = model.with_request(i, marked);
        update_keeps_wf(model, seen, i, marked);
        if request.cancel_seen || request.lifecycle.caller != CallerOutcome::Open {
            settled_one(model, effects, next, i, 0);
        } else {
            let committed = request.lifecycle.send.is_committed();
            let lifecycle = request.lifecycle.reduced(RequestEvent::Cancel).0;
            let reduced = seen.with_lifecycle(i, lifecycle);
            lifecycle_keeps_wf(seen, i, lifecycle);
            wind_down_keeps_wf(reduced, i, now, committed);
            wind_down_is_local(reduced, i, now, committed);
            assert(next.requests =~= model.requests.update(i, next.requests[i]));
            settled_one(model, effects, next, i, 1);
        }
    } else {
        settled_none(model, effects, next);
    }
}

proof fn failure_settles(model: GenerationModel, key: RequestKey)
    requires
        model.wf(),
    ensures
        ({
            let (next, effects) = model.preparation_failed(key);
            next.wf() && evolves(model, next) && told_truly(model, effects, next)
        }),
{
    let (next, effects) = model.preparation_failed(key);
    if model.tracks(key) && !model.request(key).lifecycle.send.is_committed() {
        let i = model.position(key);
        let request = model.requests[i];
        assert(model.request_ok(request));
        let lifecycle = request.lifecycle.published(TerminalOutcome::PreparationFailed).0;
        let reduced = model.with_lifecycle(i, lifecycle);
        lifecycle_keeps_wf(model, i, lifecycle);
        rollback_keeps_wf(reduced, i);
        wind_down_is_local(reduced, i, arbitrary(), false);
        assert(next.requests =~= model.requests.update(i, next.requests[i]));
        settled_one(model, effects, next, i, 0);
    } else {
        settled_none(model, effects, next);
    }
}

proof fn hint_settles(model: GenerationModel, key: RequestKey)
    requires
        model.wf(),
    ensures
        ({
            let (next, effects) = model.hinted(key);
            next.wf() && evolves(model, next) && told_truly(model, effects, next)
        }),
{
    let (next, effects) = model.hinted(key);
    if model.tracks(key) {
        let i = model.position(key);
        let request = model.requests[i];
        assert(model.request_ok(request));
        let lifecycle = request.lifecycle.published(TerminalOutcome::SessionInvalidated).0;
        let reduced = model.with_lifecycle(i, lifecycle);
        lifecycle_keeps_wf(model, i, lifecycle);
        release_keeps_wf(reduced, i);
        release_is_local(reduced, i);
        assert(next.requests =~= model.requests.update(i, next.requests[i]));
        settled_one(model, effects, next, i, 0);
    } else {
        settled_none(model, effects, next);
    }
}

/// Settling the credits of an answer touches no other request.
pub(crate) proof fn settling_is_local(model: GenerationModel, i: int, credit_grant: u16)
    requires
        model.wf(),
        0 <= i < model.requests.len(),
    ensures
        ({
            let next = model.credits_settled(i, credit_grant);
            &&& next.wf()
            &&& next.requests =~= model.requests.update(
                i,
                OwnedRequest {
                    credit_response_seen: true,
                    lifecycle: model.requests[i].lifecycle.answered(),
                    payload_held: false,
                    ..model.requests[i]
                },
            )
            &&& next.generation == model.generation
            &&& next.limits == model.limits
            &&& next.next_message_id == model.next_message_id
            &&& next.tombstone_drain_timeout == model.tombstone_drain_timeout
            &&& next.unhealthy == model.unhealthy
            &&& next.available_credits == model.available_credits
            &&& next.deadlines == model.deadlines
        }),
{
    let request = model.requests[i];
    assert(model.request_ok(request));
    let seen = OwnedRequest {
        credit_response_seen: true,
        lifecycle: request.lifecycle.answered(),
        ..request
    };
    let ledger = if !request.credit_response_seen {
        GenerationModel {
            pending_extra_credits: saturated_sub(
                model.pending_extra_credits,
                request.requested_extra_credits,
            ),
            total_credits: saturated_add(
                saturated_sub(model.total_credits, request.credit_charge as u32),
                credit_grant as u32,
            ),
            ..model
        }
    } else {
        GenerationModel {
            total_credits: saturated_add(model.total_credits, credit_grant as u32),
            ..model
        }
    };
    update_keeps_wf(model, ledger.with_request(i, seen), i, seen);
    release_keeps_wf(ledger.with_request(i, seen), i);
}

proof fn answer_settles(model: GenerationModel, i: int, event: ResponseEvent, credit_grant: u16)
    requires
        model.wf(),
        0 <= i < model.requests.len(),
        model.requests[i].lifecycle.response != ResponseProgress::Final,
        event matches ResponseEvent::Pending { async_id } ==> forall|j: int|
            j != i ==> !model.pending_under(async_id, j),
    ensures
        ({
            let (next, effects) = model.answered(i, event, credit_grant);
            &&& next.wf()
            &&& evolves(model, next)
            &&& told_truly(model, effects, next)
            &&& next.requests =~= model.requests.update(i, next.requests[i])
        }),
{
    let (next, effects) = model.answered(i, event, credit_grant);
    let key = model.requests[i].lifecycle.key;
    settling_is_local(model, i, credit_grant);
    let settled = model.credits_settled(i, credit_grant);
    if settled.available_credits + credit_grant > u32::MAX {
        ledger_change_keeps_wf(settled, next);
        settled_one(model, effects, next, i, 0);
    } else {
        let granted = GenerationModel {
            available_credits: (settled.available_credits + credit_grant) as u32,
            ..settled
        };
        ledger_change_keeps_wf(settled, granted);
        let request = granted.requests[i];
        assert(granted.request_ok(request));
        match event {
            ResponseEvent::Pending { async_id } => {
                let lifecycle = request.lifecycle.reduced(
                    RequestEvent::AsyncPending { key, async_id },
                ).0;
                assert forall|j: int| 0 <= j < granted.requests.len() && j != i implies (
                #[trigger] granted.requests[j]).lifecycle.response != lifecycle.response by {
                    assert(!model.pending_under(async_id, j));
                }
                lifecycle_keeps_wf(granted, i, lifecycle);
                assert(next.requests =~= model.requests.update(i, next.requests[i]));
                settled_one(model, effects, next, i, 1);
            },
            ResponseEvent::Final => {
                let lifecycle = request.lifecycle.reduced(RequestEvent::FinalResponse { key }).0;
                let exhausted = request.deadline_version == u64::MAX;
                let closed_request = OwnedRequest {
                    lifecycle,
                    credit_obligation: false,
                    deadline_version: if exhausted {
                        request.deadline_version
                    } else {
                        (request.deadline_version + 1) as u64
                    },
                    ..request
                };
                let closed_model = GenerationModel {
                    unhealthy: granted.unhealthy || exhausted,
                    ..granted.with_request(i, closed_request)
                };
                update_keeps_wf(granted, closed_model, i, closed_request);
                release_keeps_wf(closed_model, i);
                release_is_local(closed_model, i);
                assert(next.requests =~= model.requests.update(i, next.requests[i]));
                settled_one(model, effects, next, i, 1);
            },
        }
    }
}

proof fn response_settles(
    model: GenerationModel,
    key: RequestKey,
    event: ResponseEvent,
    credit_grant: u16,
)
    requires
        model.wf(),
    ensures
        ({
            let (next, effects) = model.responded(key, event, credit_grant);
            next.wf() && evolves(model, next) && told_truly(model, effects, next)
        }),
{
    let (next, effects) = model.responded(key, event, credit_grant);
    let holder = match event {
        ResponseEvent::Pending { async_id } => model.async_holder(async_id),
        ResponseEvent::Final => None,
    };
    let i = model.position(key);
    let progress = model.requests[i].lifecycle.response;
    ledger_change_keeps_wf(model, GenerationModel { unhealthy: true, ..model });
    if key.generation == model.generation && !(holder is Some && holder != Some(key))
        && model.tracks(key) && progress != ResponseProgress::Final && !(event is Pending
        && progress is AsyncPending && progress->async_id != event->async_id) {
        if event is Pending {
            async_id_is_free(model, key, event->async_id, i);
        }
        answer_settles(model, i, event, credit_grant);
    } else {
        settled_none(model, effects, next);
    }
}

/// Whatever happens, a generation stays well-formed: message ids stay unique,
/// the budgets in use stay what the requests hold and within the limits, and
/// an async id names at most one request.
pub proof fn every_event_keeps_the_invariants(model: GenerationModel, event: OwnerEvent)
    requires
        model.wf(),
    ensures
        model.step(event).0.wf(),
{
    event_settles(model, event);
}

/// Whatever happens, no request is forgotten, no published outcome changes, no
/// wire progress is lost, and nothing given back is held again.
pub proof fn history_is_never_rewritten(model: GenerationModel, event: OwnerEvent)
    requires
        model.wf(),
    ensures
        evolves(model, model.step(event).0),
{
    event_settles(model, event);
}

/// An event publishes an outcome to a caller exactly when that caller stops
/// waiting, and then once.
pub proof fn callers_are_told_exactly_once(model: GenerationModel, event: OwnerEvent)
    requires
        model.wf(),
    ensures
        told_truly(model, model.step(event).1, model.step(event).0),
{
    event_settles(model, event);
}

pub(crate) proof fn event_settles(model: GenerationModel, event: OwnerEvent)
    requires
        model.wf(),
    ensures
        model.step(event).0.wf(),
        evolves(model, model.step(event).0),
        told_truly(model, model.step(event).1, model.step(event).0),
{
    match event {
        OwnerEvent::Admit { payload_bytes, credit_charge, caller_deadline } => {
            admission_settles(model, payload_bytes, credit_charge, caller_deadline);
        },
        OwnerEvent::Request { key, event } => {
            progress_settles(model, key, event);
        },
        OwnerEvent::PrepareFailed { key } => {
            failure_settles(model, key);
        },
        OwnerEvent::Cancel { key, now } => {
            cancellation_settles(model, key, now);
        },
        OwnerEvent::Response { key, event, credit_grant } => {
            response_settles(model, key, event, credit_grant);
        },
        OwnerEvent::RecoveryHint { key } => {
            hint_settles(model, key);
        },
        OwnerEvent::AdvanceTime { now } => {
            time_settles(model, now);
        },
        OwnerEvent::Disconnect => {
            disconnect_settles(model, 0);
        },
    }
}

/// The state after a history of events, oldest first.
pub open spec fn lived(model: GenerationModel, events: Seq<OwnerEvent>) -> GenerationModel
    decreases events.len(),
{
    if events.len() == 0 {
        model
    } else {
        lived(model, events.drop_last()).step(events.last()).0
    }
}

/// How often a history publishes an outcome to the caller of `key`.
pub open spec fn told_in_life(
    model: GenerationModel,
    events: Seq<OwnerEvent>,
    key: RequestKey,
) -> nat
    decreases events.len(),
{
    if events.len() == 0 {
        0
    } else {
        let earlier = events.drop_last();
        told_in_life(model, earlier, key) + told(
            lived(model, earlier).step(events.last()).1,
            key,
        )
    }
}

/// Over any history, the caller of a request is told at most one outcome, and
/// none once it was told one before.
pub proof fn one_outcome_in_a_life(
    model: GenerationModel,
    events: Seq<OwnerEvent>,
    key: RequestKey,
)
    requires
        model.wf(),
        model.tracks(key),
    ensures
        lived(model, events).wf(),
        lived(model, events).tracks(key),
        lived(model, events).position(key) == model.position(key),
        told_in_life(model, events, key) <= 1,
        told_in_life(model, events, key) == 1 <==> model.request(key).lifecycle.caller
            == CallerOutcome::Open && lived(model, events).request(key).lifecycle.caller
            != CallerOutcome::Open,
        model.request(key).lifecycle.caller != CallerOutcome::Open ==> lived(model, events).request(
            key,
        ).lifecycle.caller == model.request(key).lifecycle.caller,
    decreases events.len(),
{
    let i = model.position(key);
    if events.len() > 0 {
        let earlier = lived(model, events.drop_last());
        one_outcome_in_a_life(model, events.drop_last(), key);
        event_settles(earlier, events.last());
        let after = earlier.step(events.last()).0;
        assert(request_evolves(earlier.requests[i], after.requests[i]));
        position_is_unique(after, key, i);
        position_is_unique(earlier, key, i);
    }
}

/// An admission that is refused leaves the generation as it was.
pub proof fn refused_admission_changes_nothing(
    model: GenerationModel,
    payload_bytes: u64,
    credit_charge: u16,
    caller_deadline: Option<MonotonicTime>,
)
    requires
        model.admitted(payload_bytes, credit_charge, caller_deadline).1 is AdmissionRejected,
    ensures
        model.admitted(payload_bytes, credit_charge, caller_deadline).0 == model,
{
}

/// An admitted request gets a message id that no request of the generation
/// ever had, and the ids of its whole charge stay unused by any later one.
pub proof fn admitted_ids_are_new(
    model: GenerationModel,
    payload_bytes: u64,
    credit_charge: u16,
    caller_deadline: Option<MonotonicTime>,
)
    requires
        model.wf(),
        model.admitted(payload_bytes, credit_charge, caller_deadline).1 is Admitted,
    ensures
        ({
            let (next, effect) = model.admitted(payload_bytes, credit_charge, caller_deadline);
            let key = effect->Admitted_0.key;
            &&& !model.tracks(key)
            &&& next.tracks(key)
            &&& next.next_message_id matches Some(id) ==> id == key.message_id + credit_charge
            &&& next.next_message_id is None ==> key.message_id + credit_charge > u64::MAX
        }),
{
    let (next, effect) = model.admitted(payload_bytes, credit_charge, caller_deadline);
    let key = effect->Admitted_0.key;
    if model.tracks(key) {
        assert(model.request_ok(model.requests[model.position(key)]));
    }
    let place = model.requests.len() as int;
    assert(next.requests[place].lifecycle.key == key);
}

/// An event for a request that the generation does not know changes nothing,
/// unless it claims an async id that belongs to another request.
pub proof fn unaddressed_events_change_nothing(
    model: GenerationModel,
    key: RequestKey,
    event: OwnerEvent,
)
    requires
        model.wf(),
        !model.tracks(key),
        match event {
            OwnerEvent::Request { key: k, .. } => k == key,
            OwnerEvent::PrepareFailed { key: k } => k == key,
            OwnerEvent::Cancel { key: k, .. } => k == key,
            OwnerEvent::RecoveryHint { key: k } => k == key,
            OwnerEvent::Response { key: k, event: e, .. } => k == key && (key.generation
                != model.generation || e is Final || model.async_holder(e->async_id) is None),
            _ => false,
        },
    ensures
        model.step(event) == (model, model.unaddressed(key)),
{
}

/// Only the first final answer counts: a further answer moves no credit and
/// changes nothing, unless it claims an async id that belongs to another
/// request.
pub proof fn answers_after_the_final_one_change_nothing(
    model: GenerationModel,
    key: RequestKey,
    event: ResponseEvent,
    credit_grant: u16,
)
    requires
        model.wf(),
        model.tracks(key),
        model.request(key).lifecycle.response == ResponseProgress::Final,
        event matches ResponseEvent::Pending { async_id } ==> model.async_holder(async_id) is None,
    ensures
        model.responded(key, event, credit_grant) == (
            model,
            seq![OwnerEffect::DuplicateResponse(key)],
        ),
{
    assert(model.request_ok(model.requests[model.position(key)]));
}

/// A reservation is rolled back at most once.
pub proof fn rollback_happens_once(model: GenerationModel, i: int)
    requires
        model.wf(),
        0 <= i < model.requests.len(),
        model.rolled_back(i).1,
    ensures
        model.rolled_back(i).0.rolled_back(i) == (model.rolled_back(i).0, false),
{
    release_is_local(model, i);
    let request = model.requests[i];
    if request.credit_obligation {
        let returned = GenerationModel {
            available_credits: (model.available_credits + request.credit_charge) as u32,
            pending_extra_credits: saturated_sub(
                model.pending_extra_credits,
                request.requested_extra_credits,
            ),
            ..model.with_request(i, OwnedRequest { credit_obligation: false, ..request })
        };
        release_is_local(returned, i);
    }
}

/// An admission whose preparation fails gives back all it took: credits,
/// operation slot, payload bytes and the credits asked for in advance. Only
/// its message ids stay used.
pub proof fn failed_preparation_returns_everything(
    model: GenerationModel,
    payload_bytes: u64,
    credit_charge: u16,
    caller_deadline: Option<MonotonicTime>,
)
    requires
        model.wf(),
        model.admitted(payload_bytes, credit_charge, caller_deadline).1 is Admitted,
        model.pending_extra_credits + u16::MAX <= u32::MAX,
    ensures
        ({
            let (reserved, effect) = model.admitted(payload_bytes, credit_charge, caller_deadline);
            let key = effect->Admitted_0.key;
            let (next, effects) = reserved.preparation_failed(key);
            &&& effects == seq![
                OwnerEffect::Request {
                    key,
                    effect: ReduceEffect::Publish(TerminalOutcome::PreparationFailed),
                },
                OwnerEffect::ReservationRolledBack(key),
            ]
            &&& next.available_credits == model.available_credits
            &&& next.total_credits == model.total_credits
            &&& next.pending_extra_credits == model.pending_extra_credits
            &&& next.admitted_operations == model.admitted_operations
            &&& next.retained_payload_bytes == model.retained_payload_bytes
            &&& next.next_message_id == reserved.next_message_id
        }),
{
    let (reserved, effect) = model.admitted(payload_bytes, credit_charge, caller_deadline);
    let key = effect->Admitted_0.key;
    let place = model.requests.len() as int;
    admission_settles(model, payload_bytes, credit_charge, caller_deadline);
    assert(reserved.requests[place].lifecycle.key == key);
    position_is_unique(reserved, key, place);
}

/// A disconnect leaves nobody waiting and nothing held, and moves no credit.
pub proof fn disconnect_settles_everyone(model: GenerationModel)
    requires
        model.wf(),
    ensures
        ({
            let next = model.step(OwnerEvent::Disconnect).0;
            &&& total(next.requests, open_caller_weight()) == 0
            &&& next.admitted_operations == 0
            &&& next.retained_payload_bytes == 0
            &&& next.available_credits == model.available_credits
        }),
{
    disconnect_settles(model, 0);
    let next = model.disconnected(0).0;
    assert forall|i: int| 0 <= i < next.requests.len() implies open_caller_weight()(
        #[trigger] next.requests[i],
    ) == 0 by {}
    nothing_weighs_nothing(next.requests, open_caller_weight());
    assert forall|i: int| 0 <= i < next.requests.len() implies operation_weight()(
        #[trigger] next.requests[i],
    ) == 0 by {}
    nothing_weighs_nothing(next.requests, operation_weight());
    assert forall|i: int| 0 <= i < next.requests.len() implies payload_weight()(
        #[trigger] next.requests[i],
    ) == 0 by {
        assert(next.request_ok(next.requests[i]));
    }
    nothing_weighs_nothing(next.requests, payload_weight());
}

proof fn nothing_weighs_nothing(
    requests: Seq<OwnedRequest>,
    weight: spec_fn(OwnedRequest) -> nat,
)
    requires
        forall|i: int| 0 <= i < requests.len() ==> weight(#[trigger] requests[i]) == 0,
    ensures
        total(requests, weight) == 0,
    decreases requests.len(),
{
    if requests.len() > 0 {
        let rest = requests.drop_last();
        assert forall|i: int| 0 <= i < rest.len() implies weight(#[trigger] rest[i]) == 0 by {
            assert(rest[i] == requests[i]);
        }
        nothing_weighs_nothing(rest, weight);
    }
}

/// Once time has advanced to `now`, no deadline up to `now` is left.
pub proof fn time_leaves_nothing_due(model: GenerationModel, now: MonotonicTime)
    requires
        model.wf(),
    ensures
        ({
            let next = model.step(OwnerEvent::AdvanceTime { now }).0;
            forall|i: int| 0 <= i < next.deadlines.len() ==> (#[trigger] next.deadlines[i]).at@ > now@
        }),
{
    time_settles(model, now);
    let next = model.advanced(now).0;
    assert forall|i: int| 0 <= i < next.deadlines.len() implies (
    #[trigger] next.deadlines[i]).at@ > now@ by {
        if i > 0 {
            assert(!fires_before(next.deadlines[i], next.deadlines[0]));
        }
    }
}

/// The credits that a request was charged and that no answer has settled.
pub open spec fn charge_weight() -> spec_fn(OwnedRequest) -> nat {
    |r: OwnedRequest|
        if r.credit_obligation && !r.credit_response_seen {
            r.credit_charge as nat
        } else {
            0nat
        }
}

/// The ledger balances: the credits in circulation are those available and
/// those charged to requests that no answer has settled.
pub open spec fn balanced(model: GenerationModel) -> bool {
    &&& model.total_credits == model.available_credits + total(model.requests, charge_weight())
    &&& forall|i: int|
        0 <= i < model.requests.len() ==> ((#[trigger] model.requests[i]).credit_response_seen
            ==> model.requests[i].lifecycle.send.is_committed())
}

/// Changing one request keeps the balance when the ledger moves with it.
proof fn balance_follows(before: GenerationModel, after: GenerationModel, i: int)
    requires
        balanced(before),
        0 <= i < before.requests.len(),
        after.requests =~= before.requests.update(i, after.requests[i]),
        after.requests[i].credit_response_seen
            ==> after.requests[i].lifecycle.send.is_committed(),
        after.total_credits - before.total_credits == after.available_credits
            - before.available_credits + charge_weight()(after.requests[i]) - charge_weight()(
            before.requests[i],
        ),
    ensures
        balanced(after),
{
    total_after_update(before.requests, charge_weight(), i, after.requests[i]);
}

proof fn wind_down_balances(model: GenerationModel, i: int, now: MonotonicTime)
    requires
        balanced(model),
        0 <= i < model.requests.len(),
    ensures
        balanced(model.wound_down(i, now, model.requests[i].lifecycle.send.is_committed()).0),
{
    let request = model.requests[i];
    let committed = request.lifecycle.send.is_committed();
    let next = model.wound_down(i, now, committed).0;
    wind_down_is_local(model, i, now, committed);
    total_after_update(model.requests, charge_weight(), i, request);
    if !committed {
        release_is_local(model, i);
        if request.credit_obligation {
            let returned = GenerationModel {
                available_credits: (model.available_credits + request.credit_charge) as u32,
                pending_extra_credits: saturated_sub(
                    model.pending_extra_credits,
                    request.requested_extra_credits,
                ),
                ..model.with_request(i, OwnedRequest { credit_obligation: false, ..request })
            };
            release_is_local(returned, i);
        }
    }
    balance_follows(model, next, i);
}

proof fn firing_balances(model: GenerationModel, now: MonotonicTime)
    requires
        balanced(model),
        model.deadlines.len() > 0,
    ensures
        balanced(model.fired(now).0),
{
    let entry = model.deadlines[0];
    let popped = GenerationModel { deadlines: model.deadlines.drop_first(), ..model };
    let i = model.position(entry.key);
    let request = model.requests[i];
    if model.tracks(entry.key) && request.deadline_version == entry.version && entry.kind
        == DeadlineKind::Caller && request.lifecycle.caller == CallerOutcome::Open {
        let reduced = popped.with_lifecycle(
            i,
            request.lifecycle.reduced(RequestEvent::Deadline).0,
        );
        balance_follows(popped, reduced, i);
        wind_down_balances(reduced, i, now);
    }
}

proof fn time_balances(model: GenerationModel, now: MonotonicTime)
    requires
        balanced(model),
    ensures
        balanced(model.advanced(now).0),
    decreases outstanding(model.deadlines),
{
    if model.due(now) {
        firing_takes_work_away(model, now);
        firing_balances(model, now);
        time_balances(model.fired(now).0, now);
    }
}

proof fn disconnect_balances(model: GenerationModel, i: int)
    requires
        balanced(model),
        0 <= i <= model.requests.len(),
    ensures
        balanced(model.disconnected(i).0),
    decreases model.requests.len() - i,
{
    if i < model.requests.len() {
        let lifecycle = model.requests[i].lifecycle.reduced(RequestEvent::Disconnect).0;
        let reduced = model.with_lifecycle(i, lifecycle);
        release_is_local(reduced, i);
        let next = reduced.ownership_released(i);
        balance_follows(model, next, i);
        disconnect_balances(next, i + 1);
    }
}

/// Every event keeps the ledger in balance, except an answer to a reservation
/// that was already rolled back, and an answer whose grant would push the
/// credits in circulation past what the ledger can count.
pub proof fn credits_are_conserved(model: GenerationModel, event: OwnerEvent)
    requires
        model.wf(),
        balanced(model),
        event matches OwnerEvent::Response { key, credit_grant, .. } ==> model.tracks(key) ==> (
        model.request(key).credit_obligation || model.request(key).credit_response_seen)
            && model.total_credits + credit_grant <= u32::MAX,
    ensures
        balanced(model.step(event).0),
{
    match event {
        OwnerEvent::Admit { payload_bytes, credit_charge, caller_deadline } => {
            admission_balances(model, payload_bytes, credit_charge, caller_deadline);
        },
        OwnerEvent::Request { key, event } => {
            progress_balances(model, key, event);
        },
        OwnerEvent::PrepareFailed { key } => {
            failure_balances(model, key);
        },
        OwnerEvent::Cancel { key, now } => {
            cancellation_balances(model, key, now);
        },
        OwnerEvent::Response { key, event, credit_grant } => {
            if model.tracks(key) {
                answer_balances(model, key, event, credit_grant);
            }
        },
        OwnerEvent::RecoveryHint { key } => {
            hint_balances(model, key);
        },
        OwnerEvent::AdvanceTime { now } => {
            time_balances(model, now);
        },
        OwnerEvent::Disconnect => {
            disconnect_balances(model, 0);
        },
    }
}

/// A generation starts with its ledger in balance.
pub proof fn fresh_ledger_balances(state: GenerationModel)
    requires
        state.requests.len() == 0,
        state.total_credits == state.available_credits,
    ensures
        balanced(state),
{
}

proof fn admission_balances(
    model: GenerationModel,
    payload_bytes: u64,
    credit_charge: u16,
    caller_deadline: Option<MonotonicTime>,
)
    requires
        balanced(model),
    ensures
        balanced(model.admitted(payload_bytes, credit_charge, caller_deadline).0),
{
    if model.refusal(payload_bytes, credit_charge) is None {
        let next = model.admitted(payload_bytes, credit_charge, caller_deadline).0;
        let bare = model.admitted(payload_bytes, credit_charge, None).0;
        let place = model.requests.len() as int;
        total_after_push(model.requests, charge_weight(), bare.requests[place]);
        assert(balanced(bare));
        if caller_deadline is Some {
            balance_follows(bare, next, place);
        }
    }
}

proof fn progress_balances(model: GenerationModel, key: RequestKey, event: RequestProgress)
    requires
        balanced(model),
    ensures
        balanced(model.progressed(key, event).0),
{
    if model.tracks(key) {
        balance_follows(model, model.progressed(key, event).0, model.position(key));
    }
}

proof fn failure_balances(model: GenerationModel, key: RequestKey)
    requires
        balanced(model),
    ensures
        balanced(model.preparation_failed(key).0),
{
    let i = model.position(key);
    if model.tracks(key) && !model.requests[i].lifecycle.send.is_committed() {
        let lifecycle = model.requests[i].lifecycle.published(
            TerminalOutcome::PreparationFailed,
        ).0;
        let reduced = model.with_lifecycle(i, lifecycle);
        balance_follows(model, reduced, i);
        wind_down_balances(reduced, i, arbitrary());
    }
}

proof fn cancellation_balances(model: GenerationModel, key: RequestKey, now: MonotonicTime)
    requires
        balanced(model),
    ensures
        balanced(model.cancelled(key, now).0),
{
    if model.tracks(key) {
        let i = model.position(key);
        let request = model.requests[i];
        let seen = model.with_request(i, OwnedRequest { cancel_seen: true, ..request });
        balance_follows(model, seen, i);
        if !request.cancel_seen && request.lifecycle.caller == CallerOutcome::Open {
            let reduced = seen.with_lifecycle(
                i,
                request.lifecycle.reduced(RequestEvent::Cancel).0,
            );
            balance_follows(seen, reduced, i);
            wind_down_balances(reduced, i, now);
        }
    }
}

proof fn hint_balances(model: GenerationModel, key: RequestKey)
    requires
        balanced(model),
    ensures
        balanced(model.hinted(key).0),
{
    if model.tracks(key) {
        let i = model.position(key);
        let reduced = model.with_lifecycle(
            i,
            model.requests[i].lifecycle.published(TerminalOutcome::SessionInvalidated).0,
        );
        release_is_local(reduced, i);
        balance_follows(model, model.hinted(key).0, i);
    }
}

proof fn answer_balances(
    model: GenerationModel,
    key: RequestKey,
    event: ResponseEvent,
    credit_grant: u16,
)
    requires
        model.wf(),
        balanced(model),
        model.tracks(key),
        model.request(key).credit_obligation || model.request(key).credit_response_seen,
        model.total_credits + credit_grant <= u32::MAX,
    ensures
        balanced(model.responded(key, event, credit_grant).0),
{
    let i = model.position(key);
    let request = model.requests[i];
    let next = model.answered(i, event, credit_grant).0;
    settling_is_local(model, i, credit_grant);
    let settled = model.credits_settled(i, credit_grant);
    total_after_update(model.requests, charge_weight(), i, request);
    assert(settled.available_credits + credit_grant <= u32::MAX);
    let granted = GenerationModel {
        available_credits: (settled.available_credits + credit_grant) as u32,
        ..settled
    };
    balance_follows(model, granted, i);
    let answered = granted.requests[i];
    match event {
        ResponseEvent::Pending { async_id } => {
            balance_follows(granted, next, i);
        },
        ResponseEvent::Final => {
            let lifecycle = answered.lifecycle.reduced(RequestEvent::FinalResponse { key }).0;
            let exhausted = answered.deadline_version == u64::MAX;
            let closed_model = GenerationModel {
                unhealthy: granted.unhealthy || exhausted,
                ..granted.with_request(
                    i,
                    OwnedRequest {
                        lifecycle,
                        credit_obligation: false,
                        deadline_version: if exhausted {
                            answered.deadline_version
                        } else {
                            (answered.deadline_version + 1) as u64
                        },
                        ..answered
                    },
                )
            };
            release_is_local(closed_model, i);
            balance_follows(granted, next, i);
        },
    }
}

/// A request that a generation knows it never forgets.
pub proof fn requests_are_never_forgotten(
    before: GenerationModel,
    after: GenerationModel,
    key: RequestKey,
)
    requires
        evolves(before, after),
        before.tracks(key),
    ensures
        after.tracks(key),
{
    let i = before.position(key);
    assert(request_evolves(before.requests[i], after.requests[i]));
    assert(after.requests[i].lifecycle.key == key);
}

/// One change after another is a change.
pub proof fn evolution_is_transitive(a: GenerationModel, b: GenerationModel, c: GenerationModel)
    requires
        evolves(a, b),
        evolves(b, c),
    ensures
        evolves(a, c),
{
    assert forall|i: int| 0 <= i < a.requests.len() implies request_evolves(
        #[trigger] a.requests[i],
        c.requests[i],
    ) by {
        assert(request_evolves(a.requests[i], b.requests[i]));
        assert(request_evolves(b.requests[i], c.requests[i]));
    }
}

} // verus!
