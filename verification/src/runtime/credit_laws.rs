//! Where the credits of a connection generation go over its whole life.

use crate::clock::{Duration, MonotonicTime};
use crate::runtime::deadline::{outstanding, DeadlineKind};
use crate::runtime::generation_laws::{
    event_settles, evolves, firing_settles, lived, release_is_local, request_evolves,
    settling_is_local, wind_down_is_local,
};
use crate::runtime::generation_model::{
    firing_keeps_wf, firing_takes_work_away, position_is_unique, saturated_sub, GenerationModel,
};
use crate::runtime::reducer::{
    CallerOutcome, GenerationId, RequestEvent, RequestKey, ResponseProgress, TerminalOutcome,
};
use crate::runtime::state::{
    AdmissionLimits, OwnedRequest, OwnerEffect, OwnerEvent, PreparationPlan, ResponseEvent,
};
use vstd::prelude::*;

verus! {

/// The credits that `effects` say were charged to admitted requests.
pub open spec fn charged(effects: Seq<OwnerEffect>) -> int
    decreases effects.len(),
{
    if effects.len() == 0 {
        0
    } else {
        charged(effects.drop_last()) + match effects.last() {
            OwnerEffect::Admitted(plan) => plan.credit_charge as int,
            _ => 0,
        }
    }
}

/// The credits that `effects` say were given back by rolling reservations
/// back, where `charge` says what each request was charged.
pub open spec fn returned(effects: Seq<OwnerEffect>, charge: spec_fn(RequestKey) -> int) -> int
    decreases effects.len(),
{
    if effects.len() == 0 {
        0
    } else {
        returned(effects.drop_last(), charge) + match effects.last() {
            OwnerEffect::ReservationRolledBack(key) => charge(key),
            _ => 0,
        }
    }
}

/// The credits that `effects` say were granted.
pub open spec fn granted(effects: Seq<OwnerEffect>) -> int
    decreases effects.len(),
{
    if effects.len() == 0 {
        0
    } else {
        granted(effects.drop_last()) + match effects.last() {
            OwnerEffect::CreditGrantApplied { grant, .. } => grant as int,
            _ => 0,
        }
    }
}

/// How often `effects` roll back the reservation of `key`.
pub open spec fn rolled(effects: Seq<OwnerEffect>, key: RequestKey) -> nat
    decreases effects.len(),
{
    if effects.len() == 0 {
        0
    } else {
        rolled(effects.drop_last(), key) + if effects.last() == OwnerEffect::ReservationRolledBack(
            key,
        ) {
            1nat
        } else {
            0nat
        }
    }
}

/// All effects of a history, in order.
pub open spec fn effects_in_life(model: GenerationModel, events: Seq<OwnerEvent>) -> Seq<
    OwnerEffect,
>
    decreases events.len(),
{
    if events.len() == 0 {
        Seq::empty()
    } else {
        effects_in_life(model, events.drop_last()) + lived(model, events.drop_last()).step(
            events.last(),
        ).1
    }
}

/// What each request of a generation was charged.
pub open spec fn charges(model: GenerationModel) -> spec_fn(RequestKey) -> int {
    |key: RequestKey|
        if model.tracks(key) {
            model.request(key).credit_charge as int
        } else {
            0
        }
}

spec fn net(effects: Seq<OwnerEffect>, charge: spec_fn(RequestKey) -> int) -> int {
    granted(effects) + returned(effects, charge) - charged(effects)
}

/// Whether `charge` says of each request what it was charged.
spec fn priced(model: GenerationModel, charge: spec_fn(RequestKey) -> int) -> bool {
    forall|i: int|
        0 <= i < model.requests.len() ==> charge((#[trigger] model.requests[i]).lifecycle.key)
            == model.requests[i].credit_charge
}

/// Whoever holds an operation slot holds its charge too.
spec fn holding(model: GenerationModel) -> bool {
    forall|i: int|
        0 <= i < model.requests.len() ==> ((#[trigger] model.requests[i]).admission_held
            ==> model.requests[i].credit_obligation)
}

/// How often a change of state allows the reservation of `key` to be rolled
/// back.
spec fn rollable(before: GenerationModel, after: GenerationModel, key: RequestKey) -> nat {
    if before.tracks(key) && before.request(key).credit_obligation && !after.request(
        key,
    ).credit_obligation {
        1
    } else {
        0
    }
}

/// What a step does to the ledger, and which reservations it rolls back.
spec fn accounted(
    before: GenerationModel,
    effects: Seq<OwnerEffect>,
    after: GenerationModel,
    charge: spec_fn(RequestKey) -> int,
) -> bool {
    &&& after.available_credits == before.available_credits + net(effects, charge)
    &&& holding(after)
    &&& forall|key: RequestKey| #[trigger] rolled(effects, key) <= rollable(before, after, key)
}

spec fn moves_nothing(effect: OwnerEffect) -> bool {
    !(effect is Admitted) && !(effect is ReservationRolledBack) && !(effect is CreditGrantApplied)
}

proof fn net_of_none(effects: Seq<OwnerEffect>, charge: spec_fn(RequestKey) -> int)
    requires
        forall|i: int| 0 <= i < effects.len() ==> moves_nothing(#[trigger] effects[i]),
    ensures
        net(effects, charge) == 0,
        forall|key: RequestKey| #[trigger] rolled(effects, key) == 0,
    decreases effects.len(),
{
    if effects.len() > 0 {
        net_of_none(effects.drop_last(), charge);
        assert(moves_nothing(effects[effects.len() - 1]));
        assert forall|key: RequestKey| #[trigger] rolled(effects, key) == 0 by {
            assert(rolled(effects.drop_last(), key) == 0);
        }
    }
}

proof fn net_concat(
    a: Seq<OwnerEffect>,
    b: Seq<OwnerEffect>,
    charge: spec_fn(RequestKey) -> int,
)
    ensures
        charged(a + b) == charged(a) + charged(b),
        returned(a + b, charge) == returned(a, charge) + returned(b, charge),
        granted(a + b) == granted(a) + granted(b),
        forall|key: RequestKey| #[trigger] rolled(a + b, key) == rolled(a, key) + rolled(b, key),
    decreases b.len(),
{
    if b.len() == 0 {
        assert(a + b =~= a);
    } else {
        assert((a + b).drop_last() =~= a + b.drop_last());
        net_concat(a, b.drop_last(), charge);
        assert forall|key: RequestKey| #[trigger] rolled(a + b, key) == rolled(a, key) + rolled(
            b,
            key,
        ) by {
            assert(rolled(a + b.drop_last(), key) == rolled(a, key) + rolled(b.drop_last(), key));
        }
    }
}

proof fn net_of_one(effect: OwnerEffect, charge: spec_fn(RequestKey) -> int)
    ensures
        net(seq![effect], charge) == match effect {
            OwnerEffect::Admitted(plan) => -plan.credit_charge as int,
            OwnerEffect::ReservationRolledBack(key) => charge(key),
            OwnerEffect::CreditGrantApplied { grant, .. } => grant as int,
            _ => 0,
        },
        forall|key: RequestKey| #[trigger]
            rolled(seq![effect], key) == if effect == OwnerEffect::ReservationRolledBack(key) {
                1nat
            } else {
                0nat
            },
{
    let effects = seq![effect];
    let none = Seq::<OwnerEffect>::empty();
    assert(effects.drop_last() =~= none);
    assert(charged(none) == 0 && returned(none, charge) == 0 && granted(none) == 0);
    assert forall|key: RequestKey| #[trigger] rolled(seq![effect], key) == if effect
        == OwnerEffect::ReservationRolledBack(key) {
        1nat
    } else {
        0nat
    } by {
        assert(rolled(none, key) == 0);
        assert(seq![effect].drop_last() =~= none);
    }
}

/// A step that moves no credit, and lets nobody take back a slot.
proof fn quiet(
    before: GenerationModel,
    effects: Seq<OwnerEffect>,
    after: GenerationModel,
    charge: spec_fn(RequestKey) -> int,
)
    requires
        after.available_credits == before.available_credits,
        holding(after),
        forall|i: int| 0 <= i < effects.len() ==> moves_nothing(#[trigger] effects[i]),
    ensures
        accounted(before, effects, after, charge),
{
    net_of_none(effects, charge);
}

proof fn holding_follows(before: GenerationModel, after: GenerationModel, i: int)
    requires
        holding(before),
        0 <= i < before.requests.len(),
        after.requests =~= before.requests.update(i, after.requests[i]),
        after.requests[i].admission_held ==> after.requests[i].credit_obligation,
    ensures
        holding(after),
{
    assert forall|j: int|
        0 <= j < after.requests.len() && (
        #[trigger] after.requests[j]).admission_held implies after.requests[j].credit_obligation by {
        if j != i {
            assert(after.requests[j] == before.requests[j]);
        }
    }
}

/// One step behind another.
proof fn accounted_in_turn(
    a: GenerationModel,
    first: Seq<OwnerEffect>,
    b: GenerationModel,
    second: Seq<OwnerEffect>,
    c: GenerationModel,
    charge: spec_fn(RequestKey) -> int,
)
    requires
        a.wf(),
        b.wf(),
        c.wf(),
        evolves(a, b),
        evolves(b, c),
        a.requests.len() == b.requests.len(),
        accounted(a, first, b, charge),
        accounted(b, second, c, charge),
    ensures
        accounted(a, first + second, c, charge),
{
    net_concat(first, second, charge);
    assert forall|key: RequestKey| #[trigger] rolled(first + second, key) <= rollable(a, c, key) by {
        assert(rolled(first + second, key) == rolled(first, key) + rolled(second, key));
        assert(rolled(first, key) <= rollable(a, b, key));
        assert(rolled(second, key) <= rollable(b, c, key));
        if a.tracks(key) {
            let i = a.position(key);
            assert(request_evolves(a.requests[i], b.requests[i]));
            assert(request_evolves(b.requests[i], c.requests[i]));
            position_is_unique(b, key, i);
            position_is_unique(c, key, i);
        } else if b.tracks(key) {
            let i = b.position(key);
            assert(request_evolves(a.requests[i], b.requests[i]));
            assert(a.requests[i].lifecycle.key == key);
        }
    }
}

/// Winding a request down, or rolling it back.
proof fn wind_down_accounts(
    before: GenerationModel,
    model: GenerationModel,
    i: int,
    now: MonotonicTime,
    committed: bool,
    charge: spec_fn(RequestKey) -> int,
)
    requires
        before.wf(),
        holding(model),
        0 <= i < model.requests.len(),
        before.requests.len() == model.requests.len(),
        before.requests[i].lifecycle.key == model.requests[i].lifecycle.key,
        before.requests[i].credit_obligation == model.requests[i].credit_obligation,
        before.available_credits == model.available_credits,
        charge(model.requests[i].lifecycle.key) == model.requests[i].credit_charge,
        model.wound_down(i, now, committed).0.wf(),
    ensures
        accounted(
            before,
            model.wound_down(i, now, committed).1,
            model.wound_down(i, now, committed).0,
            charge,
        ),
{
    let request = model.requests[i];
    let key = request.lifecycle.key;
    let (next, effects) = model.wound_down(i, now, committed);
    wind_down_is_local(model, i, now, committed);
    release_is_local(model, i);
    position_is_unique(before, key, i);
    position_is_unique(next, key, i);
    if committed {
        holding_follows(model, next, i);
        quiet(before, effects, next, charge);
    } else {
        if request.credit_obligation {
            let back = GenerationModel {
                available_credits: (model.available_credits + request.credit_charge) as u32,
                pending_extra_credits: saturated_sub(
                    model.pending_extra_credits,
                    request.requested_extra_credits,
                ),
                ..model.with_request(i, OwnedRequest { credit_obligation: false, ..request })
            };
            release_is_local(back, i);
        }
        holding_follows(model, next, i);
        if model.rolled_back(i).1 {
            assert(effects =~= seq![OwnerEffect::ReservationRolledBack(key)]);
            net_of_one(OwnerEffect::ReservationRolledBack(key), charge);
        } else {
            quiet(before, effects, next, charge);
        }
    }
}

/// Effects that move nothing may come first.
proof fn led_by(
    before: GenerationModel,
    first: Seq<OwnerEffect>,
    effects: Seq<OwnerEffect>,
    after: GenerationModel,
    charge: spec_fn(RequestKey) -> int,
)
    requires
        accounted(before, effects, after, charge),
        forall|i: int| 0 <= i < first.len() ==> moves_nothing(#[trigger] first[i]),
    ensures
        accounted(before, first + effects, after, charge),
{
    net_of_none(first, charge);
    net_concat(first, effects, charge);
    assert forall|key: RequestKey| #[trigger]
        rolled(first + effects, key) <= rollable(before, after, key) by {
        assert(rolled(first, key) == 0);
        assert(rolled(effects, key) <= rollable(before, after, key));
    }
}

proof fn earlier_prices(
    before: GenerationModel,
    after: GenerationModel,
    charge: spec_fn(RequestKey) -> int,
)
    requires
        evolves(before, after),
        priced(after, charge),
    ensures
        priced(before, charge),
{
    assert forall|i: int| 0 <= i < before.requests.len() implies charge(
        (#[trigger] before.requests[i]).lifecycle.key,
    ) == before.requests[i].credit_charge by {
        assert(request_evolves(before.requests[i], after.requests[i]));
    }
}

proof fn firing_accounts(
    model: GenerationModel,
    now: MonotonicTime,
    charge: spec_fn(RequestKey) -> int,
)
    requires
        model.wf(),
        holding(model),
        priced(model, charge),
        model.deadlines.len() > 0,
    ensures
        accounted(model, model.fired(now).1, model.fired(now).0, charge),
{
    let entry = model.deadlines[0];
    let popped = GenerationModel { deadlines: model.deadlines.drop_first(), ..model };
    let (next, effects) = model.fired(now);
    let i = model.position(entry.key);
    let request = model.requests[i];
    firing_keeps_wf(model, now);
    if model.tracks(entry.key) && request.deadline_version == entry.version && entry.kind
        == DeadlineKind::Caller && request.lifecycle.caller == CallerOutcome::Open {
        let (lifecycle, effect) = request.lifecycle.reduced(RequestEvent::Deadline);
        let reduced = popped.with_lifecycle(i, lifecycle);
        let committed = request.lifecycle.send.is_committed();
        holding_follows(model, reduced, i);
        wind_down_accounts(model, reduced, i, now, committed, charge);
        led_by(
            model,
            seq![OwnerEffect::Request { key: entry.key, effect }],
            reduced.wound_down(i, now, committed).1,
            next,
            charge,
        );
    } else {
        quiet(model, effects, next, charge);
    }
}

proof fn time_accounts(
    model: GenerationModel,
    now: MonotonicTime,
    charge: spec_fn(RequestKey) -> int,
)
    requires
        model.wf(),
        holding(model),
        priced(model, charge),
    ensures
        accounted(model, model.advanced(now).1, model.advanced(now).0, charge),
        model.advanced(now).0.wf(),
        evolves(model, model.advanced(now).0),
        model.advanced(now).0.requests.len() == model.requests.len(),
    decreases outstanding(model.deadlines),
{
    event_settles(model, OwnerEvent::AdvanceTime { now });
    if model.due(now) {
        let (next, effects) = model.fired(now);
        firing_takes_work_away(model, now);
        firing_keeps_wf(model, now);
        firing_settles(model, now);
        firing_accounts(model, now, charge);
        firing_keeps_the_count(model, now);
        assert forall|i: int| 0 <= i < next.requests.len() implies charge(
            (#[trigger] next.requests[i]).lifecycle.key,
        ) == next.requests[i].credit_charge by {
            assert(request_evolves(model.requests[i], next.requests[i]));
        }
        time_accounts(next, now, charge);
        let (last, further) = next.advanced(now);
        accounted_in_turn(model, effects, next, further, last, charge);
    } else {
        quiet(model, seq![], model, charge);
    }
}

proof fn firing_keeps_the_count(model: GenerationModel, now: MonotonicTime)
    requires
        model.deadlines.len() > 0,
    ensures
        model.fired(now).0.requests.len() == model.requests.len(),
{
    let entry = model.deadlines[0];
    let popped = GenerationModel { deadlines: model.deadlines.drop_first(), ..model };
    let i = model.position(entry.key);
    let request = model.requests[i];
    if model.tracks(entry.key) && request.deadline_version == entry.version && entry.kind
        == DeadlineKind::Caller && request.lifecycle.caller == CallerOutcome::Open {
        let reduced = popped.with_lifecycle(
            i,
            request.lifecycle.reduced(RequestEvent::Deadline).0,
        );
        wind_down_is_local(reduced, i, now, request.lifecycle.send.is_committed());
    }
}

proof fn disconnect_accounts(model: GenerationModel, i: int, charge: spec_fn(RequestKey) -> int)
    requires
        holding(model),
        0 <= i <= model.requests.len(),
    ensures
        model.disconnected(i).0.available_credits == model.available_credits,
        holding(model.disconnected(i).0),
        forall|j: int|
            0 <= j < model.disconnected(i).1.len() ==> moves_nothing(
                #[trigger] model.disconnected(i).1[j],
            ),
    decreases model.requests.len() - i,
{
    if i < model.requests.len() {
        let (lifecycle, effect) = model.requests[i].lifecycle.reduced(RequestEvent::Disconnect);
        let reduced = model.with_lifecycle(i, lifecycle);
        release_is_local(reduced, i);
        let next = reduced.ownership_released(i);
        assert(next.requests =~= model.requests.update(i, next.requests[i]));
        holding_follows(model, next, i);
        disconnect_accounts(next, i + 1, charge);
    }
}

proof fn answer_accounts(
    model: GenerationModel,
    key: RequestKey,
    event: ResponseEvent,
    credit_grant: u16,
    charge: spec_fn(RequestKey) -> int,
)
    requires
        model.wf(),
        holding(model),
        model.tracks(key),
    ensures
        accounted(
            model,
            model.answered(model.position(key), event, credit_grant).1,
            model.answered(model.position(key), event, credit_grant).0,
            charge,
        ),
{
    let i = model.position(key);
    let (next, effects) = model.answered(i, event, credit_grant);
    settling_is_local(model, i, credit_grant);
    let settled = model.credits_settled(i, credit_grant);
    holding_follows(model, settled, i);
    if settled.available_credits + credit_grant > u32::MAX {
        holding_follows(settled, next, i);
        quiet(model, effects, next, charge);
    } else {
        let available = (settled.available_credits + credit_grant) as u32;
        let paid = GenerationModel { available_credits: available, ..settled };
        let request = paid.requests[i];
        let (last, further) = paid.answer_recorded(i, event);
        match event {
            ResponseEvent::Pending { .. } => {
                holding_follows(settled, last, i);
            },
            ResponseEvent::Final => {
                let lifecycle = request.lifecycle.reduced(RequestEvent::FinalResponse { key }).0;
                let exhausted = request.deadline_version == u64::MAX;
                let ended = GenerationModel {
                    unhealthy: paid.unhealthy || exhausted,
                    ..paid.with_request(
                        i,
                        OwnedRequest {
                            lifecycle,
                            credit_obligation: false,
                            deadline_version: if exhausted {
                                request.deadline_version
                            } else {
                                (request.deadline_version + 1) as u64
                            },
                            ..request
                        },
                    )
                };
                release_is_local(ended, i);
                assert(last == ended.ownership_released(i));
                assert(last.requests =~= settled.requests.update(i, last.requests[i]));
                holding_follows(settled, last, i);
            },
        }
        let grant = OwnerEffect::CreditGrantApplied { key, grant: credit_grant, available };
        net_of_one(grant, charge);
        net_of_none(further, charge);
        net_concat(seq![grant], further, charge);
        assert(effects == seq![grant] + further);
        assert forall|k: RequestKey| #[trigger] rolled(effects, k) <= rollable(model, next, k) by {
            assert(rolled(seq![grant] + further, k) == rolled(seq![grant], k) + rolled(further, k));
            assert(rolled(seq![grant], k) == 0);
            assert(rolled(further, k) == 0);
        }
    }
}

proof fn admission_accounts(
    model: GenerationModel,
    payload_bytes: u64,
    credit_charge: u16,
    caller_deadline: Option<MonotonicTime>,
    charge: spec_fn(RequestKey) -> int,
)
    requires
        holding(model),
    ensures
        accounted(
            model,
            seq![model.admitted(payload_bytes, credit_charge, caller_deadline).1],
            model.admitted(payload_bytes, credit_charge, caller_deadline).0,
            charge,
        ),
{
    let (next, effect) = model.admitted(payload_bytes, credit_charge, caller_deadline);
    net_of_one(effect, charge);
    if model.refusal(payload_bytes, credit_charge) is None {
        let place = model.requests.len() as int;
        assert forall|j: int|
            0 <= j < next.requests.len() && (
            #[trigger] next.requests[j]).admission_held implies next.requests[j].credit_obligation by {
            if j < place {
                assert(next.requests[j] == model.requests[j]);
            }
        }
    }
}

proof fn cancellation_accounts(
    model: GenerationModel,
    key: RequestKey,
    now: MonotonicTime,
    charge: spec_fn(RequestKey) -> int,
)
    requires
        model.wf(),
        holding(model),
        priced(model, charge),
        model.cancelled(key, now).0.wf(),
    ensures
        accounted(model, model.cancelled(key, now).1, model.cancelled(key, now).0, charge),
{
    let (next, effects) = model.cancelled(key, now);
    if model.tracks(key) {
        let i = model.position(key);
        let request = model.requests[i];
        let seen = model.with_request(i, OwnedRequest { cancel_seen: true, ..request });
        holding_follows(model, seen, i);
        if request.cancel_seen || request.lifecycle.caller != CallerOutcome::Open {
            quiet(model, effects, next, charge);
        } else {
            let (lifecycle, effect) = request.lifecycle.reduced(RequestEvent::Cancel);
            let reduced = seen.with_lifecycle(i, lifecycle);
            let committed = request.lifecycle.send.is_committed();
            holding_follows(seen, reduced, i);
            wind_down_accounts(model, reduced, i, now, committed, charge);
            led_by(
                model,
                seq![
                    OwnerEffect::CancelControlQueued(key),
                    OwnerEffect::Request { key, effect },
                ],
                reduced.wound_down(i, now, committed).1,
                next,
                charge,
            );
        }
    } else {
        quiet(model, effects, next, charge);
    }
}

proof fn failure_accounts(
    model: GenerationModel,
    key: RequestKey,
    charge: spec_fn(RequestKey) -> int,
)
    requires
        model.wf(),
        holding(model),
        priced(model, charge),
        model.preparation_failed(key).0.wf(),
    ensures
        accounted(model, model.preparation_failed(key).1, model.preparation_failed(key).0, charge),
{
    let (next, effects) = model.preparation_failed(key);
    let i = model.position(key);
    if model.tracks(key) && !model.requests[i].lifecycle.send.is_committed() {
        let (lifecycle, effect) = model.requests[i].lifecycle.published(
            TerminalOutcome::PreparationFailed,
        );
        let reduced = model.with_lifecycle(i, lifecycle);
        holding_follows(model, reduced, i);
        wind_down_accounts(model, reduced, i, arbitrary(), false, charge);
        let further = reduced.wound_down(i, arbitrary(), false).1;
        let first = seq![OwnerEffect::Request { key, effect }];
        led_by(model, first, further, next, charge);
        assert(first + further =~= effects);
    } else {
        quiet(model, effects, next, charge);
    }
}

proof fn event_accounts(
    model: GenerationModel,
    event: OwnerEvent,
    charge: spec_fn(RequestKey) -> int,
)
    requires
        model.wf(),
        holding(model),
        priced(model, charge),
    ensures
        accounted(model, model.step(event).1, model.step(event).0, charge),
{
    event_settles(model, event);
    let (next, effects) = model.step(event);
    match event {
        OwnerEvent::Admit { payload_bytes, credit_charge, caller_deadline } => {
            admission_accounts(model, payload_bytes, credit_charge, caller_deadline, charge);
        },
        OwnerEvent::Request { key, .. } => {
            if model.tracks(key) {
                holding_follows(model, next, model.position(key));
            }
            quiet(model, effects, next, charge);
        },
        OwnerEvent::PrepareFailed { key } => {
            failure_accounts(model, key, charge);
        },
        OwnerEvent::Cancel { key, now } => {
            cancellation_accounts(model, key, now, charge);
        },
        OwnerEvent::Response { key, event, credit_grant } => {
            let i = model.position(key);
            let holder = match event {
                ResponseEvent::Pending { async_id } => model.async_holder(async_id),
                ResponseEvent::Final => None,
            };
            let progress = model.requests[i].lifecycle.response;
            if key.generation == model.generation && !(holder is Some && holder != Some(key))
                && model.tracks(key) && progress != ResponseProgress::Final && !(event is Pending
                && progress is AsyncPending && progress->async_id != event->async_id) {
                answer_accounts(model, key, event, credit_grant, charge);
            } else {
                quiet(model, effects, next, charge);
            }
        },
        OwnerEvent::RecoveryHint { key } => {
            if model.tracks(key) {
                let i = model.position(key);
                let lifecycle = model.requests[i].lifecycle.published(
                    TerminalOutcome::SessionInvalidated,
                ).0;
                let reduced = model.with_lifecycle(i, lifecycle);
                release_is_local(reduced, i);
                assert(next.requests =~= model.requests.update(i, next.requests[i]));
                holding_follows(model, next, i);
            }
            quiet(model, effects, next, charge);
        },
        OwnerEvent::AdvanceTime { now } => {
            time_accounts(model, now, charge);
        },
        OwnerEvent::Disconnect => {
            disconnect_accounts(model, 0, charge);
            quiet(model, effects, next, charge);
        },
    }
}

proof fn life_accounts(
    model: GenerationModel,
    events: Seq<OwnerEvent>,
    charge: spec_fn(RequestKey) -> int,
)
    requires
        model.wf(),
        model.requests.len() == 0,
        priced(lived(model, events), charge),
    ensures
        lived(model, events).wf(),
        holding(lived(model, events)),
        lived(model, events).available_credits == model.available_credits + net(
            effects_in_life(model, events),
            charge,
        ),
        forall|key: RequestKey|
            #![trigger rolled(effects_in_life(model, events), key)]
            rolled(effects_in_life(model, events), key) <= 1 && (rolled(
                effects_in_life(model, events),
                key,
            ) == 1 ==> lived(model, events).tracks(key) && !lived(model, events).request(
                key,
            ).credit_obligation),
    decreases events.len(),
{
    if events.len() == 0 {
        net_of_none(effects_in_life(model, events), charge);
        assert forall|key: RequestKey| #[trigger]
            rolled(effects_in_life(model, events), key) == 0 by {}
    } else {
        let earlier = events.drop_last();
        let before = lived(model, earlier);
        let (after, effects) = before.step(events.last());
        let past = effects_in_life(model, earlier);
        lives_are_sound(model, earlier);
        event_settles(before, events.last());
        earlier_prices(before, after, charge);
        life_accounts(model, earlier, charge);
        event_accounts(before, events.last(), charge);
        net_concat(past, effects, charge);
        assert forall|key: RequestKey|
            #![trigger rolled(effects_in_life(model, events), key)]
            rolled(effects_in_life(model, events), key) <= 1 && (rolled(
                effects_in_life(model, events),
                key,
            ) == 1 ==> after.tracks(key) && !after.request(key).credit_obligation) by {
            assert(rolled(past + effects, key) == rolled(past, key) + rolled(effects, key));
            assert(rolled(past, key) <= 1);
            assert(rolled(effects, key) <= rollable(before, after, key));
            if before.tracks(key) {
                let i = before.position(key);
                assert(request_evolves(before.requests[i], after.requests[i]));
                position_is_unique(after, key, i);
            }
        }
    }
}

proof fn lives_are_sound(model: GenerationModel, events: Seq<OwnerEvent>)
    requires
        model.wf(),
    ensures
        lived(model, events).wf(),
    decreases events.len(),
{
    if events.len() > 0 {
        lives_are_sound(model, events.drop_last());
        event_settles(lived(model, events.drop_last()), events.last());
    }
}

/// Over any history of a generation, the credits that are available are those
/// it began with, less the charges of the requests that were admitted, and with
/// the charges that were rolled back and the grants that were applied. A
/// reservation is rolled back at most once.
pub proof fn credits_follow_the_effects(
    generation: GenerationId,
    initial_message_id: u64,
    initial_credits: u32,
    target_credits: u32,
    limits: AdmissionLimits,
    tombstone_drain_timeout: Duration,
    events: Seq<OwnerEvent>,
)
    ensures
        ({
            let model = GenerationModel::initial(
                generation,
                initial_message_id,
                initial_credits,
                target_credits,
                limits,
                tombstone_drain_timeout,
            );
            let effects = effects_in_life(model, events);
            let after = lived(model, events);
            &&& after.available_credits == initial_credits - charged(effects) + returned(
                effects,
                charges(after),
            ) + granted(effects)
            &&& forall|key: RequestKey|
                #![trigger rolled(effects, key)]
                rolled(effects, key) <= 1 && (rolled(effects, key) == 1 ==> after.tracks(key))
        }),
{
    let model = GenerationModel::initial(
        generation,
        initial_message_id,
        initial_credits,
        target_credits,
        limits,
        tombstone_drain_timeout,
    );
    let after = lived(model, events);
    lives_are_sound(model, events);
    assert forall|i: int| 0 <= i < after.requests.len() implies charges(after)(
        (#[trigger] after.requests[i]).lifecycle.key,
    ) == after.requests[i].credit_charge by {
        position_is_unique(after, after.requests[i].lifecycle.key, i);
    }
    life_accounts(model, events, charges(after));
}

/// What a request was charged is what its admission said.
pub proof fn charges_are_those_admitted(
    model: GenerationModel,
    events: Seq<OwnerEvent>,
    plan: PreparationPlan,
)
    requires
        model.wf(),
        effects_in_life(model, events).contains(OwnerEffect::Admitted(plan)),
    ensures
        lived(model, events).tracks(plan.key),
        charges(lived(model, events))(plan.key) == plan.credit_charge,
    decreases events.len(),
{
    let earlier = events.drop_last();
    let before = lived(model, earlier);
    let past = effects_in_life(model, earlier);
    let effect = OwnerEffect::Admitted(plan);
    let (after, effects) = before.step(events.last());
    lives_are_sound(model, earlier);
    event_settles(before, events.last());
    let at = choose|at: int| 0 <= at < (past + effects).len() && (past + effects)[at] == effect;
    if at < past.len() {
        assert(past.contains(past[at]));
        charges_are_those_admitted(model, earlier, plan);
        let i = before.position(plan.key);
        assert(request_evolves(before.requests[i], after.requests[i]));
        position_is_unique(after, plan.key, i);
    } else {
        assert(effects[at - past.len()] == effect);
        only_admissions_admit(before, events.last(), at - past.len());
        let place = before.requests.len() as int;
        assert(after.requests[place].lifecycle.key == plan.key);
        position_is_unique(after, plan.key, place);
    }
}

proof fn only_admissions_admit(model: GenerationModel, event: OwnerEvent, at: int)
    requires
        0 <= at < model.step(event).1.len(),
        model.step(event).1[at] is Admitted,
    ensures
        event is Admit,
{
    match event {
        OwnerEvent::AdvanceTime { now } => {
            time_admits_nothing(model, now, at);
        },
        OwnerEvent::Disconnect => {
            disconnects_admit_nothing(model, 0, at);
        },
        _ => {},
    }
}

proof fn time_admits_nothing(model: GenerationModel, now: MonotonicTime, at: int)
    requires
        0 <= at < model.advanced(now).1.len(),
    ensures
        !(model.advanced(now).1[at] is Admitted),
    decreases outstanding(model.deadlines),
{
    if model.due(now) {
        let (next, effects) = model.fired(now);
        firing_takes_work_away(model, now);
        if at >= effects.len() {
            time_admits_nothing(next, now, at - effects.len());
        }
    }
}

proof fn disconnects_admit_nothing(model: GenerationModel, i: int, at: int)
    requires
        0 <= i <= model.requests.len(),
        0 <= at < model.disconnected(i).1.len(),
    ensures
        !(model.disconnected(i).1[at] is Admitted),
    decreases model.requests.len() - i,
{
    if i < model.requests.len() && at > 0 {
        let lifecycle = model.requests[i].lifecycle.reduced(RequestEvent::Disconnect).0;
        let reduced = model.with_lifecycle(i, lifecycle);
        release_is_local(reduced, i);
        disconnects_admit_nothing(reduced.ownership_released(i), i + 1, at - 1);
    }
}

} // verus!
