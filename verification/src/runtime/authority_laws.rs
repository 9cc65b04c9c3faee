//! What holds of the owner over several of its decisions.

use crate::clock::MonotonicTime;
use crate::runtime::authority_model::{
    admitted_in_turn, entered, failed_all, keys_of, stepped, AuthorityModel, MessageDecision,
    PreparedVerdict,
};
use crate::runtime::engine::state_evolves_to_itself;
use crate::runtime::error::{RuntimeError, WireFault};
use crate::runtime::generation_laws::{
    admitted_ids_are_new, disconnect_settles_everyone, evolution_is_transitive, evolves,
    every_event_keeps_the_invariants, history_is_never_rewritten, requests_are_never_forgotten,
};
use crate::runtime::generation_model::{
    holdings_are_counted, open_caller_weight, position_is_unique, total, GenerationModel,
};
use crate::runtime::object_state::{generation_loss_is_final, ObjectToken};
use crate::runtime::operation::TypedOperation;
use crate::runtime::pending::{distinct, known, place, OperationPending};
use crate::runtime::reducer::{CallerOutcome, RequestKey};
use crate::runtime::state::{OwnerEvent, PreparationPlan};
use vstd::prelude::*;

verus! {

/// The credits that several plans were charged.
pub open spec fn charges(plans: Seq<PreparationPlan>) -> nat
    decreases plans.len(),
{
    if plans.len() == 0 {
        0
    } else {
        charges(plans.drop_last()) + plans.last().credit_charge as nat
    }
}

/// The payload bytes that several plans retain.
pub open spec fn payloads(plans: Seq<PreparationPlan>) -> nat
    decreases plans.len(),
{
    if plans.len() == 0 {
        0
    } else {
        payloads(plans.drop_last()) + plans.last().payload_bytes as nat
    }
}

/// Whether a request still holds all that its plan reserved.
pub open spec fn untouched(state: GenerationModel, plan: PreparationPlan) -> bool {
    &&& state.tracks(plan.key)
    &&& {
        let request = state.request(plan.key);
        &&& request.lifecycle.caller == CallerOutcome::Open
        &&& !request.lifecycle.send.is_committed()
        &&& request.credit_obligation
        &&& request.admission_held
        &&& request.payload_held
        &&& request.credit_charge == plan.credit_charge
        &&& request.payload_bytes == plan.payload_bytes
    }
}

/// The state after several requests were admitted and nothing else happened.
pub open spec fn reserved_for(
    before: GenerationModel,
    after: GenerationModel,
    plans: Seq<PreparationPlan>,
) -> bool {
    &&& after.wf()
    &&& evolves(before, after)
    &&& forall|i: int| 0 <= i < plans.len() ==> !before.tracks((#[trigger] plans[i]).key)
    &&& after.available_credits + charges(plans) == before.available_credits
    &&& after.admitted_operations == before.admitted_operations + plans.len()
    &&& after.retained_payload_bytes == before.retained_payload_bytes + payloads(plans)
    &&& forall|i: int| 0 <= i < plans.len() ==> untouched(after, #[trigger] plans[i])
    &&& forall|i: int, j: int|
        0 <= i < j < plans.len() ==> (#[trigger] plans[i]).key != (#[trigger] plans[j]).key
}

proof fn one_more_reserved(
    before: GenerationModel,
    middle: GenerationModel,
    plans: Seq<PreparationPlan>,
    payload_bytes: u64,
    credit_charge: u16,
    deadline: Option<MonotonicTime>,
)
    requires
        reserved_for(before, middle, plans),
        middle.admitted(payload_bytes, credit_charge, deadline).1 is Admitted,
    ensures
        ({
            let (after, effect) = middle.admitted(payload_bytes, credit_charge, deadline);
            reserved_for(before, after, plans.push(effect->Admitted_0))
        }),
{
    let (after, effect) = middle.admitted(payload_bytes, credit_charge, deadline);
    let plan = effect->Admitted_0;
    let event = OwnerEvent::Admit { payload_bytes, credit_charge, caller_deadline: deadline };
    every_event_keeps_the_invariants(middle, event);
    history_is_never_rewritten(middle, event);
    evolution_is_transitive(before, middle, after);
    admitted_ids_are_new(middle, payload_bytes, credit_charge, deadline);
    if before.tracks(plan.key) {
        requests_are_never_forgotten(before, middle, plan.key);
    }
    let place = middle.requests.len() as int;
    assert(after.requests[place].lifecycle.key == plan.key);
    position_is_unique(after, plan.key, place);
    let all = plans.push(plan);
    assert(all.drop_last() =~= plans);
    assert forall|i: int| 0 <= i < all.len() implies untouched(after, #[trigger] all[i]) by {
        if i < plans.len() {
            assert(untouched(middle, plans[i]));
            let p = middle.position(plans[i].key);
            assert(after.requests[p] == middle.requests[p]);
            position_is_unique(after, plans[i].key, p);
        }
    }
    assert forall|i: int, j: int| 0 <= i < j < all.len() implies (#[trigger] all[i]).key != (
    #[trigger] all[j]).key by {
        if j == plans.len() {
            assert(untouched(middle, plans[i]));
            let p = middle.position(plans[i].key);
            assert(middle.request_ok(middle.requests[p]));
        }
    }
}

proof fn admission_reserves(
    state: GenerationModel,
    operations: Seq<TypedOperation>,
    large_mtu: bool,
    deadline: Option<MonotonicTime>,
)
    requires
        state.wf(),
    ensures
        ({
            let (after, result) = admitted_in_turn(state, operations, large_mtu, deadline);
            reserved_for(
                state,
                after,
                match result {
                    Ok(plans) => plans,
                    Err((plans, _)) => plans,
                },
            ) && (result matches Ok(plans) ==> plans.len() == operations.len())
        }),
    decreases operations.len(),
{
    state_evolves_to_itself(state);
    if operations.len() > 0 {
        admission_reserves(state, operations.drop_last(), large_mtu, deadline);
        let (middle, earlier) = admitted_in_turn(state, operations.drop_last(), large_mtu, deadline);
        if earlier is Ok {
            reveal(stepped);
            let last = operations.last();
            let charge = last.charge(large_mtu)->Ok_0;
            let (after, effect) = middle.admitted(last.spec_payload_bytes(), charge, deadline);
            if effect is Admitted {
                one_more_reserved(
                    state,
                    middle,
                    earlier->Ok_0,
                    last.spec_payload_bytes(),
                    charge,
                    deadline,
                );
            }
        }
    }
}

/// The state after the first `n` of several reservations were taken back.
spec fn taken_back(
    reserved: GenerationModel,
    after: GenerationModel,
    plans: Seq<PreparationPlan>,
    n: int,
) -> bool {
    &&& after.wf()
    &&& after.available_credits == reserved.available_credits + charges(plans.take(n))
    &&& after.admitted_operations + n == reserved.admitted_operations
    &&& after.retained_payload_bytes + payloads(plans.take(n)) == reserved.retained_payload_bytes
    &&& forall|i: int| n <= i < plans.len() ==> untouched(after, #[trigger] plans[i])
}

proof fn charges_grow(plans: Seq<PreparationPlan>, n: int)
    requires
        0 <= n <= plans.len(),
    ensures
        charges(plans.take(n)) <= charges(plans),
    decreases plans.len() - n,
{
    if n < plans.len() {
        assert(plans.take(n + 1).drop_last() =~= plans.take(n));
        charges_grow(plans, n + 1);
    } else {
        assert(plans.take(n) =~= plans);
    }
}

proof fn failure_takes_back(
    before: GenerationModel,
    reserved: GenerationModel,
    plans: Seq<PreparationPlan>,
    n: int,
)
    requires
        reserved_for(before, reserved, plans),
        0 <= n <= plans.len(),
    ensures
        taken_back(reserved, failed_all(reserved, keys_of(plans).take(n)), plans, n),
    decreases n,
{
    let keys = keys_of(plans);
    if n > 0 {
        failure_takes_back(before, reserved, plans, n - 1);
        assert(keys.take(n).drop_last() =~= keys.take(n - 1));
        assert(plans.take(n).drop_last() =~= plans.take(n - 1));
        let earlier = failed_all(reserved, keys.take(n - 1));
        let plan = plans[n - 1];
        let after = failed_all(reserved, keys.take(n));
        reveal(stepped);
        assert(after == earlier.preparation_failed(plan.key).0);
        every_event_keeps_the_invariants(earlier, OwnerEvent::PrepareFailed { key: plan.key });
        charges_grow(plans, n);
        assert(untouched(earlier, plan));
        let p = earlier.position(plan.key);
        holdings_are_counted(earlier, p);
        assert(after.requests =~= earlier.requests.update(p, after.requests[p]));
        assert forall|i: int| n <= i < plans.len() implies untouched(
            after,
            #[trigger] plans[i],
        ) by {
            assert(untouched(earlier, plans[i]));
            let q = earlier.position(plans[i].key);
            assert(plans[n - 1].key != plans[i].key);
            assert(after.requests[q] == earlier.requests[q]);
            position_is_unique(after, plans[i].key, q);
        }
    } else {
        assert(plans.take(0) =~= Seq::empty());
        assert(keys.take(0) =~= Seq::empty());
    }
}

/// A compound that is refused leaves the budgets as they were: no credit, no
/// operation slot and no payload byte stays reserved, and no operation is
/// entered in the table.
pub proof fn refused_compound_returns_everything(
    authority: AuthorityModel,
    operations: Seq<TypedOperation>,
    deadline: Option<MonotonicTime>,
)
    requires
        authority.wf(),
        authority.compound_admitted(operations, deadline).1 is Refused,
    ensures
        ({
            let next = authority.compound_admitted(operations, deadline).0;
            &&& next.state.available_credits == authority.state.available_credits
            &&& next.state.admitted_operations == authority.state.admitted_operations
            &&& next.state.retained_payload_bytes == authority.state.retained_payload_bytes
            &&& next.operations == authority.operations
            &&& next.frames == authority.frames
        }),
{
    admission_reserves(authority.state, operations, authority.large_mtu, deadline);
    match admitted_in_turn(authority.state, operations, authority.large_mtu, deadline) {
        (reserved, Err((plans, error))) => {
            failure_takes_back(authority.state, reserved, plans, plans.len() as int);
            assert(keys_of(plans).take(plans.len() as int) =~= keys_of(plans));
            assert(plans.take(plans.len() as int) =~= plans);
        },
        _ => {},
    }
}

/// An admitted compound is charged as a whole: what it costs leaves the
/// available credits, and each of its operations holds one slot.
pub proof fn admitted_compound_is_charged(
    authority: AuthorityModel,
    operations: Seq<TypedOperation>,
    deadline: Option<MonotonicTime>,
)
    requires
        authority.wf(),
        authority.compound_admitted(operations, deadline).1 is Admitted,
    ensures
        ({
            let (next, verdict) = authority.compound_admitted(operations, deadline);
            let plans = verdict->Admitted_0;
            &&& next.state.available_credits + charges(plans) == authority.state.available_credits
            &&& next.state.admitted_operations == authority.state.admitted_operations + plans.len()
            &&& next.state.retained_payload_bytes == authority.state.retained_payload_bytes
                + payloads(plans)
        }),
{
    admission_reserves(authority.state, operations, authority.large_mtu, deadline);
}

/// Forgetting the operations at the end of the table, in order, leaves those
/// before them.
proof fn entries_are_forgotten(
    authority: AuthorityModel,
    entries: Seq<OperationPending>,
    keys: Seq<RequestKey>,
    n: int,
)
    requires
        0 <= n <= keys.len() == entries.len(),
        distinct(authority.operations + entries),
        forall|i: int| 0 <= i < keys.len() ==> (#[trigger] entries[i]).key == keys[i],
    ensures
        (AuthorityModel { operations: authority.operations + entries, ..authority })
            .without_operations(keys.take(n)) == (AuthorityModel {
            operations: authority.operations + entries.skip(n),
            ..authority
        }),
    decreases n,
{
    let all = AuthorityModel { operations: authority.operations + entries, ..authority };
    if n == 0 {
        assert(keys.take(0) =~= Seq::empty());
        assert(entries.skip(0) =~= entries);
    } else {
        entries_are_forgotten(authority, entries, keys, n - 1);
        assert(keys.take(n).drop_last() =~= keys.take(n - 1));
        let held = authority.operations + entries.skip(n - 1);
        let at = authority.operations.len() as int;
        let key = keys[n - 1];
        assert(entries[n - 1].key == key);
        assert(held[at] == entries[n - 1]);
        assert(known(held, key));
        let p = place(held, key);
        assert(0 <= p < held.len() && held[p].key == key);
        let q = if p < at {
            p
        } else {
            p + n - 1
        };
        assert(all.operations[q] == held[p]);
        assert(all.operations[at + n - 1] == entries[n - 1]);
        if q < at + n - 1 {
            assert(all.operations[q].key != all.operations[at + n - 1].key);
        } else if q > at + n - 1 {
            assert(all.operations[at + n - 1].key != all.operations[q].key);
        }
        assert(held.remove(at) =~= authority.operations + entries.skip(n));
    }
}

/// A compound whose frame cannot be prepared gives back all that its admission
/// took: the budgets, the table and the frames are as before it, whoever
/// submitted it is told why, and nobody else is told anything.
pub proof fn unprepared_compound_returns_everything(
    authority: AuthorityModel,
    operations: Seq<TypedOperation>,
    deadline: Option<MonotonicTime>,
)
    requires
        authority.wf(),
        authority.compound_admitted(operations, deadline).1 is Admitted,
    ensures
        ({
            let (admitted, verdict) = authority.compound_admitted(operations, deadline);
            let (next, result, outcomes) = admitted.compound_prepared(
                keys_of(verdict->Admitted_0),
                false,
            );
            &&& next.state.available_credits == authority.state.available_credits
            &&& next.state.admitted_operations == authority.state.admitted_operations
            &&& next.state.retained_payload_bytes == authority.state.retained_payload_bytes
            &&& next == (AuthorityModel { state: next.state, ..authority })
            &&& result == Err::<Seq<Option<MessageDecision>>, RuntimeError>(
                RuntimeError::Wire(WireFault::PrepareCompound),
            )
            &&& outcomes.len() == 0
        }),
{
    admission_reserves(authority.state, operations, authority.large_mtu, deadline);
    let (admitted, verdict) = authority.compound_admitted(operations, deadline);
    let plans = verdict->Admitted_0;
    let keys = keys_of(plans);
    let n = plans.len() as int;
    failure_takes_back(authority.state, admitted.state, plans, n);
    assert(keys.take(n) =~= keys);
    assert(plans.take(n) =~= plans);
    let entries = Seq::new(operations.len(), |i: int| entered(plans[i].key, operations[i], false));
    let table = authority.operations + entries;
    assert(admitted.operations == table);
    assert forall|i: int, j: int| 0 <= i < j < table.len() implies (#[trigger] table[i]).key != (
    #[trigger] table[j]).key by {
        let at = authority.operations.len() as int;
        if i >= at {
            assert(plans[i - at].key != plans[j - at].key);
        } else if j >= at {
            assert(authority.state.tracks(authority.operations[i].key));
            assert(!authority.state.tracks(plans[j - at].key));
        } else {
            assert(authority.operations[i].key != authority.operations[j].key);
        }
    }
    let holding = AuthorityModel { state: admitted.state, ..authority };
    entries_are_forgotten(holding, entries, keys, n);
    assert(entries.skip(n) =~= Seq::empty());
    assert(authority.operations + Seq::empty() =~= authority.operations);
}

/// When a generation ends nobody is left waiting: every caller was told an
/// outcome, nothing is held any more, and no token of the generation is
/// accepted.
pub proof fn shutdown_leaves_nobody_waiting(authority: AuthorityModel, token: ObjectToken)
    requires
        authority.wf(),
    ensures
        ({
            let next = authority.shut_down().0;
            &&& total(next.state.requests, open_caller_weight()) == 0
            &&& next.state.admitted_operations == 0
            &&& next.state.retained_payload_bytes == 0
            &&& next.objects.validated(token) is Err
        }),
{
    reveal(stepped);
    disconnect_settles_everyone(authority.state);
    generation_loss_is_final(authority.objects, token);
}

/// The raw bytes of a request are kept where there are any and its caller
/// asked for them, and nowhere else.
pub proof fn raw_requests_are_kept_on_demand(
    authority: AuthorityModel,
    key: RequestKey,
    prepared: Option<bool>,
)
    ensures
        authority.operation_prepared(key, prepared).1 matches PreparedVerdict::Queued {
            request_raw,
            ..
        } ==> known(authority.operations, key) && request_raw == (prepared == Some(true)
            && authority.operations[place(authority.operations, key)].wants_raw),
{
}

} // verus!
