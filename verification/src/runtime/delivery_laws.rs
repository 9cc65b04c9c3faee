//! What callers get: how an outcome finds the operation it belongs to, how
//! answers are taken, and what a frame in the queue means to its requests.

use crate::clock::MonotonicTime;
use crate::runtime::authority_model::{
    admitted_in_turn, failed_all, progressed_all, stepped, total_charge, AdmissionVerdict,
    AuthorityModel, CompoundVerdict, DeliveriesModel, MessageDecision, PreparedVerdict,
};
use crate::runtime::early_responses::{held, held_at, one_each, ResponseFacts};
use crate::runtime::error::{RuntimeError, TransportFault, WireFault};
use crate::runtime::frames::{first_place, waits, FrameModel, FramesModel};
use crate::runtime::generation_model::GenerationModel;
use crate::runtime::operation::{OperationContractError, TypedOperation};
use crate::runtime::pending::{
    asked, distinct, drained, effects_applied, ended, known, outcomes_applied, place, told_outcome,
    wire_cancels_applied, AwaitDecision, Delivery, OperationOutcome, OperationPending,
};
use crate::runtime::reducer::{CallerOutcome, ReduceEffect, RequestKey, TerminalOutcome};
use crate::runtime::state::{
    AdmissionError, OwnerEffect, OwnerEvent, RequestProgress, ResponseEvent,
};
use crate::runtime::waiters::{outcomes_delivered, TerminalDelivery};
use vstd::prelude::*;

verus! {

/// The failure that an operation is told.
pub open spec fn failure(outcome: TerminalOutcome) -> OperationOutcome {
    OperationOutcome::Failed(RuntimeError::Terminal(outcome))
}

/// Where a key stands in a table that holds each key once.
proof fn place_is_unique(entries: Seq<OperationPending>, key: RequestKey, i: int)
    requires
        distinct(entries),
        0 <= i < entries.len(),
        entries[i].key == key,
    ensures
        known(entries, key),
        place(entries, key) == i,
{
    let p = place(entries, key);
    assert(0 <= p < entries.len() && entries[p].key == key);
    if p < i {
        assert(entries[p].key != entries[i].key);
    } else if i < p {
        assert(entries[i].key != entries[p].key);
    }
}

/// An operation that ends leaves the table with its outcome where somebody
/// waits for it; else the outcome is kept for whoever asks. A response
/// carries the raw bytes of the request where they were retained. Nothing
/// happens to any other operation.
pub proof fn ended_operations_reach_their_waiter(
    entries: Seq<OperationPending>,
    i: int,
    outcome: OperationOutcome,
)
    requires
        distinct(entries),
        0 <= i < entries.len(),
    ensures
        ({
            let entry = entries[i];
            let (next, delivery) = ended(entries, entry.key, outcome);
            let told = match outcome {
                OperationOutcome::Response { request_raw } => OperationOutcome::Response {
                    request_raw: request_raw || entry.request_raw,
                },
                OperationOutcome::Failed(error) => OperationOutcome::Failed(error),
            };
            &&& entry.waiter ==> next == entries.remove(i) && delivery == Some(
                Delivery { key: entry.key, outcome: told },
            )
            &&& !entry.waiter ==> {
                &&& delivery is None
                &&& next.len() == entries.len()
                &&& next[i] == (OperationPending {
                    buffered: Some(told),
                    request_raw: entry.request_raw && !(outcome == (OperationOutcome::Response {
                        request_raw: false,
                    })),
                    ..entry
                })
                &&& forall|j: int| 0 <= j < entries.len() && j != i ==> next[j] == entries[j]
            }
        }),
{
    place_is_unique(entries, entries[i].key, i);
}

/// An operation that is not in the table is told nothing.
pub proof fn strangers_are_told_nothing(
    entries: Seq<OperationPending>,
    key: RequestKey,
    outcome: OperationOutcome,
    terminal: TerminalOutcome,
)
    requires
        forall|i: int| 0 <= i < entries.len() ==> (#[trigger] entries[i]).key != key,
    ensures
        ended(entries, key, outcome) == (entries, None::<Delivery>),
        told_outcome(entries, key, terminal) == (entries, None::<Delivery>),
        drained(entries, key) == entries,
        asked(entries, key) == (
            entries,
            AwaitDecision::Refused(RuntimeError::UnknownRequest(key)),
        ),
{
}

/// A caller that is told another outcome than a response is told that very
/// outcome. An operation that drains stays in the table for its answer, and
/// any other leaves it with its waiter.
pub proof fn outcomes_reach_their_waiter(
    entries: Seq<OperationPending>,
    i: int,
    outcome: TerminalOutcome,
)
    requires
        distinct(entries),
        0 <= i < entries.len(),
    ensures
        ({
            let entry = entries[i];
            let (next, delivery) = told_outcome(entries, entry.key, outcome);
            &&& entry.waiter ==> delivery == Some(
                Delivery { key: entry.key, outcome: failure(outcome) },
            )
            &&& !entry.waiter ==> delivery is None && next[i].buffered == Some(failure(outcome))
            &&& entry.draining || !entry.waiter ==> next.len() == entries.len() && next[i].key
                == entry.key && next[i].draining == entry.draining
            &&& entry.draining && entry.waiter ==> next == entries.update(
                i,
                OperationPending { waiter: false, caller_completed: true, ..entry },
            )
            &&& entry.draining && !entry.waiter ==> next == entries.update(
                i,
                OperationPending { buffered: Some(failure(outcome)), ..entry },
            )
            &&& entry.waiter && !entry.draining ==> next == entries.remove(i)
            &&& !entry.waiter && !entry.draining ==> next == ended(
                entries,
                entry.key,
                failure(outcome),
            ).0
        }),
{
    place_is_unique(entries, entries[i].key, i);
}

/// A request that is cancelled on the wire drains, and its raw bytes are let
/// go.
pub proof fn cancelled_requests_drain(entries: Seq<OperationPending>, i: int)
    requires
        distinct(entries),
        0 <= i < entries.len(),
    ensures
        ({
            let next = drained(entries, entries[i].key);
            &&& next.len() == entries.len()
            &&& next[i] == (OperationPending { draining: true, request_raw: false, ..entries[i] })
            &&& forall|j: int| 0 <= j < entries.len() && j != i ==> next[j] == entries[j]
        }),
{
    place_is_unique(entries, entries[i].key, i);
}

/// The effects of an event are applied one by one: first every cancellation
/// on the wire makes its operation drain, and then every outcome but a
/// response, which comes with its message, is told to its caller.
pub proof fn effects_are_applied_one_by_one(
    entries: Seq<OperationPending>,
    effects: Seq<OwnerEffect>,
    effect: OwnerEffect,
)
    ensures
        wire_cancels_applied(entries, Seq::empty()) == entries,
        wire_cancels_applied(entries, effects.push(effect)) == (match effect {
            OwnerEffect::BestEffortWireCancel(key) => drained(
                wire_cancels_applied(entries, effects),
                key,
            ),
            _ => wire_cancels_applied(entries, effects),
        }),
        outcomes_applied(entries, Seq::empty()) == (entries, Seq::<Delivery>::empty()),
        ({
            let (earlier, deliveries) = outcomes_applied(entries, effects);
            let (next, told) = outcomes_applied(entries, effects.push(effect));
            match effect {
                OwnerEffect::Request { key, effect: ReduceEffect::Publish(outcome) } => {
                    &&& outcome is Response ==> next == earlier && told == deliveries
                    &&& !(outcome is Response) ==> {
                        let (after, delivery) = told_outcome(earlier, key, outcome);
                        &&& next == after
                        &&& delivery is None ==> told == deliveries
                        &&& delivery matches Some(delivery) ==> told == deliveries.push(delivery)
                    }
                },
                _ => next == earlier && told == deliveries,
            }
        }),
        effects_applied(entries, effects) == outcomes_applied(
            wire_cancels_applied(entries, effects),
            effects,
        ),
{
    assert(effects.push(effect).drop_last() =~= effects);
}

/// Whoever asks for a result gets it where it is kept, waits for it where
/// nobody else does, and is refused where somebody waits or was told already.
pub proof fn results_are_handed_out_once(entries: Seq<OperationPending>, i: int)
    requires
        distinct(entries),
        0 <= i < entries.len(),
    ensures
        ({
            let entry = entries[i];
            let (next, decision) = asked(entries, entry.key);
            let taken = entry.waiter || entry.caller_completed;
            &&& entry.buffered matches Some(outcome) ==> {
                &&& decision == AwaitDecision::Ready(outcome)
                &&& !entry.draining ==> next == entries.remove(i)
                &&& entry.draining ==> next == entries.update(
                    i,
                    OperationPending { buffered: None, caller_completed: true, ..entry },
                )
            }
            &&& entry.buffered is None && !taken ==> decision is Parked && next == entries.update(
                i,
                OperationPending { waiter: true, ..entry },
            )
            &&& entry.buffered is None && taken ==> decision == AwaitDecision::Refused(
                RuntimeError::AlreadyAwaited(entry.key),
            ) && next == entries
        }),
{
    place_is_unique(entries, entries[i].key, i);
}

/// A published outcome goes to the caller of its frame, where one waits, and
/// that caller waits no longer; nobody else is told by it.
pub proof fn frames_tell_their_callers(
    keys: Seq<RequestKey>,
    effects: Seq<OwnerEffect>,
    effect: OwnerEffect,
)
    ensures
        outcomes_delivered(keys, Seq::empty()) == (keys, Seq::<TerminalDelivery>::empty()),
        ({
            let (waiting, told) = outcomes_delivered(keys, effects);
            let (next, deliveries) = outcomes_delivered(keys, effects.push(effect));
            match effect {
                OwnerEffect::Request { key, effect: ReduceEffect::Publish(outcome) } =>
                if waiting.contains(key) {
                    &&& deliveries == told.push(TerminalDelivery { key, outcome })
                    &&& next.len() == waiting.len() - 1
                    &&& next == waiting.remove(waiting.index_of(key))
                } else {
                    next == waiting && deliveries == told
                },
                _ => next == waiting && deliveries == told,
            }
        }),
{
    assert(effects.push(effect).drop_last() =~= effects);
}

/// A frame that its caller sealed itself is admitted as any request: where it
/// is, it is queued behind the others and its caller waits for its outcome;
/// where it is not, the caller is told why and nothing changes.
pub proof fn sealed_frames_are_admitted(
    authority: AuthorityModel,
    payload_bytes: u64,
    credit_charge: u16,
    deadline: Option<MonotonicTime>,
)
    ensures
        ({
            let (next, result) = authority.submitted(payload_bytes, credit_charge, deadline);
            let (state, effect) = authority.state.admitted(payload_bytes, credit_charge, deadline);
            match effect {
                OwnerEffect::Admitted(plan) => {
                    &&& result == Ok::<RequestKey, RuntimeError>(plan.key)
                    &&& next.state == state
                    &&& next.terminals == authority.terminals.push(plan.key)
                    &&& next.frames.queue.len() == authority.frames.queue.len() + 1
                    &&& next.frames.queue.last().key == plan.key
                    &&& next.frames.queue.last().members == seq![plan.key]
                    &&& next.frames.queue.drop_last() == authority.frames.queue
                    &&& next.frames.active == authority.frames.active
                    &&& next.frames.deferred == authority.frames.deferred
                    &&& next == (AuthorityModel {
                        state: next.state,
                        terminals: next.terminals,
                        frames: next.frames,
                        ..authority
                    })
                },
                OwnerEffect::AdmissionRejected(error) => result == Err::<RequestKey, RuntimeError>(
                    RuntimeError::Admission(error),
                ) && next == authority,
                _ => true,
            }
        }),
{
    reveal(stepped);
    let (next, result) = authority.submitted(payload_bytes, credit_charge, deadline);
    if result is Ok {
        assert(next.frames.queue.drop_last() =~= authority.frames.queue);
    }
}

/// An operation is admitted where what it depends on is active, the table has
/// room and its credits are there; where only the credits are missing it
/// waits for them. Everything else is refused with its reason. An admitted
/// operation is in the table with what it asked for.
pub proof fn operations_are_admitted_when_they_can_be(
    authority: AuthorityModel,
    operation: TypedOperation,
    deadline: Option<MonotonicTime>,
    waiter: bool,
)
    ensures
        ({
            let (next, verdict) = authority.operation_admitted(operation, deadline, waiter);
            let unfit = operation.outgoing.dependency matches Some(dependency)
                && authority.objects.validated(dependency) is Err;
            let crowded = authority.operations.len() >= authority.state.limits.max_operations;
            let charge = operation.charge(authority.large_mtu);
            let broke = charge matches Ok(credits) && credits > authority.state.available_credits;
            &&& unfit ==> verdict == AdmissionVerdict::Refused(
                RuntimeError::Object(
                    authority.objects.validated(operation.outgoing.dependency->Some_0)->Err_0,
                ),
            )
            &&& !unfit && crowded ==> verdict == AdmissionVerdict::Refused(
                RuntimeError::Admission(AdmissionError::OperationsExhausted),
            )
            &&& !unfit && !crowded && charge is Err ==> verdict == AdmissionVerdict::Refused(
                RuntimeError::Wire(WireFault::CreditCharge),
            )
            &&& verdict is Waiting <==> !unfit && !crowded && broke
            &&& !(verdict is Admitted) ==> next == authority
            &&& !unfit && !crowded && charge is Ok && !broke ==> {
                let (state, effect) = authority.state.admitted(
                    operation.spec_payload_bytes(),
                    charge->Ok_0,
                    deadline,
                );
                &&& effect matches OwnerEffect::AdmissionRejected(error) ==> verdict
                    == AdmissionVerdict::Refused(RuntimeError::Admission(error))
                &&& effect matches OwnerEffect::Admitted(plan) ==> {
                    let entry = next.operations.last();
                    &&& verdict == AdmissionVerdict::Admitted(plan)
                    &&& next.state == state
                    &&& next.operations.len() == authority.operations.len() + 1
                    &&& next.operations.drop_last() == authority.operations
                    &&& next == (AuthorityModel {
                        state: next.state,
                        operations: next.operations,
                        ..authority
                    })
                    &&& entry.key == plan.key
                    &&& entry.waiter == waiter
                    &&& entry.response == operation.response
                    &&& entry.replay == operation.outgoing.replay
                    &&& entry.wants_raw == operation.outgoing.return_raw_data
                    &&& !entry.request_raw
                    &&& entry.buffered is None
                    &&& !entry.draining
                    &&& !entry.caller_completed
                }
            }
        }),
{
    reveal(stepped);
    let (next, verdict) = authority.operation_admitted(operation, deadline, waiter);
    if verdict is Admitted {
        assert(next.operations.drop_last() =~= authority.operations);
    }
}

/// An interim answer, which has to name its async id, keeps its operation
/// waiting; an answer that belongs to no operation is the end of the
/// connection.
pub proof fn interim_answers_are_recorded(authority: AuthorityModel, facts: ResponseFacts)
    ensures
        ({
            let (next, decision, told) = authority.responded(facts);
            let key = RequestKey {
                generation: authority.state.generation,
                message_id: facts.message_id,
            };
            let mine = exists|i: int|
                0 <= i < authority.operations.len() && (#[trigger] authority.operations[i]).key
                    == key;
            &&& !mine ==> decision == MessageDecision::Fault(
                RuntimeError::Wire(WireFault::ResponseWithoutOperation),
            ) && next.fatal == Some(RuntimeError::Wire(WireFault::ResponseWithoutOperation))
            &&& mine && facts.status is Pending && facts.async_id is None ==> decision
                == MessageDecision::Fault(RuntimeError::Wire(WireFault::PendingWithoutAsyncId))
                && next.fatal == Some(RuntimeError::Wire(WireFault::PendingWithoutAsyncId))
            &&& mine && facts.status is Pending ==> (facts.async_id matches Some(async_id) ==> {
                &&& decision is Interim
                &&& told.len() == 0
                &&& next == (AuthorityModel { state: next.state, ..authority })
                &&& next.state == authority.state.step(
                    OwnerEvent::Response {
                        key,
                        event: ResponseEvent::Pending { async_id },
                        credit_grant: facts.credit_grant,
                    },
                ).0
            })
        }),
{
    reveal(stepped);
}

/// An answer ends its operation unless it breaks the contract: it names
/// another command, or a status that was not asked for and that neither is an
/// error, nor says that the session is gone, nor answers an operation that
/// drains. A breach is the end of the connection.
pub proof fn final_answers_keep_the_contract(
    authority: AuthorityModel,
    facts: ResponseFacts,
    i: int,
)
    requires
        distinct(authority.operations),
        0 <= i < authority.operations.len(),
        authority.operations[i].key == (RequestKey {
            generation: authority.state.generation,
            message_id: facts.message_id,
        }),
        !(facts.status is Pending),
    ensures
        ({
            let entry = authority.operations[i];
            let (next, decision, told) = authority.responded(facts);
            let gone = facts.status is UserSessionDeleted || facts.status is NetworkSessionExpired;
            let kept = facts.command == entry.response.command && (gone || entry.draining
                || facts.is_error || entry.response.statuses.accepts(facts.status));
            let (state, effects) = authority.state.step(
                OwnerEvent::Response {
                    key: entry.key,
                    event: ResponseEvent::Final,
                    credit_grant: facts.credit_grant,
                },
            );
            let answered = effects.contains(
                OwnerEffect::Request {
                    key: entry.key,
                    effect: ReduceEffect::Publish(TerminalOutcome::Response),
                },
            );
            let response = OperationOutcome::Response { request_raw: entry.request_raw };
            &&& facts.recovery_hint && !gone ==> decision == MessageDecision::Fault(
                RuntimeError::Wire(WireFault::InvalidRecoveryHint),
            ) && next.fatal is Some
            &&& !facts.recovery_hint && !kept ==> decision == MessageDecision::Fault(
                RuntimeError::Wire(WireFault::OperationResponseContract),
            ) && next.fatal == Some(RuntimeError::Wire(WireFault::OperationResponseContract))
                && next.state == authority.state
            &&& !facts.recovery_hint && kept ==> next.state == state && told
                == outcomes_delivered(authority.terminals, effects).1 && next == (AuthorityModel {
                state,
                terminals: outcomes_delivered(authority.terminals, effects).0,
                operations: next.operations,
                ..authority
            })
            &&& !facts.recovery_hint && kept && answered && entry.waiter ==> decision
                == MessageDecision::Deliver(Delivery { key: entry.key, outcome: response })
                && next.operations == authority.operations.remove(i)
            &&& !facts.recovery_hint && kept && answered && !entry.waiter ==> decision is Keep
                && next.operations.len() == authority.operations.len()
                && next.operations[i].buffered == Some(response)
            &&& !facts.recovery_hint && kept && !answered ==> decision is Discard
                && next.operations == if entry.draining {
                authority.operations.remove(i)
            } else {
                authority.operations
            }
        }),
{
    reveal(stepped);
    place_is_unique(authority.operations, authority.operations[i].key, i);
}

/// A hint that the session is gone fails its operation with that, and its
/// waiter is told.
pub proof fn hints_fail_their_operation(authority: AuthorityModel, facts: ResponseFacts, i: int)
    requires
        distinct(authority.operations),
        0 <= i < authority.operations.len(),
        authority.operations[i].key == (RequestKey {
            generation: authority.state.generation,
            message_id: facts.message_id,
        }),
        facts.recovery_hint,
        facts.status is UserSessionDeleted || facts.status is NetworkSessionExpired,
    ensures
        ({
            let entry = authority.operations[i];
            let (next, decision, told) = authority.responded(facts);
            let lost = failure(TerminalOutcome::SessionInvalidated);
            &&& next.state == authority.state.step(OwnerEvent::RecoveryHint { key: entry.key }).0
            &&& entry.waiter ==> decision == MessageDecision::Failed(
                Some(Delivery { key: entry.key, outcome: lost }),
            ) && next.operations == authority.operations.remove(i)
            &&& !entry.waiter ==> decision == MessageDecision::Failed(None)
                && next.operations.len() == authority.operations.len()
                && next.operations[i].buffered == Some(lost)
        }),
{
    reveal(stepped);
    place_is_unique(authority.operations, authority.operations[i].key, i);
}

/// A message goes to its operation, to whoever listens for notifications, or
/// waits for its operation to be known. Where too many wait, or one came
/// twice, the connection ends.
pub proof fn messages_find_their_operation(authority: AuthorityModel, facts: ResponseFacts)
    ensures
        ({
            let (next, decision, told) = authority.message_taken(facts);
            let key = RequestKey {
                generation: authority.state.generation,
                message_id: facts.message_id,
            };
            let mine = exists|i: int|
                0 <= i < authority.operations.len() && (#[trigger] authority.operations[i]).key
                    == key;
            let unasked = facts.message_id == u64::MAX;
            let crowded = authority.early.len() >= authority.state.limits.max_operations;
            let twice = exists|i: int|
                0 <= i < authority.early.len() && (#[trigger] authority.early[i]).message_id
                    == facts.message_id;
            &&& mine ==> (next, decision, told) == authority.responded(facts)
            &&& !mine && unasked ==> next == authority && decision
                == if authority.notifications {
                MessageDecision::Notify
            } else {
                MessageDecision::Discard
            }
            &&& !mine && !unasked && (crowded || twice) ==> decision == MessageDecision::Fault(
                RuntimeError::Wire(WireFault::EarlyResponseOverflowOrDuplicate),
            ) && next.fatal is Some
            &&& !mine && !unasked && !crowded && !twice ==> decision is Hold && next
                == (AuthorityModel { early: authority.early.push(facts), ..authority })
            &&& !mine ==> told.len() == 0
        }),
{
}

/// An answer that came early is dealt with as soon as its operation is known,
/// and once.
pub proof fn early_answers_are_taken_once(authority: AuthorityModel, key: RequestKey, i: int)
    requires
        one_each(authority.early),
        0 <= i < authority.early.len(),
        authority.early[i].message_id == key.message_id,
    ensures
        ({
            let (next, decision, told) = authority.early_taken(key);
            let without = AuthorityModel { early: authority.early.remove(i), ..authority };
            let (after, taken, outcomes) = without.responded(authority.early[i]);
            next == after && decision == Some(taken) && told == outcomes
        }),
{
    let p = held_at(authority.early, key.message_id);
    assert(held(authority.early, key.message_id));
    assert(0 <= p < authority.early.len() && authority.early[p].message_id == key.message_id);
    if p < i {
        assert(authority.early[p].message_id != authority.early[i].message_id);
    } else if i < p {
        assert(authority.early[i].message_id != authority.early[p].message_id);
    }
}

/// An operation whose frame was prepared is queued behind the others, unless
/// its caller was told an outcome meanwhile: then it is refused with that
/// outcome. One whose frame could not be prepared is refused, and gives back
/// what it took.
pub proof fn prepared_operations_are_queued(
    authority: AuthorityModel,
    key: RequestKey,
    prepared: Option<bool>,
)
    requires
        authority.state.tracks(key),
        !(exists|i: int|
            0 <= i < authority.early.len() && (#[trigger] authority.early[i]).message_id
                == key.message_id),
    ensures
        ({
            let (next, verdict, told) = authority.operation_prepared(key, prepared);
            let caller = authority.state.request(key).lifecycle.caller;
            let entry = authority.operations[place(authority.operations, key)];
            &&& told.len() == 0
            &&& caller matches CallerOutcome::Terminal(outcome) ==> verdict
                == (PreparedVerdict::Refused {
                error: RuntimeError::Terminal(outcome),
                waiter: false,
            }) && next.state == authority.state && next.frames == authority.frames
            &&& caller is Open && prepared is None ==> verdict == (PreparedVerdict::Refused {
                error: RuntimeError::Wire(WireFault::PrepareOutgoing),
                waiter: known(authority.operations, key) && entry.waiter,
            }) && next.state == authority.state.step(OwnerEvent::PrepareFailed { key }).0
                && next.frames == authority.frames
            &&& caller is Open && prepared is Some && !known(authority.operations, key)
                ==> verdict is Refused && next.fatal is Some
            &&& caller is Open && prepared is Some && known(authority.operations, key) ==> {
                &&& verdict is Queued
                &&& next.frames.queue.len() == authority.frames.queue.len() + 1
                &&& next.frames.queue.drop_last() == authority.frames.queue
                &&& next.frames.queue.last().key == key
                &&& next.frames.queue.last().members == seq![key]
                &&& next.frames.active == authority.frames.active
                &&& next.operations == authority.operations.update(
                    place(authority.operations, key),
                    OperationPending {
                        request_raw: prepared->Some_0 && entry.wants_raw,
                        ..entry
                    },
                )
                &&& next == (AuthorityModel {
                    frames: next.frames,
                    operations: next.operations,
                    ..authority
                })
            }
        }),
{
    reveal(stepped);
    let (next, verdict, told) = authority.operation_prepared(key, prepared);
    assert(!held(authority.early, key.message_id));
    if verdict is Queued {
        assert(next.frames.queue.drop_last() =~= authority.frames.queue);
    }
}

/// An operation that is prepared but not known to the requests is refused as
/// timed out, and leaves the table.
pub proof fn unknown_operations_are_refused(
    authority: AuthorityModel,
    key: RequestKey,
    prepared: Option<bool>,
)
    requires
        !authority.state.tracks(key),
    ensures
        ({
            let (next, verdict, told) = authority.operation_prepared(key, prepared);
            &&& verdict == (PreparedVerdict::Refused {
                error: RuntimeError::Terminal(TerminalOutcome::TimedOut),
                waiter: false,
            })
            &&& next == authority.without_operation(key)
            &&& told.len() == 0
        }),
{
}

/// A compound is admitted as a whole: where each of its dependencies is
/// active, the table has room for all of it, and the credits for all of it
/// are there. It waits where only the credits are missing.
pub proof fn compounds_are_admitted_as_a_whole(
    authority: AuthorityModel,
    operations: Seq<TypedOperation>,
    deadline: Option<MonotonicTime>,
)
    ensures
        ({
            let (next, verdict) = authority.compound_admitted(operations, deadline);
            let unfit = exists|i: int| #[trigger]
                dependency_is_lost(authority, operations, i);
            let crowded = authority.operations.len() + operations.len()
                > authority.state.limits.max_operations;
            let price = total_charge(operations, authority.large_mtu);
            &&& operations.len() == 0 ==> verdict == CompoundVerdict::Refused(
                RuntimeError::Wire(WireFault::EmptyCompound),
            )
            &&& operations.len() > 0 && unfit ==> (verdict matches CompoundVerdict::Refused(
                RuntimeError::Object(_),
            ))
            &&& operations.len() > 0 && !unfit && crowded && authority.operations.len()
                + operations.len() <= usize::MAX ==> verdict == CompoundVerdict::Refused(
                RuntimeError::Admission(AdmissionError::OperationsExhausted),
            )
            &&& operations.len() > 0 && !unfit && !crowded && (price is None || price->Some_0
                > u32::MAX) ==> verdict == CompoundVerdict::Refused(
                RuntimeError::Wire(WireFault::CreditCharge),
            )
            &&& operations.len() > 0 && !unfit && !crowded && (price matches Some(credits)
                && credits <= u32::MAX && credits > authority.state.available_credits)
                ==> verdict is Waiting && next == authority
            &&& verdict is Waiting ==> price is Some && price->Some_0
                > authority.state.available_credits && next == authority
            &&& verdict is Admitted ==> operations.len() > 0 && !unfit && price is Some
                && price->Some_0 <= authority.state.available_credits
        }),
{
    lost_dependencies_are_found(authority, operations);
}

/// Whether an operation of a compound depends on an object that is not
/// active.
pub open spec fn dependency_is_lost(
    authority: AuthorityModel,
    operations: Seq<TypedOperation>,
    i: int,
) -> bool {
    0 <= i < operations.len() && (operations[i].outgoing.dependency matches Some(dependency)
        && authority.objects.validated(dependency) is Err)
}

proof fn lost_dependencies_are_found(authority: AuthorityModel, operations: Seq<TypedOperation>)
    ensures
        authority.first_refused(operations) is Some <==> exists|i: int| #[trigger]
            dependency_is_lost(authority, operations, i),
        authority.first_refused(operations) matches Some(error) ==> error is Object,
    decreases operations.len(),
{
    if operations.len() > 0 {
        let front = operations.drop_last();
        lost_dependencies_are_found(authority, front);
        if exists|i: int| #[trigger] dependency_is_lost(authority, front, i) {
            let i = choose|i: int| #[trigger] dependency_is_lost(authority, front, i);
            assert(dependency_is_lost(authority, operations, i));
        }
        if exists|i: int| #[trigger] dependency_is_lost(authority, operations, i) {
            let i = choose|i: int| #[trigger] dependency_is_lost(authority, operations, i);
            if i < front.len() {
                assert(dependency_is_lost(authority, front, i));
            }
        }
        let last = operations.len() - 1;
        if authority.first_refused(operations) is Some && authority.first_refused(front) is None {
            assert(dependency_is_lost(authority, operations, last));
        }
    }
}

/// The price of several operations is the sum of their prices, and there is
/// none where one has none.
pub proof fn prices_add_up(
    operations: Seq<TypedOperation>,
    operation: TypedOperation,
    large_mtu: bool,
)
    ensures
        total_charge(Seq::<TypedOperation>::empty(), large_mtu) == Some(0nat),
        match (total_charge(operations, large_mtu), operation.charge(large_mtu)) {
            (Some(price), Ok(credits)) => total_charge(operations.push(operation), large_mtu)
                == Some((price + credits) as nat),
            _ => total_charge(operations.push(operation), large_mtu) is None,
        },
{
    assert(operations.push(operation).drop_last() =~= operations);
}

/// A request whose frame waits is taken out of the queue and cancelled; so is
/// one that reached the wire or whose frame is not being written. Only where
/// its frame is being written and nothing of it is known to be sent is the
/// decision put off, until the writer says more.
pub proof fn cancellations_are_decided(
    authority: AuthorityModel,
    key: RequestKey,
    now: MonotonicTime,
)
    ensures
        ({
            let (next, deliveries) = authority.cancelled(key, now);
            let queued = exists|i: int|
                0 <= i < authority.frames.queue.len() && (#[trigger] authority.frames.queue[i]).key
                    == key;
            let writing = authority.frames.active matches Some(frame) && frame.key == key;
            let sent = authority.state.tracks(key) && (authority.state.request(
                key,
            ).lifecycle.send is Partial || authority.state.request(key).lifecycle.send is Complete);
            let (state, effects) = authority.state.step(OwnerEvent::Cancel { key, now });
            &&& queued || sent || !writing ==> {
                &&& next.state == state
                &&& deliveries.operations == effects_applied(authority.operations, effects).1
                &&& deliveries.terminals == outcomes_delivered(authority.terminals, effects).1
                &&& next.operations == effects_applied(authority.operations, effects).0
                &&& next.terminals == outcomes_delivered(authority.terminals, effects).0
                &&& next.frames.active == authority.frames.active
                &&& !queued ==> next.frames == authority.frames
                &&& queued ==> next.frames.queue == authority.frames.queue.remove(
                    first_place(authority.frames.queue, key),
                ) && next.frames.deferred == authority.frames.deferred
                &&& next == (AuthorityModel {
                    state: next.state,
                    operations: next.operations,
                    terminals: next.terminals,
                    frames: next.frames,
                    ..authority
                })
            }
            &&& !queued && !sent && writing ==> {
                &&& next == (AuthorityModel { frames: next.frames, ..authority })
                &&& deliveries.operations.len() == 0
                &&& deliveries.terminals.len() == 0
                &&& next.frames.queue == authority.frames.queue
                &&& next.frames.active == authority.frames.active
                &&& authority.frames.deferred is None ==> next.frames.deferred == Some(now)
                &&& authority.frames.deferred is Some ==> next.frames.deferred
                    == authority.frames.deferred
            }
        }),
{
    reveal(stepped);
    if waits(authority.frames.queue, key) {
        first_place_holds(authority.frames.queue, key);
    }
}

proof fn first_place_holds(queue: Seq<FrameModel>, key: RequestKey)
    requires
        waits(queue, key),
    ensures
        0 <= first_place(queue, key) < queue.len(),
        queue[first_place(queue, key)].key == key,
        forall|i: int| 0 <= i < first_place(queue, key) ==> (#[trigger] queue[i]).key != key,
    decreases queue.len(),
{
    if queue[0].key != key {
        let rest = queue.drop_first();
        let i = choose|i: int| 0 <= i < queue.len() && (#[trigger] queue[i]).key == key;
        assert(rest[i - 1].key == key);
        first_place_holds(rest, key);
        assert forall|j: int| 0 <= j < first_place(queue, key) implies (
        #[trigger] queue[j]).key != key by {
            if j > 0 {
                assert(rest[j - 1] == queue[j]);
            }
        }
    }
}

/// The frame that is withdrawn is the first one of its name; the others keep
/// their order.
pub proof fn withdrawn_frames_leave_the_queue(queue: Seq<FrameModel>, key: RequestKey, i: int)
    requires
        0 <= i < queue.len(),
        queue[i].key == key,
        forall|j: int| 0 <= j < i ==> (#[trigger] queue[j]).key != key,
    ensures
        waits(queue, key),
        first_place(queue, key) == i,
{
    assert(waits(queue, key));
    first_place_holds(queue, key);
    let p = first_place(queue, key);
    if p < i {
        assert(queue[p].key != key);
    } else if i < p {
        assert(queue[i].key != key);
    }
}

/// One frame is written at a time, and the first of the queue is next; its
/// requests are on their way from then on.
pub proof fn frames_are_written_in_turn(authority: AuthorityModel)
    ensures
        ({
            let (next, begun) = authority.dispatched();
            let idle = authority.frames.active is None && authority.frames.queue.len() > 0;
            &&& begun is Some <==> idle
            &&& !idle ==> next == authority
            &&& begun matches Some(key) ==> {
                let frame = authority.frames.queue[0];
                &&& key == frame.key
                &&& next.frames.active == Some(frame)
                &&& next.frames.queue == authority.frames.queue.drop_first()
                &&& next.frames.deferred is None
                &&& next.state == progressed_all(
                    authority.state,
                    frame.members,
                    RequestProgress::Queued,
                )
                &&& next == (AuthorityModel {
                    state: next.state,
                    frames: next.frames,
                    ..authority
                })
            }
        }),
{
}

/// Every request of a frame makes the same progress, one after the other.
pub proof fn members_progress_together(
    state: GenerationModel,
    members: Seq<RequestKey>,
    member: RequestKey,
    event: RequestProgress,
)
    ensures
        progressed_all(state, Seq::empty(), event) == state,
        progressed_all(state, members.push(member), event) == progressed_all(
            state,
            members,
            event,
        ).step(OwnerEvent::Request { key: member, event }).0,
        failed_all(state, Seq::empty()) == state,
        failed_all(state, members.push(member)) == failed_all(state, members).step(
            OwnerEvent::PrepareFailed { key: member },
        ).0,
{
    reveal(stepped);
    assert(members.push(member).drop_last() =~= members);
}

/// What was written is told to every request of the frame that is being
/// written. A cancellation that was put off is decided then: for a frame that
/// was begun it finds bytes on the wire.
pub proof fn writes_reach_their_requests(
    authority: AuthorityModel,
    key: RequestKey,
    bytes: usize,
)
    ensures
        ({
            let writing = authority.frames.active matches Some(frame) && frame.key == key;
            let members = if writing {
                authority.frames.active->Some_0.members
            } else {
                seq![key]
            };
            let put_off = writing && authority.frames.deferred is Some;
            let some = progressed_all(
                authority.state,
                members,
                RequestProgress::WriteProgress { bytes },
            );
            let all = progressed_all(authority.state, members, RequestProgress::WriteComplete);
            let (more, told) = authority.write_progressed(key, bytes);
            let (done, ended) = authority.write_completed(key);
            &&& !put_off ==> more.state == some && told.operations.len() == 0
                && told.terminals.len() == 0
            &&& !put_off ==> done.state == all && ended.operations.len() == 0
                && ended.terminals.len() == 0
            &&& put_off ==> more.state == some.step(
                OwnerEvent::Cancel { key, now: authority.frames.deferred->Some_0 },
            ).0
            &&& put_off ==> done.state == all.step(
                OwnerEvent::Cancel { key, now: authority.frames.deferred->Some_0 },
            ).0
            &&& more.frames.active == authority.frames.active
            &&& writing ==> more.frames.deferred is None
            &&& writing ==> done.frames.active is None && done.frames.deferred is None
            &&& !writing ==> done.frames == authority.frames && more.frames == authority.frames
            &&& more.frames.queue == authority.frames.queue
            &&& done.frames.queue == authority.frames.queue
        }),
{
    reveal(stepped);
}

/// A write that was given up before any byte of it cancels every request of
/// its frame, in their order, and frees the wire.
pub proof fn given_up_writes_cancel_their_requests(authority: AuthorityModel, key: RequestKey)
    ensures
        ({
            let writing = authority.frames.active matches Some(frame) && frame.key == key;
            let (next, deliveries) = authority.write_cancelled(key);
            let freed = AuthorityModel {
                frames: if writing {
                    FramesModel { active: None, deferred: None, ..authority.frames }
                } else {
                    authority.frames
                },
                ..authority
            };
            let members = if writing {
                authority.frames.active->Some_0.members
            } else {
                seq![key]
            };
            let now = if writing && authority.frames.deferred is Some {
                authority.frames.deferred->Some_0
            } else {
                MonotonicTime::origin()
            };
            (next, deliveries) == freed.cancelled_all(members, now)
        }),
{
}

/// Requests are cancelled one after the other, and each caller is told of its
/// own.
pub proof fn requests_are_cancelled_in_order(
    authority: AuthorityModel,
    keys: Seq<RequestKey>,
    key: RequestKey,
    now: MonotonicTime,
)
    ensures
        authority.cancelled_all(Seq::empty(), now) == (authority, DeliveriesModel::none()),
        ({
            let (earlier, told) = authority.cancelled_all(keys, now);
            let (next, deliveries) = authority.cancelled_all(keys.push(key), now);
            let (state, effects) = earlier.state.step(OwnerEvent::Cancel { key, now });
            &&& next.state == state
            &&& next.operations == effects_applied(earlier.operations, effects).0
            &&& next.terminals == outcomes_delivered(earlier.terminals, effects).0
            &&& deliveries.operations == told.operations + effects_applied(
                earlier.operations,
                effects,
            ).1
            &&& deliveries.terminals == told.terminals + outcomes_delivered(
                earlier.terminals,
                effects,
            ).1
        }),
{
    reveal(stepped);
    assert(keys.push(key).drop_last() =~= keys);
}

/// Time that passes is told to the requests, and what that brings to their
/// callers. A generation that is unhealthy then cannot go on.
pub proof fn time_reaches_the_requests(authority: AuthorityModel, now: MonotonicTime)
    ensures
        ({
            let (next, deliveries) = authority.time_advanced(now);
            let (state, effects) = authority.state.step(OwnerEvent::AdvanceTime { now });
            &&& next.state == state
            &&& next.operations == effects_applied(authority.operations, effects).0
            &&& next.terminals == outcomes_delivered(authority.terminals, effects).0
            &&& deliveries.operations == effects_applied(authority.operations, effects).1
            &&& deliveries.terminals == outcomes_delivered(authority.terminals, effects).1
            &&& state.unhealthy ==> next.fatal == Some(
                RuntimeError::Transport(TransportFault::GenerationUnhealthy),
            )
            &&& !state.unhealthy ==> next.fatal == authority.fatal
            &&& next == (AuthorityModel {
                state: next.state,
                operations: next.operations,
                terminals: next.terminals,
                fatal: next.fatal,
                ..authority
            })
        }),
{
    reveal(stepped);
}

/// A generation that ends tells everybody: the requests learn of the
/// disconnect, every object is revoked, and whoever is left is told why the
/// generation ended, or that it was closed.
pub proof fn endings_are_told(authority: AuthorityModel)
    ensures
        ({
            let (next, deliveries) = authority.shut_down();
            let (state, effects) = authority.state.step(OwnerEvent::Disconnect);
            &&& next.state == state
            &&& next.objects == authority.objects.lost().0
            &&& next.operations == effects_applied(authority.operations, effects).0
            &&& next.terminals == outcomes_delivered(authority.terminals, effects).0
            &&& next.fatal == authority.fatal
            &&& next.frames == authority.frames
            &&& deliveries.operations == effects_applied(authority.operations, effects).1
            &&& deliveries.terminals == outcomes_delivered(authority.terminals, effects).1
        }),
        authority.fatal matches Some(error) ==> authority.final_error() == error,
        authority.fatal is None ==> authority.final_error() == RuntimeError::Closed,
{
    reveal(stepped);
}

/// Whoever still waits when a generation has ended is told, and nobody else.
pub proof fn the_last_waiters_are_told(operations: Seq<OperationPending>, i: int)
    requires
        0 <= i < operations.len(),
    ensures
        operations[i].waiter ==> AuthorityModel::left_waiting(operations).contains(
            operations[i].key,
        ),
        forall|key: RequestKey| #[trigger]
            AuthorityModel::left_waiting(operations).contains(key) ==> exists|j: int|
                0 <= j < operations.len() && (#[trigger] operations[j]).waiter
                    && operations[j].key == key,
{
    broadcast use vstd::seq_lib::group_filter_ensures;

    let waiting = |entry: OperationPending| entry.waiter;
    let left = operations.filter(waiting);
    let keys = AuthorityModel::left_waiting(operations);
    if operations[i].waiter {
        assert(left.contains(operations[i]));
        let k = choose|k: int| 0 <= k < left.len() && left[k] == operations[i];
        assert(keys[k] == operations[i].key);
    }
    assert forall|key: RequestKey| #[trigger] keys.contains(key) implies exists|j: int|
        0 <= j < operations.len() && (#[trigger] operations[j]).waiter && operations[j].key
            == key by {
        let k = choose|k: int| 0 <= k < keys.len() && keys[k] == key;
        assert(left[k].key == key);
        assert(waiting(left[k]));
        assert(left.contains(left[k]));
        operations.lemma_filter_contains_rev(waiting, left[k]);
        assert(operations.contains(left[k]));
        let j = choose|j: int| 0 <= j < operations.len() && operations[j] == left[k];
        assert(operations[j].waiter);
    }
}

/// The credits to aim for are those that were configured where large
/// transfers were negotiated, and one where they were not; never none.
pub proof fn targets_follow_the_negotiation(authority: AuthorityModel, large_mtu: bool)
    ensures
        ({
            let next = authority.negotiated(large_mtu);
            &&& next.large_mtu == large_mtu
            &&& next.state.target_credits >= 1
            &&& !large_mtu ==> next.state.target_credits == 1
            &&& large_mtu && authority.target_credits >= 1 ==> next.state.target_credits
                == authority.target_credits
            &&& next.state.available_credits == authority.state.available_credits
            &&& next.state.requests == authority.state.requests
            &&& next.operations == authority.operations
            &&& next.target_credits == authority.target_credits
        }),
{
}

/// Every operation of an admitted compound has a plan that charges what the
/// operation costs, and a place in the table behind all others, where nobody
/// waits for it yet.
pub proof fn compounds_are_entered_as_a_whole(
    authority: AuthorityModel,
    operations: Seq<TypedOperation>,
    deadline: Option<MonotonicTime>,
    i: int,
)
    requires
        authority.compound_admitted(operations, deadline).1 is Admitted,
        0 <= i < operations.len(),
    ensures
        ({
            let (next, verdict) = authority.compound_admitted(operations, deadline);
            let plans = verdict->Admitted_0;
            let entry = next.operations[authority.operations.len() + i];
            &&& plans.len() == operations.len()
            &&& plans[i].payload_bytes == operations[i].spec_payload_bytes()
            &&& operations[i].charge(authority.large_mtu) == Ok::<u16, OperationContractError>(
                plans[i].credit_charge,
            )
            &&& plans[i].caller_deadline == deadline
            &&& next.operations.len() == authority.operations.len() + operations.len()
            &&& next.operations.take(authority.operations.len() as int) == authority.operations
            &&& entry.key == plans[i].key
            &&& entry.response == operations[i].response
            &&& entry.replay == operations[i].outgoing.replay
            &&& entry.wants_raw == operations[i].outgoing.return_raw_data
            &&& !entry.waiter
            &&& !entry.request_raw
            &&& !entry.draining
            &&& !entry.caller_completed
            &&& entry.buffered is None
            &&& next.frames == authority.frames
            &&& next.terminals == authority.terminals
        }),
{
    let (next, verdict) = authority.compound_admitted(operations, deadline);
    plans_are_those_of_the_operations(
        authority.state,
        operations,
        authority.large_mtu,
        deadline,
        i,
    );
    assert(next.operations.take(authority.operations.len() as int) =~= authority.operations);
}

proof fn plans_are_those_of_the_operations(
    state: GenerationModel,
    operations: Seq<TypedOperation>,
    large_mtu: bool,
    deadline: Option<MonotonicTime>,
    i: int,
)
    requires
        total_charge(operations, large_mtu) is Some,
        admitted_in_turn(state, operations, large_mtu, deadline).1 is Ok,
    ensures
        ({
            let plans = admitted_in_turn(state, operations, large_mtu, deadline).1->Ok_0;
            &&& plans.len() == operations.len()
            &&& 0 <= i < operations.len() ==> {
                &&& plans[i].payload_bytes == operations[i].spec_payload_bytes()
                &&& operations[i].charge(large_mtu) == Ok::<u16, OperationContractError>(
                    plans[i].credit_charge,
                )
                &&& plans[i].caller_deadline == deadline
            }
        }),
    decreases operations.len(),
{
    reveal(stepped);
    if operations.len() > 0 {
        plans_are_those_of_the_operations(state, operations.drop_last(), large_mtu, deadline, i);
    }
}

/// A compound whose frame was prepared is queued as one frame, named by its
/// first request; answers that came early are dealt with in the order of its
/// requests.
pub proof fn prepared_compounds_are_queued(
    authority: AuthorityModel,
    keys: Seq<RequestKey>,
    key: RequestKey,
)
    ensures
        ({
            let (next, result, told) = authority.compound_prepared(keys, true);
            let (taken, decisions, outcomes) = authority.early_taken_all(keys);
            &&& result == Ok::<Seq<Option<MessageDecision>>, RuntimeError>(decisions)
            &&& told == outcomes
            &&& next.state == taken.state
            &&& next.operations == taken.operations
            &&& next.frames.queue.len() == taken.frames.queue.len() + 1
            &&& next.frames.queue.last().key == keys[0]
            &&& next.frames.queue.last().members == keys
            &&& next.frames.queue.drop_last() == taken.frames.queue
            &&& next.frames.active == taken.frames.active
        }),
        authority.early_taken_all(Seq::empty()) == (
            authority,
            Seq::<Option<MessageDecision>>::empty(),
            Seq::<TerminalDelivery>::empty(),
        ),
        ({
            let (earlier, decisions, outcomes) = authority.early_taken_all(keys);
            let (next, decision, further) = earlier.early_taken(key);
            authority.early_taken_all(keys.push(key)) == (
                next,
                decisions.push(decision),
                outcomes + further,
            )
        }),
{
    let next = authority.compound_prepared(keys, true).0;
    assert(next.frames.queue.drop_last() =~= authority.early_taken_all(keys).0.frames.queue);
    assert(keys.push(key).drop_last() =~= keys);
}

/// An operation that is taken out of the table leaves all others where they
/// are; several are taken out one after the other.
pub proof fn operations_are_taken_out(
    authority: AuthorityModel,
    i: int,
    keys: Seq<RequestKey>,
    key: RequestKey,
)
    requires
        distinct(authority.operations),
        0 <= i < authority.operations.len(),
    ensures
        authority.without_operation(authority.operations[i].key) == (AuthorityModel {
            operations: authority.operations.remove(i),
            ..authority
        }),
        !known(authority.operations, key) ==> authority.without_operation(key) == authority,
        authority.without_operations(Seq::empty()) == authority,
        authority.without_operations(keys.push(key)) == authority.without_operations(
            keys,
        ).without_operation(key),
{
    place_is_unique(authority.operations, authority.operations[i].key, i);
    assert(keys.push(key).drop_last() =~= keys);
}

} // verus!
