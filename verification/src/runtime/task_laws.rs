//! What the task that owns a generation does with what it is told: which
//! frames and operations it takes up, what it hands on, and when it stops.

use crate::runtime::authority_model::{
    AdmissionVerdict, AuthorityModel, MessageDecision, PreparedVerdict,
};
use crate::runtime::early_responses::ResponseFacts;
use crate::runtime::engine::{
    controlled, terminals_of, told_in_order, ControlCommand, ControlReply, MessageOutcome,
    PreparedDecision,
};
use crate::runtime::error::{PumpName, RuntimeError, RuntimeEvent, TransportFault, WireFault};
use crate::runtime::owner::{
    io_effect, io_report, wire_commanded, ActiveWrite, InboundModel, IoEvent, RuntimeConfig,
    WireCommand,
};
use crate::runtime::pending::asked;
use crate::runtime::preparation_order::{completed, ready_prefix, values};
use crate::runtime::reducer::RequestKey;
use crate::runtime::turn::{
    batch_taken, batch_told, batches_taken, messages_taken, preparation_told, preparations_taken,
    BatchOutcome, CompoundAdmission, InboundBatch, OperationAdmission, OperationStep,
    PreparedOperation, TaskModel, WriteOutcome,
};
use crate::runtime::waiters::TerminalDelivery;
use crate::runtime::wire::WireModel;
use vstd::prelude::*;

verus! {

/// Another frame is read while there is room for it, unless nobody waits for
/// one: then only where frames are decoded anyway, or nothing else is to be
/// done. A frame is taken up while one waits and there is a hand free. A lane
/// of no width is one wide.
pub proof fn frames_are_read_while_there_is_room<V>(
    lane: InboundModel<V>,
    config: RuntimeConfig,
    operations_idle: bool,
    lanes_idle: bool,
)
    ensures
        lane.may_read(config, operations_idle, lanes_idle) <==> (lane.received < config.io_capacity
            || (config.io_capacity == 0 && lane.received == 0)) && (config.decode_unsolicited
            || !operations_idle || lanes_idle),
        lane.may_begin(config) <==> lane.received > 0 && (lane.preparing
            < config.crypto_parallelism || (config.crypto_parallelism == 0 && lane.preparing == 0)),
{
}

/// A frame that is taken up gets the next number and stands behind all that
/// were taken up before; where no number is left the connection fails.
pub proof fn frames_are_numbered<V>(lane: InboundModel<V>)
    requires
        lane.received > 0,
    ensures
        ({
            let (next, begun) = lane.begun();
            &&& next.received == lane.received - 1
            &&& begun is Ok <==> lane.next_sequence < u64::MAX
            &&& begun matches Ok(sequence) ==> {
                &&& sequence == lane.next_sequence
                &&& next.next_sequence == sequence + 1
                &&& next.preparing == lane.preparing + 1
                &&& next.order.len() == lane.order.len() + 1
                &&& next.order.drop_last() == lane.order
                &&& next.order.last().key == sequence
                &&& next.order.last().value is None
            }
            &&& begun matches Err(error) ==> error == RuntimeError::Wire(
                WireFault::InboundSequenceExhausted,
            ) && next.order == lane.order && next.preparing == lane.preparing
        }),
{
    let (next, begun) = lane.begun();
    if begun is Ok {
        assert(next.order.drop_last() =~= lane.order);
    }
}

/// A frame that was prepared is released with all that wait for nothing but
/// it, and the rest keep their places.
pub proof fn prepared_frames_are_released<V>(lane: InboundModel<V>, sequence: u64, value: V)
    requires
        lane.preparing > 0,
    ensures
        ({
            let (next, released) = lane.prepared(sequence, value);
            let places = completed(lane.order, sequence, value);
            let n = ready_prefix(places);
            &&& released == values(places, n)
            &&& next.order == places.skip(n as int)
            &&& next.preparing == lane.preparing - 1
            &&& next.received == lane.received
            &&& next.next_sequence == lane.next_sequence
        }),
{
}

/// What the transport says reaches the requests: what was written, that a
/// frame was given up, and that a pump failed, which ends the connection.
/// That a pump has exited changes nothing. An observer is told the same,
/// except that a frame was given up.
pub proof fn transport_events_reach_the_requests(authority: AuthorityModel, event: IoEvent)
    ensures
        match event {
            IoEvent::WriteCancelled(key) => io_effect(authority, event)
                == authority.write_cancelled(key) && io_report(event) is None,
            IoEvent::WriteProgress { key, bytes } => io_effect(authority, event)
                == authority.write_progressed(key, bytes) && io_report(event) == Some(
                RuntimeEvent::WriteProgress { key, bytes },
            ),
            IoEvent::WriteComplete(key) => io_effect(authority, event)
                == authority.write_completed(key) && io_report(event) == Some(
                RuntimeEvent::WriteComplete { key },
            ),
            IoEvent::Failed { pump, error } => {
                let (next, deliveries) = io_effect(authority, event);
                &&& next.fatal == Some(RuntimeError::Transport(TransportFault::Failed(error)))
                &&& next.state == authority.state
                &&& next.operations == authority.operations
                &&& deliveries.operations.len() == 0
                &&& deliveries.terminals.len() == 0
                &&& io_report(event) == Some(RuntimeEvent::PumpFailed { pump, error })
            },
            IoEvent::Exited(pump) => {
                let (next, deliveries) = io_effect(authority, event);
                &&& next == authority
                &&& deliveries.operations.len() == 0
                &&& deliveries.terminals.len() == 0
                &&& io_report(event) == Some(RuntimeEvent::PumpExited { pump })
            },
        },
{
}

/// The end of a write is told to its request as what it was; that the writer
/// broke down is not.
pub proof fn write_ends_are_told(end: WriteOutcome, key: RequestKey)
    ensures
        match end {
            WriteOutcome::Cancelled => end.event(key) == Some(IoEvent::WriteCancelled(key)),
            WriteOutcome::Sent(Ok(_)) => end.event(key) == Some(IoEvent::WriteComplete(key)),
            WriteOutcome::Sent(Err(error)) => end.event(key) == Some(
                IoEvent::Failed { pump: PumpName::Write, error },
            ),
            WriteOutcome::Panicked => end.event(key) is None,
        },
{
}

/// What was written since the last report is reported, and nothing twice.
pub proof fn written_bytes_are_reported(task: TaskModel, progressed: usize)
    requires
        task.write is Some,
        task.write->Some_0.reported <= progressed,
    ensures
        ({
            let write = task.write->Some_0;
            let next = task.written(progressed);
            let behind = progressed - write.reported;
            &&& behind == 0 ==> task.untold(progressed) is None && next.authority == task.authority
            &&& behind > 0 ==> task.untold(progressed) == Some(
                IoEvent::WriteProgress { key: write.key, bytes: behind as usize },
            ) && next.authority == task.authority.write_progressed(write.key, behind as usize).0
            &&& next.write == Some(
                ActiveWrite { key: write.key, progressed, reported: progressed },
            )
            &&& next.untold(progressed) is None
            &&& next.inbound == task.inbound
            &&& next.preparing == task.preparing
        }),
{
}

/// The messages of a frame are taken in their order; a frame that cannot be
/// decoded is the end of the connection.
pub proof fn frames_are_taken_message_by_message(
    authority: AuthorityModel,
    messages: Seq<ResponseFacts>,
    message: ResponseFacts,
    batch: InboundBatch,
)
    ensures
        messages_taken(authority, Seq::empty()) == (
            authority,
            Seq::<MessageDecision>::empty(),
            Seq::<TerminalDelivery>::empty(),
        ),
        ({
            let (before, decisions, told) = messages_taken(authority, messages);
            let (after, decision, further) = before.message_taken(message);
            messages_taken(authority, messages.push(message)) == (
                after,
                decisions.push(decision),
                told + further,
            )
        }),
        batch.messages matches Some(messages) ==> batch_taken(authority, batch) == messages_taken(
            authority,
            messages@,
        ),
        batch.messages is None ==> {
            let (after, decisions, told) = batch_taken(authority, batch);
            &&& after == (AuthorityModel {
                fatal: Some(RuntimeError::Wire(WireFault::DecodeIncoming)),
                ..authority
            })
            &&& decisions.len() == 0
            &&& told.len() == 0
        },
{
    assert(messages.push(message).drop_last() =~= messages);
}

/// Frames are dealt with one after the other, and so are prepared operations.
pub proof fn what_is_ready_is_taken_in_turn(
    authority: AuthorityModel,
    batches: Seq<InboundBatch>,
    batch: InboundBatch,
    prepared: Seq<PreparedOperation>,
    operation: PreparedOperation,
)
    ensures
        batches_taken(authority, Seq::empty()) == authority,
        batches_taken(authority, batches.push(batch)) == batch_taken(
            batches_taken(authority, batches),
            batch,
        ).0,
        preparations_taken(authority, Seq::empty()) == authority,
        preparations_taken(authority, prepared.push(operation)) == preparations_taken(
            authority,
            prepared,
        ).operation_prepared(operation.key, operation.prepared).0,
{
    assert(batches.push(batch).drop_last() =~= batches);
    assert(prepared.push(operation).drop_last() =~= prepared);
}

/// A task stops once a close was asked for or something is broken, and takes
/// no more from then on.
pub proof fn stopped_tasks_take_no_more(task: TaskModel, authority: AuthorityModel)
    ensures
        task.must_stop() <==> task.authority.close_deadline is Some || task.authority.fatal is Some,
        task.with_authority(authority).authority == authority,
        task.with_authority(authority).open <==> task.open && authority.close_deadline is None
            && authority.fatal is None,
        task.with_authority(authority) == (TaskModel {
            authority,
            open: task.with_authority(authority).open,
            ..task
        }),
{
}

/// Nothing is taken up while something waits for credits; a compound is not
/// while an operation is in preparation, either.
pub proof fn waiting_work_goes_first(task: TaskModel)
    ensures
        task.may_take_operation() <==> task.waiting_operation is None && task.waiting_compound
            is None,
        task.may_take_compound() <==> task.waiting_operation is None && task.waiting_compound
            is None && task.preparing.len() == 0,
{
}

/// An operation that is taken up is prepared where it is admitted, waits where
/// its credits are missing, and is refused with its reason. One that is
/// prepared beside others has a place behind them.
pub proof fn operations_are_taken_up(
    task: TaskModel,
    command: OperationAdmission,
    concurrent: bool,
)
    ensures
        ({
            let (next, step) = task.operation_taken(command, concurrent);
            let (authority, verdict) = task.authority.operation_admitted(
                command.operation,
                command.deadline,
                command.waiter,
            );
            &&& next.authority == authority
            &&& verdict matches AdmissionVerdict::Refused(error) ==> step == OperationStep::Refuse(
                error,
            ) && next.waiting_operation == task.waiting_operation && next.preparing
                == task.preparing
            &&& verdict is Waiting ==> step is Wait && next.waiting_operation == Some(command)
                && next.preparing == task.preparing
            &&& verdict matches AdmissionVerdict::Admitted(plan) ==> {
                &&& step == OperationStep::Prepare(plan)
                &&& next.waiting_operation == task.waiting_operation
                &&& !concurrent ==> next.preparing == task.preparing
                &&& concurrent ==> next.preparing.len() == task.preparing.len() + 1
                    && next.preparing.drop_last() == task.preparing && next.preparing.last().key
                    == plan.key.message_id && next.preparing.last().value is None
            }
            &&& next.waiting_compound == task.waiting_compound
        }),
{
    let (next, step) = task.operation_taken(command, concurrent);
    if step is Prepare && concurrent {
        assert(next.preparing.drop_last() =~= task.preparing);
    }
}

/// A compound that is taken up waits where its credits are missing; what
/// becomes of it otherwise is what its admission says.
pub proof fn compounds_are_taken_up(task: TaskModel, command: CompoundAdmission)
    ensures
        ({
            let (next, verdict) = task.compound_taken(command);
            let (authority, told) = task.authority.compound_admitted(
                command.operations@,
                command.deadline,
            );
            &&& next.authority == authority
            &&& verdict == told
            &&& verdict is Waiting ==> next.waiting_compound == Some(command)
            &&& !(verdict is Waiting) ==> next.waiting_compound == task.waiting_compound
            &&& next.waiting_operation == task.waiting_operation
            &&& next.preparing == task.preparing
        }),
{
}

/// An operation that was prepared is queued with all that wait for nothing
/// but it, in the order of their admission.
pub proof fn prepared_operations_keep_their_order(task: TaskModel, prepared: PreparedOperation)
    ensures
        ({
            let (next, ready) = task.prepared(prepared);
            let places = completed(task.preparing, prepared.key.message_id, prepared);
            let n = ready_prefix(places);
            &&& ready == values(places, n)
            &&& next.preparing == places.skip(n as int)
            &&& next.authority == preparations_taken(task.authority, ready)
            &&& next.waiting_operation == task.waiting_operation
            &&& next.waiting_compound == task.waiting_compound
        }),
{
}

/// A control command does what it asks for, and is answered with what came of
/// it.
pub proof fn controls_do_what_they_ask_for(
    before: AuthorityModel,
    command: ControlCommand,
    after: AuthorityModel,
    reply: ControlReply,
)
    requires
        controlled(before, command, after, reply),
    ensures
        match command {
            ControlCommand::CreateObject { parent, kind } => {
                let (objects, made) = before.objects.with_child(parent, kind);
                &&& after.objects == objects
                &&& made matches Ok(token) ==> reply == ControlReply::Object(Ok(token))
                &&& made matches Err(error) ==> reply == ControlReply::Object(
                    Err(RuntimeError::Object(error)),
                )
            },
            ControlCommand::LoseObjectGeneration => after.objects == before.objects.lost().0 && (
            reply matches ControlReply::Revoked(count) && count == before.objects.lost().1.len()),
            ControlCommand::BeginObjectRecovery { object } => {
                let valid = before.objects.validated(object);
                &&& valid is Ok ==> after.objects.records[object.id as int].phase is Recovering
                    && reply == ControlReply::Done(Ok(()))
                &&& valid matches Err(error) ==> after.objects == before.objects && reply
                    == ControlReply::Done(Err(RuntimeError::Object(error)))
            },
            ControlCommand::PublishObjectReplacement { object } => {
                let (objects, made) = before.objects.replaced_alone(object);
                &&& after.objects == objects
                &&& made matches Ok((effect, _)) ==> reply == ControlReply::Object(
                    Ok(effect->replacement),
                )
                &&& made matches Err(error) ==> reply == ControlReply::Object(
                    Err(RuntimeError::Object(error)),
                )
            },
            ControlCommand::FailObjectRecovery { object } => {
                let (objects, made) = before.objects.recovery_failed(object);
                &&& after.objects == objects
                &&& made is Ok ==> reply == ControlReply::Done(Ok(()))
                &&& made matches Err(error) ==> reply == ControlReply::Done(
                    Err(RuntimeError::Object(error)),
                )
            },
            ControlCommand::InstallNotifications => after.notifications && (reply matches
                ControlReply::Done(done) && done is Ok),
            ControlCommand::AwaitOperation { key } => after.operations == asked(
                before.operations,
                key,
            ).0 && reply == ControlReply::Awaited(asked(before.operations, key).1),
            ControlCommand::Negotiated { large_mtu } => after == before.negotiated(large_mtu) && (
            reply matches ControlReply::Done(done) && done is Ok),
            ControlCommand::Cancel { key, now } => {
                let (next, deliveries) = before.cancelled(key, now);
                let queued = exists|i: int|
                    0 <= i < before.frames.queue.len() && (#[trigger] before.frames.queue[i]).key
                        == key;
                let writing = before.frames.active matches Some(frame) && frame.key == key;
                &&& after == next
                &&& reply matches ControlReply::Cancelled(decision) && decision.deliveries@
                    == deliveries && decision.withdrawn == queued && decision.signal_active
                    == writing
            },
            ControlCommand::Close { deadline } => {
                &&& before.close_deadline is None ==> after.close_deadline == Some(deadline)
                    && reply == ControlReply::Closing(Ok(()))
                &&& before.close_deadline is Some ==> after == before && reply
                    == ControlReply::Closing(Err(RuntimeError::Closed))
            },
        },
        !(command is Cancel) && !(command is AwaitOperation) ==> after.operations
            == before.operations,
        !(command is Cancel) && !(command is Negotiated) ==> after.state == before.state,
        !(command is Close) ==> after.close_deadline == before.close_deadline,
        after.fatal == before.fatal,
{
}

/// A command for the wire does what it asks for: sessions are started and
/// ended once the connection is negotiated, a connection is negotiated once,
/// and a transcript can be taken back to the negotiation behind that.
pub proof fn wire_commands_do_what_they_ask_for(
    before: AuthorityModel,
    wire: WireModel,
    command: WireCommand,
    after: AuthorityModel,
    wire_after: WireModel,
    result: Result<(), RuntimeError>,
)
    requires
        wire_commanded(before, wire, command, after, wire_after, result),
    ensures
        match command {
            WireCommand::ResetPreauthToNegotiate => {
                &&& result is Ok <==> wire.negotiated
                &&& result is Ok ==> wire_after.transcript == wire.negotiation
                    && wire_after.setup_signers.is_empty() && wire_after.sessions == wire.sessions
                &&& result matches Err(error) ==> error == RuntimeError::Wire(
                    WireFault::PreauthReset,
                )
            },
            WireCommand::Negotiated {
                large_mtu,
                dialect_compresses,
                compression_enabled,
                compression_agreed,
                transcript,
            } => {
                &&& result is Ok <==> !wire.negotiated
                &&& result is Ok ==> wire_after.negotiated && (dialect_compresses
                    && compression_enabled ==> wire_after.compression == compression_agreed) && (
                !(dialect_compresses && compression_enabled) ==> wire_after.compression
                    == wire.compression)
                &&& result is Ok ==> match transcript {
                    Some(digest) => wire_after.transcript == Some(digest@)
                        && wire_after.negotiation == Some(digest@),
                    None => wire_after.transcript is None && wire_after.negotiation is None,
                }
                &&& result matches Err(error) ==> error == RuntimeError::Wire(
                    WireFault::NegotiatedPolicy,
                )
                &&& after.large_mtu == large_mtu
            },
            WireCommand::SessionStarted { session_id } => {
                &&& result is Ok <==> wire.negotiated
                &&& result is Ok ==> wire_after.sessions.contains(session_id)
                &&& result matches Err(error) ==> error == RuntimeError::Wire(
                    WireFault::SessionStartedPolicy,
                )
            },
            WireCommand::SessionEnded { session_id } => {
                &&& result is Ok <==> wire.sessions.contains(session_id)
                &&& !wire_after.sessions.contains(session_id)
                &&& result matches Err(error) ==> error == RuntimeError::Wire(
                    WireFault::SessionEndedPolicy,
                )
                &&& forall|other: u64|
                    other != session_id ==> (#[trigger] wire_after.sessions.contains(other)
                        <==> wire.sessions.contains(other))
            },
        },
        result is Err && !(command is SessionEnded) ==> wire_after == wire,
        !(command is Negotiated) ==> after == before,
{
}

/// Of each frame everything is told: what became of each of its messages, what
/// that told other callers, and to an observer how long it was.
pub proof fn frames_are_told_as_a_whole(
    authority: AuthorityModel,
    batch: InboundBatch,
    emit_events: bool,
    outcome: BatchOutcome,
)
    ensures
        batch_told(authority, batch, emit_events, outcome) <==> {
            &&& outcome.decisions@ == batch_taken(authority, batch).1
            &&& outcome.terminals@ == batch_taken(authority, batch).2
            &&& emit_events ==> outcome.event == Some(
                RuntimeEvent::InboundFrame { bytes: batch.bytes },
            )
            &&& !emit_events ==> outcome.event is None
        },
{
}

/// Of a prepared operation everything is told: why it is refused and whether
/// its waiter is told as well, or that it is queued, whether its raw request
/// is kept, and what became of an answer that came early.
pub proof fn preparations_are_told_as_a_whole(
    authority: AuthorityModel,
    prepared: PreparedOperation,
    decision: PreparedDecision,
)
    requires
        preparation_told(authority, prepared, decision),
    ensures
        ({
            let (_, verdict, told) = authority.operation_prepared(prepared.key, prepared.prepared);
            match verdict {
                PreparedVerdict::Refused { error, waiter } => decision
                    == (PreparedDecision::Refused { error, waiter }) && told.len() == 0,
                PreparedVerdict::Queued { request_raw, early } => {
                    &&& decision matches PreparedDecision::Queued {
                        request_raw: raw,
                        early: answered,
                    } && raw == request_raw && answered is Some == early is Some
                    &&& early matches Some(taken) ==> decision->early->Some_0.decision == taken
                        && decision->early->Some_0.terminals@ == told
                    &&& early is None ==> told.len() == 0
                },
            }
        }),
{
}

/// Several early answers are told in their order, and nothing that they tell
/// others is left out.
pub proof fn early_answers_are_told_in_order(
    outcomes: Seq<Option<MessageOutcome>>,
    outcome: Option<MessageOutcome>,
    decisions: Seq<Option<MessageDecision>>,
    i: int,
)
    ensures
        terminals_of(Seq::empty()) == Seq::<TerminalDelivery>::empty(),
        outcome is None ==> terminals_of(outcomes.push(outcome)) == terminals_of(outcomes),
        outcome matches Some(told) ==> terminals_of(outcomes.push(outcome)) == terminals_of(
            outcomes,
        ) + told.terminals@,
        told_in_order(outcomes, decisions) ==> outcomes.len() == decisions.len(),
        told_in_order(outcomes, decisions) && 0 <= i < outcomes.len() ==> outcomes[i] is Some
            == decisions[i] is Some && (outcomes[i] matches Some(told) ==> told.decision
            == decisions[i]->Some_0),
{
    assert(outcomes.push(outcome).drop_last() =~= outcomes);
    assert(terminals_of(outcomes) + Seq::<TerminalDelivery>::empty() =~= terminals_of(outcomes));
}

} // verus!
