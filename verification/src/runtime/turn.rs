//! The task that owns a generation, one event at a time.
//!
//! The task holds the authority over the requests and everything that waits
//! beside it: frames that were read, frames and operations in preparation,
//! what waits for credits, and the frame that is being written. Whoever runs
//! it polls the transport, the lanes and the clock where the task says that
//! it may, and hands it what came of that.

use crate::clock::MonotonicTime;
use crate::runtime::authority_model::{
    AdmissionVerdict, AuthorityModel, CompoundVerdict, DeliveriesModel, MessageDecision,
    PreparedVerdict,
};
use crate::runtime::early_responses::ResponseFacts;
use crate::runtime::engine::{
    controlled, terminals_of, told_in_order, CompoundDecision, ControlCommand, ControlReply,
    Deliveries, MessageOutcome, OperationDecision, PreparedDecision, RequestAuthority,
    ShutdownPlan,
};
use crate::runtime::error::{
    GenerationExit, GenerationExitCause, PumpName, RuntimeError, RuntimeEvent, TransportError, TransportFault,
    WireFault,
};
use crate::runtime::frames::{FrameModel, FramesModel};
use crate::runtime::generation_laws::{
    evolution_is_transitive, evolves, requests_are_never_forgotten,
};
use crate::runtime::generation_model::{open_caller_weight, total, GenerationModel};
use crate::runtime::object_state::RegistryModel;
use crate::runtime::operation::TypedOperation;
use crate::runtime::owner::{
    at_least_one, handle_wire_command, io_effect, io_report, process_io, wire_commanded, write_end,
    ActiveWrite, InboundLane, InboundModel, IoEvent, IoOutcome, LastWrite, RuntimeConfig,
    WireCommand,
};
use crate::runtime::preparation_order::{
    completed, place_of, ready_prefix, reserved, values, OrderedCompletionQueue, Reservation,
};
use crate::runtime::reducer::RequestKey;
use crate::runtime::state::PreparationPlan;
use crate::runtime::waiters::TerminalDelivery;
use crate::runtime::wire::{digest_view, WirePipeline};
use vstd::prelude::*;

verus! {

/// An operation that asks to be admitted.
#[derive(Debug)]
pub struct OperationAdmission {
    pub operation: TypedOperation,
    pub deadline: Option<MonotonicTime>,
    /// Whether its caller waits for the outcome.
    pub waiter: bool,
}

/// A compound that asks to be admitted.
#[derive(Debug)]
pub struct CompoundAdmission {
    pub operations: Vec<TypedOperation>,
    pub deadline: Option<MonotonicTime>,
}

/// An operation whose frame was prepared, or could not be. Where it was, it
/// says whether there are raw bytes of the request.
#[derive(Clone, Copy, Debug, PartialEq, Eq, Structural)]
pub struct PreparedOperation {
    pub key: RequestKey,
    pub prepared: Option<bool>,
}

/// A frame that was read and prepared: its messages, unless it could not be
/// decoded.
#[derive(Debug)]
pub struct InboundBatch {
    pub bytes: usize,
    pub messages: Option<Vec<ResponseFacts>>,
}

/// What became of the messages of a frame.
#[derive(Debug)]
pub struct BatchOutcome {
    pub decisions: Vec<MessageDecision>,
    pub terminals: Vec<TerminalDelivery>,
    /// What an observer is told.
    pub event: Option<RuntimeEvent>,
}

/// What becomes of an operation.
#[derive(Clone, Copy, Debug, PartialEq, Eq, Structural)]
pub enum OperationStep {
    Refuse(RuntimeError),
    /// It waits for credits.
    Wait,
    /// Its frame is to be prepared.
    Prepare(PreparationPlan),
}

/// What becomes of a compound.
#[derive(Debug)]
pub enum CompoundStep {
    Refuse(RuntimeError),
    Wait,
    Prepare(Vec<PreparationPlan>),
}

/// How the write of a frame ended.
#[derive(Clone, Copy, Debug, PartialEq, Eq)]
pub enum WriteOutcome {
    /// Not a byte of it was written.
    Cancelled,
    Sent(Result<(), TransportError>),
    Panicked,
}

/// What the end of a write means to callers: its last progress, and the end
/// itself.
#[derive(Debug)]
pub struct WriteEnded {
    pub progress: Option<IoOutcome>,
    pub end: Option<IoOutcome>,
}

/// What is left to do when the task ends.
pub struct TaskEnd {
    pub plan: ShutdownPlan,
    /// What still waits for credits, and is told the error of the plan.
    pub waiting_operation: Option<OperationAdmission>,
    pub waiting_compound: Option<CompoundAdmission>,
}

/// The messages of a frame are taken one after the other, whatever becomes
/// of them.
pub open spec fn messages_taken(authority: AuthorityModel, messages: Seq<ResponseFacts>) -> (
    AuthorityModel,
    Seq<MessageDecision>,
    Seq<TerminalDelivery>,
)
    decreases messages.len(),
{
    if messages.len() == 0 {
        (authority, Seq::empty(), Seq::empty())
    } else {
        let (before, decisions, terminals) = messages_taken(authority, messages.drop_last());
        let (after, decision, further) = before.message_taken(messages.last());
        (after, decisions.push(decision), terminals + further)
    }
}

pub open spec fn batch_taken(authority: AuthorityModel, batch: InboundBatch) -> (
    AuthorityModel,
    Seq<MessageDecision>,
    Seq<TerminalDelivery>,
) {
    match batch.messages {
        Some(messages) => messages_taken(authority, messages@),
        None => (
            authority.faulted(RuntimeError::Wire(WireFault::DecodeIncoming)),
            Seq::empty(),
            Seq::empty(),
        ),
    }
}

/// The requests once several frames were dealt with.
pub open spec fn batches_taken(authority: AuthorityModel, batches: Seq<InboundBatch>) -> AuthorityModel
    decreases batches.len(),
{
    if batches.len() == 0 {
        authority
    } else {
        batch_taken(batches_taken(authority, batches.drop_last()), batches.last()).0
    }
}

/// What is told of a frame that was dealt with.
pub open spec fn batch_told(
    authority: AuthorityModel,
    batch: InboundBatch,
    emit_events: bool,
    outcome: BatchOutcome,
) -> bool {
    &&& outcome.decisions@ == batch_taken(authority, batch).1
    &&& outcome.terminals@ == batch_taken(authority, batch).2
    &&& outcome.event == if emit_events {
        Some(RuntimeEvent::InboundFrame { bytes: batch.bytes })
    } else {
        None::<RuntimeEvent>
    }
}

/// The requests once several operations were prepared.
pub open spec fn preparations_taken(
    authority: AuthorityModel,
    prepared: Seq<PreparedOperation>,
) -> AuthorityModel
    decreases prepared.len(),
{
    if prepared.len() == 0 {
        authority
    } else {
        preparations_taken(authority, prepared.drop_last()).operation_prepared(
            prepared.last().key,
            prepared.last().prepared,
        ).0
    }
}

/// What is told of an operation that was prepared.
pub open spec fn preparation_told(
    authority: AuthorityModel,
    prepared: PreparedOperation,
    decision: PreparedDecision,
) -> bool {
    let (_, verdict, terminals) = authority.operation_prepared(prepared.key, prepared.prepared);
    match (decision, verdict) {
        (
            PreparedDecision::Refused { error, waiter },
            PreparedVerdict::Refused { error: e, waiter: w },
        ) => error == e && waiter == w && terminals == Seq::<TerminalDelivery>::empty(),
        (
            PreparedDecision::Queued { request_raw, early },
            PreparedVerdict::Queued { request_raw: r, early: e },
        ) => request_raw == r && match (early, e) {
            (Some(outcome), Some(told)) => outcome.decision == told && outcome.terminals@
                == terminals,
            (None, None) => terminals == Seq::<TerminalDelivery>::empty(),
            _ => false,
        },
        _ => false,
    }
}

#[verifier::ext_equal]
pub struct TaskModel {
    pub config: RuntimeConfig,
    pub authority: AuthorityModel,
    pub inbound: InboundModel<InboundBatch>,
    /// The operations in preparation, in the order of their admission.
    pub preparing: Seq<Reservation<PreparedOperation>>,
    pub waiting_operation: Option<OperationAdmission>,
    pub waiting_compound: Option<CompoundAdmission>,
    /// The frame that is being written.
    pub write: Option<ActiveWrite>,
    /// Whether the lanes still take admissions.
    pub open: bool,
    pub read_panicked: bool,
    pub write_panicked: bool,
}

pub open spec fn in_preparation(
    state: GenerationModel,
    preparing: Seq<Reservation<PreparedOperation>>,
) -> bool {
    forall|i: int|
        0 <= i < preparing.len() ==> state.tracks(
            RequestKey { generation: state.generation, message_id: (#[trigger] preparing[i]).key },
        )
}

impl WriteOutcome {
    /// What the end of a write means to the requests; a panic means nothing
    /// to them.
    pub open spec fn event(self, key: RequestKey) -> Option<IoEvent> {
        match self {
            WriteOutcome::Cancelled => Some(IoEvent::WriteCancelled(key)),
            WriteOutcome::Sent(Ok(_)) => Some(IoEvent::WriteComplete(key)),
            WriteOutcome::Sent(Err(error)) => Some(
                IoEvent::Failed { pump: PumpName::Write, error },
            ),
            WriteOutcome::Panicked => None,
        }
    }
}

impl TaskModel {
    /// What the requests do not know yet of the frame that is being written.
    pub open spec fn untold(self, progressed: usize) -> Option<IoEvent> {
        match self.write {
            Some(write) => if progressed > write.reported {
                Some(
                    IoEvent::WriteProgress {
                        key: write.key,
                        bytes: (progressed - write.reported) as usize,
                    },
                )
            } else {
                None
            },
            None => None,
        }
    }

    /// The task once the requests know all of that.
    pub open spec fn written(self, progressed: usize) -> TaskModel {
        let next = TaskModel {
            write: match self.write {
                Some(write) => Some(
                    ActiveWrite { key: write.key, progressed, reported: progressed },
                ),
                None => None,
            },
            ..self
        };
        match self.untold(progressed) {
            Some(event) => next.with_authority(io_effect(self.authority, event).0),
            None => next,
        }
    }

    pub open spec fn must_stop(self) -> bool {
        stops(self.authority)
    }

    /// Every operation in preparation is a request, each has one place, and
    /// the first of them is not prepared; at most one of an operation and a
    /// compound waits; and a task that must stop takes nothing more.
    pub open spec fn wf(self) -> bool {
        &&& self.authority.wf()
        &&& self.inbound.wf()
        &&& self.inbound.received <= at_least_one(self.config.io_capacity)
        &&& in_preparation(self.authority.state, self.preparing)
        &&& forall|i: int, j: int|
            0 <= i < j < self.preparing.len() ==> (#[trigger] self.preparing[i]).key != (
            #[trigger] self.preparing[j]).key
        &&& self.preparing.len() > 0 ==> self.preparing[0].value is None
        &&& !(self.waiting_operation is Some && self.waiting_compound is Some)
        &&& self.write matches Some(write) ==> write.wf()
        &&& self.must_stop() ==> !self.open
    }

    /// The task after something happened to the requests: where it must
    /// stop now, its lanes are closed.
    pub open spec fn with_authority(self, authority: AuthorityModel) -> TaskModel {
        let next = TaskModel { authority, ..self };
        TaskModel { open: self.open && !next.must_stop(), ..next }
    }

    /// Whether an operation may be taken up: nothing overtakes what waits
    /// for credits.
    pub open spec fn may_take_operation(self) -> bool {
        self.waiting_operation is None && self.waiting_compound is None
    }

    /// Whether a compound may be taken up: its frame is prepared on the spot,
    /// so that no operation may be in preparation ahead of it.
    pub open spec fn may_take_compound(self) -> bool {
        self.may_take_operation() && self.preparing.len() == 0
    }

    /// What becomes of an operation that is taken up. One that is prepared
    /// beside others keeps its place among them.
    pub open spec fn operation_taken(self, command: OperationAdmission, concurrent: bool) -> (
        TaskModel,
        OperationStep,
    ) {
        let (authority, verdict) = self.authority.operation_admitted(
            command.operation,
            command.deadline,
            command.waiter,
        );
        let next = self.with_authority(authority);
        match verdict {
            AdmissionVerdict::Refused(error) => (next, OperationStep::Refuse(error)),
            AdmissionVerdict::Waiting => (
                TaskModel { waiting_operation: Some(command), ..next },
                OperationStep::Wait,
            ),
            AdmissionVerdict::Admitted(plan) => (
                if concurrent {
                    TaskModel {
                        preparing: next.preparing.push(
                            Reservation { key: plan.key.message_id, value: None },
                        ),
                        ..next
                    }
                } else {
                    next
                },
                OperationStep::Prepare(plan),
            ),
        }
    }

    pub open spec fn compound_taken(self, command: CompoundAdmission) -> (TaskModel, CompoundVerdict) {
        let (authority, verdict) = self.authority.compound_admitted(
            command.operations@,
            command.deadline,
        );
        let next = self.with_authority(authority);
        match verdict {
            CompoundVerdict::Waiting => (
                TaskModel { waiting_compound: Some(command), ..next },
                verdict,
            ),
            _ => (next, verdict),
        }
    }

    /// The task once an operation that was prepared beside others is done:
    /// it and those behind it that wait for nothing else are released.
    pub open spec fn prepared(self, prepared: PreparedOperation) -> (
        TaskModel,
        Seq<PreparedOperation>,
    ) {
        let places = completed(self.preparing, prepared.key.message_id, prepared);
        let n = ready_prefix(places);
        let ready = values(places, n);
        (
            TaskModel {
                preparing: places.skip(n as int),
                ..self.with_authority(preparations_taken(self.authority, ready))
            },
            ready,
        )
    }
}

/// The task that owns a generation.
pub struct OwnerTask {
    config: RuntimeConfig,
    authority: RequestAuthority,
    inbound: InboundLane<InboundBatch>,
    preparing: OrderedCompletionQueue<PreparedOperation>,
    waiting_operation: Option<OperationAdmission>,
    waiting_compound: Option<CompoundAdmission>,
    write: Option<ActiveWrite>,
    open: bool,
    read_panicked: bool,
    write_panicked: bool,
}

impl View for OwnerTask {
    type V = TaskModel;

    closed spec fn view(&self) -> TaskModel {
        TaskModel {
            config: self.config,
            authority: self.authority@,
            inbound: self.inbound@,
            preparing: self.preparing@,
            waiting_operation: self.waiting_operation,
            waiting_compound: self.waiting_compound,
            write: self.write,
            open: self.open,
            read_panicked: self.read_panicked,
            write_panicked: self.write_panicked,
        }
    }
}

/// What is in preparation stays known as the requests go on.
proof fn preparation_goes_on(
    before: GenerationModel,
    after: GenerationModel,
    preparing: Seq<Reservation<PreparedOperation>>,
)
    requires
        in_preparation(before, preparing),
        evolves(before, after),
    ensures
        in_preparation(after, preparing),
{
    assert forall|i: int| 0 <= i < preparing.len() implies after.tracks(
        RequestKey { generation: after.generation, message_id: (#[trigger] preparing[i]).key },
    ) by {
        let key = RequestKey { generation: before.generation, message_id: preparing[i].key };
        requests_are_never_forgotten(before, after, key);
    }
}

pub open spec fn stops(authority: AuthorityModel) -> bool {
    authority.close_deadline is Some || authority.fatal is Some
}

/// A message never lifts a fault.
proof fn faults_outlive_messages(authority: AuthorityModel, messages: Seq<ResponseFacts>)
    ensures
        stops(authority) ==> stops(messages_taken(authority, messages).0),
    decreases messages.len(),
{
    if messages.len() > 0 {
        faults_outlive_messages(authority, messages.drop_last());
    }
}

impl OwnerTask {
    pub fn new(config: RuntimeConfig) -> (task: Self)
        ensures
            task@.wf(),
            task@ == (TaskModel {
                config,
                authority: AuthorityModel {
                    state: GenerationModel::initial(
                        config.generation,
                        config.initial_message_id,
                        config.initial_credits,
                        1,
                        config.admission_limits,
                        config.tombstone_drain_timeout,
                    ),
                    objects: RegistryModel::initial(config.generation),
                    terminals: Seq::empty(),
                    operations: Seq::empty(),
                    early: Seq::empty(),
                    frames: FramesModel::empty(),
                    notifications: false,
                    large_mtu: false,
                    target_credits: config.target_credits,
                    fatal: None,
                    close_deadline: None,
                },
                inbound: InboundModel::<InboundBatch> {
                    received: 0,
                    preparing: 0,
                    next_sequence: 0,
                    order: Seq::empty(),
                },
                preparing: Seq::empty(),
                waiting_operation: None,
                waiting_compound: None,
                write: None,
                open: true,
                read_panicked: false,
                write_panicked: false,
            }),
    {
        OwnerTask {
            config,
            authority: RequestAuthority::new(
                config.generation,
                config.initial_message_id,
                config.initial_credits,
                config.target_credits,
                config.admission_limits,
                config.tombstone_drain_timeout,
            ),
            inbound: InboundLane::new(),
            preparing: OrderedCompletionQueue::default(),
            waiting_operation: None,
            waiting_compound: None,
            write: None,
            open: true,
            read_panicked: false,
            write_panicked: false,
        }
    }

    /// Closes the lanes where the task must stop.
    fn settle(&mut self)
        ensures
            final(self)@ == (TaskModel {
                open: old(self)@.open && !old(self)@.must_stop(),
                ..old(self)@
            }),
    {
        if self.authority.must_stop() {
            self.open = false;
        }
    }

    /// Whether another frame may be read. `lanes_idle` says that no operation
    /// and no compound waits to be taken up.
    pub fn may_read(&self, lanes_idle: bool) -> (may: bool)
        ensures
            may == self@.inbound.may_read(
                self@.config,
                self@.authority.operations.len() == 0,
                lanes_idle,
            ),
    {
        self.inbound.may_read(&self.config, self.authority.operations_idle(), lanes_idle)
    }

    pub fn may_take_operation(&self) -> (may: bool)
        ensures
            may == self@.may_take_operation(),
    {
        self.waiting_operation.is_none() && self.waiting_compound.is_none()
    }

    pub fn may_take_compound(&self) -> (may: bool)
        ensures
            may == self@.may_take_compound(),
    {
        self.may_take_operation() && self.preparing.is_empty()
    }

    /// Whether a frame that was read may be prepared.
    pub fn may_begin(&self) -> (may: bool)
        ensures
            may == self@.inbound.may_begin(self@.config),
    {
        self.inbound.may_begin(&self.config)
    }

    pub fn must_stop(&self) -> (stop: bool)
        ensures
            stop == self@.must_stop(),
    {
        self.authority.must_stop()
    }

    /// Whether the lanes still take admissions.
    pub fn is_open(&self) -> (open: bool)
        ensures
            open == self@.open,
    {
        self.open
    }

    /// When a close is to be over, if one was asked for.
    pub fn close_deadline(&self) -> (deadline: Option<MonotonicTime>)
        ensures
            deadline == self@.authority.close_deadline,
    {
        self.authority.close_deadline()
    }

    /// When the task is to be woken, if nothing happens before.
    pub fn next_deadline(&self) -> (at: Option<MonotonicTime>)
        ensures
            at == (if self@.authority.state.deadlines.len() == 0 {
                None::<MonotonicTime>
            } else {
                Some(self@.authority.state.deadlines[0].at)
            }),
    {
        self.authority.next_deadline()
    }

    /// A frame was read.
    pub fn frame_read(&mut self)
        requires
            old(self)@.wf(),
            old(self)@.inbound.received < at_least_one(old(self)@.config.io_capacity),
        ensures
            final(self)@.wf(),
            final(self)@ == (TaskModel {
                inbound: InboundModel {
                    received: old(self)@.inbound.received + 1,
                    ..old(self)@.inbound
                },
                ..old(self)@
            }),
    {
        self.inbound.frame_received(&self.config);
    }

    /// Deals with an event of the transport.
    fn take_io(&mut self, event: IoEvent) -> (outcome: IoOutcome)
        requires
            old(self)@.wf(),
        ensures
            final(self)@.wf(),
            final(self)@ == old(self)@.with_authority(io_effect(old(self)@.authority, event).0),
            outcome.deliveries@ == io_effect(old(self)@.authority, event).1,
            outcome.event == if old(self)@.config.emit_events {
                io_report(event)
            } else {
                None::<RuntimeEvent>
            },
    {
        let outcome = process_io(&mut self.authority, event, self.config.emit_events);
        self.settle();
        proof {
            preparation_goes_on(
                old(self)@.authority.state,
                self@.authority.state,
                old(self)@.preparing,
            );
        }
        outcome
    }

    /// Nothing more can be read.
    pub fn read_failed(&mut self, error: TransportError) -> (outcome: IoOutcome)
        requires
            old(self)@.wf(),
        ensures
            final(self)@.wf(),
            final(self)@ == old(self)@.with_authority(
                old(self)@.authority.faulted(
                    RuntimeError::Transport(TransportFault::Failed(error)),
                ),
            ),
            outcome.deliveries@ == DeliveriesModel::none(),
            outcome.event == if old(self)@.config.emit_events {
                Some(RuntimeEvent::PumpFailed { pump: PumpName::Read, error })
            } else {
                None::<RuntimeEvent>
            },
    {
        self.take_io(IoEvent::Failed { pump: PumpName::Read, error })
    }

    /// The task fails.
    pub fn fail(&mut self, error: RuntimeError)
        requires
            old(self)@.wf(),
        ensures
            final(self)@.wf(),
            final(self)@ == old(self)@.with_authority(old(self)@.authority.faulted(error)),
    {
        self.authority.fail(error);
        self.settle();
        proof {
            preparation_goes_on(
                old(self)@.authority.state,
                self@.authority.state,
                old(self)@.preparing,
            );
        }
    }

    /// Whoever reads panicked.
    pub fn reader_panicked(&mut self)
        requires
            old(self)@.wf(),
        ensures
            final(self)@.wf(),
            final(self)@ == (TaskModel {
                read_panicked: true,
                ..old(self)@.with_authority(
                    old(self)@.authority.faulted(
                        RuntimeError::Transport(TransportFault::PumpPanicked),
                    ),
                )
            }),
    {
        self.read_panicked = true;
        self.fail(RuntimeError::Transport(TransportFault::PumpPanicked));
    }

    /// Takes up the oldest frame that was read, and gives it its place. Says
    /// whether its messages are to be decoded at all.
    pub fn begin_inbound(&mut self) -> (begun: Result<(u64, bool), RuntimeError>)
        requires
            old(self)@.wf(),
            old(self)@.inbound.may_begin(old(self)@.config),
        ensures
            final(self)@.wf(),
            match old(self)@.inbound.begun() {
                (inbound, Ok(sequence)) => {
                    &&& begun == Ok::<(u64, bool), RuntimeError>(
                        (
                            sequence,
                            old(self)@.config.decode_unsolicited
                                || old(self)@.authority.operations.len() != 0,
                        ),
                    )
                    &&& final(self)@ == (TaskModel { inbound, ..old(self)@ })
                },
                (inbound, Err(error)) => {
                    &&& begun == Err::<(u64, bool), RuntimeError>(error)
                    &&& final(self)@ == (TaskModel {
                        inbound,
                        ..old(self)@.with_authority(old(self)@.authority.faulted(error))
                    })
                },
            },
    {
        let decode = self.inbound.should_decode(&self.config, self.authority.operations_idle());
        match self.inbound.begin(&self.config) {
            Ok(sequence) => Ok((sequence, decode)),
            Err(error) => {
                self.fail(error);
                Err(error)
            },
        }
    }

    /// Deals with the messages of a frame.
    fn take_batch(&mut self, batch: InboundBatch) -> (outcome: BatchOutcome)
        requires
            old(self)@.wf(),
        ensures
            final(self)@.wf(),
            final(self)@ == old(self)@.with_authority(batch_taken(old(self)@.authority, batch).0),
            batch_told(old(self)@.authority, batch, old(self)@.config.emit_events, outcome),
            evolves(old(self)@.authority.state, final(self)@.authority.state),
    {
        let event = if self.config.emit_events {
            Some(RuntimeEvent::InboundFrame { bytes: batch.bytes })
        } else {
            None
        };
        let mut decisions: Vec<MessageDecision> = Vec::new();
        let mut terminals: Vec<TerminalDelivery> = Vec::new();
        match &batch.messages {
            None => {
                self.fail(RuntimeError::Wire(WireFault::DecodeIncoming));
            },
            Some(messages) => {
                let ghost config = self@.config;
                let mut i: usize = 0;
                proof {
                    assert(messages@.take(0) =~= Seq::<ResponseFacts>::empty());
                }
                while i < messages.len()
                    invariant
                        i <= messages@.len(),
                        self@ == (TaskModel { authority: self@.authority, ..old(self)@ }),
                        self@.authority.wf(),
                        evolves(old(self)@.authority.state, self@.authority.state),
                        (self@.authority, decisions@, terminals@) == messages_taken(
                            old(self)@.authority,
                            messages@.take(i as int),
                        ),
                    decreases messages@.len() - i,
                {
                    let ghost reached = self@.authority.state;
                    proof {
                        assert(messages@.take(i + 1).drop_last() =~= messages@.take(i as int));
                    }
                    let outcome = self.authority.take_message(messages[i]);
                    decisions.push(outcome.decision);
                    let mut further = outcome.terminals;
                    terminals.append(&mut further);
                    proof {
                        evolution_is_transitive(
                            old(self)@.authority.state,
                            reached,
                            self@.authority.state,
                        );
                    }
                    i = i + 1;
                }
                proof {
                    assert(messages@.take(i as int) =~= messages@);
                }
                self.settle();
            },
        }
        proof {
            preparation_goes_on(
                old(self)@.authority.state,
                self@.authority.state,
                old(self)@.preparing,
            );
        }
        BatchOutcome { decisions, terminals, event }
    }

    /// A frame was prepared. It and those behind it that wait for nothing
    /// else are dealt with, in the order in which they were read.
    pub fn inbound_prepared(&mut self, sequence: u64, batch: InboundBatch) -> (outcomes: Vec<
        BatchOutcome,
    >)
        requires
            old(self)@.wf(),
            old(self)@.inbound.preparing > 0,
            reserved(old(self)@.inbound.order, sequence),
            old(self)@.inbound.order[place_of(old(self)@.inbound.order, sequence)].value is None,
        ensures
            final(self)@.wf(),
            ({
                let (inbound, ready) = old(self)@.inbound.prepared(sequence, batch);
                &&& final(self)@ == (TaskModel {
                    inbound,
                    ..old(self)@.with_authority(batches_taken(old(self)@.authority, ready))
                })
                &&& outcomes@.len() == ready.len()
                &&& forall|i: int|
                    0 <= i < ready.len() ==> batch_told(
                        batches_taken(old(self)@.authority, ready.take(i)),
                        ready[i],
                        old(self)@.config.emit_events,
                        #[trigger] outcomes@[i],
                    )
            }),
    {
        let mut ready = self.inbound.frame_prepared(sequence, batch);
        let ghost all = ready@;
        let ghost begun = self@;
        let mut outcomes: Vec<BatchOutcome> = Vec::new();
        proof {
            assert(all.take(0) =~= Seq::<InboundBatch>::empty());
            assert(all.skip(0) =~= all);
        }
        while ready.len() > 0
            invariant
                outcomes@.len() <= all.len(),
                ready@ == all.skip(outcomes@.len() as int),
                self@.wf(),
                self@ == begun.with_authority(
                    batches_taken(begun.authority, all.take(outcomes@.len() as int)),
                ),
                forall|i: int|
                    0 <= i < outcomes@.len() ==> batch_told(
                        batches_taken(begun.authority, all.take(i)),
                        all[i],
                        begun.config.emit_events,
                        #[trigger] outcomes@[i],
                    ),
            decreases ready@.len(),
        {
            let ghost done = outcomes@.len() as int;
            let next = ready.remove(0);
            proof {
                assert(next == all[done]);
                assert(ready@ =~= all.skip(done + 1));
                assert(all.take(done + 1).drop_last() =~= all.take(done));
                if next.messages is Some {
                    faults_outlive_messages(self@.authority, next.messages->Some_0@);
                }
            }
            let outcome = self.take_batch(next);
            outcomes.push(outcome);
        }
        proof {
            assert(all.take(outcomes@.len() as int) =~= all);
        }
        outcomes
    }

    /// Admits a frame that its caller sealed itself.
    pub fn submit(
        &mut self,
        payload_bytes: u64,
        credit_charge: u16,
        deadline: Option<MonotonicTime>,
    ) -> (key: Result<RequestKey, RuntimeError>)
        requires
            old(self)@.wf(),
        ensures
            final(self)@.wf(),
            ({
                let (authority, told) = old(self)@.authority.submitted(
                    payload_bytes,
                    credit_charge,
                    deadline,
                );
                &&& final(self)@ == old(self)@.with_authority(authority)
                &&& key == told
            }),
    {
        let key = self.authority.submit(payload_bytes, credit_charge, deadline);
        self.settle();
        proof {
            preparation_goes_on(
                old(self)@.authority.state,
                self@.authority.state,
                old(self)@.preparing,
            );
        }
        key
    }

    /// Takes up an operation. `concurrent` says that its frame is prepared
    /// beside others.
    pub fn take_operation(&mut self, command: OperationAdmission, concurrent: bool) -> (step:
        OperationStep)
        requires
            old(self)@.wf(),
            old(self)@.may_take_operation(),
        ensures
            final(self)@.wf(),
            (final(self)@, step) == old(self)@.operation_taken(command, concurrent),
    {
        let OperationAdmission { operation, deadline, waiter } = command;
        let step = match self.authority.admit_operation(operation, deadline, waiter) {
            OperationDecision::Refused(error) => OperationStep::Refuse(error),
            OperationDecision::Waiting(operation) => {
                self.waiting_operation = Some(OperationAdmission { operation, deadline, waiter });
                OperationStep::Wait
            },
            OperationDecision::Admitted(plan) => {
                if concurrent {
                    proof {
                        let places = self.preparing@;
                        let id = plan.key.message_id;
                        if reserved(places, id) {
                            let i = choose|i: int|
                                0 <= i < places.len() && (#[trigger] places[i]).key == id;
                            assert(old(self)@.authority.state.tracks(
                                RequestKey {
                                    generation: old(self)@.authority.state.generation,
                                    message_id: places[i].key,
                                },
                            ));
                        }
                    }
                    self.preparing.reserve(plan.key.message_id);
                }
                OperationStep::Prepare(plan)
            },
        };
        self.settle();
        proof {
            preparation_goes_on(
                old(self)@.authority.state,
                self@.authority.state,
                old(self)@.preparing,
            );
        }
        step
    }

    /// Tries the operation that waits for credits again, if there is one.
    pub fn retry_operation(&mut self, concurrent: bool) -> (step: Option<OperationStep>)
        requires
            old(self)@.wf(),
        ensures
            final(self)@.wf(),
            match old(self)@.waiting_operation {
                None => step is None && final(self)@ == old(self)@,
                Some(command) => {
                    let idle = TaskModel { waiting_operation: None, ..old(self)@ };
                    let (next, told) = idle.operation_taken(command, concurrent);
                    step == Some(told) && final(self)@ == next
                },
            },
    {
        match self.waiting_operation.take() {
            None => None,
            Some(command) => Some(self.take_operation(command, concurrent)),
        }
    }

    /// Takes up a compound.
    pub fn take_compound(&mut self, command: CompoundAdmission) -> (step: CompoundStep)
        requires
            old(self)@.wf(),
            old(self)@.may_take_compound(),
        ensures
            final(self)@.wf(),
            final(self)@ == old(self)@.compound_taken(command).0,
            match (step, old(self)@.compound_taken(command).1) {
                (CompoundStep::Refuse(told), CompoundVerdict::Refused(error)) => told == error,
                (CompoundStep::Wait, CompoundVerdict::Waiting) => true,
                (CompoundStep::Prepare(told), CompoundVerdict::Admitted(plans)) => told@ == plans,
                _ => false,
            },
    {
        let CompoundAdmission { operations, deadline } = command;
        let step = match self.authority.admit_compound(operations, deadline) {
            CompoundDecision::Refused(error) => CompoundStep::Refuse(error),
            CompoundDecision::Waiting(operations) => {
                self.waiting_compound = Some(CompoundAdmission { operations, deadline });
                CompoundStep::Wait
            },
            CompoundDecision::Admitted(plans) => CompoundStep::Prepare(plans),
        };
        self.settle();
        proof {
            preparation_goes_on(
                old(self)@.authority.state,
                self@.authority.state,
                old(self)@.preparing,
            );
        }
        step
    }

    /// Tries the compound that waits for credits again, if there is one and
    /// no operation is in preparation.
    pub fn retry_compound(&mut self) -> (step: Option<CompoundStep>)
        requires
            old(self)@.wf(),
        ensures
            final(self)@.wf(),
            match old(self)@.waiting_compound {
                None => step is None && final(self)@ == old(self)@,
                Some(command) => if old(self)@.preparing.len() > 0 {
                    step is None && final(self)@ == old(self)@
                } else {
                    let idle = TaskModel { waiting_compound: None, ..old(self)@ };
                    let (next, verdict) = idle.compound_taken(command);
                    &&& final(self)@ == next
                    &&& step matches Some(step)
                    &&& match (step, verdict) {
                        (CompoundStep::Refuse(told), CompoundVerdict::Refused(error)) => told
                            == error,
                        (CompoundStep::Wait, CompoundVerdict::Waiting) => true,
                        (CompoundStep::Prepare(told), CompoundVerdict::Admitted(plans)) => told@
                            == plans,
                        _ => false,
                    }
                },
            },
    {
        if !self.preparing.is_empty() {
            return None;
        }
        match self.waiting_compound.take() {
            None => None,
            Some(command) => Some(self.take_compound(command)),
        }
    }

    /// An operation was prepared on the spot, or could not be.
    pub fn prepared_inline(&mut self, prepared: PreparedOperation) -> (decision: PreparedDecision)
        requires
            old(self)@.wf(),
        ensures
            final(self)@.wf(),
            final(self)@ == old(self)@.with_authority(
                old(self)@.authority.operation_prepared(prepared.key, prepared.prepared).0,
            ),
            preparation_told(old(self)@.authority, prepared, decision),
            evolves(old(self)@.authority.state, final(self)@.authority.state),
    {
        let decision = self.authority.finish_prepared_operation(prepared.key, prepared.prepared);
        self.settle();
        proof {
            preparation_goes_on(
                old(self)@.authority.state,
                self@.authority.state,
                old(self)@.preparing,
            );
        }
        decision
    }

    /// An operation was prepared beside others, or could not be. It and those
    /// behind it that wait for nothing else are queued, in the order of their
    /// admission.
    pub fn operation_prepared(&mut self, prepared: PreparedOperation) -> (decisions: Vec<
        (RequestKey, PreparedDecision),
    >)
        requires
            old(self)@.wf(),
            reserved(old(self)@.preparing, prepared.key.message_id),
            old(self)@.preparing[place_of(
                old(self)@.preparing,
                prepared.key.message_id,
            )].value is None,
        ensures
            final(self)@.wf(),
            ({
                let (next, ready) = old(self)@.prepared(prepared);
                &&& final(self)@ == next
                &&& decisions@.len() == ready.len()
                &&& forall|i: int|
                    0 <= i < ready.len() ==> (#[trigger] decisions@[i]).0 == ready[i].key
                        && preparation_told(
                        preparations_taken(old(self)@.authority, ready.take(i)),
                        ready[i],
                        decisions@[i].1,
                    )
            }),
    {
        let ghost before = self@.preparing;
        let ready = self.preparing.complete(prepared.key.message_id, prepared);
        let ghost begun = self@;
        let ghost all = ready@;
        proof {
            let places = completed(before, prepared.key.message_id, prepared);
            let p = place_of(before, prepared.key.message_id);
            assert(0 <= p < before.len() && before[p].key == prepared.key.message_id);
            let n = ready_prefix(places) as int;
            prefix_is_within(places);
            assert forall|i: int| 0 <= i < begun.preparing.len() implies begun.authority.state.tracks(
                RequestKey {
                    generation: begun.authority.state.generation,
                    message_id: (#[trigger] begun.preparing[i]).key,
                },
            ) by {
                assert(begun.preparing[i].key == before[i + n].key);
            }
        }
        let mut decisions: Vec<(RequestKey, PreparedDecision)> = Vec::new();
        let mut i: usize = 0;
        proof {
            assert(all.take(0) =~= Seq::<PreparedOperation>::empty());
        }
        while i < ready.len()
            invariant
                i <= ready@.len(),
                ready@ == all,
                decisions@.len() == i,
                self@.wf(),
                self@ == begun.with_authority(
                    preparations_taken(begun.authority, all.take(i as int)),
                ),
                forall|k: int|
                    0 <= k < i ==> (#[trigger] decisions@[k]).0 == all[k].key && preparation_told(
                        preparations_taken(begun.authority, all.take(k)),
                        all[k],
                        decisions@[k].1,
                    ),
            decreases ready@.len() - i,
        {
            proof {
                assert(all.take(i + 1).drop_last() =~= all.take(i as int));
            }
            let decision = self.prepared_inline(ready[i]);
            decisions.push((ready[i].key, decision));
            i = i + 1;
        }
        proof {
            assert(all.take(i as int) =~= all);
        }
        decisions
    }

    /// The frame of a compound was prepared, or could not be.
    pub fn compound_prepared(&mut self, keys: Vec<RequestKey>, prepared: bool) -> (decision: Result<
        Vec<Option<MessageOutcome>>,
        RuntimeError,
    >)
        requires
            old(self)@.wf(),
            keys@.len() > 0,
        ensures
            final(self)@.wf(),
            ({
                let (authority, verdict, terminals) = old(self)@.authority.compound_prepared(
                    keys@,
                    prepared,
                );
                &&& final(self)@ == old(self)@.with_authority(authority)
                &&& match (decision, verdict) {
                    (Ok(told), Ok(expected)) => told_in_order(told@, expected) && terminals_of(
                        told@,
                    ) == terminals,
                    (Err(told), Err(expected)) => told == expected,
                    _ => false,
                }
            }),
    {
        let decision = self.authority.finish_prepared_compound(keys, prepared);
        self.settle();
        proof {
            preparation_goes_on(
                old(self)@.authority.state,
                self@.authority.state,
                old(self)@.preparing,
            );
        }
        decision
    }

    /// The next frame to write, if none is being written.
    pub fn dispatch_next(&mut self) -> (key: Option<RequestKey>)
        requires
            old(self)@.wf(),
        ensures
            final(self)@.wf(),
            if old(self)@.write is Some {
                key is None && final(self)@ == old(self)@
            } else {
                let (authority, next) = old(self)@.authority.dispatched();
                &&& key == next
                &&& final(self)@ == (TaskModel {
                    write: match next {
                        Some(key) => Some(ActiveWrite { key, progressed: 0, reported: 0 }),
                        None => None,
                    },
                    ..old(self)@.with_authority(authority)
                })
            },
    {
        if self.write.is_some() {
            return None;
        }
        let key = self.authority.dispatch_next();
        if let Some(key) = key {
            self.write = Some(ActiveWrite::new(key));
        }
        self.settle();
        proof {
            preparation_goes_on(
                old(self)@.authority.state,
                self@.authority.state,
                old(self)@.preparing,
            );
        }
        key
    }

    /// So much of the frame that is being written was written so far. What
    /// the requests do not know of it yet, they are told.
    pub fn write_noted(&mut self, progressed: usize) -> (outcome: Option<IoOutcome>)
        requires
            old(self)@.wf(),
            old(self)@.write matches Some(write) && write.progressed <= progressed,
        ensures
            final(self)@.wf(),
            final(self)@ == old(self)@.written(progressed),
            match old(self)@.untold(progressed) {
                None => outcome is None,
                Some(event) => {
                    &&& outcome matches Some(outcome)
                    &&& outcome.deliveries@ == io_effect(old(self)@.authority, event).1
                    &&& outcome.event == if old(self)@.config.emit_events {
                        io_report(event)
                    } else {
                        None::<RuntimeEvent>
                    }
                },
            },
    {
        match self.write {
            None => None,
            Some(write) => {
                let mut write = write;
                write.observe(progressed - write.progressed);
                let untold = write.report();
                self.write = Some(write);
                match untold {
                    None => None,
                    Some(event) => Some(self.take_io(event)),
                }
            },
        }
    }

    /// The write of a frame ended. What the requests do not know of it yet,
    /// they are told first.
    pub fn write_ended(&mut self, progressed: usize, end: WriteOutcome) -> (outcome: WriteEnded)
        requires
            old(self)@.wf(),
            old(self)@.write matches Some(write) && write.progressed <= progressed,
        ensures
            final(self)@.wf(),
            ({
                let key = old(self)@.write->Some_0.key;
                let written = TaskModel { write: None, ..old(self)@.written(progressed) };
                &&& match old(self)@.untold(progressed) {
                    None => outcome.progress is None,
                    Some(event) => {
                        &&& outcome.progress matches Some(told)
                        &&& told.deliveries@ == io_effect(old(self)@.authority, event).1
                        &&& told.event == if old(self)@.config.emit_events {
                            io_report(event)
                        } else {
                            None::<RuntimeEvent>
                        }
                    },
                }
                &&& match end.event(key) {
                    Some(event) => {
                        &&& final(self)@ == written.with_authority(
                            io_effect(written.authority, event).0,
                        )
                        &&& outcome.end matches Some(told)
                        &&& told.deliveries@ == io_effect(written.authority, event).1
                        &&& told.event == if old(self)@.config.emit_events {
                            io_report(event)
                        } else {
                            None::<RuntimeEvent>
                        }
                    },
                    None => {
                        &&& outcome.end is None
                        &&& final(self)@ == (TaskModel {
                            write_panicked: true,
                            ..written.with_authority(
                                written.authority.faulted(
                                    RuntimeError::Transport(TransportFault::PumpPanicked),
                                ),
                            )
                        })
                    },
                }
            }),
    {
        let progress = self.write_noted(progressed);
        let end = match self.write {
            None => None,
            Some(write) => {
                self.write = None;
                match end {
                    WriteOutcome::Cancelled => Some(self.take_io(write.finished(None))),
                    WriteOutcome::Sent(result) => Some(self.take_io(write.finished(Some(result)))),
                    WriteOutcome::Panicked => {
                        self.write_panicked = true;
                        self.fail(RuntimeError::Transport(TransportFault::PumpPanicked));
                        None
                    },
                }
            },
        };
        WriteEnded { progress, end }
    }

    /// Carries out a control command.
    pub fn handle_control(&mut self, command: ControlCommand) -> (reply: ControlReply)
        requires
            old(self)@.wf(),
        ensures
            final(self)@.wf(),
            controlled(old(self)@.authority, command, final(self)@.authority, reply),
            final(self)@ == old(self)@.with_authority(final(self)@.authority),
    {
        let reply = self.authority.handle_control(command);
        self.settle();
        proof {
            preparation_goes_on(
                old(self)@.authority.state,
                self@.authority.state,
                old(self)@.preparing,
            );
        }
        reply
    }

    /// Carries out a command for the wire pipeline.
    pub fn handle_wire(&mut self, wire: &mut WirePipeline, command: WireCommand) -> (result: Result<
        (),
        RuntimeError,
    >)
        requires
            old(self)@.wf(),
            old(wire).wf(),
        ensures
            final(self)@.wf(),
            final(wire).wf(),
            wire_commanded(
                old(self)@.authority,
                old(wire)@,
                command,
                final(self)@.authority,
                final(wire)@,
                result,
            ),
            final(self)@ == old(self)@.with_authority(final(self)@.authority),
    {
        let result = handle_wire_command(&mut self.authority, wire, command);
        self.settle();
        proof {
            preparation_goes_on(
                old(self)@.authority.state,
                self@.authority.state,
                old(self)@.preparing,
            );
        }
        result
    }

    /// The digest over the transcript of the wire pipeline as it stands, for
    /// the keys of a session. Whoever computes the hash says whether it could be
    /// brought to its end.
    pub fn preauth_snapshot(&self, wire: &WirePipeline, finished: bool) -> (digest: Result<
        Option<Vec<u8>>,
        RuntimeError,
    >)
        ensures
            match digest {
                Ok(digest) => finished && digest_view(digest) == wire@.transcript,
                Err(error) => !finished && error == RuntimeError::Wire(WireFault::PreauthSnapshot),
            },
    {
        match wire.snapshot_preauth_finalized(finished) {
            Ok(digest) => Ok(digest),
            Err(_) => Err(RuntimeError::Wire(WireFault::PreauthSnapshot)),
        }
    }

    /// The clock reached a deadline.
    pub fn advance_time(&mut self, now: MonotonicTime) -> (deliveries: Deliveries)
        requires
            old(self)@.wf(),
        ensures
            final(self)@.wf(),
            ({
                let (authority, told) = old(self)@.authority.time_advanced(now);
                &&& final(self)@ == old(self)@.with_authority(authority)
                &&& deliveries@ == told
            }),
    {
        let deliveries = self.authority.advance_time(now);
        self.settle();
        proof {
            preparation_goes_on(
                old(self)@.authority.state,
                self@.authority.state,
                old(self)@.preparing,
            );
        }
        deliveries
    }

    /// Ends the task: its lanes close, and everyone who waits is settled.
    pub fn shut_down(&mut self) -> (end: TaskEnd)
        requires
            old(self)@.wf(),
        ensures
            final(self)@.wf(),
            end.waiting_operation == old(self)@.waiting_operation,
            end.waiting_compound == old(self)@.waiting_compound,
            ({
                let (next, deliveries) = old(self)@.authority.shut_down();
                &&& end.plan.deliveries@ == deliveries
                &&& end.plan.failed_terminals@ == next.terminals
                &&& end.plan.failed_operations@ == AuthorityModel::left_waiting(next.operations)
                &&& end.plan.error == next.final_error()
                &&& end.plan.dropped_frames@ == next.frames.queue.map_values(
                    |frame: FrameModel| frame.key,
                )
                &&& end.plan.signal_active == next.frames.active is Some
                &&& final(self)@ == (TaskModel {
                    authority: AuthorityModel {
                        terminals: Seq::empty(),
                        operations: Seq::empty(),
                        frames: FramesModel { queue: Seq::empty(), ..next.frames },
                        ..next
                    },
                    waiting_operation: None,
                    waiting_compound: None,
                    open: false,
                    ..old(self)@
                })
            }),
    {
        self.open = false;
        let waiting_operation = self.waiting_operation.take();
        let waiting_compound = self.waiting_compound.take();
        let plan = self.authority.shut_down();
        proof {
            preparation_goes_on(
                old(self)@.authority.state,
                self@.authority.state,
                old(self)@.preparing,
            );
        }
        TaskEnd { plan, waiting_operation, waiting_compound }
    }

    /// How the generation ended. `last` says what became of the frame that
    /// was being written.
    pub fn exit(&self, last: LastWrite) -> (exit: GenerationExit)
        ensures
            exit.generation == self@.authority.state.generation,
            exit.cause == if self@.authority.close_deadline is Some {
                GenerationExitCause::ExplicitClose
            } else {
                match self@.authority.fatal {
                    Some(error) => GenerationExitCause::Transport(error),
                    None => GenerationExitCause::HandlesDropped,
                }
            },
            exit.report.timed_out == (!self@.write_panicked && last == LastWrite::DeadlinePassed),
            exit.report.unresolved_requests == total(
                self@.authority.state.requests,
                open_caller_weight(),
            ),
            exit.report.joined_tasks == (if self@.read_panicked {
                0int
            } else {
                1
            }) + (if !self@.write_panicked && (last == LastWrite::Idle || last
                == LastWrite::Ended) {
                1int
            } else {
                0
            }),
            exit.report.joined_tasks + exit.report.failed_tasks == 2,
    {
        self.authority.exit(self.read_panicked, write_end(self.write_panicked, last))
    }
}

proof fn prefix_is_within<V>(places: Seq<Reservation<V>>)
    ensures
        ready_prefix(places) <= places.len(),
    decreases places.len(),
{
    if places.len() > 0 && places[0].value is Some {
        prefix_is_within(places.drop_first());
    }
}

proof fn faults_outlive_cancellations(
    authority: AuthorityModel,
    keys: Seq<RequestKey>,
    now: MonotonicTime,
)
    ensures
        stops(authority) ==> stops(authority.cancelled_all(keys, now).0),
    decreases keys.len(),
{
    if keys.len() > 0 {
        faults_outlive_cancellations(authority, keys.drop_last(), now);
    }
}

/// A task that must stop goes on to do so, whatever happens to it.
pub proof fn faults_are_final(
    authority: AuthorityModel,
    event: IoEvent,
    batch: InboundBatch,
    command: OperationAdmission,
    compound: CompoundAdmission,
    prepared: PreparedOperation,
    now: MonotonicTime,
)
    requires
        stops(authority),
    ensures
        stops(io_effect(authority, event).0),
        stops(batch_taken(authority, batch).0),
        stops(
            authority.operation_admitted(command.operation, command.deadline, command.waiter).0,
        ),
        stops(authority.compound_admitted(compound.operations@, compound.deadline).0),
        stops(authority.operation_prepared(prepared.key, prepared.prepared).0),
        stops(authority.time_advanced(now).0),
        stops(authority.dispatched().0),
{
    if let IoEvent::WriteCancelled(key) = event {
        let at = match authority.frames.deferred_for(key) {
            Some(at) => at,
            None => MonotonicTime::origin(),
        };
        faults_outlive_cancellations(
            AuthorityModel { frames: authority.frames.released(key), ..authority },
            authority.frames.members_of(key),
            at,
        );
    }
    if batch.messages is Some {
        faults_outlive_messages(authority, batch.messages->Some_0@);
    }
}

/// Lanes that were closed stay closed.
pub proof fn lanes_never_reopen(
    task: TaskModel,
    authority: AuthorityModel,
    command: OperationAdmission,
    concurrent: bool,
    compound: CompoundAdmission,
    prepared: PreparedOperation,
    progressed: usize,
)
    requires
        !task.open,
    ensures
        !task.with_authority(authority).open,
        !task.operation_taken(command, concurrent).0.open,
        !task.compound_taken(compound).0.open,
        !task.prepared(prepared).0.open,
        !task.written(progressed).open,
{
}

/// Nothing is taken up while an operation or a compound waits for credits,
/// and what is taken up where nothing waits is the only one that does then.
pub proof fn nothing_overtakes_what_waits(
    task: TaskModel,
    command: OperationAdmission,
    concurrent: bool,
    compound: CompoundAdmission,
)
    requires
        task.wf(),
    ensures
        task.waiting_operation is Some || task.waiting_compound is Some ==> {
            &&& !task.may_take_operation()
            &&& !task.may_take_compound()
        },
        task.may_take_operation() ==> {
            let (next, step) = task.operation_taken(command, concurrent);
            &&& next.waiting_compound is None
            &&& (step == OperationStep::Wait) == (next.waiting_operation == Some(command))
        },
        task.may_take_compound() ==> {
            let (next, verdict) = task.compound_taken(compound);
            &&& next.waiting_operation is None
            &&& (verdict == CompoundVerdict::Waiting) == (next.waiting_compound == Some(compound))
        },
{
}

/// Operations that are prepared beside each other are queued in the order of
/// their admission: those that are released stood before all that stay.
pub proof fn operations_keep_their_order(
    task: TaskModel,
    prepared: PreparedOperation,
    i: int,
    j: int,
)
    requires
        task.wf(),
        reserved(task.preparing, prepared.key.message_id),
        0 <= i < task.prepared(prepared).1.len(),
        0 <= j < task.prepared(prepared).0.preparing.len(),
    ensures
        ({
            let places = completed(task.preparing, prepared.key.message_id, prepared);
            let n = task.prepared(prepared).1.len();
            &&& n <= places.len() == task.preparing.len()
            &&& places[i].value == Some(task.prepared(prepared).1[i])
            &&& task.prepared(prepared).0.preparing[j] == places[n + j]
            &&& places[i].key == task.preparing[i].key
            &&& places[n + j].key == task.preparing[n + j].key
        }),
{
    let places = completed(task.preparing, prepared.key.message_id, prepared);
    prefix_is_within(places);
    ready_ones_are_prepared(places, i);
    let p = place_of(task.preparing, prepared.key.message_id);
    assert(0 <= p < task.preparing.len() && task.preparing[p].key == prepared.key.message_id);
}

proof fn ready_ones_are_prepared<V>(places: Seq<Reservation<V>>, i: int)
    requires
        0 <= i < ready_prefix(places),
    ensures
        ready_prefix(places) <= places.len(),
        places[i].value is Some,
    decreases places.len(),
{
    prefix_is_within(places);
    if i > 0 {
        ready_ones_are_prepared(places.drop_first(), i - 1);
    }
}

} // verus!
