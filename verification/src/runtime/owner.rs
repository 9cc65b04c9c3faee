//! The turn of the task that owns a generation: which lanes it may serve,
//! how frames pass through preparation in their order, and what each event
//! of the transport means to the requests.

use crate::clock::Duration;
use crate::runtime::authority_model::{AuthorityModel, DeliveriesModel};
use crate::runtime::crypto_executor::recommended_parallelism;
use crate::runtime::engine::{state_evolves_to_itself, Deliveries, RequestAuthority, WriteEnd};
use crate::runtime::error::{
    CloseReport, GenerationExit, GenerationExitCause, PumpName, RuntimeError, RuntimeEvent,
    TransportError, TransportFault, WireFault,
};
use crate::runtime::generation_laws::evolves;
use crate::runtime::preparation_order::{
    completed, place_of, ready_prefix, reserved, values, OrderedCompletionQueue, Reservation,
};
use crate::runtime::reducer::{GenerationId, RequestKey};
use crate::runtime::state::AdmissionLimits;
use crate::runtime::wire::{digest_view, WireModel, WirePipeline};
use vstd::prelude::*;

verus! {

/// How the runtime of a generation is set up.
#[derive(Clone, Copy, Debug, PartialEq, Eq, Structural)]
pub struct RuntimeConfig {
    pub generation: GenerationId,
    pub initial_message_id: u64,
    pub initial_credits: u32,
    pub target_credits: u32,
    pub admission_limits: AdmissionLimits,
    pub tombstone_drain_timeout: Duration,
    pub admission_capacity: usize,
    pub io_capacity: usize,
    pub control_capacity: usize,
    pub event_capacity: usize,
    pub control_batch: usize,
    pub maximum_frame_size: usize,
    pub emit_events: bool,
    pub decode_unsolicited: bool,
    pub crypto_parallelism: usize,
}

pub open spec fn at_least_one(n: usize) -> usize {
    if n == 0 {
        1
    } else {
        n
    }
}

fn one_or_more(n: usize) -> (m: usize)
    ensures
        m == at_least_one(n),
        m >= 1,
{
    if n == 0 {
        1
    } else {
        n
    }
}

impl RuntimeConfig {
    /// The configuration that production uses, on a machine that offers
    /// `available_threads`.
    pub fn production(
        generation: GenerationId,
        initial_message_id: u64,
        initial_credits: u32,
        target_credits: u32,
        timeout: Duration,
        maximum_frame_size: usize,
        available_threads: Option<usize>,
    ) -> (config: Self)
        ensures
            config == (RuntimeConfig {
                generation,
                initial_message_id,
                initial_credits,
                target_credits,
                admission_limits: AdmissionLimits {
                    max_operations: 1024,
                    max_payload_bytes: 268_435_456,
                },
                tombstone_drain_timeout: timeout,
                admission_capacity: 1024,
                io_capacity: 1024,
                control_capacity: 256,
                event_capacity: 1,
                control_batch: 16,
                maximum_frame_size,
                emit_events: false,
                decode_unsolicited: true,
                crypto_parallelism: config.crypto_parallelism,
            }),
            config.crypto_parallelism == (match available_threads {
                Some(threads) => if threads < 4 {
                    threads
                } else {
                    4
                },
                None => 1,
            }),
    {
        RuntimeConfig {
            generation,
            initial_message_id,
            initial_credits,
            target_credits,
            admission_limits: AdmissionLimits {
                max_operations: 1024,
                max_payload_bytes: 268_435_456,
            },
            tombstone_drain_timeout: timeout,
            admission_capacity: 1024,
            io_capacity: 1024,
            control_capacity: 256,
            event_capacity: 1,
            control_batch: 16,
            maximum_frame_size,
            emit_events: false,
            decode_unsolicited: true,
            crypto_parallelism: recommended_parallelism(available_threads),
        }
    }

    /// How many control commands are served in one turn.
    pub fn control_turn(&self) -> (commands: usize)
        ensures
            commands == at_least_one(self.control_batch),
    {
        one_or_more(self.control_batch)
    }
}

/// Why a lane did not take what was sent to it.
#[derive(Clone, Copy, Debug, PartialEq, Eq, Structural)]
pub enum LaneRefusal {
    Full,
    Closed,
}

/// What a caller is told whose admission a lane did not take.
pub fn admission_refused(refusal: LaneRefusal) -> (error: RuntimeError)
    ensures
        error == (match refusal {
            LaneRefusal::Full => RuntimeError::AdmissionBackpressure,
            LaneRefusal::Closed => RuntimeError::Closed,
        }),
{
    match refusal {
        LaneRefusal::Full => RuntimeError::AdmissionBackpressure,
        LaneRefusal::Closed => RuntimeError::Closed,
    }
}

/// What a caller is told whose control command a lane did not take.
pub fn control_refused(refusal: LaneRefusal) -> (error: RuntimeError)
    ensures
        error == (match refusal {
            LaneRefusal::Full => RuntimeError::ControlBackpressure,
            LaneRefusal::Closed => RuntimeError::Closed,
        }),
{
    match refusal {
        LaneRefusal::Full => RuntimeError::ControlBackpressure,
        LaneRefusal::Closed => RuntimeError::Closed,
    }
}

/// How a generation is said to have ended whose owner never said so.
pub fn vanished(generation: GenerationId) -> (exit: GenerationExit)
    ensures
        exit == (GenerationExit {
            generation,
            cause: GenerationExitCause::Transport(RuntimeError::OwnerTerminated),
            report: CloseReport {
                timed_out: false,
                unresolved_requests: 0,
                joined_tasks: 0,
                failed_tasks: 1,
            },
        }),
{
    GenerationExit {
        generation,
        cause: GenerationExitCause::Transport(RuntimeError::OwnerTerminated),
        report: CloseReport {
            timed_out: false,
            unresolved_requests: 0,
            joined_tasks: 0,
            failed_tasks: 1,
        },
    }
}

/// How a generation ended whose transport could not be split in two.
pub fn never_started(generation: GenerationId) -> (exit: GenerationExit)
    ensures
        exit == (GenerationExit {
            generation,
            cause: GenerationExitCause::Transport(RuntimeError::Transport(TransportFault::Split)),
            report: CloseReport {
                timed_out: false,
                unresolved_requests: 0,
                joined_tasks: 0,
                failed_tasks: 0,
            },
        }),
{
    GenerationExit {
        generation,
        cause: GenerationExitCause::Transport(RuntimeError::Transport(TransportFault::Split)),
        report: CloseReport {
            timed_out: false,
            unresolved_requests: 0,
            joined_tasks: 0,
            failed_tasks: 0,
        },
    }
}

#[verifier::ext_equal]
#[verifier::reject_recursive_types(V)]
pub struct InboundModel<V> {
    /// Frames that were read and wait to be prepared.
    pub received: nat,
    /// Frames that are being prepared.
    pub preparing: nat,
    pub next_sequence: u64,
    /// The places of the frames that were taken up, in their order.
    pub order: Seq<Reservation<V>>,
}

impl<V> InboundModel<V> {
    pub open spec fn wf(self) -> bool {
        &&& forall|i: int, j: int|
            0 <= i < j < self.order.len() ==> (#[trigger] self.order[i]).key < (
            #[trigger] self.order[j]).key
        &&& forall|i: int|
            0 <= i < self.order.len() ==> (#[trigger] self.order[i]).key < self.next_sequence
        &&& self.order.len() > 0 ==> self.order[0].value is None
    }

    /// Whether another frame may be read: frames that nobody asked for are
    /// not read ahead of an operation that waits to be taken up, unless they
    /// are decoded anyway.
    pub open spec fn may_read(
        self,
        config: RuntimeConfig,
        operations_idle: bool,
        lanes_idle: bool,
    ) -> bool {
        &&& self.received < at_least_one(config.io_capacity)
        &&& config.decode_unsolicited || !operations_idle || lanes_idle
    }

    pub open spec fn may_begin(self, config: RuntimeConfig) -> bool {
        self.received > 0 && self.preparing < at_least_one(config.crypto_parallelism)
    }

    /// The oldest frame that waits is taken up.
    pub open spec fn begun(self) -> (Self, Result<u64, RuntimeError>) {
        if self.next_sequence == u64::MAX {
            (
                InboundModel { received: (self.received - 1) as nat, ..self },
                Err(RuntimeError::Wire(WireFault::InboundSequenceExhausted)),
            )
        } else {
            (
                InboundModel {
                    received: (self.received - 1) as nat,
                    preparing: self.preparing + 1,
                    next_sequence: (self.next_sequence + 1) as u64,
                    order: self.order.push(Reservation { key: self.next_sequence, value: None }),
                },
                Ok(self.next_sequence),
            )
        }
    }

    /// A frame was prepared: it and those behind it that wait for nothing
    /// else are released.
    pub open spec fn prepared(self, sequence: u64, value: V) -> (Self, Seq<V>) {
        let places = completed(self.order, sequence, value);
        let n = ready_prefix(places);
        (
            InboundModel {
                preparing: (self.preparing - 1) as nat,
                order: places.skip(n as int),
                ..self
            },
            values(places, n),
        )
    }
}

/// The frames between the transport and the requests.
pub struct InboundLane<V> {
    received: usize,
    preparing: usize,
    next_sequence: u64,
    order: OrderedCompletionQueue<V>,
}

impl<V> View for InboundLane<V> {
    type V = InboundModel<V>;

    closed spec fn view(&self) -> InboundModel<V> {
        InboundModel {
            received: self.received as nat,
            preparing: self.preparing as nat,
            next_sequence: self.next_sequence,
            order: self.order@,
        }
    }
}

impl<V> InboundLane<V> {
    pub fn new() -> (lane: Self)
        ensures
            lane@ == (InboundModel::<V> {
                received: 0,
                preparing: 0,
                next_sequence: 0,
                order: Seq::empty(),
            }),
            lane@.wf(),
    {
        InboundLane {
            received: 0,
            preparing: 0,
            next_sequence: 0,
            order: OrderedCompletionQueue::default(),
        }
    }

    /// Whether another frame may be read.
    pub fn may_read(&self, config: &RuntimeConfig, operations_idle: bool, lanes_idle: bool) -> (may:
        bool)
        ensures
            may == self@.may_read(*config, operations_idle, lanes_idle),
    {
        self.received < one_or_more(config.io_capacity) && (config.decode_unsolicited
            || !operations_idle || lanes_idle)
    }

    /// A frame was read.
    pub fn frame_received(&mut self, config: &RuntimeConfig)
        requires
            old(self)@.wf(),
            old(self)@.received < at_least_one(config.io_capacity),
        ensures
            final(self)@.wf(),
            final(self)@ == (InboundModel { received: old(self)@.received + 1, ..old(self)@ }),
            final(self)@.received <= at_least_one(config.io_capacity),
    {
        self.received = self.received + 1;
    }

    /// Whether a frame that waits may be taken up.
    pub fn may_begin(&self, config: &RuntimeConfig) -> (may: bool)
        ensures
            may == self@.may_begin(*config),
    {
        self.received > 0 && self.preparing < one_or_more(config.crypto_parallelism)
    }

    /// Takes up the oldest frame that waits, and gives it its place.
    pub fn begin(&mut self, config: &RuntimeConfig) -> (sequence: Result<u64, RuntimeError>)
        requires
            old(self)@.wf(),
            old(self)@.may_begin(*config),
        ensures
            final(self)@.wf(),
            (final(self)@, sequence) == old(self)@.begun(),
            final(self)@.preparing <= at_least_one(config.crypto_parallelism),
    {
        self.received = self.received - 1;
        let sequence: u64 = self.next_sequence;
        if sequence == u64::MAX {
            return Err(RuntimeError::Wire(WireFault::InboundSequenceExhausted));
        }
        self.next_sequence = sequence + 1;
        self.preparing = self.preparing + 1;
        proof {
            let order = self.order@;
            assert(order == old(self)@.order);
            if reserved(order, sequence) {
                let i = choose|i: int| 0 <= i < order.len() && (#[trigger] order[i]).key == sequence;
                assert(order[i].key < sequence);
            }
        }
        self.order.reserve(sequence);
        Ok(sequence)
    }

    /// Whether the messages of a frame are read at all.
    pub fn should_decode(&self, config: &RuntimeConfig, operations_idle: bool) -> (decode: bool)
        ensures
            decode == (config.decode_unsolicited || !operations_idle),
    {
        config.decode_unsolicited || !operations_idle
    }

    /// A frame was prepared. Those that may be dealt with now come out, in
    /// the order in which they were read.
    pub fn frame_prepared(&mut self, sequence: u64, value: V) -> (ready: Vec<V>)
        requires
            old(self)@.wf(),
            old(self)@.preparing > 0,
            reserved(old(self)@.order, sequence),
            old(self)@.order[place_of(old(self)@.order, sequence)].value is None,
        ensures
            final(self)@.wf(),
            (final(self)@, ready@) == old(self)@.prepared(sequence, value),
    {
        self.preparing = self.preparing - 1;
        let ready = self.order.complete(sequence, value);
        proof {
            let before = old(self)@.order;
            let places = completed(before, sequence, value);
            let n = ready_prefix(places) as int;
            prefix_is_within(places);
            let p = place_of(before, sequence);
            assert(0 <= p < before.len() && before[p].key == sequence);
            assert forall|i: int, j: int| 0 <= i < j < self@.order.len() implies (
            #[trigger] self@.order[i]).key < (#[trigger] self@.order[j]).key by {
                assert(self@.order[i].key == before[i + n].key);
                assert(self@.order[j].key == before[j + n].key);
            }
            assert forall|i: int| 0 <= i < self@.order.len() implies (
            #[trigger] self@.order[i]).key < self@.next_sequence by {
                assert(self@.order[i].key == before[i + n].key);
            }
        }
        ready
    }
}

proof fn prefix_is_within<V>(places: Seq<Reservation<V>>)
    ensures
        ready_prefix(places) <= places.len(),
    decreases places.len(),
{
    if places.len() > 0 && places[0].value is Some {
        prefix_is_within(places.drop_first());
    }
}

/// Frames are dealt with in the order in which they were read: what comes
/// out stood before all that stays.
pub proof fn frames_keep_their_order<V>(lane: InboundModel<V>, sequence: u64, value: V, i: int, j: int)
    requires
        lane.wf(),
        reserved(lane.order, sequence),
        0 <= i < lane.prepared(sequence, value).1.len(),
        0 <= j < lane.prepared(sequence, value).0.order.len(),
    ensures
        ({
            let places = completed(lane.order, sequence, value);
            &&& places[i].key < lane.prepared(sequence, value).0.order[j].key
            &&& lane.prepared(sequence, value).1[i] == places[i].value.unwrap()
        }),
{
    let places = completed(lane.order, sequence, value);
    let n = ready_prefix(places) as int;
    prefix_is_within(places);
    let p = place_of(lane.order, sequence);
    assert(0 <= p < lane.order.len() && lane.order[p].key == sequence);
    assert(places[i].key == lane.order[i].key);
    assert(places[j + n].key == lane.order[j + n].key);
}

/// Each frame that is taken up has a place of its own, behind all others.
pub proof fn frames_have_places_of_their_own<V>(lane: InboundModel<V>, i: int)
    requires
        lane.wf(),
        lane.begun().1 is Ok,
        0 <= i < lane.order.len(),
    ensures
        lane.order[i].key < lane.begun().1->Ok_0,
        lane.begun().0.order.last().key == lane.begun().1->Ok_0,
{
}

/// What the transport says.
#[derive(Clone, Copy, Debug, PartialEq, Eq, Structural)]
pub enum IoEvent {
    WriteCancelled(RequestKey),
    WriteProgress { key: RequestKey, bytes: usize },
    WriteComplete(RequestKey),
    Failed { pump: PumpName, error: TransportError },
    Exited(PumpName),
}

/// What follows from an event of the transport.
#[derive(Debug)]
pub struct IoOutcome {
    pub deliveries: Deliveries,
    /// What an observer is told.
    pub event: Option<RuntimeEvent>,
}

/// What an event of the transport does to the requests.
pub open spec fn io_effect(authority: AuthorityModel, event: IoEvent) -> (
    AuthorityModel,
    DeliveriesModel,
) {
    match event {
        IoEvent::WriteCancelled(key) => authority.write_cancelled(key),
        IoEvent::WriteProgress { key, bytes } => authority.write_progressed(key, bytes),
        IoEvent::WriteComplete(key) => authority.write_completed(key),
        IoEvent::Failed { pump, error } => (
            authority.faulted(RuntimeError::Transport(TransportFault::Failed(error))),
            DeliveriesModel::none(),
        ),
        IoEvent::Exited(pump) => (authority, DeliveriesModel::none()),
    }
}

/// What an observer is told of an event of the transport.
pub open spec fn io_report(event: IoEvent) -> Option<RuntimeEvent> {
    match event {
        IoEvent::WriteCancelled(key) => None,
        IoEvent::WriteProgress { key, bytes } => Some(RuntimeEvent::WriteProgress { key, bytes }),
        IoEvent::WriteComplete(key) => Some(RuntimeEvent::WriteComplete { key }),
        IoEvent::Failed { pump, error } => Some(RuntimeEvent::PumpFailed { pump, error }),
        IoEvent::Exited(pump) => Some(RuntimeEvent::PumpExited { pump }),
    }
}

/// Deals with an event of the transport.
pub fn process_io(authority: &mut RequestAuthority, event: IoEvent, emit_events: bool) -> (outcome:
    IoOutcome)
    requires
        old(authority)@.wf(),
    ensures
        final(authority)@.wf(),
        evolves(old(authority)@.state, final(authority)@.state),
        (final(authority)@, outcome.deliveries@) == io_effect(old(authority)@, event),
        outcome.event == if emit_events {
            io_report(event)
        } else {
            None::<RuntimeEvent>
        },
{
    let (deliveries, report) = match event {
        IoEvent::WriteCancelled(key) => (authority.write_cancelled(key), None),
        IoEvent::WriteProgress { key, bytes } => (
            authority.write_progress(key, bytes),
            Some(RuntimeEvent::WriteProgress { key, bytes }),
        ),
        IoEvent::WriteComplete(key) => (
            authority.write_complete(key),
            Some(RuntimeEvent::WriteComplete { key }),
        ),
        IoEvent::Failed { pump, error } => {
            authority.transport_failed(error);
            (Deliveries::none(), Some(RuntimeEvent::PumpFailed { pump, error }))
        },
        IoEvent::Exited(pump) => (Deliveries::none(), Some(RuntimeEvent::PumpExited { pump })),
    };
    IoOutcome {
        deliveries,
        event: if emit_events {
            report
        } else {
            None
        },
    }
}

/// What can be asked of the wire pipeline through the owner.
#[derive(Debug, PartialEq, Eq)]
pub enum WireCommand {
    ResetPreauthToNegotiate,
    Negotiated {
        large_mtu: bool,
        dialect_compresses: bool,
        compression_enabled: bool,
        compression_agreed: bool,
        transcript: Option<Vec<u8>>,
    },
    SessionStarted { session_id: u64 },
    SessionEnded { session_id: u64 },
}

/// What a command for the wire pipeline does and answers. A negotiation also
/// tells the requests how many credits to aim for, whatever the pipeline says.
pub open spec fn wire_commanded(
    before: AuthorityModel,
    wire: WireModel,
    command: WireCommand,
    after: AuthorityModel,
    wire_after: WireModel,
    result: Result<(), RuntimeError>,
) -> bool {
    match command {
        WireCommand::ResetPreauthToNegotiate => {
            &&& after == before
            &&& wire.negotiated ==> result is Ok && wire_after == wire.reset()
            &&& !wire.negotiated ==> result == Err::<(), RuntimeError>(
                RuntimeError::Wire(WireFault::PreauthReset),
            ) && wire_after == wire
        },
        WireCommand::Negotiated {
            large_mtu,
            dialect_compresses,
            compression_enabled,
            compression_agreed,
            transcript,
        } => {
            &&& after == before.negotiated(large_mtu)
            &&& wire.negotiated ==> result == Err::<(), RuntimeError>(
                RuntimeError::Wire(WireFault::NegotiatedPolicy),
            ) && wire_after == wire
            &&& !wire.negotiated ==> result is Ok && wire_after == (WireModel {
                negotiated: true,
                compression: if dialect_compresses && compression_enabled {
                    compression_agreed
                } else {
                    wire.compression
                },
                transcript: digest_view(transcript),
                negotiation: digest_view(transcript),
                ..wire
            })
        },
        WireCommand::SessionStarted { session_id } => {
            &&& after == before
            &&& wire.negotiated ==> result is Ok && wire_after == (WireModel {
                sessions: wire.sessions.insert(session_id),
                ..wire
            })
            &&& !wire.negotiated ==> result == Err::<(), RuntimeError>(
                RuntimeError::Wire(WireFault::SessionStartedPolicy),
            ) && wire_after == wire
        },
        WireCommand::SessionEnded { session_id } => {
            &&& after == before
            &&& wire_after == (WireModel {
                sessions: wire.sessions.remove(session_id),
                ..wire
            })
            &&& result == (if wire.sessions.contains(session_id) {
                Ok::<(), RuntimeError>(())
            } else {
                Err(RuntimeError::Wire(WireFault::SessionEndedPolicy))
            })
        },
    }
}

/// Carries out a command for the wire pipeline.
pub fn handle_wire_command(
    authority: &mut RequestAuthority,
    wire: &mut WirePipeline,
    command: WireCommand,
) -> (result: Result<(), RuntimeError>)
    requires
        old(authority)@.wf(),
        old(wire).wf(),
    ensures
        final(authority)@.wf(),
        final(wire).wf(),
        wire_commanded(
            old(authority)@,
            old(wire)@,
            command,
            final(authority)@,
            final(wire)@,
            result,
        ),
        evolves(old(authority)@.state, final(authority)@.state),
{
    proof {
        state_evolves_to_itself(authority@.state);
    }
    match command {
        WireCommand::ResetPreauthToNegotiate => match wire.reset_preauth_to_negotiate() {
            Ok(_) => Ok(()),
            Err(_) => Err(RuntimeError::Wire(WireFault::PreauthReset)),
        },
        WireCommand::Negotiated {
            large_mtu,
            dialect_compresses,
            compression_enabled,
            compression_agreed,
            transcript,
        } => {
            authority.negotiated(large_mtu);
            match wire.negotiated(
                dialect_compresses,
                compression_enabled,
                compression_agreed,
                transcript,
            ) {
                Ok(_) => Ok(()),
                Err(_) => Err(RuntimeError::Wire(WireFault::NegotiatedPolicy)),
            }
        },
        WireCommand::SessionStarted { session_id } => match wire.session_started(session_id) {
            Ok(_) => Ok(()),
            Err(_) => Err(RuntimeError::Wire(WireFault::SessionStartedPolicy)),
        },
        WireCommand::SessionEnded { session_id } => match wire.session_ended(session_id) {
            Ok(_) => Ok(()),
            Err(_) => Err(RuntimeError::Wire(WireFault::SessionEndedPolicy)),
        },
    }
}

/// How the write of a frame goes on after its cancellation.
#[derive(Clone, Copy, Debug, PartialEq, Eq, Structural)]
pub enum CancelledWrite {
    /// Not a byte was written: it is given up.
    GiveUp,
    /// It is written to its end.
    Finish,
}

/// How the write of the last frame ended.
#[derive(Clone, Copy, Debug, PartialEq, Eq, Structural)]
pub enum LastWrite {
    /// No frame was being written.
    Idle,
    Ended,
    Panicked,
    /// The deadline of the close came first.
    DeadlinePassed,
}

/// How the write side of a generation ended.
pub fn write_end(panicked_before: bool, last: LastWrite) -> (end: WriteEnd)
    ensures
        end == (if panicked_before {
            WriteEnd::Panicked
        } else {
            match last {
                LastWrite::Idle => WriteEnd::Joined,
                LastWrite::Ended => WriteEnd::Joined,
                LastWrite::Panicked => WriteEnd::Panicked,
                LastWrite::DeadlinePassed => WriteEnd::TimedOut,
            }
        }),
{
    if panicked_before {
        return WriteEnd::Panicked;
    }
    match last {
        LastWrite::Idle => WriteEnd::Joined,
        LastWrite::Ended => WriteEnd::Joined,
        LastWrite::Panicked => WriteEnd::Panicked,
        LastWrite::DeadlinePassed => WriteEnd::TimedOut,
    }
}

/// How far a frame was written, and how much of that the requests know.
#[derive(Clone, Copy, Debug, PartialEq, Eq, Structural)]
pub struct ActiveWrite {
    pub key: RequestKey,
    pub progressed: usize,
    pub reported: usize,
}

impl ActiveWrite {
    /// No more is reported than was written.
    pub open spec fn wf(self) -> bool {
        self.reported <= self.progressed
    }

    pub fn new(key: RequestKey) -> (write: Self)
        ensures
            write == (ActiveWrite { key, progressed: 0, reported: 0 }),
            write.wf(),
    {
        ActiveWrite { key, progressed: 0, reported: 0 }
    }

    /// The transport wrote some bytes.
    pub fn observe(&mut self, bytes: usize)
        requires
            old(self).wf(),
            old(self).progressed + bytes <= usize::MAX,
        ensures
            final(self).wf(),
            *final(self) == (ActiveWrite {
                progressed: (old(self).progressed + bytes) as usize,
                ..*old(self)
            }),
    {
        self.progressed = self.progressed + bytes;
    }

    /// What the requests do not know yet, if anything; they know it now.
    pub fn report(&mut self) -> (event: Option<IoEvent>)
        requires
            old(self).wf(),
        ensures
            final(self).wf(),
            *final(self) == (ActiveWrite { reported: old(self).progressed, ..*old(self) }),
            event == if old(self).progressed > old(self).reported {
                Some(
                    IoEvent::WriteProgress {
                        key: old(self).key,
                        bytes: (old(self).progressed - old(self).reported) as usize,
                    },
                )
            } else {
                None::<IoEvent>
            },
    {
        let bytes: usize = self.progressed - self.reported;
        self.reported = self.progressed;
        if bytes > 0 {
            Some(IoEvent::WriteProgress { key: self.key, bytes })
        } else {
            None
        }
    }

    /// What becomes of the write when it is cancelled.
    pub fn cancelled(&self) -> (next: CancelledWrite)
        ensures
            next == (if self.progressed == 0 {
                CancelledWrite::GiveUp
            } else {
                CancelledWrite::Finish
            }),
    {
        if self.progressed == 0 {
            CancelledWrite::GiveUp
        } else {
            CancelledWrite::Finish
        }
    }

    /// What the end of the write means, behind the last report.
    pub fn finished(&self, sent: Option<Result<(), TransportError>>) -> (event: IoEvent)
        ensures
            event == (match sent {
                None => IoEvent::WriteCancelled(self.key),
                Some(Ok(_)) => IoEvent::WriteComplete(self.key),
                Some(Err(error)) => IoEvent::Failed { pump: PumpName::Write, error },
            }),
    {
        match sent {
            None => IoEvent::WriteCancelled(self.key),
            Some(Ok(_)) => IoEvent::WriteComplete(self.key),
            Some(Err(error)) => IoEvent::Failed { pump: PumpName::Write, error },
        }
    }
}

/// One step of a write: some bytes were written, or the requests were told.
#[derive(Clone, Copy, Debug, PartialEq, Eq, Structural)]
pub enum WriteStep {
    Wrote(usize),
    Told,
}

/// How far a write is after some steps, and what the requests were told.
pub open spec fn write_run(steps: Seq<WriteStep>) -> (nat, nat, Seq<nat>)
    decreases steps.len(),
{
    if steps.len() == 0 {
        (0, 0, Seq::empty())
    } else {
        let (progressed, reported, told) = write_run(steps.drop_last());
        match steps.last() {
            WriteStep::Wrote(bytes) => ((progressed + bytes) as nat, reported, told),
            WriteStep::Told => if progressed > reported {
                (progressed, progressed, told.push((progressed - reported) as nat))
            } else {
                (progressed, progressed, told)
            },
        }
    }
}

pub open spec fn sum(parts: Seq<nat>) -> nat
    decreases parts.len(),
{
    if parts.len() == 0 {
        0
    } else {
        sum(parts.drop_last()) + parts.last()
    }
}

/// The requests are told of each byte once: what they were told adds up to
/// what was reported, and at each report to what was written.
pub proof fn each_byte_is_reported_once(steps: Seq<WriteStep>)
    ensures
        write_run(steps).1 <= write_run(steps).0,
        sum(write_run(steps).2) == write_run(steps).1,
        steps.len() > 0 && steps.last() is Told ==> sum(write_run(steps).2) == write_run(steps).0,
    decreases steps.len(),
{
    if steps.len() > 0 {
        each_byte_is_reported_once(steps.drop_last());
        let (progressed, reported, told) = write_run(steps.drop_last());
        let more = told.push((progressed - reported) as nat);
        assert(more.drop_last() =~= told);
    }
}

} // verus!
