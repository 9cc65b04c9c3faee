use smb::clock::{Duration, MonotonicTime};
use smb::protocol::{Command, Status};
use smb::runtime::authority_model::MessageDecision;
use smb::runtime::early_responses::ResponseFacts;
use smb::runtime::engine::{ControlCommand, ControlReply, PreparedDecision};
use smb::runtime::error::{
    transport_fault_code, wire_fault_code, GenerationExitCause, PumpName, RuntimeError,
    RuntimeEvent, TransportError, TransportFault, WireFault,
};
use smb::runtime::operation::{ReplayPolicy, RequestShape, ResponsePolicy, TypedOperation};
use smb::runtime::owner::{
    ActiveWrite, CancelledWrite, LastWrite, RuntimeConfig, WireCommand,
};
use smb::runtime::reducer::{GenerationId, RequestKey, TerminalOutcome};
use smb::runtime::state::AdmissionLimits;
use smb::runtime::turn::{
    CompoundAdmission, CompoundStep, InboundBatch, OperationAdmission, OperationStep, OwnerTask,
    PreparedOperation, WriteOutcome,
};
use smb::runtime::wire::WirePipeline;

fn config() -> RuntimeConfig {
    RuntimeConfig {
        generation: GenerationId::new(1),
        initial_message_id: 10,
        initial_credits: 32,
        target_credits: 32,
        admission_limits: AdmissionLimits {
            max_operations: 32,
            max_payload_bytes: 1024 * 1024,
        },
        tombstone_drain_timeout: Duration::from_secs(5),
        admission_capacity: 32,
        io_capacity: 2,
        control_capacity: 32,
        event_capacity: 128,
        control_batch: 2,
        maximum_frame_size: 1024 * 1024,
        emit_events: true,
        decode_unsolicited: false,
        crypto_parallelism: 2,
    }
}

fn echo() -> OperationAdmission {
    let shape = RequestShape {
        command: Command::Echo,
        additional_data: None,
        request_payload_size: 0,
        expected_response_size: 0,
        return_raw_data: false,
        dependency: None,
        replay: ReplayPolicy::NeverReplay,
    };
    OperationAdmission {
        operation: TypedOperation::new(
            shape,
            ResponsePolicy::one_of(Command::Echo, vec![Status::Success]).unwrap(),
        )
        .unwrap(),
        deadline: None,
        waiter: true,
    }
}

fn answer(message_id: u64) -> ResponseFacts {
    ResponseFacts {
        message_id,
        command: Command::Echo,
        status: Status::Success,
        async_id: None,
        credit_grant: 1,
        is_error: false,
        recovery_hint: false,
    }
}

fn taken(task: &mut OwnerTask, concurrent: bool) -> RequestKey {
    assert!(task.may_take_operation());
    match task.take_operation(echo(), concurrent) {
        OperationStep::Prepare(plan) => plan.key,
        other => panic!("not admitted: {other:?}"),
    }
}

fn prepared(key: RequestKey) -> PreparedOperation {
    PreparedOperation {
        key,
        prepared: Some(false),
    }
}

fn arrived(task: &mut OwnerTask, message_id: u64) -> Vec<MessageDecision> {
    assert!(task.may_read(true));
    task.frame_read();
    let (sequence, decode) = task.begin_inbound().unwrap();
    assert!(decode);
    let outcomes = task.inbound_prepared(
        sequence,
        InboundBatch {
            bytes: 64,
            messages: Some(vec![answer(message_id)]),
        },
    );
    assert_eq!(
        outcomes[0].event,
        Some(RuntimeEvent::InboundFrame { bytes: 64 })
    );
    outcomes.into_iter().flat_map(|outcome| outcome.decisions).collect()
}

#[test]
fn operations_go_from_admission_to_answer() {
    let mut task = OwnerTask::new(config());
    let key = taken(&mut task, false);
    assert!(matches!(
        task.prepared_inline(prepared(key)),
        PreparedDecision::Queued {
            request_raw: false,
            early: None,
        }
    ));
    assert_eq!(task.dispatch_next(), Some(key));
    assert_eq!(task.dispatch_next(), None);
    let progress = task.write_noted(3).unwrap();
    assert_eq!(
        progress.event,
        Some(RuntimeEvent::WriteProgress { key, bytes: 3 })
    );
    assert!(task.write_noted(3).is_none());
    let ended = task.write_ended(5, WriteOutcome::Sent(Ok(())));
    assert_eq!(
        ended.progress.unwrap().event,
        Some(RuntimeEvent::WriteProgress { key, bytes: 2 })
    );
    assert_eq!(
        ended.end.unwrap().event,
        Some(RuntimeEvent::WriteComplete { key })
    );
    let decisions = arrived(&mut task, key.message_id);
    assert!(matches!(
        &decisions[..],
        [MessageDecision::Deliver(delivery)] if delivery.key == key
    ));
    assert!(task.is_open());
}

#[test]
fn operations_prepared_side_by_side_keep_their_order() {
    let mut task = OwnerTask::new(config());
    let first = taken(&mut task, true);
    let second = taken(&mut task, true);
    assert!(!task.may_take_compound());
    assert!(task.operation_prepared(prepared(second)).is_empty());
    let released: Vec<RequestKey> = task
        .operation_prepared(prepared(first))
        .into_iter()
        .map(|(key, _)| key)
        .collect();
    assert_eq!(released, vec![first, second]);
    assert_eq!(task.dispatch_next(), Some(first));
    assert!(task.may_take_compound());
}

#[test]
fn nothing_overtakes_an_operation_that_waits_for_credits() {
    let mut task = OwnerTask::new(RuntimeConfig {
        initial_credits: 1,
        ..config()
    });
    let first = taken(&mut task, false);
    let _ = task.prepared_inline(prepared(first));
    assert_eq!(task.take_operation(echo(), false), OperationStep::Wait);
    assert!(!task.may_take_operation());
    assert!(!task.may_take_compound());
    assert_eq!(task.retry_operation(false), Some(OperationStep::Wait));
    assert_eq!(task.dispatch_next(), Some(first));
    let _ = task.write_ended(1, WriteOutcome::Sent(Ok(())));
    let _ = arrived(&mut task, first.message_id);
    match task.retry_operation(false) {
        Some(OperationStep::Prepare(plan)) => assert_eq!(plan.key.message_id, 11),
        other => panic!("not admitted: {other:?}"),
    }
    assert_eq!(task.retry_operation(false), None);
}

#[test]
fn compounds_wait_for_credits_as_a_whole() {
    let mut task = OwnerTask::new(RuntimeConfig {
        initial_credits: 1,
        ..config()
    });
    let compound = CompoundAdmission {
        operations: vec![echo().operation, echo().operation],
        deadline: None,
    };
    assert!(matches!(task.take_compound(compound), CompoundStep::Wait));
    assert!(matches!(task.retry_compound(), Some(CompoundStep::Wait)));
    assert!(!task.may_take_operation());
    let end = task.shut_down();
    assert!(end.waiting_operation.is_none());
    assert_eq!(end.waiting_compound.unwrap().operations.len(), 2);
    assert_eq!(end.plan.error, RuntimeError::Closed);
}

#[test]
fn frames_are_read_up_to_a_bound() {
    let mut task = OwnerTask::new(RuntimeConfig {
        decode_unsolicited: true,
        crypto_parallelism: 1,
        ..config()
    });
    task.frame_read();
    task.frame_read();
    assert!(!task.may_read(true));
    assert!(task.may_begin());
    let (first, _) = task.begin_inbound().unwrap();
    assert!(!task.may_begin());
    let batch = InboundBatch {
        bytes: 1,
        messages: None,
    };
    assert_eq!(task.inbound_prepared(first, batch).len(), 1);
    assert!(task.must_stop());
    assert!(!task.is_open());
    let _ = task.shut_down();
    assert_eq!(
        task.exit(LastWrite::Idle).cause,
        GenerationExitCause::Transport(RuntimeError::Wire(WireFault::DecodeIncoming))
    );
}

#[test]
fn unasked_frames_wait_for_the_operations_in_the_lanes() {
    let task = OwnerTask::new(config());
    assert!(task.may_read(true));
    assert!(!task.may_read(false));
}

#[test]
fn closing_closes_the_lanes() {
    let mut task = OwnerTask::new(config());
    let deadline = MonotonicTime::zero().saturating_add(Duration::from_secs(1));
    assert!(matches!(
        task.handle_control(ControlCommand::Close { deadline }),
        ControlReply::Closing(Ok(()))
    ));
    assert!(task.must_stop());
    assert!(!task.is_open());
    let _ = task.shut_down();
    let exit = task.exit(LastWrite::DeadlinePassed);
    assert_eq!(exit.cause, GenerationExitCause::ExplicitClose);
    assert!(exit.report.timed_out);
    assert_eq!(exit.report.joined_tasks, 1);
}

#[test]
fn close_deadline_aborts_and_joins_a_stuck_active_write() {
    let mut task = OwnerTask::new(config());
    let key = task.submit(7, 1, None).unwrap();
    assert_eq!(task.dispatch_next(), Some(key));
    let _ = task.write_noted(1);
    let deadline = MonotonicTime::zero().saturating_add(Duration::from_millis(10));
    let _ = task.handle_control(ControlCommand::Close { deadline });
    let end = task.shut_down();
    assert!(end.plan.signal_active);
    assert_eq!(end.plan.deliveries.terminals.len(), 1);
    assert_eq!(
        end.plan.deliveries.terminals[0].outcome,
        TerminalOutcome::OutcomeUnknown
    );
    let exit = task.exit(LastWrite::DeadlinePassed);
    assert!(exit.report.timed_out);
    assert_eq!(exit.report.joined_tasks + exit.report.failed_tasks, 2);
}

#[test]
fn pump_panic_terminates_generation_and_joins_the_sibling() {
    let mut task = OwnerTask::new(config());
    let key = task.submit(0, 1, None).unwrap();
    assert_eq!(task.dispatch_next(), Some(key));
    let ended = task.write_ended(0, WriteOutcome::Panicked);
    assert!(ended.end.is_none());
    assert!(task.must_stop());
    let _ = task.shut_down();
    let exit = task.exit(LastWrite::Idle);
    assert_eq!(
        exit.cause,
        GenerationExitCause::Transport(RuntimeError::Transport(TransportFault::PumpPanicked))
    );
    assert_eq!((exit.report.joined_tasks, exit.report.failed_tasks), (1, 1));

    let mut other = OwnerTask::new(config());
    other.reader_panicked();
    assert_eq!(other.exit(LastWrite::Idle).report.failed_tasks, 1);
}

#[test]
fn read_failures_end_the_generation() {
    let mut task = OwnerTask::new(config());
    let outcome = task.read_failed(TransportError::NotConnected);
    assert!(matches!(
        outcome.event,
        Some(RuntimeEvent::PumpFailed { .. })
    ));
    assert!(task.must_stop());
}

#[test]
fn dropping_all_handles_closes_channels_and_reclaims_owner_and_pumps() {
    let mut task = OwnerTask::new(config());
    let key = task.submit(0, 1, None).unwrap();
    assert_eq!(task.dispatch_next(), Some(key));
    let _ = task.write_ended(4, WriteOutcome::Sent(Ok(())));
    let end = task.shut_down();
    assert_eq!(
        end.plan.deliveries.terminals[0].outcome,
        TerminalOutcome::OutcomeUnknown
    );
    assert!(!task.is_open());
    assert_eq!(
        task.exit(LastWrite::Idle).cause,
        GenerationExitCause::HandlesDropped
    );
}

#[test]
fn deadlines_wake_the_task() {
    let mut task = OwnerTask::new(config());
    let deadline = MonotonicTime::zero().saturating_add(Duration::from_millis(10));
    let key = task.submit(0, 1, Some(deadline)).unwrap();
    assert_eq!(task.next_deadline(), Some(deadline));
    let deliveries = task.advance_time(deadline);
    assert_eq!(deliveries.terminals[0].key, key);
    assert_eq!(deliveries.terminals[0].outcome, TerminalOutcome::TimedOut);
    assert_eq!(task.next_deadline(), None);
}

#[test]
fn faults_have_stable_names() {
    assert_eq!(transport_fault_code(TransportFault::Split), "split");
    assert_eq!(
        transport_fault_code(TransportFault::PumpPanicked),
        "pump-panicked"
    );
    assert_eq!(
        transport_fault_code(TransportFault::Failed(TransportError::WriteZero)),
        "write-zero"
    );
    assert_eq!(
        wire_fault_code(WireFault::OperationResponseContract),
        "operation-response-contract"
    );
    assert_eq!(wire_fault_code(WireFault::PreauthReset), "preauth-reset");
}

#[test]
fn a_negotiation_reaches_the_requests_and_the_pipeline() {
    let mut task = OwnerTask::new(config());
    let mut wire = WirePipeline::default();
    assert_eq!(
        task.handle_wire(&mut wire, WireCommand::SessionStarted { session_id: 7 }),
        Err(RuntimeError::Wire(WireFault::SessionStartedPolicy))
    );
    let negotiated = || WireCommand::Negotiated {
        large_mtu: true,
        dialect_compresses: false,
        compression_enabled: false,
        compression_agreed: false,
        transcript: Some(vec![1, 2]),
    };
    assert_eq!(task.handle_wire(&mut wire, negotiated()), Ok(()));
    assert_eq!(task.preauth_snapshot(&wire, true), Ok(Some(vec![1, 2])));
    assert_eq!(
        task.preauth_snapshot(&wire, false),
        Err(RuntimeError::Wire(WireFault::PreauthSnapshot))
    );
    assert_eq!(
        task.handle_wire(&mut wire, negotiated()),
        Err(RuntimeError::Wire(WireFault::NegotiatedPolicy))
    );
    assert_eq!(
        task.handle_wire(&mut wire, WireCommand::SessionStarted { session_id: 7 }),
        Ok(())
    );
    assert_eq!(
        task.handle_wire(&mut wire, WireCommand::SessionEnded { session_id: 7 }),
        Ok(())
    );
    assert_eq!(
        task.handle_wire(&mut wire, WireCommand::SessionEnded { session_id: 7 }),
        Err(RuntimeError::Wire(WireFault::SessionEndedPolicy))
    );
    assert_eq!(task.close_deadline(), None);
    let at = MonotonicTime::zero().saturating_add(Duration::from_secs(9));
    task.handle_control(ControlCommand::Close { deadline: at });
    assert_eq!(task.close_deadline(), Some(at));
}

/// The frame that the tests below submit, with the length that stands in
/// front of it on the wire.
const METAPAYLOAD: usize = 4 + b"metapayload".len();

#[test]
fn runtime_owns_short_write_progress_and_joins_both_pumps_on_close() {
    let mut task = OwnerTask::new(config());
    let ticket = task.submit(7, 1, None).unwrap();
    assert_eq!(task.dispatch_next(), Some(ticket));
    let mut progress = Vec::new();
    let mut written = 0;
    while written + 2 < METAPAYLOAD {
        written += 2;
        match task.write_noted(written).and_then(|told| told.event) {
            Some(RuntimeEvent::WriteProgress { key, bytes }) if key == ticket => {
                progress.push(bytes);
            }
            other => panic!("no progress: {other:?}"),
        }
    }
    let ended = task.write_ended(METAPAYLOAD, WriteOutcome::Sent(Ok(())));
    match ended.progress.and_then(|told| told.event) {
        Some(RuntimeEvent::WriteProgress { bytes, .. }) => progress.push(bytes),
        other => panic!("no progress: {other:?}"),
    }
    assert_eq!(
        ended.end.and_then(|told| told.event),
        Some(RuntimeEvent::WriteComplete { key: ticket })
    );
    assert!(progress.iter().all(|bytes| *bytes > 0));
    assert_eq!(progress.iter().sum::<usize>(), METAPAYLOAD);

    let deadline = MonotonicTime::zero().saturating_add(Duration::from_secs(1));
    task.handle_control(ControlCommand::Close { deadline });
    assert!(task.must_stop());
    let end = task.shut_down();
    assert_eq!(end.plan.deliveries.terminals.len(), 1);
    assert_eq!(end.plan.deliveries.terminals[0].key, ticket);
    assert_eq!(
        end.plan.deliveries.terminals[0].outcome,
        TerminalOutcome::OutcomeUnknown
    );
    let report = task.exit(LastWrite::Idle).report;
    assert!(!report.timed_out);
    assert_eq!(report.joined_tasks, 2);
    assert_eq!(report.failed_tasks, 0);
}

#[test]
fn pre_cancelled_write_never_touches_transport() {
    let key = RequestKey::new(GenerationId::new(1), 1);
    assert_eq!(ActiveWrite::new(key).cancelled(), CancelledWrite::GiveUp);

    let mut task = OwnerTask::new(config());
    let ticket = task.submit(7, 1, None).unwrap();
    assert_eq!(task.dispatch_next(), Some(ticket));
    let ControlReply::Cancelled(decision) = task.handle_control(ControlCommand::Cancel {
        key: ticket,
        now: MonotonicTime::zero(),
    }) else {
        panic!("a cancellation is answered");
    };
    assert!(decision.signal_active);
    assert!(decision.deliveries.terminals.is_empty());
    let ended = task.write_ended(0, WriteOutcome::Cancelled);
    assert!(ended.progress.is_none());
    let end = ended.end.unwrap();
    assert_eq!(end.event, None);
    assert_eq!(end.deliveries.terminals[0].key, ticket);
    assert_eq!(
        end.deliveries.terminals[0].outcome,
        TerminalOutcome::Cancelled
    );
}

#[test]
fn write_zero_and_fault_report_typed_pump_failure_after_exact_progress() {
    for (progressed, error) in [
        (0, TransportError::WriteZero),
        (4, TransportError::IoError),
    ] {
        let mut task = OwnerTask::new(config());
        let ticket = task.submit(7, 1, None).unwrap();
        assert_eq!(task.dispatch_next(), Some(ticket));
        let ended = task.write_ended(progressed, WriteOutcome::Sent(Err(error)));
        match ended.progress.and_then(|told| told.event) {
            Some(RuntimeEvent::WriteProgress { key, bytes }) => {
                assert_eq!(key, ticket);
                assert_eq!(bytes, progressed);
            }
            None => assert_eq!(progressed, 0),
            other => panic!("not progress: {other:?}"),
        }
        assert_eq!(
            ended.end.and_then(|told| told.event),
            Some(RuntimeEvent::PumpFailed {
                pump: PumpName::Write,
                error,
            })
        );
        assert!(task.must_stop());
    }
}

#[test]
fn read_pump_reports_frame_then_injected_fault_without_registry_access() {
    let mut task = OwnerTask::new(config());
    assert!(task.may_read(true));
    task.frame_read();
    let (sequence, decode) = task.begin_inbound().unwrap();
    assert!(!decode);
    let outcomes = task.inbound_prepared(
        sequence,
        InboundBatch {
            bytes: b"response".len(),
            messages: Some(Vec::new()),
        },
    );
    assert_eq!(
        outcomes[0].event,
        Some(RuntimeEvent::InboundFrame {
            bytes: b"response".len(),
        })
    );
    assert_eq!(
        task.read_failed(TransportError::IoError).event,
        Some(RuntimeEvent::PumpFailed {
            pump: PumpName::Read,
            error: TransportError::IoError,
        })
    );
    assert!(task.must_stop());
}

#[test]
fn bounded_control_flood_cannot_starve_admission_lane() {
    let mut task = OwnerTask::new(config());
    let mut flood = 100..132;
    let mut ticket = None;
    while ticket.is_none() {
        for message_id in flood.by_ref().take(config().control_turn()) {
            task.handle_control(ControlCommand::Cancel {
                key: RequestKey::new(GenerationId::new(1), message_id),
                now: MonotonicTime::zero(),
            });
        }
        ticket = Some(task.submit(0, 1, None).unwrap());
    }
    assert_eq!(flood.next(), Some(102));
    assert_eq!(ticket.unwrap().message_id, 10);
    let deadline = MonotonicTime::zero().saturating_add(Duration::from_secs(1));
    task.handle_control(ControlCommand::Close { deadline });
    task.shut_down();
    assert_eq!(task.exit(LastWrite::Idle).report.joined_tasks, 2);
}

#[test]
fn inbound_frame_can_arrive_before_write_completion_without_losing_request() {
    let mut task = OwnerTask::new(config());
    let ticket = task.submit(0, 1, None).unwrap();
    assert_eq!(task.dispatch_next(), Some(ticket));
    assert!(task.may_read(true));
    task.frame_read();
    let (sequence, _) = task.begin_inbound().unwrap();
    let outcomes = task.inbound_prepared(
        sequence,
        InboundBatch {
            bytes: 14,
            messages: Some(Vec::new()),
        },
    );
    assert_eq!(
        outcomes[0].event,
        Some(RuntimeEvent::InboundFrame { bytes: 14 })
    );
    let ended = task.write_ended(METAPAYLOAD, WriteOutcome::Sent(Ok(())));
    assert_eq!(
        ended.end.and_then(|told| told.event),
        Some(RuntimeEvent::WriteComplete { key: ticket })
    );
    let deadline = MonotonicTime::zero().saturating_add(Duration::from_secs(1));
    task.handle_control(ControlCommand::Close { deadline });
    task.shut_down();
    assert_eq!(task.exit(LastWrite::Idle).report.joined_tasks, 2);
}
