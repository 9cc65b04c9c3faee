use smb::clock::{Duration, MonotonicTime};
use smb::protocol::{Command, Status};
use smb::runtime::authority_model::MessageDecision;
use smb::runtime::early_responses::ResponseFacts;
use smb::runtime::engine::{
    CompoundDecision, ControlCommand, ControlReply, OperationDecision, PreparedDecision,
    RequestAuthority, WriteEnd,
};
use smb::runtime::error::{
    GenerationExitCause, RuntimeError, RuntimeEvent, TransportError, TransportFault, WireFault,
};
use smb::runtime::object_state::{ObjectError, ObjectKind};
use smb::runtime::operation::{ReplayPolicy, RequestShape, ResponsePolicy, TypedOperation};
use smb::runtime::owner::{process_io, IoEvent};
use smb::runtime::pending::{AwaitDecision, OperationOutcome};
use smb::runtime::reducer::{GenerationId, RequestKey, TerminalOutcome};
use smb::runtime::state::{AdmissionError, AdmissionLimits};

fn limits(max_operations: usize) -> AdmissionLimits {
    AdmissionLimits {
        max_operations,
        max_payload_bytes: 1024 * 1024,
    }
}

fn authority_with(initial_credits: u32, max_operations: usize) -> RequestAuthority {
    RequestAuthority::new(
        GenerationId::new(1),
        10,
        initial_credits,
        32,
        limits(max_operations),
        Duration::from_secs(5),
    )
}

fn authority() -> RequestAuthority {
    authority_with(32, 32)
}

fn shape(command: Command, return_raw: bool) -> RequestShape {
    RequestShape {
        command,
        additional_data: None,
        request_payload_size: 0,
        expected_response_size: 0,
        return_raw_data: return_raw,
        dependency: None,
        replay: ReplayPolicy::NeverReplay,
    }
}

fn operation(command: Command, return_raw: bool, statuses: &[Status]) -> TypedOperation {
    TypedOperation::new(
        shape(command, return_raw),
        ResponsePolicy::one_of(command, statuses.to_vec()).unwrap(),
    )
    .unwrap()
}

fn session_setup_operation(return_raw: bool) -> TypedOperation {
    operation(
        Command::SessionSetup,
        return_raw,
        &[Status::MoreProcessingRequired, Status::Success],
    )
}

fn create_operation() -> TypedOperation {
    operation(Command::Create, false, &[Status::Success])
}

fn echo_operation() -> TypedOperation {
    operation(Command::Echo, false, &[Status::Success])
}

fn answer(message_id: u64, command: Command, status: Status) -> ResponseFacts {
    ResponseFacts {
        message_id,
        command,
        status,
        async_id: None,
        credit_grant: 1,
        is_error: false,
        recovery_hint: false,
    }
}

fn session_setup_response(message_id: u64) -> ResponseFacts {
    answer(
        message_id,
        Command::SessionSetup,
        Status::MoreProcessingRequired,
    )
}

fn create_error_response(message_id: u64, status: Status) -> ResponseFacts {
    ResponseFacts {
        is_error: true,
        ..answer(message_id, Command::Create, status)
    }
}

fn submitted(
    authority: &mut RequestAuthority,
    operation: TypedOperation,
    deadline: Option<MonotonicTime>,
    waiter: bool,
) -> RequestKey {
    let key = match authority.admit_operation(operation, deadline, waiter) {
        OperationDecision::Admitted(plan) => plan.key,
        OperationDecision::Waiting(_) => panic!("waits"),
        OperationDecision::Refused(error) => panic!("refused: {error:?}"),
    };
    assert!(matches!(
        authority.finish_prepared_operation(key, Some(false)),
        PreparedDecision::Queued { .. }
    ));
    key
}

fn written(authority: &mut RequestAuthority, operation: TypedOperation) -> RequestKey {
    let key = submitted(authority, operation, None, true);
    assert_eq!(authority.dispatch_next(), Some(key));
    authority.write_progress(key, 4);
    authority.write_complete(key);
    key
}

fn still_serves(authority: &mut RequestAuthority) {
    let key = written(authority, echo_operation());
    let outcome = authority.take_message(answer(key.message_id, Command::Echo, Status::Success));
    match outcome.decision {
        MessageDecision::Deliver(delivery) => {
            assert_eq!(delivery.key, key);
            assert_eq!(
                delivery.outcome,
                OperationOutcome::Response { request_raw: false }
            );
        }
        other => panic!("not delivered: {other:?}"),
    }
    assert_eq!(authority.fatal(), None);
}

fn unresolved(authority: &mut RequestAuthority) -> usize {
    authority
        .close(MonotonicTime::zero().saturating_add(Duration::from_secs(1)))
        .unwrap();
    let _ = authority.shut_down();
    authority
        .exit(false, WriteEnd::Joined)
        .report
        .unresolved_requests
}

#[test]
fn completed_preparation_is_discarded_after_deadline_rollback() {
    let mut authority = authority();
    let key = RequestKey::new(GenerationId::new(1), 10);
    let decision = authority.finish_prepared_operation(key, Some(false));
    assert!(matches!(
        decision,
        PreparedDecision::Refused {
            error: RuntimeError::Terminal(TerminalOutcome::TimedOut),
            ..
        }
    ));
    assert_eq!(authority.dispatch_next(), None);
    assert_eq!(authority.fatal(), None);
}

#[test]
fn same_command_server_error_is_returned_and_generation_remains_usable() {
    let mut authority = authority();
    let denied = written(&mut authority, create_operation());
    let outcome =
        authority.take_message(create_error_response(denied.message_id, Status::AccessDenied));
    assert!(matches!(
        outcome.decision,
        MessageDecision::Deliver(delivery)
            if delivery.key == denied
                && matches!(delivery.outcome, OperationOutcome::Response { .. })
    ));
    still_serves(&mut authority);
    assert_eq!(unresolved(&mut authority), 0);
}

#[test]
fn wrong_command_server_error_remains_fatal() {
    let mut authority = authority();
    let key = written(&mut authority, create_operation());
    let outcome = authority.take_message(ResponseFacts {
        command: Command::TreeConnect,
        ..create_error_response(key.message_id, Status::AccessDenied)
    });
    let broken = RuntimeError::Wire(WireFault::OperationResponseContract);
    assert_eq!(outcome.decision, MessageDecision::Fault(broken));
    assert_eq!(authority.fatal(), Some(broken));
    assert!(authority.must_stop());
    let plan = authority.shut_down();
    assert_eq!(plan.error, broken);
    assert_eq!(plan.deliveries.operations.len() + plan.failed_operations.len(), 1);
    assert_eq!(
        authority.exit(false, WriteEnd::Joined).cause,
        GenerationExitCause::Transport(broken)
    );
}

#[test]
fn same_command_non_error_unexpected_status_remains_fatal() {
    let mut authority = authority();
    let key = written(
        &mut authority,
        operation(Command::SessionSetup, false, &[Status::Success]),
    );
    let _ = authority.take_message(session_setup_response(key.message_id));
    assert_eq!(
        authority.fatal(),
        Some(RuntimeError::Wire(WireFault::OperationResponseContract))
    );
}

#[test]
fn unmodelled_error_status_reaches_the_caller_and_generation_remains_usable() {
    let unmodelled = Status::from_code(0xC000_0102);
    assert_eq!(unmodelled, Status::Other(0xC000_0102));
    let mut authority = authority();
    let key = written(&mut authority, create_operation());
    let outcome = authority.take_message(create_error_response(key.message_id, unmodelled));
    assert!(matches!(
        outcome.decision,
        MessageDecision::Deliver(delivery)
            if delivery.key == key && matches!(delivery.outcome, OperationOutcome::Response { .. })
    ));
    still_serves(&mut authority);
}

#[test]
fn late_unmodelled_status_for_a_cancelled_operation_is_discarded() {
    let mut authority = authority();
    let key = written(&mut authority, create_operation());
    let cancelled = authority.cancel(key, MonotonicTime::zero());
    assert_eq!(cancelled.deliveries.operations.len(), 1);
    assert!(matches!(
        cancelled.deliveries.operations[0].outcome,
        OperationOutcome::Failed(_)
    ));
    let late = authority.take_message(create_error_response(
        key.message_id,
        Status::Other(0xC000_0102),
    ));
    assert!(!matches!(late.decision, MessageDecision::Deliver(_)));
    still_serves(&mut authority);
    assert_eq!(unresolved(&mut authority), 0);
}

#[test]
fn late_off_policy_status_for_a_cancelled_operation_is_not_fatal() {
    let mut authority = authority();
    let key = written(
        &mut authority,
        operation(Command::SessionSetup, false, &[Status::Success]),
    );
    let _ = authority.cancel(key, MonotonicTime::zero());
    let _ = authority.take_message(session_setup_response(key.message_id));
    still_serves(&mut authority);
}

#[test]
fn single_clock_deadline_completes_committed_caller_without_timer_task() {
    let mut authority = authority();
    let deadline = MonotonicTime::zero().saturating_add(Duration::from_millis(10));
    let key = authority.submit(7, 1, Some(deadline)).unwrap();
    assert_eq!(authority.next_deadline(), Some(deadline));
    assert_eq!(authority.dispatch_next(), Some(key));
    authority.write_progress(key, 11);
    authority.write_complete(key);
    let deliveries = authority.advance_time(deadline);
    assert_eq!(deliveries.terminals.len(), 1);
    assert_eq!(deliveries.terminals[0].key, key);
    assert_eq!(
        deliveries.terminals[0].outcome,
        TerminalOutcome::OutcomeUnknown
    );
}

#[test]
fn typed_session_setup_is_stamped_correlated_and_completed_by_owner() {
    let mut authority = authority();
    let key = match authority.admit_operation(session_setup_operation(true), None, true) {
        OperationDecision::Admitted(plan) => plan.key,
        _ => panic!("not admitted"),
    };
    assert_eq!(key.message_id, 10);
    assert!(matches!(
        authority.finish_prepared_operation(key, Some(true)),
        PreparedDecision::Queued {
            request_raw: true,
            early: None,
        }
    ));
    assert_eq!(authority.dispatch_next(), Some(key));
    authority.write_complete(key);
    let outcome = authority.take_message(session_setup_response(10));
    assert!(matches!(
        outcome.decision,
        MessageDecision::Deliver(delivery)
            if delivery.key == key
                && delivery.outcome == (OperationOutcome::Response { request_raw: true })
    ));
}

#[test]
fn committed_cancel_retains_response_policy_until_async_final_drains() {
    let mut authority = authority();
    let key = written(&mut authority, session_setup_operation(false));
    let cancelled = authority.cancel(key, MonotonicTime::zero());
    assert_eq!(
        cancelled.deliveries.operations[0].outcome,
        OperationOutcome::Failed(RuntimeError::Terminal(TerminalOutcome::OutcomeUnknown))
    );
    let pending = authority.take_message(ResponseFacts {
        async_id: Some(77),
        ..answer(key.message_id, Command::SessionSetup, Status::Pending)
    });
    assert!(matches!(pending.decision, MessageDecision::Interim));
    let late = authority.take_message(session_setup_response(key.message_id));
    assert!(!matches!(late.decision, MessageDecision::Deliver(_)));

    let next = written(&mut authority, session_setup_operation(false));
    let outcome = authority.take_message(session_setup_response(next.message_id));
    assert!(matches!(outcome.decision, MessageDecision::Deliver(_)));
    assert_eq!(unresolved(&mut authority), 0);
}

#[test]
fn typed_admission_waits_inside_owner_until_response_returns_credit() {
    let mut authority = authority_with(1, 32);
    let first = written(&mut authority, session_setup_operation(false));
    let waiting = match authority.admit_operation(session_setup_operation(false), None, true) {
        OperationDecision::Waiting(operation) => operation,
        _ => panic!("must wait for a credit"),
    };
    let _ = authority.take_message(session_setup_response(first.message_id));
    let second = match authority.admit_operation(waiting, None, true) {
        OperationDecision::Admitted(plan) => plan.key,
        _ => panic!("must be admitted"),
    };
    assert_eq!(second.message_id, first.message_id + 1);
}

#[test]
fn stale_object_chain_is_rejected_before_wire_admission() {
    let mut authority = authority();
    let connection = authority.connection_object();
    let session = authority
        .create_object(connection, ObjectKind::Session)
        .unwrap();
    let share = authority.create_object(session, ObjectKind::Share).unwrap();
    let resource = authority
        .create_object(share, ObjectKind::Resource)
        .unwrap();
    assert_eq!(authority.lose_object_generation(), 4);

    let operation = TypedOperation::any_status(RequestShape {
        dependency: Some(resource),
        ..shape(Command::SessionSetup, false)
    });
    assert!(matches!(
        authority.admit_operation(operation, None, true),
        OperationDecision::Refused(RuntimeError::Object(ObjectError::ParentNotActive))
    ));
    assert_eq!(authority.dispatch_next(), None);
}

#[test]
fn typed_cancel_before_first_progress_proves_cancelled() {
    let mut authority = authority();
    let key = submitted(&mut authority, session_setup_operation(false), None, true);
    assert_eq!(authority.dispatch_next(), Some(key));
    let decision = authority.cancel(key, MonotonicTime::zero());
    assert!(decision.signal_active);
    assert!(!decision.withdrawn);
    assert!(decision.deliveries.operations.is_empty());
    let deliveries = authority.write_cancelled(key);
    assert_eq!(
        deliveries.operations[0].outcome,
        OperationOutcome::Failed(RuntimeError::Terminal(TerminalOutcome::Cancelled))
    );
}

#[test]
fn typed_deadline_after_write_commit_reports_outcome_unknown() {
    let mut authority = authority();
    let deadline = MonotonicTime::zero().saturating_add(Duration::from_secs(1));
    let key = submitted(
        &mut authority,
        session_setup_operation(false),
        Some(deadline),
        true,
    );
    assert_eq!(authority.dispatch_next(), Some(key));
    authority.write_complete(key);
    let deliveries = authority.advance_time(deadline);
    assert_eq!(
        deliveries.operations[0].outcome,
        OperationOutcome::Failed(RuntimeError::Terminal(TerminalOutcome::OutcomeUnknown))
    );
    assert_eq!(unresolved(&mut authority), 0);
}

#[test]
fn detached_response_is_buffered_only_by_owner_until_awaited() {
    let mut authority = authority();
    let key = match authority.admit_operation(session_setup_operation(true), None, false) {
        OperationDecision::Admitted(plan) => plan.key,
        _ => panic!("not admitted"),
    };
    let _ = authority.finish_prepared_operation(key, Some(true));
    assert_eq!(authority.dispatch_next(), Some(key));
    authority.write_complete(key);
    let kept = authority.take_message(session_setup_response(10));
    assert!(matches!(kept.decision, MessageDecision::Keep));
    assert!(matches!(
        authority.await_operation(key),
        AwaitDecision::Ready(OperationOutcome::Response { request_raw: true })
    ));
    assert!(matches!(
        authority.await_operation(key),
        AwaitDecision::Refused(RuntimeError::UnknownRequest(found)) if found == key
    ));
    assert_eq!(unresolved(&mut authority), 0);
}

#[test]
fn response_before_admission_is_bounded_and_replayed_through_reducer() {
    let mut authority = authority();
    let early = authority.take_message(session_setup_response(10));
    assert!(matches!(early.decision, MessageDecision::Hold));
    let key = match authority.admit_operation(session_setup_operation(false), None, true) {
        OperationDecision::Admitted(plan) => plan.key,
        _ => panic!("not admitted"),
    };
    assert_eq!(key.message_id, 10);
    match authority.finish_prepared_operation(key, Some(true)) {
        PreparedDecision::Queued {
            request_raw: false,
            early: Some(outcome),
        } => {
            assert!(matches!(outcome.decision, MessageDecision::Deliver(_)));
        }
        _ => panic!("the early response was lost"),
    }
}

#[test]
fn early_responses_are_held_once() {
    let mut authority = authority();
    assert!(matches!(
        authority.take_message(session_setup_response(10)).decision,
        MessageDecision::Hold
    ));
    let twice = authority.take_message(session_setup_response(10));
    assert!(matches!(
        twice.decision,
        MessageDecision::Fault(RuntimeError::Wire(
            WireFault::EarlyResponseOverflowOrDuplicate
        ))
    ));
}

#[test]
fn unawaited_detached_results_remain_admission_bounded() {
    let mut authority = authority_with(32, 1);
    let first = submitted(&mut authority, session_setup_operation(false), None, false);
    assert_eq!(authority.dispatch_next(), Some(first));
    authority.write_complete(first);
    let _ = authority.take_message(session_setup_response(10));
    assert!(matches!(
        authority.admit_operation(session_setup_operation(false), None, false),
        OperationDecision::Refused(RuntimeError::Admission(AdmissionError::OperationsExhausted))
    ));
    assert!(matches!(
        authority.await_operation(first),
        AwaitDecision::Ready(_)
    ));
    let second = submitted(&mut authority, session_setup_operation(false), None, false);
    assert_eq!(second.message_id, 11);
}

#[test]
fn compound_admission_seals_one_frame_and_assigns_every_member() {
    let mut authority = authority();
    let decision = authority.admit_compound(
        vec![
            session_setup_operation(false),
            session_setup_operation(false),
        ],
        None,
    );
    let keys: Vec<RequestKey> = match decision {
        CompoundDecision::Admitted(plans) => plans.iter().map(|plan| plan.key).collect(),
        _ => panic!("not admitted"),
    };
    assert_eq!(
        keys.iter().map(|key| key.message_id).collect::<Vec<_>>(),
        vec![10, 11]
    );
    assert_eq!(
        authority
            .finish_prepared_compound(keys.clone(), true)
            .unwrap()
            .len(),
        2
    );
    assert_eq!(authority.dispatch_next(), Some(keys[0]));
    assert_eq!(authority.dispatch_next(), None);
    authority.write_complete(keys[0]);
    for key in keys {
        assert!(matches!(
            authority
                .take_message(session_setup_response(key.message_id))
                .decision,
            MessageDecision::Keep
        ));
    }
    assert_eq!(unresolved(&mut authority), 0);
}

#[test]
fn unprepared_compounds_give_everything_back() {
    let mut authority = authority_with(2, 2);
    for first_id in [10, 12, 14] {
        let decision = authority.admit_compound(vec![echo_operation(), echo_operation()], None);
        let keys: Vec<RequestKey> = match decision {
            CompoundDecision::Admitted(plans) => plans.iter().map(|plan| plan.key).collect(),
            _ => panic!("the credits and slots are there again"),
        };
        assert_eq!(keys[0].message_id, first_id);
        assert!(!authority.operations_idle());
        assert!(matches!(
            authority.finish_prepared_compound(keys, false),
            Err(RuntimeError::Wire(WireFault::PrepareCompound))
        ));
        assert!(authority.operations_idle());
        assert_eq!(authority.dispatch_next(), None);
    }
}

#[test]
fn refused_compounds_hold_nothing() {
    let mut authority = authority_with(1, 1);
    assert!(matches!(
        authority.admit_compound(vec![], None),
        CompoundDecision::Refused(RuntimeError::Wire(WireFault::EmptyCompound))
    ));
    let first = submitted(&mut authority, echo_operation(), None, true);
    assert!(matches!(
        authority.admit_compound(vec![echo_operation(), echo_operation()], None),
        CompoundDecision::Waiting(_) | CompoundDecision::Refused(_)
    ));
    assert_eq!(authority.dispatch_next(), Some(first));
    authority.write_complete(first);
    let _ = authority.take_message(answer(10, Command::Echo, Status::Success));
    let next = submitted(&mut authority, echo_operation(), None, true);
    assert_eq!(next.message_id, 11);
}

#[test]
fn explicit_close_is_not_reported_as_recoverable_transport_loss() {
    let mut authority = authority();
    let deadline = MonotonicTime::zero().saturating_add(Duration::from_secs(1));
    assert_eq!(authority.close(deadline), Ok(()));
    assert_eq!(authority.close_deadline(), Some(deadline));
    assert!(authority.must_stop());
    assert_eq!(authority.close(deadline), Err(RuntimeError::Closed));
    let _ = authority.shut_down();
    let exit = authority.exit(false, WriteEnd::Joined);
    assert_eq!(exit.cause, GenerationExitCause::ExplicitClose);
    assert_eq!(exit.report.joined_tasks, 2);
    assert!(!exit.report.timed_out);
}

#[test]
fn owner_publishes_typed_transport_exit_after_pumps_join() {
    let mut authority = authority();
    authority.transport_failed(TransportError::IoError);
    assert_eq!(
        authority.fatal(),
        Some(RuntimeError::Transport(TransportFault::Failed(
            TransportError::IoError
        )))
    );
    let plan = authority.shut_down();
    assert!(plan.failed_operations.is_empty());
    let exit = authority.exit(true, WriteEnd::TimedOut);
    assert_eq!(exit.generation, GenerationId::new(1));
    assert!(matches!(exit.cause, GenerationExitCause::Transport(_)));
    assert_eq!(exit.report.joined_tasks + exit.report.failed_tasks, 2);
}

#[test]
fn shutdown_settles_everyone_who_waits() {
    let mut authority = authority();
    let plain = authority.submit(1, 1, None).unwrap();
    let typed = submitted(&mut authority, echo_operation(), None, true);
    assert_eq!(authority.dispatch_next(), Some(plain));
    authority.write_progress(plain, 1);
    authority.fail(RuntimeError::OwnerTerminated);
    let plan = authority.shut_down();
    assert!(plan.signal_active);
    assert_eq!(plan.dropped_frames, vec![typed]);
    assert!(plan
        .deliveries
        .terminals
        .iter()
        .any(|delivery| delivery.key == plain
            && delivery.outcome == TerminalOutcome::OutcomeUnknown));
    assert!(plan
        .deliveries
        .operations
        .iter()
        .any(|delivery| delivery.key == typed));
}

#[test]
fn controls_reach_objects_and_policies() {
    let mut authority = authority();
    let connection = authority.connection_object();
    let session = match authority.handle_control(ControlCommand::CreateObject {
        parent: connection,
        kind: ObjectKind::Session,
    }) {
        ControlReply::Object(Ok(token)) => token,
        _ => panic!("no session"),
    };
    assert!(matches!(
        authority.handle_control(ControlCommand::BeginObjectRecovery { object: session }),
        ControlReply::Done(Ok(()))
    ));
    let replacement =
        match authority.handle_control(ControlCommand::PublishObjectReplacement { object: session })
        {
            ControlReply::Object(Ok(token)) => token,
            _ => panic!("no replacement"),
        };
    assert_ne!(replacement, session);
    assert!(matches!(
        authority.handle_control(ControlCommand::FailObjectRecovery {
            object: replacement
        }),
        ControlReply::Done(Err(RuntimeError::Object(_)))
    ));
    assert!(matches!(
        authority.handle_control(ControlCommand::LoseObjectGeneration),
        ControlReply::Revoked(2)
    ));
}

#[test]
fn io_events_are_reduced_before_they_are_reported() {
    let mut authority = authority();
    let key = authority.submit(0, 1, None).unwrap();
    assert_eq!(authority.dispatch_next(), Some(key));
    let progress = process_io(&mut authority, IoEvent::WriteProgress { key, bytes: 5 }, true);
    assert_eq!(
        progress.event,
        Some(RuntimeEvent::WriteProgress { key, bytes: 5 })
    );
    let complete = process_io(&mut authority, IoEvent::WriteComplete(key), false);
    assert_eq!(complete.event, None);
    assert_eq!(authority.dispatch_next(), None);
}
