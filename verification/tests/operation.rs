use smb::protocol::{Command, Status};
use smb::runtime::operation::{
    OperationContractError, ReplayPolicy, RequestShape, ResponsePolicy, TypedOperation,
};

fn shape(command: Command) -> RequestShape {
    RequestShape {
        command,
        additional_data: None,
        request_payload_size: 0,
        expected_response_size: 0,
        return_raw_data: false,
        dependency: None,
        replay: ReplayPolicy::NeverReplay,
    }
}

#[test]
fn constructor_rejects_a_command_mismatch() {
    let error = TypedOperation::new(
        shape(Command::Cancel),
        ResponsePolicy::one_of(Command::Negotiate, vec![Status::Success]).unwrap(),
    )
    .expect_err("mismatched command must be rejected before admission");
    assert_eq!(
        error,
        OperationContractError::CommandMismatch {
            expected: Command::Negotiate,
            actual: Command::Cancel,
        }
    );
}

#[test]
fn negotiate_accepts_only_success() {
    let policy = ResponsePolicy::one_of(Command::Negotiate, vec![Status::Success]).unwrap();
    assert_eq!(policy.wire_command(), Command::Negotiate);
    assert!(policy.accepts_status(Status::Success));
    assert!(!policy.accepts_status(Status::MoreProcessingRequired));
}

#[test]
fn session_setup_accepts_intermediate_and_final_status() {
    let policy = ResponsePolicy::one_of(
        Command::SessionSetup,
        vec![Status::MoreProcessingRequired, Status::Success],
    )
    .unwrap();
    assert_eq!(policy.wire_command(), Command::SessionSetup);
    assert!(policy.accepts_status(Status::MoreProcessingRequired));
    assert!(policy.accepts_status(Status::Success));
    assert!(!policy.accepts_status(Status::AccessDenied));
}

#[test]
fn any_status_policy_supports_every_request_command_without_a_second_seam() {
    let operation = TypedOperation::any_status(shape(Command::Cancel));
    assert_eq!(operation.response_policy().wire_command(), Command::Cancel);
    assert!(operation.response_policy().accepts_status(Status::Success));
    assert!(operation
        .response_policy()
        .accepts_status(Status::AccessDenied));
}

#[test]
fn owner_derives_multi_credit_charge_from_operation_shape() {
    let operation = TypedOperation::any_status(RequestShape {
        expected_response_size: 1024 * 1024,
        ..shape(Command::Read)
    });
    assert_eq!(operation.credit_charge(false).unwrap(), 1);
    assert_eq!(operation.credit_charge(true).unwrap(), 16);
}

#[test]
fn charges_round_up_and_follow_the_larger_payload() {
    let charge = |request: u32, response: u32| {
        TypedOperation::any_status(RequestShape {
            request_payload_size: request,
            expected_response_size: response,
            ..shape(Command::Ioctl)
        })
        .credit_charge(true)
    };
    assert_eq!(charge(0, 0).unwrap(), 1);
    assert_eq!(charge(65_536, 1).unwrap(), 1);
    assert_eq!(charge(65_537, 1).unwrap(), 2);
    assert_eq!(charge(1, 131_073).unwrap(), 3);
    assert_eq!(
        charge(u32::MAX, 0),
        Err(OperationContractError::CreditChargeOverflow {
            command: Command::Ioctl
        })
    );
}

#[test]
fn commands_without_payload_charges_cost_one_credit() {
    let operation = TypedOperation::any_status(RequestShape {
        request_payload_size: 1 << 20,
        ..shape(Command::Create)
    });
    assert_eq!(operation.credit_charge(true).unwrap(), 1);
}

#[test]
fn empty_status_policies_are_refused() {
    assert_eq!(
        ResponsePolicy::one_of(Command::Echo, vec![]).unwrap_err(),
        OperationContractError::EmptyStatusPolicy {
            command: Command::Echo
        }
    );
}

#[test]
fn responses_are_held_to_command_and_status() {
    let operation = TypedOperation::new(
        shape(Command::Echo),
        ResponsePolicy::one_of(Command::Echo, vec![Status::Success]).unwrap(),
    )
    .unwrap();
    assert_eq!(operation.validate_response(Command::Echo, Status::Success), Ok(()));
    assert_eq!(
        operation.validate_response(Command::Read, Status::Success),
        Err(OperationContractError::CommandMismatch {
            expected: Command::Echo,
            actual: Command::Read,
        })
    );
    assert_eq!(
        operation.validate_response(Command::Echo, Status::AccessDenied),
        Err(OperationContractError::UnexpectedStatus {
            command: Command::Echo,
            status: Status::AccessDenied,
        })
    );
}
