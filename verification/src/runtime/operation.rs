//! Typed operations for one connection generation.
//!
//! These types describe protocol intent. Message identity, credit accounting,
//! response correlation and terminal publication remain runtime concerns.

use crate::protocol::{Command, Status};
use crate::runtime::object_state::ObjectToken;
use vstd::prelude::*;

verus! {

/// Whether an operation may be sent again after its connection was replaced.
#[derive(Clone, Copy, Debug, PartialEq, Eq, Structural)]
pub enum ReplayPolicy {
    NeverReplay,
    Idempotent,
}

/// The statuses that a caller accepts.
#[derive(Debug)]
pub enum AcceptedStatuses {
    Any,
    OneOf(Vec<Status>),
}

impl AcceptedStatuses {
    pub open spec fn accepts(&self, status: Status) -> bool {
        match self {
            AcceptedStatuses::Any => true,
            AcceptedStatuses::OneOf(statuses) => statuses@.contains(status),
        }
    }
}

/// Response contract sealed when an operation is made. `Any` leaves the status
/// to the caller; the runtime still checks command and correlation.
#[derive(Debug)]
pub struct ResponsePolicy {
    pub command: Command,
    pub statuses: AcceptedStatuses,
}

#[derive(Clone, Copy, Debug, PartialEq, Eq, Structural)]
#[allow(inconsistent_fields)]
pub enum OperationContractError {
    CommandMismatch { expected: Command, actual: Command },
    UnexpectedStatus { command: Command, status: Status },
    EmptyStatusPolicy { command: Command },
    CreditChargeOverflow { command: Command },
}

impl ResponsePolicy {
    pub fn one_of(command: Command, statuses: Vec<Status>) -> (policy: Result<
        ResponsePolicy,
        OperationContractError,
    >)
        ensures
            policy is Err <==> statuses@.len() == 0,
            policy matches Err(error) ==> error == (OperationContractError::EmptyStatusPolicy {
                command,
            }),
            policy matches Ok(policy) ==> policy == (ResponsePolicy {
                command,
                statuses: AcceptedStatuses::OneOf(statuses),
            }),
    {
        if statuses.len() == 0 {
            return Err(OperationContractError::EmptyStatusPolicy { command });
        }
        Ok(ResponsePolicy { command, statuses: AcceptedStatuses::OneOf(statuses) })
    }

    pub fn any(command: Command) -> (policy: Self)
        ensures
            policy == (ResponsePolicy { command, statuses: AcceptedStatuses::Any }),
    {
        ResponsePolicy { command, statuses: AcceptedStatuses::Any }
    }

    pub fn wire_command(&self) -> (command: Command)
        ensures
            command == self.command,
    {
        self.command
    }

    pub fn accepts_status(&self, status: Status) -> (accepts: bool)
        ensures
            accepts == self.statuses.accepts(status),
    {
        match &self.statuses {
            AcceptedStatuses::Any => true,
            AcceptedStatuses::OneOf(statuses) => lists(statuses, status),
        }
    }
}

/// Whether a list holds a status.
pub fn lists(statuses: &Vec<Status>, status: Status) -> (listed: bool)
    ensures
        listed == statuses@.contains(status),
{
    let mut i: usize = 0;
    while i < statuses.len()
        invariant
            i <= statuses@.len(),
            forall|k: int| 0 <= k < i ==> statuses@[k] != status,
        decreases statuses@.len() - i,
    {
        if statuses[i] == status {
            assert(statuses@[i as int] == status);
            return true;
        }
        i += 1;
    }
    false
}

/// What the runtime needs to know of a request that it is to send.
#[derive(Clone, Copy, Debug, PartialEq, Eq, Structural)]
pub struct RequestShape {
    pub command: Command,
    /// Length of the payload that travels beside the message, if any.
    pub additional_data: Option<u64>,
    /// Payload bytes that the request itself carries.
    pub request_payload_size: u32,
    /// Most payload bytes that the response may carry.
    pub expected_response_size: u32,
    /// Whether the caller wants the raw bytes of the request back.
    pub return_raw_data: bool,
    /// The object that must be active for the request to make sense.
    pub dependency: Option<ObjectToken>,
    pub replay: ReplayPolicy,
}

/// The bytes that one credit pays for.
pub const CREDIT_BYTES: u32 = 65_536;

/// Whether the size of a command's payload decides its charge.
pub open spec fn charged_by_size(command: Command) -> bool {
    command == Command::Read || command == Command::Write || command == Command::Ioctl || command
        == Command::QueryDirectory
}

pub open spec fn larger(a: u32, b: u32) -> u32 {
    if a >= b {
        a
    } else {
        b
    }
}

/// The least number of credits, at least one, that pay for the larger payload.
pub open spec fn credit_units(request: u32, response: u32) -> int {
    let bytes = larger(request, response);
    if bytes == 0 {
        1
    } else {
        (bytes + CREDIT_BYTES - 1) / (CREDIT_BYTES as int)
    }
}

/// An owned operation. The runtime stamps its own message id before the
/// request is sealed.
#[derive(Debug)]
pub struct TypedOperation {
    pub response: ResponsePolicy,
    pub outgoing: RequestShape,
}

impl TypedOperation {
    /// The operation's answer policy names the command that it sends.
    pub open spec fn wf(&self) -> bool {
        self.response.command == self.outgoing.command
    }

    pub fn new(outgoing: RequestShape, response: ResponsePolicy) -> (operation: Result<
        TypedOperation,
        OperationContractError,
    >)
        ensures
            operation is Ok <==> outgoing.command == response.command,
            operation matches Ok(made) ==> made == (TypedOperation { response, outgoing })
                && made.wf(),
            operation matches Err(error) ==> error == (OperationContractError::CommandMismatch {
                expected: response.command,
                actual: outgoing.command,
            }),
    {
        let actual = outgoing.command;
        let expected = response.wire_command();
        if actual != expected {
            return Err(OperationContractError::CommandMismatch { expected, actual });
        }
        Ok(TypedOperation { response, outgoing })
    }

    pub fn any_status(outgoing: RequestShape) -> (operation: Self)
        ensures
            operation == (TypedOperation {
                response: ResponsePolicy {
                    command: outgoing.command,
                    statuses: AcceptedStatuses::Any,
                },
                outgoing,
            }),
            operation.wf(),
    {
        TypedOperation { response: ResponsePolicy::any(outgoing.command), outgoing }
    }

    pub fn response_policy(&self) -> (policy: &ResponsePolicy)
        ensures
            *policy == self.response,
    {
        &self.response
    }

    pub open spec fn spec_payload_bytes(&self) -> u64 {
        match self.outgoing.additional_data {
            Some(bytes) => bytes,
            None => 0,
        }
    }

    pub fn payload_bytes(&self) -> (bytes: u64)
        ensures
            bytes == self.spec_payload_bytes(),
    {
        match self.outgoing.additional_data {
            Some(bytes) => bytes,
            None => 0,
        }
    }

    /// The credits that the operation costs: one, unless large transfers are
    /// negotiated and the command is charged by size.
    pub open spec fn charge(&self, large_mtu: bool) -> Result<u16, OperationContractError> {
        if !large_mtu || !charged_by_size(self.response.command) {
            Ok(1)
        } else {
            let units = credit_units(
                self.outgoing.request_payload_size,
                self.outgoing.expected_response_size,
            );
            if units <= u16::MAX {
                Ok(units as u16)
            } else {
                Err(
                    OperationContractError::CreditChargeOverflow {
                        command: self.response.command,
                    },
                )
            }
        }
    }

    pub fn credit_charge(&self, large_mtu: bool) -> (charge: Result<u16, OperationContractError>)
        ensures
            charge == self.charge(large_mtu),
            charge matches Ok(credits) ==> credits >= 1,
    {
        if !large_mtu {
            return Ok(1);
        }
        let command = self.response.wire_command();
        let charged = match command {
            Command::Read | Command::Write | Command::Ioctl | Command::QueryDirectory => true,
            _ => false,
        };
        if !charged {
            return Ok(1);
        }
        let request: u32 = self.outgoing.request_payload_size;
        let response: u32 = self.outgoing.expected_response_size;
        let bytes: u32 = if request >= response {
            request
        } else {
            response
        };
        let units: u32 = 1 + bytes.saturating_sub(1) / CREDIT_BYTES;
        proof {
            let b = bytes as int;
            if b > 0 {
                assert((b + 65_535) / 65_536 == 1 + (b - 1) / 65_536) by (nonlinear_arith)
                    requires
                        b > 0,
                ;
            }
        }
        if units > 0xffff {
            return Err(OperationContractError::CreditChargeOverflow { command });
        }
        Ok(units as u16)
    }

    pub fn into_outgoing(self) -> (outgoing: RequestShape)
        ensures
            outgoing == self.outgoing,
    {
        self.outgoing
    }

    pub fn dependency(&self) -> (dependency: Option<ObjectToken>)
        ensures
            dependency == self.outgoing.dependency,
    {
        self.outgoing.dependency
    }

    pub fn replay_policy(&self) -> (replay: ReplayPolicy)
        ensures
            replay == self.outgoing.replay,
    {
        self.outgoing.replay
    }

    pub fn validate_response(&self, command: Command, status: Status) -> (valid: Result<
        (),
        OperationContractError,
    >)
        ensures
            valid == if command != self.response.command {
                Err::<(), OperationContractError>(
                    OperationContractError::CommandMismatch {
                        expected: self.response.command,
                        actual: command,
                    },
                )
            } else if !self.response.statuses.accepts(status) {
                Err(OperationContractError::UnexpectedStatus { command, status })
            } else {
                Ok(())
            },
    {
        let expected = self.response.wire_command();
        if command != expected {
            return Err(OperationContractError::CommandMismatch { expected, actual: command });
        }
        if !self.response.accepts_status(status) {
            return Err(OperationContractError::UnexpectedStatus { command, status });
        }
        Ok(())
    }
}

/// Where large transfers are negotiated, a command that moves data costs the
/// least number of credits, at least one, that pay for the larger of its two
/// payloads at 65536 bytes a credit; where that number is too large to be
/// charged, the charge fails. Every other command costs one credit, and
/// without large transfers every command does.
pub proof fn payloads_are_paid_for(operation: TypedOperation, large_mtu: bool)
    ensures
        ({
            let command = operation.response.command;
            let request = operation.outgoing.request_payload_size;
            let response = operation.outgoing.expected_response_size;
            let by_size = large_mtu && (command is Read || command is Write || command is Ioctl
                || command is QueryDirectory);
            &&& !by_size ==> operation.charge(large_mtu) == Ok::<u16, OperationContractError>(1)
            &&& by_size ==> match operation.charge(large_mtu) {
                Ok(credits) => {
                    &&& credits >= 1
                    &&& credits * 65536 >= request
                    &&& credits * 65536 >= response
                    &&& credits > 1 ==> (credits - 1) * 65536 < request || (credits - 1) * 65536
                        < response
                },
                Err(error) => {
                    &&& request > 0xffff * 65536 || response > 0xffff * 65536
                    &&& error == (OperationContractError::CreditChargeOverflow { command })
                },
            }
        }),
{
}

/// A caller that lists statuses accepts those and no others; one that lists
/// none accepts every status.
pub proof fn listed_statuses_are_accepted(statuses: AcceptedStatuses, status: Status)
    ensures
        statuses is Any ==> statuses.accepts(status),
        statuses matches AcceptedStatuses::OneOf(listed) ==> (statuses.accepts(status) <==> exists|
            i: int,
        |
            0 <= i < listed@.len() && listed@[i] == status),
{
}

/// The payload beside a message counts as long as it is; without one there is
/// nothing to count.
pub proof fn payloads_are_counted(operation: TypedOperation)
    ensures
        operation.outgoing.additional_data matches Some(bytes)
            ==> operation.spec_payload_bytes() == bytes,
        operation.outgoing.additional_data is None ==> operation.spec_payload_bytes() == 0,
{
}

} // verus!
