//! Why an operation of the runtime failed, and why a generation ended.

use crate::runtime::object_state::ObjectError;
use crate::runtime::reducer::{GenerationId, RequestKey, TerminalOutcome};
use crate::runtime::state::AdmissionError;
use vstd::prelude::*;

verus! {

/// What a transport reports when it fails.
#[derive(Clone, Copy, Debug, PartialEq, Eq, Structural)]
pub enum TransportError {
    AlreadyConnected,
    InvalidMessage,
    FrameTooLarge,
    SegmentLimitExceeded,
    CursorAdvanceOutOfBounds,
    WriteZero,
    ParseError,
    NotConnected,
    AlreadySplit,
    Timeout,
    InvalidAddress,
    IoError,
}

/// Why the byte stream of a generation cannot go on.
#[derive(Clone, Copy, Debug, PartialEq, Eq, Structural)]
pub enum TransportFault {
    Split,
    PumpPanicked,
    GenerationUnhealthy,
    RecoveryAttemptTimeout,
    Failed(TransportError),
}

/// Why the protocol of a generation cannot go on.
#[derive(Clone, Copy, Debug, PartialEq, Eq, Structural)]
pub enum WireFault {
    EmptyCompound,
    CreditCharge,
    PrepareOutgoing,
    PrepareCompound,
    PreparedOperationMissing,
    InboundSequenceExhausted,
    DecodeIncoming,
    EarlyResponseOverflowOrDuplicate,
    ResponseWithoutOperation,
    PendingWithoutAsyncId,
    InvalidRecoveryHint,
    OperationResponseContract,
    PreauthSnapshot,
    PreauthReset,
    NegotiatedPolicy,
    SessionStartedPolicy,
    SessionEndedPolicy,
}

#[derive(Clone, Copy, Debug, PartialEq, Eq, Structural)]
pub enum RuntimeError {
    Closed,
    OwnerTerminated,
    AdmissionBackpressure,
    ControlBackpressure,
    Admission(AdmissionError),
    Transport(TransportFault),
    EventBackpressure,
    Wire(WireFault),
    Terminal(TerminalOutcome),
    UnknownRequest(RequestKey),
    AlreadyAwaited(RequestKey),
    Object(ObjectError),
}

/// The stable name of a transport error.
pub open spec fn transport_code(error: TransportError) -> &'static str {
    match error {
        TransportError::AlreadyConnected => "already-connected",
        TransportError::InvalidMessage => "invalid-message",
        TransportError::FrameTooLarge => "frame-too-large",
        TransportError::SegmentLimitExceeded => "segment-limit",
        TransportError::CursorAdvanceOutOfBounds => "cursor-bounds",
        TransportError::WriteZero => "write-zero",
        TransportError::ParseError => "parse",
        TransportError::NotConnected => "not-connected",
        TransportError::AlreadySplit => "already-split",
        TransportError::Timeout => "timeout",
        TransportError::InvalidAddress => "invalid-address",
        TransportError::IoError => "io",
    }
}

pub fn transport_error_code(error: TransportError) -> (code: &'static str)
    ensures
        code == transport_code(error),
        code == (match error {
            TransportError::AlreadyConnected => "already-connected",
            TransportError::InvalidMessage => "invalid-message",
            TransportError::FrameTooLarge => "frame-too-large",
            TransportError::SegmentLimitExceeded => "segment-limit",
            TransportError::CursorAdvanceOutOfBounds => "cursor-bounds",
            TransportError::WriteZero => "write-zero",
            TransportError::ParseError => "parse",
            TransportError::NotConnected => "not-connected",
            TransportError::AlreadySplit => "already-split",
            TransportError::Timeout => "timeout",
            TransportError::InvalidAddress => "invalid-address",
            TransportError::IoError => "io",
        }),
{
    match error {
        TransportError::AlreadyConnected => "already-connected",
        TransportError::InvalidMessage => "invalid-message",
        TransportError::FrameTooLarge => "frame-too-large",
        TransportError::SegmentLimitExceeded => "segment-limit",
        TransportError::CursorAdvanceOutOfBounds => "cursor-bounds",
        TransportError::WriteZero => "write-zero",
        TransportError::ParseError => "parse",
        TransportError::NotConnected => "not-connected",
        TransportError::AlreadySplit => "already-split",
        TransportError::Timeout => "timeout",
        TransportError::InvalidAddress => "invalid-address",
        TransportError::IoError => "io",
    }
}

/// The stable name of a fault of the byte stream.
pub open spec fn transport_fault_name(fault: TransportFault) -> &'static str {
    match fault {
        TransportFault::Split => "split",
        TransportFault::PumpPanicked => "pump-panicked",
        TransportFault::GenerationUnhealthy => "generation-unhealthy",
        TransportFault::RecoveryAttemptTimeout => "recovery-attempt-timeout",
        TransportFault::Failed(error) => transport_code(error),
    }
}

pub fn transport_fault_code(fault: TransportFault) -> (code: &'static str)
    ensures
        code == transport_fault_name(fault),
        code == (match fault {
            TransportFault::Split => "split",
            TransportFault::PumpPanicked => "pump-panicked",
            TransportFault::GenerationUnhealthy => "generation-unhealthy",
            TransportFault::RecoveryAttemptTimeout => "recovery-attempt-timeout",
            TransportFault::Failed(error) => transport_code(error),
        }),
{
    match fault {
        TransportFault::Split => "split",
        TransportFault::PumpPanicked => "pump-panicked",
        TransportFault::GenerationUnhealthy => "generation-unhealthy",
        TransportFault::RecoveryAttemptTimeout => "recovery-attempt-timeout",
        TransportFault::Failed(error) => transport_error_code(error),
    }
}

/// The stable name of a fault of the protocol.
pub open spec fn wire_fault_name(fault: WireFault) -> &'static str {
    match fault {
        WireFault::EmptyCompound => "empty-compound",
        WireFault::CreditCharge => "credit-charge",
        WireFault::PrepareOutgoing => "prepare-outgoing",
        WireFault::PrepareCompound => "prepare-compound",
        WireFault::PreparedOperationMissing => "prepared-operation-missing",
        WireFault::InboundSequenceExhausted => "inbound-sequence-exhausted",
        WireFault::DecodeIncoming => "decode-incoming",
        WireFault::EarlyResponseOverflowOrDuplicate => "early-response-overflow-or-duplicate",
        WireFault::ResponseWithoutOperation => "response-without-operation",
        WireFault::PendingWithoutAsyncId => "pending-without-async-id",
        WireFault::InvalidRecoveryHint => "invalid-recovery-hint",
        WireFault::OperationResponseContract => "operation-response-contract",
        WireFault::PreauthSnapshot => "preauth-snapshot",
        WireFault::PreauthReset => "preauth-reset",
        WireFault::NegotiatedPolicy => "negotiated-policy",
        WireFault::SessionStartedPolicy => "session-started-policy",
        WireFault::SessionEndedPolicy => "session-ended-policy",
    }
}

pub fn wire_fault_code(fault: WireFault) -> (code: &'static str)
    ensures
        code == wire_fault_name(fault),
        code == (match fault {
            WireFault::EmptyCompound => "empty-compound",
            WireFault::CreditCharge => "credit-charge",
            WireFault::PrepareOutgoing => "prepare-outgoing",
            WireFault::PrepareCompound => "prepare-compound",
            WireFault::PreparedOperationMissing => "prepared-operation-missing",
            WireFault::InboundSequenceExhausted => "inbound-sequence-exhausted",
            WireFault::DecodeIncoming => "decode-incoming",
            WireFault::EarlyResponseOverflowOrDuplicate => "early-response-overflow-or-duplicate",
            WireFault::ResponseWithoutOperation => "response-without-operation",
            WireFault::PendingWithoutAsyncId => "pending-without-async-id",
            WireFault::InvalidRecoveryHint => "invalid-recovery-hint",
            WireFault::OperationResponseContract => "operation-response-contract",
            WireFault::PreauthSnapshot => "preauth-snapshot",
            WireFault::PreauthReset => "preauth-reset",
            WireFault::NegotiatedPolicy => "negotiated-policy",
            WireFault::SessionStartedPolicy => "session-started-policy",
            WireFault::SessionEndedPolicy => "session-ended-policy",
        }),
{
    match fault {
        WireFault::EmptyCompound => "empty-compound",
        WireFault::CreditCharge => "credit-charge",
        WireFault::PrepareOutgoing => "prepare-outgoing",
        WireFault::PrepareCompound => "prepare-compound",
        WireFault::PreparedOperationMissing => "prepared-operation-missing",
        WireFault::InboundSequenceExhausted => "inbound-sequence-exhausted",
        WireFault::DecodeIncoming => "decode-incoming",
        WireFault::EarlyResponseOverflowOrDuplicate => "early-response-overflow-or-duplicate",
        WireFault::ResponseWithoutOperation => "response-without-operation",
        WireFault::PendingWithoutAsyncId => "pending-without-async-id",
        WireFault::InvalidRecoveryHint => "invalid-recovery-hint",
        WireFault::OperationResponseContract => "operation-response-contract",
        WireFault::PreauthSnapshot => "preauth-snapshot",
        WireFault::PreauthReset => "preauth-reset",
        WireFault::NegotiatedPolicy => "negotiated-policy",
        WireFault::SessionStartedPolicy => "session-started-policy",
        WireFault::SessionEndedPolicy => "session-ended-policy",
    }
}

#[derive(Clone, Copy, Debug, PartialEq, Eq, Structural)]
pub enum PumpName {
    Read,
    Write,
}

/// What an observer of a generation is told.
#[derive(Clone, Copy, Debug, PartialEq, Eq, Structural)]
pub enum RuntimeEvent {
    InboundFrame { bytes: usize },
    WriteProgress { key: RequestKey, bytes: usize },
    WriteComplete { key: RequestKey },
    PumpFailed { pump: PumpName, error: TransportError },
    PumpExited { pump: PumpName },
}

#[derive(Clone, Copy, Debug, PartialEq, Eq, Structural)]
pub struct CloseReport {
    pub timed_out: bool,
    pub unresolved_requests: usize,
    pub joined_tasks: usize,
    pub failed_tasks: usize,
}

#[derive(Clone, Copy, Debug, PartialEq, Eq, Structural)]
pub enum GenerationExitCause {
    ExplicitClose,
    Transport(RuntimeError),
    HandlesDropped,
}

#[derive(Clone, Copy, Debug, PartialEq, Eq, Structural)]
pub struct GenerationExit {
    pub generation: GenerationId,
    pub cause: GenerationExitCause,
    pub report: CloseReport,
}

} // verus!
