use smb::clock::Duration;
use smb::protocol::Status;
use smb::runtime::wire::{MessageForm, Protection};
use smb::session::setup::{ReceiveError, SetupError, SetupResponse};
use smb::session::setup_loop::{LoopAction, LoopEvent, SetupFailure, SetupLoop, SetupPolicy};
use smb::session::{ChannelInfo, SessionError};
use smb::signing::SigningPolicy;

const POLICY: SetupPolicy = SetupPolicy {
    signing: SigningPolicy::WhenRequired,
    server_requires_signing: true,
    dfs: false,
};

const BARE: MessageForm = MessageForm {
    compressed: false,
    encrypted: false,
    signed: false,
    unauthenticated_recovery_hint: false,
};

const SIGNED: MessageForm = MessageForm {
    signed: true,
    ..BARE
};

fn response(form: MessageForm, guest_or_null: bool) -> SetupResponse {
    SetupResponse {
        session_id: 7,
        flags: 3,
        guest_or_null,
        form,
    }
}

fn token(authenticated: bool, empty_token: bool) -> LoopEvent<&'static str> {
    LoopEvent::Token {
        authenticated,
        has_key: false,
        empty_token,
    }
}

/// Runs the first round of a new session up to the question that follows it.
fn after_one_round() -> SetupLoop<&'static str> {
    let mut rounds = SetupLoop::new_session(0, POLICY);
    assert!(matches!(rounds.reduce(LoopEvent::Begin), LoopAction::Ask));
    assert!(matches!(
        rounds.reduce(LoopEvent::Authenticated(false)),
        LoopAction::Step
    ));
    let LoopAction::Send(request) = rounds.reduce(token(false, false)) else {
        panic!("a token is sent");
    };
    assert!(request.signing_required);
    assert!(!request.signed);
    assert_eq!(request.session_id, None);
    let LoopAction::Receive {
        expected,
        skip_security_validation,
    } = rounds.reduce(LoopEvent::Sent)
    else {
        panic!("the response is awaited");
    };
    assert_eq!(expected, Status::MoreProcessingRequired);
    assert!(skip_security_validation);
    assert!(matches!(
        rounds.reduce(LoopEvent::Received(response(BARE, false))),
        LoopAction::Start { session_id: 7 }
    ));
    assert!(matches!(rounds.reduce(LoopEvent::Started), LoopAction::Ask));
    rounds
}

/// Runs on up to the final response.
fn before_the_final_response() -> SetupLoop<&'static str> {
    let mut rounds = after_one_round();
    assert!(matches!(
        rounds.reduce(LoopEvent::Authenticated(false)),
        LoopAction::Step
    ));
    let LoopAction::Send(request) = rounds.reduce(token(true, false)) else {
        panic!("the final token is sent");
    };
    assert_eq!(request.session_id, Some(7));
    assert!(matches!(
        rounds.reduce(LoopEvent::Sent),
        LoopAction::MakeChannel {
            channel_id: 0,
            exchange_keys: true,
        }
    ));
    let LoopAction::Receive {
        expected,
        skip_security_validation,
    } = rounds.reduce(LoopEvent::ChannelMade)
    else {
        panic!("the final response is awaited");
    };
    assert_eq!(expected, Status::Success);
    assert!(!skip_security_validation);
    rounds
}

#[test]
fn new_sessions_are_set_up_in_rounds() {
    let mut rounds = before_the_final_response();
    assert!(matches!(
        rounds.reduce(LoopEvent::Received(response(SIGNED, false))),
        LoopAction::Ready { flags: 3 }
    ));
    let LoopAction::Finished {
        session_id,
        channel,
    } = rounds.reduce(LoopEvent::Readied)
    else {
        panic!("the session is set up");
    };
    assert_eq!(session_id, 7);
    assert_eq!(
        channel,
        ChannelInfo {
            id: 0,
            binding: false,
        }
    );
    assert!(matches!(
        rounds.reduce(LoopEvent::Begin),
        LoopAction::Ignore
    ));
}

#[test]
fn unprotected_final_responses_fail_the_setup() {
    let mut rounds = before_the_final_response();
    assert!(matches!(
        rounds.reduce(LoopEvent::Received(response(BARE, false))),
        LoopAction::End { invalidate: true }
    ));
    let LoopAction::Fail(failure) = rounds.reduce(LoopEvent::CleanedUp) else {
        panic!("the failure is told");
    };
    assert_eq!(
        failure,
        SetupFailure::Setup(SetupError::UnsignedFinalResponse)
    );
}

#[test]
fn guests_need_no_protection() {
    let mut rounds = before_the_final_response();
    assert!(matches!(
        rounds.reduce(LoopEvent::Received(response(BARE, true))),
        LoopAction::Ready { .. }
    ));
}

#[test]
fn rounds_can_end_without_a_final_request() {
    let mut rounds = after_one_round();
    assert!(matches!(
        rounds.reduce(LoopEvent::Authenticated(false)),
        LoopAction::Step
    ));
    assert!(matches!(
        rounds.reduce(token(true, true)),
        LoopAction::MakeChannel { .. }
    ));
    assert!(matches!(
        rounds.reduce(LoopEvent::ChannelMade),
        LoopAction::Ready { .. }
    ));
}

#[test]
fn failures_before_a_session_leave_nothing_behind() {
    let mut rounds: SetupLoop<&'static str> = SetupLoop::new_session(0, POLICY);
    rounds.reduce(LoopEvent::Begin);
    let LoopAction::Fail(failure) = rounds.reduce(LoopEvent::Authenticated(true)) else {
        panic!("nothing was set up");
    };
    assert_eq!(failure, SetupFailure::Setup(SetupError::Incomplete));

    let mut rounds: SetupLoop<&'static str> = SetupLoop::new_session(0, POLICY);
    rounds.reduce(LoopEvent::Begin);
    rounds.reduce(LoopEvent::Authenticated(false));
    let LoopAction::Fail(failure) = rounds.reduce(token(true, false)) else {
        panic!("a final request needs a session");
    };
    assert_eq!(failure, SetupFailure::Setup(SetupError::NoSession));
}

#[test]
fn failures_outside_are_told_behind_the_cleanup() {
    let mut rounds = before_the_final_response();
    assert!(matches!(
        rounds.reduce(LoopEvent::NotReceived(ReceiveError::Other, "gone")),
        LoopAction::End { invalidate: true }
    ));
    let LoopAction::Fail(failure) = rounds.reduce(LoopEvent::CleanedUp) else {
        panic!("the failure is told");
    };
    assert_eq!(failure, SetupFailure::Outside("gone"));

    let mut rounds = before_the_final_response();
    rounds.reduce(LoopEvent::NotReceived(
        ReceiveError::TimedOut {
            elapsed: Duration::from_secs(30),
        },
        "late",
    ));
    let LoopAction::Fail(failure) = rounds.reduce(LoopEvent::CleanedUp) else {
        panic!("the failure is told");
    };
    assert_eq!(
        failure,
        SetupFailure::Setup(SetupError::Timeout {
            elapsed: Duration::from_secs(30),
        })
    );
}

#[test]
fn binds_sign_their_final_request_and_stay_valid() {
    let primary = ChannelInfo {
        id: 0,
        binding: false,
    };
    let mut rounds: SetupLoop<&'static str> = SetupLoop::bind(4, 9, primary, POLICY);
    assert!(matches!(
        rounds.reduce(LoopEvent::Begin),
        LoopAction::Start { session_id: 9 }
    ));
    assert!(matches!(
        rounds.reduce(LoopEvent::Started),
        LoopAction::Ask
    ));
    rounds.reduce(LoopEvent::Authenticated(false));
    let LoopAction::Send(request) = rounds.reduce(token(true, false)) else {
        panic!("the final token is sent");
    };
    assert!(request.signed);
    assert!(request.binding);
    assert_eq!(request.security, Protection::SnapshotKdfSign);
    assert!(matches!(
        rounds.reduce(LoopEvent::Sent),
        LoopAction::MakeChannel {
            channel_id: 4,
            exchange_keys: false,
        }
    ));
    assert!(matches!(
        rounds.reduce(LoopEvent::Failed("no key")),
        LoopAction::End { invalidate: false }
    ));

    let mut rounds: SetupLoop<&'static str> = SetupLoop::bind(4, 9, primary, POLICY);
    assert!(matches!(
        rounds.reduce(LoopEvent::Begin),
        LoopAction::Start { session_id: 9 }
    ));
    assert!(matches!(
        rounds.reduce(LoopEvent::Started),
        LoopAction::Ask
    ));
    rounds.reduce(LoopEvent::Authenticated(false));
    rounds.reduce(token(true, false));
    rounds.reduce(LoopEvent::Sent);
    rounds.reduce(LoopEvent::ChannelMade);
    let LoopAction::Finished { channel, .. } =
        rounds.reduce(LoopEvent::Received(response(SIGNED, false)))
    else {
        panic!("the channel is bound");
    };
    assert_eq!(channel.id, 4);
    let session = rounds.into_session().unwrap();
    assert_eq!(session.session_id(), 9);
    assert_eq!(session.channel(), Some(channel));
    assert_eq!(session.object(), Err(SessionError::ObjectUnavailable));
}

#[test]
fn sessions_that_cannot_be_started_are_not_ended() {
    let primary = ChannelInfo {
        id: 0,
        binding: false,
    };
    let mut rounds: SetupLoop<&'static str> = SetupLoop::bind(4, 9, primary, POLICY);
    rounds.reduce(LoopEvent::Begin);
    let LoopAction::Fail(failure) = rounds.reduce(LoopEvent::Failed("not negotiated")) else {
        panic!("nothing is left to end");
    };
    assert_eq!(failure, SetupFailure::Outside("not negotiated"));
    assert!(matches!(
        rounds.reduce(LoopEvent::Started),
        LoopAction::Ignore
    ));
}
