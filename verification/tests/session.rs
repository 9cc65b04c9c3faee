use smb::clock::Duration;
use smb::identity::Guid;
use smb::protocol::Status;
use smb::runtime::object_state::ObjectToken;
use smb::runtime::reducer::GenerationId;
use smb::runtime::wire::{MessageForm, Protection};
use smb::session::channel::{
    Channel, ChannelContext, CommandEnd, ExecutedStep, NotifyStep, Prepared,
};
use smb::session::credential::{AuthIdentity, CredentialError, StaticCredentialProvider};
use smb::session::setup::{
    ReceiveError, Round, RoundStep, SessionSetup, SetupCleanup, SetupError, SetupFinish, SetupKind,
    SetupResponse,
};
use smb::session::{
    ChannelInfo, ConnectionIdentity, LogoffStep, Session, SessionAndChannel, SessionContext,
    SessionError, SessionPhase, SessionStatus, PRIMARY_CHANNEL_ID,
};
use smb::signing::SigningPolicy;

const READY: SessionStatus = SessionStatus {
    phase: SessionPhase::Ready,
    should_encrypt: Some(false),
    allow_unsigned: Some(false),
};

const SIGNED: MessageForm = MessageForm {
    compressed: false,
    encrypted: false,
    signed: true,
    unauthenticated_recovery_hint: false,
};

const BARE: MessageForm = MessageForm {
    compressed: false,
    encrypted: false,
    signed: false,
    unauthenticated_recovery_hint: false,
};

fn connection(dialect: u16, guid: u128) -> ConnectionIdentity {
    ConnectionIdentity {
        dialect,
        client_guid: Guid(guid),
    }
}

fn session() -> Session {
    let mut state = SessionAndChannel::new(7);
    state.set_channel(ChannelInfo {
        id: PRIMARY_CHANNEL_ID,
        binding: false,
    });
    Session::create(Channel::new(&state).unwrap(), true)
}

#[test]
fn static_provider_returns_fresh_identity_values() {
    let provider = StaticCredentialProvider::new(
        AuthIdentity::new("domain/user".to_owned(), "secret".to_owned()).unwrap(),
    );

    let first = provider.identity();
    let second = provider.identity();

    assert_eq!(first.account_name(), "domain/user");
    assert_eq!(second.account_name(), "domain/user");
    assert_eq!(second.username(), "domain/user");
    assert_eq!(second.password(), "secret");
}

#[test]
fn account_names_are_parsed_out_of_user_names() {
    let account = |name: &str| {
        AuthIdentity::new(name.to_owned(), String::new())
            .map(|identity| identity.account_name().to_owned())
    };
    assert_eq!(account("user").unwrap(), "user");
    assert_eq!(account("DOMAIN\\user").unwrap(), "user");
    assert_eq!(account("user@example.com").unwrap(), "user");
    assert_eq!(
        account("a\\b\\c").unwrap_err(),
        CredentialError::InvalidUsername
    );
    assert_eq!(account("Account\\user@example.com").unwrap(), "user@example.com");
    assert_eq!(account("a@b@example.com").unwrap(), "a@b");
    assert_eq!(account("\\user").unwrap(), "user");
    assert_eq!(account(".\\user").unwrap(), "user");
    assert_eq!(account(".\\DOMAIN\\user@x").unwrap(), "user@x");
    assert_eq!(account("DOMAIN\\").unwrap(), "");
    for mixed in ["\\user@x", "a@b\\user", ".\\a\\b\\c"] {
        assert_eq!(
            account(mixed).unwrap_err(),
            CredentialError::InvalidUsername
        );
    }
    assert!(matches!(
        AuthIdentity::with_account("x".to_owned(), None, String::new()),
        Err(CredentialError::InvalidUsername)
    ));
}

#[test]
fn sessions_bind_only_to_their_like() {
    let mut session = session();
    let own = connection(0x0311, 1);
    assert_eq!(
        session.bind(own, connection(0x0302, 1), READY),
        Err(SessionError::DifferentDialect)
    );
    assert_eq!(
        session.bind(own, connection(0x0311, 2), READY),
        Err(SessionError::DifferentClient)
    );
    assert_eq!(
        session.bind(
            own,
            own,
            SessionStatus {
                phase: SessionPhase::SettingUp,
                ..READY
            }
        ),
        Err(SessionError::NotReady)
    );
    assert_eq!(
        session.bind(
            own,
            own,
            SessionStatus {
                allow_unsigned: None,
                ..READY
            }
        ),
        Err(SessionError::Unknown)
    );
    assert_eq!(
        session.bind(
            own,
            own,
            SessionStatus {
                allow_unsigned: Some(true),
                ..READY
            }
        ),
        Err(SessionError::AllowsUnsigned)
    );
    assert_eq!(session.bind(own, own, READY), Ok(1));
    assert_eq!(session.bind(own, own, READY), Ok(2));
}

#[test]
fn bound_channels_can_be_named() {
    let mut session = session();
    assert!(session.supports_reauthentication());
    assert_eq!(session.primary_channel().session_id(), 7);
    assert_eq!(session.resolve_channel(None), Ok(0));
    assert_eq!(session.resolve_channel(Some(0)), Ok(0));
    assert_eq!(
        session.resolve_channel(Some(1)),
        Err(SessionError::ChannelNotFound {
            session_id: 7,
            channel_id: 1,
        })
    );
    session.bound(1);
    assert_eq!(session.resolve_channel(Some(1)), Ok(1));
}

#[test]
fn sessions_log_off_once() {
    let mut session = session();
    assert_eq!(session.logoff(READY), LogoffStep::Send);
    assert_eq!(session.logoff(READY), LogoffStep::Skip);
    let mut context = SessionContext::new(7, 0);
    assert_eq!(
        context.logoff(SessionStatus {
            phase: SessionPhase::Invalid,
            ..READY
        }),
        LogoffStep::Skip
    );
    assert_eq!(context.logoff(READY), LogoffStep::Skip);
}

#[test]
fn objects_are_installed_once() {
    let token = ObjectToken {
        generation: GenerationId::new(1),
        id: 2,
        epoch: 3,
    };
    let mut state = SessionAndChannel::new(7);
    assert_eq!(state.object(), Err(SessionError::ObjectUnavailable));
    assert_eq!(state.set_object(token), Ok(()));
    assert_eq!(
        state.set_object(token),
        Err(SessionError::ObjectAlreadyInstalled)
    );
    assert_eq!(state.object(), Ok(token));
    assert_eq!(Channel::new(&state), Err(SessionError::ChannelNotSet));
}

#[test]
fn messages_are_protected_as_their_session_asks() {
    let context = ChannelContext::new(7, 0);
    let security = |status: SessionStatus| {
        context
            .prepare(None, false, &status)
            .map(|prepared| (prepared.security, prepared.signed))
    };
    assert_eq!(security(READY), Ok((Protection::SignWithChannel, true)));
    assert_eq!(
        security(SessionStatus {
            should_encrypt: Some(true),
            ..READY
        }),
        Ok((Protection::Encrypt, false))
    );
    assert_eq!(
        security(SessionStatus {
            allow_unsigned: Some(true),
            ..READY
        }),
        Ok((Protection::Unprotected, false))
    );
    assert_eq!(
        security(SessionStatus {
            phase: SessionPhase::Initial,
            should_encrypt: None,
            allow_unsigned: None,
        }),
        Ok((Protection::Unprotected, false))
    );
    assert_eq!(
        security(SessionStatus {
            phase: SessionPhase::SettingUp,
            should_encrypt: None,
            allow_unsigned: Some(false),
        }),
        Ok((Protection::SignWithChannel, true))
    );
    assert_eq!(
        security(SessionStatus {
            phase: SessionPhase::Invalid,
            ..READY
        }),
        Err(SessionError::Invalid)
    );
    assert_eq!(
        security(SessionStatus {
            should_encrypt: None,
            ..READY
        }),
        Err(SessionError::Unknown)
    );
    assert_eq!(
        context.prepare(Some(Protection::SnapshotKdfSign), false, &READY),
        Ok(Prepared {
            security: Protection::SnapshotKdfSign,
            signed: true,
            session_id: 7,
        })
    );
}

#[test]
fn incoming_messages_are_held_to_their_session() {
    let context = ChannelContext::new(7, 0);
    assert_eq!(context.verify_incoming(7, &SIGNED, &READY), Ok(()));
    assert_eq!(
        context.verify_incoming(0, &SIGNED, &READY),
        Err(SessionError::NoSessionId)
    );
    assert_eq!(
        context.verify_incoming(8, &SIGNED, &READY),
        Err(SessionError::ForeignSession)
    );
    assert_eq!(
        context.verify_incoming(7, &BARE, &READY),
        Err(SessionError::NotSigned)
    );
    let encrypting = SessionStatus {
        should_encrypt: Some(true),
        ..READY
    };
    assert_eq!(
        context.verify_incoming(7, &SIGNED, &encrypting),
        Err(SessionError::NotEncrypted)
    );
    assert_eq!(
        context.notify(7, &SIGNED, &READY, true),
        Ok(NotifyStep::Invalidate)
    );
    assert_eq!(
        context.notify(7, &SIGNED, &READY, false),
        Ok(NotifyStep::Ignore)
    );
    assert_eq!(
        context.notify(7, &BARE, &READY, true),
        Err(SessionError::NotSigned)
    );
    assert_eq!(
        context.executed(&CommandEnd::SignatureFailed, &READY),
        ExecutedStep::RecoverSession(7)
    );
    assert_eq!(
        context.executed(
            &CommandEnd::Answered {
                session_id: 7,
                form: SIGNED
            },
            &READY
        ),
        ExecutedStep::Accept
    );
    assert_eq!(ChannelContext::make_for_setup(7).channel_id(), u32::MAX);
}

fn response(form: MessageForm, guest_or_null: bool) -> SetupResponse {
    SetupResponse {
        session_id: 7,
        flags: 3,
        guest_or_null,
        form,
    }
}

#[test]
fn new_sessions_are_set_up_in_two_rounds() {
    let mut setup = SessionSetup::new(SetupKind::New, PRIMARY_CHANNEL_ID, None);
    let first = setup
        .make_request(false, SigningPolicy::WhenRequired, false, true)
        .unwrap();
    assert_eq!(first.security, Protection::Unprotected);
    assert_eq!(first.session_id, None);
    assert!(!first.binding && !first.signing_required && first.dfs);
    assert!(setup.skip_security_validation());
    assert_eq!(
        SessionSetup::expected_status(false),
        Status::MoreProcessingRequired
    );
    assert_eq!(setup.take_response(&response(BARE, false), false), Ok(false));

    let last = setup
        .make_request(true, SigningPolicy::Required, false, false)
        .unwrap();
    assert_eq!(last.session_id, Some(7));
    assert_eq!(last.security, Protection::Unprotected);
    assert!(last.signing_required);
    assert!(setup.make_channel());
    assert!(!setup.skip_security_validation());
    assert_eq!(SessionSetup::expected_status(true), Status::Success);
    assert_eq!(
        setup.take_response(&response(BARE, false), true),
        Err(SetupError::UnsignedFinalResponse)
    );
    assert_eq!(setup.take_response(&response(SIGNED, false), true), Ok(true));
    assert_eq!(
        setup.finish(),
        Ok(SetupFinish {
            make_channel: false,
            ready: Some(3),
        })
    );
    assert_eq!(
        setup.session().unwrap().channel(),
        Some(ChannelInfo {
            id: PRIMARY_CHANNEL_ID,
            binding: false,
        })
    );
    assert_eq!(setup.into_session().unwrap().session_id(), 7);
}

#[test]
fn guests_need_no_signature() {
    let mut setup = SessionSetup::new(SetupKind::New, 0, None);
    assert_eq!(setup.take_response(&response(BARE, true), true), Ok(true));
    assert_eq!(
        setup.finish(),
        Ok(SetupFinish {
            make_channel: true,
            ready: Some(3),
        })
    );
}

#[test]
fn binds_sign_their_final_request_and_leave_the_session_alone() {
    let primary = ChannelInfo {
        id: 0,
        binding: false,
    };
    let mut setup = SessionSetup::new(SetupKind::Bind, 4, Some((7, primary)));
    let request = setup
        .make_request(true, SigningPolicy::WhenRequired, true, false)
        .unwrap();
    assert_eq!(request.security, Protection::SnapshotKdfSign);
    assert!(request.signed && request.binding && request.signing_required);
    assert!(setup.session().unwrap().channel().unwrap().binding);
    assert!(!setup.make_channel());
    assert_eq!(setup.take_response(&response(SIGNED, false), true), Ok(true));
    assert_eq!(
        setup.finish(),
        Ok(SetupFinish {
            make_channel: false,
            ready: None,
        })
    );
    assert_eq!(
        setup.error_cleanup(),
        SetupCleanup::End { invalidate: false }
    );
}

#[test]
fn failed_setups_are_cleaned_up() {
    let mut setup = SessionSetup::new(SetupKind::New, 0, None);
    assert_eq!(setup.error_cleanup(), SetupCleanup::Nothing);
    assert_eq!(setup.finish(), Err(SetupError::Incomplete));
    assert_eq!(
        setup.make_request(true, SigningPolicy::Required, true, true),
        Err(SetupError::NoSession)
    );
    let _ = setup.take_response(&response(BARE, false), false);
    assert_eq!(setup.error_cleanup(), SetupCleanup::End { invalidate: true });
    let elapsed = Duration::from_secs(30);
    assert_eq!(
        SessionSetup::receive_error(ReceiveError::TimedOut { elapsed }, false),
        Some(SetupError::Timeout { elapsed })
    );
    assert_eq!(
        SessionSetup::receive_error(ReceiveError::Unprotected, true),
        Some(SetupError::UnsignedFinalResponse)
    );
    assert_eq!(
        SessionSetup::receive_error(ReceiveError::Unprotected, false),
        None
    );
    assert_eq!(SessionSetup::receive_error(ReceiveError::Other, true), None);
}

#[test]
fn rounds_end_when_both_sides_agree() {
    let round = Round {
        authenticated_before: false,
        authenticated: false,
        has_key: false,
        empty_token: false,
    };
    assert_eq!(
        SessionSetup::round(round),
        RoundStep::Send {
            final_request: false
        }
    );
    assert_eq!(
        SessionSetup::round(Round {
            has_key: true,
            ..round
        }),
        RoundStep::Send {
            final_request: true
        }
    );
    assert_eq!(
        SessionSetup::round(Round {
            authenticated: true,
            empty_token: true,
            ..round
        }),
        RoundStep::Done
    );
    assert_eq!(
        SessionSetup::round(Round {
            authenticated_before: true,
            ..round
        }),
        RoundStep::Done
    );
}
