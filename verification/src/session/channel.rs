//! Channels: what every message of a session is given on its way out, and
//! what is asked of it on its way in.

use crate::runtime::wire::{MessageForm, Protection};
use crate::session::{SessionAndChannel, SessionError, SessionPhase, SessionStatus};
use vstd::prelude::*;

verus! {

/// A channel of a session.
#[derive(Clone, Copy, Debug, PartialEq, Eq, Structural)]
pub struct Channel {
    channel_id: u32,
    context: ChannelContext,
}

impl Channel {
    pub closed spec fn id(&self) -> u32 {
        self.channel_id
    }

    pub closed spec fn session(&self) -> u64 {
        self.context.session_id
    }

    /// The channel of a session whose setup installed one.
    pub fn new(setup: &SessionAndChannel) -> (channel: Result<Self, SessionError>)
        ensures
            match setup.installed() {
                Some(info) => channel matches Ok(channel) && channel.id() == info.id
                    && channel.session() == setup.id(),
                None => channel == Err::<Channel, SessionError>(SessionError::ChannelNotSet),
            },
    {
        match setup.channel() {
            Some(info) => Ok(
                Channel {
                    channel_id: info.id,
                    context: ChannelContext::new(setup.session_id(), info.id),
                },
            ),
            None => Err(SessionError::ChannelNotSet),
        }
    }

    /// The number of the session, as it stands on the wire.
    pub fn session_id(&self) -> (id: u64)
        ensures
            id == self.session(),
    {
        self.context.session_id
    }

    pub fn channel_id(&self) -> (id: u32)
        ensures
            id == self.id(),
    {
        self.channel_id
    }

    /// Whether messages may go without signatures.
    pub fn allow_unsigned(&self, status: &SessionStatus) -> (allowed: Result<bool, SessionError>)
        ensures
            allowed == told(status.allow_unsigned),
    {
        match status.allow_unsigned {
            Some(allowed) => Ok(allowed),
            None => Err(SessionError::Unknown),
        }
    }

    /// Whether every request is encrypted.
    pub fn should_encrypt(&self, status: &SessionStatus) -> (encrypt: Result<bool, SessionError>)
        ensures
            encrypt == told(status.should_encrypt),
    {
        match status.should_encrypt {
            Some(encrypt) => Ok(encrypt),
            None => Err(SessionError::Unknown),
        }
    }
}

/// What a session says, where it does.
pub open spec fn told(answer: Option<bool>) -> Result<bool, SessionError> {
    match answer {
        Some(answer) => Ok(answer),
        None => Err(SessionError::Unknown),
    }
}

/// What a message is given on its way out.
#[derive(Clone, Copy, Debug, PartialEq, Eq, Structural)]
pub struct Prepared {
    pub security: Protection,
    /// Whether its header says that it is signed.
    pub signed: bool,
    pub session_id: u64,
}

/// How a session protects a message that does not say how.
pub open spec fn protection_for(status: SessionStatus) -> Result<Protection, SessionError> {
    match status.phase {
        SessionPhase::Invalid => Err(SessionError::Invalid),
        SessionPhase::Initial => Ok(Protection::Unprotected),
        SessionPhase::Ready => match status.should_encrypt {
            None => Err(SessionError::Unknown),
            Some(true) => Ok(Protection::Encrypt),
            Some(false) => signed_unless_allowed(status),
        },
        SessionPhase::SettingUp => signed_unless_allowed(status),
    }
}

pub open spec fn signed_unless_allowed(status: SessionStatus) -> Result<Protection, SessionError> {
    match status.allow_unsigned {
        None => Err(SessionError::Unknown),
        Some(true) => Ok(Protection::Unprotected),
        Some(false) => Ok(Protection::SignWithChannel),
    }
}

pub open spec fn signs(security: Protection) -> bool {
    security == Protection::SignWithChannel || security == Protection::SnapshotKdfSign
}

/// Why a message is refused on its way in, if it is.
pub open spec fn incoming_refused(
    own_session: u64,
    session_id: u64,
    form: MessageForm,
    status: SessionStatus,
) -> Option<SessionError> {
    if status.phase == SessionPhase::Ready && status.should_encrypt is None {
        Some(SessionError::Unknown)
    } else if status.allow_unsigned is None {
        Some(SessionError::Unknown)
    } else if session_id == 0 {
        Some(SessionError::NoSessionId)
    } else if session_id != own_session {
        Some(SessionError::ForeignSession)
    } else if !form.encrypted && status.phase == SessionPhase::Ready && status.should_encrypt
        == Some(true) {
        Some(SessionError::NotEncrypted)
    } else if !(form.signed || form.encrypted) && status.allow_unsigned != Some(true) {
        Some(SessionError::NotSigned)
    } else {
        None
    }
}

/// What a notification of the server asks for.
#[derive(Clone, Copy, Debug, PartialEq, Eq, Structural)]
pub enum NotifyStep {
    /// The session was closed: it may not be used any more.
    Invalidate,
    Ignore,
}

/// How a command ended.
#[derive(Clone, Copy, Debug, PartialEq, Eq, Structural)]
pub enum CommandEnd {
    Answered { session_id: u64, form: MessageForm },
    /// The signature of its answer is not genuine.
    SignatureFailed,
    Failed,
}

/// What follows from the end of a command.
#[derive(Clone, Copy, Debug, PartialEq, Eq, Structural)]
pub enum ExecutedStep {
    Accept,
    Refuse(SessionError),
    /// Recover the session, and hand on the failure whatever comes of it.
    RecoverSession(u64),
    Fail,
}

/// The messages of one channel.
#[derive(Clone, Copy, Debug, PartialEq, Eq, Structural)]
pub struct ChannelContext {
    session_id: u64,
    channel_id: u32,
}

impl ChannelContext {
    pub closed spec fn session(&self) -> u64 {
        self.session_id
    }

    pub closed spec fn channel(&self) -> u32 {
        self.channel_id
    }

    pub fn new(session_id: u64, channel_id: u32) -> (context: Self)
        ensures
            context.session() == session_id,
            context.channel() == channel_id,
    {
        ChannelContext { session_id, channel_id }
    }

    /// The context of a session whose setup is under way: its channel has no
    /// number yet.
    pub fn make_for_setup(session_id: u64) -> (context: Self)
        ensures
            context.session() == session_id,
            context.channel() == u32::MAX,
    {
        ChannelContext { session_id, channel_id: u32::MAX }
    }

    pub fn session_id(&self) -> (id: u64)
        ensures
            id == self.session(),
    {
        self.session_id
    }

    pub fn channel_id(&self) -> (id: u32)
        ensures
            id == self.channel(),
    {
        self.channel_id
    }

    fn signing_choice(status: &SessionStatus) -> (security: Result<Protection, SessionError>)
        ensures
            security == signed_unless_allowed(*status),
    {
        match status.allow_unsigned {
            None => Err(SessionError::Unknown),
            Some(true) => Ok(Protection::Unprotected),
            Some(false) => Ok(Protection::SignWithChannel),
        }
    }

    /// Gives a message what the session asks for. `security` and `signed`
    /// are what the message says itself.
    pub fn prepare(&self, security: Option<Protection>, signed: bool, status: &SessionStatus) -> (
        prepared: Result<Prepared, SessionError>)
        ensures
            prepared == (match (match security {
                Some(security) => Ok(security),
                None => protection_for(*status),
            }) {
                Err(error) => Err(error),
                Ok(security) => Ok(
                    Prepared {
                        security,
                        signed: signed || signs(security),
                        session_id: self.session(),
                    },
                ),
            }),
    {
        let security = match security {
            Some(security) => security,
            None => {
                let choice = match status.phase {
                    SessionPhase::Invalid => Err(SessionError::Invalid),
                    SessionPhase::Initial => Ok(Protection::Unprotected),
                    SessionPhase::Ready => match status.should_encrypt {
                        None => Err(SessionError::Unknown),
                        Some(true) => Ok(Protection::Encrypt),
                        Some(false) => Self::signing_choice(status),
                    },
                    SessionPhase::SettingUp => Self::signing_choice(status),
                };
                match choice {
                    Ok(security) => security,
                    Err(error) => {
                        return Err(error);
                    },
                }
            },
        };
        let signs_it = security == Protection::SignWithChannel || security
            == Protection::SnapshotKdfSign;
        Ok(Prepared { security, signed: signed || signs_it, session_id: self.session_id })
    }

    /// Checks a message on its way in: that it is this session's, and as
    /// protected as the session asks for.
    pub fn verify_incoming(&self, session_id: u64, form: &MessageForm, status: &SessionStatus) -> (
        result: Result<(), SessionError>)
        ensures
            result == (match incoming_refused(self.session(), session_id, *form, *status) {
                Some(error) => Err::<(), SessionError>(error),
                None => Ok(()),
            }),
    {
        let ready = status.phase == SessionPhase::Ready;
        let encryption_required = if ready {
            match status.should_encrypt {
                Some(encrypt) => encrypt,
                None => {
                    return Err(SessionError::Unknown);
                },
            }
        } else {
            false
        };
        let unsigned_allowed = match status.allow_unsigned {
            Some(allowed) => allowed,
            None => {
                return Err(SessionError::Unknown);
            },
        };
        if session_id == 0 {
            return Err(SessionError::NoSessionId);
        }
        if session_id != self.session_id {
            return Err(SessionError::ForeignSession);
        }
        if !form.encrypted && encryption_required {
            return Err(SessionError::NotEncrypted);
        }
        if !form.signed_or_encrypted() && !unsigned_allowed {
            return Err(SessionError::NotSigned);
        }
        Ok(())
    }

    /// Checks a response. The checks may be left out only as long as nothing
    /// of the session is set up.
    pub fn received(
        &self,
        session_id: u64,
        form: &MessageForm,
        status: &SessionStatus,
        skip_security_validation: bool,
    ) -> (result: Result<(), SessionError>)
        requires
            skip_security_validation ==> status.phase == SessionPhase::Initial,
        ensures
            result == (if skip_security_validation {
                Ok::<(), SessionError>(())
            } else {
                match incoming_refused(self.session(), session_id, *form, *status) {
                    Some(error) => Err(error),
                    None => Ok(()),
                }
            }),
    {
        if skip_security_validation {
            return Ok(());
        }
        self.verify_incoming(session_id, form, status)
    }

    /// What follows from the end of a command.
    pub fn executed(&self, end: &CommandEnd, status: &SessionStatus) -> (step: ExecutedStep)
        ensures
            step == (match *end {
                CommandEnd::Answered { session_id, form } => match incoming_refused(
                    self.session(),
                    session_id,
                    form,
                    *status,
                ) {
                    Some(error) => ExecutedStep::Refuse(error),
                    None => ExecutedStep::Accept,
                },
                CommandEnd::SignatureFailed => ExecutedStep::RecoverSession(self.session()),
                CommandEnd::Failed => ExecutedStep::Fail,
            }),
    {
        match *end {
            CommandEnd::Answered { session_id, form } => match self.verify_incoming(
                session_id,
                &form,
                status,
            ) {
                Ok(_) => ExecutedStep::Accept,
                Err(error) => ExecutedStep::Refuse(error),
            },
            CommandEnd::SignatureFailed => ExecutedStep::RecoverSession(self.session_id),
            CommandEnd::Failed => ExecutedStep::Fail,
        }
    }

    /// What a message that nobody asked for means. It is checked first.
    pub fn notify(
        &self,
        session_id: u64,
        form: &MessageForm,
        status: &SessionStatus,
        session_closed: bool,
    ) -> (step: Result<NotifyStep, SessionError>)
        ensures
            step == (match incoming_refused(self.session(), session_id, *form, *status) {
                Some(error) => Err::<NotifyStep, SessionError>(error),
                None => Ok(
                    if session_closed {
                        NotifyStep::Invalidate
                    } else {
                        NotifyStep::Ignore
                    },
                ),
            }),
    {
        if let Err(error) = self.verify_incoming(session_id, form, status) {
            return Err(error);
        }
        Ok(
            if session_closed {
                NotifyStep::Invalidate
            } else {
                NotifyStep::Ignore
            },
        )
    }
}

/// A session that is ready and does not allow for unsigned messages neither
/// sends nor takes a message without protection, unless that message says
/// itself how it is sent.
pub proof fn ready_sessions_protect_their_messages(
    status: SessionStatus,
    own_session: u64,
    session_id: u64,
    form: MessageForm,
)
    requires
        status.phase == SessionPhase::Ready,
        status.allow_unsigned == Some(false),
    ensures
        protection_for(status) matches Ok(security) ==> security != Protection::Unprotected,
        incoming_refused(own_session, session_id, form, status) is None ==> form.signed
            || form.encrypted,
        incoming_refused(own_session, session_id, form, status) is None && status.should_encrypt
            == Some(true) ==> form.encrypted,
{
}

/// A message of another session is never taken.
pub proof fn foreign_messages_are_refused(
    status: SessionStatus,
    own_session: u64,
    session_id: u64,
    form: MessageForm,
)
    requires
        session_id != own_session,
    ensures
        incoming_refused(own_session, session_id, form, status) is Some,
{
}

/// What protects a message that does not say how follows from its session:
/// nothing before the setup, encryption where a session that is ready asks
/// for it, and else a signature, unless it may be left out. A session that is
/// gone or does not know yet sends nothing.
pub proof fn protection_follows_the_session(status: SessionStatus)
    ensures
        ({
            let chosen = protection_for(status);
            let knows = !(status.phase is Ready) || status.should_encrypt is Some;
            let encrypts = status.phase is Ready && status.should_encrypt == Some(true);
            let talks = status.phase is SettingUp || status.phase is Ready;
            &&& chosen == Err::<Protection, SessionError>(SessionError::Invalid) <==> status.phase
                is Invalid
            &&& status.phase is Initial ==> chosen == Ok::<Protection, SessionError>(
                Protection::Unprotected,
            )
            &&& chosen == Ok::<Protection, SessionError>(Protection::Encrypt) <==> encrypts
            &&& chosen == Ok::<Protection, SessionError>(Protection::SignWithChannel) <==> talks
                && knows && !encrypts && status.allow_unsigned == Some(false)
            &&& chosen == Ok::<Protection, SessionError>(Protection::Unprotected) <==> status.phase
                is Initial || (talks && knows && !encrypts && status.allow_unsigned == Some(true))
            &&& chosen == Err::<Protection, SessionError>(SessionError::Unknown) <==> talks && (
            !knows || (!encrypts && status.allow_unsigned is None))
        }),
{
}

/// A message is signed where its protection is one of the two signatures.
pub proof fn signatures_are_announced(security: Protection)
    ensures
        signs(security) <==> (security == Protection::SignWithChannel || security
            == Protection::SnapshotKdfSign),
{
}

/// A message is taken where the session knows what it asks for, the message
/// is the session's, it is encrypted where that is asked for, and it is
/// signed or encrypted unless that may be left out. Else the first of these
/// that fails is told.
pub proof fn messages_are_refused_with_reason(
    own_session: u64,
    session_id: u64,
    form: MessageForm,
    status: SessionStatus,
)
    ensures
        ({
            let refused = incoming_refused(own_session, session_id, form, status);
            let knows = status.allow_unsigned is Some && (status.phase is Ready
                ==> status.should_encrypt is Some);
            let own = session_id != 0 && session_id == own_session;
            let bare = status.phase is Ready && status.should_encrypt == Some(true)
                && !form.encrypted;
            let unsigned = !form.signed && !form.encrypted && status.allow_unsigned == Some(false);
            &&& refused is None <==> knows && own && !bare && !unsigned
            &&& refused == Some(SessionError::Unknown) <==> !knows
            &&& refused == Some(SessionError::NoSessionId) <==> knows && session_id == 0
            &&& refused == Some(SessionError::ForeignSession) <==> knows && session_id != 0
                && session_id != own_session
            &&& refused == Some(SessionError::NotEncrypted) <==> knows && own && bare
            &&& refused == Some(SessionError::NotSigned) <==> knows && own && !bare && unsigned
        }),
{
    if let Some(allowed) = status.allow_unsigned {
        assert(allowed == true || allowed == false);
        assert(status.allow_unsigned == Some(true) || status.allow_unsigned == Some(false));
    }
}

/// What a session says is handed on, and that it does not say yet is an
/// error.
pub proof fn answers_are_handed_on(answer: Option<bool>)
    ensures
        answer matches Some(said) ==> told(answer) == Ok::<bool, SessionError>(said),
        answer is None ==> told(answer) == Err::<bool, SessionError>(SessionError::Unknown),
{
}

} // verus!
