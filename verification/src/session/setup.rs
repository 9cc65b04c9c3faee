//! The setup of a session: rounds of tokens until both sides agree, and what
//! is signed, verified and installed on the way.

use crate::clock::Duration;
use crate::protocol::Status;
use crate::runtime::wire::{MessageForm, Protection};
use crate::session::{ChannelInfo, SessionAndChannel};
use crate::signing::SigningPolicy;
use vstd::prelude::*;

verus! {

/// The two kinds of setup, which share their rounds and differ in what they
/// leave behind.
#[derive(Clone, Copy, Debug, PartialEq, Eq, Structural)]
pub enum SetupKind {
    /// A new session: its state is made with the first response, and it is
    /// invalidated where its setup fails.
    New,
    /// Another channel for a session that is there already, and that stays
    /// usable where its setup fails.
    Bind,
}

#[derive(Clone, Copy, Debug, PartialEq, Eq, Structural)]
pub enum SetupError {
    /// The final response carries no signature that was verified.
    UnsignedFinalResponse,
    /// No response came in time, which was so long.
    Timeout { elapsed: Duration },
    /// The rounds ended without a response.
    Incomplete,
    /// The final request comes before there is a session.
    NoSession,
}

/// What follows from a round of the authentication.
#[derive(Clone, Copy, Debug, PartialEq, Eq, Structural)]
pub enum RoundStep {
    /// Both sides agree: nothing is left to send.
    Done,
    /// Send the token.
    Send { final_request: bool },
}

/// What an authentication says of itself: before the round, and after it.
#[derive(Clone, Copy, Debug, PartialEq, Eq, Structural)]
pub struct Round {
    pub authenticated_before: bool,
    pub authenticated: bool,
    /// Whether there is a key for the session.
    pub has_key: bool,
    /// Whether the token is empty.
    pub empty_token: bool,
}

pub open spec fn round_step(round: Round) -> RoundStep {
    if round.authenticated_before || (round.authenticated && round.empty_token) {
        RoundStep::Done
    } else {
        RoundStep::Send { final_request: round.authenticated || round.has_key }
    }
}

/// A setup request, beside the token.
#[derive(Clone, Copy, Debug, PartialEq, Eq, Structural)]
pub struct SetupRequest {
    pub signing_required: bool,
    pub binding: bool,
    pub dfs: bool,
    pub security: Protection,
    /// Whether its header says that it is signed.
    pub signed: bool,
    pub session_id: Option<u64>,
}

/// What a response to a setup request says.
#[derive(Clone, Copy, Debug, PartialEq, Eq, Structural)]
pub struct SetupResponse {
    pub session_id: u64,
    /// The flags of the session.
    pub flags: u16,
    /// Whether the session is a guest's, or nobody's.
    pub guest_or_null: bool,
    pub form: MessageForm,
}

/// What is left to do when the rounds are over.
#[derive(Clone, Copy, Debug, PartialEq, Eq, Structural)]
pub struct SetupFinish {
    /// Whether the channel is still to be made.
    pub make_channel: bool,
    /// The flags with which a new session becomes ready.
    pub ready: Option<u16>,
}

/// What is to be done about a setup that failed.
#[derive(Clone, Copy, Debug, PartialEq, Eq, Structural)]
pub enum SetupCleanup {
    Nothing,
    /// The session ends, on this connection.
    End { invalidate: bool },
}

/// Why no response could be taken.
#[derive(Clone, Copy, Debug, PartialEq, Eq, Structural)]
pub enum ReceiveError {
    /// None came in time, which was so long.
    TimedOut { elapsed: Duration },
    /// It was neither signed nor encrypted.
    Unprotected,
    Other,
}

#[verifier::ext_equal]
pub struct SetupModel {
    pub kind: SetupKind,
    /// The session, once there is one.
    pub session: Option<SessionAndChannel>,
    pub flags: Option<u16>,
    pub channel_id: u32,
}

impl SetupModel {
    /// A bind has its session from the beginning, and no flags come without
    /// a session.
    pub open spec fn wf(self) -> bool {
        &&& self.kind == SetupKind::Bind ==> self.session is Some
        &&& self.flags is Some ==> self.session is Some
    }

    pub open spec fn channel_installed(self) -> bool {
        self.session matches Some(session) && session.installed() is Some
    }
}

/// The setup of a session.
#[derive(Debug, PartialEq, Eq, Structural)]
pub struct SessionSetup {
    kind: SetupKind,
    session: Option<SessionAndChannel>,
    flags: Option<u16>,
    channel_id: u32,
}

impl View for SessionSetup {
    type V = SetupModel;

    closed spec fn view(&self) -> SetupModel {
        SetupModel {
            kind: self.kind,
            session: self.session,
            flags: self.flags,
            channel_id: self.channel_id,
        }
    }
}

impl SessionSetup {
    /// Begins a setup. A bind talks over a copy of the primary channel, which
    /// only binds; a new session has no channel yet.
    pub fn new(kind: SetupKind, channel_id: u32, primary: Option<(u64, ChannelInfo)>) -> (setup: Self)
        requires
            (kind == SetupKind::Bind) == (primary is Some),
        ensures
            setup@.wf(),
            setup@.kind == kind,
            setup@.flags is None,
            setup@.channel_id == channel_id,
            match primary {
                None => setup@.session is None,
                Some((session_id, channel)) => {
                    &&& setup@.session matches Some(session)
                    &&& session.id() == session_id
                    &&& session.installed() == Some(ChannelInfo { binding: true, ..channel })
                    &&& session.object_token() is None
                },
            },
    {
        let session = match primary {
            None => None,
            Some((session_id, channel)) => {
                let mut session = SessionAndChannel::new(session_id);
                session.set_channel(ChannelInfo { id: channel.id, binding: true });
                Some(session)
            },
        };
        SessionSetup { kind, session, flags: None, channel_id }
    }

    pub fn kind(&self) -> (kind: SetupKind)
        ensures
            kind == self@.kind,
    {
        self.kind
    }

    /// The channel that the setup is for.
    pub fn channel_id(&self) -> (id: u32)
        ensures
            id == self@.channel_id,
    {
        self.channel_id
    }

    /// Whether a round is over, or what it sends.
    pub fn round(round: Round) -> (step: RoundStep)
        ensures
            step == round_step(round),
    {
        if round.authenticated_before {
            return RoundStep::Done;
        }
        if round.authenticated && round.empty_token {
            return RoundStep::Done;
        }
        RoundStep::Send { final_request: round.authenticated || round.has_key }
    }

    /// The request of a round. Only the final request of a bind is signed:
    /// with a key that is derived from the transcript up to it.
    pub fn make_request(
        &self,
        final_request: bool,
        policy: SigningPolicy,
        server_requires_signing: bool,
        dfs: bool,
    ) -> (request: Result<SetupRequest, SetupError>)
        ensures
            final_request && self@.session is None ==> request == Err::<SetupRequest, SetupError>(
                SetupError::NoSession,
            ),
            !(final_request && self@.session is None) ==> request == Ok::<SetupRequest, SetupError>(
                SetupRequest {
                    signing_required: policy == SigningPolicy::Required || server_requires_signing,
                    binding: self@.kind == SetupKind::Bind,
                    dfs,
                    security: if final_request && self@.kind == SetupKind::Bind {
                        Protection::SnapshotKdfSign
                    } else {
                        Protection::Unprotected
                    },
                    signed: final_request && self@.kind == SetupKind::Bind,
                    session_id: match self@.session {
                        Some(session) => Some(session.id()),
                        None => None,
                    },
                },
            ),
    {
        if final_request && self.session.is_none() {
            return Err(SetupError::NoSession);
        }
        let signs = final_request && self.kind == SetupKind::Bind;
        let session_id = match &self.session {
            Some(session) => Some(session.session_id()),
            None => None,
        };
        Ok(
            SetupRequest {
                signing_required: policy.required(server_requires_signing),
                binding: self.kind == SetupKind::Bind,
                dfs,
                security: if signs {
                    Protection::SnapshotKdfSign
                } else {
                    Protection::Unprotected
                },
                signed: signs,
                session_id,
            },
        )
    }

    /// Installs the channel: behind the final request, before its response is
    /// taken. Says whether the session is to be given its keys first, which
    /// a session that is only bound has already.
    pub fn make_channel(&mut self) -> (exchange_keys: bool)
        requires
            old(self)@.wf(),
        ensures
            exchange_keys == (old(self)@.kind == SetupKind::New),
            final(self)@.wf(),
            final(self)@.kind == old(self)@.kind,
            final(self)@.flags == old(self)@.flags,
            final(self)@.channel_id == old(self)@.channel_id,
            match old(self)@.session {
                None => final(self)@.session is None,
                Some(session) => {
                    &&& final(self)@.session matches Some(after)
                    &&& after.id() == session.id()
                    &&& after.object_token() == session.object_token()
                    &&& after.installed() == Some(
                        ChannelInfo { id: old(self)@.channel_id, binding: false },
                    )
                },
            },
    {
        if let Some(mut session) = self.session.take() {
            session.set_channel(ChannelInfo { id: self.channel_id, binding: false });
            self.session = Some(session);
        }
        self.kind == SetupKind::New
    }

    /// The status that a response is to have.
    pub fn expected_status(final_request: bool) -> (status: Status)
        ensures
            status == (if final_request {
                Status::Success
            } else {
                Status::MoreProcessingRequired
            }),
    {
        if final_request {
            Status::Success
        } else {
            Status::MoreProcessingRequired
        }
    }

    /// Whether a response is taken without the checks of a session: only as
    /// long as a new session has no channel to check with.
    pub fn skip_security_validation(&self) -> (skip: bool)
        ensures
            skip == (self@.kind == SetupKind::New && !self@.channel_installed()),
    {
        let installed = match &self.session {
            Some(session) => session.channel().is_some(),
            None => false,
        };
        self.kind == SetupKind::New && !installed
    }

    /// What a failure to take a response means to a setup.
    pub fn receive_error(error: ReceiveError, authenticated: bool) -> (setup_error: Option<
        SetupError,
    >)
        ensures
            setup_error == (match error {
                ReceiveError::TimedOut { elapsed } => Some(SetupError::Timeout { elapsed }),
                ReceiveError::Unprotected => if authenticated {
                    Some(SetupError::UnsignedFinalResponse)
                } else {
                    None
                },
                ReceiveError::Other => None,
            }),
    {
        match error {
            ReceiveError::TimedOut { elapsed } => Some(SetupError::Timeout { elapsed }),
            ReceiveError::Unprotected => if authenticated {
                Some(SetupError::UnsignedFinalResponse)
            } else {
                None
            },
            ReceiveError::Other => None,
        }
    }

    /// Takes a response. The first one of a new session makes its state; the
    /// final one has to be protected, unless the session is a guest's.
    /// Says whether the rounds are over.
    pub fn take_response(&mut self, response: &SetupResponse, final_request: bool) -> (result: Result<
        bool,
        SetupError,
    >)
        requires
            old(self)@.wf(),
        ensures
            final(self)@.wf(),
            final(self)@.kind == old(self)@.kind,
            final(self)@.channel_id == old(self)@.channel_id,
            match old(self)@.session {
                Some(session) => final(self)@.session == Some(session),
                None => {
                    &&& final(self)@.session matches Some(session)
                    &&& session.id() == response.session_id
                    &&& session.installed() is None
                    &&& session.object_token() is None
                },
            },
            if final_request && !response.guest_or_null && !(response.form.signed
                || response.form.encrypted) {
                &&& result == Err::<bool, SetupError>(SetupError::UnsignedFinalResponse)
                &&& final(self)@.flags == old(self)@.flags
            } else {
                &&& result == Ok::<bool, SetupError>(final_request)
                &&& final(self)@.flags == Some(response.flags)
            },
    {
        if self.session.is_none() {
            self.session = Some(SessionAndChannel::new(response.session_id));
        }
        if final_request && !response.guest_or_null && !response.form.signed_or_encrypted() {
            return Err(SetupError::UnsignedFinalResponse);
        }
        self.flags = Some(response.flags);
        Ok(final_request)
    }

    /// Ends the setup: what is left to do.
    pub fn finish(&self) -> (finish: Result<SetupFinish, SetupError>)
        requires
            self@.wf(),
        ensures
            finish == (match self@.flags {
                None => Err(SetupError::Incomplete),
                Some(flags) => Ok(
                    SetupFinish {
                        make_channel: !self@.channel_installed(),
                        ready: if self@.kind == SetupKind::New {
                            Some(flags)
                        } else {
                            None
                        },
                    },
                ),
            }),
    {
        let flags = match self.flags {
            Some(flags) => flags,
            None => {
                return Err(SetupError::Incomplete);
            },
        };
        let make_channel = match &self.session {
            Some(session) => session.channel().is_none(),
            None => false,
        };
        Ok(
            SetupFinish {
                make_channel,
                ready: if self.kind == SetupKind::New {
                    Some(flags)
                } else {
                    None
                },
            },
        )
    }

    /// What is to be done about a setup that failed: a session that was being
    /// bound stays usable on its own channel.
    pub fn error_cleanup(&self) -> (cleanup: SetupCleanup)
        ensures
            cleanup == (match self@.session {
                None => SetupCleanup::Nothing,
                Some(_) => SetupCleanup::End { invalidate: self@.kind == SetupKind::New },
            }),
    {
        match &self.session {
            None => SetupCleanup::Nothing,
            Some(_) => SetupCleanup::End { invalidate: self.kind == SetupKind::New },
        }
    }

    /// The state that the setup leaves behind.
    pub fn session(&self) -> (session: Option<&SessionAndChannel>)
        ensures
            session == (match self@.session {
                Some(session) => Some(&session),
                None => None,
            }),
    {
        self.session.as_ref()
    }

    /// Ends the setup, and hands out the state that it leaves behind.
    pub fn into_session(self) -> (session: Option<SessionAndChannel>)
        ensures
            session == self@.session,
    {
        self.session
    }
}

/// The rounds are over once both sides agreed before, or agree now with
/// nothing left to say; else the token is sent, as the final one where both
/// sides agree or the key is there.
pub proof fn rounds_end_in_agreement(round: Round)
    ensures
        round_step(round) is Done <==> round.authenticated_before || (round.authenticated
            && round.empty_token),
        round_step(round) matches RoundStep::Send { final_request } ==> (final_request
            <==> round.authenticated || round.has_key),
{
}

/// A setup has a channel once its session has one.
pub proof fn channels_belong_to_sessions(setup: SetupModel)
    ensures
        setup.channel_installed() <==> setup.session is Some
            && setup.session->Some_0.installed() is Some,
{
}

} // verus!
