//! The rounds of a session setup, one event at a time.
//!
//! Whoever runs the setup performs each action and hands back what came of
//! it. Tokens and keys pass by outside; the loop decides what is sent and
//! awaited, when the channel is made, and what is left to clean up.

use crate::protocol::Status;
use crate::runtime::object_state::ObjectToken;
use crate::runtime::wire::Protection;
use crate::session::setup::{
    round_step, ReceiveError, Round, RoundStep, SessionSetup, SetupCleanup, SetupError, SetupFinish,
    SetupKind, SetupRequest, SetupResponse,
};
use crate::session::{ChannelInfo, SessionAndChannel};
use crate::signing::SigningPolicy;
use vstd::prelude::*;

verus! {

/// How a connection wants its sessions.
#[derive(Clone, Copy, Debug, PartialEq, Eq, Structural)]
pub struct SetupPolicy {
    pub signing: SigningPolicy,
    pub server_requires_signing: bool,
    pub dfs: bool,
}

/// Where the rounds stand.
#[derive(Clone, Copy, Debug, PartialEq, Eq, Structural)]
pub enum LoopPhase {
    Idle,
    /// A session that is being bound is made known on the connection.
    Introducing,
    /// The authentication is asked whether both sides agree.
    Asking,
    /// The authentication makes its next token.
    Stepping,
    /// The request is being sent.
    Sending { final_request: bool, authenticated: bool },
    /// The channel is made behind the final request.
    Keying { authenticated: bool },
    /// The response is awaited.
    Receiving { final_request: bool, authenticated: bool },
    /// The session is made known, before its first response is taken.
    Starting { response: SetupResponse, final_request: bool },
    /// The channel is made behind the last round.
    Closing,
    /// The session becomes ready.
    Readying,
    /// What is left of a setup that failed is cleaned up.
    Cleaning,
    Ended,
}

/// What happened.
#[derive(Debug)]
pub enum LoopEvent<E> {
    Begin,
    /// Whether both sides agree.
    Authenticated(bool),
    /// The next token was made: what the authentication says behind it.
    Token { authenticated: bool, has_key: bool, empty_token: bool },
    Sent,
    ChannelMade,
    Received(SetupResponse),
    NotReceived(ReceiveError, E),
    Started,
    Readied,
    CleanedUp,
    /// What was to be done could not be done.
    Failed(E),
}

/// Why a setup failed.
#[derive(Debug, PartialEq, Eq)]
pub enum SetupFailure<E> {
    Setup(SetupError),
    Outside(E),
}

/// What is to be done.
#[derive(Debug)]
pub enum LoopAction<E> {
    /// Ask the authentication whether both sides agree.
    Ask,
    /// Let it make its next token, out of the last response.
    Step,
    /// Send the token.
    Send(SetupRequest),
    /// Make the channel, and give the session its keys first where
    /// `exchange_keys` says so.
    MakeChannel { channel_id: u32, exchange_keys: bool },
    Receive { expected: Status, skip_security_validation: bool },
    /// Make the session known.
    Start { session_id: u64 },
    /// Make the session ready.
    Ready { flags: u16 },
    /// End the session on this connection.
    End { invalidate: bool },
    /// The session is set up, with this channel.
    Finished { session_id: u64, channel: ChannelInfo },
    Fail(SetupFailure<E>),
    /// The event means nothing at this point.
    Ignore,
}

#[verifier::ext_equal]
#[verifier::reject_recursive_types(E)]
pub struct LoopModel<E> {
    pub kind: SetupKind,
    pub channel_id: u32,
    pub policy: SetupPolicy,
    /// The session and its channel, once they are there.
    pub session: Option<(u64, Option<ChannelInfo>)>,
    /// The object of the session: whoever uses the session sets it.
    pub object: Option<ObjectToken>,
    pub flags: Option<u16>,
    pub phase: LoopPhase,
    /// Why the setup failed, while it is cleaned up.
    pub failure: Option<SetupFailure<E>>,
}

/// A request of a round.
pub open spec fn request_of<E>(model: LoopModel<E>, final_request: bool) -> Result<
    SetupRequest,
    SetupError,
> {
    let signs = final_request && model.kind == SetupKind::Bind;
    if final_request && model.session is None {
        Err(SetupError::NoSession)
    } else {
        Ok(
            SetupRequest {
                signing_required: model.policy.signing == SigningPolicy::Required
                    || model.policy.server_requires_signing,
                binding: model.kind == SetupKind::Bind,
                dfs: model.policy.dfs,
                security: if signs {
                    Protection::SnapshotKdfSign
                } else {
                    Protection::Unprotected
                },
                signed: signs,
                session_id: match model.session {
                    Some((id, _)) => Some(id),
                    None => None,
                },
            },
        )
    }
}

/// Whether a final response may be taken: it is protected, or the session is
/// a guest's.
pub open spec fn acceptable(response: SetupResponse) -> bool {
    response.guest_or_null || response.form.signed || response.form.encrypted
}

impl<E> LoopModel<E> {
    pub open spec fn channel(self) -> Option<ChannelInfo> {
        match self.session {
            Some((_, channel)) => channel,
            None => None,
        }
    }

    /// What every event keeps.
    pub open spec fn wf(self) -> bool {
        &&& self.kind == SetupKind::Bind ==> self.channel() is Some
        &&& self.flags is Some ==> self.session is Some
        &&& self.object is None
        &&& match self.phase {
            LoopPhase::Idle => self.kind == SetupKind::New ==> self.session is None,
            LoopPhase::Introducing => self.kind == SetupKind::Bind,
            LoopPhase::Sending { final_request, .. } => final_request ==> self.session is Some,
            LoopPhase::Keying { .. } => self.session is Some,
            LoopPhase::Receiving { final_request, .. } => final_request ==> self.channel() == Some(
                ChannelInfo { id: self.channel_id, binding: false },
            ),
            LoopPhase::Starting { final_request, .. } => self.session is None && !final_request,
            LoopPhase::Closing => self.flags is Some && self.channel() is None,
            LoopPhase::Readying => self.flags is Some && self.channel() is Some,
            LoopPhase::Cleaning => self.session is Some && self.failure is Some,
            _ => true,
        }
    }

    pub open spec fn to(self, phase: LoopPhase, action: LoopAction<E>) -> (Self, LoopAction<E>) {
        (LoopModel { phase, ..self }, action)
    }

    /// A failure: a session that is there already is cleaned up first.
    pub open spec fn failed(self, failure: SetupFailure<E>) -> (Self, LoopAction<E>) {
        match self.session {
            None => self.to(LoopPhase::Ended, LoopAction::Fail(failure)),
            Some(_) => (
                LoopModel { phase: LoopPhase::Cleaning, failure: Some(failure), ..self },
                LoopAction::End { invalidate: self.kind == SetupKind::New },
            ),
        }
    }

    pub open spec fn with_channel(self) -> Self {
        LoopModel {
            session: match self.session {
                Some((id, _)) => Some(
                    (id, Some(ChannelInfo { id: self.channel_id, binding: false })),
                ),
                None => None,
            },
            ..self
        }
    }

    pub open spec fn keying(self, phase: LoopPhase) -> (Self, LoopAction<E>) {
        self.to(
            phase,
            LoopAction::MakeChannel {
                channel_id: self.channel_id,
                exchange_keys: self.kind == SetupKind::New,
            },
        )
    }

    /// Awaits a response. Only a new session without a channel takes it
    /// unchecked.
    pub open spec fn receiving(self, final_request: bool, authenticated: bool) -> (
        Self,
        LoopAction<E>,
    ) {
        self.to(
            LoopPhase::Receiving { final_request, authenticated },
            LoopAction::Receive {
                expected: if final_request {
                    Status::Success
                } else {
                    Status::MoreProcessingRequired
                },
                skip_security_validation: self.kind == SetupKind::New && self.channel() is None,
            },
        )
    }

    pub open spec fn finished(self) -> (Self, LoopAction<E>) {
        match self.session {
            Some((session_id, Some(channel))) => self.to(
                LoopPhase::Ended,
                LoopAction::Finished { session_id, channel },
            ),
            _ => self.failed(SetupFailure::Setup(SetupError::Incomplete)),
        }
    }

    /// The session becomes ready; one that was only bound is ready already.
    pub open spec fn readied(self) -> (Self, LoopAction<E>) {
        match self.flags {
            Some(flags) => if self.kind == SetupKind::New {
                self.to(LoopPhase::Readying, LoopAction::Ready { flags })
            } else {
                self.finished()
            },
            None => self.failed(SetupFailure::Setup(SetupError::Incomplete)),
        }
    }

    /// The rounds are over. The channel is made now where it was not made
    /// behind a final request.
    pub open spec fn rounds_over(self) -> (Self, LoopAction<E>) {
        if self.flags is None {
            self.failed(SetupFailure::Setup(SetupError::Incomplete))
        } else if self.channel() is None {
            self.keying(LoopPhase::Closing)
        } else {
            self.readied()
        }
    }

    /// A response is taken.
    pub open spec fn taken(self, response: SetupResponse, final_request: bool) -> (
        Self,
        LoopAction<E>,
    ) {
        if final_request && !acceptable(response) {
            self.failed(SetupFailure::Setup(SetupError::UnsignedFinalResponse))
        } else {
            let next = LoopModel { flags: Some(response.flags), ..self };
            if final_request {
                next.rounds_over()
            } else {
                next.to(LoopPhase::Asking, LoopAction::Ask)
            }
        }
    }

    pub open spec fn stepped(self, round: Round) -> (Self, LoopAction<E>) {
        match round_step(round) {
            RoundStep::Done => self.rounds_over(),
            RoundStep::Send { final_request } => match request_of(self, final_request) {
                Ok(request) => self.to(
                    LoopPhase::Sending { final_request, authenticated: round.authenticated },
                    LoopAction::Send(request),
                ),
                Err(error) => self.failed(SetupFailure::Setup(error)),
            },
        }
    }

    pub open spec fn not_received(self, kind: ReceiveError, error: E, authenticated: bool) -> (
        Self,
        LoopAction<E>,
    ) {
        self.failed(
            match kind {
                ReceiveError::TimedOut { elapsed } => SetupFailure::Setup(
                    SetupError::Timeout { elapsed },
                ),
                ReceiveError::Unprotected => if authenticated {
                    SetupFailure::Setup(SetupError::UnsignedFinalResponse)
                } else {
                    SetupFailure::Outside(error)
                },
                ReceiveError::Other => SetupFailure::Outside(error),
            },
        )
    }

    /// The first action. A session that is there already is made known on the
    /// connection before anything is sent for it.
    pub open spec fn begun(self) -> (Self, LoopAction<E>) {
        match self.session {
            None => self.to(LoopPhase::Asking, LoopAction::Ask),
            Some((session_id, _)) => self.to(
                LoopPhase::Introducing,
                LoopAction::Start { session_id },
            ),
        }
    }

    /// Whether something outside is under way that can fail.
    pub open spec fn can_fail(self) -> bool {
        match self.phase {
            LoopPhase::Asking => true,
            LoopPhase::Stepping => true,
            LoopPhase::Sending { .. } => true,
            LoopPhase::Keying { .. } => true,
            LoopPhase::Starting { .. } => true,
            LoopPhase::Closing => true,
            LoopPhase::Readying => true,
            _ => false,
        }
    }

    pub open spec fn step(self, event: LoopEvent<E>) -> (Self, LoopAction<E>) {
        match (self.phase, event) {
            (LoopPhase::Idle, LoopEvent::Begin) => self.begun(),
            (LoopPhase::Introducing, LoopEvent::Started) => self.to(
                LoopPhase::Asking,
                LoopAction::Ask,
            ),
            (LoopPhase::Introducing, LoopEvent::Failed(error)) => self.to(
                LoopPhase::Ended,
                LoopAction::Fail(SetupFailure::Outside(error)),
            ),
            (LoopPhase::Asking, LoopEvent::Authenticated(agreed)) => if agreed {
                self.rounds_over()
            } else {
                self.to(LoopPhase::Stepping, LoopAction::Step)
            },
            (
                LoopPhase::Stepping,
                LoopEvent::Token { authenticated, has_key, empty_token },
            ) => self.stepped(
                Round { authenticated_before: false, authenticated, has_key, empty_token },
            ),
            (LoopPhase::Sending { final_request, authenticated }, LoopEvent::Sent) =>
            if final_request {
                self.keying(LoopPhase::Keying { authenticated })
            } else {
                self.receiving(false, authenticated)
            },
            (LoopPhase::Keying { authenticated }, LoopEvent::ChannelMade) =>
            self.with_channel().receiving(true, authenticated),
            (LoopPhase::Receiving { final_request, .. }, LoopEvent::Received(response)) =>
            match self.session {
                None => self.to(
                    LoopPhase::Starting { response, final_request },
                    LoopAction::Start { session_id: response.session_id },
                ),
                Some(_) => self.taken(response, final_request),
            },
            (
                LoopPhase::Receiving { authenticated, .. },
                LoopEvent::NotReceived(kind, error),
            ) => self.not_received(kind, error, authenticated),
            (LoopPhase::Starting { response, final_request }, LoopEvent::Started) => LoopModel {
                session: Some((response.session_id, None)),
                ..self
            }.taken(response, final_request),
            (LoopPhase::Closing, LoopEvent::ChannelMade) => self.with_channel().readied(),
            (LoopPhase::Readying, LoopEvent::Readied) => self.finished(),
            (LoopPhase::Cleaning, LoopEvent::CleanedUp) => match self.failure {
                Some(failure) => (
                    LoopModel { phase: LoopPhase::Ended, failure: None, ..self },
                    LoopAction::Fail(failure),
                ),
                None => (self, LoopAction::Ignore),
            },
            (_, LoopEvent::Failed(error)) => if self.can_fail() {
                self.failed(SetupFailure::Outside(error))
            } else {
                (self, LoopAction::Ignore)
            },
            _ => (self, LoopAction::Ignore),
        }
    }
}

/// The rounds of a session setup.
pub struct SetupLoop<E> {
    setup: SessionSetup,
    policy: SetupPolicy,
    phase: LoopPhase,
    failure: Option<SetupFailure<E>>,
}

impl<E> View for SetupLoop<E> {
    type V = LoopModel<E>;

    closed spec fn view(&self) -> LoopModel<E> {
        LoopModel {
            kind: self.setup@.kind,
            channel_id: self.setup@.channel_id,
            policy: self.policy,
            session: match self.setup@.session {
                Some(session) => Some((session.id(), session.installed())),
                None => None,
            },
            object: match self.setup@.session {
                Some(session) => session.object_token(),
                None => None,
            },
            flags: self.setup@.flags,
            phase: self.phase,
            failure: self.failure,
        }
    }
}

impl<E> SetupLoop<E> {
    /// Begins the setup of a new session.
    pub fn new_session(channel_id: u32, policy: SetupPolicy) -> (rounds: Self)
        ensures
            rounds@.wf(),
            rounds@ == (LoopModel::<E> {
                kind: SetupKind::New,
                channel_id,
                policy,
                session: None,
                object: None,
                flags: None,
                phase: LoopPhase::Idle,
                failure: None,
            }),
    {
        SetupLoop {
            setup: SessionSetup::new(SetupKind::New, channel_id, None),
            policy,
            phase: LoopPhase::Idle,
            failure: None,
        }
    }

    /// Begins to bind a session to another connection. The rounds talk over a
    /// copy of its primary channel, which only binds, and begin by making the
    /// session known on the connection.
    pub fn bind(channel_id: u32, session_id: u64, primary: ChannelInfo, policy: SetupPolicy) -> (
        rounds: Self)
        ensures
            rounds@.wf(),
            rounds@ == (LoopModel::<E> {
                kind: SetupKind::Bind,
                channel_id,
                policy,
                session: Some((session_id, Some(ChannelInfo { binding: true, ..primary }))),
                object: None,
                flags: None,
                phase: LoopPhase::Idle,
                failure: None,
            }),
    {
        SetupLoop {
            setup: SessionSetup::new(SetupKind::Bind, channel_id, Some((session_id, primary))),
            policy,
            phase: LoopPhase::Idle,
            failure: None,
        }
    }

    fn begin(&mut self) -> (action: LoopAction<E>)
        ensures
            (final(self)@, action) == old(self)@.begun(),
    {
        match self.setup.session() {
            None => {
                self.phase = LoopPhase::Asking;
                LoopAction::Ask
            },
            Some(session) => {
                let session_id: u64 = session.session_id();
                self.phase = LoopPhase::Introducing;
                LoopAction::Start { session_id }
            },
        }
    }

    fn fail(&mut self, failure: SetupFailure<E>) -> (action: LoopAction<E>)
        ensures
            (final(self)@, action) == old(self)@.failed(failure),
    {
        match self.setup.error_cleanup() {
            SetupCleanup::Nothing => {
                self.phase = LoopPhase::Ended;
                LoopAction::Fail(failure)
            },
            SetupCleanup::End { invalidate } => {
                self.phase = LoopPhase::Cleaning;
                self.failure = Some(failure);
                LoopAction::End { invalidate }
            },
        }
    }

    fn finish(&mut self) -> (action: LoopAction<E>)
        ensures
            (final(self)@, action) == old(self)@.finished(),
    {
        if let Some(session) = self.setup.session() {
            if let Some(channel) = session.channel() {
                let session_id: u64 = session.session_id();
                self.phase = LoopPhase::Ended;
                return LoopAction::Finished { session_id, channel };
            }
        }
        self.fail(SetupFailure::Setup(SetupError::Incomplete))
    }

    /// Asks for the channel.
    fn key(&mut self, phase: LoopPhase) -> (action: LoopAction<E>)
        ensures
            (final(self)@, action) == old(self)@.keying(phase),
    {
        self.phase = phase;
        LoopAction::MakeChannel {
            channel_id: self.setup.channel_id(),
            exchange_keys: self.setup.kind() == SetupKind::New,
        }
    }

    /// The channel was made.
    fn install(&mut self)
        requires
            old(self).setup@.wf(),
        ensures
            final(self).setup@.wf(),
            final(self)@ == old(self)@.with_channel(),
    {
        let exchanged = self.setup.make_channel();
    }

    fn receive(&mut self, final_request: bool, authenticated: bool) -> (action: LoopAction<E>)
        ensures
            (final(self)@, action) == old(self)@.receiving(final_request, authenticated),
    {
        self.phase = LoopPhase::Receiving { final_request, authenticated };
        LoopAction::Receive {
            expected: SessionSetup::expected_status(final_request),
            skip_security_validation: self.setup.skip_security_validation(),
        }
    }

    /// The rounds are over, and the channel is there.
    fn ready(&mut self) -> (action: LoopAction<E>)
        requires
            old(self).setup@.wf(),
        ensures
            (final(self)@, action) == old(self)@.readied(),
    {
        match self.setup.finish() {
            Ok(finish) => match finish.ready {
                Some(flags) => {
                    self.phase = LoopPhase::Readying;
                    LoopAction::Ready { flags }
                },
                None => self.finish(),
            },
            Err(error) => self.fail(SetupFailure::Setup(error)),
        }
    }

    fn end_rounds(&mut self) -> (action: LoopAction<E>)
        requires
            old(self).setup@.wf(),
        ensures
            (final(self)@, action) == old(self)@.rounds_over(),
    {
        match self.setup.finish() {
            Ok(finish) => if finish.make_channel {
                self.key(LoopPhase::Closing)
            } else {
                self.ready()
            },
            Err(error) => self.fail(SetupFailure::Setup(error)),
        }
    }

    /// Takes a response. The first one of a new session makes its state.
    fn take(&mut self, response: &SetupResponse, final_request: bool) -> (action: LoopAction<E>)
        requires
            old(self).setup@.wf(),
        ensures
            (final(self)@, action) == (LoopModel {
                session: match old(self)@.session {
                    Some(session) => Some(session),
                    None => Some((response.session_id, None)),
                },
                ..old(self)@
            }).taken(*response, final_request),
    {
        match self.setup.take_response(response, final_request) {
            Ok(over) => if over {
                self.end_rounds()
            } else {
                self.phase = LoopPhase::Asking;
                LoopAction::Ask
            },
            Err(error) => self.fail(SetupFailure::Setup(error)),
        }
    }

    fn step(&mut self, round: Round) -> (action: LoopAction<E>)
        requires
            old(self).setup@.wf(),
        ensures
            (final(self)@, action) == old(self)@.stepped(round),
    {
        let final_request = match SessionSetup::round(round) {
            RoundStep::Done => {
                return self.end_rounds();
            },
            RoundStep::Send { final_request } => final_request,
        };
        let request = self.setup.make_request(
            final_request,
            self.policy.signing,
            self.policy.server_requires_signing,
            self.policy.dfs,
        );
        match request {
            Ok(request) => {
                self.phase = LoopPhase::Sending {
                    final_request,
                    authenticated: round.authenticated,
                };
                LoopAction::Send(request)
            },
            Err(error) => self.fail(SetupFailure::Setup(error)),
        }
    }

    fn not_received(&mut self, kind: ReceiveError, error: E, authenticated: bool) -> (action:
        LoopAction<E>)
        ensures
            (final(self)@, action) == old(self)@.not_received(kind, error, authenticated),
    {
        match SessionSetup::receive_error(kind, authenticated) {
            Some(error) => self.fail(SetupFailure::Setup(error)),
            None => self.fail(SetupFailure::Outside(error)),
        }
    }

    /// Takes what happened, and says what is to be done.
    pub fn reduce(&mut self, event: LoopEvent<E>) -> (action: LoopAction<E>)
        requires
            old(self)@.wf(),
        ensures
            final(self)@.wf(),
            (final(self)@, action) == old(self)@.step(event),
    {
        match (self.phase, event) {
            (LoopPhase::Idle, LoopEvent::Begin) => self.begin(),
            (LoopPhase::Introducing, LoopEvent::Started) => {
                self.phase = LoopPhase::Asking;
                LoopAction::Ask
            },
            (LoopPhase::Introducing, LoopEvent::Failed(error)) => {
                self.phase = LoopPhase::Ended;
                LoopAction::Fail(SetupFailure::Outside(error))
            },
            (LoopPhase::Asking, LoopEvent::Authenticated(agreed)) => {
                if agreed {
                    self.end_rounds()
                } else {
                    self.phase = LoopPhase::Stepping;
                    LoopAction::Step
                }
            },
            (
                LoopPhase::Stepping,
                LoopEvent::Token { authenticated, has_key, empty_token },
            ) => self.step(
                Round { authenticated_before: false, authenticated, has_key, empty_token },
            ),
            (LoopPhase::Sending { final_request, authenticated }, LoopEvent::Sent) => {
                if final_request {
                    self.key(LoopPhase::Keying { authenticated })
                } else {
                    self.receive(false, authenticated)
                }
            },
            (LoopPhase::Keying { authenticated }, LoopEvent::ChannelMade) => {
                self.install();
                self.receive(true, authenticated)
            },
            (LoopPhase::Receiving { final_request, .. }, LoopEvent::Received(response)) => {
                if self.setup.session().is_none() {
                    self.phase = LoopPhase::Starting { response, final_request };
                    LoopAction::Start { session_id: response.session_id }
                } else {
                    self.take(&response, final_request)
                }
            },
            (
                LoopPhase::Receiving { authenticated, .. },
                LoopEvent::NotReceived(kind, error),
            ) => self.not_received(kind, error, authenticated),
            (LoopPhase::Starting { response, final_request }, LoopEvent::Started) => self.take(
                &response,
                final_request,
            ),
            (LoopPhase::Closing, LoopEvent::ChannelMade) => {
                self.install();
                self.ready()
            },
            (LoopPhase::Readying, LoopEvent::Readied) => self.finish(),
            (LoopPhase::Cleaning, LoopEvent::CleanedUp) => {
                match self.failure.take() {
                    Some(failure) => {
                        self.phase = LoopPhase::Ended;
                        LoopAction::Fail(failure)
                    },
                    None => LoopAction::Ignore,
                }
            },
            (LoopPhase::Asking, LoopEvent::Failed(error)) => self.fail(SetupFailure::Outside(error)),
            (LoopPhase::Stepping, LoopEvent::Failed(error)) => self.fail(
                SetupFailure::Outside(error),
            ),
            (LoopPhase::Sending { .. }, LoopEvent::Failed(error)) => self.fail(
                SetupFailure::Outside(error),
            ),
            (LoopPhase::Keying { .. }, LoopEvent::Failed(error)) => self.fail(
                SetupFailure::Outside(error),
            ),
            (LoopPhase::Starting { .. }, LoopEvent::Failed(error)) => self.fail(
                SetupFailure::Outside(error),
            ),
            (LoopPhase::Closing, LoopEvent::Failed(error)) => self.fail(
                SetupFailure::Outside(error),
            ),
            (LoopPhase::Readying, LoopEvent::Failed(error)) => self.fail(
                SetupFailure::Outside(error),
            ),
            _ => LoopAction::Ignore,
        }
    }
}

impl<E> SetupLoop<E> {
    /// Hands out the state of the session, once there is one. Its object is
    /// still to be set.
    pub fn into_session(self) -> (session: Option<SessionAndChannel>)
        requires
            self@.wf(),
        ensures
            match self@.session {
                Some((session_id, channel)) => session matches Some(session) && session.id()
                    == session_id && session.installed() == channel && session.object_token()
                    is None,
                None => session is None,
            },
    {
        self.setup.into_session()
    }
}

/// A setup after some events, and what was to be done each time.
pub open spec fn run<E>(model: LoopModel<E>, events: Seq<LoopEvent<E>>) -> (
    LoopModel<E>,
    Seq<LoopAction<E>>,
)
    decreases events.len(),
{
    if events.len() == 0 {
        (model, Seq::empty())
    } else {
        let (before, actions) = run(model, events.drop_last());
        let (after, action) = before.step(events.last());
        (after, actions.push(action))
    }
}

/// Every event keeps what holds of a setup.
pub proof fn setups_stay_sound<E>(model: LoopModel<E>, events: Seq<LoopEvent<E>>)
    requires
        model.wf(),
    ensures
        run(model, events).0.wf(),
    decreases events.len(),
{
    if events.len() > 0 {
        setups_stay_sound(model, events.drop_last());
    }
}

/// The response to a final request is never taken unchecked: it is awaited
/// on the channel of the setup.
pub proof fn final_responses_are_checked<E>(
    model: LoopModel<E>,
    events: Seq<LoopEvent<E>>,
    event: LoopEvent<E>,
)
    requires
        model.wf(),
    ensures
        run(model, events).0.step(event).1 matches LoopAction::Receive {
            expected,
            skip_security_validation,
        } ==> (expected == Status::Success ==> !skip_security_validation),
{
    setups_stay_sound(model, events);
}

/// A final response that is neither protected nor a guest's fails the setup.
pub proof fn unprotected_final_responses_are_refused<E>(model: LoopModel<E>, response: SetupResponse)
    requires
        model.wf(),
        model.phase matches LoopPhase::Receiving { final_request, .. } && final_request,
        !acceptable(response),
    ensures
        ({
            let (after, action) = model.step(LoopEvent::Received(response));
            &&& action == LoopAction::<E>::End { invalidate: model.kind == SetupKind::New }
            &&& after.failure == Some(
                SetupFailure::<E>::Setup(SetupError::UnsignedFinalResponse),
            )
            &&& after.flags == model.flags
        }),
{
}

/// A setup that fails behind the start of its session ends that session
/// first: no failure is told before. A session that was only being bound is
/// not invalidated, and one that could not be started is not ended.
pub proof fn failures_are_cleaned_up<E>(model: LoopModel<E>, event: LoopEvent<E>)
    requires
        model.wf(),
    ensures
        model.step(event).1 is Fail ==> model.session is None || model.phase
            == LoopPhase::Cleaning || model.phase == LoopPhase::Introducing,
        (model.step(event).0.phase == LoopPhase::Cleaning && model.phase != LoopPhase::Cleaning)
            == (model.step(event).1 is End),
        model.step(event).1 matches LoopAction::End { invalidate } ==> invalidate == (model.kind
            == SetupKind::New),
{
}

/// A setup that was finished leaves a session with a channel, and says so
/// once.
pub proof fn finished_setups_are_done<E>(model: LoopModel<E>, event: LoopEvent<E>)
    requires
        model.wf(),
        model.step(event).1 is Finished || model.step(event).1 is Fail,
    ensures
        model.step(event).0.phase == LoopPhase::Ended,
        model.step(event).1 matches LoopAction::Finished { session_id, channel } ==> model.step(
            event,
        ).0.session == Some((session_id, Some(channel))) && model.step(event).0.flags is Some,
{
}

/// A setup that ended takes no notice of anything.
pub proof fn ended_setups_are_inert<E>(model: LoopModel<E>, event: LoopEvent<E>)
    requires
        model.phase == LoopPhase::Ended,
    ensures
        model.step(event) == (model, LoopAction::<E>::Ignore),
{
}

/// Whether a setup asked for a session to be started, and was told that it was.
pub open spec fn was_started<E>(
    events: Seq<LoopEvent<E>>,
    actions: Seq<LoopAction<E>>,
    session_id: u64,
) -> bool {
    exists|j: int, k: int|
        0 <= j < k < events.len() && #[trigger] actions[j] == (LoopAction::<E>::Start { session_id })
            && (#[trigger] events[k]) is Started
}

proof fn runs_have_an_action_each<E>(model: LoopModel<E>, events: Seq<LoopEvent<E>>)
    ensures
        run(model, events).1.len() == events.len(),
    decreases events.len(),
{
    if events.len() > 0 {
        runs_have_an_action_each(model, events.drop_last());
    }
}

proof fn starts_stay<E>(
    events: Seq<LoopEvent<E>>,
    actions: Seq<LoopAction<E>>,
    event: LoopEvent<E>,
    action: LoopAction<E>,
    session_id: u64,
)
    requires
        actions.len() == events.len(),
        was_started(events, actions, session_id),
    ensures
        was_started(events.push(event), actions.push(action), session_id),
{
    let (j, k) = choose|j: int, k: int|
        0 <= j < k < events.len() && #[trigger] actions[j] == (LoopAction::<E>::Start { session_id })
            && (#[trigger] events[k]) is Started;
    assert(actions.push(action)[j] == (LoopAction::<E>::Start { session_id }));
    assert(events.push(event)[k] is Started);
}

/// A session takes part in a setup only once it was started on the connection:
/// as long as a setup goes on behind its beginning, it asked for the start of
/// its session and was told of it. What it ends, it started.
pub proof fn sessions_are_started_first<E>(model: LoopModel<E>, events: Seq<LoopEvent<E>>)
    requires
        model.wf(),
        model.phase == LoopPhase::Idle,
    ensures
        ({
            let (after, actions) = run(model, events);
            &&& after.session matches Some((session_id, _)) ==> match after.phase {
                LoopPhase::Idle => true,
                LoopPhase::Introducing => exists|j: int|
                    0 <= j < actions.len() && #[trigger] actions[j] == (LoopAction::<E>::Start {
                        session_id,
                    }),
                LoopPhase::Ended => true,
                _ => was_started(events, actions, session_id),
            }
            &&& after.phase matches LoopPhase::Starting { response, .. } ==> exists|j: int|
                0 <= j < actions.len() && #[trigger] actions[j] == (LoopAction::<E>::Start {
                    session_id: response.session_id,
                })
            &&& events.len() > 0 && actions.last() is End ==> (after.session matches Some(
                (session_id, _),
            ) && was_started(events, actions, session_id))
        }),
    decreases events.len(),
{
    if events.len() > 0 {
        let earlier = events.drop_last();
        let event = events.last();
        let (before, past) = run(model, earlier);
        let (after, action) = before.step(event);
        sessions_are_started_first(model, earlier);
        setups_stay_sound(model, earlier);
        runs_have_an_action_each(model, earlier);
        assert(earlier.push(event) =~= events);
        let actions = past.push(action);
        assert(run(model, events) == (after, actions));
        let n = past.len() as int;
        assert(actions[n] == action && events[n] == event);
        assert forall|j: int| 0 <= j < n implies #[trigger] actions[j] == past[j] by {}
        if before.session is Some {
            let session_id = match before.session {
                Some((id, _)) => id,
                None => arbitrary(),
            };
            if was_started(earlier, past, session_id) {
                starts_stay(earlier, past, event, action, session_id);
            } else if before.phase == LoopPhase::Introducing {
                let j = choose|j: int|
                    0 <= j < past.len() && #[trigger] past[j] == (LoopAction::<E>::Start {
                        session_id,
                    });
                assert(actions[j] == (LoopAction::<E>::Start { session_id }));
                if event is Started {
                    assert(events[n] is Started);
                    assert(was_started(events, actions, session_id));
                }
            }
        } else if before.phase is Starting {
            let session_id = before.phase->response.session_id;
            let j = choose|j: int|
                0 <= j < past.len() && #[trigger] past[j] == (LoopAction::<E>::Start {
                    session_id,
                });
            assert(actions[j] == (LoopAction::<E>::Start { session_id }));
            if event is Started {
                assert(events[n] is Started);
                assert(was_started(events, actions, session_id));
            }
        }
    }
}

/// A setup begins with the authentication; where it binds a session that is
/// there already, that session is made known first.
pub proof fn setups_begin_with_authentication<E>(model: LoopModel<E>)
    requires
        model.wf(),
    ensures
        model.phase is Idle && model.session is None ==> {
            let (next, action) = model.step(LoopEvent::Begin);
            action is Ask && next.phase is Asking
        },
        model.phase is Idle ==> (model.session matches Some((session_id, _)) ==> {
            let (next, action) = model.step(LoopEvent::Begin);
            action == (LoopAction::<E>::Start { session_id }) && next.phase is Introducing
        }),
        model.phase is Introducing ==> {
            let (next, action) = model.step(LoopEvent::Started);
            action is Ask && next.phase is Asking && next.session == model.session
        },
        model.phase is Asking ==> {
            let (next, action) = model.step(LoopEvent::Authenticated(false));
            action is Step && next.phase is Stepping && next.session == model.session
        },
{
}

/// Each token is sent, in a request that asks for what the connection wants:
/// signed only where it is the final one of a bind, and under the session's
/// number once there is one. A token is the final one where both sides agree
/// or the key is there. A final one without a session fails the setup.
pub proof fn tokens_are_sent<E>(
    model: LoopModel<E>,
    authenticated: bool,
    has_key: bool,
    empty_token: bool,
)
    requires
        model.wf(),
        model.phase is Stepping,
        !(authenticated && empty_token),
    ensures
        ({
            let (next, action) = model.step(
                LoopEvent::Token { authenticated, has_key, empty_token },
            );
            let last = authenticated || has_key;
            &&& last && model.session is None ==> action == LoopAction::<E>::Fail(
                SetupFailure::Setup(SetupError::NoSession),
            ) && next.phase is Ended
            &&& !(last && model.session is None) ==> {
                &&& next.phase == (LoopPhase::Sending { final_request: last, authenticated })
                &&& action matches LoopAction::Send(request) && {
                    &&& request.signing_required <==> model.policy.signing
                        is Required || model.policy.server_requires_signing
                    &&& request.binding <==> model.kind is Bind
                    &&& request.dfs == model.policy.dfs
                    &&& request.signed <==> last && model.kind is Bind
                    &&& request.security == if last && model.kind is Bind {
                        Protection::SnapshotKdfSign
                    } else {
                        Protection::Unprotected
                    }
                    &&& model.session is None ==> request.session_id is None
                    &&& model.session matches Some((id, _)) ==> request.session_id == Some(id)
                }
            }
        }),
{
}

/// Behind a request its response is awaited: the status says whether more is
/// to come. Behind the final one the channel is made first, and a new session
/// is given its keys with it.
pub proof fn requests_are_answered<E>(model: LoopModel<E>)
    requires
        model.wf(),
    ensures
        model.phase matches LoopPhase::Sending { final_request, authenticated } ==> {
            let (next, action) = model.step(LoopEvent::Sent);
            &&& final_request ==> action == (LoopAction::<E>::MakeChannel {
                channel_id: model.channel_id,
                exchange_keys: model.kind is New,
            }) && next.phase == (LoopPhase::Keying { authenticated })
            &&& !final_request ==> action == (LoopAction::<E>::Receive {
                expected: Status::MoreProcessingRequired,
                skip_security_validation: model.kind is New && !(model.session matches Some(
                    (_, Some(_)),
                )),
            }) && next.phase == (LoopPhase::Receiving { final_request: false, authenticated })
        },
        model.phase matches LoopPhase::Keying { authenticated } ==> {
            let (next, action) = model.step(LoopEvent::ChannelMade);
            &&& action == (LoopAction::<E>::Receive {
                expected: Status::Success,
                skip_security_validation: false,
            })
            &&& next.phase == (LoopPhase::Receiving { final_request: true, authenticated })
            &&& next.session matches Some((id, Some(channel))) && id == model.session->Some_0.0
                && channel.id == model.channel_id && !channel.binding
        },
{
}

/// A response is taken on its session: the first one makes the session known,
/// each one that is not final leads to the next round, and its flags are
/// kept.
pub proof fn responses_lead_on<E>(model: LoopModel<E>, response: SetupResponse)
    requires
        model.wf(),
    ensures
        model.phase is Receiving && model.session is None ==> {
            let (next, action) = model.step(LoopEvent::Received(response));
            &&& action == (LoopAction::<E>::Start { session_id: response.session_id })
            &&& next.phase == (LoopPhase::Starting { response, final_request: false })
        },
        model.phase matches LoopPhase::Starting { response: first, .. } ==> {
            let (next, action) = model.step(LoopEvent::Started);
            &&& action is Ask
            &&& next.phase is Asking
            &&& next.session == Some((first.session_id, None::<ChannelInfo>))
            &&& next.flags == Some(first.flags)
        },
        model.phase matches LoopPhase::Receiving { final_request, .. } ==> !final_request
            && model.session is Some ==> {
            let (next, action) = model.step(LoopEvent::Received(response));
            &&& action is Ask
            &&& next.phase is Asking
            &&& next.session == model.session
            &&& next.flags == Some(response.flags)
        },
{
}

/// A final response that is signed, encrypted or a guest's ends the rounds: a
/// new session becomes ready with the flags of that response, and one that
/// was only bound is done.
pub proof fn accepted_responses_end_the_rounds<E>(model: LoopModel<E>, response: SetupResponse)
    requires
        model.wf(),
        model.phase matches LoopPhase::Receiving { final_request, .. } && final_request,
        response.guest_or_null || response.form.signed || response.form.encrypted,
    ensures
        ({
            let (next, action) = model.step(LoopEvent::Received(response));
            &&& next.flags == Some(response.flags)
            &&& next.session == model.session
            &&& model.kind is New ==> action == (LoopAction::<E>::Ready { flags: response.flags })
                && next.phase is Readying
            &&& model.kind is Bind ==> action == (LoopAction::<E>::Finished {
                session_id: model.session->Some_0.0,
                channel: ChannelInfo { id: model.channel_id, binding: false },
            }) && next.phase is Ended
        }),
{
}

/// Only a final response that is neither signed nor encrypted nor a guest's
/// is refused.
pub proof fn unprotected_means_unprotected(response: SetupResponse)
    ensures
        acceptable(response) <==> (response.guest_or_null || response.form.signed
            || response.form.encrypted),
{
}

/// Where both sides agree without a final request, the rounds are over: the
/// channel is made where there is none, then a new session becomes ready, and
/// then the setup is finished. Without any response it fails.
pub proof fn agreement_ends_the_rounds<E>(model: LoopModel<E>)
    requires
        model.wf(),
    ensures
        model.phase is Asking ==> {
            let (next, action) = model.step(LoopEvent::Authenticated(true));
            let channel = match model.session {
                Some((_, channel)) => channel,
                None => None,
            };
            &&& model.flags is None && model.session is None ==> action
                == LoopAction::<E>::Fail(SetupFailure::Setup(SetupError::Incomplete))
            &&& model.flags is None && model.session is Some ==> action == (LoopAction::<E>::End {
                invalidate: model.kind is New,
            }) && next.failure == Some(SetupFailure::<E>::Setup(SetupError::Incomplete))
            &&& model.flags is Some && channel is None ==> action
                == (LoopAction::<E>::MakeChannel {
                channel_id: model.channel_id,
                exchange_keys: model.kind is New,
            }) && next.phase is Closing
            &&& model.flags is Some && channel is Some && model.kind is New ==> action
                == (LoopAction::<E>::Ready { flags: model.flags->Some_0 })
            &&& model.flags is Some && channel is Some && model.kind is Bind ==> action
                == (LoopAction::<E>::Finished {
                session_id: model.session->Some_0.0,
                channel: channel->Some_0,
            })
        },
        model.phase is Closing ==> {
            let (next, action) = model.step(LoopEvent::ChannelMade);
            &&& action == (LoopAction::<E>::Ready { flags: model.flags->Some_0 })
            &&& next.phase is Readying
            &&& next.session matches Some((_, Some(channel))) && channel.id == model.channel_id
                && !channel.binding
        },
        model.phase is Readying ==> {
            let (next, action) = model.step(LoopEvent::Readied);
            &&& next.phase is Ended
            &&& action == (LoopAction::<E>::Finished {
                session_id: model.session->Some_0.0,
                channel: model.session->Some_0.1->Some_0,
            })
        },
{
}

/// A setup that fails tells why: what could not be done, that no response
/// came in time, or that the final one was not protected. Where a session is
/// there already it is ended first, and the reason is told behind that.
pub proof fn failures_tell_their_reason<E>(model: LoopModel<E>, event: LoopEvent<E>)
    requires
        model.wf(),
    ensures
        ({
            let (next, action) = model.step(event);
            let told = |failure: SetupFailure<E>|
                if model.session is None {
                    action == LoopAction::<E>::Fail(failure) && next.phase is Ended
                } else {
                    action == (LoopAction::<E>::End { invalidate: model.kind is New })
                        && next.phase is Cleaning && next.failure == Some(failure)
                };
            match (model.phase, event) {
                (LoopPhase::Receiving { authenticated, .. }, LoopEvent::NotReceived(kind, error)) =>
                match kind {
                    ReceiveError::TimedOut { elapsed } => told(
                        SetupFailure::Setup(SetupError::Timeout { elapsed }),
                    ),
                    ReceiveError::Unprotected => if authenticated {
                        told(SetupFailure::Setup(SetupError::UnsignedFinalResponse))
                    } else {
                        told(SetupFailure::Outside(error))
                    },
                    ReceiveError::Other => told(SetupFailure::Outside(error)),
                },
                (
                    LoopPhase::Asking
                    | LoopPhase::Stepping
                    | LoopPhase::Sending { .. }
                    | LoopPhase::Keying { .. }
                    | LoopPhase::Starting { .. }
                    | LoopPhase::Closing
                    | LoopPhase::Readying,
                    LoopEvent::Failed(error),
                ) => told(SetupFailure::Outside(error)),
                (LoopPhase::Introducing, LoopEvent::Failed(error)) => action
                    == LoopAction::<E>::Fail(SetupFailure::Outside(error)) && next.phase is Ended,
                (LoopPhase::Cleaning, LoopEvent::CleanedUp) => action == LoopAction::<E>::Fail(
                    model.failure->Some_0,
                ) && next.phase is Ended,
                (LoopPhase::Cleaning, _) => action is Ignore && next == model,
                _ => true,
            }
        }),
{
}

/// An empty token behind an agreement is not sent: the rounds are over, as
/// they are where both sides agreed before.
pub proof fn empty_tokens_are_not_sent<E>(model: LoopModel<E>, has_key: bool)
    requires
        model.wf(),
        model.phase is Stepping,
    ensures
        ({
            let (next, action) = model.step(
                LoopEvent::Token { authenticated: true, has_key, empty_token: true },
            );
            let (other, agreed) = (LoopModel { phase: LoopPhase::Asking, ..model }).step(
                LoopEvent::Authenticated(true),
            );
            action == agreed && next.phase == other.phase && next.session == other.session
                && next.flags == other.flags
        }),
{
}

/// What is not foreseen at a point of a setup is ignored there.
pub proof fn unforeseen_events_are_ignored<E>(model: LoopModel<E>, event: LoopEvent<E>)
    requires
        !(match (model.phase, event) {
            (LoopPhase::Idle, LoopEvent::Begin) => true,
            (LoopPhase::Introducing, LoopEvent::Started | LoopEvent::Failed(_)) => true,
            (LoopPhase::Asking, LoopEvent::Authenticated(_) | LoopEvent::Failed(_)) => true,
            (LoopPhase::Stepping, LoopEvent::Token { .. } | LoopEvent::Failed(_)) => true,
            (LoopPhase::Sending { .. }, LoopEvent::Sent | LoopEvent::Failed(_)) => true,
            (LoopPhase::Keying { .. }, LoopEvent::ChannelMade | LoopEvent::Failed(_)) => true,
            (
                LoopPhase::Receiving { .. },
                LoopEvent::Received(_) | LoopEvent::NotReceived(_, _),
            ) => true,
            (LoopPhase::Starting { .. }, LoopEvent::Started | LoopEvent::Failed(_)) => true,
            (LoopPhase::Closing, LoopEvent::ChannelMade | LoopEvent::Failed(_)) => true,
            (LoopPhase::Readying, LoopEvent::Readied | LoopEvent::Failed(_)) => true,
            (LoopPhase::Cleaning, LoopEvent::CleanedUp) => true,
            _ => false,
        }),
    ensures
        model.step(event) == (model, LoopAction::<E>::Ignore),
{
}

} // verus!
