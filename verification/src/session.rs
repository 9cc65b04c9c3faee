//! Sessions: their setup, their channels, and how their messages are signed
//! and encrypted.

use crate::identity::Guid;
use crate::runtime::object_state::ObjectToken;
use crate::runtime::id_set::IdSet;
use crate::session::channel::Channel;
use vstd::prelude::*;

pub mod channel;
pub mod credential;
pub mod encryptor_decryptor;
pub mod setup;
pub mod setup_loop;
pub mod signer;

verus! {

/// The channel that a session is set up on. Others are counted from the next
/// number on.
pub const PRIMARY_CHANNEL_ID: u32 = 0;

/// How far a session is.
#[derive(Clone, Copy, Debug, PartialEq, Eq, Structural)]
pub enum SessionPhase {
    Initial,
    SettingUp,
    Ready,
    Invalid,
}

/// What a session says of itself.
#[derive(Clone, Copy, Debug, PartialEq, Eq, Structural)]
pub struct SessionStatus {
    pub phase: SessionPhase,
    /// Whether its messages are encrypted; unknown before it is ready.
    pub should_encrypt: Option<bool>,
    /// Whether messages may go without signatures; unknown before its setup
    /// is under way.
    pub allow_unsigned: Option<bool>,
}

#[derive(Clone, Copy, Debug, PartialEq, Eq, Structural)]
pub enum SessionError {
    DifferentDialect,
    DifferentClient,
    NotReady,
    AllowsUnsigned,
    /// The session does not say yet.
    Unknown,
    Invalid,
    ChannelNotFound { session_id: u64, channel_id: u32 },
    ChannelNotSet,
    ObjectAlreadyInstalled,
    ObjectUnavailable,
    NoSessionId,
    ForeignSession,
    NotEncrypted,
    NotSigned,
}

/// What has to agree between two connections of one session.
#[derive(Clone, Copy, Debug, PartialEq, Eq, Structural)]
pub struct ConnectionIdentity {
    pub dialect: u16,
    pub client_guid: Guid,
}

/// Whether a session can be bound to another connection, and why not.
pub open spec fn bindable(
    own: ConnectionIdentity,
    other: ConnectionIdentity,
    status: SessionStatus,
) -> Result<(), SessionError> {
    if own.dialect != other.dialect {
        Err(SessionError::DifferentDialect)
    } else if own.client_guid != other.client_guid {
        Err(SessionError::DifferentClient)
    } else if status.phase != SessionPhase::Ready {
        Err(SessionError::NotReady)
    } else {
        match status.allow_unsigned {
            None => Err(SessionError::Unknown),
            Some(true) => Err(SessionError::AllowsUnsigned),
            Some(false) => Ok(()),
        }
    }
}

/// What follows from a logoff.
#[derive(Clone, Copy, Debug, PartialEq, Eq, Structural)]
pub enum LogoffStep {
    /// Nothing is to be done.
    Skip,
    /// Send a logoff, and invalidate the session behind it.
    Send,
}

#[verifier::ext_equal]
pub struct ContextModel {
    pub session_id: u64,
    pub primary_channel_id: u32,
    /// The channels that are known, the primary one among them.
    pub channels: Set<u64>,
    /// Whether the session is being given up.
    pub dropping: bool,
}

impl ContextModel {
    /// A session is logged off once, and only where it is ready.
    pub open spec fn logoff_step(self, status: SessionStatus) -> LogoffStep {
        if self.dropping || status.phase != SessionPhase::Ready {
            LogoffStep::Skip
        } else {
            LogoffStep::Send
        }
    }

    /// The channel that a message goes over.
    pub open spec fn resolved(self, channel_id: Option<u32>) -> Result<u32, SessionError> {
        match channel_id {
            None => Ok(self.primary_channel_id),
            Some(id) => if id == self.primary_channel_id || self.channels.contains(id as u64) {
                Ok(id)
            } else {
                Err(
                    SessionError::ChannelNotFound {
                        session_id: self.session_id,
                        channel_id: id,
                    },
                )
            },
        }
    }
}

/// A session that was logged off is not logged off again.
pub proof fn sessions_are_logged_off_once(context: ContextModel, a: SessionStatus, b: SessionStatus)
    ensures
        (ContextModel { dropping: true, ..context }).logoff_step(b) == LogoffStep::Skip,
        context.logoff_step(a) == LogoffStep::Send ==> !context.dropping && a.phase
            == SessionPhase::Ready,
{
}

/// Which channels a session has, and whether it is being given up.
pub struct SessionContext {
    session_id: u64,
    primary_channel_id: u32,
    channels: IdSet,
    dropping: bool,
}

impl View for SessionContext {
    type V = ContextModel;

    closed spec fn view(&self) -> ContextModel {
        ContextModel {
            session_id: self.session_id,
            primary_channel_id: self.primary_channel_id,
            channels: self.channels@,
            dropping: self.dropping,
        }
    }
}

impl SessionContext {
    pub closed spec fn wf(&self) -> bool {
        self.channels.wf()
    }

    pub fn new(session_id: u64, primary_channel_id: u32) -> (context: Self)
        ensures
            context.wf(),
            context@ == (ContextModel {
                session_id,
                primary_channel_id,
                channels: Set::empty().insert(primary_channel_id as u64),
                dropping: false,
            }),
    {
        let mut channels = IdSet::new();
        let _ = channels.insert(primary_channel_id as u64);
        SessionContext { session_id, primary_channel_id, channels, dropping: false }
    }

    /// A channel was bound.
    pub fn add_channel(&mut self, channel_id: u32)
        requires
            old(self).wf(),
        ensures
            final(self).wf(),
            final(self)@ == (ContextModel {
                channels: old(self)@.channels.insert(channel_id as u64),
                ..old(self)@
            }),
    {
        let _ = self.channels.insert(channel_id as u64);
    }

    /// The channel that a message goes over: the primary one, unless another
    /// is named.
    pub fn resolve_channel(&self, channel_id: Option<u32>) -> (channel: Result<u32, SessionError>)
        ensures
            channel == self@.resolved(channel_id),
    {
        match channel_id {
            None => Ok(self.primary_channel_id),
            Some(id) => {
                if id == self.primary_channel_id || self.channels.contains(id as u64) {
                    Ok(id)
                } else {
                    Err(
                        SessionError::ChannelNotFound {
                            session_id: self.session_id,
                            channel_id: id,
                        },
                    )
                }
            },
        }
    }

    /// Begins the logoff of the session: only the first one counts.
    pub fn logoff(&mut self, status: SessionStatus) -> (step: LogoffStep)
        requires
            old(self).wf(),
        ensures
            final(self).wf(),
            step == old(self)@.logoff_step(status),
            final(self)@ == (ContextModel { dropping: true, ..old(self)@ }),
    {
        if self.dropping {
            return LogoffStep::Skip;
        }
        self.dropping = true;
        if status.phase != SessionPhase::Ready {
            return LogoffStep::Skip;
        }
        LogoffStep::Send
    }
}

#[verifier::ext_equal]
pub struct SessionModel {
    pub context: ContextModel,
    /// The number of the next channel.
    pub next_channel: u32,
    pub reauthenticates: bool,
}

/// A session, with the channels that it talks over.
pub struct Session {
    primary_channel: Channel,
    context: SessionContext,
    next_channel: u32,
    reauthenticates: bool,
}

impl View for Session {
    type V = SessionModel;

    closed spec fn view(&self) -> SessionModel {
        SessionModel {
            context: self.context@,
            next_channel: self.next_channel,
            reauthenticates: self.reauthenticates,
        }
    }
}

impl Session {
    pub closed spec fn wf(&self) -> bool {
        self.context.wf()
    }

    pub closed spec fn primary(&self) -> Channel {
        self.primary_channel
    }

    /// A session whose setup is done. Where it has a way to fresh
    /// credentials it can authenticate again.
    pub fn create(primary_channel: Channel, reauthenticates: bool) -> (session: Self)
        ensures
            session.wf(),
            session.primary() == primary_channel,
            session@ == (SessionModel {
                context: ContextModel {
                    session_id: primary_channel.session(),
                    primary_channel_id: primary_channel.id(),
                    channels: Set::empty().insert(primary_channel.id() as u64),
                    dropping: false,
                },
                next_channel: 1,
                reauthenticates,
            }),
    {
        let context = SessionContext::new(
            primary_channel.session_id(),
            primary_channel.channel_id(),
        );
        Session {
            primary_channel,
            context,
            next_channel: PRIMARY_CHANNEL_ID + 1,
            reauthenticates,
        }
    }

    /// Whether this session has a way to fresh credentials after its
    /// connection was replaced.
    pub fn supports_reauthentication(&self) -> (supports: bool)
        ensures
            supports == self@.reauthenticates,
    {
        self.reauthenticates
    }

    /// The channel that the session was set up on.
    pub fn primary_channel(&self) -> (channel: Channel)
        ensures
            channel == self.primary(),
    {
        self.primary_channel
    }

    /// Checks whether the session may be bound to another connection, and
    /// gives the new channel its number, whether or not its setup succeeds.
    pub fn bind(
        &mut self,
        own: ConnectionIdentity,
        other: ConnectionIdentity,
        status: SessionStatus,
    ) -> (channel_id: Result<u32, SessionError>)
        requires
            old(self).wf(),
        ensures
            final(self).wf(),
            final(self).primary() == old(self).primary(),
            match bindable(own, other, status) {
                Err(error) => channel_id == Err::<u32, SessionError>(error) && final(self)@
                    == old(self)@,
                Ok(_) => channel_id == Ok::<u32, SessionError>(old(self)@.next_channel)
                    && final(self)@ == (SessionModel {
                    next_channel: if old(self)@.next_channel < u32::MAX {
                        (old(self)@.next_channel + 1) as u32
                    } else {
                        0
                    },
                    ..old(self)@
                }),
            },
    {
        if own.dialect != other.dialect {
            return Err(SessionError::DifferentDialect);
        }
        if own.client_guid != other.client_guid {
            return Err(SessionError::DifferentClient);
        }
        if status.phase != SessionPhase::Ready {
            return Err(SessionError::NotReady);
        }
        match status.allow_unsigned {
            None => {
                return Err(SessionError::Unknown);
            },
            Some(true) => {
                return Err(SessionError::AllowsUnsigned);
            },
            Some(false) => {},
        }
        let channel_id: u32 = self.next_channel;
        self.next_channel = if channel_id < u32::MAX {
            channel_id + 1
        } else {
            0
        };
        Ok(channel_id)
    }

    /// The channel that was bound is ready for use.
    pub fn bound(&mut self, channel_id: u32)
        requires
            old(self).wf(),
        ensures
            final(self).wf(),
            final(self).primary() == old(self).primary(),
            final(self)@ == (SessionModel {
                context: ContextModel {
                    channels: old(self)@.context.channels.insert(channel_id as u64),
                    ..old(self)@.context
                },
                ..old(self)@
            }),
    {
        self.context.add_channel(channel_id);
    }

    /// The channel that a message goes over.
    pub fn resolve_channel(&self, channel_id: Option<u32>) -> (channel: Result<u32, SessionError>)
        ensures
            channel == self@.context.resolved(channel_id),
    {
        self.context.resolve_channel(channel_id)
    }

    /// Begins the logoff of the session.
    pub fn logoff(&mut self, status: SessionStatus) -> (step: LogoffStep)
        requires
            old(self).wf(),
        ensures
            final(self).wf(),
            final(self).primary() == old(self).primary(),
            step == old(self)@.context.logoff_step(status),
            final(self)@ == (SessionModel {
                context: ContextModel { dropping: true, ..old(self)@.context },
                ..old(self)@
            }),
    {
        self.context.logoff(status)
    }
}

/// A channel that was bound can be named from then on.
pub proof fn bound_channels_are_found(context: ContextModel, channel_id: u32)
    ensures
        (ContextModel {
            channels: context.channels.insert(channel_id as u64),
            ..context
        }).resolved(Some(channel_id)) == Ok::<u32, SessionError>(channel_id),
        context.resolved(None) == Ok::<u32, SessionError>(context.primary_channel_id),
{
}

/// The state that a session shares with its messages: its channel, which can
/// be replaced, and its object, which is set once. There is one such state for
/// a session on a connection: it is shared, never copied.
#[derive(Debug, PartialEq, Eq, Structural)]
pub struct SessionAndChannel {
    session_id: u64,
    channel: Option<ChannelInfo>,
    object: Option<ObjectToken>,
}

/// A channel, as far as its messages go.
#[derive(Clone, Copy, Debug, PartialEq, Eq, Structural)]
pub struct ChannelInfo {
    pub id: u32,
    /// Whether it only binds a session to another connection.
    pub binding: bool,
}

impl SessionAndChannel {
    pub closed spec fn id(&self) -> u64 {
        self.session_id
    }

    pub closed spec fn installed(&self) -> Option<ChannelInfo> {
        self.channel
    }

    pub closed spec fn object_token(&self) -> Option<ObjectToken> {
        self.object
    }

    pub fn new(session_id: u64) -> (session: Self)
        ensures
            session.id() == session_id,
            session.installed() is None,
            session.object_token() is None,
    {
        SessionAndChannel { session_id, channel: None, object: None }
    }

    pub fn session_id(&self) -> (id: u64)
        ensures
            id == self.id(),
    {
        self.session_id
    }

    /// Installs the channel.
    pub fn set_channel(&mut self, channel: ChannelInfo)
        ensures
            final(self).id() == old(self).id(),
            final(self).installed() == Some(channel),
            final(self).object_token() == old(self).object_token(),
    {
        self.channel = Some(channel);
    }

    /// The channel, where it was installed.
    pub fn channel(&self) -> (channel: Option<ChannelInfo>)
        ensures
            channel == self.installed(),
    {
        self.channel
    }

    /// Sets the object, once.
    pub fn set_object(&mut self, token: ObjectToken) -> (result: Result<(), SessionError>)
        ensures
            final(self).id() == old(self).id(),
            final(self).installed() == old(self).installed(),
            match old(self).object_token() {
                Some(_) => result == Err::<(), SessionError>(SessionError::ObjectAlreadyInstalled)
                    && final(self).object_token() == old(self).object_token(),
                None => result == Ok::<(), SessionError>(()) && final(self).object_token()
                    == Some(token),
            },
    {
        if self.object.is_some() {
            return Err(SessionError::ObjectAlreadyInstalled);
        }
        self.object = Some(token);
        Ok(())
    }

    pub fn object(&self) -> (object: Result<ObjectToken, SessionError>)
        ensures
            object == (match self.object_token() {
                Some(token) => Ok::<ObjectToken, SessionError>(token),
                None => Err(SessionError::ObjectUnavailable),
            }),
    {
        match self.object {
            Some(token) => Ok(token),
            None => Err(SessionError::ObjectUnavailable),
        }
    }
}

/// A session can be bound to a connection of the same dialect and the same
/// client, where it is ready and insists on signatures; else the first of
/// these that fails is told.
pub proof fn sessions_are_bound_to_their_like(
    own: ConnectionIdentity,
    other: ConnectionIdentity,
    status: SessionStatus,
)
    ensures
        ({
            let bound = bindable(own, other, status);
            let dialect = own.dialect == other.dialect;
            let client = own.client_guid == other.client_guid;
            let ready = status.phase is Ready;
            &&& bound is Ok <==> dialect && client && ready && status.allow_unsigned == Some(false)
            &&& bound == Err::<(), SessionError>(SessionError::DifferentDialect) <==> !dialect
            &&& bound == Err::<(), SessionError>(SessionError::DifferentClient) <==> dialect
                && !client
            &&& bound == Err::<(), SessionError>(SessionError::NotReady) <==> dialect && client
                && !ready
            &&& bound == Err::<(), SessionError>(SessionError::Unknown) <==> dialect && client
                && ready && status.allow_unsigned is None
            &&& bound == Err::<(), SessionError>(SessionError::AllowsUnsigned) <==> dialect
                && client && ready && status.allow_unsigned == Some(true)
        }),
{
}

/// A session that is ready and was not given up is logged off; no other is.
pub proof fn ready_sessions_are_logged_off(context: ContextModel, status: SessionStatus)
    ensures
        context.logoff_step(status) is Send <==> !context.dropping && status.phase is Ready,
{
}

/// A message goes over the channel that it names, where that is known, and
/// over the primary one where it names none. A channel that is not known is
/// refused by its name.
pub proof fn messages_go_over_known_channels(context: ContextModel, channel_id: Option<u32>)
    ensures
        match context.resolved(channel_id) {
            Ok(channel) => match channel_id {
                Some(id) => channel == id && (id == context.primary_channel_id
                    || context.channels.contains(id as u64)),
                None => channel == context.primary_channel_id,
            },
            Err(error) => channel_id matches Some(id) && id != context.primary_channel_id
                && !context.channels.contains(id as u64) && error
                == (SessionError::ChannelNotFound {
                session_id: context.session_id,
                channel_id: id,
            }),
        },
{
}

} // verus!
