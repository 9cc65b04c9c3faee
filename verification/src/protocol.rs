//! Commands and status codes of the protocol, as far as the client decides by
//! them.

use vstd::prelude::*;

verus! {

#[derive(Clone, Copy, Debug, PartialEq, Eq, Structural)]
pub enum Command {
    Negotiate,
    SessionSetup,
    Logoff,
    TreeConnect,
    TreeDisconnect,
    Create,
    Close,
    Flush,
    Read,
    Write,
    Lock,
    Ioctl,
    Cancel,
    Echo,
    QueryDirectory,
    ChangeNotify,
    QueryInfo,
    SetInfo,
    OplockBreak,
    ServerToClientNotification,
}

/// A status code; codes that nothing is decided by stay as they are.
#[derive(Clone, Copy, Debug, PartialEq, Eq, Structural)]
pub enum Status {
    Success,
    Pending,
    NotifyCleanup,
    NotifyEnumDir,
    BufferOverflow,
    NoMoreFiles,
    InvalidInfoClass,
    InfoLengthMismatch,
    EndOfFile,
    MoreProcessingRequired,
    AccessDenied,
    BufferTooSmall,
    Cancelled,
    FileClosed,
    UserSessionDeleted,
    NetworkSessionExpired,
    Other(u32),
}

impl Status {
    pub open spec fn spec_code(self) -> u32 {
        match self {
            Status::Success => 0x0000_0000,
            Status::Pending => 0x0000_0103,
            Status::NotifyCleanup => 0x0000_010b,
            Status::NotifyEnumDir => 0x0000_010c,
            Status::BufferOverflow => 0x8000_0005,
            Status::NoMoreFiles => 0x8000_0006,
            Status::InvalidInfoClass => 0xc000_0003,
            Status::InfoLengthMismatch => 0xc000_0004,
            Status::EndOfFile => 0xc000_0011,
            Status::MoreProcessingRequired => 0xc000_0016,
            Status::AccessDenied => 0xc000_0022,
            Status::BufferTooSmall => 0xc000_0023,
            Status::Cancelled => 0xc000_0120,
            Status::FileClosed => 0xc000_0128,
            Status::UserSessionDeleted => 0xc000_0203,
            Status::NetworkSessionExpired => 0xc000_035c,
            Status::Other(code) => code,
        }
    }

    /// Whether a code has a name of its own.
    pub open spec fn is_named(self) -> bool {
        !(self is Other)
    }

    /// The code on the wire.
    pub fn code(self) -> (code: u32)
        ensures
            code == self.spec_code(),
    {
        match self {
            Status::Success => 0x0000_0000,
            Status::Pending => 0x0000_0103,
            Status::NotifyCleanup => 0x0000_010b,
            Status::NotifyEnumDir => 0x0000_010c,
            Status::BufferOverflow => 0x8000_0005,
            Status::NoMoreFiles => 0x8000_0006,
            Status::InvalidInfoClass => 0xc000_0003,
            Status::InfoLengthMismatch => 0xc000_0004,
            Status::EndOfFile => 0xc000_0011,
            Status::MoreProcessingRequired => 0xc000_0016,
            Status::AccessDenied => 0xc000_0022,
            Status::BufferTooSmall => 0xc000_0023,
            Status::Cancelled => 0xc000_0120,
            Status::FileClosed => 0xc000_0128,
            Status::UserSessionDeleted => 0xc000_0203,
            Status::NetworkSessionExpired => 0xc000_035c,
            Status::Other(code) => code,
        }
    }

    /// The status with a given code: the one that is named after it, if any.
    pub fn from_code(code: u32) -> (status: Status)
        ensures
            status.spec_code() == code,
            forall|named: Status| named.is_named() && #[trigger] named.spec_code() == code ==> status == named,
    {
        match code {
            0x0000_0000 => Status::Success,
            0x0000_0103 => Status::Pending,
            0x0000_010b => Status::NotifyCleanup,
            0x0000_010c => Status::NotifyEnumDir,
            0x8000_0005 => Status::BufferOverflow,
            0x8000_0006 => Status::NoMoreFiles,
            0xc000_0003 => Status::InvalidInfoClass,
            0xc000_0004 => Status::InfoLengthMismatch,
            0xc000_0011 => Status::EndOfFile,
            0xc000_0016 => Status::MoreProcessingRequired,
            0xc000_0022 => Status::AccessDenied,
            0xc000_0023 => Status::BufferTooSmall,
            0xc000_0120 => Status::Cancelled,
            0xc000_0128 => Status::FileClosed,
            0xc000_0203 => Status::UserSessionDeleted,
            0xc000_035c => Status::NetworkSessionExpired,
            other => Status::Other(other),
        }
    }

    /// Whether the status says that the server has dropped the session.
    pub open spec fn says_session_gone(self) -> bool {
        self == Status::UserSessionDeleted || self == Status::NetworkSessionExpired
    }

    pub fn session_gone(self) -> (gone: bool)
        ensures
            gone == self.says_session_gone(),
    {
        self == Status::UserSessionDeleted || self == Status::NetworkSessionExpired
    }
}

/// No two statuses with a name share a code, and each name has the code of
/// the protocol. A status without a name has the code it was given.
pub proof fn statuses_have_their_codes(a: Status, b: Status)
    ensures
        a.is_named() && b.is_named() ==> (a.spec_code() == b.spec_code() <==> a == b),
        a.is_named() <==> !(a is Other),
        a matches Status::Other(code) ==> a.spec_code() == code,
        a is Success ==> a.spec_code() == 0,
        a is Pending ==> a.spec_code() == 0x103,
        a is NotifyCleanup ==> a.spec_code() == 0x10b,
        a is NotifyEnumDir ==> a.spec_code() == 0x10c,
        a is BufferOverflow ==> a.spec_code() == 0x8000_0005,
        a is NoMoreFiles ==> a.spec_code() == 0x8000_0006,
        a is InvalidInfoClass ==> a.spec_code() == 0xc000_0003,
        a is InfoLengthMismatch ==> a.spec_code() == 0xc000_0004,
        a is EndOfFile ==> a.spec_code() == 0xc000_0011,
        a is MoreProcessingRequired ==> a.spec_code() == 0xc000_0016,
        a is AccessDenied ==> a.spec_code() == 0xc000_0022,
        a is BufferTooSmall ==> a.spec_code() == 0xc000_0023,
        a is Cancelled ==> a.spec_code() == 0xc000_0120,
        a is FileClosed ==> a.spec_code() == 0xc000_0128,
        a is UserSessionDeleted ==> a.spec_code() == 0xc000_0203,
        a is NetworkSessionExpired ==> a.spec_code() == 0xc000_035c,
{
}

/// Two statuses say that the session is gone, and no other does.
pub proof fn sessions_are_gone_when_told(status: Status)
    ensures
        status.says_session_gone() <==> (status is UserSessionDeleted || status
            is NetworkSessionExpired),
{
}

} // verus!
