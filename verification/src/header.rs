//! The fixed header in front of every plain message.

use crate::little_endian::{
    le_bytes, le_bytes_len, le_value, machine_spans, push_le, read_le,
    written_numbers_are_read_back,
};
use crate::protocol::Command;
use vstd::prelude::*;

verus! {

/// The length of the header.
pub const HEADER_SIZE: usize = 64;

/// Where the offset of the next command of a compound stands.
pub const NEXT_COMMAND_OFFSET: usize = 20;

/// Where the signature stands.
pub const SIGNATURE_OFFSET: usize = 48;

/// Set in the flags of responses.
pub const FLAG_SERVER_TO_REDIR: u32 = 1;

/// Set in the flags of async messages.
pub const FLAG_ASYNC: u32 = 2;

/// Set in the flags of signed messages.
pub const FLAG_SIGNED: u32 = 8;

/// Whether flags say that a message is signed.
pub open spec fn says_signed(flags: u32) -> bool {
    (flags / FLAG_SIGNED) % 2 == 1
}

/// Whether flags say that a message is async.
pub open spec fn says_async(flags: u32) -> bool {
    (flags / FLAG_ASYNC) % 2 == 1
}

pub fn is_signed(flags: u32) -> (signed: bool)
    ensures
        signed == says_signed(flags),
{
    (flags / FLAG_SIGNED) % 2 == 1
}

pub fn is_async(flags: u32) -> (asynchronous: bool)
    ensures
        asynchronous == says_async(flags),
{
    (flags / FLAG_ASYNC) % 2 == 1
}

#[derive(Clone, Copy, Debug, PartialEq, Eq, Structural)]
pub struct Header {
    pub credit_charge: u16,
    pub status: u32,
    pub command: Command,
    /// Credits asked for in a request, granted in a response.
    pub credit_request: u16,
    pub flags: u32,
    /// Where the next command of a compound begins; zero in the last one.
    pub next_command: u32,
    pub message_id: u64,
    /// The async id of an async message; else the tree id in the upper half.
    pub routing: u64,
    pub session_id: u64,
    pub signature: u128,
}

/// What the first bytes of a message say it is.
#[derive(Clone, Copy, Debug, PartialEq, Eq, Structural)]
pub enum MessageKind {
    Plain,
    Encrypted,
    Compressed,
    Unknown,
}

pub open spec fn kind_of(bytes: Seq<u8>) -> MessageKind {
    if bytes.len() < 4 || bytes[1] != 0x53 || bytes[2] != 0x4d || bytes[3] != 0x42 {
        MessageKind::Unknown
    } else if bytes[0] == 0xfe {
        MessageKind::Plain
    } else if bytes[0] == 0xfd {
        MessageKind::Encrypted
    } else if bytes[0] == 0xfc {
        MessageKind::Compressed
    } else {
        MessageKind::Unknown
    }
}

pub fn message_kind(bytes: &[u8]) -> (kind: MessageKind)
    ensures
        kind == kind_of(bytes@),
{
    if bytes.len() < 4 || bytes[1] != 0x53 || bytes[2] != 0x4d || bytes[3] != 0x42 {
        return MessageKind::Unknown;
    }
    if bytes[0] == 0xfe {
        MessageKind::Plain
    } else if bytes[0] == 0xfd {
        MessageKind::Encrypted
    } else if bytes[0] == 0xfc {
        MessageKind::Compressed
    } else {
        MessageKind::Unknown
    }
}

pub open spec fn command_code(command: Command) -> u16 {
    match command {
        Command::Negotiate => 0,
        Command::SessionSetup => 1,
        Command::Logoff => 2,
        Command::TreeConnect => 3,
        Command::TreeDisconnect => 4,
        Command::Create => 5,
        Command::Close => 6,
        Command::Flush => 7,
        Command::Read => 8,
        Command::Write => 9,
        Command::Lock => 10,
        Command::Ioctl => 11,
        Command::Cancel => 12,
        Command::Echo => 13,
        Command::QueryDirectory => 14,
        Command::ChangeNotify => 15,
        Command::QueryInfo => 16,
        Command::SetInfo => 17,
        Command::OplockBreak => 18,
        Command::ServerToClientNotification => 19,
    }
}

/// The code of a command on the wire.
pub fn encode_command(command: Command) -> (code: u16)
    ensures
        code == command_code(command),
{
    match command {
        Command::Negotiate => 0,
        Command::SessionSetup => 1,
        Command::Logoff => 2,
        Command::TreeConnect => 3,
        Command::TreeDisconnect => 4,
        Command::Create => 5,
        Command::Close => 6,
        Command::Flush => 7,
        Command::Read => 8,
        Command::Write => 9,
        Command::Lock => 10,
        Command::Ioctl => 11,
        Command::Cancel => 12,
        Command::Echo => 13,
        Command::QueryDirectory => 14,
        Command::ChangeNotify => 15,
        Command::QueryInfo => 16,
        Command::SetInfo => 17,
        Command::OplockBreak => 18,
        Command::ServerToClientNotification => 19,
    }
}

/// The command with a given code.
pub fn decode_command(code: u16) -> (command: Option<Command>)
    ensures
        command matches Some(known) ==> command_code(known) == code,
        command is None ==> forall|known: Command| #[trigger] command_code(known) != code,
{
    match code {
        0 => Some(Command::Negotiate),
        1 => Some(Command::SessionSetup),
        2 => Some(Command::Logoff),
        3 => Some(Command::TreeConnect),
        4 => Some(Command::TreeDisconnect),
        5 => Some(Command::Create),
        6 => Some(Command::Close),
        7 => Some(Command::Flush),
        8 => Some(Command::Read),
        9 => Some(Command::Write),
        10 => Some(Command::Lock),
        11 => Some(Command::Ioctl),
        12 => Some(Command::Cancel),
        13 => Some(Command::Echo),
        14 => Some(Command::QueryDirectory),
        15 => Some(Command::ChangeNotify),
        16 => Some(Command::QueryInfo),
        17 => Some(Command::SetInfo),
        18 => Some(Command::OplockBreak),
        19 => Some(Command::ServerToClientNotification),
        _ => None,
    }
}

/// The number in `n` bytes from `start` on.
pub open spec fn field(bytes: Seq<u8>, start: int, n: int) -> nat {
    le_value(bytes.subrange(start, start + n))
}

/// Whether bytes begin with a header, and with which.
pub open spec fn begins_with(bytes: Seq<u8>, header: Header) -> bool {
    &&& bytes.len() >= HEADER_SIZE
    &&& kind_of(bytes) == MessageKind::Plain
    &&& field(bytes, 4, 2) == HEADER_SIZE
    &&& field(bytes, 6, 2) == header.credit_charge
    &&& field(bytes, 8, 4) == header.status
    &&& field(bytes, 12, 2) == command_code(header.command)
    &&& field(bytes, 14, 2) == header.credit_request
    &&& field(bytes, 16, 4) == header.flags
    &&& field(bytes, 20, 4) == header.next_command
    &&& field(bytes, 24, 8) == header.message_id
    &&& field(bytes, 32, 8) == header.routing
    &&& field(bytes, 40, 8) == header.session_id
    &&& field(bytes, 48, 16) == header.signature
}

/// The bytes of a header.
pub open spec fn header_bytes(header: Header) -> Seq<u8> {
    seq![0xfeu8, 0x53u8, 0x4du8, 0x42u8] + le_bytes(HEADER_SIZE as nat, 2) + le_bytes(
        header.credit_charge as nat,
        2,
    ) + le_bytes(header.status as nat, 4) + le_bytes(command_code(header.command) as nat, 2)
        + le_bytes(header.credit_request as nat, 2) + le_bytes(header.flags as nat, 4) + le_bytes(
        header.next_command as nat,
        4,
    ) + le_bytes(header.message_id as nat, 8) + le_bytes(header.routing as nat, 8) + le_bytes(
        header.session_id as nat,
        8,
    ) + le_bytes(header.signature as nat, 16)
}

/// Bytes begin with at most one header.
pub proof fn header_is_unique(bytes: Seq<u8>, a: Header, b: Header)
    requires
        begins_with(bytes, a),
        begins_with(bytes, b),
    ensures
        a == b,
{
}

impl Header {
    /// Reads the header that bytes begin with.
    pub fn read(bytes: &[u8]) -> (header: Option<Header>)
        ensures
            header matches Some(header) ==> begins_with(bytes@, header),
            header is None ==> forall|h: Header| !(#[trigger] begins_with(bytes@, h)),
    {
        if bytes.len() < HEADER_SIZE {
            return None;
        }
        if message_kind(bytes) != MessageKind::Plain {
            return None;
        }
        proof {
            machine_spans();
        }
        if read_le(bytes, 4, 2) != HEADER_SIZE as u128 {
            return None;
        }
        let code: u128 = read_le(bytes, 12, 2);
        let command = match decode_command(code as u16) {
            Some(command) => command,
            None => {
                return None;
            },
        };
        Some(
            Header {
                credit_charge: read_le(bytes, 6, 2) as u16,
                status: read_le(bytes, 8, 4) as u32,
                command,
                credit_request: read_le(bytes, 14, 2) as u16,
                flags: read_le(bytes, 16, 4) as u32,
                next_command: read_le(bytes, 20, 4) as u32,
                message_id: read_le(bytes, 24, 8) as u64,
                routing: read_le(bytes, 32, 8) as u64,
                session_id: read_le(bytes, 40, 8) as u64,
                signature: read_le(bytes, 48, 16),
            },
        )
    }

    /// The bytes of the header.
    pub fn write(&self) -> (bytes: Vec<u8>)
        ensures
            bytes@ == header_bytes(*self),
            bytes@.len() == HEADER_SIZE,
    {
        let mut bytes: Vec<u8> = vec![0xfe, 0x53, 0x4d, 0x42];
        push_le(&mut bytes, HEADER_SIZE as u128, 2);
        push_le(&mut bytes, self.credit_charge as u128, 2);
        push_le(&mut bytes, self.status as u128, 4);
        push_le(&mut bytes, encode_command(self.command) as u128, 2);
        push_le(&mut bytes, self.credit_request as u128, 2);
        push_le(&mut bytes, self.flags as u128, 4);
        push_le(&mut bytes, self.next_command as u128, 4);
        push_le(&mut bytes, self.message_id as u128, 8);
        push_le(&mut bytes, self.routing as u128, 8);
        push_le(&mut bytes, self.session_id as u128, 8);
        push_le(&mut bytes, self.signature, 16);
        proof {
            header_len(*self);
        }
        bytes
    }
}

proof fn header_len(header: Header)
    ensures
        header_bytes(header).len() == HEADER_SIZE,
{
    le_bytes_len(HEADER_SIZE as nat, 2);
    le_bytes_len(header.credit_charge as nat, 2);
    le_bytes_len(header.status as nat, 4);
    le_bytes_len(command_code(header.command) as nat, 2);
    le_bytes_len(header.credit_request as nat, 2);
    le_bytes_len(header.flags as nat, 4);
    le_bytes_len(header.next_command as nat, 4);
    le_bytes_len(header.message_id as nat, 8);
    le_bytes_len(header.routing as nat, 8);
    le_bytes_len(header.session_id as nat, 8);
    le_bytes_len(header.signature as nat, 16);
}

/// A header that was written is read back, whatever follows it.
pub proof fn written_headers_are_read_back(header: Header, rest: Seq<u8>)
    ensures
        begins_with(header_bytes(header) + rest, header),
{
    machine_spans();
    header_len(header);
    le_bytes_len(HEADER_SIZE as nat, 2);
    le_bytes_len(header.credit_charge as nat, 2);
    le_bytes_len(header.status as nat, 4);
    le_bytes_len(command_code(header.command) as nat, 2);
    le_bytes_len(header.credit_request as nat, 2);
    le_bytes_len(header.flags as nat, 4);
    le_bytes_len(header.next_command as nat, 4);
    le_bytes_len(header.message_id as nat, 8);
    le_bytes_len(header.routing as nat, 8);
    le_bytes_len(header.session_id as nat, 8);
    le_bytes_len(header.signature as nat, 16);
    written_numbers_are_read_back(HEADER_SIZE as nat, 2);
    written_numbers_are_read_back(header.credit_charge as nat, 2);
    written_numbers_are_read_back(header.status as nat, 4);
    written_numbers_are_read_back(command_code(header.command) as nat, 2);
    written_numbers_are_read_back(header.credit_request as nat, 2);
    written_numbers_are_read_back(header.flags as nat, 4);
    written_numbers_are_read_back(header.next_command as nat, 4);
    written_numbers_are_read_back(header.message_id as nat, 8);
    written_numbers_are_read_back(header.routing as nat, 8);
    written_numbers_are_read_back(header.session_id as nat, 8);
    written_numbers_are_read_back(header.signature as nat, 16);
    let all = header_bytes(header) + rest;
    assert(all.subrange(4, 6) =~= le_bytes(HEADER_SIZE as nat, 2));
    assert(all.subrange(6, 8) =~= le_bytes(header.credit_charge as nat, 2));
    assert(all.subrange(8, 12) =~= le_bytes(header.status as nat, 4));
    assert(all.subrange(12, 14) =~= le_bytes(command_code(header.command) as nat, 2));
    assert(all.subrange(14, 16) =~= le_bytes(header.credit_request as nat, 2));
    assert(all.subrange(16, 20) =~= le_bytes(header.flags as nat, 4));
    assert(all.subrange(20, 24) =~= le_bytes(header.next_command as nat, 4));
    assert(all.subrange(24, 32) =~= le_bytes(header.message_id as nat, 8));
    assert(all.subrange(32, 40) =~= le_bytes(header.routing as nat, 8));
    assert(all.subrange(40, 48) =~= le_bytes(header.session_id as nat, 8));
    assert(all.subrange(48, 64) =~= le_bytes(header.signature as nat, 16));
}

/// A header has 64 bytes, and each of its fields has its place in them.
pub proof fn fields_have_their_places(header: Header)
    ensures
        ({
            let bytes = header_bytes(header);
            &&& bytes.len() == 64
            &&& bytes[0] == 0xfe
            &&& bytes[1] == 0x53
            &&& bytes[2] == 0x4d
            &&& bytes[3] == 0x42
            &&& le_value(bytes.subrange(4, 6)) == 64
            &&& le_value(bytes.subrange(6, 8)) == header.credit_charge
            &&& le_value(bytes.subrange(8, 12)) == header.status
            &&& le_value(bytes.subrange(12, 14)) == command_code(header.command)
            &&& le_value(bytes.subrange(14, 16)) == header.credit_request
            &&& le_value(bytes.subrange(16, 20)) == header.flags
            &&& le_value(bytes.subrange(20, 24)) == header.next_command
            &&& le_value(bytes.subrange(24, 32)) == header.message_id
            &&& le_value(bytes.subrange(32, 40)) == header.routing
            &&& le_value(bytes.subrange(40, 48)) == header.session_id
            &&& le_value(bytes.subrange(48, 64)) == header.signature
        }),
{
    written_headers_are_read_back(header, Seq::empty());
    header_len(header);
    assert(header_bytes(header) + Seq::<u8>::empty() =~= header_bytes(header));
}

/// A header is found where its marker and its length stand, and reads as what
/// stands in its fields.
pub proof fn headers_are_read_from_their_fields(bytes: Seq<u8>, header: Header)
    ensures
        begins_with(bytes, header) <==> {
            &&& bytes.len() >= 64
            &&& bytes[0] == 0xfe
            &&& bytes[1] == 0x53
            &&& bytes[2] == 0x4d
            &&& bytes[3] == 0x42
            &&& le_value(bytes.subrange(4, 6)) == 64
            &&& le_value(bytes.subrange(6, 8)) == header.credit_charge
            &&& le_value(bytes.subrange(8, 12)) == header.status
            &&& le_value(bytes.subrange(12, 14)) == command_code(header.command)
            &&& le_value(bytes.subrange(14, 16)) == header.credit_request
            &&& le_value(bytes.subrange(16, 20)) == header.flags
            &&& le_value(bytes.subrange(20, 24)) == header.next_command
            &&& le_value(bytes.subrange(24, 32)) == header.message_id
            &&& le_value(bytes.subrange(32, 40)) == header.routing
            &&& le_value(bytes.subrange(40, 48)) == header.session_id
            &&& le_value(bytes.subrange(48, 64)) == header.signature
        },
{
}

/// The marker at the front tells the three kinds of messages apart.
pub proof fn kinds_are_told_by_the_marker(bytes: Seq<u8>)
    ensures
        ({
            let marked = bytes.len() >= 4 && bytes[1] == 0x53 && bytes[2] == 0x4d && bytes[3]
                == 0x42;
            &&& kind_of(bytes) is Plain <==> marked && bytes[0] == 0xfe
            &&& kind_of(bytes) is Encrypted <==> marked && bytes[0] == 0xfd
            &&& kind_of(bytes) is Compressed <==> marked && bytes[0] == 0xfc
        }),
{
}

/// The flags say whether a message is signed and whether it is async, each in
/// its own bit.
pub proof fn flags_have_their_bits(flags: u32)
    ensures
        says_signed(flags) <==> (flags / 8) % 2 == 1,
        says_async(flags) <==> (flags / 2) % 2 == 1,
{
}

/// No two commands share a code, and the codes count the commands from zero
/// on, in the order of the protocol.
pub proof fn commands_have_their_codes(a: Command, b: Command)
    ensures
        command_code(a) == command_code(b) <==> a == b,
        command_code(a) <= 19,
        command_code(a) == 0 <==> a is Negotiate,
        command_code(a) == 1 <==> a is SessionSetup,
        command_code(a) == 2 <==> a is Logoff,
        command_code(a) == 3 <==> a is TreeConnect,
        command_code(a) == 4 <==> a is TreeDisconnect,
        command_code(a) == 5 <==> a is Create,
        command_code(a) == 6 <==> a is Close,
        command_code(a) == 7 <==> a is Flush,
        command_code(a) == 8 <==> a is Read,
        command_code(a) == 9 <==> a is Write,
        command_code(a) == 10 <==> a is Lock,
        command_code(a) == 11 <==> a is Ioctl,
        command_code(a) == 12 <==> a is Cancel,
        command_code(a) == 13 <==> a is Echo,
        command_code(a) == 14 <==> a is QueryDirectory,
        command_code(a) == 15 <==> a is ChangeNotify,
        command_code(a) == 16 <==> a is QueryInfo,
        command_code(a) == 17 <==> a is SetInfo,
        command_code(a) == 18 <==> a is OplockBreak,
        command_code(a) == 19 <==> a is ServerToClientNotification,
{
}

} // verus!
