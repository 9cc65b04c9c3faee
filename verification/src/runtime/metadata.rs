//! Timestamps that are written to a resource. Zero stands for a field that
//! is left as it is.

use crate::fscc::{FileAttributes, FileTime};
use vstd::prelude::*;

verus! {

/// Nanoseconds between the beginning of 1601 and that of 1970.
pub const UNIX_OFFSET_NS: u128 = 11_644_473_600_000_000_000;

/// A moment, by its distance from the beginning of 1970.
#[derive(Clone, Copy, Debug, PartialEq, Eq, Structural)]
pub struct UnixTime {
    pub before_epoch: bool,
    pub nanos: u128,
}

#[derive(Clone, Copy, Debug, PartialEq, Eq, Structural)]
pub enum TimestampError {
    /// The moment is not one that the protocol can tell from its sentinels.
    OutOfRange,
}

/// The fields that are written.
#[derive(Clone, Copy, Debug, PartialEq, Eq, Structural)]
pub struct FileBasicInformation {
    pub creation_time: FileTime,
    pub last_access_time: FileTime,
    pub last_write_time: FileTime,
    pub change_time: FileTime,
    pub file_attributes: FileAttributes,
}

impl UnixTime {
    pub open spec fn unix_ns(self) -> int {
        if self.before_epoch {
            -(self.nanos as int)
        } else {
            self.nanos as int
        }
    }

    /// Hundreds of nanoseconds since 1601, rounded down.
    pub open spec fn ticks(self) -> int {
        (self.unix_ns() + UNIX_OFFSET_NS) / 100
    }

    pub fn after_epoch(nanos: u128) -> (time: Self)
        ensures
            time.unix_ns() == nanos,
    {
        UnixTime { before_epoch: false, nanos }
    }

    pub fn before_epoch(nanos: u128) -> (time: Self)
        ensures
            time.unix_ns() == -(nanos as int),
    {
        UnixTime { before_epoch: true, nanos }
    }
}

/// The time to write for a moment: zero and what is negative have meanings
/// of their own in the protocol.
pub open spec fn time_for(value: Option<UnixTime>) -> Result<FileTime, TimestampError> {
    match value {
        None => Ok(FileTime(0)),
        Some(value) => if 0 < value.ticks() <= i64::MAX {
            Ok(FileTime(value.ticks() as u64))
        } else {
            Err(TimestampError::OutOfRange)
        },
    }
}

pub fn file_time(value: Option<UnixTime>) -> (time: Result<FileTime, TimestampError>)
    ensures
        time == time_for(value),
{
    let value = match value {
        Some(value) => value,
        None => {
            return Ok(FileTime(0));
        },
    };
    let since_1601: u128 = if value.before_epoch {
        if value.nanos > UNIX_OFFSET_NS {
            return Err(TimestampError::OutOfRange);
        }
        UNIX_OFFSET_NS - value.nanos
    } else {
        if value.nanos > 0xffff_ffff_ffff_ffff_ffff_ffff {
            return Err(TimestampError::OutOfRange);
        }
        value.nanos + UNIX_OFFSET_NS
    };
    let ticks: u128 = since_1601 / 100;
    if ticks == 0 || ticks > 0x7fff_ffff_ffff_ffff {
        return Err(TimestampError::OutOfRange);
    }
    Ok(FileTime(ticks as u64))
}

/// What is written for three moments. Neither the time of the last change
/// nor the attributes are written.
pub fn basic_information(
    created: Option<UnixTime>,
    accessed: Option<UnixTime>,
    written: Option<UnixTime>,
) -> (information: Result<FileBasicInformation, TimestampError>)
    ensures
        match (time_for(created), time_for(accessed), time_for(written)) {
            (Ok(creation_time), Ok(last_access_time), Ok(last_write_time)) => information == Ok::<
                FileBasicInformation,
                TimestampError,
            >(
                FileBasicInformation {
                    creation_time,
                    last_access_time,
                    last_write_time,
                    change_time: FileTime(0),
                    file_attributes: FileAttributes(0),
                },
            ),
            _ => information == Err::<FileBasicInformation, TimestampError>(
                TimestampError::OutOfRange,
            ),
        },
{
    match (file_time(created), file_time(accessed), file_time(written)) {
        (Ok(creation_time), Ok(last_access_time), Ok(last_write_time)) => Ok(
            FileBasicInformation {
                creation_time,
                last_access_time,
                last_write_time,
                change_time: FileTime(0),
                file_attributes: FileAttributes(0),
            },
        ),
        _ => Err(TimestampError::OutOfRange),
    }
}

/// What is to be sent, if anything: three fields that stay as they are need
/// no message.
pub fn set_metadata(
    created: Option<UnixTime>,
    accessed: Option<UnixTime>,
    written: Option<UnixTime>,
) -> (plan: Result<Option<FileBasicInformation>, TimestampError>)
    ensures
        created is None && accessed is None && written is None ==> plan == Ok::<
            Option<FileBasicInformation>,
            TimestampError,
        >(None),
        !(created is None && accessed is None && written is None) ==> match (
            time_for(created),
            time_for(accessed),
            time_for(written),
        ) {
            (Ok(creation_time), Ok(last_access_time), Ok(last_write_time)) => plan == Ok::<
                Option<FileBasicInformation>,
                TimestampError,
            >(
                Some(
                    FileBasicInformation {
                        creation_time,
                        last_access_time,
                        last_write_time,
                        change_time: FileTime(0),
                        file_attributes: FileAttributes(0),
                    },
                ),
            ),
            _ => plan == Err::<Option<FileBasicInformation>, TimestampError>(
                TimestampError::OutOfRange,
            ),
        },
{
    let basic = match basic_information(created, accessed, written) {
        Ok(basic) => basic,
        Err(error) => {
            return Err(error);
        },
    };
    if created.is_none() && accessed.is_none() && written.is_none() {
        return Ok(None);
    }
    Ok(Some(basic))
}

/// A later moment is never written as an earlier time.
pub proof fn times_keep_their_order(a: UnixTime, b: UnixTime)
    requires
        a.unix_ns() <= b.unix_ns(),
        time_for(Some(a)) is Ok,
        time_for(Some(b)) is Ok,
    ensures
        time_for(Some(a))->Ok_0.0 <= time_for(Some(b))->Ok_0.0,
{
}

/// A moment that is written is never taken for a field that is left alone.
pub proof fn times_are_no_sentinels(a: UnixTime)
    ensures
        time_for(Some(a)) matches Ok(time) ==> 0 < time.0 <= i64::MAX,
{
}

/// A moment is written as the last whole tick of a hundred nanoseconds before
/// it, counted from 1601, where that is more than zero and no more than the
/// largest signed number; else it is refused. A field that is left alone is
/// written as zero.
pub proof fn moments_are_written_in_ticks(value: UnixTime)
    ensures
        time_for(None) == Ok::<FileTime, TimestampError>(FileTime(0)),
        ({
            let since = (if value.before_epoch {
                -(value.nanos as int)
            } else {
                value.nanos as int
            }) + 11_644_473_600_000_000_000;
            match time_for(Some(value)) {
                Ok(time) => 0 < time.0 <= 0x7fff_ffff_ffff_ffff && time.0 * 100 <= since < (time.0
                    + 1) * 100,
                Err(error) => error == TimestampError::OutOfRange && (since < 100 || since
                    >= 0x8000_0000_0000_0000 * 100),
            }
        }),
        value.unix_ns() == if value.before_epoch {
            -(value.nanos as int)
        } else {
            value.nanos as int
        },
{
}

} // verus!
