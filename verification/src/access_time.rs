//! From what the metadata of a file says to whole seconds since the epoch.

use crate::error::{failure_error, Error, IoFailure};
use vstd::prelude::*;

verus! {

/// When a file was last read, measured from the Unix epoch (1970-01-01
/// 00:00:00 UTC).
#[derive(Clone, Copy, Debug, PartialEq, Eq, Structural)]
pub enum AccessTime {
    /// At the epoch or later: this many whole seconds after it, and this many
    /// nanoseconds more.
    SinceEpoch { secs: u64, nanos: u32 },
    /// Earlier than the epoch.
    BeforeEpoch,
}

/// What asking for the metadata of a path gave.
#[derive(Clone, Copy, Debug, PartialEq, Eq, Structural)]
pub enum Stat {
    /// The metadata could not be had.
    Unavailable(IoFailure),
    /// The metadata holds no access time: the platform or the file system
    /// keeps none.
    NoAccessTime,
    /// The metadata holds this access time.
    Accessed(AccessTime),
}

/// The access time in whole seconds since the epoch, the part of a second
/// dropped, or the reason why there is none.
pub open spec fn epoch_seconds(stat: Stat) -> Result<u64, Error> {
    match stat {
        Stat::Unavailable(failure) => Err(failure_error(failure)),
        Stat::NoAccessTime => Err(Error::AccessTimeUnsupported),
        Stat::Accessed(AccessTime::BeforeEpoch) => Err(Error::InvalidTimestamp),
        Stat::Accessed(AccessTime::SinceEpoch { secs, nanos }) => Ok(secs),
    }
}

/// Whether the first time is the second or earlier than it.
pub open spec fn no_later(first: AccessTime, second: AccessTime) -> bool {
    match (first, second) {
        (AccessTime::BeforeEpoch, _) => true,
        (AccessTime::SinceEpoch { .. }, AccessTime::BeforeEpoch) => false,
        (
            AccessTime::SinceEpoch { secs: s1, nanos: n1 },
            AccessTime::SinceEpoch { secs: s2, nanos: n2 },
        ) => s1 < s2 || (s1 == s2 && n1 <= n2),
    }
}

/// Resolves the access time of a file from what its metadata gave.
pub fn resolve(stat: Stat) -> (seconds: Result<u64, Error>)
    ensures
        seconds == epoch_seconds(stat),
{
    match stat {
        Stat::Unavailable(failure) => Err(Error::from_failure(failure)),
        Stat::NoAccessTime => Err(Error::AccessTimeUnsupported),
        Stat::Accessed(AccessTime::BeforeEpoch) => Err(Error::InvalidTimestamp),
        Stat::Accessed(AccessTime::SinceEpoch { secs, nanos: _ }) => Ok(secs),
    }
}

/// Of two access times that both resolve, the later one never resolves to
/// fewer seconds; and where the earlier one resolves, so does the later.
pub proof fn lemma_later_access_resolves_no_earlier(first: AccessTime, second: AccessTime)
    requires
        no_later(first, second),
        epoch_seconds(Stat::Accessed(first)) is Ok,
    ensures
        epoch_seconds(Stat::Accessed(second)) is Ok,
        epoch_seconds(Stat::Accessed(first))->Ok_0 <= epoch_seconds(Stat::Accessed(second))->Ok_0,
{
}

} // verus!
