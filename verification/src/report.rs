//! The line that is printed for a file: its path and when it was last read.

use crate::access_time::{epoch_seconds, resolve, AccessTime, Stat};
use crate::error::Error;
use vstd::prelude::*;
use vstd::string::*;

verus! {

/// The last second of the year 9999, in seconds since the Unix epoch. Every
/// access time up to it has a date in `chrono`.
pub const LAST_SECOND_OF_9999: u64 = 253_402_300_799;

/// How `chrono` writes the moment `secs` seconds after the Unix epoch, in
/// UTC, when it is asked to debug-print it; `None` where `chrono` has no date
/// for that moment.
pub uninterp spec fn utc_date_time(secs: int) -> Option<Seq<char>>;

/// Calls `chrono::DateTime::from_timestamp` with the seconds given and no
/// nanoseconds, and debug-prints the `DateTime<Utc>` that comes back. The
/// contract gives that text its name and says nothing of what it looks like.
/// Of the seconds for which there is a text it claims one thing: `chrono`
/// holds every date of the Gregorian calendar from long before 1970 to the
/// year 262142, so from the epoch to the end of the year 9999 there always is
/// one.
#[verifier::external_body]
fn render_utc(secs: i64) -> (text: Option<String>)
    ensures
        match text {
            Some(text) => utc_date_time(secs as int) == Some(text@),
            None => utc_date_time(secs as int) is None,
        },
        0 <= secs <= LAST_SECOND_OF_9999 ==> text is Some,
{
    match chrono::DateTime::from_timestamp(secs, 0) {
        Some(moment) => Some(format!("{:?}", moment)),
        None => None,
    }
}

/// The date and time that is printed for an access time, if it has one.
pub open spec fn stamp(secs: u64) -> Option<Seq<char>> {
    if secs <= i64::MAX {
        utc_date_time(secs as int)
    } else {
        None
    }
}

/// The line for a file: the path, a hyphen between two spaces, the date and
/// time. Where there is no date and time for the access time, there is no
/// line.
pub open spec fn line(path: Seq<char>, stamp: Option<Seq<char>>) -> Result<Seq<char>, Error> {
    match stamp {
        Some(stamp) => Ok(path + " - "@ + stamp),
        None => Err(Error::InvalidTimestamp),
    }
}

/// What an entry of a walk was seen to be when it came to be reported.
#[derive(Clone, Copy, Debug, PartialEq, Eq, Structural)]
pub enum Seen {
    /// The path is not a file (any more).
    NotAFile,
    /// The path is a file, and asking for its metadata gave this.
    File(Stat),
}

/// What is printed for an entry: nothing where it is not a file, its line
/// where it is, and an error where its access time cannot be resolved or
/// written as a date.
pub open spec fn reported(path: Seq<char>, seen: Seen) -> Result<Option<Seq<char>>, Error> {
    match seen {
        Seen::NotAFile => Ok(None),
        Seen::File(stat) => match epoch_seconds(stat) {
            Err(error) => Err(error),
            Ok(secs) => match line(path, stamp(secs)) {
                Err(error) => Err(error),
                Ok(text) => Ok(Some(text)),
            },
        },
    }
}

/// Puts the line together from the path and the date and time as written.
pub fn compose_line(path: &str, stamp: Option<String>) -> (text: Result<String, Error>)
    ensures
        match text {
            Ok(text) => stamp is Some && line(path@, Some(stamp->0@)) == Ok::<Seq<char>, Error>(
                text@,
            ),
            Err(error) => stamp is None && error == Error::InvalidTimestamp,
        },
{
    match stamp {
        None => Err(Error::InvalidTimestamp),
        Some(stamp) => {
            let mut text = String::from_str(path);
            text.append(" - ");
            text.append(stamp.as_str());
            Ok(text)
        },
    }
}

/// The line for a file that was last read `secs` seconds after the epoch.
/// There is one for every access time up to the end of the year 9999.
pub fn report_line(path: &str, secs: u64) -> (text: Result<String, Error>)
    ensures
        match text {
            Ok(text) => line(path@, stamp(secs)) == Ok::<Seq<char>, Error>(text@),
            Err(error) => line(path@, stamp(secs)) == Err::<Seq<char>, Error>(error),
        },
        secs <= LAST_SECOND_OF_9999 ==> text is Ok,
{
    if secs > i64::MAX as u64 {
        Err(Error::InvalidTimestamp)
    } else {
        compose_line(path, render_utc(secs as i64))
    }
}

/// What is to be printed for one entry of a walk, from what the entry was
/// seen to be when its turn came. A file that was last read between the epoch
/// and the end of the year 9999 always has its line.
pub fn report_entry(path: &str, seen: Seen) -> (text: Result<Option<String>, Error>)
    ensures
        match text {
            Ok(Some(text)) => reported(path@, seen) == Ok::<Option<Seq<char>>, Error>(Some(text@)),
            Ok(None) => reported(path@, seen) == Ok::<Option<Seq<char>>, Error>(None),
            Err(error) => reported(path@, seen) == Err::<Option<Seq<char>>, Error>(error),
        },
        seen matches Seen::File(Stat::Accessed(AccessTime::SinceEpoch { secs, .. })) && secs
            <= LAST_SECOND_OF_9999 ==> text matches Ok(Some(_)),
{
    match seen {
        Seen::NotAFile => Ok(None),
        Seen::File(stat) => match resolve(stat) {
            Err(error) => Err(error),
            Ok(secs) => match report_line(path, secs) {
                Err(error) => Err(error),
                Ok(text) => Ok(Some(text)),
            },
        },
    }
}

} // verus!
