//! The instant that a local time stands for in a time zone, where clocks
//! are set forward and back.

use vstd::prelude::*;
use vstd::string::*;
use crate::error::ErrorCode;
use crate::timestamp::Timestamp;

verus! {

/// A time zone of chrono-tz.
#[verifier::external_type_specification]
#[verifier::external_body]
pub struct ExTz(chrono_tz::Tz);

/// The instants that a local time stands for in a time zone.
#[derive(Debug, Clone, Copy, PartialEq, Eq, Structural)]
pub enum LocalResult {
    /// One instant.
    Single(Timestamp),
    /// Two instants, the earlier first: the clocks were set back, and
    /// showed the local time twice.
    Ambiguous(Timestamp, Timestamp),
    /// No instant: the clocks were set forward over the local time.
    NoTime,
}

/// `chrono::TimeZone::from_local_datetime` on a zone of chrono-tz: the
/// instants at which the clocks of the zone show the local time that is so
/// many seconds and nanoseconds from the beginning of 1970 on those clocks.
/// A local time that chrono cannot hold stands for no instant.
#[verifier::external_body]
fn local_instants(tz: &chrono_tz::Tz, local_secs: i64, local_nanos: u32) -> (r: LocalResult) {
    let naive = match chrono::DateTime::from_timestamp(local_secs, local_nanos) {
        Some(t) => t.naive_utc(),
        None => return LocalResult::NoTime,
    };
    match chrono::TimeZone::from_local_datetime(tz, &naive) {
        chrono::MappedLocalTime::Single(t) => LocalResult::Single(
            Timestamp { secs: t.timestamp(), nanos: t.timestamp_subsec_nanos() },
        ),
        chrono::MappedLocalTime::Ambiguous(a, b) => LocalResult::Ambiguous(
            Timestamp { secs: a.timestamp(), nanos: a.timestamp_subsec_nanos() },
            Timestamp { secs: b.timestamp(), nanos: b.timestamp_subsec_nanos() },
        ),
        chrono::MappedLocalTime::None => LocalResult::NoTime,
    }
}

/// Whether the local time an hour later is looked up: the first look-up
/// found no instant, the fix for such hours is on, and an hour later is
/// still a time.
pub open spec fn needs_hour_later(first: LocalResult, enable_dst_hour_fix: bool, local_secs: i64) -> bool {
    first is NoTime && enable_dst_hour_fix && local_secs + 3600 <= i64::MAX
}

/// The instant that is taken for a local time. `first` is what the local
/// time stands for, and `later`, where it was looked up, what the local
/// time an hour later stands for. One instant is taken as it is. Of two,
/// the earlier is taken where the fix is on, else the later. Where there is
/// none, the fix takes the instant, or the earlier of the two, that the
/// local time an hour later stands for. `None` where no instant is found.
pub open spec fn chosen_instant(
    first: LocalResult,
    enable_dst_hour_fix: bool,
    later: Option<LocalResult>,
) -> Option<Timestamp> {
    match first {
        LocalResult::Single(t) => Some(t),
        LocalResult::Ambiguous(t1, t2) => if enable_dst_hour_fix {
            Some(t1)
        } else {
            Some(t2)
        },
        LocalResult::NoTime => if enable_dst_hour_fix {
            match later {
                Some(LocalResult::Single(t)) => Some(t),
                Some(LocalResult::Ambiguous(t1, _)) => Some(t1),
                _ => None,
            }
        } else {
            None
        },
    }
}

/// Chooses the instant for a local time from what was looked up.
pub fn choose_local_time(
    first: LocalResult,
    enable_dst_hour_fix: bool,
    later: Option<LocalResult>,
) -> (r: Result<Timestamp, ErrorCode>)
    ensures
        match r {
            Ok(t) => chosen_instant(first, enable_dst_hour_fix, later) == Some(t),
            Err(e) => chosen_instant(first, enable_dst_hour_fix, later) is None && e is BadArguments,
        },
{
    match first {
        LocalResult::Single(t) => Ok(t),
        LocalResult::Ambiguous(t1, t2) => {
            // The local time is _ambiguous_ because there is a _fold_ in the local time.
            // This variant contains the two possible results, in the order `(earliest, latest)`
            if enable_dst_hour_fix {
                return Ok(t1);
            }
            Ok(t2)
        },
        LocalResult::NoTime => {
            if enable_dst_hour_fix {
                match later {
                    Some(LocalResult::Single(t)) => {
                        return Ok(t);
                    },
                    Some(LocalResult::Ambiguous(t1, _)) => {
                        return Ok(t1);
                    },
                    Some(LocalResult::NoTime) => {
                        return Err(
                            ErrorCode::BadArguments(
                                String::from_str(
                                    "Local Time Error: The local time can not map to a single unique result with timezone",
                                ),
                            ),
                        );
                    },
                    None => {},
                }
            }
            Err(
                ErrorCode::BadArguments(
                    String::from_str(
                        "The time can not map to a single unique result with timezone",
                    ),
                ),
            )
        },
    }
}

/// Finds the instant for a local time in a time zone. The local time is
/// given as the seconds and nanoseconds from the beginning of 1970 that the
/// clocks of the zone show. Whatever the zone tells of the local time, and
/// of the local time an hour later where that is looked up, the instant is
/// the one that `choose_local_time` takes.
pub fn unwrap_local_time(
    tz: &chrono_tz::Tz,
    enable_dst_hour_fix: bool,
    local_secs: i64,
    local_nanos: u32,
) -> (r: Result<Timestamp, ErrorCode>)
    ensures
        exists|first: LocalResult, later: Option<LocalResult>|
            (later is Some ==> needs_hour_later(first, enable_dst_hour_fix, local_secs)) && (
            match r {
                Ok(t) => #[trigger] chosen_instant(first, enable_dst_hour_fix, later) == Some(t),
                Err(e) => chosen_instant(first, enable_dst_hour_fix, later) is None
                    && e is BadArguments,
            }),
{
    let first = local_instants(tz, local_secs, local_nanos);
    let later = match first {
        LocalResult::NoTime => {
            if enable_dst_hour_fix && local_secs <= i64::MAX - 3600 {
                Some(local_instants(tz, local_secs + 3600, local_nanos))
            } else {
                None
            }
        },
        _ => None,
    };
    let r = choose_local_time(first, enable_dst_hour_fix, later);
    proof {
        assert(r is Ok ==> chosen_instant(first, enable_dst_hour_fix, later) == Some(r->Ok_0));
    }
    r
}

} // verus!
