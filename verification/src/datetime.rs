//! Reading a date and time from text, in a time zone.

use vstd::prelude::*;
use vstd::string::*;
use crate::cursor::{Cursor, ReadBytesExt};
use crate::datetime_text::{
    calc_offset, offset_at, read_fraction, read_offset, read_time_parts, DATE_LEN,
};
use crate::error::ErrorCode;
use crate::key_escape::string_from_utf8;
use crate::text::str_eq;

verus! {

/// A time zone of jiff.
#[verifier::external_type_specification]
#[verifier::external_body]
pub struct ExTimeZone(jiff::tz::TimeZone);

/// A day of the calendar.
#[derive(Debug, Clone, Copy, PartialEq, Eq, Structural)]
pub struct Date {
    pub year: i16,
    pub month: i8,
    pub day: i8,
}

/// An instant in a time zone, as far as reading a date needs it: the
/// instant as seconds and nanoseconds from the epoch and as whole
/// microseconds, the offset of the zone from UTC at that instant, and the
/// year that the instant falls in there.
#[derive(Debug, Clone, Copy, PartialEq, Eq, Structural)]
pub struct ZonedTime {
    pub secs: i64,
    pub nanos: i32,
    pub micros: i64,
    pub offset_seconds: i32,
    pub year: i16,
}

impl ZonedTime {
    /// The nanoseconds from the epoch.
    pub open spec fn total_nanos(self) -> int {
        self.secs * 1_000_000_000 + self.nanos
    }

    /// Whether the instant is one that a zone gives: its offset is within
    /// what a zone can be off UTC, and its microseconds are the whole
    /// microseconds of its seconds and nanoseconds.
    pub open spec fn is_zoned(self) -> bool {
        &&& -93_599 <= self.offset_seconds <= 93_599
        &&& self.micros == whole_micros(self.secs as int, self.nanos as int)
    }
}

/// The whole microseconds in so many seconds and nanoseconds, a part of a
/// microsecond left out.
pub open spec fn whole_micros(secs: int, nanos: int) -> int {
    secs * 1_000_000 + (if nanos >= 0 {
        nanos / 1000
    } else {
        -((-nanos) / 1000)
    })
}

/// What was read: a point in time, or a day.
#[derive(Debug, Clone, Copy, PartialEq, Eq, Structural)]
pub enum DateTimeResType {
    Datetime(ZonedTime),
    Date(Date),
}

/// The day that jiff reads from a text, as year, month and day, or `None`
/// for a text that it reads no day from.
pub uninterp spec fn civil_date_of(text: Seq<char>) -> Option<(i16, i8, i8)>;

/// `jiff::civil::Date::from_str`: the day that the text stands for.
#[verifier::external_body]
fn parse_civil_date(text: &str) -> (r: Option<Date>)
    ensures
        match r {
            Some(d) => civil_date_of(text@) == Some((d.year, d.month, d.day)),
            None => civil_date_of(text@) is None,
        },
{
    text.parse::<jiff::civil::Date>().ok().map(
        |d| Date { year: d.year(), month: d.month(), day: d.day() },
    )
}

/// `jiff::civil::Date::at` and `DateTime::to_zoned`: the instant at which
/// the clocks of the zone show the day and time, where there is one that
/// jiff can tell. The zone decides it; its offset is within what jiff
/// allows of an offset, and its microseconds are the whole ones of its
/// seconds and nanoseconds.
#[verifier::external_body]
fn local_time_in(tz: &jiff::tz::TimeZone, date: Date, hour: i8, minute: i8, second: i8) -> (r:
    Option<ZonedTime>)
    requires
        0 <= hour <= 23,
        0 <= minute <= 59,
        0 <= second <= 59,
    ensures
        r matches Some(z) ==> z.is_zoned(),
{
    let day = jiff::civil::Date::new(date.year, date.month, date.day).ok()?;
    let z = day.at(hour, minute, second, 0).to_zoned(tz.clone()).ok()?;
    Some(
        ZonedTime {
            secs: z.timestamp().as_second(),
            nanos: z.timestamp().subsec_nanosecond(),
            micros: z.timestamp().as_microsecond(),
            offset_seconds: z.offset().seconds(),
            year: z.year(),
        },
    )
}

/// `jiff::civil::Date::to_zoned`: the instant at which the day begins in
/// the zone, where jiff can tell it. The zone decides it; offset and
/// microseconds are as of every instant that a zone gives.
#[verifier::external_body]
fn day_start_in(tz: &jiff::tz::TimeZone, date: Date) -> (r: Option<ZonedTime>)
    ensures
        r matches Some(z) ==> z.is_zoned(),
{
    let day = jiff::civil::Date::new(date.year, date.month, date.day).ok()?;
    let z = day.to_zoned(tz.clone()).ok()?;
    Some(
        ZonedTime {
            secs: z.timestamp().as_second(),
            nanos: z.timestamp().subsec_nanosecond(),
            micros: z.timestamp().as_microsecond(),
            offset_seconds: z.offset().seconds(),
            year: z.year(),
        },
    )
}

/// `jiff::Timestamp::new` and `Timestamp::to_zoned`: the instant of so
/// many seconds and nanoseconds from the epoch, in the zone, or `None`
/// where jiff holds no such instant. The instant is the one asked for; the
/// zone decides offset and year.
#[verifier::external_body]
fn instant_in(tz: &jiff::tz::TimeZone, secs: i64, nanos: i32) -> (r: Option<ZonedTime>)
    ensures
        r matches Some(z) ==> z.total_nanos() == secs * 1_000_000_000 + nanos && z.is_zoned(),
{
    let z = jiff::Timestamp::new(secs, nanos).ok()?.to_zoned(tz.clone());
    Some(
        ZonedTime {
            secs: z.timestamp().as_second(),
            nanos: z.timestamp().subsec_nanosecond(),
            micros: z.timestamp().as_microsecond(),
            offset_seconds: z.offset().seconds(),
            year: z.year(),
        },
    )
}

/// `jiff::Zoned::checked_add` with a span of nanoseconds: the instant so
/// many nanoseconds later, in the zone, or `None` where jiff holds no such
/// instant.
#[verifier::external_body]
fn later_in(tz: &jiff::tz::TimeZone, from: ZonedTime, nanos: u64) -> (r: Option<ZonedTime>)
    ensures
        r matches Some(z) ==> z.total_nanos() == from.total_nanos() + nanos && z.is_zoned(),
{
    let start = jiff::Timestamp::new(from.secs, from.nanos).ok()?.to_zoned(tz.clone());
    let z = start.checked_add(std::time::Duration::from_nanos(nanos)).ok()?;
    Some(
        ZonedTime {
            secs: z.timestamp().as_second(),
            nanos: z.timestamp().subsec_nanosecond(),
            micros: z.timestamp().as_microsecond(),
            offset_seconds: z.offset().seconds(),
            year: z.year(),
        },
    )
}

/// Whether a byte parts the date from the time: a space or a `T`.
pub fn is_date_time_separator(b: u8) -> (r: bool)
    ensures
        r == (b == 0x20 || b == 0x54),
{
    b == 0x20 || b == 0x54
}

/// Whether a byte says that the time is in UTC: a `z` or a `Z`.
pub fn is_utc_mark(b: u8) -> (r: bool)
    ensures
        r == (b == 0x7a || b == 0x5a),
{
    b == 0x7a || b == 0x5a
}

/// The error of a time that the zone has no instant for.
fn invalid_time_error() -> (e: ErrorCode)
    ensures
        e matches ErrorCode::BadBytes(m) && m@ == "Invalid time provided in times"@,
{
    ErrorCode::BadBytes(String::from_str("Invalid time provided in times"))
}

/// The instant at which the clocks of the zone show the day and the time
/// `times`, which are hours, minutes and seconds. A time that no clock
/// shows, and a day and time that the zone has no instant for, are refused.
pub fn get_local_time(tz: &jiff::tz::TimeZone, d: &Date, times: &Vec<u32>) -> (r: Result<
    ZonedTime,
    ErrorCode,
>)
    requires
        times@.len() == 3,
    ensures
        match r {
            Ok(z) => times@[0] <= 23 && times@[1] <= 59 && times@[2] <= 59 && z.is_zoned(),
            Err(e) => e matches ErrorCode::BadBytes(m) && m@ == "Invalid time provided in times"@,
        },
{
    if times[0] > 23 || times[1] > 59 || times[2] > 59 {
        return Err(invalid_time_error());
    }
    match local_time_in(tz, *d, times[0] as i8, times[1] as i8, times[2] as i8) {
        Some(z) => Ok(z),
        None => Err(invalid_time_error()),
    }
}

/// Whether `z` is the instant `dt` moved to the offset of `seconds` from
/// UTC: the instant at which clocks at that offset show what the clocks of
/// the zone of `dt` show at `dt`, in whole microseconds.
pub open spec fn is_moved(dt: ZonedTime, seconds: int, z: ZonedTime) -> bool {
    z.total_nanos() == (dt.micros + (dt.offset_seconds - seconds) * 1_000_000) * 1000
}

/// Moves an instant by the difference between the offset of its time zone
/// and the offset `val_tz_sec` that its text names: the result is the
/// instant at which clocks at the named offset show what the clocks of the
/// zone show at the instant given.
pub fn shift_to_offset(tz: &jiff::tz::TimeZone, val_tz_sec: i32, dt: &ZonedTime) -> (r: Result<
    ZonedTime,
    ErrorCode,
>)
    requires
        -93_599 <= val_tz_sec <= 93_599,
        -93_599 <= dt.offset_seconds <= 93_599,
    ensures
        match r {
            Ok(z) => is_moved(*dt, val_tz_sec as int, z) && z.is_zoned(),
            Err(e) => e is BadBytes,
        },
{
    if dt.micros < -9_000_000_000_000_000_000 || dt.micros > 9_000_000_000_000_000_000 {
        return Err(ErrorCode::BadBytes(String::from_str("Datetime add offset with error")));
    }
    let (secs, nanos) = calc_offset(dt.offset_seconds as i64, val_tz_sec as i64, dt.micros);
    match instant_in(tz, secs, nanos) {
        Some(z) => Ok(z),
        None => Err(ErrorCode::BadBytes(String::from_str("Datetime add offset with error"))),
    }
}

/// Reads the offset from UTC behind a sign and moves the instant to it.
/// `west_tz` says that the sign was a minus. An instant of a year before
/// 1970 is not moved but gives way to the beginning of 1970 in the zone.
pub fn parse_time_offset(
    cursor: &mut Cursor,
    tz: &jiff::tz::TimeZone,
    dt: &ZonedTime,
    west_tz: bool,
) -> (r: Result<ZonedTime, ErrorCode>)
    requires
        -93_599 <= dt.offset_seconds <= 93_599,
    ensures
        match r {
            Ok(z) => offset_at(old(cursor).remaining()) matches Some((value, used)) && final(cursor).remaining() == old(cursor).remaining().subrange(
                used,
                old(cursor).remaining().len() as int,
            ) && 0 <= used <= old(cursor).remaining().len() && z.is_zoned() && (dt.year >= 1970
                ==> is_moved(
                *dt,
                if west_tz {
                    -value
                } else {
                    value
                },
                z,
            )),
            Err(e) => e is BadBytes,
        },
{
    let seconds = match read_offset(cursor) {
        Ok(seconds) => seconds,
        Err(e) => {
            return Err(e);
        },
    };
    if dt.year < 1970 {
        match local_time_in(tz, Date { year: 1970, month: 1, day: 1 }, 0, 0, 0) {
            Some(z) => Ok(z),
            None => Err(ErrorCode::BadBytes(String::from_str("dt parse error"))),
        }
    } else {
        let val_tz_sec: i32 = if west_tz {
            -seconds
        } else {
            seconds
        };
        shift_to_offset(tz, val_tz_sec, dt)
    }
}

/// The text of the date in the ten bytes that a text of a date begins with:
/// the bytes as text, and for the date of zeros the first day of 1970.
pub open spec fn date_text_of(bytes: Seq<u8>) -> Seq<char> {
    if vstd::utf8::decode_utf8(bytes) == "0000-00-00"@ {
        "1970-01-01"@
    } else {
        vstd::utf8::decode_utf8(bytes)
    }
}

/// The bytes of the date at the front of what remains of a text.
pub open spec fn date_bytes_of(remaining: Seq<u8>) -> Seq<u8> {
    remaining.subrange(0, DATE_LEN as int)
}

/// What stands behind the date and the byte that parts it from the time.
pub open spec fn time_bytes_of(remaining: Seq<u8>) -> Seq<u8> {
    remaining.subrange(DATE_LEN as int + 1, remaining.len() as int)
}

/// Whether a time stands behind the date: a space or a `T` follows it.
pub open spec fn has_time(remaining: Seq<u8>) -> bool {
    remaining.len() > DATE_LEN && (remaining[DATE_LEN as int] == 0x20
        || remaining[DATE_LEN as int] == 0x54)
}

/// Reads a date, or a date and time, from text, in the zone `tz`.
///
/// The text begins with the date, as `YYYY-MM-DD`; the date of zeros
/// stands for the first day of 1970. Behind a space or a `T` comes the
/// time: hours, minutes and seconds as far as they are there, then a point
/// and a fraction of the second, then `Z` for UTC or a sign and an offset
/// from UTC. Without a time the result is the day where `need_date` asks
/// for it, else the beginning of the day in the zone.
pub fn read_text_to_datetime(cursor: &mut Cursor, tz: &jiff::tz::TimeZone, need_date: bool) -> (r:
    Result<DateTimeResType, ErrorCode>)
    ensures
        is_date_reading(old(cursor).remaining(), need_date, r, final(cursor).remaining()),
{
    let ghost start = cursor.remaining();
    // Date Part YYYY-MM-DD
    let buf = match cursor.read_exact(DATE_LEN) {
        Ok(buf) => buf,
        Err(e) => {
            return Err(ErrorCode::Internal(e.message));
        },
    };
    assert(buf@ =~= date_bytes_of(start));
    let text = match string_from_utf8(buf) {
        Some(text) => text,
        None => {
            return Err(
                ErrorCode::BadBytes(
                    String::from_str("UTF-8 Conversion Failed: Unable to convert value to UTF-8"),
                ),
            );
        },
    };
    // convert zero date to `1970-01-01`
    let v: &str = if str_eq(text.as_str(), "0000-00-00") {
        "1970-01-01"
    } else {
        text.as_str()
    };
    proof {
        vstd::utf8::encode_utf8_decode_utf8(text@);
    }
    let d = match parse_civil_date(v) {
        Some(d) => d,
        None => {
            let mut m = String::from_str("Date Parsing Error: The value '");
            m.append(v);
            m.append("' could not be parsed into a valid Date");
            return Err(ErrorCode::BadBytes(m));
        },
    };
    assert(day_at(start) == Some(d));
    // Time Part
    if cursor.ignore(is_date_time_separator) {
        let ghost time_bytes = cursor.remaining();
        assert(time_bytes =~= time_bytes_of(start));
        // HH:mm:ss
        let mut times = match read_time_parts(cursor) {
            Ok(times) => times,
            Err(e) => {
                return Err(e);
            },
        };
        let ghost parts = times@;
        let ghost rest = cursor.remaining();
        // Time part is HH:MM or HH or empty
        // Examples: '2022-02-02T', '2022-02-02 ', '2022-02-02T02', '2022-02-02T3:',
        // '2022-02-03T03:13', '2022-02-03T03:13:'
        if times.len() < 3 {
            while times.len() < 3
                invariant
                    parts.len() <= times@.len() <= 3,
                    forall|i: int| 0 <= i < parts.len() ==> times@[i] == parts[i],
                    forall|i: int| parts.len() <= i < times@.len() ==> times@[i] == 0,
                decreases 3 - times@.len(),
            {
                times.push(0);
            }
            return match get_local_time(tz, &d, &times) {
                Ok(dt) => Ok(DateTimeResType::Datetime(dt)),
                Err(e) => Err(e),
            };
        }
        let shown = match get_local_time(tz, &d, &times) {
            Ok(shown) => shown,
            Err(e) => {
                return Err(e);
            },
        };
        let end = read_time_end(cursor, tz, shown);
        let reading = match end {
            Ok(z) => Ok(DateTimeResType::Datetime(z)),
            Err(e) => Err(e),
        };
        proof {
            let all = time_bytes_of(start);
            let used = crate::datetime_text::time_parts_at(all, 0)->Some_0.1;
            assert(rest == all.subrange(used, all.len() as int));
            if let Ok(DateTimeResType::Datetime(z)) = reading {
                if !is_time_end(rest) {
                    let nanos = fraction_at(rest)->Some_0.0;
                    let taken = fraction_at(rest)->Some_0.1;
                    let dt = choose|dt: ZonedTime|
                        is_time_answer(
                            shown,
                            dt,
                            nanos,
                            rest.subrange(taken, rest.len() as int),
                            z,
                            cursor.remaining(),
                        );
                    assert(is_time_answer(
                        shown,
                        dt,
                        nanos,
                        rest.subrange(taken, rest.len() as int),
                        z,
                        cursor.remaining(),
                    ));
                }
            }
            assert(is_time_reading(all, reading, cursor.remaining()));
        }
        reading
    } else {
        // only date part
        assert(cursor.remaining() =~= start.subrange(DATE_LEN as int, start.len() as int));
        if need_date {
            Ok(DateTimeResType::Date(d))
        } else {
            match day_start_in(tz, d) {
                Some(z) => Ok(DateTimeResType::Datetime(z)),
                None => Err(
                    ErrorCode::BadBytes(String::from_str("Failed to parse date as timestamp.")),
                ),
            }
        }
    }
}

/// Whether `r` is what the zone can answer: an instant, or the error with
/// the message `refusal` where the zone has no instant.
pub open spec fn is_zone_answer(r: Result<DateTimeResType, ErrorCode>, refusal: Seq<char>) -> bool {
    match r {
        Ok(DateTimeResType::Datetime(z)) => z.is_zoned(),
        Ok(DateTimeResType::Date(_)) => false,
        Err(e) => e matches ErrorCode::BadBytes(m) && m@ == refusal,
    }
}

/// Reads what stands behind the three parts of a time: a point and the
/// fraction of a second, then `Z` for UTC or a sign and an offset from UTC.
/// `shown` is the instant at which the clocks of the zone show the time.
/// Where none of these follows, nothing is read and the instant is `shown`.
pub fn read_time_end(cursor: &mut Cursor, tz: &jiff::tz::TimeZone, shown: ZonedTime) -> (r: Result<
    ZonedTime,
    ErrorCode,
>)
    requires
        shown.is_zoned(),
    ensures
        match (r, fraction_at(old(cursor).remaining())) {
            (Ok(z), Some((nanos, taken))) => exists|dt: ZonedTime| #[trigger]
                is_time_answer(
                    shown,
                    dt,
                    nanos,
                    old(cursor).remaining().subrange(taken, old(cursor).remaining().len() as int),
                    z,
                    final(cursor).remaining(),
                ),
            (Ok(_), None) => false,
            (Err(e), _) => e is BadBytes,
        },
        is_time_end(old(cursor).remaining()) ==> r == Ok::<ZonedTime, ErrorCode>(shown)
            && final(cursor).remaining() == old(cursor).remaining(),
{
    let ghost rest = cursor.remaining();
    // ms .microseconds
    let ghost mut nanos: nat = 0;
    let dt = if cursor.ignore_byte(0x2e) {
        let ghost digits = cursor.remaining();
        assert(digits =~= rest.drop_first());
        let scales = match read_fraction(cursor) {
            Ok(scales) => scales,
            Err(e) => {
                return Err(e);
            },
        };
        proof {
            nanos = scales as nat;
            let n = crate::datetime_text::digits_len(digits);
            assert(cursor.remaining() =~= rest.subrange(1 + n, rest.len() as int));
        }
        match later_in(tz, shown, scales) {
            Some(dt) => dt,
            None => {
                return Err(ErrorCode::BadBytes(String::from_str("Datetime add nanos with error")));
            },
        }
    } else {
        assert(cursor.remaining() =~= rest.subrange(0, rest.len() as int));
        shown
    };
    let ghost tail = cursor.remaining();
    // Timezone 2022-02-02T03:00:03.123[z/Z[+/-08:00]]
    let moved = if cursor.ignore(is_utc_mark) {
        // ISO 8601 The Z on the end means UTC (that is, an offset-from-UTC of zero
        // hours-minutes-seconds).
        shift_to_offset(tz, 0, &dt)
    } else if cursor.ignore_byte(0x2b) {
        let r = parse_time_offset(cursor, tz, &dt, false);
        proof {
            if r is Ok {
                let used = offset_at(tail.drop_first())->Some_0.1;
                assert(tail.drop_first().subrange(used, tail.drop_first().len() as int)
                    =~= tail.subrange(1 + used, tail.len() as int));
            }
        }
        r
    } else if cursor.ignore_byte(0x2d) {
        let r = parse_time_offset(cursor, tz, &dt, true);
        proof {
            if r is Ok {
                let used = offset_at(tail.drop_first())->Some_0.1;
                assert(tail.drop_first().subrange(used, tail.drop_first().len() as int)
                    =~= tail.subrange(1 + used, tail.len() as int));
            }
        }
        r
    } else {
        // only datetime part
        Ok(dt)
    };
    proof {
        if let Ok(z) = moved {
            assert(fraction_at(rest) is Some);
            let taken = fraction_at(rest)->Some_0.1;
            assert(fraction_at(rest)->Some_0.0 == nanos);
            assert(tail == rest.subrange(taken, rest.len() as int));
            assert(is_named_instant(tail, dt, z, cursor.remaining()));
            assert(is_time_answer(shown, dt, nanos, tail, z, cursor.remaining()));
        }
    }
    moved
}

/// The day of an instant in a time zone.
#[verifier::external_body]
fn day_of(tz: &jiff::tz::TimeZone, z: ZonedTime) -> (r: Option<Date>) {
    let d = jiff::Timestamp::new(z.secs, z.nanos).ok()?.to_zoned(tz.clone()).date();
    Some(Date { year: d.year(), month: d.month(), day: d.day() })
}

/// Reads a date from text: the day that the text names, or the day of the
/// point in time that it names, in the zone.
pub fn read_date_text(cursor: &mut Cursor, tz: &jiff::tz::TimeZone) -> (r: Result<Date, ErrorCode>)
    ensures
        exists|reading: Result<DateTimeResType, ErrorCode>|
            is_date_reading(old(cursor).remaining(), true, reading, final(cursor).remaining())
                && #[trigger] is_day_of(reading, r),
        !has_time(old(cursor).remaining()) ==> (day_at(old(cursor).remaining()) matches Some(d)
            ==> r == Ok::<Date, ErrorCode>(d)),
{
    let reading = read_text_to_datetime(cursor, tz, true);
    day_of_reading(tz, reading)
}

/// Reads a point in time from text, in the zone. A text that names a day
/// only gives the beginning of the day. The instant is the zone's to tell,
/// so that no text is promised one; a text that names no day, or a time
/// that no clock shows, is promised its error.
pub fn read_timestamp_text(cursor: &mut Cursor, tz: &jiff::tz::TimeZone) -> (r: Result<
    DateTimeResType,
    ErrorCode,
>)
    ensures
        is_date_reading(old(cursor).remaining(), false, r, final(cursor).remaining()),
{
    read_text_to_datetime(cursor, tz, false)
}

/// The message for a text that is no date.
pub open spec fn date_parse_message(text: Seq<char>) -> Seq<char> {
    "Date Parsing Error: The value '"@ + text + "' could not be parsed into a valid Date"@
}

/// The day that the front of a text names, or `None` where it names none:
/// where fewer bytes remain than a date takes, where they are no text, and
/// where the text is no date.
pub open spec fn day_at(remaining: Seq<u8>) -> Option<Date> {
    if remaining.len() >= DATE_LEN && vstd::utf8::valid_utf8(date_bytes_of(remaining)) {
        match civil_date_of(date_text_of(date_bytes_of(remaining))) {
            Some((year, month, day)) => Some(Date { year, month, day }),
            None => None,
        }
    } else {
        None
    }
}

/// Whether `e` is the error for a text whose front names no day, and
/// `after` what remains of the text then. Too few bytes are left unread.
pub open spec fn is_date_refusal(remaining: Seq<u8>, e: ErrorCode, after: Seq<u8>) -> bool {
    if remaining.len() < DATE_LEN {
        &&& after == remaining
        &&& e matches ErrorCode::Internal(m) && m@ == "failed to fill whole buffer"@
    } else if !vstd::utf8::valid_utf8(date_bytes_of(remaining)) {
        e matches ErrorCode::BadBytes(m) && m@
            == "UTF-8 Conversion Failed: Unable to convert value to UTF-8"@
    } else {
        e matches ErrorCode::BadBytes(m) && m@ == date_parse_message(
            date_text_of(date_bytes_of(remaining)),
        )
    }
}

/// Whether the parts of a time are hours, minutes and seconds that a clock
/// shows. Parts that are not there count as zero.
pub open spec fn is_time_of_day(parts: Seq<u32>) -> bool {
    &&& parts.len() > 0 ==> parts[0] <= 23
    &&& parts.len() > 1 ==> parts[1] <= 59
    &&& parts.len() > 2 ==> parts[2] <= 59
}

/// Whether nothing follows a time that belongs to it: no point, no mark of
/// UTC and no sign.
pub open spec fn is_time_end(rest: Seq<u8>) -> bool {
    rest.len() == 0 || (rest[0] != 0x2e && rest[0] != 0x7a && rest[0] != 0x5a && rest[0] != 0x2b
        && rest[0] != 0x2d)
}

/// The fraction of a second behind the three parts of a time, in
/// nanoseconds, and how many bytes it takes with its point: nothing where
/// no point follows the time, and `None` where no digit follows the point
/// or the digits are too many to be read.
pub open spec fn fraction_at(rest: Seq<u8>) -> Option<(nat, int)> {
    if rest.len() > 0 && rest[0] == 0x2e {
        let digits = rest.drop_first();
        let n = crate::datetime_text::digits_len(digits);
        if n > 0 && crate::datetime_text::digits_value(digits.subrange(0, n)) <= u64::MAX {
            Some((crate::datetime_text::fraction_nanos(digits.subrange(0, n)), 1 + n))
        } else {
            None
        }
    } else {
        Some((0, 0))
    }
}

/// Whether `z` is the instant that a text names with `tail` behind its
/// time, where `dt` is the instant at which the clocks of the zone show
/// that time; `after` is what is left of `tail`.
///
/// Behind a mark of UTC the instant is moved to UTC. Behind a sign an
/// offset is read, and the instant is moved to it, unless it falls in a
/// year before 1970. Anything else is left unread, and the instant is the
/// zone's.
pub open spec fn is_named_instant(tail: Seq<u8>, dt: ZonedTime, z: ZonedTime, after: Seq<u8>) -> bool {
    if tail.len() > 0 && (tail[0] == 0x7a || tail[0] == 0x5a) {
        after == tail.drop_first() && is_moved(dt, 0, z)
    } else if tail.len() > 0 && (tail[0] == 0x2b || tail[0] == 0x2d) {
        match offset_at(tail.drop_first()) {
            Some((value, used)) => {
                &&& after == tail.subrange(1 + used, tail.len() as int)
                &&& dt.year >= 1970 ==> is_moved(
                    dt,
                    if tail[0] == 0x2d {
                        -value
                    } else {
                        value
                    },
                    z,
                )
            },
            None => false,
        }
    } else {
        after == tail && z == dt
    }
}

/// Whether `z` is read from what stands behind a time, for the answers
/// `shown` and `dt` of the zone: `shown` is the instant at which its
/// clocks show the time, `dt` is later by the fraction of `nanos`
/// nanoseconds, and `z` is the instant named with `tail` behind the
/// fraction.
pub open spec fn is_time_answer(
    shown: ZonedTime,
    dt: ZonedTime,
    nanos: nat,
    tail: Seq<u8>,
    z: ZonedTime,
    after: Seq<u8>,
) -> bool {
    &&& shown.is_zoned()
    &&& dt.is_zoned()
    &&& dt.total_nanos() == shown.total_nanos() + nanos
    &&& z.is_zoned()
    &&& is_named_instant(tail, dt, z, after)
}

/// Whether `r` is a reading of the time in `bytes`, with `after` left over.
///
/// Parts of more than two digits, and parts that no clock shows, are
/// refused. A time that ends after its parts is for the zone to answer,
/// and what follows it is left unread. Behind three parts a fraction and an
/// offset are read: a fraction or an offset that cannot be read is refused,
/// and a result is the instant that they name, for some answers of the
/// zone.
pub open spec fn is_time_reading(
    bytes: Seq<u8>,
    r: Result<DateTimeResType, ErrorCode>,
    after: Seq<u8>,
) -> bool {
    match crate::datetime_text::time_parts_at(bytes, 0) {
        None => r matches Err(e) && e is BadBytes,
        Some((parts, used)) => {
            let rest = bytes.subrange(used, bytes.len() as int);
            if !is_time_of_day(parts) {
                r matches Err(ErrorCode::BadBytes(m)) && m@ == "Invalid time provided in times"@
            } else if parts.len() < 3 || is_time_end(rest) {
                after == rest && is_zone_answer(r, "Invalid time provided in times"@)
            } else {
                match (r, fraction_at(rest)) {
                    (Ok(DateTimeResType::Datetime(z)), Some((nanos, taken))) => exists|
                        shown: ZonedTime,
                        dt: ZonedTime,
                    | #[trigger]
                        is_time_answer(
                            shown,
                            dt,
                            nanos,
                            rest.subrange(taken, rest.len() as int),
                            z,
                            after,
                        ),
                    (Ok(_), _) => false,
                    (Err(e), _) => e is BadBytes,
                }
            }
        },
    }
}

/// Whether `r` is a reading of the date, or date and time, at the front of
/// `remaining`, with `after` left over.
///
/// A front that names no day is refused. A day alone is the result where
/// `need_date` asks for a day; else the beginning of the day is for the
/// zone to answer. Either way the day's bytes are read and no more. A day
/// with a space or a `T` behind it is read with its time.
pub open spec fn is_date_reading(
    remaining: Seq<u8>,
    need_date: bool,
    r: Result<DateTimeResType, ErrorCode>,
    after: Seq<u8>,
) -> bool {
    match day_at(remaining) {
        None => r matches Err(e) && is_date_refusal(remaining, e, after),
        Some(d) => if has_time(remaining) {
            is_time_reading(time_bytes_of(remaining), r, after)
        } else {
            &&& after == remaining.subrange(DATE_LEN as int, remaining.len() as int)
            &&& if need_date {
                r == Ok::<DateTimeResType, ErrorCode>(DateTimeResType::Date(d))
            } else {
                is_zone_answer(r, "Failed to parse date as timestamp."@)
            }
        },
    }
}

/// Whether `r` is the day of the reading `reading`: the day that was read;
/// for an instant, its day in the zone, or the error of an instant that the
/// zone has no day for; and the error of a reading that failed.
pub open spec fn is_day_of(
    reading: Result<DateTimeResType, ErrorCode>,
    r: Result<Date, ErrorCode>,
) -> bool {
    match reading {
        Ok(DateTimeResType::Date(d)) => r == Ok::<Date, ErrorCode>(d),
        Ok(DateTimeResType::Datetime(_)) => match r {
            Ok(_) => true,
            Err(e) => e matches ErrorCode::BadBytes(m) && m@ == "Invalid time provided in times"@,
        },
        Err(e) => r == Err::<Date, ErrorCode>(e),
    }
}

/// The day of a reading, in the zone.
fn day_of_reading(tz: &jiff::tz::TimeZone, reading: Result<DateTimeResType, ErrorCode>) -> (r:
    Result<Date, ErrorCode>)
    ensures
        is_day_of(reading, r),
{
    match reading {
        Ok(DateTimeResType::Date(nd)) => Ok(nd),
        Ok(DateTimeResType::Datetime(dt)) => match day_of(tz, dt) {
            Some(d) => Ok(d),
            None => Err(ErrorCode::BadBytes(String::from_str("Invalid time provided in times"))),
        },
        Err(e) => Err(e),
    }
}

} // verus!
