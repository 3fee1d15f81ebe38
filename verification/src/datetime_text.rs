//! The text of a date and time: its parts as they are read from a buffer,
//! before any time zone is asked.

use vstd::prelude::*;
use vstd::string::*;
use crate::cursor::{is_ascii_digit, is_digit, Cursor, ReadBytesExt, accepts_run};
use crate::error::ErrorCode;
use crate::text::u64_to_decimal;

verus! {

/// How many bytes the date takes at the front of the text.
pub const DATE_LEN: usize = 10;

/// Whether every byte is a decimal digit.
pub open spec fn all_digits(bytes: Seq<u8>) -> bool {
    forall|i: int| 0 <= i < bytes.len() ==> is_digit(#[trigger] bytes[i])
}

/// The number that the digits stand for.
pub open spec fn digits_value(bytes: Seq<u8>) -> nat
    decreases bytes.len(),
{
    if bytes.len() == 0 {
        0
    } else {
        digits_value(bytes.drop_last()) * 10 + (bytes.last() - 0x30) as nat
    }
}

/// How many digits stand at the front of `bytes`.
pub open spec fn digits_len(bytes: Seq<u8>) -> int
    decreases bytes.len(),
{
    if bytes.len() == 0 || !is_digit(bytes[0]) {
        0
    } else {
        1 + digits_len(bytes.drop_first())
    }
}

/// A count of digits, with no digit behind them, is `digits_len`.
pub proof fn lemma_digits_len_unique(bytes: Seq<u8>, k: int)
    requires
        0 <= k <= bytes.len(),
        forall|i: int| 0 <= i < k ==> is_digit(#[trigger] bytes[i]),
        k < bytes.len() ==> !is_digit(bytes[k]),
    ensures
        digits_len(bytes) == k,
    decreases bytes.len(),
{
    if bytes.len() == 0 || !is_digit(bytes[0]) {
    } else {
        let t = bytes.drop_first();
        lemma_digits_len_unique(t, k - 1);
    }
}

/// The digits that a run of accepted digits holds are counted by
/// `digits_len`.
pub proof fn lemma_accepted_digits(bytes: Seq<u8>, k: int)
    requires
        accepts_run(is_ascii_digit, bytes, k),
    ensures
        digits_len(bytes) == k,
        all_digits(bytes.subrange(0, k)),
{
    lemma_digits_len_unique(bytes, k);
}

/// Digits stand for a number below ten to the power of their count.
pub proof fn lemma_digits_value_bound(bytes: Seq<u8>)
    requires
        all_digits(bytes),
    ensures
        digits_value(bytes) < pow10(bytes.len()),
    decreases bytes.len(),
{
    if bytes.len() > 0 {
        lemma_digits_value_bound(bytes.drop_last());
    }
}

/// Ten to the power of `n`.
pub open spec fn pow10(n: nat) -> nat
    decreases n,
{
    if n == 0 {
        1
    } else {
        10 * pow10((n - 1) as nat)
    }
}

/// Reads the number that digits stand for. `None` for no digit at all and
/// for a number too great.
pub fn parse_digits(buf: &[u8]) -> (r: Option<u64>)
    requires
        all_digits(buf@),
    ensures
        match r {
            Some(v) => buf@.len() > 0 && v == digits_value(buf@),
            None => buf@.len() == 0 || digits_value(buf@) > u64::MAX,
        },
{
    if buf.len() == 0 {
        return None;
    }
    let mut value: u64 = 0;
    let mut i: usize = 0;
    while i < buf.len()
        invariant
            i <= buf.len(),
            all_digits(buf@),
            value == digits_value(buf@.take(i as int)),
        decreases buf.len() - i,
    {
        let d: u64 = (buf[i] - 0x30) as u64;
        proof {
            assert(buf@.take(i + 1).drop_last() =~= buf@.take(i as int));
        }
        if value > (u64::MAX - d) / 10 {
            proof {
                lemma_digits_value_grows(buf@, i + 1);
            }
            return None;
        }
        value = value * 10 + d;
        i += 1;
    }
    assert(buf@.take(buf@.len() as int) =~= buf@);
    Some(value)
}

/// Digits stand for no smaller number than a part of them from the front.
pub proof fn lemma_digits_value_grows(bytes: Seq<u8>, k: int)
    requires
        0 <= k <= bytes.len(),
        all_digits(bytes),
    ensures
        digits_value(bytes.take(k)) <= digits_value(bytes),
    decreases bytes.len() - k,
{
    if k == bytes.len() {
        assert(bytes.take(k) =~= bytes);
    } else {
        assert(bytes.drop_last().take(k) =~= bytes.take(k));
        lemma_digits_value_grows(bytes.drop_last(), k);
    }
}

/// The error of a part of the time that is no number.
fn time_part_parse_error() -> (e: ErrorCode)
    ensures
        e matches ErrorCode::BadBytes(m) && m@ == "time part parse error"@,
{
    ErrorCode::BadBytes(String::from_str("time part parse error"))
}

/// The message for a part of the time of `size` digits.
pub open spec fn time_part_size_message(size: nat) -> Seq<char> {
    "err with parse time part. Format like this:[03:00:00], got "@ + crate::text::decimal(size)
        + " digits"@
}

/// Reads a part of the time, which is hours, minutes or seconds, from its
/// one or two digits.
pub fn parse_time_part(buf: &[u8], size: usize) -> (r: Result<u32, ErrorCode>)
    requires
        all_digits(buf@),
        buf@.len() == size,
    ensures
        match r {
            Ok(v) => 0 < size < 3 && v == digits_value(buf@) && v < 100,
            Err(e) => !(0 < size < 3) && (e matches ErrorCode::BadBytes(m) && m@
                == time_part_size_message(size as nat)),
        },
{
    if size > 0 && size < 3 {
        proof {
            lemma_digits_value_bound(buf@);
            reveal_with_fuel(pow10, 3);
        }
        match parse_digits(buf) {
            Some(v) => Ok(v as u32),
            None => Err(time_part_parse_error()),
        }
    } else {
        let mut msg = String::from_str("err with parse time part. Format like this:[03:00:00], got ");
        msg.append(u64_to_decimal(size as u64).as_str());
        msg.append(" digits");
        Err(ErrorCode::BadBytes(msg))
    }
}

/// The parts of the time at the front of `bytes`, `have` of them read
/// already, and how many bytes they take: up to three numbers of one or two
/// digits, with or without a colon behind each but the third. `None` where
/// a number has more digits.
pub open spec fn time_parts_at(bytes: Seq<u8>, have: int) -> Option<(Seq<u32>, int)>
    decreases 3 - have,
{
    let n = digits_len(bytes);
    if n == 0 || have >= 3 {
        Some((Seq::empty(), 0))
    } else if n >= 3 {
        None
    } else {
        let value = digits_value(bytes.subrange(0, n)) as u32;
        if have + 1 == 3 {
            Some((seq![value], n))
        } else {
            let colon: int = if n < bytes.len() && bytes[n] == 0x3a {
                1
            } else {
                0
            };
            match time_parts_at(bytes.subrange(n + colon, bytes.len() as int), have + 1) {
                Some((rest, used)) => Some((seq![value] + rest, n + colon + used)),
                None => None,
            }
        }
    }
}

/// What `time_parts_at` gives from `bytes` on, with `done` parts and `used`
/// bytes before them.
spec fn time_parts_from(done: Seq<u32>, used: int, bytes: Seq<u8>, have: int) -> Option<
    (Seq<u32>, int),
> {
    match time_parts_at(bytes, have) {
        Some((rest, more)) => Some((done + rest, used + more)),
        None => None,
    }
}

/// `digits_len` is within the bytes.
pub proof fn lemma_digits_len_bound(bytes: Seq<u8>)
    ensures
        0 <= digits_len(bytes) <= bytes.len(),
    decreases bytes.len(),
{
    if bytes.len() > 0 && is_digit(bytes[0]) {
        lemma_digits_len_bound(bytes.drop_first());
    }
}

/// Reads the parts of the time: hours, minutes and seconds, as far as they
/// are there. A part of more than two digits is refused; the cursor then
/// stands behind its digits.
pub fn read_time_parts(cursor: &mut Cursor) -> (r: Result<Vec<u32>, ErrorCode>)
    ensures
        match r {
            Ok(times) => time_parts_at(old(cursor).remaining(), 0) matches Some((parts, used))
                && times@ == parts && times@.len() <= 3 && 0 <= used <= old(cursor).remaining().len() && final(cursor).remaining() == old(cursor).remaining().subrange(
                used,
                old(cursor).remaining().len() as int,
            ),
            Err(e) => time_parts_at(old(cursor).remaining(), 0) is None && e is BadBytes,
        },
{
    let mut times: Vec<u32> = Vec::new();
    let ghost start = cursor.remaining();
    let ghost mut used: int = 0;
    loop
        invariant
            start == old(cursor).remaining(),
            times@.len() < 3,
            0 <= used <= start.len(),
            cursor.remaining() == start.subrange(used, start.len() as int),
            time_parts_from(times@, used, cursor.remaining(), times@.len() as int)
                == time_parts_at(start, 0),
        decreases 3 - times@.len(),
    {
        let ghost here = cursor.remaining();
        let mut buf: Vec<u8> = Vec::new();
        let size = cursor.keep_read(&mut buf, is_ascii_digit);
        proof {
            lemma_accepted_digits(here, size as int);
        }
        if size == 0 {
            return Ok(times);
        }
        let time = match parse_time_part(buf.as_slice(), size) {
            Ok(time) => time,
            Err(e) => {
                return Err(e);
            },
        };
        times.push(time);
        if times.len() == 3 {
            proof {
                used = used + size;
            }
            return Ok(times);
        }
        let colon = cursor.ignore_byte(0x3a);
        proof {
            let c: int = if colon {
                1
            } else {
                0
            };
            assert(cursor.remaining() =~= here.subrange(size + c, here.len() as int));
            lemma_time_parts_bound(cursor.remaining(), times@.len() as int);
            used = used + size + c;
        }
    }
}

/// The parts of the time take no more bytes than there are, and are no
/// more than are still to be read.
pub proof fn lemma_time_parts_bound(bytes: Seq<u8>, have: int)
    requires
        0 <= have <= 3,
    ensures
        time_parts_at(bytes, have) matches Some((parts, used)) ==> 0 <= used <= bytes.len()
            && parts.len() <= 3 - have,
    decreases 3 - have,
{
    let n = digits_len(bytes);
    lemma_digits_len_bound(bytes);
    if 0 < n < 3 && have + 1 < 3 {
        let colon: int = if n < bytes.len() && bytes[n] == 0x3a {
            1
        } else {
            0
        };
        lemma_time_parts_bound(bytes.subrange(n + colon, bytes.len() as int), have + 1);
    }
}

/// The nanoseconds that the digits behind the point stand for: up to nine
/// digits are taken as they are; a number of more digits is divided by ten
/// times the count of its digits beyond nine.
pub open spec fn fraction_nanos(digits: Seq<u8>) -> nat {
    if digits.len() <= 9 {
        digits_value(digits) * pow10((9 - digits.len()) as nat)
    } else {
        digits_value(digits) / fraction_divisor(digits.len())
    }
}

/// By what a number of more than nine digits is divided: ten times the
/// count of its digits beyond nine, as far as that can be counted.
pub open spec fn fraction_divisor(len: nat) -> nat {
    if (len - 9) * 10 > u64::MAX {
        u64::MAX as nat
    } else {
        ((len - 9) * 10) as nat
    }
}

/// Ten to the power of `n`, for `n` up to nine.
fn pow10_u64(n: u32) -> (r: u64)
    requires
        n <= 9,
    ensures
        r == pow10(n as nat),
        r <= 1_000_000_000,
{
    let mut r: u64 = 1;
    let mut i: u32 = 0;
    proof {
        reveal_with_fuel(pow10, 10);
    }
    while i < n
        invariant
            i <= n <= 9,
            r == pow10(i as nat),
            r <= pow10(9),
            pow10(9) == 1_000_000_000,
        decreases n - i,
    {
        proof {
            lemma_pow10_monotone((i + 1) as nat, 9);
        }
        r = r * 10;
        i += 1;
    }
    proof {
        reveal_with_fuel(pow10, 10);
    }
    r
}

/// Ten to a greater power is no less.
pub proof fn lemma_pow10_monotone(a: nat, b: nat)
    requires
        a <= b,
    ensures
        0 < pow10(a) <= pow10(b),
    decreases b,
{
    if b == 0 {
    } else if a == b {
        lemma_pow10_monotone((a - 1) as nat, (b - 1) as nat);
    } else {
        lemma_pow10_monotone(a, (b - 1) as nat);
    }
}

/// Reads the digits behind the point as nanoseconds. No digit, and a
/// number too great to be read, are refused.
pub fn read_fraction(cursor: &mut Cursor) -> (r: Result<u64, ErrorCode>)
    ensures
        ({
            let rem = old(cursor).remaining();
            let n = digits_len(rem);
            &&& 0 <= n <= rem.len()
            &&& final(cursor).remaining() == rem.subrange(n, rem.len() as int)
            &&& match r {
                Ok(nanos) => n > 0 && digits_value(rem.subrange(0, n)) <= u64::MAX && nanos
                    == fraction_nanos(rem.subrange(0, n)),
                Err(e) => (n == 0 || digits_value(rem.subrange(0, n)) > u64::MAX)
                    && e is BadBytes,
            }
        }),
{
    let ghost rem = cursor.remaining();
    let mut buf: Vec<u8> = Vec::new();
    let size = cursor.keep_read(&mut buf, is_ascii_digit);
    proof {
        lemma_accepted_digits(rem, size as int);
    }
    if size == 0 {
        return Err(
            ErrorCode::BadBytes(
                String::from_str(
                    "Microsecond Parsing Error: Expecting a format like [.123456] for microseconds part",
                ),
            ),
        );
    }
    let mut scales: u64 = match parse_digits(buf.as_slice()) {
        Some(v) => v,
        None => {
            return Err(ErrorCode::BadBytes(String::from_str("datetime scales parse error")));
        },
    };
    if size <= 9 {
        let factor = pow10_u64((9 - size) as u32);
        proof {
            lemma_digits_value_bound(buf@);
            lemma_pow10_split(size as nat);
            assert(scales * factor < 1_000_000_000) by (nonlinear_arith)
                requires
                    scales < pow10(size as nat),
                    factor == pow10((9 - size) as nat),
                    pow10(size as nat) * pow10((9 - size) as nat) == 1_000_000_000,
                    factor > 0,
            ;
        }
        scales = scales * factor;
    } else {
        let beyond: u64 = size as u64 - 9;
        let divisor: u64 = if beyond > u64::MAX / 10 {
            u64::MAX
        } else {
            beyond * 10
        };
        scales = scales / divisor;
    }
    Ok(scales)
}

/// Ten to the power of `n` times ten to the power of nine less `n` is ten
/// to the power of nine.
proof fn lemma_pow10_split(n: nat)
    requires
        n <= 9,
    ensures
        pow10(n) * pow10((9 - n) as nat) == 1_000_000_000,
        pow10((9 - n) as nat) > 0,
{
    reveal_with_fuel(pow10, 10);
    assert(pow10(0) == 1);
    assert(pow10(2) == 100);
    assert(pow10(3) == 1_000);
    assert(pow10(4) == 10_000);
    assert(pow10(5) == 100_000);
    assert(pow10(6) == 1_000_000);
    assert(pow10(7) == 10_000_000);
    assert(pow10(8) == 100_000_000);
    assert(pow10(9) == 1_000_000_000);
    // case by case: with `n` known, both factors are numbers
    if n == 0 {
    } else if n == 1 {
    } else if n == 2 {
    } else if n == 3 {
    } else if n == 4 {
    } else if n == 5 {
    } else if n == 6 {
    } else if n == 7 {
    } else if n == 8 {
    }
}

/// Whether hours and minutes make an offset from UTC: fourteen hours at
/// most.
pub open spec fn is_hour_minute_offset(hour: int, minute: int) -> bool {
    (hour == 14 && minute == 0) || (0 <= minute < 60 && hour < 14)
}

/// The message for minutes that make no offset.
pub open spec fn minute_offset_message(minute: nat) -> Seq<char> {
    "Invalid Timezone Offset: The minute offset '"@ + crate::text::decimal(minute)
        + "' is outside the valid range. Expected range is [00-59] within a timezone gap of [-14:00, +14:00]"@
}

/// The message for hours that make no offset.
pub open spec fn hour_offset_message(hour: nat) -> Seq<char> {
    "Invalid Timezone Offset: The hour offset '"@ + crate::text::decimal(hour)
        + "' is outside the valid range. Expected range is [00-14] within a timezone gap of [-14:00, +14:00]"@
}

/// Checks hours and minutes of an offset from UTC and gives the offset in
/// seconds, east of UTC.
pub fn check_hour_minute_offset(hour_offset: u32, minute_offset: u32) -> (r: Result<i32, ErrorCode>)
    requires
        hour_offset < 100,
        minute_offset < 100,
    ensures
        match r {
            Ok(seconds) => is_hour_minute_offset(hour_offset as int, minute_offset as int)
                && seconds == hour_offset * 3600 + minute_offset * 60,
            Err(e) => !is_hour_minute_offset(hour_offset as int, minute_offset as int) && (
            e matches ErrorCode::BadBytes(m) && m@ == minute_offset_message(minute_offset as nat)),
        },
{
    if (hour_offset == 14 && minute_offset == 0) || (minute_offset < 60 && hour_offset < 14) {
        Ok((hour_offset * 3600 + minute_offset * 60) as i32)
    } else {
        let mut m = String::from_str("Invalid Timezone Offset: The minute offset '");
        m.append(u64_to_decimal(minute_offset as u64).as_str());
        m.append(
            "' is outside the valid range. Expected range is [00-59] within a timezone gap of [-14:00, +14:00]",
        );
        Err(ErrorCode::BadBytes(m))
    }
}

/// The error for hours that make no offset.
fn hour_offset_error(hour_offset: u32) -> (e: ErrorCode)
    ensures
        e matches ErrorCode::BadBytes(m) && m@ == hour_offset_message(hour_offset as nat),
{
    let mut m = String::from_str("Invalid Timezone Offset: The hour offset '");
    m.append(u64_to_decimal(hour_offset as u64).as_str());
    m.append(
        "' is outside the valid range. Expected range is [00-14] within a timezone gap of [-14:00, +14:00]",
    );
    ErrorCode::BadBytes(m)
}

/// The offset that the text at the front of `bytes` stands for, in seconds
/// east of UTC, and how many bytes it takes. The text is `HH`, `HH:MM` or
/// `HHMM`. `None` for any other text and for hours and minutes that make no
/// offset.
pub open spec fn offset_at(bytes: Seq<u8>) -> Option<(int, int)> {
    let n = digits_len(bytes);
    if n == 2 {
        let hour = digits_value(bytes.subrange(0, 2)) as int;
        if hour >= 15 {
            None
        } else if bytes.len() > 2 && bytes[2] == 0x3a {
            let rest = bytes.subrange(3, bytes.len() as int);
            let minute = digits_value(rest.subrange(0, 2)) as int;
            if digits_len(rest) == 2 && is_hour_minute_offset(hour, minute) {
                Some((hour * 3600 + minute * 60, 5))
            } else {
                None
            }
        } else if is_hour_minute_offset(hour, 0) {
            Some((hour * 3600, 2))
        } else {
            None
        }
    } else if n == 4 {
        let hour = digits_value(bytes.subrange(0, 2)) as int;
        let minute = digits_value(bytes.subrange(2, 4)) as int;
        if hour < 15 && is_hour_minute_offset(hour, minute) {
            Some((hour * 3600 + minute * 60, 4))
        } else {
            None
        }
    } else {
        None
    }
}

/// Reads an offset from UTC, as hours and minutes, and gives it in seconds
/// east of UTC. Only the forms `HH`, `HH:MM` and `HHMM` are taken.
pub fn read_offset(cursor: &mut Cursor) -> (r: Result<i32, ErrorCode>)
    ensures
        match r {
            Ok(seconds) => offset_at(old(cursor).remaining()) matches Some((value, used))
                && seconds == value && 0 <= seconds <= 50400 && used <= old(cursor).remaining().len() && final(cursor).remaining() == old(cursor).remaining().subrange(
                used,
                old(cursor).remaining().len() as int,
            ),
            Err(e) => offset_at(old(cursor).remaining()) is None && e is BadBytes,
        },
{
    let ghost rem = cursor.remaining();
    let mut buf: Vec<u8> = Vec::new();
    let n = cursor.keep_read(&mut buf, is_ascii_digit);
    proof {
        lemma_accepted_digits(rem, n as int);
    }
    if n == 2 {
        proof {
            lemma_digits_value_bound(buf@);
            reveal_with_fuel(pow10, 3);
        }
        let hour_offset: u32 = match parse_digits(buf.as_slice()) {
            Some(v) => v as u32,
            None => {
                return Err(ErrorCode::BadBytes(String::from_str("hour offset parse error")));
            },
        };
        if hour_offset < 15 {
            if cursor.ignore_byte(0x3a) {
                let ghost rest = cursor.remaining();
                proof {
                    assert(rest =~= rem.subrange(3, rem.len() as int));
                }
                let mut minutes: Vec<u8> = Vec::new();
                let m = cursor.keep_read(&mut minutes, is_ascii_digit);
                proof {
                    lemma_accepted_digits(rest, m as int);
                }
                if m != 2 {
                    // +08[other byte]00 will err in there, e.g. +08-00
                    return Err(
                        ErrorCode::BadBytes(
                            String::from_str(
                                "Timezone Parsing Error: Incorrect format in hour part. The time zone format must conform to the ISO 8601 standard",
                            ),
                        ),
                    );
                }
                proof {
                    lemma_digits_value_bound(minutes@);
                    reveal_with_fuel(pow10, 3);
                }
                let minute_offset: u32 = match parse_digits(minutes.as_slice()) {
                    Some(v) => v as u32,
                    None => {
                        return Err(
                            ErrorCode::BadBytes(String::from_str("minute offset parse error")),
                        );
                    },
                };
                // max utc: 14:00, min utc: 00:00
                check_hour_minute_offset(hour_offset, minute_offset)
            } else {
                check_hour_minute_offset(hour_offset, 0)
            }
        } else {
            Err(hour_offset_error(hour_offset))
        }
    } else if n == 4 {
        let hours = crate::slices::bytes_between(buf.as_slice(), 0, 2);
        let minutes = crate::slices::bytes_between(buf.as_slice(), 2, 4);
        proof {
            assert(hours@ =~= rem.subrange(0, 2));
            assert(minutes@ =~= rem.subrange(2, 4));
            lemma_digits_value_bound(hours@);
            lemma_digits_value_bound(minutes@);
            reveal_with_fuel(pow10, 3);
        }
        let hour_offset: u32 = match parse_digits(hours) {
            Some(v) => v as u32,
            None => {
                return Err(ErrorCode::BadBytes(String::from_str("hour offset parse error")));
            },
        };
        let minute_offset: u32 = match parse_digits(minutes) {
            Some(v) => v as u32,
            None => {
                return Err(ErrorCode::BadBytes(String::from_str("minute offset parse error")));
            },
        };
        // max utc: 14:00, min utc: 00:00
        if hour_offset < 15 {
            check_hour_minute_offset(hour_offset, minute_offset)
        } else {
            Err(hour_offset_error(hour_offset))
        }
    } else {
        Err(
            ErrorCode::BadBytes(
                String::from_str(
                    "Timezone Parsing Error: Incorrect format. The time zone format must conform to the ISO 8601 standard",
                ),
            ),
        )
    }
}

/// The seconds and nanoseconds of the instant `micros` microseconds after
/// the epoch, moved by the difference of two offsets. An instant before the
/// epoch gets one second less and a million microseconds more, also where
/// it falls on a whole second.
pub open spec fn shifted_instant(current_tz_sec: int, val_tz_sec: int, micros: int) -> (int, int) {
    let ts = micros + (current_tz_sec - val_tz_sec) * 1_000_000;
    let secs = if ts >= 0 {
        ts / 1_000_000
    } else {
        -((-ts) / 1_000_000)
    };
    let rem = if ts >= 0 {
        ts % 1_000_000
    } else {
        -((-ts) % 1_000_000)
    };
    if ts < 0 {
        (secs - 1, (rem + 1_000_000) * 1000)
    } else {
        (secs, rem * 1000)
    }
}

/// Moves an instant by the difference between the offset of its time zone
/// and the offset that its text names, and gives it as seconds and
/// nanoseconds.
pub fn calc_offset(current_tz_sec: i64, val_tz_sec: i64, micros: i64) -> (r: (i64, i32))
    requires
        -100_000 <= current_tz_sec <= 100_000,
        -100_000 <= val_tz_sec <= 100_000,
        -9_000_000_000_000_000_000 <= micros <= 9_000_000_000_000_000_000,
    ensures
        (r.0 as int, r.1 as int) == shifted_instant(
            current_tz_sec as int,
            val_tz_sec as int,
            micros as int,
        ),
{
    let offset: i64 = (current_tz_sec - val_tz_sec) * 1000 * 1000;
    let mut ts: i64 = micros;
    ts += offset;
    let (mut secs, mut micros) = (ts / 1_000_000, ts % 1_000_000);
    if ts < 0 {
        secs -= 1;
        micros += 1_000_000;
    }
    (secs, (micros as i32) * 1000)
}

} // verus!
