use fuse_storage::cursor::{Cursor, ReadBytesExt};
use fuse_storage::datetime::{
    read_date_text, read_text_to_datetime, read_timestamp_text, Date, DateTimeResType,
};
use fuse_storage::datetime_text::{
    calc_offset, check_hour_minute_offset, parse_digits, parse_time_part, read_fraction,
    read_offset, read_time_parts,
};
use fuse_storage::error::ErrorCode;
use jiff::tz::TimeZone;

fn cursor(text: &str) -> Cursor {
    Cursor::new(text.as_bytes().to_vec())
}

fn instant(text: &str, tz: &TimeZone) -> (i64, i32) {
    match read_text_to_datetime(&mut cursor(text), tz, false).unwrap() {
        DateTimeResType::Datetime(z) => (z.secs, z.nanos),
        DateTimeResType::Date(_) => panic!("a day"),
    }
}

#[test]
fn a_day_alone() {
    let tz = TimeZone::UTC;
    let mut c = cursor("2022-02-02,next");
    assert_eq!(
        read_text_to_datetime(&mut c, &tz, true).unwrap(),
        DateTimeResType::Date(Date {
            year: 2022,
            month: 2,
            day: 2
        })
    );
    assert_eq!(c.peek(), Some(','));
    assert_eq!(instant("2022-02-02", &tz), (1_643_760_000, 0));
    assert_eq!(
        read_date_text(&mut cursor("0000-00-00"), &tz).unwrap(),
        Date {
            year: 1970,
            month: 1,
            day: 1
        }
    );
    assert_eq!(
        read_date_text(&mut cursor("2022-02-02T23:59:59"), &tz).unwrap(),
        Date {
            year: 2022,
            month: 2,
            day: 2
        }
    );
}

#[test]
fn a_day_and_a_time() {
    let tz = TimeZone::UTC;
    assert_eq!(instant("2022-02-02T03:04:05", &tz), (1_643_771_045, 0));
    assert_eq!(instant("2022-02-02 03:04", &tz), (1_643_771_040, 0));
    assert_eq!(instant("2022-02-02 3:", &tz), (1_643_770_800, 0));
    assert_eq!(instant("2022-02-02T", &tz), (1_643_760_000, 0));
    assert_eq!(
        instant("2022-02-02T03:04:05.123", &tz),
        (1_643_771_045, 123_000_000)
    );
    assert_eq!(
        instant("2022-02-02T03:04:05.123456789", &tz),
        (1_643_771_045, 123_456_789)
    );
    // ten digits: the number is divided by ten
    assert_eq!(
        instant("2022-02-02T03:04:05.1234567890", &tz),
        (1_643_771_045, 123_456_789)
    );
    let east = jiff::tz::offset(8).to_time_zone();
    assert_eq!(
        instant("2022-02-02T03:04:05", &east),
        (1_643_771_045 - 8 * 3600, 0)
    );
}

#[test]
fn a_time_with_an_offset() {
    let utc = TimeZone::UTC;
    let east = jiff::tz::offset(8).to_time_zone();
    assert_eq!(instant("2022-02-02T03:04:05Z", &utc), (1_643_771_045, 0));
    assert_eq!(instant("2022-02-02T03:04:05z", &east), (1_643_771_045, 0));
    assert_eq!(
        instant("2022-02-02T03:04:05+08:00", &utc),
        (1_643_771_045 - 8 * 3600, 0)
    );
    assert_eq!(
        instant("2022-02-02T03:04:05-0130", &utc),
        (1_643_771_045 + 5400, 0)
    );
    assert_eq!(
        instant("2022-02-02T03:04:05.5+14", &east),
        (1_643_771_045 - 14 * 3600, 500_000_000)
    );
    // before 1970 an offset gives the beginning of 1970 in the zone
    assert_eq!(instant("1960-01-01T00:00:00+01:00", &utc), (0, 0));
    let mut c = cursor("2022-02-02T03:04:05+08:00 rest");
    assert!(read_timestamp_text(&mut c, &utc).is_ok());
    assert_eq!(c.peek(), Some(' '));
}

#[test]
fn texts_that_are_refused() {
    let tz = TimeZone::UTC;
    let bad = |text: &str| read_text_to_datetime(&mut cursor(text), &tz, false).unwrap_err();
    assert!(matches!(bad("2022-02"), ErrorCode::Internal(_)));
    assert_eq!(
        bad("2022-13-02"),
        ErrorCode::BadBytes(
            "Date Parsing Error: The value '2022-13-02' could not be parsed into a valid Date"
                .to_string()
        )
    );
    assert_eq!(
        bad("2022-02-02T123:00:00"),
        ErrorCode::BadBytes(
            "err with parse time part. Format like this:[03:00:00], got 3 digits".to_string()
        )
    );
    assert!(matches!(bad("2022-02-02T25:00:00"), ErrorCode::BadBytes(_)));
    assert_eq!(
        bad("2022-02-02T03:04:05."),
        ErrorCode::BadBytes(
            "Microsecond Parsing Error: Expecting a format like [.123456] for microseconds part"
                .to_string()
        )
    );
    assert_eq!(
        bad("2022-02-02T03:04:05+15:00"),
        ErrorCode::BadBytes(
            "Invalid Timezone Offset: The hour offset '15' is outside the valid range. Expected range is [00-14] within a timezone gap of [-14:00, +14:00]"
                .to_string()
        )
    );
    assert_eq!(
        bad("2022-02-02T03:04:05+14:01"),
        ErrorCode::BadBytes(
            "Invalid Timezone Offset: The minute offset '1' is outside the valid range. Expected range is [00-59] within a timezone gap of [-14:00, +14:00]"
                .to_string()
        )
    );
    assert!(matches!(bad("2022-02-02T03:04:05+8"), ErrorCode::BadBytes(_)));
    assert!(matches!(bad("2022-02-02T03:04:05+08:-0"), ErrorCode::BadBytes(_)));
    // without a colon the hours stand alone, and the rest is left unread
    let mut c = cursor("2022-02-02T03:04:05+08-00");
    assert!(read_text_to_datetime(&mut c, &tz, false).is_ok());
    assert_eq!(c.peek(), Some('-'));
    assert!(matches!(bad("2022-02-02T03:04:05+08:0"), ErrorCode::BadBytes(_)));
    let mut invalid = Cursor::new(vec![0xff; 10]);
    assert!(matches!(
        read_text_to_datetime(&mut invalid, &tz, true),
        Err(ErrorCode::BadBytes(_))
    ));
}

#[test]
fn parts_of_the_text() {
    assert_eq!(parse_digits(b"0042"), Some(42));
    assert_eq!(parse_digits(b""), None);
    assert_eq!(parse_digits(b"18446744073709551615"), Some(u64::MAX));
    assert_eq!(parse_digits(b"18446744073709551616"), None);
    assert_eq!(parse_time_part(b"7", 1), Ok(7));
    assert_eq!(parse_time_part(b"59", 2), Ok(59));
    assert!(parse_time_part(b"", 0).is_err());

    let mut c = cursor("1:02:03:04");
    assert_eq!(read_time_parts(&mut c), Ok(vec![1, 2, 3]));
    assert_eq!(c.peek(), Some(':'));
    let mut c = cursor("12:3x");
    assert_eq!(read_time_parts(&mut c), Ok(vec![12, 3]));
    assert_eq!(c.peek(), Some('x'));
    let mut c = cursor("x");
    assert_eq!(read_time_parts(&mut c), Ok(vec![]));

    assert_eq!(read_fraction(&mut cursor("5")), Ok(500_000_000));
    assert_eq!(read_fraction(&mut cursor("000000001")), Ok(1));
    assert_eq!(read_fraction(&mut cursor("12345678901x")), Ok(12345678901 / 20));
    assert!(read_fraction(&mut cursor("x")).is_err());
    assert!(read_fraction(&mut cursor("99999999999999999999999")).is_err());

    assert_eq!(read_offset(&mut cursor("08")), Ok(8 * 3600));
    assert_eq!(read_offset(&mut cursor("08:30x")), Ok(8 * 3600 + 1800));
    assert_eq!(read_offset(&mut cursor("0830")), Ok(8 * 3600 + 1800));
    assert_eq!(read_offset(&mut cursor("14:00")), Ok(14 * 3600));
    assert!(read_offset(&mut cursor("1401")).is_err());
    assert!(read_offset(&mut cursor("08:60")).is_err());
    assert!(read_offset(&mut cursor("083")).is_err());
    assert_eq!(check_hour_minute_offset(13, 59), Ok(13 * 3600 + 59 * 60));
}

#[test]
fn instants_are_shifted() {
    assert_eq!(calc_offset(0, 0, 1_500_000), (1, 500_000_000));
    assert_eq!(calc_offset(3600, 0, 0), (3600, 0));
    assert_eq!(calc_offset(0, 3600, 1), (-3600, 1_000));
    assert_eq!(calc_offset(0, 0, -1), (-1, 999_999_000));
    assert_eq!(calc_offset(0, 0, -1_500_000), (-2, 500_000_000));
    // before the epoch a whole second gets a second of nanoseconds
    assert_eq!(calc_offset(0, 1, 0), (-2, 1_000_000_000));
}

#[test]
fn a_front_that_names_no_day_is_refused_with_its_reason() {
    let tz = TimeZone::UTC;
    for need_date in [true, false] {
        let mut short = cursor("2022-02");
        assert_eq!(
            read_text_to_datetime(&mut short, &tz, need_date),
            Err(ErrorCode::Internal("failed to fill whole buffer".to_string()))
        );
        // too few bytes are left unread
        assert_eq!(short.peek(), Some('2'));
        let mut invalid = Cursor::new(vec![0xff; 12]);
        assert_eq!(
            read_text_to_datetime(&mut invalid, &tz, need_date),
            Err(ErrorCode::BadBytes(
                "UTF-8 Conversion Failed: Unable to convert value to UTF-8".to_string()
            ))
        );
        assert_eq!(
            read_text_to_datetime(&mut cursor("2022-02-30"), &tz, need_date),
            Err(ErrorCode::BadBytes(
                "Date Parsing Error: The value '2022-02-30' could not be parsed into a valid Date"
                    .to_string()
            ))
        );
    }
    assert_eq!(
        read_date_text(&mut cursor("2022"), &tz),
        Err(ErrorCode::Internal("failed to fill whole buffer".to_string()))
    );
    assert_eq!(
        read_timestamp_text(&mut cursor(""), &tz),
        Err(ErrorCode::Internal("failed to fill whole buffer".to_string()))
    );
}

#[test]
fn a_day_alone_is_read_as_that_day_and_no_further() {
    let tz = TimeZone::UTC;
    let mut c = cursor("2024-02-29,next");
    assert_eq!(
        read_text_to_datetime(&mut c, &tz, true),
        Ok(DateTimeResType::Date(Date { year: 2024, month: 2, day: 29 }))
    );
    assert_eq!(c.peek(), Some(','));
    let mut c = cursor("2024-02-29,next");
    assert_eq!(read_date_text(&mut c, &tz), Ok(Date { year: 2024, month: 2, day: 29 }));
    assert_eq!(c.peek(), Some(','));
    // asked for an instant, the day gives its beginning in the zone
    let mut c = cursor("1970-01-02,next");
    match read_timestamp_text(&mut c, &tz) {
        Ok(DateTimeResType::Datetime(z)) => assert_eq!((z.secs, z.nanos), (86_400, 0)),
        other => panic!("{:?}", other),
    }
    assert_eq!(c.peek(), Some(','));
}

#[test]
fn a_time_that_no_clock_shows_is_refused() {
    let tz = TimeZone::UTC;
    let refused = Err(ErrorCode::BadBytes("Invalid time provided in times".to_string()));
    for text in ["2022-02-02T24", "2022-02-02 03:60", "2022-02-02T03:04:60", "2022-02-02T24:00:00.5"] {
        assert_eq!(read_text_to_datetime(&mut cursor(text), &tz, false), refused);
        assert_eq!(read_timestamp_text(&mut cursor(text), &tz), refused);
        assert_eq!(
            read_date_text(&mut cursor(text), &tz),
            Err(ErrorCode::BadBytes("Invalid time provided in times".to_string()))
        );
    }
}

#[test]
fn a_time_of_fewer_parts_is_filled_with_zeros_and_the_rest_left_unread() {
    let tz = TimeZone::UTC;
    let mut c = cursor("1970-01-01T02:03.5");
    match read_text_to_datetime(&mut c, &tz, true) {
        Ok(DateTimeResType::Datetime(z)) => assert_eq!((z.secs, z.nanos), (2 * 3600 + 3 * 60, 0)),
        other => panic!("{:?}", other),
    }
    assert_eq!(c.peek(), Some('.'));
    let mut c = cursor("1970-01-01 02:03:04 rest");
    match read_text_to_datetime(&mut c, &tz, true) {
        Ok(DateTimeResType::Datetime(z)) => {
            assert_eq!((z.secs, z.nanos), (2 * 3600 + 3 * 60 + 4, 0))
        }
        other => panic!("{:?}", other),
    }
    assert_eq!(c.peek(), Some(' '));
}

#[test]
fn an_offset_behind_the_time_moves_the_instant() {
    let utc = TimeZone::UTC;
    let mut c = cursor("2022-02-02T03:00:00+08:00");
    match read_text_to_datetime(&mut c, &utc, false) {
        Ok(DateTimeResType::Datetime(z)) => {
            assert_eq!((z.secs, z.nanos), (1_643_742_000, 0));
            assert_eq!(z.micros, 1_643_742_000_000_000);
            assert_eq!(z.offset_seconds, 0);
            assert_eq!(z.year, 2022);
        }
        other => panic!("{:?}", other),
    }
    assert_eq!(c.peek(), None);
    // a fraction is counted in, and what is less than a microsecond is
    // left out when the instant is moved
    let mut c = cursor("2022-02-02T03:00:00.1234567Z;");
    match read_text_to_datetime(&mut c, &utc, false) {
        Ok(DateTimeResType::Datetime(z)) => {
            assert_eq!((z.secs, z.nanos), (1_643_770_800, 123_456_000));
            assert_eq!(z.micros, 1_643_770_800_123_456);
        }
        other => panic!("{:?}", other),
    }
    assert_eq!(c.peek(), Some(';'));
    let mut c = cursor("2022-02-02T03:00:00-0130 ");
    match read_text_to_datetime(&mut c, &utc, false) {
        Ok(DateTimeResType::Datetime(z)) => {
            assert_eq!((z.secs, z.nanos), (1_643_770_800 + 5400, 0))
        }
        other => panic!("{:?}", other),
    }
    assert_eq!(c.peek(), Some(' '));
    // before the epoch the microseconds are cut towards it
    let mut c = cursor("1969-12-31T23:59:59.5");
    match read_text_to_datetime(&mut c, &utc, false) {
        Ok(DateTimeResType::Datetime(z)) => {
            assert_eq!((z.secs, z.nanos, z.micros), (0, -500_000_000, -500_000))
        }
        other => panic!("{:?}", other),
    }
}
