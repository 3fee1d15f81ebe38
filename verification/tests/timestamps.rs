use fuse_storage::timestamp::{
    monotonically_increased_timestamp, snapshot_timestamp, trim_timestamp_to_micro_second,
    Timestamp,
};

fn at(secs: i64, nanos: u32) -> Timestamp {
    Timestamp::new(secs, nanos).unwrap()
}

#[test]
fn timestamp_without_previous_is_unchanged() {
    let ts = at(1_700_000_000, 123_456_789);
    assert_eq!(monotonically_increased_timestamp(ts, &None), ts);
}

#[test]
fn later_timestamp_is_unchanged() {
    let prev = at(1_700_000_000, 5);
    let ts = at(1_700_000_000, 6);
    assert_eq!(monotonically_increased_timestamp(ts, &Some(prev)), ts);
}

#[test]
fn earlier_timestamp_is_pushed_a_millisecond_past_the_previous() {
    let prev = at(1_700_000_000, 250_000_000);
    let ts = at(1_699_999_999, 999_999_999);
    assert_eq!(
        monotonically_increased_timestamp(ts, &Some(prev)),
        at(1_700_000_000, 251_000_000)
    );
}

#[test]
fn equal_timestamp_is_pushed_forward_too() {
    let prev = at(10, 0);
    assert_eq!(
        monotonically_increased_timestamp(prev, &Some(prev)),
        at(10, 1_000_000)
    );
}

#[test]
fn a_millisecond_carries_into_the_next_second() {
    let prev = at(-1, 999_500_000);
    let ts = at(-5, 0);
    assert_eq!(
        monotonically_increased_timestamp(ts, &Some(prev)),
        at(0, 500_000)
    );
}

#[test]
fn trimming_cuts_below_the_microsecond() {
    assert_eq!(
        trim_timestamp_to_micro_second(at(1, 123_456_789)),
        at(1, 123_456_000)
    );
    assert_eq!(trim_timestamp_to_micro_second(at(1, 999)), at(1, 0));
    assert_eq!(
        trim_timestamp_to_micro_second(at(-7, 5_000)),
        at(-7, 5_000)
    );
}

#[test]
fn snapshot_timestamps_grow_even_when_the_clock_stands_still() {
    let now = at(100, 1_500);
    let first = snapshot_timestamp(now, &None);
    assert_eq!(first, at(100, 1_000));
    let second = snapshot_timestamp(now, &Some(first));
    assert_eq!(second, at(100, 1_001_000));
    let third = snapshot_timestamp(at(100, 1_001_400), &Some(second));
    assert_eq!(third, at(100, 2_001_000));
    let later = snapshot_timestamp(at(200, 7), &Some(third));
    assert_eq!(later, at(200, 0));
}

#[test]
fn nanoseconds_of_a_second_or_more_are_refused() {
    assert_eq!(Timestamp::new(0, 1_000_000_000), None);
    assert!(at(3, 4).lt(&at(3, 5)));
    assert!(at(3, 5).le(&at(3, 5)));
    assert!(!at(4, 0).le(&at(3, 999_999_999)));
}

#[test]
fn timestamps_tell_whether_they_are_sound() {
    assert!(at(0, 999_999_999).is_well_formed());
    assert!(!Timestamp { secs: 0, nanos: 1_000_000_000 }.is_well_formed());
    assert!(at(i64::MAX, 998_999_999).has_later());
    assert!(!at(i64::MAX, 999_000_000).has_later());
    assert!(at(i64::MAX - 1, 999_999_999).has_later());
}
