use iceland::error::Error;
use iceland::session::SessionRecord;
use iceland::timestamp::Timestamp;

fn at(text: &str) -> Timestamp {
    Timestamp::parse(text).unwrap()
}

#[test]
fn parse_keeps_the_text_as_written() {
    let stamp = at("2024-03-05T08:09:10.250+02:00");
    assert_eq!(stamp.as_str(), "2024-03-05T08:09:10.250+02:00");
}

#[test]
fn parse_reads_the_instant_in_nanoseconds() {
    assert_eq!(at("1970-01-01T00:00:00Z").instant(), 0);
    assert_eq!(at("1970-01-01T00:00:01.5Z").instant(), 1_500_000_000);
    assert_eq!(at("1969-12-31T23:59:59Z").instant(), -1_000_000_000);
    assert_eq!(at("2024-01-01T00:00:00Z").instant(), 1_704_067_200_000_000_000);
}

#[test]
fn from_reading_takes_what_was_read() {
    let stamp = Timestamp::from_reading("noon", Some((43_200, 250))).unwrap();
    assert_eq!(stamp.as_str(), "noon");
    assert_eq!(stamp.instant(), 43_200_000_000_250);
    assert_eq!(Timestamp::from_reading("noon", None), Err(Error::Parse));
}

#[test]
fn from_reading_refuses_what_is_out_of_range() {
    let limit = 1_000_000_000_000_000;
    assert!(Timestamp::from_reading("x", Some((limit, 1_999_999_999))).is_ok());
    assert!(Timestamp::from_reading("x", Some((-limit, 0))).is_ok());
    assert_eq!(Timestamp::from_reading("x", Some((limit + 1, 0))), Err(Error::Parse));
    assert_eq!(Timestamp::from_reading("x", Some((-limit - 1, 0))), Err(Error::Parse));
    assert_eq!(Timestamp::from_reading("x", Some((0, 2_000_000_000))), Err(Error::Parse));
}

#[test]
fn parse_takes_the_offset_into_account() {
    assert_eq!(
        at("2024-01-01T10:00:00+01:00").instant(),
        at("2024-01-01T09:00:00Z").instant()
    );
    assert!(at("2024-01-01T10:00:00+01:00").is_at_or_before(&at("2024-01-01T09:30:00Z")));
    assert!(!at("2024-01-01T09:30:00Z").is_at_or_before(&at("2024-01-01T10:00:00+01:00")));
}

#[test]
fn parse_refuses_what_is_no_rfc_3339_date_and_time() {
    for text in [
        "",
        "yesterday",
        "2024-01-01",
        "2024-01-01T10:00:00",
        "2024-13-01T10:00:00Z",
        "2024-01-01T25:00:00Z",
        " 2024-01-01T10:00:00Z",
        "2024-01-01T10:00:00Z\n",
    ] {
        assert_eq!(Timestamp::parse(text), Err(Error::Parse));
    }
}

#[test]
fn a_leap_second_shares_its_instant_with_the_next_second() {
    let leap = at("2016-12-31T23:59:60Z");
    let next = at("2017-01-01T00:00:00Z");
    assert_eq!(leap.instant(), next.instant());
}

#[test]
fn clone_of_a_timestamp_is_equal_to_it() {
    let stamp = at("2024-03-05T08:09:10Z");
    assert_eq!(stamp.clone(), stamp);
}

#[test]
fn record_duration_is_the_difference_in_whole_seconds() {
    let record = SessionRecord::new(
        "work",
        at("2024-01-01T10:00:00Z"),
        at("2024-01-01T11:01:01Z"),
    )
    .unwrap();
    assert_eq!(record.duration_seconds(), 3661);
    assert_eq!(record.area(), "work");
    assert_eq!(record.start().as_str(), "2024-01-01T10:00:00Z");
    assert_eq!(record.end().as_str(), "2024-01-01T11:01:01Z");
}

#[test]
fn record_duration_drops_the_fraction_of_a_second() {
    let short =
        SessionRecord::new("work", at("2024-01-01T10:00:00.9Z"), at("2024-01-01T10:00:01.1Z"))
            .unwrap();
    assert_eq!(short.duration_seconds(), 0);
    let long =
        SessionRecord::new("work", at("2024-01-01T10:00:00.1Z"), at("2024-01-01T10:00:01.9Z"))
            .unwrap();
    assert_eq!(long.duration_seconds(), 1);
}

#[test]
fn record_of_no_length_is_accepted() {
    let record =
        SessionRecord::new("work", at("2024-01-01T10:00:00Z"), at("2024-01-01T11:00:00+01:00"))
            .unwrap();
    assert_eq!(record.duration_seconds(), 0);
}

#[test]
fn record_that_ends_before_it_starts_is_refused() {
    let result =
        SessionRecord::new("work", at("2024-01-01T10:00:01Z"), at("2024-01-01T10:00:00Z"));
    assert_eq!(result, Err(Error::EndBeforeStart));
}

#[test]
fn clone_of_a_record_is_equal_to_it() {
    let record =
        SessionRecord::new("work", at("2024-01-01T10:00:00Z"), at("2024-01-01T10:00:05Z"))
            .unwrap();
    assert_eq!(record.clone(), record);
}
