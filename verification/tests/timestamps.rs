//! Instants and their texts.

use syncstorage::error::{DbError, DbErrorKind};
use syncstorage::timestamp::{
    from_rfc3339, to_rfc3339, SyncTimestamp, FIRST_FOUR_DIGIT_INSTANT, FIRST_INSTANT,
    LAST_FOUR_DIGIT_INSTANT, LAST_INSTANT,
};

fn error_text<T>(result: Result<T, DbError>) -> String {
    match result {
        Ok(_) => panic!("expected an error"),
        Err(error) => error.to_text(),
    }
}

#[test]
fn epoch_has_nanoseconds_and_zulu() {
    assert_eq!(to_rfc3339(0).unwrap(), "1970-01-01T00:00:00.000000000Z");
}

#[test]
fn milliseconds_are_kept() {
    assert_eq!(to_rfc3339(1_546_300_800_123).unwrap(), "2019-01-01T00:00:00.123000000Z");
    assert_eq!(from_rfc3339("2019-01-01T00:00:00.123000000Z").unwrap(), 1_546_300_800_123);
}

#[test]
fn offsets_are_taken_into_account() {
    assert_eq!(from_rfc3339("2019-01-01T01:00:00.5+01:00").unwrap(), 1_546_300_800_500);
}

#[test]
fn instants_before_the_epoch_have_texts() {
    assert_eq!(to_rfc3339(-1).unwrap(), "1969-12-31T23:59:59.999000000Z");
    assert_eq!(from_rfc3339("1969-12-31T23:59:59.999Z").unwrap(), -1);
}

#[test]
fn four_digit_years_read_back() {
    for millis in [
        FIRST_FOUR_DIGIT_INSTANT,
        -1,
        0,
        1,
        1_577_836_799_999,
        LAST_FOUR_DIGIT_INSTANT,
    ] {
        let text = to_rfc3339(millis).unwrap();
        assert_eq!(from_rfc3339(&text).unwrap(), millis);
    }
    assert_eq!(to_rfc3339(FIRST_FOUR_DIGIT_INSTANT).unwrap(), "0000-01-01T00:00:00.000000000Z");
    assert_eq!(to_rfc3339(LAST_FOUR_DIGIT_INSTANT).unwrap(), "9999-12-31T23:59:59.999000000Z");
}

#[test]
fn five_digit_years_do_not_read_back() {
    let text = to_rfc3339(LAST_FOUR_DIGIT_INSTANT + 1).unwrap();
    assert_eq!(text, "+10000-01-01T00:00:00.000000000Z");
    assert!(from_rfc3339(&text).is_err());
}

#[test]
fn calendar_ends_where_the_constants_say() {
    assert!(to_rfc3339(FIRST_INSTANT).is_ok());
    assert!(to_rfc3339(LAST_INSTANT).is_ok());
    assert!(to_rfc3339(FIRST_INSTANT - 1).is_err());
    assert_eq!(
        error_text(to_rfc3339(LAST_INSTANT + 1)),
        "Unexpected error: Invalid timestamp 8210266876800000"
    );
    assert_eq!(
        error_text(to_rfc3339(i64::MIN)),
        "Unexpected error: Invalid timestamp -9223372036854775808"
    );
}

#[test]
fn texts_that_are_no_times_are_integrity_errors() {
    assert_eq!(
        error_text(from_rfc3339("2019_01-01T00:00:00Z")),
        "Database integrity error: Invalid TIMESTAMP input contains invalid characters"
    );
    assert_eq!(
        error_text(from_rfc3339("2019-13-01T00:00:00Z")),
        "Database integrity error: Invalid TIMESTAMP input is out of range"
    );
    assert_eq!(
        error_text(from_rfc3339("")),
        "Database integrity error: Invalid TIMESTAMP premature end of input"
    );
}

#[test]
fn time_stamps_are_not_before_the_epoch() {
    assert_eq!(
        error_text(SyncTimestamp::from_i64(-1)),
        "Database integrity error: Invalid modified i64 (< 0)"
    );
    assert_eq!(
        error_text(SyncTimestamp::from_rfc3339("1969-12-31T23:59:59.999Z")),
        "Database integrity error: Invalid modified i64 (< 0)"
    );
    assert_eq!(SyncTimestamp::from_i64(0).unwrap().as_i64(), 0);
    assert_eq!(SyncTimestamp::zero().as_i64(), 0);
}

#[test]
fn time_stamps_are_written_and_read() {
    let stamp = SyncTimestamp::from_rfc3339("2001-09-09T01:46:40Z").unwrap();
    assert_eq!(stamp.as_i64(), 1_000_000_000_000);
    assert_eq!(stamp.as_rfc3339().unwrap(), "2001-09-09T01:46:40.000000000Z");
    let late = SyncTimestamp::from_i64(i64::MAX).unwrap();
    assert_eq!(
        error_text(late.as_rfc3339()),
        "Unexpected error: Invalid timestamp 9223372036854775807"
    );
}

#[test]
fn every_kind_of_error_has_its_text() {
    let text = |kind: DbErrorKind| DbError::new(kind).to_text();
    assert_eq!(text(DbErrorKind::CollectionNotFound), "Specified collection does not exist");
    assert_eq!(text(DbErrorKind::BsoNotFound), "Specified bso does not exist");
    assert_eq!(text(DbErrorKind::Integrity("i".to_string())), "Database integrity error: i");
    assert_eq!(text(DbErrorKind::Internal("n".to_string())), "Unexpected error: n");
    assert_eq!(text(DbErrorKind::Spanner("s".to_string())), "A database error occurred: s");
    assert!(matches!(DbError::internal("x").kind(), DbErrorKind::Internal(t) if t == "x"));
}
