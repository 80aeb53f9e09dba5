//! Instants, in milliseconds since the Unix epoch.

use chrono::{DateTime, SecondsFormat};
use vstd::prelude::*;
use vstd::string::*;

use crate::decimal::{decimal, decimal_text};
use crate::error::{answer, joined, DbError, DbErrorKind, ErrorView};
use crate::table::Value;

verus! {

/// The first instant that a calendar date can be given to: the start of the year -262143.
pub const FIRST_INSTANT: i64 = -8_334_601_228_800_000;

/// The last instant that a calendar date can be given to: the end of the year 262142.
pub const LAST_INSTANT: i64 = 8_210_266_876_799_999;

/// The start of the year 0, the first that has four digits.
pub const FIRST_FOUR_DIGIT_INSTANT: i64 = -62_167_219_200_000;

/// The end of the year 9999, the last that has four digits.
pub const LAST_FOUR_DIGIT_INSTANT: i64 = 253_402_300_799_999;

/// What `chrono` reads in an RFC 3339 text: the instant in milliseconds since the Unix epoch,
/// or the text of its error.
pub uninterp spec fn rfc3339_instant(text: Seq<char>) -> Result<i64, Seq<char>>;

/// The RFC 3339 text that `chrono` writes for an instant, in UTC, with nanoseconds.
pub uninterp spec fn rfc3339_text(millis: i64) -> Seq<char>;

/// `DateTime::parse_from_rfc3339` followed by `timestamp_millis`: the result depends on the
/// text alone. Which texts are read as which instants, and with which errors others are
/// refused, is not said beyond that.
#[verifier::external_body]
fn parse_rfc3339(text: &str) -> (read: Result<i64, String>)
    ensures
        match read {
            Ok(millis) => rfc3339_instant(text@) == Ok::<i64, Seq<char>>(millis),
            Err(error) => rfc3339_instant(text@) == Err::<i64, Seq<char>>(error@),
        },
{
    match DateTime::parse_from_rfc3339(text) {
        Ok(instant) => Ok(instant.timestamp_millis()),
        Err(error) => Err(error.to_string()),
    }
}

/// `DateTime::from_timestamp_millis` followed by `to_rfc3339_opts` with nanoseconds and `Z`:
/// there is a text exactly for the instants whose year the calendar reaches, it depends on the
/// instant alone, and where its year has four digits `parse_from_rfc3339` reads the same
/// instant back from it.
#[verifier::external_body]
fn format_rfc3339(millis: i64) -> (text: Option<String>)
    ensures
        text is Some <==> FIRST_INSTANT <= millis <= LAST_INSTANT,
        text matches Some(t) ==> t@ == rfc3339_text(millis),
        text matches Some(t) ==> (FIRST_FOUR_DIGIT_INSTANT <= millis <= LAST_FOUR_DIGIT_INSTANT
            ==> rfc3339_instant(t@) == Ok::<i64, Seq<char>>(millis)),
{
    match DateTime::from_timestamp_millis(millis) {
        Some(instant) => Some(instant.to_rfc3339_opts(SecondsFormat::Nanos, true)),
        None => None,
    }
}

/// The instant in an RFC 3339 text.
pub open spec fn instant_of(text: Seq<char>) -> Result<i64, ErrorView> {
    match rfc3339_instant(text) {
        Ok(millis) => Ok(millis),
        Err(error) => Err(ErrorView::Integrity("Invalid TIMESTAMP "@ + error)),
    }
}

/// The time stamp that a number of milliseconds makes.
pub open spec fn stamp_of(millis: int) -> Result<int, ErrorView> {
    if millis < 0 {
        Err(ErrorView::Integrity("Invalid modified i64 (< 0)"@))
    } else {
        Ok(millis)
    }
}

/// The time stamp in an RFC 3339 text.
pub open spec fn stamp_in(text: Seq<char>) -> Result<int, ErrorView> {
    match instant_of(text) {
        Ok(millis) => stamp_of(millis as int),
        Err(error) => Err(error),
    }
}

/// The RFC 3339 text of an instant.
pub open spec fn text_of(millis: int) -> Result<Seq<char>, ErrorView> {
    if FIRST_INSTANT <= millis <= LAST_INSTANT {
        Ok(rfc3339_text(millis as i64))
    } else {
        Err(ErrorView::Internal("Invalid timestamp "@ + decimal(millis)))
    }
}

/// The text of an instant whose year has four digits stands for that instant.
pub open spec fn reads_back(millis: int) -> bool {
    FIRST_FOUR_DIGIT_INSTANT <= millis <= LAST_FOUR_DIGIT_INSTANT ==> instant_of(
        rfc3339_text(millis as i64),
    ) == Ok::<i64, ErrorView>(millis as i64)
}

/// The instant in an RFC 3339 text, in milliseconds since the Unix epoch.
pub fn from_rfc3339(text: &str) -> (millis: Result<i64, DbError>)
    ensures
        answer(millis) == instant_of(text@),
{
    match parse_rfc3339(text) {
        Ok(millis) => Ok(millis),
        Err(error) => Err(
            DbError::new(DbErrorKind::Integrity(joined("Invalid TIMESTAMP ", error.as_str()))),
        ),
    }
}

/// The RFC 3339 text of an instant.
pub fn to_rfc3339(millis: i64) -> (text: Result<String, DbError>)
    ensures
        answer(text) == text_of(millis as int),
        text is Ok ==> reads_back(millis as int),
{
    match format_rfc3339(millis) {
        Some(text) => Ok(text),
        None => Err(
            DbError::internal(joined("Invalid timestamp ", decimal_text(millis).as_str()).as_str()),
        ),
    }
}

/// A time stamp of the sync protocol: an instant that is not before the Unix epoch.
#[derive(Clone, Copy, Debug, PartialEq, Eq, PartialOrd, Ord, Hash)]
pub struct SyncTimestamp {
    millis: i64,
}

impl SyncTimestamp {
    #[verifier::type_invariant]
    spec fn wf(self) -> bool {
        self.millis >= 0
    }
}

impl View for SyncTimestamp {
    type V = int;

    closed spec fn view(&self) -> int {
        self.millis as int
    }
}

impl DeepView for SyncTimestamp {
    type V = int;

    open spec fn deep_view(&self) -> int {
        self@
    }
}

impl Value for SyncTimestamp {
    fn duplicate(&self) -> (copy: Self) {
        *self
    }
}

impl SyncTimestamp {
    /// The time stamp of the epoch, which stands for the time of what is not there.
    pub fn zero() -> (stamp: SyncTimestamp)
        ensures
            stamp@ == 0,
    {
        SyncTimestamp { millis: 0 }
    }

    /// The time stamp of an instant, unless the instant is before the epoch.
    pub fn from_i64(millis: i64) -> (stamp: Result<SyncTimestamp, DbError>)
        ensures
            answer(stamp) == stamp_of(millis as int),
    {
        if millis < 0 {
            Err(DbError::new(DbErrorKind::Integrity("Invalid modified i64 (< 0)".to_owned())))
        } else {
            Ok(SyncTimestamp { millis })
        }
    }

    /// The time stamp in an RFC 3339 text.
    pub fn from_rfc3339(text: &str) -> (stamp: Result<SyncTimestamp, DbError>)
        ensures
            answer(stamp) == stamp_in(text@),
    {
        match from_rfc3339(text) {
            Ok(millis) => SyncTimestamp::from_i64(millis),
            Err(error) => Err(error),
        }
    }

    /// Milliseconds since the epoch.
    pub fn as_i64(self) -> (millis: i64)
        ensures
            millis == self@,
            millis >= 0,
    {
        proof {
            use_type_invariant(&self);
        }
        self.millis
    }

    /// The RFC 3339 text of the time stamp.
    pub fn as_rfc3339(self) -> (text: Result<String, DbError>)
        ensures
            answer(text) == text_of(self@),
            text is Ok ==> reads_back(self@),
    {
        to_rfc3339(self.millis)
    }
}

} // verus!
