//! A moment in time, in UTC.

use std::str::FromStr;
use vstd::prelude::*;
use vstd::string::StringExecFns;

verus! {

/// The date and time without a time zone of `chrono`, carried as it is.
#[verifier::external_type_specification]
#[verifier::external_body]
pub struct ExNaiveDateTime(chrono::NaiveDateTime);

/// The error with which `chrono` rejects a text, carried as it is.
#[verifier::external_type_specification]
#[verifier::external_body]
pub struct ExParseError(chrono::ParseError);

/// The moment that `chrono` reads from a text as a `DateTime<Utc>`, as the
/// whole seconds since the Unix epoch and the nanoseconds past them, or
/// `None` where it rejects the text.
pub uninterp spec fn utc_parsing(text: Seq<char>) -> Option<(i64, u32)>;

/// Parses the text with the `FromStr` impl of `chrono::DateTime<Utc>`, which
/// accepts a relaxed form of RFC 3339, and reads the moment off with
/// `timestamp` and `timestamp_subsec_nanos`. Whether the text is accepted,
/// and the moment it then stands for, are a function of the text alone and
/// are named, not spelled out.
#[verifier::external_body]
fn parse_utc(text: &str) -> (parsed: Result<(i64, u32), chrono::ParseError>)
    ensures
        match parsed {
            Ok(moment) => utc_parsing(text@) == Some(moment),
            Err(_) => utc_parsing(text@) is None,
        },
{
    match text.parse::<chrono::DateTime<chrono::Utc>>() {
        Ok(moment) => Ok((moment.timestamp(), moment.timestamp_subsec_nanos())),
        Err(error) => Err(error),
    }
}

/// Reads a `chrono::NaiveDateTime` as a moment in UTC, with `and_utc`,
/// `timestamp` and `timestamp_subsec_nanos`. Nothing is claimed of the
/// result.
#[verifier::external_body]
fn naive_utc_parts(datetime: chrono::NaiveDateTime) -> (moment: (i64, u32)) {
    let moment = datetime.and_utc();
    (moment.timestamp(), moment.timestamp_subsec_nanos())
}

/// Reads the clock with `chrono::Utc::now`, and the moment off with
/// `timestamp` and `timestamp_subsec_nanos`. Nothing is claimed of the
/// result: it is whatever the clock says.
#[verifier::external_body]
fn utc_now_parts() -> (moment: (i64, u32)) {
    let moment = chrono::Utc::now();
    (moment.timestamp(), moment.timestamp_subsec_nanos())
}

/// A moment in time: the whole seconds since the Unix epoch and the
/// nanoseconds past them.
#[derive(Clone, Copy, Debug, PartialEq, Eq, Structural)]
pub struct Time {
    seconds: i64,
    nanos: u32,
}

impl View for Time {
    type V = (i64, u32);

    closed spec fn view(&self) -> (i64, u32) {
        (self.seconds, self.nanos)
    }
}

/// What is appended to a date to name its first moment in UTC.
pub const MIDNIGHT_UTC: &'static str = "T00:00:00Z";

impl Time {
    /// The moment `nanos` nanoseconds after `seconds` whole seconds since
    /// the Unix epoch.
    pub fn from_timestamp(seconds: i64, nanos: u32) -> (time: Self)
        ensures
            time@ == (seconds, nanos),
    {
        Time { seconds, nanos }
    }

    /// The present moment.
    pub fn now() -> (time: Self) {
        let (seconds, nanos) = utc_now_parts();
        Time { seconds, nanos }
    }

    /// The whole seconds since the Unix epoch.
    pub fn timestamp(&self) -> (seconds: i64)
        ensures
            seconds == self@.0,
    {
        self.seconds
    }

    /// The nanoseconds past the last whole second.
    pub fn subsec_nanos(&self) -> (nanos: u32)
        ensures
            nanos == self@.1,
    {
        self.nanos
    }

    /// The moment that a date and time without a time zone names when read
    /// as UTC.
    pub fn from_naive_utc(datetime: chrono::NaiveDateTime) -> (time: Self) {
        let (seconds, nanos) = naive_utc_parts(datetime);
        Time { seconds, nanos }
    }
}

impl FromStr for Time {
    type Err = chrono::ParseError;

    /// The first moment in UTC of the date that `date` names, such as
    /// `2024-09-19`: the text is read with `T00:00:00Z` appended to it.
    fn from_str(date: &str) -> (parsed: Result<Self, Self::Err>)
        ensures
            match utc_parsing(date@ + MIDNIGHT_UTC@) {
                Some(moment) => parsed matches Ok(time) && time@ == moment,
                None => parsed is Err,
            },
    {
        let text = date.to_owned().concat(MIDNIGHT_UTC);
        match parse_utc(text.as_str()) {
            Ok((seconds, nanos)) => Ok(Time { seconds, nanos }),
            Err(error) => Err(error),
        }
    }
}

} // verus!
