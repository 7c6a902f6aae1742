//! Reading dates and times. The rules of the calendar are those of the
//! `chrono` crate; the library takes from it the instant that a text names.

use vstd::prelude::*;
use crate::component::Timestamp;

verus! {

/// An error of the date and time parser.
#[verifier::external_type_specification]
#[verifier::external_body]
pub struct ExParseError(chrono::ParseError);

/// What the parser gave, with an instant as its seconds and nanoseconds.
pub open spec fn parts_of(res: Result<Timestamp, chrono::ParseError>) -> Result<
    (i64, u32),
    chrono::ParseError,
> {
    match res {
        Ok(t) => Ok((t.secs, t.nanos)),
        Err(e) => Err(e),
    }
}

/// What reading a text by a format gives: the instant in UTC that the
/// text names, as seconds and nanoseconds, or the error of the parser
/// where the text does not fit.
pub uninterp spec fn parsed_datetime(text: Seq<char>, format: Seq<char>) -> Result<
    (i64, u32),
    chrono::ParseError,
>;

/// Reads a date and time in UTC by a format.
///
/// Trusted: what `TimeZone::datetime_from_str` on `Utc` gives depends on
/// the text and the format alone; an instant is handed out as its seconds
/// since the epoch and the nanoseconds within the second.
#[allow(deprecated)]
#[verifier::external_body]
fn datetime_from_str(text: &str, format: &str) -> (res: Result<Timestamp, chrono::ParseError>)
    ensures
        parts_of(res) == parsed_datetime(text@, format@),
{
    match chrono::TimeZone::datetime_from_str(&chrono::Utc, text, format) {
        Ok(instant) => Ok(
            Timestamp { secs: instant.timestamp(), nanos: instant.timestamp_subsec_nanos() },
        ),
        Err(e) => Err(e),
    }
}

/// What reading a text as an instant gives: the instant, as seconds and
/// nanoseconds, or the error of the parser. The notation is that of
/// RFC 3339, in the relaxed form that the parser accepts.
pub uninterp spec fn parsed_instant(text: Seq<char>) -> Result<(i64, u32), chrono::ParseError>;

/// Reads an instant in the notation of RFC 3339, in the relaxed form that
/// the parser accepts.
///
/// Trusted: what `str::parse` to a `DateTime<Utc>` gives depends on the
/// text alone; an instant is handed out as its seconds since the epoch
/// and the nanoseconds within the second.
#[verifier::external_body]
fn instant_from_str(text: &str) -> (res: Result<Timestamp, chrono::ParseError>)
    ensures
        parts_of(res) == parsed_instant(text@),
{
    match text.parse::<chrono::DateTime<chrono::Utc>>() {
        Ok(instant) => Ok(
            Timestamp { secs: instant.timestamp(), nanos: instant.timestamp_subsec_nanos() },
        ),
        Err(e) => Err(e),
    }
}

/// What an error of the parser says.
pub uninterp spec fn parse_error_text(e: chrono::ParseError) -> Seq<char>;

/// Describes an error of the parser.
///
/// Trusted: the `Debug` rendering of the error depends on the error
/// alone. Nothing is claimed of its wording.
#[verifier::external_body]
fn describe_parse_error(e: &chrono::ParseError) -> (text: String)
    ensures
        text@ == parse_error_text(*e),
{
    format!("{:?}", e)
}

/// What reading a text as an instant gives: the instant, or what the
/// parser said of the text.
pub open spec fn instant_of(text: Seq<char>) -> Result<Timestamp, Seq<char>> {
    match parsed_instant(text) {
        Ok((secs, nanos)) => Ok(Timestamp { secs, nanos }),
        Err(e) => Err(parse_error_text(e)),
    }
}

/// Reads an instant in the notation of RFC 3339, in the relaxed form that
/// the parser accepts.
pub fn read_instant(text: &str) -> (res: Result<Timestamp, String>)
    ensures
        match res {
            Ok(instant) => instant_of(text@) == Ok::<Timestamp, Seq<char>>(instant),
            Err(cause) => instant_of(text@) == Err::<Timestamp, Seq<char>>(cause@),
        },
{
    match instant_from_str(text) {
        Ok(instant) => Ok(instant),
        Err(e) => Err(describe_parse_error(&e)),
    }
}

/// What reading a text by a format gives: the instant that the text
/// names, or what the parser said of the text.
pub open spec fn datetime_of(text: Seq<char>, format: Seq<char>) -> Result<Timestamp, Seq<char>> {
    match parsed_datetime(text, format) {
        Ok((secs, nanos)) => Ok(Timestamp { secs, nanos }),
        Err(e) => Err(parse_error_text(e)),
    }
}

/// Reads a date and time in UTC by a format.
pub fn read_datetime(text: &str, format: &str) -> (res: Result<Timestamp, String>)
    ensures
        match res {
            Ok(instant) => datetime_of(text@, format@) == Ok::<Timestamp, Seq<char>>(instant),
            Err(cause) => datetime_of(text@, format@) == Err::<Timestamp, Seq<char>>(cause@),
        },
{
    match datetime_from_str(text, format) {
        Ok(instant) => Ok(instant),
        Err(e) => Err(describe_parse_error(&e)),
    }
}

/// The date and time of an instant as it is written out, or `None` where
/// the instant lies outside the range of the calendar.
pub uninterp spec fn instant_text(secs: i64, nanos: u32) -> Option<Seq<char>>;

/// Writes an instant out as a date and time in UTC.
///
/// Trusted: what `DateTime::from_timestamp` and the `Display` rendering of
/// its result give depends on the seconds and nanoseconds alone.
#[verifier::external_body]
fn instant_to_string(instant: Timestamp) -> (res: Option<String>)
    ensures
        res is Some <==> instant_text(instant.secs, instant.nanos) is Some,
        res matches Some(text) ==> instant_text(instant.secs, instant.nanos) == Some(text@),
{
    match chrono::DateTime::from_timestamp(instant.secs, instant.nanos) {
        Some(date_time) => Some(date_time.to_string()),
        None => None,
    }
}

/// The date and time of an instant as it is written out; the empty text
/// for an instant outside the range of the calendar.
pub open spec fn instant_display(instant: Timestamp) -> Seq<char> {
    match instant_text(instant.secs, instant.nanos) {
        Some(text) => text,
        None => Seq::empty(),
    }
}

/// Writes an instant out as a date and time in UTC.
pub fn display_instant(instant: Timestamp) -> (text: String)
    ensures
        text@ == instant_display(instant),
{
    match instant_to_string(instant) {
        Some(text) => text,
        None => String::new(),
    }
}

} // verus!
