//! The `to_paris_time` template filter: the clock time in Paris of an RFC 3339
//! instant.
use vstd::prelude::*;
use vstd::string::*;

verus! {

/// What `chrono` makes of `text`: the wall-clock time, `HH:MM:SS`, in the
/// Europe/Paris time zone of the RFC 3339 instant that `text` is, or the text
/// of the parse error.
pub uninterp spec fn paris_clock(text: Seq<char>) -> Result<Seq<char>, Seq<char>>;

/// Whether `c` is an ASCII decimal digit.
pub open spec fn is_digit(c: char) -> bool {
    '0' <= c <= '9'
}

/// `t` has the shape `HH:MM:SS`: two digits, a colon, two digits, a colon,
/// two digits.
pub open spec fn clock_shaped(t: Seq<char>) -> bool {
    &&& t.len() == 8
    &&& t[2] == ':' && t[5] == ':'
    &&& is_digit(t[0]) && is_digit(t[1]) && is_digit(t[3]) && is_digit(t[4])
    &&& is_digit(t[6]) && is_digit(t[7])
}

/// Parses `date` with `chrono::DateTime::parse_from_rfc3339`, converts it to
/// `chrono_tz::Europe::Paris` and formats it with `"%H:%M:%S"`; on a parse
/// error, gives the error's text. The contract claims that the result is
/// `paris_clock(date)`, and, as chrono's documentation of `%H`, `%M` and `%S`
/// says (each zero-padded to two digits), that a clock time has the shape
/// `HH:MM:SS`.
#[verifier::external_body]
fn paris_clock_time(date: &str) -> (res: Result<String, String>)
    ensures
        match res {
            Ok(t) => paris_clock(date@) == Ok::<Seq<char>, Seq<char>>(t@) && clock_shaped(t@),
            Err(e) => paris_clock(date@) == Err::<Seq<char>, Seq<char>>(e@),
        },
{
    match chrono::DateTime::parse_from_rfc3339(date) {
        Ok(dt) => Ok(dt.with_timezone(&chrono_tz::Europe::Paris).format("%H:%M:%S").to_string()),
        Err(e) => Err(e.to_string()),
    }
}

/// The message of the filter's error for `date`, whose parse failed with
/// `error`.
pub open spec fn parse_error_message(date: Seq<char>, error: Seq<char>) -> Seq<char> {
    "could not parse date "@ + date + ": "@ + error
}

/// The filter's result for `date`, given what parsing and converting it gave:
/// the clock time, or the error message.
pub fn paris_time_outcome(date: &str, clock: Result<String, String>) -> (res: Result<
    Option<String>,
    String,
>)
    ensures
        match clock {
            Ok(t) => res == Ok::<Option<String>, String>(Some(t)),
            Err(e) => res matches Err(m) && m@ == parse_error_message(date@, e@),
        },
{
    match clock {
        Ok(t) => Ok(Some(t)),
        Err(e) => {
            let mut m = String::from_str("could not parse date ");
            m.append(date);
            m.append(": ");
            m.append(e.as_str());
            Err(m)
        },
    }
}

/// The `to_paris_time` filter: nothing for a value that is not a string; the
/// clock time in Paris of an RFC 3339 instant; an error for any other string.
pub fn to_paris_time(date: Option<&str>) -> (res: Result<Option<String>, String>)
    ensures
        match date {
            None => res == Ok::<Option<String>, String>(None),
            Some(d) => match paris_clock(d@) {
                Ok(t) => res matches Ok(Some(s)) && s@ == t && clock_shaped(t),
                Err(e) => res matches Err(m) && m@ == parse_error_message(d@, e),
            },
        },
{
    match date {
        None => Ok(None),
        Some(d) => paris_time_outcome(d, paris_clock_time(d)),
    }
}

} // verus!
