//! HTTP dates: the text of `Last-Modified` and `If-Modified-Since` headers.
//!
//! The calendar arithmetic is the `httpdate` crate's. Here its two functions
//! get a name for what they return, so that the rest of the library can say
//! which text and which time it handles.

use vstd::prelude::*;
use std::time::{Duration, UNIX_EPOCH};

verus! {

/// Seconds since 1970-01-01 00:00:00 UTC.
pub type Timestamp = u64;

/// The first second of the year 10000, which no HTTP date can name.
pub const END_OF_DATES: u64 = 253_402_300_800;

/// The time that `httpdate::parse_http_date` reads from a text, in seconds
/// since the epoch, or `None` where it reads none.
pub uninterp spec fn http_date_seconds(text: Seq<char>) -> Option<u64>;

/// The text that `httpdate::fmt_http_date` writes for a time, given in seconds
/// since the epoch.
pub uninterp spec fn http_date_text(seconds: u64) -> Seq<char>;

/// Reads an HTTP date with `httpdate::parse_http_date`, which accepts the
/// IMF-fixdate form and the two obsolete forms of RFC 7231 and gives a time
/// at or after the epoch. Nothing is claimed of the result but that it is the
/// same for the same text.
#[verifier::external_body]
pub(crate) fn parse_http_date(text: &str) -> (r: Option<Timestamp>)
    ensures
        r == http_date_seconds(text@),
{
    match httpdate::parse_http_date(text) {
        Ok(time) => match time.duration_since(UNIX_EPOCH) {
            Ok(since) => Some(since.as_secs()),
            Err(_) => None,
        },
        Err(_) => None,
    }
}

/// Writes a time as an IMF-fixdate with `httpdate::fmt_http_date`, which
/// panics for a time in the year 10000 or later: those are left out.
#[verifier::external_body]
pub(crate) fn fmt_http_date(seconds: Timestamp) -> (r: String)
    requires
        seconds < END_OF_DATES,
    ensures
        r@ == http_date_text(seconds),
{
    httpdate::fmt_http_date(UNIX_EPOCH + Duration::from_secs(seconds))
}

/// The time of an `If-Modified-Since` header, if the request has the header
/// and its value is an HTTP date.
pub open spec fn header_time(value: Option<Seq<char>>) -> Option<Timestamp> {
    match value {
        Some(text) => http_date_seconds(text),
        None => None,
    }
}

/// Reads the time of an `If-Modified-Since` header.
pub fn read_header_time(value: Option<&str>) -> (r: Option<Timestamp>)
    ensures
        r == header_time(
            match value {
                Some(text) => Some(text@),
                None => None,
            },
        ),
{
    match value {
        Some(text) => parse_http_date(text),
        None => None,
    }
}

/// The value of a `Last-Modified` header for a time: the HTTP date of a time
/// that has one, and no header otherwise.
pub open spec fn last_modified_text(time: Option<Timestamp>) -> Option<Seq<char>> {
    match time {
        Some(seconds) => if seconds < END_OF_DATES {
            Some(http_date_text(seconds))
        } else {
            None
        },
        None => None,
    }
}

/// True if `header` holds the text `text`, or both are absent.
pub open spec fn is_text(header: Option<String>, text: Option<Seq<char>>) -> bool {
    match (header, text) {
        (Some(h), Some(t)) => h@ == t,
        (None, None) => true,
        _ => false,
    }
}

/// Writes the value of a `Last-Modified` header.
pub fn last_modified_header(time: Option<Timestamp>) -> (r: Option<String>)
    ensures
        is_text(r, last_modified_text(time)),
{
    match time {
        Some(seconds) => {
            if seconds < END_OF_DATES {
                Some(fmt_http_date(seconds))
            } else {
                None
            }
        },
        None => None,
    }
}

} // verus!
