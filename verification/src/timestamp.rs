//! Absolute instants, modelled as non-negative seconds since the Unix
//! epoch (UTC), and their persisted textual form.
//!
//! The textual form is the RFC 2822 timestamp that chrono produces; the
//! library treats it as an opaque function of the instant and relies on
//! chrono to parse it back.

use vstd::prelude::*;

verus! {

use crate::bytes::{COLON, NEWLINE, contains_byte, has_sep};

/// Exclusive upper bound on instants the library handles: the first second
/// of year 10000, past which the persisted timestamp format is not defined
/// (RFC 2822 carries a four-digit year).
pub const TS_MAX: i64 = 253402300800;

/// An instant lies in the range the library models.
pub open spec fn ts_in_range(t: i64) -> bool {
    0 <= t < TS_MAX
}

/// The RFC 2822 text chrono produces for the instant `t`.
pub uninterp spec fn rfc2822_of(t: i64) -> Seq<u8>;

/// The instant chrono reads back from the text `s`, if any.
pub uninterp spec fn rfc2822_parse(s: Seq<u8>) -> Option<i64>;

/// Relies on chrono's `DateTime::<Utc>::from_timestamp` and `to_rfc2822`:
/// for an in-range instant the text is defined and depends on the instant
/// alone ("Tue, 1 Jul 2003 10:52:37 +0000"), never holds two adjacent
/// colons or a line feed, ends in a digit of the zone offset, and
/// `DateTime::parse_from_rfc2822` reads the same instant back from it.
#[verifier::external_body]
pub(crate) fn format_rfc2822(t: i64) -> (r: Vec<u8>)
    requires
        ts_in_range(t),
    ensures
        r@ == rfc2822_of(t),
        rfc2822_parse(r@) == Some::<i64>(t),
        r@.len() > 0,
        !has_sep(r@),
        !contains_byte(r@, NEWLINE),
        r@[r@.len() - 1] != COLON,
{
    let dt = chrono::DateTime::<chrono::Utc>::from_timestamp(t, 0).unwrap();
    dt.to_rfc2822().into_bytes()
}

/// Relies on chrono's `Utc::now`: the current wall-clock instant as
/// seconds since the epoch. Nothing is assumed about the value read;
/// callers test it before relying on it.
#[verifier::external_body]
pub(crate) fn now_seconds() -> i64 {
    chrono::Utc::now().timestamp()
}

/// Relies on chrono's `DateTime::parse_from_rfc2822`: whether the text
/// parses, and to which instant, is a function of the text alone.
#[verifier::external_body]
pub(crate) fn parse_rfc2822(s: &[u8]) -> (r: Option<i64>)
    ensures
        r == rfc2822_parse(s@),
{
    match core::str::from_utf8(s) {
        Ok(text) => match chrono::DateTime::parse_from_rfc2822(text) {
            Ok(d) => Some(d.timestamp()),
            Err(_) => None,
        },
        Err(_) => None,
    }
}

} // verus!
