//! The bridges to chrono: RFC 2822 parsing and rendering, and the day
//! grouping key.  Everything else in the crate holds instants as UTC
//! epoch seconds or milliseconds.

use vstd::prelude::*;

verus! {

/// The UTC epoch seconds an RFC 2822 date string denotes, if it is one;
/// a function of the characters alone.
pub uninterp spec fn rfc2822_epoch(s: Seq<char>) -> Option<i64>;

/// Relies on chrono's `DateTime::parse_from_rfc2822`: whether the string
/// parses and the instant it denotes depend on the characters alone.
#[verifier::external_body]
pub fn parse_rfc2822(s: &str) -> (r: Option<i64>)
    ensures
        r == rfc2822_epoch(s@),
{
    match chrono::DateTime::parse_from_rfc2822(s) {
        Ok(d) => Some(d.timestamp()),
        Err(_) => None,
    }
}

/// The RFC 2822 rendering of an instant; a function of the instant alone.
pub uninterp spec fn rfc2822_string(secs: i64) -> Seq<char>;

/// Relies on chrono's `DateTime::from_timestamp` (defined on the whole
/// admitted range) and `to_rfc2822`, whose output depends on the instant
/// alone.
#[verifier::external_body]
pub fn format_rfc2822(secs: i64) -> (r: String)
    requires
        0 <= secs <= 253402300799,
    ensures
        r@ == rfc2822_string(secs),
{
    chrono::DateTime::from_timestamp(secs, 0).unwrap().to_rfc2822()
}

/// The `YYYY-MM-DD` rendering of an instant's UTC day; a function of the
/// instant alone.
pub uninterp spec fn day_string(secs: i64) -> Seq<char>;

/// Relies on chrono's `DateTime::from_timestamp` (defined on the whole
/// admitted range) and its `%Y-%m-%d` formatting, whose output depends on
/// the instant alone.
#[verifier::external_body]
pub fn format_day(secs: i64) -> (r: String)
    requires
        0 <= secs <= 253402300799,
    ensures
        r@ == day_string(secs),
{
    chrono::DateTime::from_timestamp(secs, 0).unwrap().format("%Y-%m-%d").to_string()
}

} // verus!
