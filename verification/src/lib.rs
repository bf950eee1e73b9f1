//! A caching, rate-limited aggregation library for a torrent-listing site.
//!
//! The library normalizes the site's two wire representations (an XML feed
//! and rendered HTML pages) into a canonical data model, keeps decoded
//! artifacts in a size-bounded expiring cache, gates outbound fetches behind
//! a sliding-window rate limiter, and records request outcomes in a ledger.


pub mod client;
pub mod data;
pub mod feed;
pub mod front;
pub mod html;
pub mod htmlscan;
pub mod listpage;

pub mod mirror_api;
pub mod model;
pub mod normalize;
pub mod cache;
pub mod query;
pub mod rate;
pub mod scan;
pub mod store;
pub mod strutil;
pub mod time;
pub mod tracker;
pub mod url_params;
pub mod urlbuild;
pub mod viewpage;
pub mod xml;

use vstd::prelude::*;

verus! {

/// The character sequence a string literal denotes.
pub open spec fn strv(s: &str) -> Seq<char> {
    s.view()
}

/// The error taxonomy shared by the normalizers and parsers.
#[derive(Debug, Clone, PartialEq, Eq)]
pub enum Error {
    ParseNumber,
    ParseDate,
    ParseBoolean,
    ParseSize,
    ParseCategory,
    ParseTimestamp,
    ParseString,
    ParseInteger,
    ParseXml,
    HtmlMissingElement,
    HtmlMissingAttribute,
    HtmlUnexpectedElement,
    /// The response's content type, which no parser takes.
    UnsupportedContentType(String),
    /// The response's status code and its body, read as a diagnostic.
    HttpStatus(u16, String),
    CacheNoSpace,
    CacheIo,
    RateLimitCancelled,
}

} // verus!
