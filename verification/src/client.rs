//! The fetch coordinator: one place that composes the cache, the rate
//! limiter, the parsers and the ledger.
//!
//! The network and the disk stay with the caller, which drives the
//! coordinator step by step: look the key up in the cache, wait for
//! admission, hand the response in to be parsed and tracked, and store
//! the decoded artifact's size back into the cache.  Every decision the
//! steps take is stated exactly; what came over the wire is a parameter.

use vstd::prelude::*;
use vstd::string::StringSliceAdditionalSpecFns;

use crate::Error;
use crate::cache::{
    Cache, expired_names, has_key, live_entries, evict_for, evicted_names, removed_key_names,
    sat_add64, spec_remove_key, sum_sizes,
};
use crate::model::{ListItem, ViewRecord};
use crate::query::ListQuery;
use crate::rate::{admit_spec, RateLimiter};
use crate::tracker::{full_path, RequestRecord, RequestTracker};

verus! {

/// Which parser a response's content type calls for.
#[derive(Debug, Clone, Copy, PartialEq, Eq, Structural)]
pub enum BodyKind {
    Feed,
    Page,
    Unsupported,
}

/// The kind the content type announces: anything naming `xml` is the
/// feed, else anything naming `html` is a rendered page.
pub open spec fn spec_body_kind(ct: Seq<u8>) -> BodyKind {
    let l = crate::scan::lower_spec(ct);
    if crate::listpage::spec_contains(l, seq![120u8, 109u8, 108u8]) {
        BodyKind::Feed
    } else if crate::listpage::spec_contains(l, seq![104u8, 116u8, 109u8, 108u8]) {
        BodyKind::Page
    } else {
        BodyKind::Unsupported
    }
}

/// Classifies a content type.
pub fn classify_content_type(ct: &str) -> (r: BodyKind)
    ensures
        r == spec_body_kind(ct.spec_bytes()),
{
    let bytes = crate::strutil::str_to_bytes(ct);
    let l = crate::scan::to_lower(bytes.as_slice());
    let xml: [u8; 3] = [120, 109, 108];
    let html: [u8; 4] = [104, 116, 109, 108];
    proof {
        assert(xml@ =~= seq![120u8, 109u8, 108u8]);
        assert(html@ =~= seq![104u8, 116u8, 109u8, 108u8]);
    }
    if crate::scan::contains(l.as_slice(), xml.as_slice()) {
        BodyKind::Feed
    } else if crate::scan::contains(l.as_slice(), html.as_slice()) {
        BodyKind::Page
    } else {
        BodyKind::Unsupported
    }
}

/// Parses a listing response body by its content type: the feed parser
/// for XML, the list page parser for HTML, and an error for anything
/// else.
pub fn parse_list_body(origin: &str, content_type: &str, body: &str) -> (r: Result<
    Vec<ListItem>,
    Error,
>)
    ensures
        ({
            match spec_body_kind(content_type.spec_bytes()) {
                BodyKind::Feed => match r {
                    Ok(items) => crate::feed::spec_feed(body.spec_bytes()) is Ok
                        && crate::feed::items_match(
                        items@,
                        crate::feed::spec_feed(body.spec_bytes())->Ok_0,
                    ),
                    Err(e) => crate::feed::spec_feed(body.spec_bytes()) == Err::<
                        Seq<crate::feed::FeedItemModel>,
                        Error,
                    >(e),
                },
                BodyKind::Page => match r {
                    Ok(items) => crate::listpage::spec_list(body.spec_bytes(), origin@) is Ok
                        && crate::listpage::rows_match(
                        items@,
                        crate::listpage::spec_list(body.spec_bytes(), origin@)->Ok_0,
                    ),
                    Err(e) => crate::listpage::spec_list(body.spec_bytes(), origin@) == Err::<
                        Seq<crate::listpage::RowModel>,
                        Error,
                    >(e),
                },
                BodyKind::Unsupported => (match r {
                    Err(Error::UnsupportedContentType(v)) => v@ == content_type@,
                    _ => false,
                }),
            }
        }),
{
    match classify_content_type(content_type) {
        BodyKind::Feed => crate::feed::parse(body),
        BodyKind::Page => crate::listpage::parse(origin, body),
        BodyKind::Unsupported => Err(
            Error::UnsupportedContentType((content_type).to_owned()),
        ),
    }
}

/// The coordinator's durable half: configuration, cache index, limiter
/// window and ledger.
pub struct Client {
    /// Which upstream this client serves, where several are configured.
    pub mirror_id: Option<String>,
    /// The origin URL.
    pub url: String,
    pub user_agent: String,
    pub timeout_ms: u64,
    /// Extra attempts after the first failure.
    pub max_retries: usize,
    /// The floor between two attempts, in milliseconds.
    pub min_interval_ms: u64,
    /// Lifetime of a cached listing.
    pub ttl_list_ms: u64,
    /// Lifetime of a cached detail record.
    pub ttl_view_ms: u64,
    /// Lifetime of a cached download artifact.
    pub ttl_download_ms: u64,
    pub cache: Cache,
    pub rate_limiter: RateLimiter,
    pub tracker: RequestTracker,
}

/// The distinct cache-key fragment of a detail page.
pub open spec fn view_key(id: Seq<char>) -> Seq<char> {
    crate::strv("view:") + id
}

impl Client {
    pub open spec fn wf(self) -> bool {
        &&& self.cache.wf()
        &&& self.rate_limiter.wf()
    }

    /// All the configuration, and the ledger so far, unchanged.
    pub open spec fn same_config(self, other: Client) -> bool {
        &&& (match (self.mirror_id, other.mirror_id) {
            (Some(a), Some(b)) => a@ == b@,
            (None, None) => true,
            _ => false,
        })
        &&& self.url@ == other.url@
        &&& self.user_agent@ == other.user_agent@
        &&& self.timeout_ms == other.timeout_ms
        &&& self.max_retries == other.max_retries
        &&& self.min_interval_ms == other.min_interval_ms
        &&& self.ttl_list_ms == other.ttl_list_ms
        &&& self.ttl_view_ms == other.ttl_view_ms
        &&& self.ttl_download_ms == other.ttl_download_ms
    }

    /// A fresh coordinator around an empty cache, window and ledger.
    pub fn new(
        mirror_id: Option<String>,
        url: String,
        user_agent: String,
        timeout_ms: u64,
        max_retries: usize,
        min_interval_ms: u64,
        ttl_list_ms: u64,
        ttl_view_ms: u64,
        ttl_download_ms: u64,
        cache_size: u64,
        window_requests: usize,
        window_ms: u64,
    ) -> (r: Client)
        ensures
            r.wf(),
            r.mirror_id == mirror_id,
            r.url == url,
            r.max_retries == max_retries,
            r.min_interval_ms == min_interval_ms,
            r.ttl_list_ms == ttl_list_ms,
            r.ttl_view_ms == ttl_view_ms,
            r.ttl_download_ms == ttl_download_ms,
            r.cache.entries@.len() == 0,
            r.cache.max_size == cache_size,
            r.rate_limiter.requests@.len() == 0,
            r.rate_limiter.max_requests == window_requests,
            r.rate_limiter.time_window == window_ms,
            r.tracker.records@.len() == 0,
    {
        Client {
            mirror_id,
            url,
            user_agent,
            timeout_ms,
            max_retries,
            min_interval_ms,
            ttl_list_ms,
            ttl_view_ms,
            ttl_download_ms,
            cache: Cache::new(cache_size),
            rate_limiter: RateLimiter::new(window_requests, window_ms),
            tracker: RequestTracker::new(),
        }
    }

    /// How long to wait before retrying after the given number of
    /// failures: the interval floor plus one second, as long as retries
    /// are left.
    pub fn retry_wait(&self, retries: usize) -> (r: Option<u64>)
        ensures
            r == (if retries < self.max_retries {
                Some(sat_add64(self.min_interval_ms, 1000))
            } else {
                None::<u64>
            }),
    {
        if retries < self.max_retries {
            Some(self.min_interval_ms.saturating_add(1000))
        } else {
            None
        }
    }

    /// One admission attempt at `now`.
    pub fn try_acquire(&mut self, now: u64) -> (r: bool)
        requires
            old(self).wf(),
        ensures
            final(self).wf(),
            old(self).same_config(*final(self)),
            final(self).cache == old(self).cache,
            final(self).tracker == old(self).tracker,
            final(self).rate_limiter.max_requests == old(self).rate_limiter.max_requests,
            final(self).rate_limiter.time_window == old(self).rate_limiter.time_window,
            ({
                let step = admit_spec(
                    old(self).rate_limiter.requests@,
                    now,
                    old(self).rate_limiter.max_requests as int,
                    old(self).rate_limiter.time_window,
                );
                final(self).rate_limiter.requests@ == step.0 && r == step.1
            }),
    {
        self.rate_limiter.try_acquire_at(now)
    }

    /// Looks a listing query up in the cache; a hit is recorded in the
    /// ledger as a free success.  The first result names files to delete,
    /// the second the file holding the artifact, if one is held.
    pub fn list_cached(&mut self, now: u64, query: &ListQuery) -> (r: (Vec<String>, Option<
        String,
    >))
        requires
            old(self).wf(),
        ensures
            final(self).wf(),
            old(self).same_config(*final(self)),
            final(self).rate_limiter == old(self).rate_limiter,
            final(self).cache.max_size == old(self).cache.max_size,
            final(self).cache.entries@ == live_entries(old(self).cache.entries@, now),
            r.0@.map_values(|n: String| n@) == expired_names(old(self).cache.entries@, now),
            ({
                let qs = query.query_string_spec();
                match r.1 {
                    Some(name) => {
                        &&& (exists|i: int|
                            {
                                &&& has_key(final(self).cache.entries@, i, old(self).url@, qs)
                                &&& final(self).cache.entries@[i].name@ == name@
                                &&& final(self).cache.entries@[i].expiration > now
                            })
                        &&& final(self).tracker.records@.len() == old(
                            self,
                        ).tracker.records@.len() + 1
                        &&& final(self).tracker.records@.drop_last() == old(self).tracker.records@
                        &&& final(self).tracker.records@.last().cache_hit == true
                        &&& final(self).tracker.records@.last().success == true
                        &&& final(self).tracker.records@.last().path@ == full_path(
                            old(self).url@,
                            qs,
                        )
                    },
                    None => {
                        &&& (forall|i: int|
                            !has_key(final(self).cache.entries@, i, old(self).url@, qs))
                        &&& final(self).tracker == old(self).tracker
                    },
                }
            }),
    {
        let qs = query.to_query_string();
        let url = crate::strutil::clone_string(&self.url);
        let (removed, hit) = self.cache.get(now, url.as_str(), qs.as_str());
        match hit {
            Some(name) => {
                let mid = match &self.mirror_id {
                    Some(m) => Some(m.as_str()),
                    None => None,
                };
                self.tracker.track_cached(mid, now, url.as_str(), qs.as_str());
                (removed, Some(name))
            },
            None => (removed, None),
        }
    }

    /// Hands a listing attempt's outcome in: a status outside the
    /// successful range is recorded as a failure and returned with the
    /// body as its diagnostic; a body no parser takes, or one that fails
    /// to parse, is a failure too; a parsed body is recorded as a
    /// success.
    pub fn list_fetched(
        &mut self,
        now: u64,
        query: &ListQuery,
        status: u16,
        content_type: &str,
        body: &str,
        elapsed_ms: u64,
    ) -> (r: Result<Vec<ListItem>, Error>)
        requires
            old(self).wf(),
        ensures
            final(self).wf(),
            old(self).same_config(*final(self)),
            final(self).cache == old(self).cache,
            final(self).rate_limiter == old(self).rate_limiter,
            final(self).tracker.records@.len() == old(self).tracker.records@.len() + 1,
            final(self).tracker.records@.drop_last() == old(self).tracker.records@,
            final(self).tracker.records@.last().cache_hit == false,
            final(self).tracker.records@.last().success == (r is Ok),
            final(self).tracker.records@.last().elapsed_ms == elapsed_ms,
            final(self).tracker.records@.last().timestamp == now,
            final(self).tracker.records@.last().path@ == full_path(
                old(self).url@,
                query.query_string_spec(),
            ),
            !(200 <= status <= 299) ==> (match r {
                Err(Error::HttpStatus(s, b)) => s == status && b@ == body@,
                _ => false,
            }),
            (200 <= status <= 299) ==> (match spec_body_kind(content_type.spec_bytes()) {
                BodyKind::Feed => match r {
                    Ok(items) => crate::feed::spec_feed(body.spec_bytes()) is Ok
                        && crate::feed::items_match(
                        items@,
                        crate::feed::spec_feed(body.spec_bytes())->Ok_0,
                    ),
                    Err(e) => crate::feed::spec_feed(body.spec_bytes()) == Err::<
                        Seq<crate::feed::FeedItemModel>,
                        Error,
                    >(e),
                },
                BodyKind::Page => match r {
                    Ok(items) => crate::listpage::spec_list(
                        body.spec_bytes(),
                        old(self).url@,
                    ) is Ok && crate::listpage::rows_match(
                        items@,
                        crate::listpage::spec_list(body.spec_bytes(), old(self).url@)->Ok_0,
                    ),
                    Err(e) => crate::listpage::spec_list(body.spec_bytes(), old(self).url@)
                        == Err::<Seq<crate::listpage::RowModel>, Error>(e),
                },
                BodyKind::Unsupported => (match r {
                    Err(Error::UnsupportedContentType(v)) => v@ == content_type@,
                    _ => false,
                }),
            }),
    {
        let qs = query.to_query_string();
        let url = crate::strutil::clone_string(&self.url);
        let result: Result<Vec<ListItem>, Error> = if 200 <= status && status <= 299 {
            parse_list_body(url.as_str(), content_type, body)
        } else {
            Err(Error::HttpStatus(status, (body).to_owned()))
        };
        let ok = result.is_ok();
        let mid = match &self.mirror_id {
            Some(m) => Some(m.as_str()),
            None => None,
        };
        self.tracker.track(mid, now, url.as_str(), qs.as_str(), ok, elapsed_ms);
        result
    }

    /// Stores a decoded listing of `data_size` bytes in the cache under
    /// the query's key; a cache that cannot take it is left as the
    /// eviction pass left it and nothing more happens.  The first result
    /// names files to delete, the second the fresh file to write.
    pub fn list_store(&mut self, now: u64, query: &ListQuery, data_size: u64) -> (r: (
        Vec<String>,
        Option<String>,
    ))
        requires
            old(self).wf(),
        ensures
            final(self).wf(),
            old(self).same_config(*final(self)),
            final(self).rate_limiter == old(self).rate_limiter,
            final(self).tracker == old(self).tracker,
            final(self).cache.max_size == old(self).cache.max_size,
            ({
                let qs = query.query_string_spec();
                let cleaned = live_entries(old(self).cache.entries@, now);
                let keyless = spec_remove_key(cleaned, old(self).url@, qs);
                let ready = evict_for(keyless, data_size as int, old(self).cache.max_size as int);
                &&& r.0@.map_values(|n: String| n@) == expired_names(
                    old(self).cache.entries@,
                    now,
                ) + removed_key_names(cleaned, old(self).url@, qs) + evicted_names(
                    keyless,
                    data_size as int,
                    old(self).cache.max_size as int,
                )
                &&& (match r.1 {
                    Some(name) => {
                        &&& sum_sizes(ready) + data_size <= old(self).cache.max_size
                        &&& final(self).cache.entries@.len() == ready.len() + 1
                        &&& final(self).cache.entries@.drop_last() == ready
                        &&& final(self).cache.entries@.last().url@ == old(self).url@
                        &&& final(self).cache.entries@.last().query@ == qs
                        &&& final(self).cache.entries@.last().name@ == name@
                        &&& final(self).cache.entries@.last().expiration == sat_add64(
                            now,
                            old(self).ttl_list_ms,
                        )
                        &&& final(self).cache.entries@.last().data_size == data_size
                    },
                    None => {
                        &&& sum_sizes(ready) + data_size > old(self).cache.max_size
                        &&& final(self).cache.entries@ == ready
                    },
                })
            }),
    {
        let qs = query.to_query_string();
        let url = crate::strutil::clone_string(&self.url);
        let ttl = self.ttl_list_ms;
        let (removed, stored) = self.cache.put(now, url.as_str(), qs.as_str(), ttl, data_size);
        match stored {
            Ok(name) => (removed, Some(name)),
            Err(_) => (removed, None),
        }
    }

    /// Looks a detail page up in the cache under its distinct key; a hit
    /// is recorded as a free success.
    pub fn view_cached(&mut self, now: u64, id: &str) -> (r: (Vec<String>, Option<String>))
        requires
            old(self).wf(),
        ensures
            final(self).wf(),
            old(self).same_config(*final(self)),
            final(self).rate_limiter == old(self).rate_limiter,
            final(self).cache.max_size == old(self).cache.max_size,
            final(self).cache.entries@ == live_entries(old(self).cache.entries@, now),
            r.0@.map_values(|n: String| n@) == expired_names(old(self).cache.entries@, now),
            ({
                let qs = view_key(id@);
                match r.1 {
                    Some(name) => {
                        &&& (exists|i: int|
                            {
                                &&& has_key(final(self).cache.entries@, i, old(self).url@, qs)
                                &&& final(self).cache.entries@[i].name@ == name@
                                &&& final(self).cache.entries@[i].expiration > now
                            })
                        &&& final(self).tracker.records@.len() == old(
                            self,
                        ).tracker.records@.len() + 1
                        &&& final(self).tracker.records@.drop_last() == old(self).tracker.records@
                        &&& final(self).tracker.records@.last().cache_hit == true
                        &&& final(self).tracker.records@.last().success == true
                    },
                    None => {
                        &&& (forall|i: int|
                            !has_key(final(self).cache.entries@, i, old(self).url@, qs))
                        &&& final(self).tracker == old(self).tracker
                    },
                }
            }),
    {
        let qs = make_view_key(id);
        let url = crate::strutil::clone_string(&self.url);
        let (removed, hit) = self.cache.get(now, url.as_str(), qs.as_str());
        match hit {
            Some(name) => {
                let mid = match &self.mirror_id {
                    Some(m) => Some(m.as_str()),
                    None => None,
                };
                self.tracker.track_cached(mid, now, url.as_str(), qs.as_str());
                (removed, Some(name))
            },
            None => (removed, None),
        }
    }

    /// Hands a detail attempt's outcome in, parsing and recording it; a
    /// failing status comes back with the body as its diagnostic.
    pub fn view_fetched(
        &mut self,
        now: u64,
        id: &str,
        status: u16,
        body: &str,
        elapsed_ms: u64,
    ) -> (r: Result<ViewRecord, Error>)
        requires
            old(self).wf(),
        ensures
            final(self).wf(),
            old(self).same_config(*final(self)),
            final(self).cache == old(self).cache,
            final(self).rate_limiter == old(self).rate_limiter,
            final(self).tracker.records@.len() == old(self).tracker.records@.len() + 1,
            final(self).tracker.records@.drop_last() == old(self).tracker.records@,
            final(self).tracker.records@.last().cache_hit == false,
            final(self).tracker.records@.last().success == (r is Ok),
            final(self).tracker.records@.last().elapsed_ms == elapsed_ms,
            !(200 <= status <= 299) ==> (match r {
                Err(Error::HttpStatus(s, b)) => s == status && b@ == body@,
                _ => false,
            }),
            (200 <= status <= 299) ==> (match r {
                Ok(v) => crate::viewpage::spec_view(body.spec_bytes(), old(self).url@) is Ok
                    && crate::viewpage::view_matches(
                    v,
                    crate::viewpage::spec_view(body.spec_bytes(), old(self).url@)->Ok_0,
                    old(self).url@,
                ),
                Err(e) => crate::viewpage::spec_view(body.spec_bytes(), old(self).url@) == Err::<
                    crate::viewpage::ViewModel,
                    Error,
                >(e),
            }),
    {
        let qs = make_view_key(id);
        let url = crate::strutil::clone_string(&self.url);
        let result: Result<ViewRecord, Error> = if 200 <= status && status <= 299 {
            crate::viewpage::parse(url.as_str(), body)
        } else {
            Err(Error::HttpStatus(status, (body).to_owned()))
        };
        let ok = result.is_ok();
        let mid = match &self.mirror_id {
            Some(m) => Some(m.as_str()),
            None => None,
        };
        self.tracker.track(mid, now, url.as_str(), qs.as_str(), ok, elapsed_ms);
        result
    }

    /// Stores a decoded detail record's size under its distinct key.
    pub fn view_store(&mut self, now: u64, id: &str, data_size: u64) -> (r: (Vec<String>, Option<
        String,
    >))
        requires
            old(self).wf(),
        ensures
            final(self).wf(),
            old(self).same_config(*final(self)),
            final(self).rate_limiter == old(self).rate_limiter,
            final(self).tracker == old(self).tracker,
            final(self).cache.max_size == old(self).cache.max_size,
            ({
                let qs = view_key(id@);
                let cleaned = live_entries(old(self).cache.entries@, now);
                let keyless = spec_remove_key(cleaned, old(self).url@, qs);
                let ready = evict_for(keyless, data_size as int, old(self).cache.max_size as int);
                match r.1 {
                    Some(name) => {
                        &&& final(self).cache.entries@.len() == ready.len() + 1
                        &&& final(self).cache.entries@.drop_last() == ready
                        &&& final(self).cache.entries@.last().url@ == old(self).url@
                        &&& final(self).cache.entries@.last().query@ == qs
                        &&& final(self).cache.entries@.last().expiration == sat_add64(
                            now,
                            old(self).ttl_view_ms,
                        )
                        &&& final(self).cache.entries@.last().data_size == data_size
                    },
                    None => {
                        &&& sum_sizes(ready) + data_size > old(self).cache.max_size
                        &&& final(self).cache.entries@ == ready
                    },
                }
            }),
    {
        let qs = make_view_key(id);
        let url = crate::strutil::clone_string(&self.url);
        let ttl = self.ttl_view_ms;
        let (removed, stored) = self.cache.put(now, url.as_str(), qs.as_str(), ttl, data_size);
        match stored {
            Ok(name) => (removed, Some(name)),
            Err(_) => (removed, None),
        }
    }

    /// Looks a download artifact up in the cache under its plain id key; a
    /// hit is recorded as a free success.
    pub fn download_cached(&mut self, now: u64, id: &str) -> (r: (Vec<String>, Option<String>))
        requires
            old(self).wf(),
        ensures
            final(self).wf(),
            old(self).same_config(*final(self)),
            final(self).rate_limiter == old(self).rate_limiter,
            final(self).cache.max_size == old(self).cache.max_size,
            final(self).cache.entries@ == live_entries(old(self).cache.entries@, now),
            r.0@.map_values(|n: String| n@) == expired_names(old(self).cache.entries@, now),
            match r.1 {
                Some(name) => {
                    &&& (exists|i: int|
                        {
                            &&& has_key(final(self).cache.entries@, i, old(self).url@, id@)
                            &&& final(self).cache.entries@[i].name@ == name@
                            &&& final(self).cache.entries@[i].expiration > now
                        })
                    &&& final(self).tracker.records@.len() == old(self).tracker.records@.len() + 1
                    &&& final(self).tracker.records@.drop_last() == old(self).tracker.records@
                    &&& final(self).tracker.records@.last().cache_hit == true
                    &&& final(self).tracker.records@.last().success == true
                },
                None => {
                    &&& (forall|i: int| !has_key(final(self).cache.entries@, i, old(self).url@, id@))
                    &&& final(self).tracker == old(self).tracker
                },
            },
    {
        let url = crate::strutil::clone_string(&self.url);
        let (removed, hit) = self.cache.get(now, url.as_str(), id);
        match hit {
            Some(name) => {
                let mid = match &self.mirror_id {
                    Some(m) => Some(m.as_str()),
                    None => None,
                };
                self.tracker.track_cached(mid, now, url.as_str(), id);
                (removed, Some(name))
            },
            None => (removed, None),
        }
    }

    /// Records a download attempt's outcome: the artifact itself passes
    /// through untouched, so success is the status alone; a failing
    /// status comes back with the body read as a diagnostic.
    pub fn download_fetched(
        &mut self,
        now: u64,
        id: &str,
        status: u16,
        diagnostic: &str,
        elapsed_ms: u64,
    ) -> (r: Result<(), Error>)
        requires
            old(self).wf(),
        ensures
            final(self).wf(),
            old(self).same_config(*final(self)),
            final(self).cache == old(self).cache,
            final(self).rate_limiter == old(self).rate_limiter,
            final(self).tracker.records@.len() == old(self).tracker.records@.len() + 1,
            final(self).tracker.records@.drop_last() == old(self).tracker.records@,
            final(self).tracker.records@.last().cache_hit == false,
            final(self).tracker.records@.last().success == (r is Ok),
            final(self).tracker.records@.last().elapsed_ms == elapsed_ms,
            final(self).tracker.records@.last().timestamp == now,
            final(self).tracker.records@.last().path@ == full_path(old(self).url@, id@),
            (200 <= status <= 299) ==> r == Ok::<(), Error>(()),
            !(200 <= status <= 299) ==> (match r {
                Err(Error::HttpStatus(s, b)) => s == status && b@ == diagnostic@,
                _ => false,
            }),
    {
        let url = crate::strutil::clone_string(&self.url);
        let result: Result<(), Error> = if 200 <= status && status <= 299 {
            Ok(())
        } else {
            Err(Error::HttpStatus(status, (diagnostic).to_owned()))
        };
        let ok = result.is_ok();
        let mid = match &self.mirror_id {
            Some(m) => Some(m.as_str()),
            None => None,
        };
        self.tracker.track(mid, now, url.as_str(), id, ok, elapsed_ms);
        result
    }

    /// Stores a download artifact's size under its plain id key.
    pub fn download_store(&mut self, now: u64, id: &str, data_size: u64) -> (r: (
        Vec<String>,
        Option<String>,
    ))
        requires
            old(self).wf(),
        ensures
            final(self).wf(),
            old(self).same_config(*final(self)),
            final(self).rate_limiter == old(self).rate_limiter,
            final(self).tracker == old(self).tracker,
            final(self).cache.max_size == old(self).cache.max_size,
            ({
                let cleaned = live_entries(old(self).cache.entries@, now);
                let keyless = spec_remove_key(cleaned, old(self).url@, id@);
                let ready = evict_for(keyless, data_size as int, old(self).cache.max_size as int);
                match r.1 {
                    Some(name) => {
                        &&& final(self).cache.entries@.len() == ready.len() + 1
                        &&& final(self).cache.entries@.drop_last() == ready
                        &&& final(self).cache.entries@.last().url@ == old(self).url@
                        &&& final(self).cache.entries@.last().query@ == id@
                        &&& final(self).cache.entries@.last().name@ == name@
                        &&& final(self).cache.entries@.last().expiration == sat_add64(
                            now,
                            old(self).ttl_download_ms,
                        )
                        &&& final(self).cache.entries@.last().data_size == data_size
                    },
                    None => {
                        &&& sum_sizes(ready) + data_size > old(self).cache.max_size
                        &&& final(self).cache.entries@ == ready
                    },
                }
            }),
    {
        let url = crate::strutil::clone_string(&self.url);
        let ttl = self.ttl_download_ms;
        let (removed, stored) = self.cache.put(now, url.as_str(), id, ttl, data_size);
        match stored {
            Ok(name) => (removed, Some(name)),
            Err(_) => (removed, None),
        }
    }

    /// The magnet link of a decoded detail record, which must carry one.
    pub fn magnet_link(&self, view: &ViewRecord) -> (r: Result<String, Error>)
        ensures
            match (r, &view.magnet_link) {
                (Ok(m), Some(v)) => m@ == v@,
                (Err(e), None) => e == Error::HtmlMissingElement,
                _ => false,
            },
    {
        match &view.magnet_link {
            Some(m) => Ok(crate::strutil::clone_string(m)),
            None => Err(Error::HtmlMissingElement),
        }
    }
}

/// Builds the distinct cache key of a detail page.
fn make_view_key(id: &str) -> (r: String)
    ensures
        r@ == view_key(id@),
{
    proof {
        reveal_strlit("view:");
    }
    let mut s = ("view:").to_owned();
    crate::strutil::push_str(&mut s, id);
    s
}

/// How many network successes a ledger stretch holds.
pub open spec fn count_success(s: Seq<RequestRecord>) -> int
    decreases s.len(),
{
    if s.len() == 0 {
        0
    } else {
        count_success(s.drop_last()) + (if s.last().success && !s.last().cache_hit {
            1int
        } else {
            0int
        })
    }
}

/// How many network failures a ledger stretch holds.
pub open spec fn count_failure(s: Seq<RequestRecord>) -> int
    decreases s.len(),
{
    if s.len() == 0 {
        0
    } else {
        count_failure(s.drop_last()) + (if !s.last().success && !s.last().cache_hit {
            1int
        } else {
            0int
        })
    }
}

/// Law: a fetch that fails `k` times and then succeeds leaves exactly
/// `k` failure records and one success record in the ledger beyond what
/// was there.
pub proof fn lemma_retry_ledger(pre: Seq<RequestRecord>, tries: Seq<RequestRecord>)
    requires
        tries.len() >= 1,
        forall|j: int|
            0 <= j < tries.len() - 1 ==> !(#[trigger] tries[j]).success && !tries[j].cache_hit,
        tries.last().success && !tries.last().cache_hit,
    ensures
        count_failure(pre + tries) == count_failure(pre) + tries.len() - 1,
        count_success(pre + tries) == count_success(pre) + 1,
    decreases tries.len(),
{
    if tries.len() == 1 {
        assert((pre + tries).drop_last() =~= pre);
        assert((pre + tries).last() == tries[0]);
    } else {
        let d = tries.drop_last();
        let e = tries.last();
        assert((pre + tries).drop_last() =~= pre + d);
        assert((pre + tries).last() == e);
        lemma_all_failures(pre, d);
    }
}

/// A stretch of pure failures adds exactly its length to the failure
/// count and nothing to the success count.
proof fn lemma_all_failures(pre: Seq<RequestRecord>, fs: Seq<RequestRecord>)
    requires
        forall|j: int| 0 <= j < fs.len() ==> !(#[trigger] fs[j]).success && !fs[j].cache_hit,
    ensures
        count_failure(pre + fs) == count_failure(pre) + fs.len(),
        count_success(pre + fs) == count_success(pre),
    decreases fs.len(),
{
    if fs.len() == 0 {
        assert(pre + fs =~= pre);
    } else {
        let d = fs.drop_last();
        assert((pre + fs).drop_last() =~= pre + d);
        assert((pre + fs).last() == fs.last());
        assert(forall|j: int| 0 <= j < d.len() ==> d[j] == #[trigger] fs[j]);
        lemma_all_failures(pre, d);
    }
}

} // verus!
