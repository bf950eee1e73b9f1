//! The append-only ledger of request outcomes.
//!
//! Every coordinator decision (cache hit, success, failure) appends one
//! record; health reporting projects the most recent records, newest
//! first.  Records are appended in time order, so recency is append
//! order.  Durable storage of the ledger is the caller's affair.

use vstd::prelude::*;

verus! {

pub struct RequestRecord {
    /// Which upstream this request went to, where several are served.
    pub mirror_id: Option<String>,
    /// Instant of the request, milliseconds on the caller's clock.
    pub timestamp: u64,
    /// The resolved URL, query string included.
    pub path: String,
    pub success: bool,
    pub cache_hit: bool,
    /// Time the request took, in milliseconds.
    pub elapsed_ms: u64,
}

pub struct RequestTracker {
    pub records: Vec<RequestRecord>,
}

/// Field-for-field agreement of two records.
pub open spec fn rec_eq(a: RequestRecord, b: RequestRecord) -> bool {
    &&& (match (a.mirror_id, b.mirror_id) {
        (Some(x), Some(y)) => x@ == y@,
        (None, None) => true,
        _ => false,
    })
    &&& a.timestamp == b.timestamp
    &&& a.path@ == b.path@
    &&& a.success == b.success
    &&& a.cache_hit == b.cache_hit
    &&& a.elapsed_ms == b.elapsed_ms
}

/// The record belongs to the given upstream (`None` is the single-origin
/// ledger).
pub open spec fn of_mirror(r: RequestRecord, m: Option<Seq<char>>) -> bool {
    match (r.mirror_id, m) {
        (Some(x), Some(y)) => x@ == y,
        (None, None) => true,
        _ => false,
    }
}

/// The records of `s` under mirror `m`, in append order.
pub open spec fn mirror_records(s: Seq<RequestRecord>, m: Option<Seq<char>>) -> Seq<
    RequestRecord,
>
    decreases s.len(),
{
    if s.len() == 0 {
        Seq::empty()
    } else if of_mirror(s.last(), m) {
        mirror_records(s.drop_last(), m).push(s.last())
    } else {
        mirror_records(s.drop_last(), m)
    }
}

/// The full path a record carries: the URL, with the query string after a
/// `?` when there is one.
pub open spec fn full_path(url: Seq<char>, query: Seq<char>) -> Seq<char> {
    if query.len() == 0 {
        url
    } else {
        url + seq!['?'] + query
    }
}

impl RequestTracker {
    pub fn new() -> (r: RequestTracker)
        ensures
            r.records@ == Seq::<RequestRecord>::empty(),
    {
        RequestTracker { records: Vec::new() }
    }

    /// Appends the record of a cache hit: a success that cost nothing.
    pub fn track_cached(&mut self, mirror_id: Option<&str>, now: u64, url: &str, query: &str)
        ensures
            final(self).records@.len() == old(self).records@.len() + 1,
            final(self).records@.drop_last() == old(self).records@,
            ({
                let r = final(self).records@.last();
                &&& of_mirror(
                    r,
                    match mirror_id {
                        Some(m) => Some(m@),
                        None => None,
                    },
                )
                &&& r.timestamp == now
                &&& r.path@ == full_path(url@, query@)
                &&& r.success == true
                &&& r.cache_hit == true
                &&& r.elapsed_ms == 0
            }),
    {
        let path = join_query(url, query);
        let rec = RequestRecord {
            mirror_id: copy_mirror(mirror_id),
            timestamp: now,
            path,
            success: true,
            cache_hit: true,
            elapsed_ms: 0,
        };
        self.records.push(rec);
        proof {
            assert(final(self).records@.drop_last() =~= old(self).records@);
        }
    }

    /// Appends the record of a request that went to the network.
    pub fn track(
        &mut self,
        mirror_id: Option<&str>,
        now: u64,
        url: &str,
        query: &str,
        success: bool,
        elapsed_ms: u64,
    )
        ensures
            final(self).records@.len() == old(self).records@.len() + 1,
            final(self).records@.drop_last() == old(self).records@,
            ({
                let r = final(self).records@.last();
                &&& of_mirror(
                    r,
                    match mirror_id {
                        Some(m) => Some(m@),
                        None => None,
                    },
                )
                &&& r.timestamp == now
                &&& r.path@ == full_path(url@, query@)
                &&& r.success == success
                &&& r.cache_hit == false
                &&& r.elapsed_ms == elapsed_ms
            }),
    {
        let path = join_query(url, query);
        let rec = RequestRecord {
            mirror_id: copy_mirror(mirror_id),
            timestamp: now,
            path,
            success,
            cache_hit: false,
            elapsed_ms,
        };
        self.records.push(rec);
        proof {
            assert(final(self).records@.drop_last() =~= old(self).records@);
        }
    }

    /// The most recent records of one upstream, newest first, at most
    /// `limit` of them.
    pub fn get_requests(&self, mirror_id: Option<&str>, limit: usize) -> (r: Vec<RequestRecord>)
        ensures
            ({
                let sel = mirror_records(
                    self.records@,
                    match mirror_id {
                        Some(m) => Some(m@),
                        None => None,
                    },
                );
                &&& r@.len() == (if sel.len() <= limit {
                    sel.len()
                } else {
                    limit as nat
                })
                &&& forall|k: int|
                    0 <= k < r@.len() ==> rec_eq(#[trigger] r@[k], sel[sel.len() - 1 - k])
            }),
    {
        let ghost m: Option<Seq<char>> = match mirror_id {
            Some(mm) => Some(mm@),
            None => None,
        };
        let ghost whole = mirror_records(self.records@, m);
        let n = self.records.len();
        let mut out: Vec<RequestRecord> = Vec::new();
        let mut i: usize = n;
        proof {
            assert(self.records@.take(n as int) =~= self.records@);
        }
        while i > 0 && out.len() < limit
            invariant
                0 <= i <= n == self.records@.len(),
                whole == mirror_records(self.records@, m),
                m == (match mirror_id {
                    Some(mm) => Some(mm@),
                    None => None,
                }),
                mirror_records(self.records@.take(i as int), m).len() + out@.len() >= whole.len()
                    || out@.len() == limit,
                out@.len() <= limit,
                out@.len() <= whole.len() - mirror_records(self.records@.take(i as int), m).len(),
                forall|k: int|
                    0 <= k < out@.len() ==> rec_eq(#[trigger] out@[k], whole[whole.len() - 1 - k]),
                mirror_records(self.records@.take(i as int), m) == whole.take(
                    whole.len() - out@.len(),
                ),
            decreases i,
        {
            i = i - 1;
            proof {
                assert(self.records@.take(i + 1).drop_last() =~= self.records@.take(i as int));
                assert(self.records@.take(i + 1).last() == self.records@[i as int]);
            }
            let matches = match (mirror_id, &self.records[i].mirror_id) {
                (Some(mm), Some(rm)) => crate::strutil::str_eq(rm.as_str(), mm),
                (None, None) => true,
                _ => false,
            };
            if matches {
                let ghost pre = mirror_records(self.records@.take(i as int), m);
                proof {
                    let ll = whole.len() - out@.len();
                    assert(mirror_records(self.records@.take(i + 1), m) == pre.push(
                        self.records@[i as int],
                    ));
                    assert(pre.push(self.records@[i as int]) == whole.take(ll));
                    assert(ll >= 1);
                    assert(pre =~= pre.push(self.records@[i as int]).drop_last());
                    assert(whole.take(ll).drop_last() =~= whole.take(ll - 1));
                    assert(pre =~= whole.take(ll - 1));
                    assert(whole.take(ll).last() == whole[ll - 1]);
                    assert(whole[ll - 1] == self.records@[i as int]);
                }
                let rec = clone_record(&self.records[i]);
                out.push(rec);
            } else {
                proof {
                    assert(mirror_records(self.records@.take(i + 1), m) == mirror_records(
                        self.records@.take(i as int),
                        m,
                    ));
                }
            }
        }
        proof {
            if i == 0 {
                assert(self.records@.take(0) =~= Seq::<RequestRecord>::empty());
                assert(mirror_records(self.records@.take(0), m) =~= Seq::<
                    RequestRecord,
                >::empty());
                assert(whole.take(whole.len() - out@.len()) =~= Seq::<RequestRecord>::empty());
            }
        }
        out
    }
}

fn copy_mirror(m: Option<&str>) -> (r: Option<String>)
    ensures
        match (m, r) {
            (Some(a), Some(b)) => a@ == b@,
            (None, None) => true,
            _ => false,
        },
{
    match m {
        Some(s) => Some((s).to_owned()),
        None => None,
    }
}

fn clone_record(r: &RequestRecord) -> (out: RequestRecord)
    ensures
        rec_eq(*r, out),
{
    RequestRecord {
        mirror_id: match &r.mirror_id {
            Some(s) => Some(crate::strutil::clone_string(s)),
            None => None,
        },
        timestamp: r.timestamp,
        path: crate::strutil::clone_string(&r.path),
        success: r.success,
        cache_hit: r.cache_hit,
        elapsed_ms: r.elapsed_ms,
    }
}

/// Builds `url?query`, or just `url` when the query is empty.
fn join_query(url: &str, query: &str) -> (r: String)
    ensures
        r@ == full_path(url@, query@),
{
    if query.is_empty() {
        return (url).to_owned();
    }
    let mut s = (url).to_owned();
    crate::strutil::push_char(&mut s, '?');
    crate::strutil::push_str(&mut s, query);
    s
}

} // verus!
