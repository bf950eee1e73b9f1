//! The keyed, size-bounded, expiring cache index.
//!
//! The index is the authority over what is cached: it tracks, per compound
//! key `(url, query)`, the file name holding the decoded artifact, the
//! instant the entry expires, and its size in bytes.  The sum of the live
//! entries' sizes never exceeds `max_size`, an expired entry is never
//! handed out, and eviction takes the entry whose expiration comes first.
//! Callers carry out the file writes and deletions that the operations
//! report; instants are milliseconds on the caller's clock.

use vstd::prelude::*;

use crate::Error;

verus! {

pub struct CacheEntry {
    pub url: String,
    pub query: String,
    /// File name under the cache directory.
    pub name: String,
    /// Instant (milliseconds) at which the entry lapses.
    pub expiration: u64,
    pub data_size: u64,
}

pub struct Cache {
    pub max_size: u64,
    pub total_size: u64,
    pub entries: Vec<CacheEntry>,
}

/// Total of the sizes recorded in `s`.
pub open spec fn sum_sizes(s: Seq<CacheEntry>) -> int
    decreases s.len(),
{
    if s.len() == 0 {
        0
    } else {
        sum_sizes(s.drop_last()) + s.last().data_size
    }
}

/// The entries of `s` whose expiration is strictly after `now`, in order.
pub open spec fn live_entries(s: Seq<CacheEntry>, now: u64) -> Seq<CacheEntry>
    decreases s.len(),
{
    if s.len() == 0 {
        Seq::empty()
    } else if s.last().expiration > now {
        live_entries(s.drop_last(), now).push(s.last())
    } else {
        live_entries(s.drop_last(), now)
    }
}

/// File names of the entries of `s` whose expiration is not strictly
/// after `now`, in order.
pub open spec fn expired_names(s: Seq<CacheEntry>, now: u64) -> Seq<Seq<char>>
    decreases s.len(),
{
    if s.len() == 0 {
        Seq::empty()
    } else if s.last().expiration > now {
        expired_names(s.drop_last(), now)
    } else {
        expired_names(s.drop_last(), now).push(s.last().name@)
    }
}

/// Entry `i` carries the key `(url, query)`.
pub open spec fn has_key(s: Seq<CacheEntry>, i: int, url: Seq<char>, query: Seq<char>) -> bool {
    0 <= i < s.len() && s[i].url@ == url && s[i].query@ == query
}

/// Index of the entry keyed `(url, query)`, if any.
pub open spec fn key_index(s: Seq<CacheEntry>, url: Seq<char>, query: Seq<char>) -> Option<int> {
    if exists|i: int| has_key(s, i, url, query) {
        Some(choose|i: int| has_key(s, i, url, query))
    } else {
        None
    }
}

impl Cache {
    /// One live entry per key, and `total_size` accounts for the entries
    /// exactly and stays within `max_size`.
    pub open spec fn wf(self) -> bool {
        &&& self.total_size == sum_sizes(self.entries@)
        &&& self.total_size <= self.max_size
        &&& forall|i: int, j: int|
            0 <= i < j < self.entries@.len() ==> !(#[trigger] self.entries@[i].url@
                == #[trigger] self.entries@[j].url@ && self.entries@[i].query@
                == self.entries@[j].query@)
    }

    pub open spec fn entries_view(self) -> Seq<CacheEntry> {
        self.entries@
    }

    /// A fresh index: nothing cached, nothing counted.
    pub fn new(max_size: u64) -> (r: Cache)
        ensures
            r.wf(),
            r.max_size == max_size,
            r.total_size == 0,
            r.entries_view() == Seq::<CacheEntry>::empty(),
    {
        Cache { max_size, total_size: 0, entries: Vec::new() }
    }

    /// Number of live entries.
    pub fn len(&self) -> (r: usize)
        ensures
            r == self.entries_view().len(),
    {
        self.entries.len()
    }
}

} // verus!

verus! {

/// No two entries of `s` carry the same `(url, query)` key.
pub open spec fn unique_keys(s: Seq<CacheEntry>) -> bool {
    forall|i: int, j: int|
        0 <= i < j < s.len() ==> !(#[trigger] s[i].url@ == #[trigger] s[j].url@ && s[i].query@
            == s[j].query@)
}

pub proof fn lemma_sum_sizes_nonneg(s: Seq<CacheEntry>)
    ensures
        sum_sizes(s) >= 0,
    decreases s.len(),
{
    if s.len() > 0 {
        lemma_sum_sizes_nonneg(s.drop_last());
    }
}

/// Removing entry `i` takes exactly its size out of the total.
pub proof fn lemma_sum_sizes_remove(s: Seq<CacheEntry>, i: int)
    requires
        0 <= i < s.len(),
    ensures
        sum_sizes(s.remove(i)) == sum_sizes(s) - s[i].data_size,
    decreases s.len(),
{
    if i == s.len() - 1 {
        assert(s.remove(i) =~= s.drop_last());
    } else {
        assert(s.remove(i).drop_last() =~= s.drop_last().remove(i));
        assert(s.remove(i).last() == s.last());
        lemma_sum_sizes_remove(s.drop_last(), i);
    }
}

/// Every live entry is an entry of the original sequence.
pub proof fn lemma_live_subset(s: Seq<CacheEntry>, now: u64)
    ensures
        forall|k: int|
            0 <= k < live_entries(s, now).len() ==> exists|j: int|
                0 <= j < s.len() && #[trigger] live_entries(s, now)[k] == s[j],
    decreases s.len(),
{
    if s.len() > 0 {
        let d = s.drop_last();
        lemma_live_subset(d, now);
        assert forall|k: int| 0 <= k < live_entries(s, now).len() implies exists|j: int|
            0 <= j < s.len() && #[trigger] live_entries(s, now)[k] == s[j] by {
            if s.last().expiration > now && k == live_entries(s, now).len() - 1 {
                assert(live_entries(s, now)[k] == s[s.len() - 1]);
            } else {
                assert(live_entries(s, now)[k] == live_entries(d, now)[k]);
                let j = choose|j: int| 0 <= j < d.len() && live_entries(d, now)[k] == d[j];
                assert(live_entries(s, now)[k] == s[j]);
            }
        }
    }
}

/// Dropping expired entries cannot create a duplicate key.
pub proof fn lemma_live_unique(s: Seq<CacheEntry>, now: u64)
    requires
        unique_keys(s),
    ensures
        unique_keys(live_entries(s, now)),
    decreases s.len(),
{
    if s.len() > 0 {
        let d = s.drop_last();
        assert(forall|i: int| 0 <= i < d.len() ==> d[i] == #[trigger] s[i]);
        assert(unique_keys(d));
        lemma_live_unique(d, now);
        lemma_live_subset(d, now);
        let ld = live_entries(d, now);
        if s.last().expiration > now {
            assert forall|i: int, j: int|
                0 <= i < j < live_entries(s, now).len() implies !(
            #[trigger] live_entries(s, now)[i].url@ == #[trigger] live_entries(
                s,
                now,
            )[j].url@ && live_entries(s, now)[i].query@ == live_entries(s, now)[j].query@) by {
                if j == live_entries(s, now).len() - 1 {
                    assert(live_entries(s, now)[j] == s[s.len() - 1]);
                    assert(live_entries(s, now)[i] == ld[i]);
                    let j0 = choose|j0: int| 0 <= j0 < d.len() && ld[i] == d[j0];
                    assert(ld[i] == s[j0]);
                } else {
                    assert(live_entries(s, now)[i] == ld[i]);
                    assert(live_entries(s, now)[j] == ld[j]);
                }
            }
        }
    }
}

/// Every entry still held after a cleanup at `now` expires strictly
/// after `now`.
pub proof fn lemma_live_entries_live(s: Seq<CacheEntry>, now: u64)
    ensures
        forall|k: int|
            0 <= k < live_entries(s, now).len() ==> #[trigger] live_entries(
                s,
                now,
            )[k].expiration > now,
    decreases s.len(),
{
    if s.len() > 0 {
        let d = s.drop_last();
        lemma_live_entries_live(d, now);
        assert forall|k: int| 0 <= k < live_entries(s, now).len() implies #[trigger] live_entries(
            s,
            now,
        )[k].expiration > now by {
            if s.last().expiration > now {
                if k < live_entries(s, now).len() - 1 {
                    assert(live_entries(s, now)[k] == live_entries(d, now)[k]);
                }
            } else {
                assert(live_entries(s, now)[k] == live_entries(d, now)[k]);
            }
        }
    }
}

/// Sizes only shrink when expired entries are dropped.
pub proof fn lemma_live_sum_le(s: Seq<CacheEntry>, now: u64)
    ensures
        sum_sizes(live_entries(s, now)) <= sum_sizes(s),
    decreases s.len(),
{
    if s.len() > 0 {
        let d = s.drop_last();
        lemma_live_sum_le(d, now);
        lemma_sum_sizes_nonneg(live_entries(d, now));
        if s.last().expiration > now {
            assert(live_entries(s, now).drop_last() =~= live_entries(d, now));
            assert(live_entries(s, now).last() == s.last());
        }
    }
}

/// Removing one entry keeps the remaining keys distinct.
pub proof fn lemma_unique_remove(s: Seq<CacheEntry>, i: int)
    requires
        unique_keys(s),
        0 <= i < s.len(),
    ensures
        unique_keys(s.remove(i)),
{
    let t = s.remove(i);
    assert forall|a: int, b: int| 0 <= a < b < t.len() implies !(#[trigger] t[a].url@
        == #[trigger] t[b].url@ && t[a].query@ == t[b].query@) by {
        let a0 = if a < i {
            a
        } else {
            a + 1
        };
        let b0 = if b < i {
            b
        } else {
            b + 1
        };
        assert(t[a] == s[a0]);
        assert(t[b] == s[b0]);
    }
}

impl Cache {
    /// Drops every entry whose expiration is not strictly after `now`
    /// and reports the file
    /// names the caller must delete.
    pub fn cleanup(&mut self, now: u64) -> (removed: Vec<String>)
        requires
            old(self).wf(),
        ensures
            final(self).wf(),
            final(self).max_size == old(self).max_size,
            final(self).entries@ == live_entries(old(self).entries@, now),
            final(self).total_size == sum_sizes(final(self).entries@),
            removed@.map_values(|n: String| n@) == expired_names(old(self).entries@, now),
    {
        let ghost orig = self.entries@;
        let mut removed: Vec<String> = Vec::new();
        let mut i: usize = 0;
        let ghost mut p: int = 0;
        while i < self.entries.len()
            invariant
                self.wf(),
                self.max_size == old(self).max_size,
                0 <= p <= orig.len(),
                i == live_entries(orig.take(p), now).len(),
                self.entries@ == live_entries(orig.take(p), now) + orig.skip(p),
                removed@.map_values(|n: String| n@) == expired_names(orig.take(p), now),
            decreases orig.len() - p,
        {
            proof {
                assert(orig.take(p + 1).drop_last() =~= orig.take(p));
                assert(orig.take(p + 1).last() == orig[p]);
                assert(self.entries@[i as int] == orig[p]);
            }
            let expired = self.entries[i].expiration <= now;
            if expired {
                let ghost pre = self.entries@;
                let e = self.entries.remove(i);
                proof {
                    lemma_sum_sizes_remove(pre, i as int);
                    lemma_sum_sizes_nonneg(pre.remove(i as int));
                    lemma_unique_remove(pre, i as int);
                }
                self.total_size = self.total_size - e.data_size;
                removed.push(e.name);
                proof {
                    assert(self.entries@ =~= live_entries(orig.take(p + 1), now) + orig.skip(
                        p + 1,
                    ));
                    assert(removed@.map_values(|n: String| n@) =~= expired_names(
                        orig.take(p + 1),
                        now,
                    ));
                    p = p + 1;
                }
            } else {
                i = i + 1;
                proof {
                    assert(self.entries@ =~= live_entries(orig.take(p + 1), now) + orig.skip(
                        p + 1,
                    ));
                    assert(removed@.map_values(|n: String| n@) =~= expired_names(
                        orig.take(p + 1),
                        now,
                    ));
                    p = p + 1;
                }
            }
        }
        proof {
            assert(orig.take(p) =~= orig);
            assert(orig.skip(p) =~= Seq::<CacheEntry>::empty());
            assert(self.entries@ =~= live_entries(orig, now));
        }
        removed
    }
}

} // verus!

verus! {

/// Entry `i` lapses no later than any other and earlier than all before it.
pub open spec fn is_first_min(s: Seq<CacheEntry>, i: int) -> bool {
    &&& 0 <= i < s.len()
    &&& forall|j: int| 0 <= j < s.len() ==> #[trigger] s[j].expiration >= s[i].expiration
    &&& forall|j: int| 0 <= j < i ==> #[trigger] s[j].expiration > s[i].expiration
}

pub proof fn lemma_first_min_unique(s: Seq<CacheEntry>, i: int, j: int)
    requires
        is_first_min(s, i),
        is_first_min(s, j),
    ensures
        i == j,
{
    if i < j {
        assert(s[i].expiration > s[j].expiration);
        assert(s[i].expiration >= s[j].expiration);
    } else if j < i {
        assert(s[j].expiration > s[i].expiration);
        assert(s[j].expiration >= s[i].expiration);
    }
}

/// `a + b`, clamped into `u64`.
pub open spec fn sat_add64(a: u64, b: u64) -> u64 {
    if a + b > u64::MAX {
        u64::MAX
    } else {
        (a + b) as u64
    }
}

/// The entries left after evicting, earliest expiration first, until
/// `need` more bytes fit under `max` or nothing is left.
pub open spec fn evict_for(s: Seq<CacheEntry>, need: int, max: int) -> Seq<CacheEntry>
    decreases s.len(),
{
    if sum_sizes(s) + need <= max || s.len() == 0 {
        s
    } else {
        let i = choose|i: int| is_first_min(s, i);
        if 0 <= i < s.len() {
            evict_for(s.remove(i), need, max)
        } else {
            s
        }
    }
}

/// The file names those evictions give up, in eviction order.
pub open spec fn evicted_names(s: Seq<CacheEntry>, need: int, max: int) -> Seq<Seq<char>>
    decreases s.len(),
{
    if sum_sizes(s) + need <= max || s.len() == 0 {
        Seq::empty()
    } else {
        let i = choose|i: int| is_first_min(s, i);
        if 0 <= i < s.len() {
            seq![s[i].name@] + evicted_names(s.remove(i), need, max)
        } else {
            Seq::empty()
        }
    }
}

/// A nonempty sequence has a first minimum.
pub proof fn lemma_first_min_exists(s: Seq<CacheEntry>)
    requires
        s.len() > 0,
    ensures
        exists|i: int| is_first_min(s, i),
    decreases s.len(),
{
    if s.len() == 1 {
        assert(is_first_min(s, 0));
    } else {
        let d = s.drop_last();
        lemma_first_min_exists(d);
        let i = choose|i: int| is_first_min(d, i);
        assert(forall|j: int| 0 <= j < d.len() ==> d[j] == #[trigger] s[j]);
        if s.last().expiration < s[i].expiration {
            assert(is_first_min(s, s.len() - 1));
        } else {
            assert(is_first_min(s, i));
        }
    }
}

impl Cache {
    /// Index of the entry under the key, if one is held.
    fn find_index(&self, url: &str, query: &str) -> (r: Option<usize>)
        ensures
            match r {
                Some(i) => has_key(self.entries@, i as int, url@, query@),
                None => forall|i: int| !has_key(self.entries@, i, url@, query@),
            },
    {
        let n = self.entries.len();
        let mut i: usize = 0;
        while i < n
            invariant
                0 <= i <= n == self.entries@.len(),
                forall|j: int| 0 <= j < i ==> !has_key(self.entries@, j, url@, query@),
            decreases n - i,
        {
            if crate::strutil::str_eq(self.entries[i].url.as_str(), url)
                && crate::strutil::str_eq(self.entries[i].query.as_str(), query) {
                return Some(i);
            }
            i = i + 1;
        }
        None
    }

    /// Takes out the entry at `i`, handing back its file name.
    fn remove_at(&mut self, i: usize) -> (name: String)
        requires
            old(self).wf(),
            i < old(self).entries@.len(),
        ensures
            final(self).wf(),
            final(self).max_size == old(self).max_size,
            final(self).entries@ == old(self).entries@.remove(i as int),
            name@ == old(self).entries@[i as int].name@,
    {
        proof {
            lemma_sum_sizes_remove(self.entries@, i as int);
            lemma_sum_sizes_nonneg(self.entries@.remove(i as int));
            lemma_unique_remove(self.entries@, i as int);
        }
        let e = self.entries.remove(i);
        self.total_size = self.total_size - e.data_size;
        e.name
    }

    /// Evicts the entry whose expiration comes first (the earliest of the
    /// earliest on a tie), if any, and names its file.
    pub fn evict_oldest(&mut self, ) -> (r: Option<String>)
        requires
            old(self).wf(),
        ensures
            final(self).wf(),
            final(self).max_size == old(self).max_size,
            match r {
                Some(name) => exists|i: int|
                    is_first_min(old(self).entries@, i) && final(self).entries@ == old(
                        self,
                    ).entries@.remove(i) && name@ == old(self).entries@[i].name@,
                None => old(self).entries@.len() == 0 && final(self).entries@ == old(
                    self,
                ).entries@,
            },
    {
        let n = self.entries.len();
        if n == 0 {
            return None;
        }
        let mut best: usize = 0;
        let mut i: usize = 1;
        while i < n
            invariant
                0 <= best < i <= n == self.entries@.len(),
                forall|j: int|
                    0 <= j < i ==> #[trigger] self.entries@[j].expiration
                        >= self.entries@[best as int].expiration,
                forall|j: int|
                    0 <= j < best ==> #[trigger] self.entries@[j].expiration
                        > self.entries@[best as int].expiration,
            decreases n - i,
        {
            if self.entries[i].expiration < self.entries[best].expiration {
                best = i;
            }
            i = i + 1;
        }
        proof {
            assert(is_first_min(self.entries@, best as int));
        }
        Some(self.remove_at(best))
    }
}

} // verus!

verus! {

/// The held entries without the one under the key, if it was held.
pub open spec fn spec_remove_key(s: Seq<CacheEntry>, url: Seq<char>, query: Seq<char>) -> Seq<
    CacheEntry,
> {
    match key_index(s, url, query) {
        Some(i) => s.remove(i),
        None => s,
    }
}

/// The file name that removing the key gives up, if it was held.
pub open spec fn removed_key_names(s: Seq<CacheEntry>, url: Seq<char>, query: Seq<char>) -> Seq<
    Seq<char>,
> {
    match key_index(s, url, query) {
        Some(i) => seq![s[i].name@],
        None => Seq::empty(),
    }
}

/// Under distinct keys an index with a given key is the only one.
pub proof fn lemma_key_index_unique(s: Seq<CacheEntry>, url: Seq<char>, query: Seq<char>, i: int)
    requires
        unique_keys(s),
        has_key(s, i, url, query),
    ensures
        key_index(s, url, query) == Some(i),
{
    let w = choose|w: int| has_key(s, w, url, query);
    if w < i {
        assert(!(s[w].url@ == s[i].url@ && s[w].query@ == s[i].query@));
    } else if i < w {
        assert(!(s[i].url@ == s[w].url@ && s[i].query@ == s[w].query@));
    }
}

/// Eviction only ever hands back entries it was given.
pub proof fn lemma_evict_subset(s: Seq<CacheEntry>, need: int, max: int)
    ensures
        forall|k: int|
            0 <= k < evict_for(s, need, max).len() ==> exists|j: int|
                0 <= j < s.len() && #[trigger] evict_for(s, need, max)[k] == s[j],
    decreases s.len(),
{
    if !(sum_sizes(s) + need <= max || s.len() == 0) {
        let i = choose|i: int| is_first_min(s, i);
        if 0 <= i < s.len() {
            let t = s.remove(i);
            lemma_evict_subset(t, need, max);
            assert forall|k: int| 0 <= k < evict_for(s, need, max).len() implies exists|j: int|
                0 <= j < s.len() && #[trigger] evict_for(s, need, max)[k] == s[j] by {
                assert(evict_for(s, need, max) == evict_for(t, need, max));
                let j0 = choose|j0: int| 0 <= j0 < t.len() && evict_for(t, need, max)[k] == t[j0];
                if j0 < i {
                    assert(evict_for(s, need, max)[k] == s[j0]);
                } else {
                    assert(t[j0] == s[j0 + 1]);
                    assert(evict_for(s, need, max)[k] == s[j0 + 1]);
                }
            }
        }
    } else {
        assert forall|k: int| 0 <= k < evict_for(s, need, max).len() implies exists|j: int|
            0 <= j < s.len() && #[trigger] evict_for(s, need, max)[k] == s[j] by {
            assert(evict_for(s, need, max)[k] == s[k]);
        }
    }
}

/// Eviction keeps keys distinct.
pub proof fn lemma_evict_unique(s: Seq<CacheEntry>, need: int, max: int)
    requires
        unique_keys(s),
    ensures
        unique_keys(evict_for(s, need, max)),
    decreases s.len(),
{
    if !(sum_sizes(s) + need <= max || s.len() == 0) {
        let i = choose|i: int| is_first_min(s, i);
        if 0 <= i < s.len() {
            lemma_unique_remove(s, i);
            lemma_evict_unique(s.remove(i), need, max);
        }
    }
}

/// Relies on uuid's `Uuid::new_v4` and its hyphenated rendering, which is
/// 36 ASCII characters, for fresh cache file names.
#[verifier::external_body]
fn fresh_name() -> (r: String)
    ensures
        r@.len() == 36,
{
    uuid::Uuid::new_v4().to_string()
}

impl Cache {
    /// Stores a value of `data_size` bytes under `(url, query)` with the
    /// given lifetime: expired entries lapse, an entry already under the
    /// key is replaced, then entries expiring soonest are evicted until
    /// the value fits, else nothing is stored and `CacheNoSpace` comes
    /// back.  The first result names every file the caller must delete;
    /// on success the second names the fresh file to write.
    pub fn put(&mut self, now: u64, url: &str, query: &str, lifetime_ms: u64, data_size: u64) -> (r:
        (Vec<String>, Result<String, Error>))
        requires
            old(self).wf(),
        ensures
            final(self).wf(),
            final(self).max_size == old(self).max_size,
            ({
                let cleaned = live_entries(old(self).entries@, now);
                let keyless = spec_remove_key(cleaned, url@, query@);
                let ready = evict_for(keyless, data_size as int, old(self).max_size as int);
                &&& (match r.1 {
                    Ok(name) => {
                        &&& sum_sizes(ready) + data_size <= old(self).max_size
                        &&& final(self).entries@.len() == ready.len() + 1
                        &&& final(self).entries@.drop_last() == ready
                        &&& final(self).entries@.last().url@ == url@
                        &&& final(self).entries@.last().query@ == query@
                        &&& final(self).entries@.last().name@ == name@
                        &&& final(self).entries@.last().expiration == sat_add64(now, lifetime_ms)
                        &&& final(self).entries@.last().data_size == data_size
                    },
                    Err(e) => {
                        &&& e == Error::CacheNoSpace
                        &&& sum_sizes(ready) + data_size > old(self).max_size
                        &&& final(self).entries@ == ready
                    },
                })
                &&& r.0@.map_values(|n: String| n@) == expired_names(old(self).entries@, now)
                    + removed_key_names(cleaned, url@, query@) + evicted_names(
                    keyless,
                    data_size as int,
                    old(self).max_size as int,
                )
            }),
    {
        let ghost orig = self.entries@;
        let ghost cleaned = live_entries(orig, now);
        let ghost need = data_size as int;
        let ghost maxi = self.max_size as int;
        let mut removed = self.cleanup(now);
        proof {
            lemma_live_unique(orig, now);
        }
        match self.find_index(url, query) {
            Some(i) => {
                proof {
                    lemma_key_index_unique(self.entries@, url@, query@, i as int);
                }
                let name = self.remove_at(i);
                removed.push(name);
                proof {
                    assert(removed@.map_values(|n: String| n@) =~= expired_names(orig, now)
                        + removed_key_names(cleaned, url@, query@));
                }
            },
            None => {
                proof {
                    assert(spec_remove_key(cleaned, url@, query@) == cleaned);
                    assert(removed@.map_values(|n: String| n@) =~= expired_names(orig, now)
                        + removed_key_names(cleaned, url@, query@));
                }
            },
        }
        let ghost keyless = self.entries@;
        let ghost pre_evict_removed = removed@.map_values(|n: String| n@);
        while data_size > self.max_size - self.total_size && self.entries.len() > 0
            invariant
                self.wf(),
                self.max_size == old(self).max_size,
                evict_for(keyless, need, maxi) == evict_for(self.entries@, need, maxi),
                need == data_size as int,
                maxi == self.max_size as int,
                removed@.map_values(|n: String| n@) =~= pre_evict_removed + evicted_names(
                    keyless,
                    need,
                    maxi,
                ).take(evicted_names(keyless, need, maxi).len() - evicted_names(
                    self.entries@,
                    need,
                    maxi,
                ).len()),
                evicted_names(keyless, need, maxi).len() >= evicted_names(
                    self.entries@,
                    need,
                    maxi,
                ).len(),
                evicted_names(keyless, need, maxi).skip(
                    evicted_names(keyless, need, maxi).len() - evicted_names(
                        self.entries@,
                        need,
                        maxi,
                    ).len(),
                ) =~= evicted_names(self.entries@, need, maxi),
            decreases self.entries@.len(),
        {
            let ghost cur = self.entries@;
            proof {
                lemma_first_min_exists(cur);
            }
            match self.evict_oldest() {
                Some(name) => {
                    let ghost prior_map = removed@.map_values(|n: String| n@);
                    removed.push(name);
                    proof {
                        let iw = choose|i: int| is_first_min(cur, i);
                        let ie = choose|i: int|
                            is_first_min(cur, i) && self.entries@ == cur.remove(i) && name@
                                == cur[i].name@;
                        lemma_first_min_unique(cur, iw, ie);
                        assert(evict_for(cur, need, maxi) == evict_for(self.entries@, need, maxi));
                        let ek = evicted_names(keyless, need, maxi);
                        let ec = evicted_names(cur, need, maxi);
                        let en = evicted_names(self.entries@, need, maxi);
                        assert(ec == seq![cur[iw].name@] + en);
                        let d = ek.len() - ec.len();
                        assert(ek.skip(d) =~= ec);
                        assert(ek.skip(d + 1) =~= ek.skip(d).skip(1));
                        assert(ek.skip(d).skip(1) =~= ec.skip(1));
                        assert(ec.skip(1) =~= en);
                        assert(ek.skip(d + 1) =~= en);
                        assert(ek[d] == ek.skip(d)[0]);
                        assert(ec[0] == name@);
                        assert(ek.take(d + 1) =~= ek.take(d).push(ek[d]));
                        assert(removed@.map_values(|n: String| n@) =~= prior_map.push(name@));
                        assert(prior_map == pre_evict_removed + ek.take(d));
                        assert(prior_map.push(name@) =~= pre_evict_removed + ek.take(d + 1));
                    }
                },
                None => {
                    proof {
                        assert(false);
                    }
                },
            }
        }
        proof {
            assert(evict_for(self.entries@, need, maxi) == self.entries@);
            assert(evicted_names(self.entries@, need, maxi) =~= Seq::<Seq<char>>::empty());
            assert(removed@.map_values(|n: String| n@) =~= pre_evict_removed + evicted_names(
                keyless,
                need,
                maxi,
            ));
        }
        if data_size > self.max_size - self.total_size {
            return (removed, Err(Error::CacheNoSpace));
        }
        let name = fresh_name();
        let entry = CacheEntry {
            url: (url).to_owned(),
            query: (query).to_owned(),
            name: crate::strutil::clone_string(&name),
            expiration: now.saturating_add(lifetime_ms),
            data_size,
        };
        proof {
            let ready = evict_for(keyless, need, maxi);
            lemma_evict_subset(keyless, need, maxi);
            lemma_evict_unique(keyless, need, maxi);
            assert forall|k: int| 0 <= k < ready.len() implies !(#[trigger] ready[k].url@ == url@
                && ready[k].query@ == query@) by {
                let j = choose|j: int| 0 <= j < keyless.len() && ready[k] == keyless[j];
                if key_index(cleaned, url@, query@) is Some {
                    let ki = key_index(cleaned, url@, query@)->Some_0;
                    lemma_unique_remove(cleaned, ki);
                    if has_key(keyless, j, url@, query@) {
                        let j0 = if j < ki {
                            j
                        } else {
                            j + 1
                        };
                        assert(keyless[j] == cleaned[j0]);
                        lemma_key_index_unique(cleaned, url@, query@, j0);
                    }
                } else {
                    assert(!has_key(cleaned, j, url@, query@));
                }
            }
        }
        self.entries.push(entry);
        self.total_size = self.total_size + data_size;
        proof {
            assert(self.entries@.drop_last() =~= evict_for(keyless, need, maxi));
            assert(sum_sizes(self.entries@) == sum_sizes(self.entries@.drop_last()) + data_size);
        }
        (removed, Ok(name))
    }

    /// Looks the key up after lapsing expired entries: the result names
    /// the file to read, and is absent exactly when nothing live is held
    /// under the key.
    pub fn get(&mut self, now: u64, url: &str, query: &str) -> (r: (Vec<String>, Option<String>))
        requires
            old(self).wf(),
        ensures
            final(self).wf(),
            final(self).max_size == old(self).max_size,
            final(self).entries@ == live_entries(old(self).entries@, now),
            r.0@.map_values(|n: String| n@) == expired_names(old(self).entries@, now),
            match r.1 {
                Some(name) => (exists|i: int|
                    {
                        &&& has_key(final(self).entries@, i, url@, query@)
                        &&& final(self).entries@[i].name@ == name@
                        &&& final(self).entries@[i].expiration > now
                    }),
                None => forall|i: int| !has_key(final(self).entries@, i, url@, query@),
            },
    {
        let removed = self.cleanup(now);
        proof {
            lemma_live_entries_live(old(self).entries@, now);
        }
        match self.find_index(url, query) {
            Some(i) => {
                let name = crate::strutil::clone_string(&self.entries[i].name);
                (removed, Some(name))
            },
            None => (removed, None),
        }
    }
}

} // verus!

verus! {

/// Law: a value stored under one query is invisible to any other query.
/// If nothing was held under `(url, q2)`, then after a `put` under
/// `(url, q1)` with `q1 != q2`, a `get` under `(url, q2)` still finds
/// nothing.
pub proof fn lemma_cache_key_isolation(
    pre: Seq<CacheEntry>,
    post: Seq<CacheEntry>,
    now: u64,
    url: Seq<char>,
    q1: Seq<char>,
    q2: Seq<char>,
    need: int,
    max: int,
)
    requires
        q1 != q2,
        forall|i: int| !has_key(pre, i, url, q2),
        post.len() >= 1,
        post.drop_last() == evict_for(spec_remove_key(live_entries(pre, now), url, q1), need, max),
        post.last().url@ == url,
        post.last().query@ == q1,
    ensures
        forall|i: int| !has_key(post, i, url, q2),
{
    let cleaned = live_entries(pre, now);
    let keyless = spec_remove_key(cleaned, url, q1);
    let ready = evict_for(keyless, need, max);
    lemma_live_subset(pre, now);
    lemma_evict_subset(keyless, need, max);
    assert forall|i: int| !has_key(post, i, url, q2) by {
        if 0 <= i < post.len() {
            if i == post.len() - 1 {
                assert(post[i].query@ == q1);
            } else {
                assert(post[i] == ready[i]);
                let j = choose|j: int| 0 <= j < keyless.len() && ready[i] == keyless[j];
                match key_index(cleaned, url, q1) {
                    Some(w) => {
                        let j0 = if j < w {
                            j
                        } else {
                            j + 1
                        };
                        assert(keyless[j] == cleaned[j0]);
                        let k = choose|k: int| 0 <= k < pre.len() && cleaned[j0] == pre[k];
                        assert(!has_key(pre, k, url, q2));
                    },
                    None => {
                        let k = choose|k: int| 0 <= k < pre.len() && cleaned[j] == pre[k];
                        assert(!has_key(pre, k, url, q2));
                    },
                }
            }
        }
    }
}

} // verus!

verus! {

/// Law: in a well-formed cache the recorded total is exactly the sum of
/// the live entries' sizes, and it never exceeds the budget.
pub proof fn lemma_total_size_accounts(c: Cache)
    requires
        c.wf(),
    ensures
        c.total_size == sum_sizes(c.entries@),
        c.total_size <= c.max_size,
{
}

} // verus!

verus! {

/// Law: an entry whose expiration is not strictly after `now` is gone
/// after any cleanup at `now`: it is not among the entries kept (those
/// all expire strictly after `now`), and its file name is among the names
/// reported for deletion.
pub proof fn lemma_expired_entry_removed(s: Seq<CacheEntry>, now: u64, i: int)
    requires
        0 <= i < s.len(),
        s[i].expiration <= now,
    ensures
        forall|k: int|
            0 <= k < live_entries(s, now).len() ==> #[trigger] live_entries(s, now)[k].expiration
                > now,
        exists|k: int|
            0 <= k < expired_names(s, now).len() && #[trigger] expired_names(s, now)[k]
                == s[i].name@,
    decreases s.len(),
{
    lemma_live_entries_live(s, now);
    if i == s.len() - 1 {
        assert(expired_names(s, now).last() == s[i].name@);
    } else {
        let d = s.drop_last();
        assert(d[i] == s[i]);
        lemma_expired_entry_removed(d, now, i);
        let k = choose|k: int|
            0 <= k < expired_names(d, now).len() && #[trigger] expired_names(d, now)[k]
                == d[i].name@;
        assert(expired_names(s, now)[k] == d[i].name@);
    }
}

} // verus!
