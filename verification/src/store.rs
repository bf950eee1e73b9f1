//! The item store and its retrieval queries, and the event log.
//!
//! Items are kept in memory, one per id; inserting an existing id
//! replaces every column.  Retrieval filters by recency, category and
//! remake/trusted flags, sorts by one column, and pages the result with
//! the offset aligned down to the page size.  Persisting either table is
//! the caller's affair.

use vstd::prelude::*;
use vstd::multiset::Multiset;

use crate::data::{Category, Filter, Item, Sort, SortOrder};
use crate::strutil::{clone_opt_string, clone_string};

verus! {

/// One record of the event log.
#[derive(Debug)]
pub struct StoredEvent {
    /// UTC epoch seconds.
    pub date: i64,
    pub event_type: String,
    pub event_data: String,
}

/// The store: items keyed by id, and the append-only event log.
pub struct NyaaContext {
    pub update_interval_ms: u64,
    pub items: Vec<Item>,
    pub events: Vec<StoredEvent>,
}

/// Entry `i` carries the id.
pub open spec fn id_at(s: Seq<Item>, i: int, id: Seq<char>) -> bool {
    0 <= i < s.len() && s[i].id@ == id
}

/// No two items share an id.
pub open spec fn unique_ids(s: Seq<Item>) -> bool {
    forall|i: int, j: int| 0 <= i < j < s.len() ==> (#[trigger] s[i].id@) != (#[trigger] s[j].id@)
}

/// Insert-or-replace of one item by its id.
pub open spec fn upsert_one(s: Seq<Item>, it: Item) -> Seq<Item> {
    if exists|i: int| id_at(s, i, it.id@) {
        s.update(choose|i: int| id_at(s, i, it.id@), it)
    } else {
        s.push(it)
    }
}

/// The items upserted in order.
pub open spec fn upsert_seq(s: Seq<Item>, items: Seq<Item>) -> Seq<Item>
    decreases items.len(),
{
    if items.len() == 0 {
        s
    } else {
        upsert_seq(upsert_one(s, items[0]), items.drop_first())
    }
}

/// Under distinct ids the witness index is the only one.
proof fn lemma_id_index_unique(s: Seq<Item>, id: Seq<char>, i: int)
    requires
        unique_ids(s),
        id_at(s, i, id),
    ensures
        (choose|w: int| id_at(s, w, id)) == i,
{
    let w = choose|w: int| id_at(s, w, id);
    if w < i {
        assert(s[w].id@ != s[i].id@);
    } else if i < w {
        assert(s[i].id@ != s[w].id@);
    }
}

/// Replacing or appending keeps the ids distinct.
proof fn lemma_upsert_unique(s: Seq<Item>, it: Item)
    requires
        unique_ids(s),
    ensures
        unique_ids(upsert_one(s, it)),
{
    if exists|i: int| id_at(s, i, it.id@) {
        let w = choose|i: int| id_at(s, i, it.id@);
        let t = s.update(w, it);
        assert forall|a: int, b: int| 0 <= a < b < t.len() implies (#[trigger] t[a].id@)
            != (#[trigger] t[b].id@) by {
            if a != w && b != w {
                assert(t[a] == s[a] && t[b] == s[b]);
            } else if a == w {
                assert(t[b] == s[b]);
                if s[b].id@ == it.id@ {
                    assert(id_at(s, b, it.id@));
                    lemma_id_index_unique(s, it.id@, b);
                }
            } else {
                assert(t[a] == s[a]);
                if s[a].id@ == it.id@ {
                    assert(id_at(s, a, it.id@));
                    lemma_id_index_unique(s, it.id@, a);
                }
            }
        }
    } else {
        let t = s.push(it);
        assert forall|a: int, b: int| 0 <= a < b < t.len() implies (#[trigger] t[a].id@)
            != (#[trigger] t[b].id@) by {
            if b == t.len() - 1 {
                assert(t[a] == s[a]);
                if s[a].id@ == it.id@ {
                    assert(id_at(s, a, it.id@));
                }
            } else {
                assert(t[a] == s[a] && t[b] == s[b]);
            }
        }
    }
}

impl NyaaContext {
    pub open spec fn wf(self) -> bool {
        unique_ids(self.items@)
    }

    /// An empty store.
    pub fn new(update_interval_ms: u64) -> (r: NyaaContext)
        ensures
            r.wf(),
            r.update_interval_ms == update_interval_ms,
            r.items@ == Seq::<Item>::empty(),
            r.events@ == Seq::<StoredEvent>::empty(),
    {
        NyaaContext { update_interval_ms, items: Vec::new(), events: Vec::new() }
    }

    /// Upserts every given item, in order: an item with a known id
    /// overwrites every column of the stored one, a new id is appended.
    pub fn add_items(&mut self, items: Vec<Item>)
        requires
            old(self).wf(),
        ensures
            final(self).wf(),
            final(self).update_interval_ms == old(self).update_interval_ms,
            final(self).events == old(self).events,
            final(self).items@ == upsert_seq(old(self).items@, items@),
    {
        let ghost all = items@;
        let mut rest = items;
        let ghost mut k: int = 0;
        while rest.len() > 0
            invariant
                self.wf(),
                self.update_interval_ms == old(self).update_interval_ms,
                self.events == old(self).events,
                0 <= k <= all.len(),
                rest@ =~= all.skip(k),
                upsert_seq(old(self).items@, all) == upsert_seq(self.items@, all.skip(k)),
            decreases rest@.len(),
        {
            let it = rest.remove(0);
            proof {
                assert(all.skip(k)[0] == it);
                assert(all.skip(k).drop_first() =~= all.skip(k + 1));
                assert(rest@ =~= all.skip(k + 1));
            }
            let ghost pre = self.items@;
            match self.find_id(&it.id) {
                Some(i) => {
                    proof {
                        lemma_id_index_unique(pre, it.id@, i as int);
                        lemma_upsert_unique(pre, it);
                    }
                    self.items.set(i, it);
                },
                None => {
                    proof {
                        lemma_upsert_unique(pre, it);
                    }
                    self.items.push(it);
                },
            }
            proof {
                assert(self.items@ == upsert_one(pre, all.skip(k)[0]));
                k = k + 1;
            }
        }
        proof {
            assert(all.skip(k) =~= Seq::<Item>::empty());
        }
    }

    /// Index of the item with the id, if it is stored.
    fn find_id(&self, id: &String) -> (r: Option<usize>)
        ensures
            match r {
                Some(i) => id_at(self.items@, i as int, id@),
                None => forall|i: int| !id_at(self.items@, i, id@),
            },
    {
        let n = self.items.len();
        let mut i: usize = 0;
        while i < n
            invariant
                0 <= i <= n == self.items@.len(),
                forall|j: int| 0 <= j < i ==> !id_at(self.items@, j, id@),
            decreases n - i,
        {
            if crate::strutil::str_eq(self.items[i].id.as_str(), id.as_str()) {
                return Some(i);
            }
            i = i + 1;
        }
        None
    }

    /// How many items are stored.
    pub fn get_item_count(&self) -> (r: usize)
        ensures
            r == self.items@.len(),
    {
        self.items.len()
    }

    /// Appends one event to the log.
    pub fn add_event(&mut self, date: i64, event_type: String, event_data: String)
        ensures
            final(self).items == old(self).items,
            final(self).update_interval_ms == old(self).update_interval_ms,
            final(self).events@.len() == old(self).events@.len() + 1,
            final(self).events@.drop_last() == old(self).events@,
            final(self).events@.last().date == date,
            final(self).events@.last().event_type@ == event_type@,
            final(self).events@.last().event_data@ == event_data@,
    {
        self.events.push(StoredEvent { date, event_type, event_data });
        proof {
            assert(final(self).events@.drop_last() =~= old(self).events@);
        }
    }

    /// The most recent events, newest first, at most `limit` of them.
    pub fn get_events(&self, limit: usize) -> (r: Vec<StoredEvent>)
        ensures
            r@.len() == (if self.events@.len() <= limit {
                self.events@.len()
            } else {
                limit as nat
            }),
            forall|k: int|
                0 <= k < r@.len() ==> {
                    let src = self.events@[self.events@.len() - 1 - k];
                    &&& (#[trigger] r@[k]).date == src.date
                    &&& r@[k].event_type@ == src.event_type@
                    &&& r@[k].event_data@ == src.event_data@
                },
    {
        let n = self.events.len();
        let mut out: Vec<StoredEvent> = Vec::new();
        let mut i: usize = n;
        while i > 0 && out.len() < limit
            invariant
                0 <= i <= n == self.events@.len(),
                out@.len() == n - i,
                out@.len() <= limit,
                forall|k: int|
                    0 <= k < out@.len() ==> {
                        let src = self.events@[self.events@.len() - 1 - k];
                        &&& (#[trigger] out@[k]).date == src.date
                        &&& out@[k].event_type@ == src.event_type@
                        &&& out@[k].event_data@ == src.event_data@
                    },
            decreases i,
        {
            i = i - 1;
            let e = StoredEvent {
                date: self.events[i].date,
                event_type: clone_string(&self.events[i].event_type),
                event_data: clone_string(&self.events[i].event_data),
            };
            out.push(e);
        }
        out
    }
}

} // verus!

verus! {

/// The pure view of one stored item.
pub struct ItemView {
    pub id: Seq<char>,
    pub title: Seq<char>,
    pub link: Seq<char>,
    pub date: i64,
    pub seeders: int,
    pub leechers: int,
    pub downloads: int,
    pub category: Category,
    pub size: u64,
    pub comments: int,
    pub trusted: bool,
    pub remake: bool,
    pub download_link: Option<Seq<char>>,
    pub magnet_link: Option<Seq<char>>,
}

/// The view of an item.
pub open spec fn iv(it: Item) -> ItemView {
    ItemView {
        id: it.id@,
        title: it.title@,
        link: it.link@,
        date: it.date,
        seeders: it.seeders as int,
        leechers: it.leechers as int,
        downloads: it.downloads as int,
        category: it.category,
        size: it.size,
        comments: it.comments as int,
        trusted: it.trusted,
        remake: it.remake,
        download_link: crate::query::opt_view(it.download_link),
        magnet_link: crate::query::opt_view(it.magnet_link),
    }
}

/// Whether a retrieval keeps the item.
pub open spec fn keeps(
    v: ItemView,
    since: Option<i64>,
    category: Option<Category>,
    filter: Option<Filter>,
) -> bool {
    &&& (match since {
        Some(t) => v.date > t,
        None => true,
    })
    &&& (match category {
        Some(c) => c == Category::All || v.category == c,
        None => true,
    })
    &&& (match filter {
        Some(f) => match f {
            Filter::NoRemake => !v.remake,
            Filter::Trusted => v.trusted,
            Filter::NoFilter => true,
        },
        None => true,
    })
}

/// The views of the kept items, in store order.
pub open spec fn filtered_views(
    s: Seq<Item>,
    since: Option<i64>,
    category: Option<Category>,
    filter: Option<Filter>,
) -> Seq<ItemView>
    decreases s.len(),
{
    if s.len() == 0 {
        Seq::empty()
    } else if keeps(iv(s.last()), since, category, filter) {
        filtered_views(s.drop_last(), since, category, filter).push(iv(s.last()))
    } else {
        filtered_views(s.drop_last(), since, category, filter)
    }
}

/// The column a retrieval sorts by.
pub open spec fn sort_key(v: ItemView, s: Sort) -> int {
    match s {
        Sort::Date => v.date as int,
        Sort::Seeders => v.seeders,
        Sort::Leechers => v.leechers,
        Sort::Downloads => v.downloads,
        Sort::Size => v.size as int,
    }
}

/// `a` may precede `b` in the requested order.
pub open spec fn key_le(a: ItemView, b: ItemView, s: Sort, o: SortOrder) -> bool {
    match o {
        SortOrder::Ascending => sort_key(a, s) <= sort_key(b, s),
        SortOrder::Descending => sort_key(a, s) >= sort_key(b, s),
    }
}

/// Every adjacent pair is ordered.
pub open spec fn sorted_ok(s: Seq<ItemView>, sort: Sort, o: SortOrder) -> bool {
    forall|k: int| 0 <= k < s.len() - 1 ==> key_le(#[trigger] s[k], s[k + 1], sort, o)
}

fn clone_item(it: &Item) -> (r: Item)
    ensures
        iv(r) == iv(*it),
{
    Item {
        id: clone_string(&it.id),
        title: clone_string(&it.title),
        link: clone_string(&it.link),
        date: it.date,
        seeders: it.seeders,
        leechers: it.leechers,
        downloads: it.downloads,
        category: it.category,
        size: it.size,
        comments: it.comments,
        trusted: it.trusted,
        remake: it.remake,
        download_link: clone_opt_string(&it.download_link),
        magnet_link: clone_opt_string(&it.magnet_link),
    }
}

fn keeps_exec(it: &Item, since: Option<i64>, category: Option<Category>, filter: Option<
    Filter,
>) -> (r: bool)
    ensures
        r == keeps(iv(*it), since, category, filter),
{
    let s_ok = match since {
        Some(t) => it.date > t,
        None => true,
    };
    let c_ok = match category {
        Some(c) => match c {
            Category::All => true,
            _ => c == it.category,
        },
        None => true,
    };
    let f_ok = match filter {
        Some(f) => match f {
            Filter::NoRemake => !it.remake,
            Filter::Trusted => it.trusted,
            Filter::NoFilter => true,
        },
        None => true,
    };
    s_ok && c_ok && f_ok
}

fn key_le_exec(a: &Item, b: &Item, s: Sort, o: SortOrder) -> (r: bool)
    ensures
        r == key_le(iv(*a), iv(*b), s, o),
{
    match o {
        SortOrder::Ascending => {
            match s {
                Sort::Date => a.date <= b.date,
                Sort::Seeders => a.seeders <= b.seeders,
                Sort::Leechers => a.leechers <= b.leechers,
                Sort::Downloads => a.downloads <= b.downloads,
                Sort::Size => a.size <= b.size,
            }
        },
        SortOrder::Descending => {
            match s {
                Sort::Date => a.date >= b.date,
                Sort::Seeders => a.seeders >= b.seeders,
                Sort::Leechers => a.leechers >= b.leechers,
                Sort::Downloads => a.downloads >= b.downloads,
                Sort::Size => a.size >= b.size,
            }
        },
    }
}

impl NyaaContext {
    /// Retrieval: keeps the items the query asks for, sorts them by the
    /// requested column (publication instant descending when
    /// unspecified), and hands back one page, with the offset aligned
    /// down to a multiple of the page size.  The result is the aligned
    /// offset, the page size and the page.
    #[verifier::loop_isolation(false)]
    #[verifier::rlimit(100)]
    pub fn get_items(
        &self,
        offset: Option<usize>,
        count: Option<usize>,
        since: Option<i64>,
        category: Option<Category>,
        filter: Option<Filter>,
        sort: Option<Sort>,
        sort_order: Option<SortOrder>,
    ) -> (r: (usize, usize, Vec<Item>))
        ensures
            r.1 == (match count {
                Some(c) => if c < 1 {
                    1usize
                } else {
                    c
                },
                None => 75usize,
            }),
            r.0 == (match offset {
                Some(o) => (o - (o % r.1)) as usize,
                None => 0usize,
            }),
            ({
                let fv = filtered_views(self.items@, since, category, filter);
                let srt = match sort {
                    Some(s) => s,
                    None => Sort::Date,
                };
                let ord = match sort_order {
                    Some(o) => o,
                    None => SortOrder::Descending,
                };
                exists|sorted: Seq<ItemView>|
                    {
                        &&& #[trigger] sorted.to_multiset() == fv.to_multiset()
                        &&& sorted_ok(sorted, srt, ord)
                        &&& ({
                            let lo = if r.0 as int <= sorted.len() {
                                r.0 as int
                            } else {
                                sorted.len() as int
                            };
                            let hi = if r.0 + r.1 <= sorted.len() {
                                r.0 + r.1
                            } else {
                                sorted.len() as int
                            };
                            r.2@.map_values(|x: Item| iv(x)) == sorted.subrange(lo, hi)
                        })
                    }
            }),
    {
        broadcast use vstd::seq_lib::group_seq_properties;

        let count_v: usize = match count {
            Some(c) => if c < 1 {
                1
            } else {
                c
            },
            None => 75,
        };
        let offset_v: usize = match offset {
            Some(o) => {
                proof {
                    assert(o % count_v <= o) by (nonlinear_arith)
                        requires
                            count_v >= 1,
                    ;
                }
                o - (o % count_v)
            },
            None => 0,
        };
        let srt = match sort {
            Some(s) => s,
            None => Sort::Date,
        };
        let ord = match sort_order {
            Some(o) => o,
            None => SortOrder::Descending,
        };
        let n = self.items.len();
        let mut working: Vec<Item> = Vec::new();
        let mut i: usize = 0;
        let ghost fv = filtered_views(self.items@, since, category, filter);
        while i < n
            invariant
                0 <= i <= n == self.items@.len(),
                working@.map_values(|x: Item| iv(x)) == filtered_views(
                    self.items@.take(i as int),
                    since,
                    category,
                    filter,
                ),
            decreases n - i,
        {
            proof {
                assert(self.items@.take(i + 1).drop_last() =~= self.items@.take(i as int));
                assert(self.items@.take(i + 1).last() == self.items@[i as int]);
            }
            let ghost pre = working@.map_values(|x: Item| iv(x));
            if keeps_exec(&self.items[i], since, category, filter) {
                working.push(clone_item(&self.items[i]));
                proof {
                    assert(working@.map_values(|x: Item| iv(x)) =~= pre.push(
                        iv(self.items@[i as int]),
                    ));
                }
            }
            i = i + 1;
        }
        proof {
            assert(self.items@.take(n as int) =~= self.items@);
        }
        let mut sorted: Vec<Item> = Vec::new();
        while working.len() > 0
            invariant
                sorted@.map_values(|x: Item| iv(x)).to_multiset().add(
                    working@.map_values(|x: Item| iv(x)).to_multiset(),
                ) =~= fv.to_multiset(),
                sorted_ok(sorted@.map_values(|x: Item| iv(x)), srt, ord),
                forall|a: int, b: int|
                    0 <= a < sorted@.len() && 0 <= b < working@.len() ==> key_le(
                        iv(#[trigger] sorted@[a]),
                        iv(#[trigger] working@[b]),
                        srt,
                        ord,
                    ),
            decreases working@.len(),
        {
            let mut best: usize = 0;
            let mut j: usize = 1;
            while j < working.len()
                invariant
                    0 <= best < j <= working@.len(),
                    working@.len() > 0,
                    forall|k: int|
                        0 <= k < j ==> key_le(
                            iv(working@[best as int]),
                            iv(#[trigger] working@[k]),
                            srt,
                            ord,
                        ),
                decreases working@.len() - j,
            {
                if key_le_exec(&working[j], &working[best], srt, ord) {
                    proof {
                        lemma_key_le_total(iv(working@[j as int]), iv(working@[best as int]), srt, ord);
                    }
                    best = j;
                }
                j = j + 1;
            }
            let ghost pre_w = working@.map_values(|x: Item| iv(x));
            let ghost pre_s = sorted@.map_values(|x: Item| iv(x));
            let picked = working.remove(best);
            sorted.push(picked);
            proof {
                broadcast use vstd::seq_lib::group_to_multiset_ensures;

                assert(working@.map_values(|x: Item| iv(x)) =~= pre_w.remove(best as int));
                assert(sorted@.map_values(|x: Item| iv(x)) =~= pre_s.push(iv(sorted@.last())));
                assert(pre_w.remove(best as int).to_multiset() =~= pre_w.to_multiset().remove(
                    pre_w[best as int],
                ));
                assert(pre_s.push(pre_w[best as int]).to_multiset() =~= pre_s.to_multiset().insert(
                    pre_w[best as int],
                ));
                assert(pre_w.to_multiset().count(pre_w[best as int]) >= 1);
                assert(pre_s.to_multiset().insert(pre_w[best as int]).add(
                    pre_w.to_multiset().remove(pre_w[best as int]),
                ) =~= pre_s.to_multiset().add(pre_w.to_multiset()));
                let sv = sorted@.map_values(|x: Item| iv(x));
                assert forall|a: int| 0 <= a < sv.len() - 1 implies key_le(
                    #[trigger] sv[a],
                    sv[a + 1],
                    srt,
                    ord,
                ) by {
                    if a < pre_s.len() - 1 {
                        assert(sv[a] == pre_s[a] && sv[a + 1] == pre_s[a + 1]);
                        assert(key_le(pre_s[a], pre_s[a + 1], srt, ord));
                    } else {
                        assert(sv[a] == pre_s[a] && sv[a + 1] == pre_w[best as int]);
                        assert(key_le(pre_s[a], pre_w[best as int], srt, ord));
                    }
                }
            }
        }
        proof {
            assert(working@.map_values(|x: Item| iv(x)).to_multiset() =~= Multiset::<
                ItemView,
            >::empty());
            assert(sorted@.map_values(|x: Item| iv(x)).to_multiset().add(
                Multiset::<ItemView>::empty(),
            ) =~= sorted@.map_values(|x: Item| iv(x)).to_multiset());
        }
        let sn = sorted.len();
        let lo = if offset_v <= sn {
            offset_v
        } else {
            sn
        };
        let hi = if offset_v <= sn && count_v <= sn - offset_v {
            offset_v + count_v
        } else {
            sn
        };
        let mut page: Vec<Item> = Vec::new();
        let mut k: usize = lo;
        while k < hi
            invariant
                lo <= k <= hi <= sn == sorted@.len(),
                page@.map_values(|x: Item| iv(x)) == sorted@.map_values(|x: Item| iv(x)).subrange(
                    lo as int,
                    k as int,
                ),
            decreases hi - k,
        {
            let ghost pre = page@.map_values(|x: Item| iv(x));
            page.push(clone_item(&sorted[k]));
            proof {
                assert(page@.map_values(|x: Item| iv(x)) =~= pre.push(
                    iv(sorted@[k as int]),
                ));
                assert(sorted@.map_values(|x: Item| iv(x)).subrange(lo as int, k + 1)
                    =~= sorted@.map_values(|x: Item| iv(x)).subrange(lo as int, k as int).push(
                    iv(sorted@[k as int]),
                ));
            }
            k = k + 1;
        }
        proof {
            let sview = sorted@.map_values(|x: Item| iv(x));
            assert(sview.to_multiset() == fv.to_multiset());
            broadcast use vstd::seq_lib::group_to_multiset_ensures;

            assert(sview.len() == fv.len()) by {
                assert(sview.to_multiset().len() == fv.to_multiset().len());
            }
        }
        (offset_v, count_v, page)
    }
}

/// The ordering is total: two views are always comparable.
proof fn lemma_key_le_total(a: ItemView, b: ItemView, s: Sort, o: SortOrder)
    ensures
        key_le(a, b, s, o) || key_le(b, a, s, o),
{
}

} // verus!

verus! {

/// An instant the day formatter is defined on.
pub open spec fn in_day_range(t: i64) -> bool {
    0 <= t <= 253402300799
}

/// How many stored items fall on the given UTC day.
pub open spec fn count_day(s: Seq<Item>, d: Seq<char>) -> int
    decreases s.len(),
{
    if s.len() == 0 {
        0
    } else {
        count_day(s.drop_last(), d) + (if in_day_range(s.last().date) && crate::time::day_string(
            s.last().date,
        ) == d {
            1int
        } else {
            0int
        })
    }
}

proof fn lemma_count_day_absent(s: Seq<Item>, d: Seq<char>)
    requires
        forall|j: int|
            0 <= j < s.len() && in_day_range((#[trigger] s[j]).date) ==> crate::time::day_string(
                s[j].date,
            ) != d,
    ensures
        count_day(s, d) == 0,
    decreases s.len(),
{
    if s.len() > 0 {
        assert(forall|j: int|
            0 <= j < s.drop_last().len() ==> (#[trigger] s.drop_last()[j]) == s[j]);
        lemma_count_day_absent(s.drop_last(), d);
    }
}

proof fn lemma_count_day_le(s: Seq<Item>, d: Seq<char>)
    ensures
        0 <= count_day(s, d) <= s.len(),
    decreases s.len(),
{
    if s.len() > 0 {
        lemma_count_day_le(s.drop_last(), d);
    }
}

/// Index of the entry for the day, if one is listed.
fn find_day(out: &Vec<crate::front::TorrentsPerDayItem>, day: &String) -> (r: Option<usize>)
    ensures
        match r {
            Some(k) => k < out@.len() && out@[k as int].date@ == day@,
            None => forall|k: int| 0 <= k < out@.len() ==> (#[trigger] out@[k].date@) != day@,
        },
{
    let n = out.len();
    let mut k: usize = 0;
    while k < n
        invariant
            0 <= k <= n == out@.len(),
            forall|k2: int| 0 <= k2 < k ==> (#[trigger] out@[k2].date@) != day@,
        decreases n - k,
    {
        if crate::strutil::str_eq(out[k].date.as_str(), day.as_str()) {
            return Some(k);
        }
        k = k + 1;
    }
    None
}

impl NyaaContext {
    /// How many items each UTC day received: one entry per distinct day
    /// among the stored items, carrying that day's exact count.
    #[verifier::loop_isolation(false)]
    #[verifier::rlimit(100)]
    pub fn get_torrent_per_day(&self) -> (r: Vec<crate::front::TorrentsPerDayItem>)
        ensures
            forall|k: int|
                0 <= k < r@.len() ==> (#[trigger] r@[k]).count == count_day(
                    self.items@,
                    r@[k].date@,
                ),
            forall|k1: int, k2: int|
                0 <= k1 < k2 < r@.len() ==> (#[trigger] r@[k1].date@) != (#[trigger] r@[k2].date@),
            forall|j: int|
                0 <= j < self.items@.len() && in_day_range((#[trigger] self.items@[j]).date)
                    ==> exists|k: int|
                    0 <= k < r@.len() && r@[k].date@ == crate::time::day_string(
                        self.items@[j].date,
                    ),
    {
        let n = self.items.len();
        let mut out: Vec<crate::front::TorrentsPerDayItem> = Vec::new();
        let mut i: usize = 0;
        while i < n
            invariant
                0 <= i <= n,
                forall|k: int|
                    0 <= k < out@.len() ==> (#[trigger] out@[k]).count == count_day(
                        self.items@.take(i as int),
                        out@[k].date@,
                    ),
                forall|k1: int, k2: int|
                    0 <= k1 < k2 < out@.len() ==> (#[trigger] out@[k1].date@) != (
                #[trigger] out@[k2].date@),
                forall|j: int|
                    0 <= j < i && in_day_range((#[trigger] self.items@[j]).date) ==> exists|k: int|
                        0 <= k < out@.len() && out@[k].date@ == crate::time::day_string(
                            self.items@[j].date,
                        ),
            decreases n - i,
        {
            proof {
                assert(self.items@.take(i + 1).drop_last() =~= self.items@.take(i as int));
                assert(self.items@.take(i + 1).last() == self.items@[i as int]);
            }
            let date = self.items[i].date;
            let ghost pre = out@;
            if 0 <= date && date <= 253402300799 {
                let day = crate::time::format_day(date);
                match find_day(&out, &day) {
                    Some(k) => {
                        proof {
                            lemma_count_day_le(self.items@.take(i as int), out@[k as int].date@);
                        }
                        let e = crate::front::TorrentsPerDayItem {
                            date: crate::strutil::clone_string(&out[k].date),
                            count: out[k].count + 1,
                        };
                        out.set(k, e);
                        proof {
                            let t1 = self.items@.take(i + 1);
                            let t0 = self.items@.take(i as int);
                            assert forall|kk: int| 0 <= kk < out@.len() implies (
                            #[trigger] out@[kk]).count == count_day(t1, out@[kk].date@) by {
                                if kk == k {
                                    assert(out@[kk].date@ == pre[kk].date@);
                                    assert(count_day(t1, day@) == count_day(t0, day@) + 1);
                                } else {
                                    assert(out@[kk] == pre[kk]);
                                    assert(pre[kk].date@ != day@);
                                    assert(count_day(t1, pre[kk].date@) == count_day(
                                        t0,
                                        pre[kk].date@,
                                    ));
                                }
                            }
                            assert forall|j: int|
                                0 <= j < i + 1 && in_day_range(
                                    (#[trigger] self.items@[j]).date,
                                ) implies exists|kk: int|
                                0 <= kk < out@.len() && out@[kk].date@
                                    == crate::time::day_string(self.items@[j].date) by {
                                if j < i {
                                    let w = choose|w: int|
                                        0 <= w < pre.len() && pre[w].date@
                                            == crate::time::day_string(self.items@[j].date);
                                    assert(out@[w].date@ == pre[w].date@);
                                } else {
                                    assert(out@[k as int].date@ == day@);
                                }
                            }
                        }
                    },
                    None => {
                        proof {
                            lemma_count_day_absent(self.items@.take(i as int), day@);
                        }
                        out.push(crate::front::TorrentsPerDayItem { date: day, count: 1 });
                        proof {
                            let t1 = self.items@.take(i + 1);
                            let t0 = self.items@.take(i as int);
                            assert forall|kk: int| 0 <= kk < out@.len() implies (
                            #[trigger] out@[kk]).count == count_day(t1, out@[kk].date@) by {
                                if kk < pre.len() {
                                    assert(out@[kk] == pre[kk]);
                                    assert(pre[kk].date@ != out@[out@.len() - 1].date@);
                                    assert(count_day(t1, pre[kk].date@) == count_day(
                                        t0,
                                        pre[kk].date@,
                                    ));
                                } else {
                                    assert(count_day(t1, out@[kk].date@) == count_day(
                                        t0,
                                        out@[kk].date@,
                                    ) + 1);
                                }
                            }
                            assert forall|j: int|
                                0 <= j < i + 1 && in_day_range(
                                    (#[trigger] self.items@[j]).date,
                                ) implies exists|kk: int|
                                0 <= kk < out@.len() && out@[kk].date@
                                    == crate::time::day_string(self.items@[j].date) by {
                                if j < i {
                                    let w = choose|w: int|
                                        0 <= w < pre.len() && pre[w].date@
                                            == crate::time::day_string(self.items@[j].date);
                                    assert(out@[w].date@ == pre[w].date@);
                                } else {
                                    assert(out@[out@.len() - 1].date@ == day@);
                                }
                            }
                        }
                    },
                }
            } else {
                proof {
                    let t1 = self.items@.take(i + 1);
                    let t0 = self.items@.take(i as int);
                    assert forall|kk: int| 0 <= kk < out@.len() implies (
                    #[trigger] out@[kk]).count == count_day(t1, out@[kk].date@) by {
                        assert(count_day(t1, out@[kk].date@) == count_day(t0, out@[kk].date@));
                    }
                }
            }
            i = i + 1;
        }
        proof {
            assert(self.items@.take(n as int) =~= self.items@);
        }
        out
    }
}

} // verus!
