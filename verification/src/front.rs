//! The read-surface records: the torrent list and detail responses the
//! API serves, and the recent-items projection.

use vstd::prelude::*;

use crate::data::{Category, Comment, File, Filter, Item, Sort, SortOrder, ViewRecord};
use crate::query::opt_view;
use crate::store::NyaaContext;
use crate::strutil::clone_string;
use crate::time::rfc2822_string;

verus! {

/// An inbound list request of the read surface.
#[derive(Debug)]
pub struct TorrentListRequest {
    pub term: Option<String>,
    pub category: Option<Category>,
    pub filter: Option<Filter>,
    pub sort: Option<Sort>,
    pub sort_order: Option<SortOrder>,
    pub offset: Option<usize>,
    pub limit: Option<usize>,
}

/// One row of the list response.
#[derive(Debug)]
pub struct Torrent {
    pub title: String,
    pub link: String,
    pub guid: String,
    /// RFC 2822 rendering of the publication instant.
    pub pub_date: String,
    pub seeders: usize,
    pub leechers: usize,
    pub downloads: usize,
    pub info_hash: String,
    pub category_id: String,
    pub category: String,
    pub size: u64,
    pub comments: usize,
    pub trusted: bool,
    pub remake: bool,
    pub description: Option<String>,
}

#[derive(Debug)]
pub struct TorrentListResponse {
    pub torrents: Vec<Torrent>,
    pub offset: usize,
    pub count: usize,
    pub total: usize,
}

impl Torrent {
    /// Projects a stored item onto the wire row; the stored item carries
    /// no info hash, so that column is empty.
    pub fn from(item: Item) -> (r: Torrent)
        requires
            0 <= item.date <= 253402300799,
        ensures
            r.title@ == item.title@,
            r.link@ == item.link@,
            r.guid@ == item.id@,
            r.pub_date@ == rfc2822_string(item.date),
            r.seeders == item.seeders,
            r.leechers == item.leechers,
            r.downloads == item.downloads,
            r.info_hash@ == Seq::<char>::empty(),
            r.category_id@ == item.category.code_spec(),
            r.category@ == item.category.english_spec(),
            r.size == item.size,
            r.comments == item.comments,
            r.trusted == item.trusted,
            r.remake == item.remake,
            r.description is None,
    {
        proof {
            reveal_strlit("");
        }
        Torrent {
            title: item.title,
            link: item.link,
            guid: item.id,
            pub_date: crate::time::format_rfc2822(item.date),
            seeders: item.seeders,
            leechers: item.leechers,
            downloads: item.downloads,
            info_hash: ("").to_owned(),
            category_id: item.category.to_string(),
            category: item.category.english(),
            size: item.size,
            comments: item.comments,
            trusted: item.trusted,
            remake: item.remake,
            description: None,
        }
    }
}

/// The HTML a markdown text renders to; a function of the text alone.
pub uninterp spec fn md_html_of(s: Seq<char>) -> Seq<char>;

/// Relies on markdown's `to_html`, a pure CommonMark compiler whose
/// output depends on the text alone.
#[verifier::external_body]
pub fn render_markdown(s: &str) -> (r: String)
    ensures
        r@ == md_html_of(s@),
{
    markdown::to_html(s)
}

/// An inbound detail request.
#[derive(Debug)]
pub struct TorrentRequest {
    pub id: String,
}

/// The detail response.
#[derive(Debug)]
pub struct TorrentResponse {
    pub title: String,
    pub link: String,
    pub guid: String,
    /// RFC 2822 rendering of the publication instant.
    pub pub_date: String,
    pub seeders: usize,
    pub leechers: usize,
    pub downloads: usize,
    pub info_hash: String,
    pub category_id: String,
    pub category: String,
    pub size: u64,
    pub trusted: bool,
    pub remake: bool,
    /// The description, as the caller rendered it.
    pub description: String,
    pub description_markdown: String,
    pub download_link: String,
    pub magnet_link: String,
    pub files: Vec<File>,
    pub comments: Vec<Comment>,
    pub submitter: String,
    pub info_link: Option<String>,
}

impl TorrentResponse {
    /// Projects a stored detail record onto the wire record, rendering
    /// the markdown description to HTML.
    pub fn from_view(v: ViewRecord) -> (r: TorrentResponse)
        requires
            0 <= v.date <= 253402300799,
        ensures
            r.title@ == v.title@,
            r.link@ == v.link@,
            r.guid@ == v.id@,
            r.pub_date@ == rfc2822_string(v.date),
            r.seeders == v.seeders,
            r.leechers == v.leechers,
            r.downloads == v.downloads,
            r.info_hash@ == v.info_hash@,
            r.category_id@ == v.category.code_spec(),
            r.category@ == v.category.english_spec(),
            r.size == v.size,
            r.trusted == v.trusted,
            r.remake == v.remake,
            r.description@ == md_html_of(v.description@),
            r.description_markdown@ == v.description@,
            r.download_link@ == v.download_link@,
            r.magnet_link@ == v.magnet_link@,
            r.files == v.files,
            r.comments == v.comments,
            r.submitter@ == v.submitter@,
            opt_view(r.info_link) == opt_view(v.info_link),
    {
        let rendered = render_markdown(v.description.as_str());
        TorrentResponse {
            title: v.title,
            link: v.link,
            guid: v.id,
            pub_date: crate::time::format_rfc2822(v.date),
            seeders: v.seeders,
            leechers: v.leechers,
            downloads: v.downloads,
            info_hash: v.info_hash,
            category_id: v.category.to_string(),
            category: v.category.english(),
            size: v.size,
            trusted: v.trusted,
            remake: v.remake,
            description: rendered,
            description_markdown: v.description,
            download_link: v.download_link,
            magnet_link: v.magnet_link,
            files: v.files,
            comments: v.comments,
            submitter: v.submitter,
            info_link: v.info_link,
        }
    }
}

/// One point of the torrents-per-day statistic.
#[derive(Debug)]
pub struct TorrentsPerDayItem {
    /// `YYYY-MM-DD`.
    pub date: String,
    pub count: usize,
}

/// One row of the recent-items projection.
#[derive(Debug)]
pub struct RecentItem {
    pub id: String,
    pub title: String,
    /// UTC epoch seconds.
    pub date: i64,
    pub seeders: usize,
    pub leechers: usize,
    pub category: String,
    pub size: u64,
}

/// The recent-items response.
#[derive(Debug)]
pub struct RecentResponse {
    pub interval_ms: u64,
    pub offset: usize,
    pub count: usize,
    pub total: usize,
    pub items: Vec<RecentItem>,
}

/// One wire row carries exactly the listed columns of one stored item.
pub open spec fn recent_matches(r: RecentItem, v: crate::store::ItemView) -> bool {
    &&& r.id@ == v.id
    &&& r.title@ == v.title
    &&& r.date == v.date
    &&& r.seeders == v.seeders
    &&& r.leechers == v.leechers
    &&& r.category@ == v.category.code_spec()
    &&& r.size == v.size
}

/// The read surface over the store.
#[derive(Debug)]
pub struct NyaaIndexer {}

impl NyaaIndexer {
    /// The most recent stored items, paged: the stored items sorted by
    /// publication instant, newest first, projected onto the wire rows.
    pub fn recent(
        context: &NyaaContext,
        offset: Option<usize>,
        count: Option<usize>,
        since: Option<i64>,
    ) -> (r: RecentResponse)
        ensures
            r.interval_ms == context.update_interval_ms,
            r.total == context.items@.len(),
            r.count == (match count {
                Some(c) => if c < 1 {
                    1usize
                } else {
                    c
                },
                None => 75usize,
            }),
            r.offset == (match offset {
                Some(o) => (o - (o % r.count)) as usize,
                None => 0usize,
            }),
            ({
                let fv = crate::store::filtered_views(context.items@, since, None, None);
                exists|sorted: Seq<crate::store::ItemView>|
                    {
                        &&& #[trigger] sorted.to_multiset() == fv.to_multiset()
                        &&& crate::store::sorted_ok(sorted, Sort::Date, SortOrder::Descending)
                        &&& ({
                            let lo = if r.offset as int <= sorted.len() {
                                r.offset as int
                            } else {
                                sorted.len() as int
                            };
                            let hi = if r.offset + r.count <= sorted.len() {
                                r.offset + r.count
                            } else {
                                sorted.len() as int
                            };
                            &&& r.items@.len() == hi - lo
                            &&& (forall|k: int|
                                0 <= k < r.items@.len() ==> recent_matches(
                                    #[trigger] r.items@[k],
                                    sorted[lo + k],
                                ))
                        })
                    }
            }),
    {
        let total = context.get_item_count();
        let (off, cnt, items) = context.get_items(
            offset,
            count,
            since,
            None,
            None,
            None,
            None,
        );
        let mut out: Vec<RecentItem> = Vec::new();
        let mut i: usize = 0;
        while i < items.len()
            invariant
                0 <= i <= items@.len(),
                out@.len() == i,
                forall|k: int|
                    0 <= k < i ==> recent_matches(
                        #[trigger] out@[k],
                        crate::store::iv(items@[k]),
                    ),
            decreases items@.len() - i,
        {
            let it = &items[i];
            out.push(
                RecentItem {
                    id: clone_string(&it.id),
                    title: clone_string(&it.title),
                    date: it.date,
                    seeders: it.seeders,
                    leechers: it.leechers,
                    category: it.category.to_string(),
                    size: it.size,
                },
            );
            i = i + 1;
        }
        proof {
            let fv = crate::store::filtered_views(context.items@, since, None, None);
            let sorted = choose|sorted: Seq<crate::store::ItemView>|
                {
                    &&& #[trigger] sorted.to_multiset() == fv.to_multiset()
                    &&& crate::store::sorted_ok(sorted, Sort::Date, SortOrder::Descending)
                    &&& ({
                        let lo = if off as int <= sorted.len() {
                            off as int
                        } else {
                            sorted.len() as int
                        };
                        let hi = if off + cnt <= sorted.len() {
                            off + cnt
                        } else {
                            sorted.len() as int
                        };
                        items@.map_values(|x: crate::data::Item| crate::store::iv(x))
                            == sorted.subrange(lo, hi)
                    })
                };
            let lo = if off as int <= sorted.len() {
                off as int
            } else {
                sorted.len() as int
            };
            let hi = if off + cnt <= sorted.len() {
                off + cnt
            } else {
                sorted.len() as int
            };
            assert(items@.map_values(|x: crate::data::Item| crate::store::iv(x)).len() == hi - lo);
            assert forall|k: int| 0 <= k < out@.len() implies recent_matches(
                #[trigger] out@[k],
                sorted[lo + k],
            ) by {
                assert(crate::store::iv(items@[k]) == items@.map_values(
                    |x: crate::data::Item| crate::store::iv(x),
                )[k]);
                assert(items@.map_values(|x: crate::data::Item| crate::store::iv(x))[k]
                    == sorted.subrange(lo, hi)[k]);
            }
        }
        RecentResponse { interval_ms: context.update_interval_ms, offset: off, count: cnt, total, items: out }
    }
}

} // verus!
