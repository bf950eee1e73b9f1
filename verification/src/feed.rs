//! The XML feed parser: decodes the RSS-shaped feed into canonical list
//! items.
//!
//! The document must hold a `channel` with a `title` and a `description`;
//! each `item` must carry every field the feed defines, else the whole
//! document is a `ParseXml` error.  Field-level conversions fail per item
//! and the first such error is returned.

use vstd::prelude::*;
use vstd::string::StringSliceAdditionalSpecFns;
use vstd::utf8::{decode_utf8, encode_utf8, valid_utf8};

use crate::Error;
use crate::data::{Category, category_from_code};
use crate::model::ListItem;
use crate::normalize::{spec_boolean, spec_size};
use crate::scan::{all_digits, digits_val, spec_rfind};
use crate::time::rfc2822_epoch;
use crate::xml::{spec_find, spec_tag_range};

verus! {

/// The bytes of `title`.
pub open spec fn nm_title() -> Seq<u8> {
    seq![116u8, 105u8, 116u8, 108u8, 101u8]
}

fn nm_title_exec() -> (r: Vec<u8>)
    ensures
        r@ == nm_title(),
{
    let a: [u8; 5] = [116, 105, 116, 108, 101];
    let r = vstd::slice::slice_to_vec(a.as_slice());
    proof {
        assert(r@ =~= nm_title());
    }
    r
}

/// The bytes of `link`.
pub open spec fn nm_link() -> Seq<u8> {
    seq![108u8, 105u8, 110u8, 107u8]
}

fn nm_link_exec() -> (r: Vec<u8>)
    ensures
        r@ == nm_link(),
{
    let a: [u8; 4] = [108, 105, 110, 107];
    let r = vstd::slice::slice_to_vec(a.as_slice());
    proof {
        assert(r@ =~= nm_link());
    }
    r
}

/// The bytes of `guid`.
pub open spec fn nm_guid() -> Seq<u8> {
    seq![103u8, 117u8, 105u8, 100u8]
}

fn nm_guid_exec() -> (r: Vec<u8>)
    ensures
        r@ == nm_guid(),
{
    let a: [u8; 4] = [103, 117, 105, 100];
    let r = vstd::slice::slice_to_vec(a.as_slice());
    proof {
        assert(r@ =~= nm_guid());
    }
    r
}

/// The bytes of `pubDate`.
pub open spec fn nm_pub_date() -> Seq<u8> {
    seq![112u8, 117u8, 98u8, 68u8, 97u8, 116u8, 101u8]
}

fn nm_pub_date_exec() -> (r: Vec<u8>)
    ensures
        r@ == nm_pub_date(),
{
    let a: [u8; 7] = [112, 117, 98, 68, 97, 116, 101];
    let r = vstd::slice::slice_to_vec(a.as_slice());
    proof {
        assert(r@ =~= nm_pub_date());
    }
    r
}

/// The bytes of `nyaa:seeders`.
pub open spec fn nm_seeders() -> Seq<u8> {
    seq![110u8, 121u8, 97u8, 97u8, 58u8, 115u8, 101u8, 101u8, 100u8, 101u8, 114u8, 115u8]
}

fn nm_seeders_exec() -> (r: Vec<u8>)
    ensures
        r@ == nm_seeders(),
{
    let a: [u8; 12] = [110, 121, 97, 97, 58, 115, 101, 101, 100, 101, 114, 115];
    let r = vstd::slice::slice_to_vec(a.as_slice());
    proof {
        assert(r@ =~= nm_seeders());
    }
    r
}

/// The bytes of `nyaa:leechers`.
pub open spec fn nm_leechers() -> Seq<u8> {
    seq![110u8, 121u8, 97u8, 97u8, 58u8, 108u8, 101u8, 101u8, 99u8, 104u8, 101u8, 114u8, 115u8]
}

fn nm_leechers_exec() -> (r: Vec<u8>)
    ensures
        r@ == nm_leechers(),
{
    let a: [u8; 13] = [110, 121, 97, 97, 58, 108, 101, 101, 99, 104, 101, 114, 115];
    let r = vstd::slice::slice_to_vec(a.as_slice());
    proof {
        assert(r@ =~= nm_leechers());
    }
    r
}

/// The bytes of `nyaa:downloads`.
pub open spec fn nm_downloads() -> Seq<u8> {
    seq![110u8, 121u8, 97u8, 97u8, 58u8, 100u8, 111u8, 119u8, 110u8, 108u8, 111u8, 97u8, 100u8, 115u8]
}

fn nm_downloads_exec() -> (r: Vec<u8>)
    ensures
        r@ == nm_downloads(),
{
    let a: [u8; 14] = [110, 121, 97, 97, 58, 100, 111, 119, 110, 108, 111, 97, 100, 115];
    let r = vstd::slice::slice_to_vec(a.as_slice());
    proof {
        assert(r@ =~= nm_downloads());
    }
    r
}

/// The bytes of `nyaa:infoHash`.
pub open spec fn nm_info_hash() -> Seq<u8> {
    seq![110u8, 121u8, 97u8, 97u8, 58u8, 105u8, 110u8, 102u8, 111u8, 72u8, 97u8, 115u8, 104u8]
}

fn nm_info_hash_exec() -> (r: Vec<u8>)
    ensures
        r@ == nm_info_hash(),
{
    let a: [u8; 13] = [110, 121, 97, 97, 58, 105, 110, 102, 111, 72, 97, 115, 104];
    let r = vstd::slice::slice_to_vec(a.as_slice());
    proof {
        assert(r@ =~= nm_info_hash());
    }
    r
}

/// The bytes of `nyaa:categoryId`.
pub open spec fn nm_category_id() -> Seq<u8> {
    seq![110u8, 121u8, 97u8, 97u8, 58u8, 99u8, 97u8, 116u8, 101u8, 103u8, 111u8, 114u8, 121u8, 73u8, 100u8]
}

fn nm_category_id_exec() -> (r: Vec<u8>)
    ensures
        r@ == nm_category_id(),
{
    let a: [u8; 15] = [110, 121, 97, 97, 58, 99, 97, 116, 101, 103, 111, 114, 121, 73, 100];
    let r = vstd::slice::slice_to_vec(a.as_slice());
    proof {
        assert(r@ =~= nm_category_id());
    }
    r
}

/// The bytes of `nyaa:category`.
pub open spec fn nm_category_name() -> Seq<u8> {
    seq![110u8, 121u8, 97u8, 97u8, 58u8, 99u8, 97u8, 116u8, 101u8, 103u8, 111u8, 114u8, 121u8]
}

fn nm_category_name_exec() -> (r: Vec<u8>)
    ensures
        r@ == nm_category_name(),
{
    let a: [u8; 13] = [110, 121, 97, 97, 58, 99, 97, 116, 101, 103, 111, 114, 121];
    let r = vstd::slice::slice_to_vec(a.as_slice());
    proof {
        assert(r@ =~= nm_category_name());
    }
    r
}

/// The bytes of `nyaa:size`.
pub open spec fn nm_size() -> Seq<u8> {
    seq![110u8, 121u8, 97u8, 97u8, 58u8, 115u8, 105u8, 122u8, 101u8]
}

fn nm_size_exec() -> (r: Vec<u8>)
    ensures
        r@ == nm_size(),
{
    let a: [u8; 9] = [110, 121, 97, 97, 58, 115, 105, 122, 101];
    let r = vstd::slice::slice_to_vec(a.as_slice());
    proof {
        assert(r@ =~= nm_size());
    }
    r
}

/// The bytes of `nyaa:comments`.
pub open spec fn nm_comments() -> Seq<u8> {
    seq![110u8, 121u8, 97u8, 97u8, 58u8, 99u8, 111u8, 109u8, 109u8, 101u8, 110u8, 116u8, 115u8]
}

fn nm_comments_exec() -> (r: Vec<u8>)
    ensures
        r@ == nm_comments(),
{
    let a: [u8; 13] = [110, 121, 97, 97, 58, 99, 111, 109, 109, 101, 110, 116, 115];
    let r = vstd::slice::slice_to_vec(a.as_slice());
    proof {
        assert(r@ =~= nm_comments());
    }
    r
}

/// The bytes of `nyaa:trusted`.
pub open spec fn nm_trusted() -> Seq<u8> {
    seq![110u8, 121u8, 97u8, 97u8, 58u8, 116u8, 114u8, 117u8, 115u8, 116u8, 101u8, 100u8]
}

fn nm_trusted_exec() -> (r: Vec<u8>)
    ensures
        r@ == nm_trusted(),
{
    let a: [u8; 12] = [110, 121, 97, 97, 58, 116, 114, 117, 115, 116, 101, 100];
    let r = vstd::slice::slice_to_vec(a.as_slice());
    proof {
        assert(r@ =~= nm_trusted());
    }
    r
}

/// The bytes of `nyaa:remake`.
pub open spec fn nm_remake() -> Seq<u8> {
    seq![110u8, 121u8, 97u8, 97u8, 58u8, 114u8, 101u8, 109u8, 97u8, 107u8, 101u8]
}

fn nm_remake_exec() -> (r: Vec<u8>)
    ensures
        r@ == nm_remake(),
{
    let a: [u8; 11] = [110, 121, 97, 97, 58, 114, 101, 109, 97, 107, 101];
    let r = vstd::slice::slice_to_vec(a.as_slice());
    proof {
        assert(r@ =~= nm_remake());
    }
    r
}

/// The bytes of `description`.
pub open spec fn nm_description() -> Seq<u8> {
    seq![100u8, 101u8, 115u8, 99u8, 114u8, 105u8, 112u8, 116u8, 105u8, 111u8, 110u8]
}

fn nm_description_exec() -> (r: Vec<u8>)
    ensures
        r@ == nm_description(),
{
    let a: [u8; 11] = [100, 101, 115, 99, 114, 105, 112, 116, 105, 111, 110];
    let r = vstd::slice::slice_to_vec(a.as_slice());
    proof {
        assert(r@ =~= nm_description());
    }
    r
}

/// The bytes of `channel`.
pub open spec fn nm_channel() -> Seq<u8> {
    seq![99u8, 104u8, 97u8, 110u8, 110u8, 101u8, 108u8]
}

fn nm_channel_exec() -> (r: Vec<u8>)
    ensures
        r@ == nm_channel(),
{
    let a: [u8; 7] = [99, 104, 97, 110, 110, 101, 108];
    let r = vstd::slice::slice_to_vec(a.as_slice());
    proof {
        assert(r@ =~= nm_channel());
    }
    r
}

/// The bytes of `<item>`.
pub open spec fn nm_item_open() -> Seq<u8> {
    seq![60u8, 105u8, 116u8, 101u8, 109u8, 62u8]
}

fn nm_item_open_exec() -> (r: Vec<u8>)
    ensures
        r@ == nm_item_open(),
{
    let a: [u8; 6] = [60, 105, 116, 101, 109, 62];
    let r = vstd::slice::slice_to_vec(a.as_slice());
    proof {
        assert(r@ =~= nm_item_open());
    }
    r
}

/// The bytes of `</item>`.
pub open spec fn nm_item_close() -> Seq<u8> {
    seq![60u8, 47u8, 105u8, 116u8, 101u8, 109u8, 62u8]
}

fn nm_item_close_exec() -> (r: Vec<u8>)
    ensures
        r@ == nm_item_close(),
{
    let a: [u8; 7] = [60, 47, 105, 116, 101, 109, 62];
    let r = vstd::slice::slice_to_vec(a.as_slice());
    proof {
        assert(r@ =~= nm_item_close());
    }
    r
}

/// The decoded text of element `name`, if the element is there.
pub open spec fn field_text(s: Seq<u8>, name: Seq<u8>) -> Option<Seq<u8>> {
    match spec_tag_range(s, name) {
        None => None,
        Some(p) => Some(crate::xml::content_text(s.subrange(p.0, p.1))),
    }
}

/// That text as characters, when it is valid UTF-8.
pub open spec fn field_chars(s: Seq<u8>, name: Seq<u8>) -> Option<Seq<char>> {
    match field_text(s, name) {
        None => None,
        Some(t) => if valid_utf8(t) {
            Some(decode_utf8(t))
        } else {
            None
        },
    }
}

/// That text as an unsigned integer, when it is one that fits `usize`.
pub open spec fn field_num(s: Seq<u8>, name: Seq<u8>) -> Option<int> {
    match field_text(s, name) {
        None => None,
        Some(t) => if all_digits(t) && t.len() > 0 && digits_val(t) <= usize::MAX {
            Some(digits_val(t))
        } else {
            None
        },
    }
}

fn field_string(s: &[u8], name: &[u8]) -> (r: Option<String>)
    ensures
        match r {
            Some(st) => field_chars(s@, name@) == Some(st@),
            None => field_chars(s@, name@) is None,
        },
{
    match crate::xml::tag_range(s, name) {
        None => None,
        Some((a, b)) => {
            let content = crate::scan::subvec(s, a, b);
            let text = crate::xml::content_text_exec(content.as_slice());
            crate::strutil::bytes_to_string(text)
        },
    }
}

fn field_usize(s: &[u8], name: &[u8]) -> (r: Option<usize>)
    ensures
        match r {
            Some(v) => field_num(s@, name@) == Some(v as int),
            None => field_num(s@, name@) is None,
        },
{
    match crate::xml::tag_range(s, name) {
        None => None,
        Some((a, b)) => {
            let content = crate::scan::subvec(s, a, b);
            let text = crate::xml::content_text_exec(content.as_slice());
            match crate::scan::parse_u64(text.as_slice()) {
                None => None,
                Some(v) => {
                    if v <= usize::MAX as u64 {
                        Some(v as usize)
                    } else {
                        None
                    }
                },
            }
        },
    }
}

/// The characters after the last slash of the guid (the whole guid when
/// it has no slash).
pub open spec fn guid_tail(g: Seq<u8>) -> Seq<u8> {
    match spec_rfind(g, 47u8) {
        Some(i) => g.skip(i + 1),
        None => g,
    }
}

/// The item id the guid path ends in, if its tail is a number.
pub open spec fn spec_guid_id(g: Seq<u8>) -> Option<int> {
    let t = guid_tail(g);
    if all_digits(t) && t.len() > 0 && digits_val(t) <= usize::MAX {
        Some(digits_val(t))
    } else {
        None
    }
}

pub(crate) fn guid_id_exec(g: &str) -> (r: Option<usize>)
    ensures
        match r {
            Some(v) => spec_guid_id(g.spec_bytes()) == Some(v as int),
            None => spec_guid_id(g.spec_bytes()) is None,
        },
{
    let bytes = crate::strutil::str_to_bytes(g);
    let tail = match crate::scan::rfind_byte_spec(bytes.as_slice(), 47) {
        Some(i) => crate::scan::subvec(bytes.as_slice(), i + 1, bytes.len()),
        None => bytes,
    };
    proof {
        assert(tail@ =~= guid_tail(g.spec_bytes()));
    }
    match crate::scan::parse_u64(tail.as_slice()) {
        None => None,
        Some(v) => {
            if v <= usize::MAX as u64 {
                Some(v as usize)
            } else {
                None
            }
        },
    }
}

/// The abstract content of one feed item.
pub struct FeedItemModel {
    pub title: Seq<char>,
    pub link: Seq<char>,
    pub pub_date: i64,
    pub guid: Seq<char>,
    pub id: int,
    pub seeders: int,
    pub leechers: int,
    pub downloads: int,
    pub info_hash: Seq<char>,
    pub category: Category,
    pub size: u64,
    pub comments: int,
    pub trusted: bool,
    pub remake: bool,
    pub description: Seq<char>,
}

/// What one `item` element denotes, or the first error in decoding it.
#[verifier::opaque]
pub open spec fn spec_feed_item(seg: Seq<u8>) -> Result<FeedItemModel, Error> {
    let title = field_chars(seg, nm_title());
    let link = field_chars(seg, nm_link());
    let guid = field_chars(seg, nm_guid());
    let pubd = field_chars(seg, nm_pub_date());
    let info_hash = field_chars(seg, nm_info_hash());
    let cat_id = field_chars(seg, nm_category_id());
    let cat_name = field_chars(seg, nm_category_name());
    let size_s = field_chars(seg, nm_size());
    let trusted_s = field_chars(seg, nm_trusted());
    let remake_s = field_chars(seg, nm_remake());
    let desc = field_chars(seg, nm_description());
    let seeders = field_num(seg, nm_seeders());
    let leechers = field_num(seg, nm_leechers());
    let downloads = field_num(seg, nm_downloads());
    let comments = field_num(seg, nm_comments());
    if title is None || link is None || guid is None || pubd is None || info_hash is None
        || cat_id is None || cat_name is None || size_s is None || trusted_s is None
        || remake_s is None || desc is None || seeders is None || leechers is None
        || downloads is None || comments is None {
        Err(Error::ParseXml)
    } else {
        match rfc2822_epoch(pubd->0) {
            None => Err(Error::ParseDate),
            Some(date) => match category_from_code(cat_id->0) {
                None => Err(Error::ParseCategory),
                Some(category) => match spec_boolean(encode_utf8(trusted_s->0)) {
                    None => Err(Error::ParseBoolean),
                    Some(trusted) => match spec_boolean(encode_utf8(remake_s->0)) {
                        None => Err(Error::ParseBoolean),
                        Some(remake) => match spec_size(encode_utf8(size_s->0)) {
                            None => Err(Error::ParseSize),
                            Some(size) => match spec_guid_id(encode_utf8(guid->0)) {
                                None => Err(Error::ParseInteger),
                                Some(id) => Ok(
                                    FeedItemModel {
                                        title: title->0,
                                        link: link->0,
                                        pub_date: date,
                                        guid: guid->0,
                                        id: id,
                                        seeders: seeders->0,
                                        leechers: leechers->0,
                                        downloads: downloads->0,
                                        info_hash: info_hash->0,
                                        category: category,
                                        size: size,
                                        comments: comments->0,
                                        trusted: trusted,
                                        remake: remake,
                                        description: desc->0,
                                    },
                                ),
                            },
                        },
                    },
                },
            },
        }
    }
}

/// The canonical record carries exactly what the model says.
pub open spec fn item_matches(i: ListItem, m: FeedItemModel) -> bool {
    &&& i.title@ == m.title
    &&& i.link@ == m.link
    &&& i.pub_date == m.pub_date
    &&& i.guid@ == m.guid
    &&& i.id == m.id
    &&& i.seeders == m.seeders
    &&& i.leechers == m.leechers
    &&& i.downloads == m.downloads
    &&& (match i.info_hash {
        Some(h) => h@ == m.info_hash,
        None => false,
    })
    &&& i.category == m.category
    &&& i.size == m.size
    &&& i.comments == m.comments
    &&& i.trusted == m.trusted
    &&& i.remake == m.remake
    &&& (match i.description {
        Some(d) => d@ == m.description,
        None => false,
    })
    &&& (match i.download_link {
        Some(d) => d@ == m.link,
        None => false,
    })
    &&& i.magnet_link is None
}

/// Decodes one `item` segment.
fn parse_item(seg: &[u8]) -> (r: Result<ListItem, Error>)
    ensures
        match r {
            Ok(it) => spec_feed_item(seg@) is Ok && item_matches(it, spec_feed_item(seg@)->Ok_0),
            Err(e) => spec_feed_item(seg@) == Err::<FeedItemModel, Error>(e),
        },
{
    proof {
        reveal(spec_feed_item);
    }
    let n_title = nm_title_exec();
    let n_link = nm_link_exec();
    let n_guid = nm_guid_exec();
    let n_pubd = nm_pub_date_exec();
    let n_hash = nm_info_hash_exec();
    let n_catid = nm_category_id_exec();
    let n_catname = nm_category_name_exec();
    let n_size = nm_size_exec();
    let n_trusted = nm_trusted_exec();
    let n_remake = nm_remake_exec();
    let n_desc = nm_description_exec();
    let n_seeders = nm_seeders_exec();
    let n_leechers = nm_leechers_exec();
    let n_downloads = nm_downloads_exec();
    let n_comments = nm_comments_exec();
    let title = field_string(seg, n_title.as_slice());
    let link = field_string(seg, n_link.as_slice());
    let guid = field_string(seg, n_guid.as_slice());
    let pubd = field_string(seg, n_pubd.as_slice());
    let info_hash = field_string(seg, n_hash.as_slice());
    let cat_id = field_string(seg, n_catid.as_slice());
    let cat_name = field_string(seg, n_catname.as_slice());
    let size_s = field_string(seg, n_size.as_slice());
    let trusted_s = field_string(seg, n_trusted.as_slice());
    let remake_s = field_string(seg, n_remake.as_slice());
    let desc = field_string(seg, n_desc.as_slice());
    let seeders = field_usize(seg, n_seeders.as_slice());
    let leechers = field_usize(seg, n_leechers.as_slice());
    let downloads = field_usize(seg, n_downloads.as_slice());
    let comments = field_usize(seg, n_comments.as_slice());
    match (title, link, guid, pubd, info_hash, cat_id, cat_name, size_s, trusted_s, remake_s,
        desc, seeders, leechers, downloads, comments) {
        (
            Some(title),
            Some(link),
            Some(guid),
            Some(pubd),
            Some(info_hash),
            Some(cat_id),
            Some(_cat_name),
            Some(size_s),
            Some(trusted_s),
            Some(remake_s),
            Some(desc),
            Some(seeders),
            Some(leechers),
            Some(downloads),
            Some(comments),
        ) => {
            let date = match crate::time::parse_rfc2822(pubd.as_str()) {
                None => {
                    return Err(Error::ParseDate);
                },
                Some(d) => d,
            };
            let category = match Category::from_str(cat_id.as_str()) {
                Err(_) => {
                    return Err(Error::ParseCategory);
                },
                Ok(c) => c,
            };
            let trusted = match crate::normalize::parse_boolean(trusted_s.as_str()) {
                Err(_) => {
                    return Err(Error::ParseBoolean);
                },
                Ok(b) => b,
            };
            let remake = match crate::normalize::parse_boolean(remake_s.as_str()) {
                Err(_) => {
                    return Err(Error::ParseBoolean);
                },
                Ok(b) => b,
            };
            let size = match crate::normalize::parse_size(size_s.as_str()) {
                Err(_) => {
                    return Err(Error::ParseSize);
                },
                Ok(v) => v,
            };
            let id = match guid_id_exec(guid.as_str()) {
                None => {
                    return Err(Error::ParseInteger);
                },
                Some(v) => v,
            };
            let download_link = crate::strutil::clone_string(&link);
            Ok(
                ListItem {
                    title,
                    link,
                    pub_date: date,
                    guid,
                    id,
                    seeders,
                    leechers,
                    downloads,
                    info_hash: Some(info_hash),
                    category,
                    size,
                    comments,
                    trusted,
                    remake,
                    description: Some(desc),
                    download_link: Some(download_link),
                    magnet_link: None,
                },
            )
        },
        _ => Err(Error::ParseXml),
    }
}

/// The content ranges of the `item` elements at or after `from`.
pub open spec fn item_ranges(s: Seq<u8>, from: int) -> Seq<(int, int)>
    decreases s.len() + 1 - from,
{
    if from < 0 {
        Seq::empty()
    } else {
        match spec_find(s, nm_item_open(), from) {
            None => Seq::empty(),
            Some(i) => match spec_find(s, nm_item_close(), i + 6) {
                None => Seq::empty(),
                Some(j) => if from <= i && i + 6 <= j && j + 7 <= s.len() {
                    seq![(i + 6, j)] + item_ranges(s, j + 7)
                } else {
                    Seq::empty()
                },
            },
        }
    }
}

/// Collects the `item` content ranges of the document.
fn collect_items(s: &[u8]) -> (r: Vec<(usize, usize)>)
    ensures
        r@.map_values(|p: (usize, usize)| (p.0 as int, p.1 as int)) == item_ranges(s@, 0),
        forall|k: int| 0 <= k < r@.len() ==> (#[trigger] r@[k]).0 <= r@[k].1 <= s@.len(),
{
    let n = s.len();
    let n_open = nm_item_open_exec();
    let n_close = nm_item_close_exec();
    let mut out: Vec<(usize, usize)> = Vec::new();
    let mut pos: usize = 0;
    loop
        invariant
            0 <= pos,
            n == s@.len(),
            n_open@ == nm_item_open(),
            n_close@ == nm_item_close(),
            item_ranges(s@, 0) == out@.map_values(|p: (usize, usize)| (p.0 as int, p.1 as int))
                + item_ranges(s@, pos as int),
            forall|k: int| 0 <= k < out@.len() ==> (#[trigger] out@[k]).0 <= out@[k].1 <= s@.len(),
        decreases s@.len() + 1 - pos,
    {
        let ghost pre = out@.map_values(|p: (usize, usize)| (p.0 as int, p.1 as int));
        let i = match crate::xml::find_from(s, n_open.as_slice(), pos) {
            None => {
                proof {
                    assert(item_ranges(s@, pos as int) =~= Seq::<(int, int)>::empty());
                    assert(out@.map_values(|p: (usize, usize)| (p.0 as int, p.1 as int))
                        =~= item_ranges(s@, 0));
                }
                return out;
            },
            Some(i) => i,
        };
        proof {
            crate::xml::lemma_spec_find_advances(s@, nm_item_open(), pos as int);
        }
        let j = match crate::xml::find_from(s, n_close.as_slice(), i + 6) {
            None => {
                proof {
                    assert(item_ranges(s@, pos as int) =~= Seq::<(int, int)>::empty());
                    assert(out@.map_values(|p: (usize, usize)| (p.0 as int, p.1 as int))
                        =~= item_ranges(s@, 0));
                }
                return out;
            },
            Some(j) => j,
        };
        proof {
            crate::xml::lemma_spec_find_advances(s@, nm_item_close(), i + 6);
        }
        let ghost prelen = out@.len();
        out.push((i + 6, j));
        proof {
            assert(item_ranges(s@, pos as int) == seq![(i + 6 as int, j as int)] + item_ranges(
                s@,
                j + 7,
            ));
            assert(out@.map_values(|p: (usize, usize)| (p.0 as int, p.1 as int)) =~= pre + seq![
                (i + 6 as int, j as int)]);
            assert(out@.map_values(|p: (usize, usize)| (p.0 as int, p.1 as int)) + item_ranges(
                s@,
                j + 7,
            ) =~= item_ranges(s@, 0));
        }
        pos = j + 7;
    }
}

/// What a sequence of item segments denotes: the first decoding error, or
/// all the models in order.
pub open spec fn spec_items(ch: Seq<u8>, ranges: Seq<(int, int)>) -> Result<
    Seq<FeedItemModel>,
    Error,
>
    decreases ranges.len(),
{
    if ranges.len() == 0 {
        Ok(Seq::empty())
    } else {
        match spec_feed_item(ch.subrange(ranges[0].0, ranges[0].1)) {
            Err(e) => Err(e),
            Ok(m) => match spec_items(ch, ranges.drop_first()) {
                Err(e) => Err(e),
                Ok(rest) => Ok(seq![m] + rest),
            },
        }
    }
}

/// Pointwise agreement of the decoded items with their models.
pub open spec fn items_match(items: Seq<ListItem>, ms: Seq<FeedItemModel>) -> bool {
    items.len() == ms.len() && forall|k: int|
        0 <= k < items.len() ==> item_matches(#[trigger] items[k], ms[k])
}

/// What the whole feed document denotes.
pub open spec fn spec_feed(doc: Seq<u8>) -> Result<Seq<FeedItemModel>, Error> {
    match spec_tag_range(doc, nm_channel()) {
        None => Err(Error::ParseXml),
        Some(p) => {
            let ch = doc.subrange(p.0, p.1);
            if spec_tag_range(ch, nm_title()) is None || spec_tag_range(
                ch,
                nm_description(),
            ) is None {
                Err(Error::ParseXml)
            } else {
                spec_items(ch, item_ranges(ch, 0))
            }
        },
    }
}

/// Decodes the XML feed into canonical list items.
#[verifier::rlimit(100)]
#[verifier::loop_isolation(false)]
pub fn parse(data: &str) -> (r: Result<Vec<ListItem>, Error>)
    ensures
        match r {
            Ok(items) => spec_feed(data.spec_bytes()) is Ok && items_match(
                items@,
                spec_feed(data.spec_bytes())->Ok_0,
            ),
            Err(e) => spec_feed(data.spec_bytes()) == Err::<Seq<FeedItemModel>, Error>(e),
        },
{
    let doc = crate::strutil::str_to_bytes(data);
    let n_channel = nm_channel_exec();
    let ch = match crate::xml::tag_range(doc.as_slice(), n_channel.as_slice()) {
        None => {
            return Err(Error::ParseXml);
        },
        Some((a, b)) => crate::scan::subvec(doc.as_slice(), a, b),
    };
    let n_title = nm_title_exec();
    let n_desc = nm_description_exec();
    if crate::xml::tag_range(ch.as_slice(), n_title.as_slice()).is_none() || crate::xml::tag_range(
        ch.as_slice(),
        n_desc.as_slice(),
    ).is_none() {
        return Err(Error::ParseXml);
    }
    let ranges = collect_items(ch.as_slice());
    let ghost rs = ranges@.map_values(|p: (usize, usize)| (p.0 as int, p.1 as int));
    let mut items: Vec<ListItem> = Vec::new();
    let ghost mut ms: Seq<FeedItemModel> = Seq::empty();
    let mut i: usize = 0;
    proof {
        assert(rs.skip(0) =~= rs);
    }
    while i < ranges.len()
        invariant
            0 <= i <= ranges@.len(),
            rs == ranges@.map_values(|p: (usize, usize)| (p.0 as int, p.1 as int)),
            forall|k: int| 0 <= k < ranges@.len() ==> (#[trigger] ranges@[k]).0 <= ranges@[k].1
                <= ch@.len(),
            items@.len() == ms.len(),
            forall|k: int| 0 <= k < items@.len() ==> item_matches(#[trigger] items@[k], ms[k]),
            spec_items(ch@, rs) == (match spec_items(ch@, rs.skip(i as int)) {
                Ok(rest) => Ok::<Seq<FeedItemModel>, Error>(ms + rest),
                Err(e) => Err::<Seq<FeedItemModel>, Error>(e),
            }),
        decreases ranges@.len() - i,
    {
        let (a, b) = (ranges[i].0, ranges[i].1);
        let seg = crate::scan::subvec(ch.as_slice(), a, b);
        proof {
            assert(rs.skip(i as int)[0] == (a as int, b as int));
            assert(rs.skip(i as int).drop_first() =~= rs.skip(i + 1));
        }
        match parse_item(seg.as_slice()) {
            Err(e) => {
                proof {
                    assert(spec_items(ch@, rs.skip(i as int)) == Err::<
                        Seq<FeedItemModel>,
                        Error,
                    >(e));
                    assert(spec_items(ch@, rs) == Err::<Seq<FeedItemModel>, Error>(e));
                    assert(spec_feed(data.spec_bytes()) == Err::<Seq<FeedItemModel>, Error>(e));
                }
                return Err(e);
            },
            Ok(it) => {
                let ghost m = spec_feed_item(seg@)->Ok_0;
                let ghost old_ms = ms;
                items.push(it);
                proof {
                    ms = old_ms + seq![m];
                    assert(spec_items(ch@, rs.skip(i as int)) == (match spec_items(
                        ch@,
                        rs.skip(i + 1),
                    ) {
                        Ok(rest) => Ok::<Seq<FeedItemModel>, Error>(seq![m] + rest),
                        Err(e) => Err::<Seq<FeedItemModel>, Error>(e),
                    }));
                    match spec_items(ch@, rs.skip(i + 1)) {
                        Ok(rest) => {
                            assert(old_ms + (seq![m] + rest) =~= ms + rest);
                        },
                        Err(_) => {},
                    }
                    assert(ms[ms.len() - 1] == m);
                    assert(forall|k: int| 0 <= k < old_ms.len() ==> ms[k] == old_ms[k]);
                }
            },
        }
        i = i + 1;
    }
    proof {
        assert(rs.skip(ranges@.len() as int) =~= Seq::<(int, int)>::empty());
        assert(spec_items(ch@, rs) == Ok::<Seq<FeedItemModel>, Error>(ms + Seq::empty()));
        assert(ms + Seq::<FeedItemModel>::empty() =~= ms);
    }
    Ok(items)
}

} // verus!
