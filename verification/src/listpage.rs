//! The HTML list parser: decodes a rendered listing page into the same
//! canonical list items as the feed.
//!
//! The listing's rows are the `tr` elements of the document's first
//! `tbody`; each row must hold at least eight `td` cells in the wire
//! order category, title, download, size, date, seeders, leechers,
//! downloads.  A missing cell, anchor or attribute, or an unparsable
//! field, fails the whole document.

use vstd::prelude::*;
use vstd::string::StringSliceAdditionalSpecFns;
use vstd::utf8::{decode_utf8, encode_utf8, valid_utf8};

use crate::Error;
use crate::data::{Category, category_from_code};
use crate::feed::spec_guid_id;
use crate::htmlscan::{attr_of, elem_text, elems};
use crate::model::ListItem;
use crate::normalize::spec_size;
use crate::scan::{all_digits, digits_val, spec_i64};
use crate::urlbuild::trim_slashes;
use crate::xml::spec_find;

verus! {

/// The bytes of `tbody`.
pub open spec fn nb_tbody() -> Seq<u8> {
    seq![116u8, 98u8, 111u8, 100u8, 121u8]
}

fn nb_tbody_exec() -> (r: Vec<u8>)
    ensures
        r@ == nb_tbody(),
{
    let a: [u8; 5] = [116, 98, 111, 100, 121];
    let r = vstd::slice::slice_to_vec(a.as_slice());
    proof {
        assert(r@ =~= nb_tbody());
    }
    r
}

/// The bytes of `tr`.
pub open spec fn nb_tr() -> Seq<u8> {
    seq![116u8, 114u8]
}

fn nb_tr_exec() -> (r: Vec<u8>)
    ensures
        r@ == nb_tr(),
{
    let a: [u8; 2] = [116, 114];
    let r = vstd::slice::slice_to_vec(a.as_slice());
    proof {
        assert(r@ =~= nb_tr());
    }
    r
}

/// The bytes of `td`.
pub open spec fn nb_td() -> Seq<u8> {
    seq![116u8, 100u8]
}

fn nb_td_exec() -> (r: Vec<u8>)
    ensures
        r@ == nb_td(),
{
    let a: [u8; 2] = [116, 100];
    let r = vstd::slice::slice_to_vec(a.as_slice());
    proof {
        assert(r@ =~= nb_td());
    }
    r
}

/// The bytes of `a`.
pub open spec fn nb_a() -> Seq<u8> {
    seq![97u8]
}

fn nb_a_exec() -> (r: Vec<u8>)
    ensures
        r@ == nb_a(),
{
    let a: [u8; 1] = [97];
    let r = vstd::slice::slice_to_vec(a.as_slice());
    proof {
        assert(r@ =~= nb_a());
    }
    r
}

/// The bytes of `href`.
pub open spec fn nb_href() -> Seq<u8> {
    seq![104u8, 114u8, 101u8, 102u8]
}

fn nb_href_exec() -> (r: Vec<u8>)
    ensures
        r@ == nb_href(),
{
    let a: [u8; 4] = [104, 114, 101, 102];
    let r = vstd::slice::slice_to_vec(a.as_slice());
    proof {
        assert(r@ =~= nb_href());
    }
    r
}

/// The bytes of `title`.
pub open spec fn nb_title() -> Seq<u8> {
    seq![116u8, 105u8, 116u8, 108u8, 101u8]
}

fn nb_title_exec() -> (r: Vec<u8>)
    ensures
        r@ == nb_title(),
{
    let a: [u8; 5] = [116, 105, 116, 108, 101];
    let r = vstd::slice::slice_to_vec(a.as_slice());
    proof {
        assert(r@ =~= nb_title());
    }
    r
}

/// The bytes of `class`.
pub open spec fn nb_class() -> Seq<u8> {
    seq![99u8, 108u8, 97u8, 115u8, 115u8]
}

fn nb_class_exec() -> (r: Vec<u8>)
    ensures
        r@ == nb_class(),
{
    let a: [u8; 5] = [99, 108, 97, 115, 115];
    let r = vstd::slice::slice_to_vec(a.as_slice());
    proof {
        assert(r@ =~= nb_class());
    }
    r
}

/// The bytes of `data-timestamp`.
pub open spec fn nb_data_timestamp() -> Seq<u8> {
    seq![100u8, 97u8, 116u8, 97u8, 45u8, 116u8, 105u8, 109u8, 101u8, 115u8, 116u8, 97u8, 109u8, 112u8]
}

fn nb_data_timestamp_exec() -> (r: Vec<u8>)
    ensures
        r@ == nb_data_timestamp(),
{
    let a: [u8; 14] = [100, 97, 116, 97, 45, 116, 105, 109, 101, 115, 116, 97, 109, 112];
    let r = vstd::slice::slice_to_vec(a.as_slice());
    proof {
        assert(r@ =~= nb_data_timestamp());
    }
    r
}

/// The bytes of `success`.
pub open spec fn nb_success() -> Seq<u8> {
    seq![115u8, 117u8, 99u8, 99u8, 101u8, 115u8, 115u8]
}

fn nb_success_exec() -> (r: Vec<u8>)
    ensures
        r@ == nb_success(),
{
    let a: [u8; 7] = [115, 117, 99, 99, 101, 115, 115];
    let r = vstd::slice::slice_to_vec(a.as_slice());
    proof {
        assert(r@ =~= nb_success());
    }
    r
}

/// The bytes of `danger`.
pub open spec fn nb_danger() -> Seq<u8> {
    seq![100u8, 97u8, 110u8, 103u8, 101u8, 114u8]
}

fn nb_danger_exec() -> (r: Vec<u8>)
    ensures
        r@ == nb_danger(),
{
    let a: [u8; 6] = [100, 97, 110, 103, 101, 114];
    let r = vstd::slice::slice_to_vec(a.as_slice());
    proof {
        assert(r@ =~= nb_danger());
    }
    r
}


/// The abstract content of one listing row.
pub struct RowModel {
    pub title: Seq<char>,
    pub pub_date: i64,
    pub guid: Seq<char>,
    pub id: int,
    pub seeders: int,
    pub leechers: int,
    pub downloads: int,
    pub category: Category,
    pub size: u64,
    pub comments: int,
    pub trusted: bool,
    pub remake: bool,
    pub download_link: Seq<char>,
    pub magnet_link: Seq<char>,
}

/// The characters of a byte fragment, when it is valid UTF-8.
pub open spec fn chars_of(b: Seq<u8>) -> Option<Seq<char>> {
    if valid_utf8(b) {
        Some(decode_utf8(b))
    } else {
        None
    }
}

fn chars_of_exec(b: Vec<u8>) -> (r: Option<String>)
    ensures
        match r {
            Some(s) => chars_of(b@) == Some(s@),
            None => chars_of(b@) is None,
        },
{
    crate::strutil::bytes_to_string(b)
}

/// The slice of `s` between its first `=` and the following `=` or end.
pub open spec fn second_of_eq(s: Seq<u8>) -> Option<Seq<u8>> {
    match spec_find(s, seq![61u8], 0) {
        None => None,
        Some(i) => match spec_find(s, seq![61u8], i + 1) {
            None => if 0 <= i + 1 <= s.len() {
                Some(s.skip(i + 1))
            } else {
                None
            },
            Some(j) => if 0 <= i + 1 <= j <= s.len() {
                Some(s.subrange(i + 1, j))
            } else {
                None
            },
        },
    }
}

fn second_of_eq_exec(s: &[u8]) -> (r: Option<Vec<u8>>)
    ensures
        match r {
            Some(v) => second_of_eq(s@) == Some(v@),
            None => second_of_eq(s@) is None,
        },
{
    let n = s.len();
    let eq: [u8; 1] = [61];
    proof {
        assert(eq@ =~= seq![61u8]);
    }
    let i = match crate::xml::find_from(s, eq.as_slice(), 0) {
        None => {
            return None;
        },
        Some(i) => i,
    };
    proof {
        crate::xml::lemma_spec_find_advances(s@, eq@, 0);
    }
    match crate::xml::find_from(s, eq.as_slice(), i + 1) {
        None => Some(crate::scan::subvec(s, i + 1, n)),
        Some(j) => {
            proof {
                crate::xml::lemma_spec_find_advances(s@, eq@, i + 1);
            }
            Some(crate::scan::subvec(s, i + 1, j))
        },
    }
}

/// The category a cell's first anchor points at.
pub open spec fn spec_cat(cell: Seq<u8>) -> Result<Category, Error> {
    let anchors = elems(cell, nb_a(), 0);
    if anchors.len() == 0 {
        Err(Error::HtmlMissingElement)
    } else {
        match attr_of(cell.subrange(anchors[0].0, anchors[0].1), nb_href()) {
            None => Err(Error::HtmlMissingAttribute),
            Some(href) => match second_of_eq(href) {
                None => Err(Error::ParseString),
                Some(code) => match chars_of(code) {
                    None => Err(Error::ParseString),
                    Some(cs) => match category_from_code(cs) {
                        None => Err(Error::ParseCategory),
                        Some(c) => Ok(c),
                    },
                },
            },
        }
    }
}

fn cat_exec(cell: &[u8]) -> (r: Result<Category, Error>)
    ensures
        r == spec_cat(cell@),
{
    let n_a = nb_a_exec();
    let n_href = nb_href_exec();
    let anchors = crate::htmlscan::elems_exec(cell, n_a.as_slice());
    if anchors.len() == 0 {
        proof {
            assert(elems(cell@, nb_a(), 0).len() == 0);
        }
        return Err(Error::HtmlMissingElement);
    }
    let (a0, a1) = (anchors[0].0, anchors[0].1);
    proof {
        assert(elems(cell@, nb_a(), 0)[0] == (a0 as int, a1 as int, anchors@[0].2 as int));
    }
    let open = crate::scan::subvec(cell, a0, a1);
    let href = match crate::htmlscan::attr_exec(open.as_slice(), n_href.as_slice()) {
        None => {
            return Err(Error::HtmlMissingAttribute);
        },
        Some(h) => h,
    };
    let code = match second_of_eq_exec(href.as_slice()) {
        None => {
            return Err(Error::ParseString);
        },
        Some(c) => c,
    };
    let cs = match chars_of_exec(code) {
        None => {
            return Err(Error::ParseString);
        },
        Some(s) => s,
    };
    match Category::from_str(cs.as_str()) {
        Err(_) => Err(Error::ParseCategory),
        Ok(c) => Ok(c),
    }
}

/// The title cell: with two anchors the first counts comments and the
/// second carries the item; with one, that anchor carries the item.
pub open spec fn spec_title_cell(cell: Seq<u8>) -> Result<(Seq<char>, Seq<u8>, int), Error> {
    let anchors = elems(cell, nb_a(), 0);
    if anchors.len() == 0 {
        Err(Error::HtmlMissingElement)
    } else {
        let ta = if anchors.len() >= 2 {
            anchors[1]
        } else {
            anchors[0]
        };
        let topen = cell.subrange(ta.0, ta.1);
        match attr_of(topen, nb_title()) {
            None => Err(Error::HtmlMissingAttribute),
            Some(tb) => match chars_of(tb) {
                None => Err(Error::ParseString),
                Some(title) => match attr_of(topen, nb_href()) {
                    None => Err(Error::HtmlMissingAttribute),
                    Some(href) => {
                        if anchors.len() >= 2 {
                            let ctext = elem_text(
                                cell.subrange(anchors[0].1, anchors[0].2),
                            );
                            if all_digits(ctext) && ctext.len() > 0 && digits_val(ctext)
                                <= usize::MAX {
                                Ok((title, href, digits_val(ctext)))
                            } else {
                                Err(Error::ParseNumber)
                            }
                        } else {
                            Ok((title, href, 0))
                        }
                    },
                },
            },
        }
    }
}

fn title_cell_exec(cell: &[u8]) -> (r: Result<(String, Vec<u8>, usize), Error>)
    ensures
        match r {
            Ok(t) => spec_title_cell(cell@) == Ok::<(Seq<char>, Seq<u8>, int), Error>(
                (t.0@, t.1@, t.2 as int),
            ),
            Err(e) => spec_title_cell(cell@) == Err::<(Seq<char>, Seq<u8>, int), Error>(e),
        },
{
    let n_a = nb_a_exec();
    let n_href = nb_href_exec();
    let n_title = nb_title_exec();
    let anchors = crate::htmlscan::elems_exec(cell, n_a.as_slice());
    if anchors.len() == 0 {
        proof {
            assert(elems(cell@, nb_a(), 0).len() == 0);
        }
        return Err(Error::HtmlMissingElement);
    }
    let two = anchors.len() >= 2;
    let ta = if two {
        anchors[1]
    } else {
        anchors[0]
    };
    proof {
        if two {
            assert(elems(cell@, nb_a(), 0)[1] == (ta.0 as int, ta.1 as int, ta.2 as int));
        } else {
            assert(elems(cell@, nb_a(), 0)[0] == (ta.0 as int, ta.1 as int, ta.2 as int));
        }
    }
    let topen = crate::scan::subvec(cell, ta.0, ta.1);
    let tb = match crate::htmlscan::attr_exec(topen.as_slice(), n_title.as_slice()) {
        None => {
            return Err(Error::HtmlMissingAttribute);
        },
        Some(t) => t,
    };
    let title = match chars_of_exec(tb) {
        None => {
            return Err(Error::ParseString);
        },
        Some(t) => t,
    };
    let href = match crate::htmlscan::attr_exec(topen.as_slice(), n_href.as_slice()) {
        None => {
            return Err(Error::HtmlMissingAttribute);
        },
        Some(h) => h,
    };
    if two {
        let c0 = anchors[0];
        proof {
            assert(elems(cell@, nb_a(), 0)[0] == (c0.0 as int, c0.1 as int, c0.2 as int));
        }
        let craw = crate::scan::subvec(cell, c0.1, c0.2);
        let ctext = crate::htmlscan::elem_text_exec(craw.as_slice());
        match crate::scan::parse_u64(ctext.as_slice()) {
            None => Err(Error::ParseNumber),
            Some(v) => {
                if v <= usize::MAX as u64 {
                    Ok((title, href, v as usize))
                } else {
                    Err(Error::ParseNumber)
                }
            },
        }
    } else {
        Ok((title, href, 0))
    }
}

/// The download cell: the torrent href and the magnet href of its two
/// anchors.
pub open spec fn spec_download_cell(cell: Seq<u8>) -> Result<(Seq<u8>, Seq<u8>), Error> {
    let anchors = elems(cell, nb_a(), 0);
    if anchors.len() < 2 {
        Err(Error::HtmlMissingElement)
    } else {
        match attr_of(cell.subrange(anchors[0].0, anchors[0].1), nb_href()) {
            None => Err(Error::HtmlMissingAttribute),
            Some(d) => match attr_of(cell.subrange(anchors[1].0, anchors[1].1), nb_href()) {
                None => Err(Error::HtmlMissingAttribute),
                Some(m) => Ok((d, m)),
            },
        }
    }
}

fn download_cell_exec(cell: &[u8]) -> (r: Result<(Vec<u8>, Vec<u8>), Error>)
    ensures
        match r {
            Ok(t) => spec_download_cell(cell@) == Ok::<(Seq<u8>, Seq<u8>), Error>((t.0@, t.1@)),
            Err(e) => spec_download_cell(cell@) == Err::<(Seq<u8>, Seq<u8>), Error>(e),
        },
{
    let n_a = nb_a_exec();
    let n_href = nb_href_exec();
    let anchors = crate::htmlscan::elems_exec(cell, n_a.as_slice());
    if anchors.len() < 2 {
        proof {
            assert(elems(cell@, nb_a(), 0).len() < 2);
        }
        return Err(Error::HtmlMissingElement);
    }
    let a0 = anchors[0];
    let a1 = anchors[1];
    proof {
        assert(elems(cell@, nb_a(), 0)[0] == (a0.0 as int, a0.1 as int, a0.2 as int));
        assert(elems(cell@, nb_a(), 0)[1] == (a1.0 as int, a1.1 as int, a1.2 as int));
    }
    let open0 = crate::scan::subvec(cell, a0.0, a0.1);
    let d = match crate::htmlscan::attr_exec(open0.as_slice(), n_href.as_slice()) {
        None => {
            return Err(Error::HtmlMissingAttribute);
        },
        Some(d) => d,
    };
    let open1 = crate::scan::subvec(cell, a1.0, a1.1);
    let m = match crate::htmlscan::attr_exec(open1.as_slice(), n_href.as_slice()) {
        None => {
            return Err(Error::HtmlMissingAttribute);
        },
        Some(m) => m,
    };
    Ok((d, m))
}

/// A cell's visible text read as an unsigned count.
pub open spec fn spec_count_cell(cell: Seq<u8>) -> Result<int, Error> {
    let t = elem_text(cell);
    if all_digits(t) && t.len() > 0 && digits_val(t) <= usize::MAX {
        Ok(digits_val(t))
    } else {
        Err(Error::ParseInteger)
    }
}

fn count_cell_exec(cell: &[u8]) -> (r: Result<usize, Error>)
    ensures
        match r {
            Ok(v) => spec_count_cell(cell@) == Ok::<int, Error>(v as int),
            Err(e) => spec_count_cell(cell@) == Err::<int, Error>(e),
        },
{
    let t = crate::htmlscan::elem_text_exec(cell);
    match crate::scan::parse_u64(t.as_slice()) {
        None => Err(Error::ParseInteger),
        Some(v) => {
            if v <= usize::MAX as u64 {
                Ok(v as usize)
            } else {
                Err(Error::ParseInteger)
            }
        },
    }
}

} // verus!

verus! {

/// `pat` occurs somewhere in `s`.
pub open spec fn spec_contains(s: Seq<u8>, pat: Seq<u8>) -> bool {
    exists|j: int| crate::scan::occurs_at(s, pat, j)
}

/// What one listing row denotes, or the first error in decoding it.
#[verifier::opaque]
pub open spec fn spec_row(row_open: Seq<u8>, row: Seq<u8>, base: Seq<char>) -> Result<
    RowModel,
    Error,
> {
    let cells = elems(row, nb_td(), 0);
    if cells.len() < 8 {
        Err(Error::HtmlMissingElement)
    } else {
        match spec_cat(row.subrange(cells[0].1, cells[0].2)) {
            Err(e) => Err(e),
            Ok(category) => match spec_title_cell(row.subrange(cells[1].1, cells[1].2)) {
                Err(e) => Err(e),
                Ok(tt) => match spec_download_cell(row.subrange(cells[2].1, cells[2].2)) {
                    Err(e) => Err(e),
                    Ok(dm) => {
                        let size_text = elem_text(row.subrange(cells[3].1, cells[3].2));
                        match attr_of(
                            row.subrange(cells[4].0, cells[4].1),
                            nb_data_timestamp(),
                        ) {
                            None => Err(Error::HtmlMissingAttribute),
                            Some(ts) => match spec_i64(ts) {
                                None => Err(Error::ParseInteger),
                                Some(date) => match spec_count_cell(
                                    row.subrange(cells[5].1, cells[5].2),
                                ) {
                                    Err(e) => Err(e),
                                    Ok(seeders) => match spec_count_cell(
                                        row.subrange(cells[6].1, cells[6].2),
                                    ) {
                                        Err(e) => Err(e),
                                        Ok(leechers) => match spec_count_cell(
                                            row.subrange(cells[7].1, cells[7].2),
                                        ) {
                                            Err(e) => Err(e),
                                            Ok(downloads) => spec_row_tail(
                                                row_open,
                                                base,
                                                category,
                                                tt,
                                                dm,
                                                size_text,
                                                date,
                                                seeders,
                                                leechers,
                                                downloads,
                                            ),
                                        },
                                    },
                                },
                            },
                        }
                    },
                },
            },
        }
    }
}

/// The tail of a row's decoding: flags, link joining, id and size.
pub open spec fn spec_row_tail(
    row_open: Seq<u8>,
    base: Seq<char>,
    category: Category,
    tt: (Seq<char>, Seq<u8>, int),
    dm: (Seq<u8>, Seq<u8>),
    size_text: Seq<u8>,
    date: i64,
    seeders: int,
    leechers: int,
    downloads: int,
) -> Result<RowModel, Error> {
    let trusted = match attr_of(row_open, nb_class()) {
        Some(c) => spec_contains(c, nb_success()),
        None => false,
    };
    let remake = match attr_of(row_open, nb_class()) {
        Some(c) => spec_contains(c, nb_danger()),
        None => false,
    };
    match chars_of(tt.1) {
        None => Err(Error::ParseString),
        Some(hrefc) => match chars_of(dm.0) {
            None => Err(Error::ParseString),
            Some(dlc) => match chars_of(dm.1) {
                None => Err(Error::ParseString),
                Some(mgc) => {
                    let guid = trim_slashes(base) + hrefc;
                    let dl = trim_slashes(base) + dlc;
                    match spec_guid_id(encode_utf8(guid)) {
                        None => Err(Error::ParseInteger),
                        Some(id) => match chars_of(size_text) {
                            None => Err(Error::ParseString),
                            Some(szc) => match crate::normalize::spec_size(encode_utf8(szc)) {
                                None => Err(Error::ParseSize),
                                Some(size) => Ok(
                                    RowModel {
                                        title: tt.0,
                                        pub_date: date,
                                        guid: guid,
                                        id: id,
                                        seeders: seeders,
                                        leechers: leechers,
                                        downloads: downloads,
                                        category: category,
                                        size: size,
                                        comments: tt.2,
                                        trusted: trusted,
                                        remake: remake,
                                        download_link: dl,
                                        magnet_link: mgc,
                                    },
                                ),
                            },
                        },
                    }
                },
            },
        },
    }
}

/// The canonical record carries exactly what the row model says.
pub open spec fn row_matches(i: ListItem, m: RowModel) -> bool {
    &&& i.title@ == m.title
    &&& i.link@ == m.download_link
    &&& i.pub_date == m.pub_date
    &&& i.guid@ == m.guid
    &&& i.id == m.id
    &&& i.seeders == m.seeders
    &&& i.leechers == m.leechers
    &&& i.downloads == m.downloads
    &&& i.info_hash is None
    &&& i.category == m.category
    &&& i.size == m.size
    &&& i.comments == m.comments
    &&& i.trusted == m.trusted
    &&& i.remake == m.remake
    &&& i.description is None
    &&& (match i.download_link {
        Some(d) => d@ == m.download_link,
        None => false,
    })
    &&& (match i.magnet_link {
        Some(x) => x@ == m.magnet_link,
        None => false,
    })
}

/// Decodes one listing row.
#[verifier::rlimit(100)]
fn row_exec(row_open: &[u8], row: &[u8], base: &str) -> (r: Result<ListItem, Error>)
    ensures
        match r {
            Ok(it) => spec_row(row_open@, row@, base@) is Ok && row_matches(
                it,
                spec_row(row_open@, row@, base@)->Ok_0,
            ),
            Err(e) => spec_row(row_open@, row@, base@) == Err::<RowModel, Error>(e),
        },
{
    proof {
        reveal(spec_row);
    }
    let n_td = nb_td_exec();
    let cells = crate::htmlscan::elems_exec(row, n_td.as_slice());
    if cells.len() < 8 {
        proof {
            assert(elems(row@, nb_td(), 0).len() < 8);
        }
        return Err(Error::HtmlMissingElement);
    }
    proof {
        assert forall|k: int| 0 <= k < 8 implies (elems(row@, nb_td(), 0)[k] == (
        cells@[k].0 as int,
        cells@[k].1 as int,
        cells@[k].2 as int,
        )) by {
            assert(cells@.map_values(
                |p: (usize, usize, usize)| (p.0 as int, p.1 as int, p.2 as int),
            )[k] == (cells@[k].0 as int, cells@[k].1 as int, cells@[k].2 as int));
        }
    }
    let c0 = crate::scan::subvec(row, cells[0].1, cells[0].2);
    let category = match cat_exec(c0.as_slice()) {
        Err(e) => {
            return Err(e);
        },
        Ok(c) => c,
    };
    let c1 = crate::scan::subvec(row, cells[1].1, cells[1].2);
    let (title, href, comments) = match title_cell_exec(c1.as_slice()) {
        Err(e) => {
            return Err(e);
        },
        Ok(t) => t,
    };
    let c2 = crate::scan::subvec(row, cells[2].1, cells[2].2);
    let (dhref, mhref) = match download_cell_exec(c2.as_slice()) {
        Err(e) => {
            return Err(e);
        },
        Ok(t) => t,
    };
    let c3 = crate::scan::subvec(row, cells[3].1, cells[3].2);
    let size_text = crate::htmlscan::elem_text_exec(c3.as_slice());
    let c4open = crate::scan::subvec(row, cells[4].0, cells[4].1);
    let n_ts = nb_data_timestamp_exec();
    let tsb = match crate::htmlscan::attr_exec(c4open.as_slice(), n_ts.as_slice()) {
        None => {
            return Err(Error::HtmlMissingAttribute);
        },
        Some(t) => t,
    };
    let date = match crate::scan::parse_i64(tsb.as_slice()) {
        None => {
            return Err(Error::ParseInteger);
        },
        Some(d) => d,
    };
    let c5 = crate::scan::subvec(row, cells[5].1, cells[5].2);
    let seeders = match count_cell_exec(c5.as_slice()) {
        Err(e) => {
            return Err(e);
        },
        Ok(v) => v,
    };
    let c6 = crate::scan::subvec(row, cells[6].1, cells[6].2);
    let leechers = match count_cell_exec(c6.as_slice()) {
        Err(e) => {
            return Err(e);
        },
        Ok(v) => v,
    };
    let c7 = crate::scan::subvec(row, cells[7].1, cells[7].2);
    let downloads = match count_cell_exec(c7.as_slice()) {
        Err(e) => {
            return Err(e);
        },
        Ok(v) => v,
    };
    let n_class = nb_class_exec();
    let n_success = nb_success_exec();
    let n_danger = nb_danger_exec();
    let mut trusted = false;
    let mut remake = false;
    match crate::htmlscan::attr_exec(row_open, n_class.as_slice()) {
        Some(cls) => {
            trusted = crate::scan::contains(cls.as_slice(), n_success.as_slice());
            remake = crate::scan::contains(cls.as_slice(), n_danger.as_slice());
        },
        None => {},
    }
    let hrefc = match chars_of_exec(href) {
        None => {
            return Err(Error::ParseString);
        },
        Some(h) => h,
    };
    let dlc = match chars_of_exec(dhref) {
        None => {
            return Err(Error::ParseString);
        },
        Some(d) => d,
    };
    let mgc = match chars_of_exec(mhref) {
        None => {
            return Err(Error::ParseString);
        },
        Some(m) => m,
    };
    let mut guid = crate::urlbuild::trim_slashes_exec(base);
    crate::strutil::push_str(&mut guid, hrefc.as_str());
    let mut dl = crate::urlbuild::trim_slashes_exec(base);
    crate::strutil::push_str(&mut dl, dlc.as_str());
    let id = match crate::feed::guid_id_exec(guid.as_str()) {
        None => {
            return Err(Error::ParseInteger);
        },
        Some(v) => v,
    };
    let szc = match chars_of_exec(size_text) {
        None => {
            return Err(Error::ParseString);
        },
        Some(s) => s,
    };
    let size = match crate::normalize::parse_size(szc.as_str()) {
        Err(_) => {
            return Err(Error::ParseSize);
        },
        Ok(v) => v,
    };
    let dl2 = crate::strutil::clone_string(&dl);
    Ok(
        ListItem {
            title,
            link: dl,
            pub_date: date,
            guid,
            id,
            seeders,
            leechers,
            downloads,
            info_hash: None,
            category,
            size,
            comments,
            trusted,
            remake,
            description: None,
            download_link: Some(dl2),
            magnet_link: Some(mgc),
        },
    )
}

/// What a sequence of rows denotes: the first error, or all models.
pub open spec fn spec_rows(body: Seq<u8>, rows: Seq<(int, int, int)>, base: Seq<char>) -> Result<
    Seq<RowModel>,
    Error,
>
    decreases rows.len(),
{
    if rows.len() == 0 {
        Ok(Seq::empty())
    } else {
        match spec_row(
            body.subrange(rows[0].0, rows[0].1),
            body.subrange(rows[0].1, rows[0].2),
            base,
        ) {
            Err(e) => Err(e),
            Ok(m) => match spec_rows(body, rows.drop_first(), base) {
                Err(e) => Err(e),
                Ok(rest) => Ok(seq![m] + rest),
            },
        }
    }
}

/// Pointwise agreement of the decoded rows with their models.
pub open spec fn rows_match(items: Seq<ListItem>, ms: Seq<RowModel>) -> bool {
    items.len() == ms.len() && forall|k: int|
        0 <= k < items.len() ==> row_matches(#[trigger] items[k], ms[k])
}

/// What a listing page denotes: the rows of its first `tbody`, or none
/// when it has no listing.
pub open spec fn spec_list(doc: Seq<u8>, base: Seq<char>) -> Result<Seq<RowModel>, Error> {
    match crate::xml::spec_tag_range(doc, nb_tbody()) {
        None => Ok(Seq::empty()),
        Some(p) => {
            let body = doc.subrange(p.0, p.1);
            spec_rows(body, elems(body, nb_tr(), 0), base)
        },
    }
}

/// Decodes a rendered listing page into canonical list items; `url` is
/// the origin the relative links are joined with.
#[verifier::rlimit(100)]
#[verifier::loop_isolation(false)]
pub fn parse(url: &str, data: &str) -> (r: Result<Vec<ListItem>, Error>)
    ensures
        match r {
            Ok(items) => spec_list(data.spec_bytes(), url@) is Ok && rows_match(
                items@,
                spec_list(data.spec_bytes(), url@)->Ok_0,
            ),
            Err(e) => spec_list(data.spec_bytes(), url@) == Err::<Seq<RowModel>, Error>(e),
        },
{
    let doc = crate::strutil::str_to_bytes(data);
    let n_tbody = nb_tbody_exec();
    let body = match crate::xml::tag_range(doc.as_slice(), n_tbody.as_slice()) {
        None => {
            return Ok(Vec::new());
        },
        Some((a, b)) => crate::scan::subvec(doc.as_slice(), a, b),
    };
    let n_tr = nb_tr_exec();
    let rows = crate::htmlscan::elems_exec(body.as_slice(), n_tr.as_slice());
    let ghost rs = rows@.map_values(|p: (usize, usize, usize)| (p.0 as int, p.1 as int, p.2 as int));
    let mut items: Vec<ListItem> = Vec::new();
    let ghost mut ms: Seq<RowModel> = Seq::empty();
    let mut i: usize = 0;
    proof {
        assert(rs.skip(0) =~= rs);
    }
    while i < rows.len()
        invariant
            0 <= i <= rows@.len(),
            items@.len() == ms.len(),
            forall|k: int| 0 <= k < items@.len() ==> row_matches(#[trigger] items@[k], ms[k]),
            spec_rows(body@, rs, url@) == (match spec_rows(body@, rs.skip(i as int), url@) {
                Ok(rest) => Ok::<Seq<RowModel>, Error>(ms + rest),
                Err(e) => Err::<Seq<RowModel>, Error>(e),
            }),
        decreases rows@.len() - i,
    {
        let t = rows[i];
        let ropen = crate::scan::subvec(body.as_slice(), t.0, t.1);
        let rcont = crate::scan::subvec(body.as_slice(), t.1, t.2);
        proof {
            assert(rs.skip(i as int)[0] == (t.0 as int, t.1 as int, t.2 as int));
            assert(rs.skip(i as int).drop_first() =~= rs.skip(i + 1));
        }
        match row_exec(ropen.as_slice(), rcont.as_slice(), url) {
            Err(e) => {
                proof {
                    assert(spec_rows(body@, rs.skip(i as int), url@) == Err::<
                        Seq<RowModel>,
                        Error,
                    >(e));
                    assert(spec_rows(body@, rs, url@) == Err::<Seq<RowModel>, Error>(e));
                    assert(spec_list(data.spec_bytes(), url@) == Err::<Seq<RowModel>, Error>(e));
                }
                return Err(e);
            },
            Ok(it) => {
                let ghost m = spec_row(ropen@, rcont@, url@)->Ok_0;
                let ghost old_ms = ms;
                items.push(it);
                proof {
                    ms = old_ms + seq![m];
                    assert(spec_rows(body@, rs.skip(i as int), url@) == (match spec_rows(
                        body@,
                        rs.skip(i + 1),
                        url@,
                    ) {
                        Ok(rest) => Ok::<Seq<RowModel>, Error>(seq![m] + rest),
                        Err(e) => Err::<Seq<RowModel>, Error>(e),
                    }));
                    match spec_rows(body@, rs.skip(i + 1), url@) {
                        Ok(rest) => {
                            assert(old_ms + (seq![m] + rest) =~= ms + rest);
                        },
                        Err(_) => {},
                    }
                    assert(ms[ms.len() - 1] == m);
                    assert(forall|k: int| 0 <= k < old_ms.len() ==> ms[k] == old_ms[k]);
                }
            },
        }
        i = i + 1;
    }
    proof {
        assert(rs.skip(rows@.len() as int) =~= Seq::<(int, int, int)>::empty());
        assert(spec_rows(body@, rs, url@) == Ok::<Seq<RowModel>, Error>(ms + Seq::empty()));
        assert(ms + Seq::<RowModel>::empty() =~= ms);
    }
    Ok(items)
}

} // verus!

verus! {

/// Law: the two wire formats describe a listing row alike.  Where a feed
/// item's model and a page row's model carry the same values, the decoded
/// records agree field for field on id, title, seeders, leechers,
/// downloads, size and category.
pub proof fn lemma_wire_equivalence(
    i1: ListItem,
    m1: crate::feed::FeedItemModel,
    i2: ListItem,
    m2: RowModel,
)
    requires
        crate::feed::item_matches(i1, m1),
        row_matches(i2, m2),
        m1.id == m2.id,
        m1.title == m2.title,
        m1.seeders == m2.seeders,
        m1.leechers == m2.leechers,
        m1.downloads == m2.downloads,
        m1.size == m2.size,
        m1.category == m2.category,
    ensures
        i1.id == i2.id,
        i1.title@ == i2.title@,
        i1.seeders == i2.seeders,
        i1.leechers == i2.leechers,
        i1.downloads == i2.downloads,
        i1.size == i2.size,
        i1.category == i2.category,
{
}

} // verus!
