//! The HTML detail parser: decodes a rendered view page into the
//! canonical detail record.
//!
//! Tabs and newlines are first flattened to spaces.  Fields are located
//! by the page's characteristic markers: the first download link names
//! the id, labelled rows give the counters and hashes, the last category
//! link gives the category, and the file and comment panels are walked in
//! order.  The page is machine-rendered, so like-named regions do not
//! interleave.

use vstd::prelude::*;
use vstd::string::StringSliceAdditionalSpecFns;
use vstd::utf8::{decode_utf8, encode_utf8, valid_utf8};

use crate::Error;
use crate::data::{Category, category_from_code};
use crate::htmlscan::elem_text;
use crate::listpage::{chars_of, spec_contains};
use crate::model::{ViewComment, ViewFile, ViewRecord};
use crate::normalize::spec_size;
use crate::scan::{all_digits, digits_val, spec_i64, trim_spec};
use crate::urlbuild::trim_slashes;
use crate::xml::{spec_find, xml_decode};

verus! {

/// The bytes of `href="/download/`.
pub open spec fn vb_dl_href() -> Seq<u8> {
    seq![104u8, 114u8, 101u8, 102u8, 61u8, 34u8, 47u8, 100u8, 111u8, 119u8, 110u8, 108u8, 111u8, 97u8, 100u8, 47u8]
}

fn vb_dl_href_exec() -> (r: Vec<u8>)
    ensures
        r@ == vb_dl_href(),
{
    let a: [u8; 16] = [104, 114, 101, 102, 61, 34, 47, 100, 111, 119, 110, 108, 111, 97, 100, 47];
    let r = vstd::slice::slice_to_vec(a.as_slice());
    proof {
        assert(r@ =~= vb_dl_href());
    }
    r
}

/// The bytes of `panel-title`.
pub open spec fn vb_panel_title() -> Seq<u8> {
    seq![112u8, 97u8, 110u8, 101u8, 108u8, 45u8, 116u8, 105u8, 116u8, 108u8, 101u8]
}

fn vb_panel_title_exec() -> (r: Vec<u8>)
    ensures
        r@ == vb_panel_title(),
{
    let a: [u8; 11] = [112, 97, 110, 101, 108, 45, 116, 105, 116, 108, 101];
    let r = vstd::slice::slice_to_vec(a.as_slice());
    proof {
        assert(r@ =~= vb_panel_title());
    }
    r
}

/// The bytes of ` data-timestamp="`.
pub open spec fn vb_data_ts() -> Seq<u8> {
    seq![32u8, 100u8, 97u8, 116u8, 97u8, 45u8, 116u8, 105u8, 109u8, 101u8, 115u8, 116u8, 97u8, 109u8, 112u8, 61u8, 34u8]
}

fn vb_data_ts_exec() -> (r: Vec<u8>)
    ensures
        r@ == vb_data_ts(),
{
    let a: [u8; 17] = [32, 100, 97, 116, 97, 45, 116, 105, 109, 101, 115, 116, 97, 109, 112, 61, 34];
    let r = vstd::slice::slice_to_vec(a.as_slice());
    proof {
        assert(r@ =~= vb_data_ts());
    }
    r
}

/// The bytes of `seeders:`.
pub open spec fn vb_seeders() -> Seq<u8> {
    seq![115u8, 101u8, 101u8, 100u8, 101u8, 114u8, 115u8, 58u8]
}

fn vb_seeders_exec() -> (r: Vec<u8>)
    ensures
        r@ == vb_seeders(),
{
    let a: [u8; 8] = [115, 101, 101, 100, 101, 114, 115, 58];
    let r = vstd::slice::slice_to_vec(a.as_slice());
    proof {
        assert(r@ =~= vb_seeders());
    }
    r
}

/// The bytes of `leechers:`.
pub open spec fn vb_leechers() -> Seq<u8> {
    seq![108u8, 101u8, 101u8, 99u8, 104u8, 101u8, 114u8, 115u8, 58u8]
}

fn vb_leechers_exec() -> (r: Vec<u8>)
    ensures
        r@ == vb_leechers(),
{
    let a: [u8; 9] = [108, 101, 101, 99, 104, 101, 114, 115, 58];
    let r = vstd::slice::slice_to_vec(a.as_slice());
    proof {
        assert(r@ =~= vb_leechers());
    }
    r
}

/// The bytes of `completed:`.
pub open spec fn vb_completed() -> Seq<u8> {
    seq![99u8, 111u8, 109u8, 112u8, 108u8, 101u8, 116u8, 101u8, 100u8, 58u8]
}

fn vb_completed_exec() -> (r: Vec<u8>)
    ensures
        r@ == vb_completed(),
{
    let a: [u8; 10] = [99, 111, 109, 112, 108, 101, 116, 101, 100, 58];
    let r = vstd::slice::slice_to_vec(a.as_slice());
    proof {
        assert(r@ =~= vb_completed());
    }
    r
}

/// The bytes of `submitter:`.
pub open spec fn vb_submitter() -> Seq<u8> {
    seq![115u8, 117u8, 98u8, 109u8, 105u8, 116u8, 116u8, 101u8, 114u8, 58u8]
}

fn vb_submitter_exec() -> (r: Vec<u8>)
    ensures
        r@ == vb_submitter(),
{
    let a: [u8; 10] = [115, 117, 98, 109, 105, 116, 116, 101, 114, 58];
    let r = vstd::slice::slice_to_vec(a.as_slice());
    proof {
        assert(r@ =~= vb_submitter());
    }
    r
}

/// The bytes of `information:`.
pub open spec fn vb_information() -> Seq<u8> {
    seq![105u8, 110u8, 102u8, 111u8, 114u8, 109u8, 97u8, 116u8, 105u8, 111u8, 110u8, 58u8]
}

fn vb_information_exec() -> (r: Vec<u8>)
    ensures
        r@ == vb_information(),
{
    let a: [u8; 12] = [105, 110, 102, 111, 114, 109, 97, 116, 105, 111, 110, 58];
    let r = vstd::slice::slice_to_vec(a.as_slice());
    proof {
        assert(r@ =~= vb_information());
    }
    r
}

/// The bytes of `info hash:`.
pub open spec fn vb_info_hash() -> Seq<u8> {
    seq![105u8, 110u8, 102u8, 111u8, 32u8, 104u8, 97u8, 115u8, 104u8, 58u8]
}

fn vb_info_hash_exec() -> (r: Vec<u8>)
    ensures
        r@ == vb_info_hash(),
{
    let a: [u8; 10] = [105, 110, 102, 111, 32, 104, 97, 115, 104, 58];
    let r = vstd::slice::slice_to_vec(a.as_slice());
    proof {
        assert(r@ =~= vb_info_hash());
    }
    r
}

/// The bytes of `file size:`.
pub open spec fn vb_file_size() -> Seq<u8> {
    seq![102u8, 105u8, 108u8, 101u8, 32u8, 115u8, 105u8, 122u8, 101u8, 58u8]
}

fn vb_file_size_exec() -> (r: Vec<u8>)
    ensures
        r@ == vb_file_size(),
{
    let a: [u8; 10] = [102, 105, 108, 101, 32, 115, 105, 122, 101, 58];
    let r = vstd::slice::slice_to_vec(a.as_slice());
    proof {
        assert(r@ =~= vb_file_size());
    }
    r
}

/// The bytes of `href="/?c=`.
pub open spec fn vb_cat_href() -> Seq<u8> {
    seq![104u8, 114u8, 101u8, 102u8, 61u8, 34u8, 47u8, 63u8, 99u8, 61u8]
}

fn vb_cat_href_exec() -> (r: Vec<u8>)
    ensures
        r@ == vb_cat_href(),
{
    let a: [u8; 10] = [104, 114, 101, 102, 61, 34, 47, 63, 99, 61];
    let r = vstd::slice::slice_to_vec(a.as_slice());
    proof {
        assert(r@ =~= vb_cat_href());
    }
    r
}

/// The bytes of `href="magnet:`.
pub open spec fn vb_magnet_href() -> Seq<u8> {
    seq![104u8, 114u8, 101u8, 102u8, 61u8, 34u8, 109u8, 97u8, 103u8, 110u8, 101u8, 116u8, 58u8]
}

fn vb_magnet_href_exec() -> (r: Vec<u8>)
    ensures
        r@ == vb_magnet_href(),
{
    let a: [u8; 13] = [104, 114, 101, 102, 61, 34, 109, 97, 103, 110, 101, 116, 58];
    let r = vstd::slice::slice_to_vec(a.as_slice());
    proof {
        assert(r@ =~= vb_magnet_href());
    }
    r
}

/// The bytes of `id="torrent-description"`.
pub open spec fn vb_desc_id() -> Seq<u8> {
    seq![105u8, 100u8, 61u8, 34u8, 116u8, 111u8, 114u8, 114u8, 101u8, 110u8, 116u8, 45u8, 100u8, 101u8, 115u8, 99u8, 114u8, 105u8, 112u8, 116u8, 105u8, 111u8, 110u8, 34u8]
}

fn vb_desc_id_exec() -> (r: Vec<u8>)
    ensures
        r@ == vb_desc_id(),
{
    let a: [u8; 24] = [105, 100, 61, 34, 116, 111, 114, 114, 101, 110, 116, 45, 100, 101, 115, 99, 114, 105, 112, 116, 105, 111, 110, 34];
    let r = vstd::slice::slice_to_vec(a.as_slice());
    proof {
        assert(r@ =~= vb_desc_id());
    }
    r
}

/// The bytes of `torrent-file-list`.
pub open spec fn vb_file_list() -> Seq<u8> {
    seq![116u8, 111u8, 114u8, 114u8, 101u8, 110u8, 116u8, 45u8, 102u8, 105u8, 108u8, 101u8, 45u8, 108u8, 105u8, 115u8, 116u8]
}

fn vb_file_list_exec() -> (r: Vec<u8>)
    ensures
        r@ == vb_file_list(),
{
    let a: [u8; 17] = [116, 111, 114, 114, 101, 110, 116, 45, 102, 105, 108, 101, 45, 108, 105, 115, 116];
    let r = vstd::slice::slice_to_vec(a.as_slice());
    proof {
        assert(r@ =~= vb_file_list());
    }
    r
}

/// The bytes of `comment-panel`.
pub open spec fn vb_comment_panel() -> Seq<u8> {
    seq![99u8, 111u8, 109u8, 109u8, 101u8, 110u8, 116u8, 45u8, 112u8, 97u8, 110u8, 101u8, 108u8]
}

fn vb_comment_panel_exec() -> (r: Vec<u8>)
    ensures
        r@ == vb_comment_panel(),
{
    let a: [u8; 13] = [99, 111, 109, 109, 101, 110, 116, 45, 112, 97, 110, 101, 108];
    let r = vstd::slice::slice_to_vec(a.as_slice());
    proof {
        assert(r@ =~= vb_comment_panel());
    }
    r
}

/// The bytes of `comment-content`.
pub open spec fn vb_comment_content() -> Seq<u8> {
    seq![99u8, 111u8, 109u8, 109u8, 101u8, 110u8, 116u8, 45u8, 99u8, 111u8, 110u8, 116u8, 101u8, 110u8, 116u8]
}

fn vb_comment_content_exec() -> (r: Vec<u8>)
    ensures
        r@ == vb_comment_content(),
{
    let a: [u8; 15] = [99, 111, 109, 109, 101, 110, 116, 45, 99, 111, 110, 116, 101, 110, 116];
    let r = vstd::slice::slice_to_vec(a.as_slice());
    proof {
        assert(r@ =~= vb_comment_content());
    }
    r
}

/// The bytes of `class="avatar"`.
pub open spec fn vb_avatar() -> Seq<u8> {
    seq![99u8, 108u8, 97u8, 115u8, 115u8, 61u8, 34u8, 97u8, 118u8, 97u8, 116u8, 97u8, 114u8, 34u8]
}

fn vb_avatar_exec() -> (r: Vec<u8>)
    ensures
        r@ == vb_avatar(),
{
    let a: [u8; 14] = [99, 108, 97, 115, 115, 61, 34, 97, 118, 97, 116, 97, 114, 34];
    let r = vstd::slice::slice_to_vec(a.as_slice());
    proof {
        assert(r@ =~= vb_avatar());
    }
    r
}

/// The bytes of `panel-success`.
pub open spec fn vb_panel_success() -> Seq<u8> {
    seq![112u8, 97u8, 110u8, 101u8, 108u8, 45u8, 115u8, 117u8, 99u8, 99u8, 101u8, 115u8, 115u8]
}

fn vb_panel_success_exec() -> (r: Vec<u8>)
    ensures
        r@ == vb_panel_success(),
{
    let a: [u8; 13] = [112, 97, 110, 101, 108, 45, 115, 117, 99, 99, 101, 115, 115];
    let r = vstd::slice::slice_to_vec(a.as_slice());
    proof {
        assert(r@ =~= vb_panel_success());
    }
    r
}

/// The bytes of `panel-danger`.
pub open spec fn vb_panel_danger() -> Seq<u8> {
    seq![112u8, 97u8, 110u8, 101u8, 108u8, 45u8, 100u8, 97u8, 110u8, 103u8, 101u8, 114u8]
}

fn vb_panel_danger_exec() -> (r: Vec<u8>)
    ensures
        r@ == vb_panel_danger(),
{
    let a: [u8; 12] = [112, 97, 110, 101, 108, 45, 100, 97, 110, 103, 101, 114];
    let r = vstd::slice::slice_to_vec(a.as_slice());
    proof {
        assert(r@ =~= vb_panel_danger());
    }
    r
}

/// The bytes of `<div`.
pub open spec fn vb_div_open() -> Seq<u8> {
    seq![60u8, 100u8, 105u8, 118u8]
}

fn vb_div_open_exec() -> (r: Vec<u8>)
    ensures
        r@ == vb_div_open(),
{
    let a: [u8; 4] = [60, 100, 105, 118];
    let r = vstd::slice::slice_to_vec(a.as_slice());
    proof {
        assert(r@ =~= vb_div_open());
    }
    r
}

/// The bytes of `</div>`.
pub open spec fn vb_div_close() -> Seq<u8> {
    seq![60u8, 47u8, 100u8, 105u8, 118u8, 62u8]
}

fn vb_div_close_exec() -> (r: Vec<u8>)
    ensures
        r@ == vb_div_close(),
{
    let a: [u8; 6] = [60, 47, 100, 105, 118, 62];
    let r = vstd::slice::slice_to_vec(a.as_slice());
    proof {
        assert(r@ =~= vb_div_close());
    }
    r
}

/// The bytes of `<ul`.
pub open spec fn vb_ul_open() -> Seq<u8> {
    seq![60u8, 117u8, 108u8]
}

fn vb_ul_open_exec() -> (r: Vec<u8>)
    ensures
        r@ == vb_ul_open(),
{
    let a: [u8; 3] = [60, 117, 108];
    let r = vstd::slice::slice_to_vec(a.as_slice());
    proof {
        assert(r@ =~= vb_ul_open());
    }
    r
}

/// The bytes of `li`.
pub open spec fn vb_li() -> Seq<u8> {
    seq![108u8, 105u8]
}

fn vb_li_exec() -> (r: Vec<u8>)
    ensures
        r@ == vb_li(),
{
    let a: [u8; 2] = [108, 105];
    let r = vstd::slice::slice_to_vec(a.as_slice());
    proof {
        assert(r@ =~= vb_li());
    }
    r
}

/// The bytes of ` id="`.
pub open spec fn vb_id_attr() -> Seq<u8> {
    seq![32u8, 105u8, 100u8, 61u8, 34u8]
}

fn vb_id_attr_exec() -> (r: Vec<u8>)
    ensures
        r@ == vb_id_attr(),
{
    let a: [u8; 5] = [32, 105, 100, 61, 34];
    let r = vstd::slice::slice_to_vec(a.as_slice());
    proof {
        assert(r@ =~= vb_id_attr());
    }
    r
}

/// The bytes of ` src="`.
pub open spec fn vb_src_attr() -> Seq<u8> {
    seq![32u8, 115u8, 114u8, 99u8, 61u8, 34u8]
}

fn vb_src_attr_exec() -> (r: Vec<u8>)
    ensures
        r@ == vb_src_attr(),
{
    let a: [u8; 6] = [32, 115, 114, 99, 61, 34];
    let r = vstd::slice::slice_to_vec(a.as_slice());
    proof {
        assert(r@ =~= vb_src_attr());
    }
    r
}

/// The bytes of `com-`.
pub open spec fn vb_com_dash() -> Seq<u8> {
    seq![99u8, 111u8, 109u8, 45u8]
}

fn vb_com_dash_exec() -> (r: Vec<u8>)
    ensures
        r@ == vb_com_dash(),
{
    let a: [u8; 4] = [99, 111, 109, 45];
    let r = vstd::slice::slice_to_vec(a.as_slice());
    proof {
        assert(r@ =~= vb_com_dash());
    }
    r
}

/// The bytes of `https://nyaa.si/static/img/avatars/default.png`.
pub open spec fn vb_default_avatar() -> Seq<u8> {
    seq![104u8, 116u8, 116u8, 112u8, 115u8, 58u8, 47u8, 47u8, 110u8, 121u8, 97u8, 97u8, 46u8, 115u8, 105u8, 47u8, 115u8, 116u8, 97u8, 116u8, 105u8, 99u8, 47u8, 105u8, 109u8, 103u8, 47u8, 97u8, 118u8, 97u8, 116u8, 97u8, 114u8, 115u8, 47u8, 100u8, 101u8, 102u8, 97u8, 117u8, 108u8, 116u8, 46u8, 112u8, 110u8, 103u8]
}

fn vb_default_avatar_exec() -> (r: Vec<u8>)
    ensures
        r@ == vb_default_avatar(),
{
    let a: [u8; 46] = [104, 116, 116, 112, 115, 58, 47, 47, 110, 121, 97, 97, 46, 115, 105, 47, 115, 116, 97, 116, 105, 99, 47, 105, 109, 103, 47, 97, 118, 97, 116, 97, 114, 115, 47, 100, 101, 102, 97, 117, 108, 116, 46, 112, 110, 103];
    let r = vstd::slice::slice_to_vec(a.as_slice());
    proof {
        assert(r@ =~= vb_default_avatar());
    }
    r
}

/// The bytes of `col-md-2`.
pub open spec fn vb_col_md2() -> Seq<u8> {
    seq![99u8, 111u8, 108u8, 45u8, 109u8, 100u8, 45u8, 50u8]
}

fn vb_col_md2_exec() -> (r: Vec<u8>)
    ensures
        r@ == vb_col_md2(),
{
    let a: [u8; 8] = [99, 111, 108, 45, 109, 100, 45, 50];
    let r = vstd::slice::slice_to_vec(a.as_slice());
    proof {
        assert(r@ =~= vb_col_md2());
    }
    r
}

/// The bytes of `<a`.
pub open spec fn vb_a_open() -> Seq<u8> {
    seq![60u8, 97u8]
}

fn vb_a_open_exec() -> (r: Vec<u8>)
    ensures
        r@ == vb_a_open(),
{
    let a: [u8; 2] = [60, 97];
    let r = vstd::slice::slice_to_vec(a.as_slice());
    proof {
        assert(r@ =~= vb_a_open());
    }
    r
}

/// The bytes of `.torrent`.
pub open spec fn vb_torrent_ext() -> Seq<u8> {
    seq![46u8, 116u8, 111u8, 114u8, 114u8, 101u8, 110u8, 116u8]
}

fn vb_torrent_ext_exec() -> (r: Vec<u8>)
    ensures
        r@ == vb_torrent_ext(),
{
    let a: [u8; 8] = [46, 116, 111, 114, 114, 101, 110, 116];
    let r = vstd::slice::slice_to_vec(a.as_slice());
    proof {
        assert(r@ =~= vb_torrent_ext());
    }
    r
}

/// The bytes of `/view/`.
pub open spec fn vb_view_seg() -> Seq<u8> {
    seq![47u8, 118u8, 105u8, 101u8, 119u8, 47u8]
}

fn vb_view_seg_exec() -> (r: Vec<u8>)
    ensures
        r@ == vb_view_seg(),
{
    let a: [u8; 6] = [47, 118, 105, 101, 119, 47];
    let r = vstd::slice::slice_to_vec(a.as_slice());
    proof {
        assert(r@ =~= vb_view_seg());
    }
    r
}

/// The bytes of `/download/`.
pub open spec fn vb_download_seg() -> Seq<u8> {
    seq![47u8, 100u8, 111u8, 119u8, 110u8, 108u8, 111u8, 97u8, 100u8, 47u8]
}

fn vb_download_seg_exec() -> (r: Vec<u8>)
    ensures
        r@ == vb_download_seg(),
{
    let a: [u8; 10] = [47, 100, 111, 119, 110, 108, 111, 97, 100, 47];
    let r = vstd::slice::slice_to_vec(a.as_slice());
    proof {
        assert(r@ =~= vb_download_seg());
    }
    r
}

/// The bytes of `>`.
pub open spec fn vb_gt() -> Seq<u8> {
    seq![62u8]
}

fn vb_gt_exec() -> (r: Vec<u8>)
    ensures
        r@ == vb_gt(),
{
    let a: [u8; 1] = [62];
    let r = vstd::slice::slice_to_vec(a.as_slice());
    proof {
        assert(r@ =~= vb_gt());
    }
    r
}

/// The bytes of `<`.
pub open spec fn vb_lt() -> Seq<u8> {
    seq![60u8]
}

fn vb_lt_exec() -> (r: Vec<u8>)
    ensures
        r@ == vb_lt(),
{
    let a: [u8; 1] = [60];
    let r = vstd::slice::slice_to_vec(a.as_slice());
    proof {
        assert(r@ =~= vb_lt());
    }
    r
}

/// The bytes of `"`.
pub open spec fn vb_quote() -> Seq<u8> {
    seq![34u8]
}

fn vb_quote_exec() -> (r: Vec<u8>)
    ensures
        r@ == vb_quote(),
{
    let a: [u8; 1] = [34];
    let r = vstd::slice::slice_to_vec(a.as_slice());
    proof {
        assert(r@ =~= vb_quote());
    }
    r
}


/// The bytes of `class="row`, the marker the labelled rows carry.
pub open spec fn vb_row_marker() -> Seq<u8> {
    seq![99u8, 108u8, 97u8, 115u8, 115u8, 61u8, 34u8, 114u8, 111u8, 119u8]
}

fn vb_row_marker_exec() -> (r: Vec<u8>)
    ensures
        r@ == vb_row_marker(),
{
    let a: [u8; 10] = [99, 108, 97, 115, 115, 61, 34, 114, 111, 119];
    let r = vstd::slice::slice_to_vec(a.as_slice());
    proof {
        assert(r@ =~= vb_row_marker());
    }
    r
}

/// Tabs and newlines flattened to spaces.
pub open spec fn ws_flat(s: Seq<u8>) -> Seq<u8> {
    Seq::new(s.len(), |i: int| if s[i] == 9 || s[i] == 10 {
        32u8
    } else {
        s[i]
    })
}

fn ws_flat_exec(s: &[u8]) -> (r: Vec<u8>)
    ensures
        r@ == ws_flat(s@),
{
    let n = s.len();
    let mut out: Vec<u8> = Vec::new();
    let mut i: usize = 0;
    while i < n
        invariant
            0 <= i <= n == s@.len(),
            out@.len() == i,
            forall|j: int| 0 <= j < i ==> out@[j] == ws_flat(s@)[j],
        decreases n - i,
    {
        let b = s[i];
        if b == 9 || b == 10 {
            out.push(32);
        } else {
            out.push(b);
        }
        i = i + 1;
    }
    proof {
        assert(out@ =~= ws_flat(s@));
    }
    out
}

/// Last occurrence of `pat` at or after `from`.
pub open spec fn spec_find_last(s: Seq<u8>, pat: Seq<u8>, from: int) -> Option<int>
    decreases s.len() + 1 - from,
{
    match spec_find(s, pat, from) {
        None => None,
        Some(i) => if from <= i && i + 1 <= s.len() {
            match spec_find_last(s, pat, i + 1) {
                None => Some(i),
                Some(j) => Some(j),
            }
        } else {
            Some(i)
        },
    }
}

fn find_last_exec(s: &[u8], pat: &[u8], from: usize) -> (r: Option<usize>)
    ensures
        match r {
            Some(i) => spec_find_last(s@, pat@, from as int) == Some(i as int),
            None => spec_find_last(s@, pat@, from as int) is None,
        },
    decreases s@.len() + 1 - from,
{
    let n = s.len();
    match crate::xml::find_from(s, pat, from) {
        None => None,
        Some(i) => {
            proof {
                crate::xml::lemma_spec_find_advances(s@, pat@, from as int);
            }
            if i >= n {
                return Some(i);
            }
            match find_last_exec(s, pat, i + 1) {
                None => Some(i),
                Some(j) => Some(j),
            }
        },
    }
}

/// The visible text of the next `div` after `pos`: what a labelled row
/// carries as its value.
pub open spec fn value_after(doc: Seq<u8>, pos: int) -> Option<Seq<u8>> {
    match spec_find(doc, vb_div_open(), pos) {
        None => None,
        Some(d) => match spec_find(doc, vb_gt(), d) {
            None => None,
            Some(g) => match spec_find(doc, vb_div_close(), g + 1) {
                None => None,
                Some(c) => if g + 1 <= c <= doc.len() {
                    Some(elem_text(doc.subrange(g + 1, c)))
                } else {
                    None
                },
            },
        },
    }
}

fn value_after_exec(doc: &[u8], pos: usize) -> (r: Option<Vec<u8>>)
    ensures
        match r {
            Some(v) => value_after(doc@, pos as int) == Some(v@),
            None => value_after(doc@, pos as int) is None,
        },
{
    let n = doc.len();
    let n_div = vb_div_open_exec();
    let n_gt = vb_gt_exec();
    let n_close = vb_div_close_exec();
    let d = match crate::xml::find_from(doc, n_div.as_slice(), pos) {
        None => {
            return None;
        },
        Some(d) => d,
    };
    let g = match crate::xml::find_from(doc, n_gt.as_slice(), d) {
        None => {
            return None;
        },
        Some(g) => g,
    };
    proof {
        crate::xml::lemma_spec_find_advances(doc@, vb_gt(), d as int);
    }
    let c = match crate::xml::find_from(doc, n_close.as_slice(), g + 1) {
        None => {
            return None;
        },
        Some(c) => c,
    };
    proof {
        crate::xml::lemma_spec_find_advances(doc@, vb_div_close(), g + 1);
    }
    let raw = crate::scan::subvec(doc, g + 1, c);
    Some(crate::htmlscan::elem_text_exec(raw.as_slice()))
}

/// The value of the labelled row: within the page's labelled rows (at or
/// after the first `class="row` marker), the lowercased page is searched
/// for the lowercased label, and the following `div`'s text is the value.
pub open spec fn label_value(doc: Seq<u8>, label: Seq<u8>) -> Option<Seq<u8>> {
    let ldoc = crate::scan::lower_spec(doc);
    match spec_find(ldoc, vb_row_marker(), 0) {
        None => None,
        Some(r0) => match spec_find(ldoc, label, r0) {
            None => None,
            Some(i) => value_after(doc, i + label.len()),
        },
    }
}

fn label_value_exec(doc: &[u8], ldoc: &[u8], label: &[u8]) -> (r: Option<Vec<u8>>)
    requires
        ldoc@ == crate::scan::lower_spec(doc@),
    ensures
        match r {
            Some(v) => label_value(doc@, label@) == Some(v@),
            None => label_value(doc@, label@) is None,
        },
{
    let n = ldoc.len();
    let marker = vb_row_marker_exec();
    let r0 = match crate::xml::find_from(ldoc, marker.as_slice(), 0) {
        None => {
            return None;
        },
        Some(r0) => r0,
    };
    let i = match crate::xml::find_from(ldoc, label, r0) {
        None => {
            return None;
        },
        Some(i) => i,
    };
    proof {
        crate::xml::lemma_spec_find_advances(ldoc@, label@, r0 as int);
        assert(ldoc@.len() == doc@.len());
    }
    value_after_exec(doc, i + label.len())
}

/// A labelled count, as the page reports it.
pub open spec fn label_num(doc: Seq<u8>, label: Seq<u8>) -> Result<int, Error> {
    match label_value(doc, label) {
        None => Err(Error::HtmlMissingElement),
        Some(t) => if all_digits(t) && t.len() > 0 && digits_val(t) <= usize::MAX {
            Ok(digits_val(t))
        } else {
            Err(Error::ParseInteger)
        },
    }
}

fn label_num_exec(doc: &[u8], ldoc: &[u8], label: &[u8]) -> (r: Result<usize, Error>)
    requires
        ldoc@ == crate::scan::lower_spec(doc@),
    ensures
        match r {
            Ok(v) => label_num(doc@, label@) == Ok::<int, Error>(v as int),
            Err(e) => label_num(doc@, label@) == Err::<int, Error>(e),
        },
{
    match label_value_exec(doc, ldoc, label) {
        None => Err(Error::HtmlMissingElement),
        Some(t) => match crate::scan::parse_u64(t.as_slice()) {
            None => Err(Error::ParseInteger),
            Some(v) => {
                if v <= usize::MAX as u64 {
                    Ok(v as usize)
                } else {
                    Err(Error::ParseInteger)
                }
            },
        },
    }
}

/// A labelled string, as the page reports it.
pub open spec fn label_chars(doc: Seq<u8>, label: Seq<u8>) -> Result<Seq<char>, Error> {
    match label_value(doc, label) {
        None => Err(Error::HtmlMissingElement),
        Some(t) => match chars_of(t) {
            None => Err(Error::ParseString),
            Some(cs) => Ok(cs),
        },
    }
}

fn label_chars_exec(doc: &[u8], ldoc: &[u8], label: &[u8]) -> (r: Result<String, Error>)
    requires
        ldoc@ == crate::scan::lower_spec(doc@),
    ensures
        match r {
            Ok(v) => label_chars(doc@, label@) == Ok::<Seq<char>, Error>(v@),
            Err(e) => label_chars(doc@, label@) == Err::<Seq<char>, Error>(e),
        },
{
    match label_value_exec(doc, ldoc, label) {
        None => Err(Error::HtmlMissingElement),
        Some(t) => match crate::strutil::bytes_to_string(t) {
            None => Err(Error::ParseString),
            Some(s) => Ok(s),
        },
    }
}

/// `.torrent` struck out wherever it occurs.
pub open spec fn remove_torrent(s: Seq<u8>) -> Seq<u8>
    decreases s.len(),
{
    if s.len() == 0 {
        Seq::empty()
    } else if crate::scan::starts_with_spec(s, vb_torrent_ext()) {
        remove_torrent(s.skip(8))
    } else {
        seq![s[0]] + remove_torrent(s.skip(1))
    }
}

fn remove_torrent_exec(s: &[u8]) -> (r: Vec<u8>)
    ensures
        r@ == remove_torrent(s@),
{
    let n = s.len();
    let pat = vb_torrent_ext_exec();
    let mut out: Vec<u8> = Vec::new();
    let mut i: usize = 0;
    proof {
        assert(s@.skip(0) =~= s@);
    }
    while i < n
        invariant
            0 <= i <= n == s@.len(),
            pat@ == vb_torrent_ext(),
            remove_torrent(s@) == out@ + remove_torrent(s@.skip(i as int)),
        decreases n - i,
    {
        let ghost tail = s@.skip(i as int);
        let ghost preout = out@;
        let rest = crate::scan::subvec(s, i, n);
        proof {
            assert(rest@ =~= tail);
        }
        if crate::scan::starts_with(rest.as_slice(), pat.as_slice()) {
            proof {
                assert(tail.skip(8) =~= s@.skip(i + 8));
            }
            i = i + 8;
        } else {
            out.push(s[i]);
            proof {
                assert(tail[0] == s@[i as int]);
                assert(tail.skip(1) =~= s@.skip(i + 1));
                assert(out@ =~= preout + seq![s@[i as int]]);
            }
            i = i + 1;
        }
    }
    proof {
        assert(s@.skip(n as int) =~= Seq::<u8>::empty());
    }
    out
}

/// The first quoted value after `pat`: the bytes between the end of the
/// first occurrence of `pat` and the next `"`, entities decoded.
pub open spec fn quoted_after(doc: Seq<u8>, pat: Seq<u8>, from: int) -> Option<Seq<u8>> {
    match spec_find(doc, pat, from) {
        None => None,
        Some(i) => quoted_at(doc, pat, i),
    }
}

/// The quoted value whose opening `pat` sits at `i`.
pub open spec fn quoted_at(doc: Seq<u8>, pat: Seq<u8>, i: int) -> Option<Seq<u8>> {
    match spec_find(doc, vb_quote(), i + pat.len()) {
        None => None,
        Some(j) => if i + pat.len() <= j <= doc.len() {
            Some(xml_decode(doc.subrange(i + pat.len(), j)))
        } else {
            None
        },
    }
}

#[verifier::rlimit(30)]
fn quoted_after_exec(doc: &[u8], pat: &[u8], from: usize) -> (r: Option<(Vec<u8>, usize)>)
    ensures
        match r {
            Some(v) => quoted_after(doc@, pat@, from as int) == Some(v.0@) && from <= v.1
                <= doc@.len(),
            None => quoted_after(doc@, pat@, from as int) is None,
        },
{
    let n = doc.len();
    let q = vb_quote_exec();
    let i = match crate::xml::find_from(doc, pat, from) {
        None => {
            return None;
        },
        Some(i) => i,
    };
    proof {
        crate::xml::lemma_spec_find_advances(doc@, pat@, from as int);
    }
    let j = match crate::xml::find_from(doc, q.as_slice(), i + pat.len()) {
        None => {
            return None;
        },
        Some(j) => j,
    };
    proof {
        crate::xml::lemma_spec_find_advances(doc@, vb_quote(), i + pat.len());
    }
    let raw = crate::scan::subvec(doc, i + pat.len(), j);
    Some((crate::xml::xml_decode_exec(raw.as_slice()), i))
}

/// The raw inner markup between the `>` that follows `pat` and the next
/// closing `div`.
pub open spec fn inner_after(doc: Seq<u8>, pat: Seq<u8>) -> Option<Seq<u8>> {
    match spec_find(doc, pat, 0) {
        None => None,
        Some(i) => match spec_find(doc, vb_gt(), i) {
            None => None,
            Some(g) => match spec_find(doc, vb_div_close(), g + 1) {
                None => None,
                Some(c) => if g + 1 <= c <= doc.len() {
                    Some(doc.subrange(g + 1, c))
                } else {
                    None
                },
            },
        },
    }
}

fn inner_after_exec(doc: &[u8], pat: &[u8]) -> (r: Option<Vec<u8>>)
    ensures
        match r {
            Some(v) => inner_after(doc@, pat@) == Some(v@),
            None => inner_after(doc@, pat@) is None,
        },
{
    let n = doc.len();
    let n_gt = vb_gt_exec();
    let n_close = vb_div_close_exec();
    let i = match crate::xml::find_from(doc, pat, 0) {
        None => {
            return None;
        },
        Some(i) => i,
    };
    let g = match crate::xml::find_from(doc, n_gt.as_slice(), i) {
        None => {
            return None;
        },
        Some(g) => g,
    };
    proof {
        crate::xml::lemma_spec_find_advances(doc@, vb_gt(), i as int);
    }
    let c = match crate::xml::find_from(doc, n_close.as_slice(), g + 1) {
        None => {
            return None;
        },
        Some(c) => c,
    };
    proof {
        crate::xml::lemma_spec_find_advances(doc@, vb_div_close(), g + 1);
    }
    Some(crate::scan::subvec(doc, g + 1, c))
}

/// The trimmed first text chunk after `pat`: past the next `>`, up to the
/// following `<`.
pub open spec fn first_text_after(doc: Seq<u8>, pat: Seq<u8>, from: int) -> Option<Seq<u8>> {
    match spec_find(doc, pat, from) {
        None => None,
        Some(i) => match spec_find(doc, vb_gt(), i) {
            None => None,
            Some(g) => match spec_find(doc, vb_lt(), g + 1) {
                None => None,
                Some(c) => if g + 1 <= c <= doc.len() {
                    Some(trim_spec(xml_decode(doc.subrange(g + 1, c))))
                } else {
                    None
                },
            },
        },
    }
}

fn first_text_after_exec(doc: &[u8], pat: &[u8], from: usize) -> (r: Option<Vec<u8>>)
    ensures
        match r {
            Some(v) => first_text_after(doc@, pat@, from as int) == Some(v@),
            None => first_text_after(doc@, pat@, from as int) is None,
        },
{
    let n = doc.len();
    let n_gt = vb_gt_exec();
    let n_lt = vb_lt_exec();
    let i = match crate::xml::find_from(doc, pat, from) {
        None => {
            return None;
        },
        Some(i) => i,
    };
    let g = match crate::xml::find_from(doc, n_gt.as_slice(), i) {
        None => {
            return None;
        },
        Some(g) => g,
    };
    proof {
        crate::xml::lemma_spec_find_advances(doc@, vb_gt(), i as int);
    }
    let c = match crate::xml::find_from(doc, n_lt.as_slice(), g + 1) {
        None => {
            return None;
        },
        Some(c) => c,
    };
    proof {
        crate::xml::lemma_spec_find_advances(doc@, vb_lt(), g + 1);
    }
    let raw = crate::scan::subvec(doc, g + 1, c);
    let dec = crate::xml::xml_decode_exec(raw.as_slice());
    Some(crate::scan::trim(dec.as_slice()))
}

} // verus!

verus! {

/// `com-` struck out wherever it occurs.
pub open spec fn remove_com(s: Seq<u8>) -> Seq<u8>
    decreases s.len(),
{
    if s.len() == 0 {
        Seq::empty()
    } else if crate::scan::starts_with_spec(s, vb_com_dash()) {
        remove_com(s.skip(4))
    } else {
        seq![s[0]] + remove_com(s.skip(1))
    }
}

fn remove_com_exec(s: &[u8]) -> (r: Vec<u8>)
    ensures
        r@ == remove_com(s@),
{
    let n = s.len();
    let pat = vb_com_dash_exec();
    let mut out: Vec<u8> = Vec::new();
    let mut i: usize = 0;
    proof {
        assert(s@.skip(0) =~= s@);
    }
    while i < n
        invariant
            0 <= i <= n == s@.len(),
            pat@ == vb_com_dash(),
            remove_com(s@) == out@ + remove_com(s@.skip(i as int)),
        decreases n - i,
    {
        let ghost tail = s@.skip(i as int);
        let ghost preout = out@;
        let rest = crate::scan::subvec(s, i, n);
        proof {
            assert(rest@ =~= tail);
        }
        if crate::scan::starts_with(rest.as_slice(), pat.as_slice()) {
            proof {
                assert(tail.skip(4) =~= s@.skip(i + 4));
            }
            i = i + 4;
        } else {
            out.push(s[i]);
            proof {
                assert(tail[0] == s@[i as int]);
                assert(tail.skip(1) =~= s@.skip(i + 1));
                assert(out@ =~= preout + seq![s@[i as int]]);
            }
            i = i + 1;
        }
    }
    proof {
        assert(s@.skip(n as int) =~= Seq::<u8>::empty());
    }
    out
}

/// Trailing `)` bytes dropped.
pub open spec fn trim_close(s: Seq<u8>) -> Seq<u8>
    decreases s.len(),
{
    if s.len() > 0 && s.last() == 41 {
        trim_close(s.drop_last())
    } else {
        s
    }
}

proof fn lemma_trim_close_take(s: Seq<u8>, i: int)
    requires
        0 <= i <= s.len(),
        forall|j: int| i <= j < s.len() ==> s[j] == 41,
    ensures
        trim_close(s) == trim_close(s.take(i)),
    decreases s.len() - i,
{
    if i < s.len() {
        assert(s.drop_last().take(i) =~= s.take(i));
        lemma_trim_close_take(s.drop_last(), i);
    } else {
        assert(s.take(i) =~= s);
    }
}

fn trim_close_exec(s: &[u8]) -> (r: Vec<u8>)
    ensures
        r@ == trim_close(s@),
{
    let n = s.len();
    let mut end: usize = n;
    while end > 0 && s[end - 1] == 41
        invariant
            0 <= end <= n == s@.len(),
            forall|j: int| end <= j < n ==> s@[j] == 41,
        decreases end,
    {
        end = end - 1;
    }
    proof {
        lemma_trim_close_take(s@, end as int);
        if end > 0 {
            assert(s@.take(end as int).last() == s@[end - 1]);
        }
        assert(trim_close(s@.take(end as int)) == s@.take(end as int));
    }
    crate::scan::subvec(s, 0, end)
}

/// One file row of the list.
pub struct FileModel {
    pub id: int,
    pub name: Seq<char>,
    pub size: u64,
}

/// One comment panel.
pub struct CommentModel {
    pub id: int,
    pub user: Seq<char>,
    pub date: i64,
    pub edited: Option<i64>,
    pub content: Seq<char>,
    pub avatar: Option<Seq<char>>,
}

/// What the `li` rows of the file list denote, numbering the leaf rows in
/// order: a row without a name/size split is numbered but skipped, and a
/// folder row (one holding a nested list) is passed over entirely.
pub open spec fn spec_files(region: Seq<u8>, lis: Seq<(int, int, int)>, idx: int) -> Result<
    Seq<FileModel>,
    Error,
>
    decreases lis.len(),
{
    if lis.len() == 0 {
        Ok(Seq::empty())
    } else {
        let content = region.subrange(lis[0].1, lis[0].2);
        if spec_contains(content, vb_ul_open()) {
            spec_files(region, lis.drop_first(), idx)
        } else {
            let text = xml_decode(crate::htmlscan::strip_tags(content));
            match spec_find(text, seq![40u8], 0) {
                None => spec_files(region, lis.drop_first(), idx + 1),
                Some(f) => {
                    match spec_find_last(text, seq![40u8], 0) {
                        None => spec_files(region, lis.drop_first(), idx + 1),
                        Some(l) => if 0 <= f <= text.len() && 0 <= l < text.len() {
                            let name = trim_spec(text.take(f));
                            let size_text = trim_close(trim_spec(text.skip(l + 1)));
                            match chars_of(name) {
                                None => Err(Error::ParseString),
                                Some(nm) => match chars_of(size_text) {
                                    None => Err(Error::ParseString),
                                    Some(sz) => match spec_size(encode_utf8(sz)) {
                                        None => Err(Error::ParseSize),
                                        Some(size) => match spec_files(
                                            region,
                                            lis.drop_first(),
                                            idx + 1,
                                        ) {
                                            Err(e) => Err(e),
                                            Ok(rest) => Ok(
                                                seq![
                                                    FileModel {
                                                        id: idx,
                                                        name: nm,
                                                        size: size,
                                                    },
                                                ] + rest,
                                            ),
                                        },
                                    },
                                },
                            }
                        } else {
                            spec_files(region, lis.drop_first(), idx + 1)
                        },
                    }
                },
            }
        }
    }
}

/// The positions where `pat` occurs, in order.
pub open spec fn occurrences(s: Seq<u8>, pat: Seq<u8>, from: int) -> Seq<int>
    decreases s.len() + 1 - from,
{
    if from < 0 {
        Seq::empty()
    } else {
        match spec_find(s, pat, from) {
            None => Seq::empty(),
            Some(i) => if from <= i && i + 1 <= s.len() {
                seq![i] + occurrences(s, pat, i + 1)
            } else {
                Seq::empty()
            },
        }
    }
}

fn occurrences_exec(s: &[u8], pat: &[u8]) -> (r: Vec<usize>)
    ensures
        r@.map_values(|x: usize| x as int) == occurrences(s@, pat@, 0),
        forall|k: int| 0 <= k < r@.len() ==> #[trigger] r@[k] < s@.len() || pat@.len() == 0,
{
    let n = s.len();
    let mut out: Vec<usize> = Vec::new();
    let mut pos: usize = 0;
    loop
        invariant
            0 <= pos,
            n == s@.len(),
            occurrences(s@, pat@, 0) == out@.map_values(|x: usize| x as int) + occurrences(
                s@,
                pat@,
                pos as int,
            ),
            forall|k: int| 0 <= k < out@.len() ==> #[trigger] out@[k] < s@.len() || pat@.len()
                == 0,
        decreases s@.len() + 1 - pos,
    {
        let ghost pre = out@.map_values(|x: usize| x as int);
        match crate::xml::find_from(s, pat, pos) {
            None => {
                proof {
                    assert(occurrences(s@, pat@, pos as int) =~= Seq::<int>::empty());
                    assert(pre =~= occurrences(s@, pat@, 0));
                }
                return out;
            },
            Some(i) => {
                proof {
                    crate::xml::lemma_spec_find_advances(s@, pat@, pos as int);
                }
                if i >= n {
                    proof {
                        assert(occurrences(s@, pat@, pos as int) =~= Seq::<int>::empty());
                        assert(pre =~= occurrences(s@, pat@, 0));
                    }
                    return out;
                }
                out.push(i);
                proof {
                    assert(occurrences(s@, pat@, pos as int) == seq![i as int] + occurrences(
                        s@,
                        pat@,
                        i + 1,
                    ));
                    assert(out@.map_values(|x: usize| x as int) =~= pre + seq![i as int]);
                    assert(out@.map_values(|x: usize| x as int) + occurrences(s@, pat@, i + 1)
                        =~= occurrences(s@, pat@, 0));
                }
                pos = i + 1;
            },
        }
    }
}

/// What one comment panel region denotes.
pub open spec fn spec_comment(region: Seq<u8>) -> Result<CommentModel, Error> {
    let idtext = match quoted_after(region, vb_id_attr(), 0) {
        Some(v) => remove_com(v),
        None => seq![117u8, 110u8, 107u8, 110u8, 111u8, 119u8, 110u8],
    };
    if !(all_digits(idtext) && idtext.len() > 0 && digits_val(idtext) <= usize::MAX) {
        Err(Error::ParseInteger)
    } else {
        let user = match spec_find(region, vb_col_md2(), 0) {
            None => crate::strv("Anonymous"),
            Some(i) => match first_text_after(region, vb_a_open(), i) {
                None => crate::strv("Anonymous"),
                Some(t) => match chars_of(t) {
                    None => crate::strv("Anonymous"),
                    Some(u) => u,
                },
            },
        };
        let dres: Result<i64, Error> = match quoted_after(region, vb_data_ts(), 0) {
            None => Ok(0),
            Some(v) => match spec_i64(v) {
                None => Err(Error::ParseNumber),
                Some(d) => Ok(d),
            },
        };
        match dres {
            Err(e) => Err(e),
            Ok(date) => {
                let edited: i64 = match spec_find(region, vb_data_ts(), 0) {
                    None => 0,
                    Some(i) => match quoted_after(region, vb_data_ts(), i + 1) {
                        None => 0,
                        Some(v) => match spec_i64(v) {
                            None => 0,
                            Some(d) => d,
                        },
                    },
                };
                let content = match inner_after(region, vb_comment_content()) {
                    None => Seq::<char>::empty(),
                    Some(raw) => match chars_of(raw) {
                        None => Seq::<char>::empty(),
                        Some(c) => c,
                    },
                };
                let avatar: Option<Seq<char>> = match spec_find(region, vb_avatar(), 0) {
                    None => None,
                    Some(i) => match quoted_after(region, vb_src_attr(), i) {
                        None => None,
                        Some(v) => if v == vb_default_avatar() {
                            None
                        } else {
                            match chars_of(v) {
                                None => None,
                                Some(a) => Some(a),
                            }
                        },
                    },
                };
                Ok(
                    CommentModel {
                        id: digits_val(idtext),
                        user: user,
                        date: date,
                        edited: if edited > 0 {
                            Some(edited)
                        } else {
                            None
                        },
                        content: content,
                        avatar: avatar,
                    },
                )
            },
        }
    }
}

/// What the comment panels denote, in page order; `marks` are the panel
/// marker positions and each panel region runs to the next marker.
pub open spec fn spec_comments(doc: Seq<u8>, marks: Seq<int>, k: int) -> Result<
    Seq<CommentModel>,
    Error,
>
    decreases marks.len() - k,
{
    if k < 0 || k >= marks.len() {
        Ok(Seq::empty())
    } else {
        let lo = marks[k];
        let hi = if k + 1 < marks.len() {
            marks[k + 1]
        } else {
            doc.len() as int
        };
        if 0 <= lo <= hi <= doc.len() {
            match spec_comment(doc.subrange(lo, hi)) {
                Err(e) => Err(e),
                Ok(m) => match spec_comments(doc, marks, k + 1) {
                    Err(e) => Err(e),
                    Ok(rest) => Ok(seq![m] + rest),
                },
            }
        } else {
            Ok(Seq::empty())
        }
    }
}

} // verus!

verus! {

/// Decodes the file list rows.
#[verifier::loop_isolation(false)]
#[verifier::rlimit(100)]
fn files_exec(region: &[u8]) -> (r: Result<Vec<ViewFile>, Error>)
    ensures
        ({
            let spec = spec_files(region@, crate::htmlscan::elems(region@, vb_li(), 0), 0);
            match r {
                Ok(fs) => spec is Ok && fs@.len() == spec->Ok_0.len() && (forall|k: int|
                    0 <= k < fs@.len() ==> {
                        &&& (#[trigger] fs@[k]).id == spec->Ok_0[k].id
                        &&& fs@[k].name@ == spec->Ok_0[k].name
                        &&& fs@[k].size == spec->Ok_0[k].size
                    }),
                Err(e) => spec == Err::<Seq<FileModel>, Error>(e),
            }
        }),
{
    let n_li = vb_li_exec();
    let n_ul = vb_ul_open_exec();
    let paren: [u8; 1] = [40];
    proof {
        assert(paren@ =~= seq![40u8]);
    }
    let lis = crate::htmlscan::elems_exec(region, n_li.as_slice());
    let ghost lr = lis@.map_values(|p: (usize, usize, usize)| (p.0 as int, p.1 as int, p.2 as int));
    let mut out: Vec<ViewFile> = Vec::new();
    let ghost mut ms: Seq<FileModel> = Seq::empty();
    let mut idx: usize = 0;
    let mut i: usize = 0;
    proof {
        assert(lr.skip(0) =~= lr);
    }
    while i < lis.len()
        invariant
            0 <= i <= lis@.len(),
            idx <= i,
            out@.len() == ms.len(),
            forall|k: int|
                0 <= k < out@.len() ==> {
                    &&& (#[trigger] out@[k]).id == ms[k].id
                    &&& out@[k].name@ == ms[k].name
                    &&& out@[k].size == ms[k].size
                },
            spec_files(region@, lr, 0) == (match spec_files(region@, lr.skip(i as int), idx as int) {
                Ok(rest) => Ok::<Seq<FileModel>, Error>(ms + rest),
                Err(e) => Err::<Seq<FileModel>, Error>(e),
            }),
        decreases lis@.len() - i,
    {
        let t = lis[i];
        proof {
            assert(lr.skip(i as int)[0] == (t.0 as int, t.1 as int, t.2 as int));
            assert(lr.skip(i as int).drop_first() =~= lr.skip(i + 1));
        }
        let content = crate::scan::subvec(region, t.1, t.2);
        if crate::scan::contains(content.as_slice(), n_ul.as_slice()) {
            i = i + 1;
            continue ;
        }
        let stripped = crate::htmlscan::strip_tags_exec(content.as_slice());
        let text = crate::xml::xml_decode_exec(stripped.as_slice());
        let f = match crate::xml::find_from(text.as_slice(), paren.as_slice(), 0) {
            None => {
                idx = idx + 1;
                i = i + 1;
                continue ;
            },
            Some(f) => f,
        };
        let l = match find_last_exec(text.as_slice(), paren.as_slice(), 0) {
            None => {
                proof {
                    assert(false);
                }
                idx = idx + 1;
                i = i + 1;
                continue ;
            },
            Some(l) => l,
        };
        proof {
            crate::xml::lemma_spec_find_advances(text@, paren@, 0);
            assert(spec_find(text@, seq![40u8], 0) == Some(f as int));
            lemma_find_last_in_range(text@, paren@, 0, l as int);
        }
        let tn = text.len();
        let name_raw = crate::scan::subvec(text.as_slice(), 0, f);
        let name_b = crate::scan::trim(name_raw.as_slice());
        let size_raw = crate::scan::subvec(text.as_slice(), l + 1, tn);
        let size_t = crate::scan::trim(size_raw.as_slice());
        let size_b = trim_close_exec(size_t.as_slice());
        proof {
            assert(name_raw@ =~= text@.take(f as int));
            assert(size_raw@ =~= text@.skip(l + 1));
        }
        let name = match crate::strutil::bytes_to_string(name_b) {
            None => {
                return Err(Error::ParseString);
            },
            Some(s) => s,
        };
        let sz = match crate::strutil::bytes_to_string(size_b) {
            None => {
                return Err(Error::ParseString);
            },
            Some(s) => s,
        };
        let size = match crate::normalize::parse_size(sz.as_str()) {
            Err(_) => {
                return Err(Error::ParseSize);
            },
            Ok(v) => v,
        };
        let ghost m = FileModel { id: idx as int, name: name@, size: size };
        let ghost old_ms = ms;
        out.push(ViewFile { id: idx, name, size });
        proof {
            ms = old_ms + seq![m];
            match spec_files(region@, lr.skip(i + 1), idx + 1) {
                Ok(rest) => {
                    assert(old_ms + (seq![m] + rest) =~= ms + rest);
                },
                Err(_) => {},
            }
            assert(ms[ms.len() - 1] == m);
            assert(forall|k: int| 0 <= k < old_ms.len() ==> ms[k] == old_ms[k]);
        }
        idx = idx + 1;
        i = i + 1;
    }
    proof {
        assert(lr.skip(lis@.len() as int) =~= Seq::<(int, int, int)>::empty());
        assert(ms + Seq::<FileModel>::empty() =~= ms);
    }
    Ok(out)
}

/// A last-found occurrence lies inside the text.
proof fn lemma_find_last_in_range(s: Seq<u8>, pat: Seq<u8>, from: int, l: int)
    requires
        0 <= from,
        pat.len() > 0,
        spec_find_last(s, pat, from) == Some(l),
    ensures
        from <= l && l + pat.len() <= s.len(),
    decreases s.len() + 1 - from,
{
    crate::xml::lemma_spec_find_advances(s, pat, from);
    match spec_find(s, pat, from) {
        None => {},
        Some(i) => {
            if from <= i && i + 1 <= s.len() {
                match spec_find_last(s, pat, i + 1) {
                    None => {},
                    Some(j) => {
                        lemma_find_last_in_range(s, pat, i + 1, l);
                    },
                }
            }
        },
    }
}

/// Decodes the comment panels.
#[verifier::loop_isolation(false)]
#[verifier::rlimit(100)]
fn comments_exec(doc: &[u8]) -> (r: Result<Vec<ViewComment>, Error>)
    ensures
        ({
            let spec = spec_comments(
                doc@,
                occurrences(doc@, vb_comment_panel(), 0),
                0,
            );
            match r {
                Ok(cs) => spec is Ok && cs@.len() == spec->Ok_0.len() && (forall|k: int|
                    0 <= k < cs@.len() ==> {
                        &&& (#[trigger] cs@[k]).id == spec->Ok_0[k].id
                        &&& cs@[k].user@ == spec->Ok_0[k].user
                        &&& cs@[k].date == spec->Ok_0[k].date
                        &&& cs@[k].edited_date == spec->Ok_0[k].edited
                        &&& cs@[k].content@ == spec->Ok_0[k].content
                        &&& (match (cs@[k].avatar, spec->Ok_0[k].avatar) {
                            (Some(a), Some(b)) => a@ == b,
                            (None, None) => true,
                            _ => false,
                        })
                    }),
                Err(e) => spec == Err::<Seq<CommentModel>, Error>(e),
            }
        }),
{
    let n = doc.len();
    let n_panel = vb_comment_panel_exec();
    let marks = occurrences_exec(doc, n_panel.as_slice());
    let ghost mr = marks@.map_values(|x: usize| x as int);
    let mut out: Vec<ViewComment> = Vec::new();
    let ghost mut ms: Seq<CommentModel> = Seq::empty();
    let mut k: usize = 0;
    while k < marks.len()
        invariant
            0 <= k <= marks@.len(),
            out@.len() == ms.len(),
            forall|j: int|
                0 <= j < out@.len() ==> {
                    &&& (#[trigger] out@[j]).id == ms[j].id
                    &&& out@[j].user@ == ms[j].user
                    &&& out@[j].date == ms[j].date
                    &&& out@[j].edited_date == ms[j].edited
                    &&& out@[j].content@ == ms[j].content
                    &&& (match (out@[j].avatar, ms[j].avatar) {
                        (Some(a), Some(b)) => a@ == b,
                        (None, None) => true,
                        _ => false,
                    })
                },
            spec_comments(doc@, mr, 0) == (match spec_comments(doc@, mr, k as int) {
                Ok(rest) => Ok::<Seq<CommentModel>, Error>(ms + rest),
                Err(e) => Err::<Seq<CommentModel>, Error>(e),
            }),
        decreases marks@.len() - k,
    {
        let lo = marks[k];
        let hi = if k + 1 < marks.len() {
            marks[k + 1]
        } else {
            n
        };
        proof {
            assert(mr[k as int] == lo as int);
            if k + 1 < marks@.len() {
                assert(mr[k + 1] == hi as int);
            }
        }
        if lo > hi || hi > n {
            proof {
                assert(spec_comments(doc@, mr, k as int) == Ok::<Seq<CommentModel>, Error>(
                    Seq::empty(),
                ));
                assert(ms + Seq::<CommentModel>::empty() =~= ms);
            }
            return Ok(out);
        }
        let region = crate::scan::subvec(doc, lo, hi);
        match comment_exec(region.as_slice()) {
            Err(e) => {
                proof {
                    assert(spec_comments(doc@, mr, k as int) == Err::<
                        Seq<CommentModel>,
                        Error,
                    >(e));
                }
                return Err(e);
            },
            Ok(c) => {
                let ghost m = spec_comment(region@)->Ok_0;
                let ghost old_ms = ms;
                out.push(c);
                proof {
                    ms = old_ms + seq![m];
                    match spec_comments(doc@, mr, k + 1) {
                        Ok(rest) => {
                            assert(old_ms + (seq![m] + rest) =~= ms + rest);
                        },
                        Err(_) => {},
                    }
                    assert(ms[ms.len() - 1] == m);
                    assert(forall|j: int| 0 <= j < old_ms.len() ==> ms[j] == old_ms[j]);
                }
            },
        }
        k = k + 1;
    }
    proof {
        assert(ms + Seq::<CommentModel>::empty() =~= ms);
    }
    Ok(out)
}

/// Decodes one comment panel region.
#[verifier::rlimit(100)]
fn comment_exec(region: &[u8]) -> (r: Result<ViewComment, Error>)
    ensures
        match r {
            Ok(c) => spec_comment(region@) is Ok && {
                let m = spec_comment(region@)->Ok_0;
                &&& c.id == m.id
                &&& c.user@ == m.user
                &&& c.date == m.date
                &&& c.edited_date == m.edited
                &&& c.content@ == m.content
                &&& (match (c.avatar, m.avatar) {
                    (Some(a), Some(b)) => a@ == b,
                    (None, None) => true,
                    _ => false,
                })
            },
            Err(e) => spec_comment(region@) == Err::<CommentModel, Error>(e),
        },
{
    let rn = region.len();
    let n_id = vb_id_attr_exec();
    let n_ts = vb_data_ts_exec();
    let n_col = vb_col_md2_exec();
    let n_a = vb_a_open_exec();
    let n_cc = vb_comment_content_exec();
    let n_av = vb_avatar_exec();
    let n_src = vb_src_attr_exec();
    let n_def = vb_default_avatar_exec();
    let unknown: [u8; 7] = [117, 110, 107, 110, 111, 119, 110];
    let idtext: Vec<u8> = match quoted_after_exec(region, n_id.as_slice(), 0) {
        Some(v) => remove_com_exec(v.0.as_slice()),
        None => {
            let r = vstd::slice::slice_to_vec(unknown.as_slice());
            proof {
                assert(r@ =~= seq![117u8, 110u8, 107u8, 110u8, 111u8, 119u8, 110u8]);
            }
            r
        },
    };
    let idv = match crate::scan::parse_u64(idtext.as_slice()) {
        None => {
            return Err(Error::ParseInteger);
        },
        Some(v) => {
            if v <= usize::MAX as u64 {
                v as usize
            } else {
                return Err(Error::ParseInteger);
            }
        },
    };
    let user: String = match crate::xml::find_from(region, n_col.as_slice(), 0) {
        None => ("Anonymous").to_owned(),
        Some(i) => match first_text_after_exec(region, n_a.as_slice(), i) {
            None => ("Anonymous").to_owned(),
            Some(t) => match crate::strutil::bytes_to_string(t) {
                None => ("Anonymous").to_owned(),
                Some(u) => u,
            },
        },
    };
    let date: i64 = match quoted_after_exec(region, n_ts.as_slice(), 0) {
        None => 0,
        Some(v) => match crate::scan::parse_i64(v.0.as_slice()) {
            None => {
                return Err(Error::ParseNumber);
            },
            Some(d) => d,
        },
    };
    let edited: i64 = match crate::xml::find_from(region, n_ts.as_slice(), 0) {
        None => 0,
        Some(i) => {
            proof {
                crate::xml::lemma_spec_find_advances(region@, vb_data_ts(), 0);
            }
            match quoted_after_exec(region, n_ts.as_slice(), i + 1) {
                None => 0,
                Some(v) => match crate::scan::parse_i64(v.0.as_slice()) {
                    None => 0,
                    Some(d) => d,
                },
            }
        },
    };
    let content: String = match inner_after_exec(region, n_cc.as_slice()) {
        None => String::new(),
        Some(raw) => match crate::strutil::bytes_to_string(raw) {
            None => String::new(),
            Some(c) => c,
        },
    };
    let avatar: Option<String> = match crate::xml::find_from(region, n_av.as_slice(), 0) {
        None => None,
        Some(i) => match quoted_after_exec(region, n_src.as_slice(), i) {
            None => None,
            Some(v) => {
                if crate::scan::eq_bytes(v.0.as_slice(), n_def.as_slice()) {
                    None
                } else {
                    match crate::strutil::bytes_to_string(v.0) {
                        None => None,
                        Some(a) => Some(a),
                    }
                }
            },
        },
    };
    proof {
        reveal_strlit("Anonymous");
    }
    Ok(
        ViewComment {
            id: idv,
            user,
            date,
            edited_date: if edited > 0 {
                Some(edited)
            } else {
                None
            },
            content,
            avatar,
        },
    )
}

} // verus!

verus! {

/// The abstract content of a detail page.
pub struct ViewModel {
    pub title: Seq<char>,
    pub pub_date: i64,
    pub id: int,
    pub seeders: int,
    pub leechers: int,
    pub downloads: int,
    pub submitter: Seq<char>,
    pub info_link: Option<Seq<char>>,
    pub info_hash: Seq<char>,
    pub category: Category,
    pub size: u64,
    pub magnet_link: Seq<char>,
    pub description_md: Seq<char>,
    pub files: Seq<FileModel>,
    pub comments: Seq<CommentModel>,
    pub trusted: bool,
    pub remake: bool,
}

/// What a detail page denotes, or the first error in decoding it.
#[verifier::opaque]
pub open spec fn spec_view(doc0: Seq<u8>, base: Seq<char>) -> Result<ViewModel, Error> {
    let doc = ws_flat(doc0);
    match quoted_after(doc, vb_dl_href(), 0) {
        None => Err(Error::HtmlMissingAttribute),
        Some(seg) => {
            let idt = remove_torrent(seg);
            if !(all_digits(idt) && idt.len() > 0 && digits_val(idt) <= usize::MAX) {
                Err(Error::ParseInteger)
            } else {
                match first_text_after(doc, vb_panel_title(), 0) {
                    None => Err(Error::HtmlMissingElement),
                    Some(tb) => match chars_of(tb) {
                        None => Err(Error::ParseString),
                        Some(title) => match quoted_after(doc, vb_data_ts(), 0) {
                            None => Err(Error::HtmlMissingAttribute),
                            Some(tsb) => match spec_i64(tsb) {
                                None => Err(Error::ParseNumber),
                                Some(date) => spec_view_counts(
                                    doc,
                                    base,
                                    digits_val(idt),
                                    title,
                                    date,
                                ),
                            },
                        },
                    },
                }
            }
        },
    }
}

/// The counters and labelled fields of the page.
pub open spec fn spec_view_counts(
    doc: Seq<u8>,
    base: Seq<char>,
    id: int,
    title: Seq<char>,
    date: i64,
) -> Result<ViewModel, Error> {
    match label_num(doc, vb_seeders()) {
        Err(e) => Err(e),
        Ok(seeders) => match label_num(doc, vb_leechers()) {
            Err(e) => Err(e),
            Ok(leechers) => match label_num(doc, vb_completed()) {
                Err(e) => Err(e),
                Ok(downloads) => match label_chars(doc, vb_submitter()) {
                    Err(e) => Err(e),
                    Ok(submitter) => {
                        let info_link = match label_chars(doc, vb_information()) {
                            Ok(v) => Some(v),
                            Err(_) => None,
                        };
                        match label_chars(doc, vb_info_hash()) {
                            Err(e) => Err(e),
                            Ok(info_hash) => spec_view_tail(
                                doc,
                                base,
                                id,
                                title,
                                date,
                                seeders,
                                leechers,
                                downloads,
                                submitter,
                                info_link,
                                info_hash,
                            ),
                        }
                    },
                },
            },
        },
    }
}

/// The category, size, links, files and comments of the page.
pub open spec fn spec_view_tail(
    doc: Seq<u8>,
    base: Seq<char>,
    id: int,
    title: Seq<char>,
    date: i64,
    seeders: int,
    leechers: int,
    downloads: int,
    submitter: Seq<char>,
    info_link: Option<Seq<char>>,
    info_hash: Seq<char>,
) -> Result<ViewModel, Error> {
    match spec_find_last(doc, vb_cat_href(), 0) {
        None => Err(Error::HtmlMissingAttribute),
        Some(ci) => match quoted_at(doc, vb_cat_href(), ci) {
            None => Err(Error::HtmlMissingAttribute),
            Some(code) => match chars_of(code) {
                None => Err(Error::ParseString),
                Some(cs) => match category_from_code(cs) {
                    None => Err(Error::ParseCategory),
                    Some(category) => match label_value(doc, vb_file_size()) {
                        None => Err(Error::HtmlMissingElement),
                        Some(szb) => match chars_of(szb) {
                            None => Err(Error::ParseString),
                            Some(szc) => match spec_size(encode_utf8(szc)) {
                                None => Err(Error::ParseSize),
                                Some(size) => match quoted_after(doc, vb_magnet_href(), 0) {
                                    None => Err(Error::HtmlMissingAttribute),
                                    Some(mg) => match chars_of(mg) {
                                        None => Err(Error::ParseString),
                                        Some(mgc) => {
                                            let desc = match inner_after(doc, vb_desc_id()) {
                                                None => Seq::<char>::empty(),
                                                Some(raw) => match chars_of(raw) {
                                                    None => Seq::<char>::empty(),
                                                    Some(d) => d,
                                                },
                                            };
                                            let fres = match spec_find(doc, vb_file_list(), 0) {
                                                None => Ok(Seq::<FileModel>::empty()),
                                                Some(fi) => if 0 <= fi <= doc.len() {
                                                    spec_files(
                                                        doc.skip(fi),
                                                        crate::htmlscan::elems(
                                                            doc.skip(fi),
                                                            vb_li(),
                                                            0,
                                                        ),
                                                        0,
                                                    )
                                                } else {
                                                    Ok(Seq::<FileModel>::empty())
                                                },
                                            };
                                            match fres {
                                                Err(e) => Err(e),
                                                Ok(files) => match spec_comments(
                                                    doc,
                                                    occurrences(doc, vb_comment_panel(), 0),
                                                    0,
                                                ) {
                                                    Err(e) => Err(e),
                                                    Ok(comments) => Ok(
                                                        ViewModel {
                                                            title: title,
                                                            pub_date: date,
                                                            id: id,
                                                            seeders: seeders,
                                                            leechers: leechers,
                                                            downloads: downloads,
                                                            submitter: submitter,
                                                            info_link: info_link,
                                                            info_hash: info_hash,
                                                            category: category,
                                                            size: size,
                                                            magnet_link: crate::strv("magnet:")
                                                                + mgc,
                                                            description_md: desc,
                                                            files: files,
                                                            comments: comments,
                                                            trusted: spec_contains(
                                                                doc,
                                                                vb_panel_success(),
                                                            ),
                                                            remake: spec_contains(
                                                                doc,
                                                                vb_panel_danger(),
                                                            ),
                                                        },
                                                    ),
                                                },
                                            }
                                        },
                                    },
                                },
                            },
                        },
                    },
                },
            },
        },
    }
}

/// The canonical record carries exactly what the page model says.
pub open spec fn view_matches(v: ViewRecord, m: ViewModel, base: Seq<char>) -> bool {
    &&& v.title@ == m.title
    &&& v.pub_date == m.pub_date
    &&& v.id == m.id
    &&& v.seeders == m.seeders
    &&& v.leechers == m.leechers
    &&& v.downloads == m.downloads
    &&& v.submitter@ == m.submitter
    &&& (match (v.info_link, m.info_link) {
        (Some(a), Some(b)) => a@ == b,
        (None, None) => true,
        _ => false,
    })
    &&& v.info_hash@ == m.info_hash
    &&& v.category == m.category
    &&& v.size == m.size
    &&& (match v.magnet_link {
        Some(x) => x@ == m.magnet_link,
        None => false,
    })
    &&& v.description_md@ == m.description_md
    &&& v.trusted == m.trusted
    &&& v.remake == m.remake
    &&& v.guid@ == trim_slashes(base) + crate::strv("/view/") + crate::strutil::dec_chars(m.id)
    &&& v.link@ == v.guid@
    &&& (match v.download_link {
        Some(d) => d@ == trim_slashes(base) + crate::strv("/download/")
            + crate::strutil::dec_chars(m.id) + crate::strv(".torrent"),
        None => false,
    })
    &&& v.files@.len() == m.files.len()
    &&& (forall|k: int|
        0 <= k < v.files@.len() ==> {
            &&& (#[trigger] v.files@[k]).id == m.files[k].id
            &&& v.files@[k].name@ == m.files[k].name
            &&& v.files@[k].size == m.files[k].size
        })
    &&& v.comments@.len() == m.comments.len()
    &&& (forall|k: int|
        0 <= k < v.comments@.len() ==> {
            &&& (#[trigger] v.comments@[k]).id == m.comments[k].id
            &&& v.comments@[k].user@ == m.comments[k].user
            &&& v.comments@[k].date == m.comments[k].date
            &&& v.comments@[k].edited_date == m.comments[k].edited
            &&& v.comments@[k].content@ == m.comments[k].content
            &&& (match (v.comments@[k].avatar, m.comments[k].avatar) {
                (Some(a), Some(b)) => a@ == b,
                (None, None) => true,
                _ => false,
            })
        })
}

/// Decodes a rendered detail page into the canonical record; `url` is the
/// origin the item links are built from.
#[verifier::rlimit(100)]
pub fn parse(url: &str, data: &str) -> (r: Result<ViewRecord, Error>)
    ensures
        match r {
            Ok(v) => spec_view(data.spec_bytes(), url@) is Ok && view_matches(
                v,
                spec_view(data.spec_bytes(), url@)->Ok_0,
                url@,
            ),
            Err(e) => spec_view(data.spec_bytes(), url@) == Err::<ViewModel, Error>(e),
        },
{
    proof {
        reveal(spec_view);
    }
    let raw = crate::strutil::str_to_bytes(data);
    let docv = ws_flat_exec(raw.as_slice());
    let doc = docv.as_slice();
    let dn = docv.len();
    let ldocv = crate::scan::to_lower(doc);
    let ldoc = ldocv.as_slice();
    let n_dl = vb_dl_href_exec();
    let seg = match quoted_after_exec(doc, n_dl.as_slice(), 0) {
        None => {
            return Err(Error::HtmlMissingAttribute);
        },
        Some(v) => v.0,
    };
    let idt = remove_torrent_exec(seg.as_slice());
    let id = match crate::scan::parse_u64(idt.as_slice()) {
        None => {
            return Err(Error::ParseInteger);
        },
        Some(v) => {
            if v <= usize::MAX as u64 {
                v as usize
            } else {
                return Err(Error::ParseInteger);
            }
        },
    };
    let n_pt = vb_panel_title_exec();
    let tb = match first_text_after_exec(doc, n_pt.as_slice(), 0) {
        None => {
            return Err(Error::HtmlMissingElement);
        },
        Some(t) => t,
    };
    let title = match crate::strutil::bytes_to_string(tb) {
        None => {
            return Err(Error::ParseString);
        },
        Some(t) => t,
    };
    let n_ts = vb_data_ts_exec();
    let tsb = match quoted_after_exec(doc, n_ts.as_slice(), 0) {
        None => {
            return Err(Error::HtmlMissingAttribute);
        },
        Some(t) => t.0,
    };
    let date = match crate::scan::parse_i64(tsb.as_slice()) {
        None => {
            return Err(Error::ParseNumber);
        },
        Some(d) => d,
    };
    let n_se = vb_seeders_exec();
    let seeders = match label_num_exec(doc, ldoc, n_se.as_slice()) {
        Err(e) => {
            return Err(e);
        },
        Ok(v) => v,
    };
    let n_le = vb_leechers_exec();
    let leechers = match label_num_exec(doc, ldoc, n_le.as_slice()) {
        Err(e) => {
            return Err(e);
        },
        Ok(v) => v,
    };
    let n_co = vb_completed_exec();
    let downloads = match label_num_exec(doc, ldoc, n_co.as_slice()) {
        Err(e) => {
            return Err(e);
        },
        Ok(v) => v,
    };
    let n_su = vb_submitter_exec();
    let submitter = match label_chars_exec(doc, ldoc, n_su.as_slice()) {
        Err(e) => {
            return Err(e);
        },
        Ok(v) => v,
    };
    let n_in = vb_information_exec();
    let info_link = match label_chars_exec(doc, ldoc, n_in.as_slice()) {
        Ok(v) => Some(v),
        Err(_) => None,
    };
    let n_ih = vb_info_hash_exec();
    let info_hash = match label_chars_exec(doc, ldoc, n_ih.as_slice()) {
        Err(e) => {
            return Err(e);
        },
        Ok(v) => v,
    };
    let n_ch = vb_cat_href_exec();
    let ci = match find_last_exec(doc, n_ch.as_slice(), 0) {
        None => {
            return Err(Error::HtmlMissingAttribute);
        },
        Some(i) => i,
    };
    proof {
        lemma_find_last_in_range(doc@, vb_cat_href(), 0, ci as int);
    }
    let n_q = vb_quote_exec();
    let code = match crate::xml::find_from(doc, n_q.as_slice(), ci + n_ch.len()) {
        None => {
            return Err(Error::HtmlMissingAttribute);
        },
        Some(j) => {
            proof {
                crate::xml::lemma_spec_find_advances(doc@, vb_quote(), ci + n_ch@.len());
            }
            let rawc = crate::scan::subvec(doc, ci + n_ch.len(), j);
            crate::xml::xml_decode_exec(rawc.as_slice())
        },
    };
    let cs = match crate::strutil::bytes_to_string(code) {
        None => {
            return Err(Error::ParseString);
        },
        Some(s) => s,
    };
    let category = match Category::from_str(cs.as_str()) {
        Err(_) => {
            return Err(Error::ParseCategory);
        },
        Ok(c) => c,
    };
    let n_fs = vb_file_size_exec();
    let szb = match label_value_exec(doc, ldoc, n_fs.as_slice()) {
        None => {
            return Err(Error::HtmlMissingElement);
        },
        Some(v) => v,
    };
    let szc = match crate::strutil::bytes_to_string(szb) {
        None => {
            return Err(Error::ParseString);
        },
        Some(s) => s,
    };
    let size = match crate::normalize::parse_size(szc.as_str()) {
        Err(_) => {
            return Err(Error::ParseSize);
        },
        Ok(v) => v,
    };
    let n_mg = vb_magnet_href_exec();
    let mg = match quoted_after_exec(doc, n_mg.as_slice(), 0) {
        None => {
            return Err(Error::HtmlMissingAttribute);
        },
        Some(v) => v.0,
    };
    let mgc = match crate::strutil::bytes_to_string(mg) {
        None => {
            return Err(Error::ParseString);
        },
        Some(s) => s,
    };
    let mut magnet = ("magnet:").to_owned();
    crate::strutil::push_str(&mut magnet, mgc.as_str());
    let n_de = vb_desc_id_exec();
    let description = match inner_after_exec(doc, n_de.as_slice()) {
        None => String::new(),
        Some(raw) => match crate::strutil::bytes_to_string(raw) {
            None => String::new(),
            Some(d) => d,
        },
    };
    let n_fl = vb_file_list_exec();
    let files = match crate::xml::find_from(doc, n_fl.as_slice(), 0) {
        None => Vec::new(),
        Some(fi) => {
            proof {
                crate::xml::lemma_spec_find_advances(doc@, vb_file_list(), 0);
            }
            let fregion = crate::scan::subvec(doc, fi, dn);
            proof {
                assert(fregion@ =~= doc@.skip(fi as int));
            }
            match files_exec(fregion.as_slice()) {
                Err(e) => {
                    return Err(e);
                },
                Ok(fs) => fs,
            }
        },
    };
    let comments = match comments_exec(doc) {
        Err(e) => {
            return Err(e);
        },
        Ok(cs2) => cs2,
    };
    let n_ps = vb_panel_success_exec();
    let n_pd = vb_panel_danger_exec();
    let trusted = crate::scan::contains(doc, n_ps.as_slice());
    let remake = crate::scan::contains(doc, n_pd.as_slice());
    let base_t = crate::urlbuild::trim_slashes_exec(url);
    let idstr = crate::strutil::u64_to_string(usize_to_u64(id));
    let mut guid = crate::strutil::clone_string(&base_t);
    crate::strutil::push_str(&mut guid, "/view/");
    crate::strutil::push_str(&mut guid, idstr.as_str());
    let mut dl = crate::strutil::clone_string(&base_t);
    crate::strutil::push_str(&mut dl, "/download/");
    crate::strutil::push_str(&mut dl, idstr.as_str());
    crate::strutil::push_str(&mut dl, ".torrent");
    let link = crate::strutil::clone_string(&guid);
    proof {
        reveal_strlit("magnet:");
        reveal_strlit("/view/");
        reveal_strlit("/download/");
        reveal_strlit(".torrent");
    }
    Ok(
        ViewRecord {
            title,
            link,
            pub_date: date,
            guid,
            id,
            seeders,
            leechers,
            downloads,
            info_hash,
            info_link,
            category,
            size,
            trusted,
            remake,
            description_md: description,
            download_link: Some(dl),
            magnet_link: Some(magnet),
            files,
            comments,
            submitter,
        },
    )
}

fn usize_to_u64(x: usize) -> (r: u64)
    ensures
        r as int == x as int,
{
    x as u64
}

} // verus!
