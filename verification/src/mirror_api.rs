//! The mirror façade's request and response records, and the validation
//! of inbound list requests.
//!
//! Validation never rejects a request: a page of zero falls back to the
//! first page and a constrained field with an unrecognized value is
//! dropped, as if it had not been sent.

use vstd::prelude::*;

use crate::model::{ListItem, ViewRecord};
use crate::query::{
    opt_view, validate_filter_exec, validate_order_exec, validate_query_exec, validate_sort_exec,
    validated_by, validated_page, validated_query, valid_filter, valid_order, valid_sort,
};
use crate::strutil::{clone_opt_string, clone_string};

verus! {

/// An inbound list request as the mirror API receives it.
#[derive(Debug)]
pub struct MirrorListRequest {
    pub page: Option<usize>,
    pub category: Option<String>,
    pub sort: Option<String>,
    pub order: Option<String>,
    pub filter: Option<String>,
    pub query: Option<String>,
}

impl MirrorListRequest {
    /// Normalizes the request: page zero becomes page one, and a sort,
    /// order or filter outside the accepted values, or an empty search
    /// term, is dropped; the category passes through untouched.
    pub fn validate(self) -> (r: MirrorListRequest)
        ensures
            r.page == validated_page(self.page),
            opt_view(r.category) == opt_view(self.category),
            opt_view(r.sort) == validated_by(self.sort, |s: Seq<char>| valid_sort(s)),
            opt_view(r.order) == validated_by(self.order, |s: Seq<char>| valid_order(s)),
            opt_view(r.filter) == validated_by(self.filter, |s: Seq<char>| valid_filter(s)),
            opt_view(r.query) == validated_query(self.query),
    {
        let page = match self.page {
            Some(p) => if p > 0 {
                Some(p)
            } else {
                Some(1)
            },
            None => None,
        };
        MirrorListRequest {
            page,
            category: self.category,
            sort: validate_sort_exec(self.sort),
            order: validate_order_exec(self.order),
            filter: validate_filter_exec(self.filter),
            query: validate_query_exec(self.query),
        }
    }
}

/// An inbound list request of the single-origin API; validated the same
/// way as the mirror one.
#[derive(Debug)]
pub struct ListRequest {
    pub page: Option<usize>,
    pub category: Option<String>,
    pub sort: Option<String>,
    pub order: Option<String>,
    pub filter: Option<String>,
    pub query: Option<String>,
}

impl ListRequest {
    /// Normalizes the request exactly as `MirrorListRequest::validate`.
    pub fn validate(self) -> (r: ListRequest)
        ensures
            r.page == validated_page(self.page),
            opt_view(r.category) == opt_view(self.category),
            opt_view(r.sort) == validated_by(self.sort, |s: Seq<char>| valid_sort(s)),
            opt_view(r.order) == validated_by(self.order, |s: Seq<char>| valid_order(s)),
            opt_view(r.filter) == validated_by(self.filter, |s: Seq<char>| valid_filter(s)),
            opt_view(r.query) == validated_query(self.query),
    {
        let page = match self.page {
            Some(p) => if p > 0 {
                Some(p)
            } else {
                Some(1)
            },
            None => None,
        };
        ListRequest {
            page,
            category: self.category,
            sort: validate_sort_exec(self.sort),
            order: validate_order_exec(self.order),
            filter: validate_filter_exec(self.filter),
            query: validate_query_exec(self.query),
        }
    }
}

/// One row of a mirror list response.
#[derive(Debug)]
pub struct MirrorListItem {
    pub id: usize,
    pub title: String,
    /// UTC epoch seconds.
    pub pub_date: i64,
    pub description: Option<String>,
    pub category: String,
    pub size: u64,
    pub seeders: usize,
    pub leechers: usize,
    pub downloads: usize,
    pub comments: usize,
    pub trusted: bool,
    pub remake: bool,
}

#[derive(Debug)]
pub struct MirrorListResponse {
    pub items: Vec<MirrorListItem>,
}

impl MirrorListItem {
    /// Projects a canonical item onto the wire record.
    pub fn from_item(item: &ListItem) -> (r: MirrorListItem)
        ensures
            r.id == item.id,
            r.title@ == item.title@,
            r.pub_date == item.pub_date,
            opt_view(r.description) == opt_view(item.description),
            r.category@ == item.category.code_spec(),
            r.size == item.size,
            r.seeders == item.seeders,
            r.leechers == item.leechers,
            r.downloads == item.downloads,
            r.comments == item.comments,
            r.trusted == item.trusted,
            r.remake == item.remake,
    {
        MirrorListItem {
            id: item.id,
            title: clone_string(&item.title),
            pub_date: item.pub_date,
            description: clone_opt_string(&item.description),
            category: item.category.to_string(),
            size: item.size,
            seeders: item.seeders,
            leechers: item.leechers,
            downloads: item.downloads,
            comments: item.comments,
            trusted: item.trusted,
            remake: item.remake,
        }
    }
}

/// One comment of a mirror detail response.
#[derive(Debug)]
pub struct ViewComment {
    pub id: usize,
    pub user: String,
    /// UTC epoch seconds.
    pub date: i64,
    pub edited_date: Option<i64>,
    pub content: String,
    pub avatar: Option<String>,
}

/// One file of a mirror detail response.
#[derive(Debug)]
pub struct ViewFile {
    pub id: usize,
    pub name: String,
    pub size: u64,
}

/// A mirror detail response.
#[derive(Debug)]
pub struct ViewResponse {
    pub id: usize,
    pub title: String,
    /// UTC epoch seconds.
    pub pub_date: i64,
    pub description_md: String,
    pub category: String,
    pub size: u64,
    pub seeders: usize,
    pub leechers: usize,
    pub downloads: usize,
    pub trusted: bool,
    pub remake: bool,
    pub magnet_link: Option<String>,
    pub comments: Vec<ViewComment>,
    pub files: Vec<ViewFile>,
}

impl ViewResponse {
    /// Projects a canonical detail record onto the wire record.
    pub fn from_view(v: &ViewRecord) -> (r: ViewResponse)
        ensures
            r.id == v.id,
            r.title@ == v.title@,
            r.pub_date == v.pub_date,
            r.description_md@ == v.description_md@,
            r.category@ == v.category.code_spec(),
            r.size == v.size,
            r.seeders == v.seeders,
            r.leechers == v.leechers,
            r.downloads == v.downloads,
            r.trusted == v.trusted,
            r.remake == v.remake,
            opt_view(r.magnet_link) == opt_view(v.magnet_link),
            r.comments@.len() == v.comments@.len(),
            r.files@.len() == v.files@.len(),
            forall|k: int|
                0 <= k < v.files@.len() ==> {
                    &&& (#[trigger] r.files@[k]).id == v.files@[k].id
                    &&& r.files@[k].name@ == v.files@[k].name@
                    &&& r.files@[k].size == v.files@[k].size
                },
            forall|k: int|
                0 <= k < v.comments@.len() ==> {
                    &&& (#[trigger] r.comments@[k]).id == v.comments@[k].id
                    &&& r.comments@[k].user@ == v.comments@[k].user@
                    &&& r.comments@[k].date == v.comments@[k].date
                    &&& r.comments@[k].edited_date == v.comments@[k].edited_date
                    &&& r.comments@[k].content@ == v.comments@[k].content@
                    &&& opt_view(r.comments@[k].avatar) == opt_view(v.comments@[k].avatar)
                },
    {
        let mut files: Vec<ViewFile> = Vec::new();
        let mut i: usize = 0;
        while i < v.files.len()
            invariant
                0 <= i <= v.files@.len(),
                files@.len() == i,
                forall|k: int|
                    0 <= k < i ==> {
                        &&& (#[trigger] files@[k]).id == v.files@[k].id
                        &&& files@[k].name@ == v.files@[k].name@
                        &&& files@[k].size == v.files@[k].size
                    },
            decreases v.files@.len() - i,
        {
            files.push(
                ViewFile {
                    id: v.files[i].id,
                    name: clone_string(&v.files[i].name),
                    size: v.files[i].size,
                },
            );
            i = i + 1;
        }
        let mut comments: Vec<ViewComment> = Vec::new();
        let mut j: usize = 0;
        while j < v.comments.len()
            invariant
                0 <= j <= v.comments@.len(),
                comments@.len() == j,
                forall|k: int|
                    0 <= k < j ==> {
                        &&& (#[trigger] comments@[k]).id == v.comments@[k].id
                        &&& comments@[k].user@ == v.comments@[k].user@
                        &&& comments@[k].date == v.comments@[k].date
                        &&& comments@[k].edited_date == v.comments@[k].edited_date
                        &&& comments@[k].content@ == v.comments@[k].content@
                        &&& opt_view(comments@[k].avatar) == opt_view(v.comments@[k].avatar)
                    },
            decreases v.comments@.len() - j,
        {
            comments.push(
                ViewComment {
                    id: v.comments[j].id,
                    user: clone_string(&v.comments[j].user),
                    date: v.comments[j].date,
                    edited_date: v.comments[j].edited_date,
                    content: clone_string(&v.comments[j].content),
                    avatar: clone_opt_string(&v.comments[j].avatar),
                },
            );
            j = j + 1;
        }
        ViewResponse {
            id: v.id,
            title: clone_string(&v.title),
            pub_date: v.pub_date,
            description_md: clone_string(&v.description_md),
            category: v.category.to_string(),
            size: v.size,
            seeders: v.seeders,
            leechers: v.leechers,
            downloads: v.downloads,
            trusted: v.trusted,
            remake: v.remake,
            magnet_link: clone_opt_string(&v.magnet_link),
            comments,
            files,
        }
    }
}

/// Which kind of site a configured mirror serves.
#[derive(Debug, Clone, Copy, PartialEq, Eq, Structural)]
pub enum MirrorType {
    Nyaa,
}

/// One configured mirror, as the site listing reports it.
#[derive(Debug)]
pub struct MirrorSiteItem {
    pub id: String,
    pub name: String,
    pub hidden: bool,
    pub ty: MirrorType,
}

#[derive(Debug)]
pub struct MirrorSiteResponse {
    pub items: Vec<MirrorSiteItem>,
}

/// The magnet link of one item, as the magnet endpoint reports it.
#[derive(Debug)]
pub struct MagnetResponse {
    pub magnet_link: String,
}

/// A mirror list response.
#[derive(Debug)]
pub struct MirrorViewFile {
    pub id: usize,
    pub name: String,
    pub size: u64,
}

} // verus!
