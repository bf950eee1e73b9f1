//! The canonical records the wire parsers emit: one listing row and one
//! detail page, independent of whether the upstream sent the XML feed or
//! rendered HTML.  Instants are UTC epoch seconds.

use vstd::prelude::*;

use crate::data::Category;

verus! {

/// A listing row, as either wire format describes it.
#[derive(Debug)]
pub struct ListItem {
    pub title: String,
    pub link: String,
    /// UTC epoch seconds.
    pub pub_date: i64,
    pub guid: String,
    /// The integer tail of the guid path.
    pub id: usize,
    pub seeders: usize,
    pub leechers: usize,
    pub downloads: usize,
    pub info_hash: Option<String>,
    pub category: Category,
    pub size: u64,
    pub comments: usize,
    pub trusted: bool,
    pub remake: bool,
    pub description: Option<String>,
    pub download_link: Option<String>,
    pub magnet_link: Option<String>,
}

/// One file of a detail page.
#[derive(Debug)]
pub struct ViewFile {
    /// Position in the file list.
    pub id: usize,
    pub name: String,
    pub size: u64,
}

/// One comment of a detail page.
#[derive(Debug)]
pub struct ViewComment {
    pub id: usize,
    pub user: String,
    /// UTC epoch seconds.
    pub date: i64,
    pub edited_date: Option<i64>,
    pub content: String,
    pub avatar: Option<String>,
}

/// A detail page, canonical form.
#[derive(Debug)]
pub struct ViewRecord {
    pub title: String,
    pub link: String,
    /// UTC epoch seconds.
    pub pub_date: i64,
    pub guid: String,
    pub id: usize,
    pub seeders: usize,
    pub leechers: usize,
    pub downloads: usize,
    pub info_hash: String,
    pub info_link: Option<String>,
    pub category: Category,
    pub size: u64,
    pub trusted: bool,
    pub remake: bool,
    pub description_md: String,
    pub download_link: Option<String>,
    pub magnet_link: Option<String>,
    pub files: Vec<ViewFile>,
    pub comments: Vec<ViewComment>,
    pub submitter: String,
}

} // verus!
