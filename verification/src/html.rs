//! The page-parsing entry points of the store-facing pipeline: the same
//! decoders as the wire parsers, projected onto the stored records.

use vstd::prelude::*;
use vstd::string::StringSliceAdditionalSpecFns;

use crate::Error;
use crate::data::{Comment, File, Item, ViewRecord};
use crate::listpage::RowModel;
use crate::model;
use crate::strutil::dec_chars;

verus! {

/// A stored item carries exactly what the canonical item does, keyed by
/// its guid.
pub open spec fn stored_matches(d: Item, i: model::ListItem) -> bool {
    &&& d.id@ == i.guid@
    &&& d.title@ == i.title@
    &&& d.link@ == i.link@
    &&& d.date == i.pub_date
    &&& d.seeders == i.seeders
    &&& d.leechers == i.leechers
    &&& d.downloads == i.downloads
    &&& d.category == i.category
    &&& d.size == i.size
    &&& d.comments == i.comments
    &&& d.trusted == i.trusted
    &&& d.remake == i.remake
    &&& crate::query::opt_view(d.download_link) == crate::query::opt_view(i.download_link)
    &&& crate::query::opt_view(d.magnet_link) == crate::query::opt_view(i.magnet_link)
}

/// A stored item carries exactly what a decoded listing row says.
pub open spec fn stored_row_matches(d: Item, m: RowModel) -> bool {
    &&& d.id@ == m.guid
    &&& d.title@ == m.title
    &&& d.link@ == m.download_link
    &&& d.date == m.pub_date
    &&& d.seeders == m.seeders
    &&& d.leechers == m.leechers
    &&& d.downloads == m.downloads
    &&& d.category == m.category
    &&& d.size == m.size
    &&& d.comments == m.comments
    &&& d.trusted == m.trusted
    &&& d.remake == m.remake
    &&& (match d.download_link {
        Some(x) => x@ == m.download_link,
        None => false,
    })
    &&& (match d.magnet_link {
        Some(x) => x@ == m.magnet_link,
        None => false,
    })
}

/// Projects a canonical item onto the stored row.
pub fn to_stored(i: model::ListItem) -> (r: Item)
    ensures
        stored_matches(r, i),
{
    Item {
        id: i.guid,
        title: i.title,
        link: i.link,
        date: i.pub_date,
        seeders: i.seeders,
        leechers: i.leechers,
        downloads: i.downloads,
        category: i.category,
        size: i.size,
        comments: i.comments,
        trusted: i.trusted,
        remake: i.remake,
        download_link: i.download_link,
        magnet_link: i.magnet_link,
    }
}

/// Decodes a rendered listing page into stored rows; relative links stay
/// relative, as the page sent them.
pub fn parse_list(data: &str) -> (r: Result<Vec<Item>, Error>)
    ensures
        match r {
            Ok(items) => {
                let spec = crate::listpage::spec_list(data.spec_bytes(), Seq::<char>::empty());
                &&& spec is Ok
                &&& items@.len() == spec->Ok_0.len()
                &&& (forall|k: int|
                    0 <= k < items@.len() ==> stored_row_matches(
                        #[trigger] items@[k],
                        spec->Ok_0[k],
                    ))
            },
            Err(e) => crate::listpage::spec_list(data.spec_bytes(), Seq::<char>::empty()) == Err::<
                Seq<RowModel>,
                Error,
            >(e),
        },
{
    proof {
        reveal_strlit("");
        assert(crate::strv("") =~= Seq::<char>::empty());
    }
    let parsed = crate::listpage::parse("", data);
    match parsed {
        Err(e) => Err(e),
        Ok(items) => {
            let ghost models = crate::listpage::spec_list(
                data.spec_bytes(),
                Seq::<char>::empty(),
            )->Ok_0;
            let ghost all = items@;
            let mut out: Vec<Item> = Vec::new();
            let mut rest = items;
            let ghost mut k: int = 0;
            while rest.len() > 0
                invariant
                    0 <= k <= all.len(),
                    rest@ =~= all.skip(k),
                    out@.len() == k,
                    all.len() == models.len(),
                    forall|j: int|
                        0 <= j < all.len() ==> crate::listpage::row_matches(
                            #[trigger] all[j],
                            models[j],
                        ),
                    forall|j: int|
                        0 <= j < k ==> stored_row_matches(#[trigger] out@[j], models[j]),
                decreases rest@.len(),
            {
                let it = rest.remove(0);
                proof {
                    assert(all.skip(k)[0] == it);
                    assert(all.skip(k).drop_first() =~= all.skip(k + 1));
                    assert(rest@ =~= all.skip(k + 1));
                    assert(it == all[k]);
                }
                out.push(to_stored(it));
                proof {
                    k = k + 1;
                }
            }
            proof {
                assert(all.skip(k) =~= Seq::<model::ListItem>::empty());
            }
            Ok(out)
        },
    }
}

/// Decodes a rendered detail page into the stored record; item links are
/// built against an empty origin, as the store keeps them.
#[verifier::rlimit(100)]
pub fn parse_view(data: &str) -> (r: Result<ViewRecord, Error>)
    ensures
        match r {
            Ok(v) => {
                let spec = crate::viewpage::spec_view(data.spec_bytes(), Seq::<char>::empty());
                let m = spec->Ok_0;
                &&& spec is Ok
                &&& v.id@ == dec_chars(m.id)
                &&& v.title@ == m.title
                &&& v.link@ == crate::strv("/view/") + dec_chars(m.id)
                &&& v.date == m.pub_date
                &&& v.seeders == m.seeders
                &&& v.leechers == m.leechers
                &&& v.downloads == m.downloads
                &&& v.category == m.category
                &&& v.size == m.size
                &&& v.trusted == m.trusted
                &&& v.remake == m.remake
                &&& v.info_hash@ == m.info_hash
                &&& v.submitter@ == m.submitter
                &&& v.description@ == m.description_md
                &&& v.magnet_link@ == m.magnet_link
                &&& v.download_link@ == crate::strv("/download/") + dec_chars(m.id)
                    + crate::strv(".torrent")
                &&& (match (v.info_link, m.info_link) {
                    (Some(a), Some(b)) => a@ == b,
                    (None, None) => true,
                    _ => false,
                })
                &&& v.files@.len() == m.files.len()
                &&& (forall|k: int|
                    0 <= k < v.files@.len() ==> {
                        &&& (#[trigger] v.files@[k]).id@ == dec_chars(m.files[k].id)
                        &&& v.files@[k].name@ == m.files[k].name
                        &&& v.files@[k].size == m.files[k].size
                    })
                &&& v.comments@.len() == m.comments.len()
                &&& (forall|k: int|
                    0 <= k < v.comments@.len() ==> {
                        &&& (#[trigger] v.comments@[k]).id@ == dec_chars(m.comments[k].id)
                        &&& v.comments@[k].user@ == m.comments[k].user
                        &&& v.comments@[k].date == m.comments[k].date
                        &&& v.comments@[k].edited == m.comments[k].edited
                        &&& v.comments@[k].content@ == m.comments[k].content
                        &&& (match (v.comments@[k].avatar, m.comments[k].avatar) {
                            (Some(a), Some(b)) => a@ == b,
                            (None, None) => true,
                            _ => false,
                        })
                    })
            },
            Err(e) => crate::viewpage::spec_view(data.spec_bytes(), Seq::<char>::empty()) == Err::<
                crate::viewpage::ViewModel,
                Error,
            >(e),
        },
{
    proof {
        reveal_strlit("");
        assert(crate::strv("") =~= Seq::<char>::empty());
    }
    let parsed = crate::viewpage::parse("", data);
    match parsed {
        Err(e) => Err(e),
        Ok(v) => {
            let ghost m = crate::viewpage::spec_view(
                data.spec_bytes(),
                Seq::<char>::empty(),
            )->Ok_0;
            proof {
                assert(crate::urlbuild::trim_slashes(Seq::<char>::empty()) =~= Seq::<
                    char,
                >::empty());
                assert(v.guid@ =~= crate::strv("/view/") + dec_chars(m.id));
                assert((match v.download_link {
                    Some(d) => d@ =~= crate::strv("/download/") + dec_chars(m.id) + crate::strv(
                        ".torrent",
                    ),
                    None => false,
                }));
            }
            let id_str = crate::strutil::u64_to_string(id_to_u64(v.id));
            let ghost mfiles = m.files;
            let ghost vfiles = v.files@;
            let mut files: Vec<File> = Vec::new();
            let mut frest = v.files;
            let ghost mut fk: int = 0;
            while frest.len() > 0
                invariant
                    0 <= fk <= vfiles.len(),
                    frest@ =~= vfiles.skip(fk),
                    files@.len() == fk,
                    vfiles.len() == mfiles.len(),
                    forall|j: int|
                        0 <= j < vfiles.len() ==> {
                            &&& (#[trigger] vfiles[j]).id == mfiles[j].id
                            &&& vfiles[j].name@ == mfiles[j].name
                            &&& vfiles[j].size == mfiles[j].size
                        },
                    forall|j: int|
                        0 <= j < fk ==> {
                            &&& (#[trigger] files@[j]).id@ == dec_chars(mfiles[j].id)
                            &&& files@[j].name@ == mfiles[j].name
                            &&& files@[j].size == mfiles[j].size
                        },
                decreases frest@.len(),
            {
                let f = frest.remove(0);
                proof {
                    assert(vfiles.skip(fk)[0] == f);
                    assert(vfiles.skip(fk).drop_first() =~= vfiles.skip(fk + 1));
                    assert(frest@ =~= vfiles.skip(fk + 1));
                    assert(f == vfiles[fk]);
                }
                let fid = crate::strutil::u64_to_string(id_to_u64(f.id));
                files.push(File { id: fid, name: f.name, size: f.size });
                proof {
                    fk = fk + 1;
                }
            }
            let ghost mcom = m.comments;
            let ghost vcom = v.comments@;
            let mut comments: Vec<Comment> = Vec::new();
            let mut crest = v.comments;
            let ghost mut ck: int = 0;
            while crest.len() > 0
                invariant
                    0 <= ck <= vcom.len(),
                    crest@ =~= vcom.skip(ck),
                    comments@.len() == ck,
                    vcom.len() == mcom.len(),
                    forall|j: int|
                        0 <= j < vcom.len() ==> {
                            &&& (#[trigger] vcom[j]).id == mcom[j].id
                            &&& vcom[j].user@ == mcom[j].user
                            &&& vcom[j].date == mcom[j].date
                            &&& vcom[j].edited_date == mcom[j].edited
                            &&& vcom[j].content@ == mcom[j].content
                            &&& (match (vcom[j].avatar, mcom[j].avatar) {
                                (Some(a), Some(b)) => a@ == b,
                                (None, None) => true,
                                _ => false,
                            })
                        },
                    forall|j: int|
                        0 <= j < ck ==> {
                            &&& (#[trigger] comments@[j]).id@ == dec_chars(mcom[j].id)
                            &&& comments@[j].user@ == mcom[j].user
                            &&& comments@[j].date == mcom[j].date
                            &&& comments@[j].edited == mcom[j].edited
                            &&& comments@[j].content@ == mcom[j].content
                            &&& (match (comments@[j].avatar, mcom[j].avatar) {
                                (Some(a), Some(b)) => a@ == b,
                                (None, None) => true,
                                _ => false,
                            })
                        },
                decreases crest@.len(),
            {
                let c = crest.remove(0);
                proof {
                    assert(vcom.skip(ck)[0] == c);
                    assert(vcom.skip(ck).drop_first() =~= vcom.skip(ck + 1));
                    assert(crest@ =~= vcom.skip(ck + 1));
                    assert(c == vcom[ck]);
                }
                let cid = crate::strutil::u64_to_string(id_to_u64(c.id));
                comments.push(
                    Comment {
                        id: cid,
                        user: c.user,
                        avatar: c.avatar,
                        date: c.date,
                        edited: c.edited_date,
                        content: c.content,
                    },
                );
                proof {
                    ck = ck + 1;
                }
            }
            proof {
                assert(vfiles.skip(fk) =~= Seq::<model::ViewFile>::empty());
                assert(vcom.skip(ck) =~= Seq::<model::ViewComment>::empty());
            }
            let dl = match v.download_link {
                Some(d) => d,
                None => String::new(),
            };
            let mg = match v.magnet_link {
                Some(x) => x,
                None => String::new(),
            };
            proof {
                assert(v.magnet_link is Some);
            }
            Ok(
                ViewRecord {
                    id: id_str,
                    title: v.title,
                    link: v.link,
                    date: v.pub_date,
                    seeders: v.seeders,
                    leechers: v.leechers,
                    downloads: v.downloads,
                    category: v.category,
                    size: v.size,
                    trusted: v.trusted,
                    remake: v.remake,
                    download_link: dl,
                    magnet_link: mg,
                    description: v.description_md,
                    submitter: v.submitter,
                    info_hash: v.info_hash,
                    info_link: v.info_link,
                    files,
                    comments,
                },
            )
        },
    }
}

fn id_to_u64(x: usize) -> (r: u64)
    ensures
        r as int == x as int,
{
    x as u64
}

} // verus!
