//! The canonical data model: the closed set of category codes, the list
//! filters and sort orders, and the item and detail records the parsers
//! emit and the store keeps.  Instants are UTC epoch seconds.

use vstd::prelude::*;

use crate::Error;
use crate::strutil::str_eq;

verus! {

/// The closed set of category codes of the shape `<major>_<minor>`;
/// `All` is the `0_0` wildcard.
#[derive(Debug, Clone, Copy, PartialEq, Eq, Structural)]
pub enum Category {
    All,
    Anime,
    AnimeAmv,
    AnimeEnglish,
    AnimeNonEnglish,
    AnimeRaw,
    Audio,
    AudioLossless,
    AudioLossy,
    Literature,
    LiteratureEnglish,
    LiteratureNonEnglish,
    LiteratureRaw,
    LiveAction,
    LiveActionEnglish,
    LiveActionIdol,
    LiveActionNonEnglish,
    LiveActionRaw,
    Pictures,
    PicturesGraphics,
    PicturesPhotos,
    Software,
    SoftwareApps,
    SoftwareGames,
}

impl Category {
    /// The `<major>_<minor>` code of this category.
    pub open spec fn code_spec(self) -> Seq<char> {
        match self {
            Category::All => crate::strv("0_0"),
            Category::Anime => crate::strv("1_0"),
            Category::AnimeAmv => crate::strv("1_1"),
            Category::AnimeEnglish => crate::strv("1_2"),
            Category::AnimeNonEnglish => crate::strv("1_3"),
            Category::AnimeRaw => crate::strv("1_4"),
            Category::Audio => crate::strv("2_0"),
            Category::AudioLossless => crate::strv("2_1"),
            Category::AudioLossy => crate::strv("2_2"),
            Category::Literature => crate::strv("3_0"),
            Category::LiteratureEnglish => crate::strv("3_1"),
            Category::LiteratureNonEnglish => crate::strv("3_2"),
            Category::LiteratureRaw => crate::strv("3_3"),
            Category::LiveAction => crate::strv("4_0"),
            Category::LiveActionEnglish => crate::strv("4_1"),
            Category::LiveActionIdol => crate::strv("4_2"),
            Category::LiveActionNonEnglish => crate::strv("4_3"),
            Category::LiveActionRaw => crate::strv("4_4"),
            Category::Pictures => crate::strv("5_0"),
            Category::PicturesGraphics => crate::strv("5_1"),
            Category::PicturesPhotos => crate::strv("5_2"),
            Category::Software => crate::strv("6_0"),
            Category::SoftwareApps => crate::strv("6_1"),
            Category::SoftwareGames => crate::strv("6_2"),
        }
    }

}

/// The category a code denotes, if it is one of the closed set.
pub open spec fn category_from_code(s: Seq<char>) -> Option<Category> {
        if s == crate::strv("0_0") {
            Some(Category::All)
        } else if s == crate::strv("1_0") {
            Some(Category::Anime)
        } else if s == crate::strv("1_1") {
            Some(Category::AnimeAmv)
        } else if s == crate::strv("1_2") {
            Some(Category::AnimeEnglish)
        } else if s == crate::strv("1_3") {
            Some(Category::AnimeNonEnglish)
        } else if s == crate::strv("1_4") {
            Some(Category::AnimeRaw)
        } else if s == crate::strv("2_0") {
            Some(Category::Audio)
        } else if s == crate::strv("2_1") {
            Some(Category::AudioLossless)
        } else if s == crate::strv("2_2") {
            Some(Category::AudioLossy)
        } else if s == crate::strv("3_0") {
            Some(Category::Literature)
        } else if s == crate::strv("3_1") {
            Some(Category::LiteratureEnglish)
        } else if s == crate::strv("3_2") {
            Some(Category::LiteratureNonEnglish)
        } else if s == crate::strv("3_3") {
            Some(Category::LiteratureRaw)
        } else if s == crate::strv("4_0") {
            Some(Category::LiveAction)
        } else if s == crate::strv("4_1") {
            Some(Category::LiveActionEnglish)
        } else if s == crate::strv("4_2") {
            Some(Category::LiveActionIdol)
        } else if s == crate::strv("4_3") {
            Some(Category::LiveActionNonEnglish)
        } else if s == crate::strv("4_4") {
            Some(Category::LiveActionRaw)
        } else if s == crate::strv("5_0") {
            Some(Category::Pictures)
        } else if s == crate::strv("5_1") {
            Some(Category::PicturesGraphics)
        } else if s == crate::strv("5_2") {
            Some(Category::PicturesPhotos)
        } else if s == crate::strv("6_0") {
            Some(Category::Software)
        } else if s == crate::strv("6_1") {
            Some(Category::SoftwareApps)
        } else if s == crate::strv("6_2") {
            Some(Category::SoftwareGames)
    } else {
        None
    }
}

impl Category {
    /// English display name.
    pub open spec fn english_spec(self) -> Seq<char> {
        match self {
            Category::All => crate::strv("All"),
            Category::Anime => crate::strv("Anime"),
            Category::AnimeAmv => crate::strv("Anime - AMV"),
            Category::AnimeEnglish => crate::strv("Anime - English"),
            Category::AnimeNonEnglish => crate::strv("Anime - Non-English"),
            Category::AnimeRaw => crate::strv("Anime - Raw"),
            Category::Audio => crate::strv("Audio"),
            Category::AudioLossless => crate::strv("Audio - Lossless"),
            Category::AudioLossy => crate::strv("Audio - Lossy"),
            Category::Literature => crate::strv("Literature"),
            Category::LiteratureEnglish => crate::strv("Literature - English"),
            Category::LiteratureNonEnglish => crate::strv("Literature - Non-English"),
            Category::LiteratureRaw => crate::strv("Literature - Raw"),
            Category::LiveAction => crate::strv("Live Action"),
            Category::LiveActionEnglish => crate::strv("Live Action - English"),
            Category::LiveActionIdol => crate::strv("Live Action - Idol/PV"),
            Category::LiveActionNonEnglish => crate::strv("Live Action - Non-English"),
            Category::LiveActionRaw => crate::strv("Live Action - Raw"),
            Category::Pictures => crate::strv("Pictures"),
            Category::PicturesGraphics => crate::strv("Pictures - Graphics"),
            Category::PicturesPhotos => crate::strv("Pictures - Photos"),
            Category::Software => crate::strv("Software"),
            Category::SoftwareApps => crate::strv("Software - Apps"),
            Category::SoftwareGames => crate::strv("Software - Games"),
        }
    }

    /// Parses a `<major>_<minor>` code; unknown codes are a
    /// `ParseCategory` error.
    pub fn from_str(s: &str) -> (r: Result<Category, Error>)
        ensures
            match r {
                Ok(c) => category_from_code(s@) == Some(c),
                Err(e) => category_from_code(s@) is None && e == Error::ParseCategory,
            },
    {
        if str_eq(s, "0_0") {
            Ok(Category::All)
        } else if str_eq(s, "1_0") {
            Ok(Category::Anime)
        } else if str_eq(s, "1_1") {
            Ok(Category::AnimeAmv)
        } else if str_eq(s, "1_2") {
            Ok(Category::AnimeEnglish)
        } else if str_eq(s, "1_3") {
            Ok(Category::AnimeNonEnglish)
        } else if str_eq(s, "1_4") {
            Ok(Category::AnimeRaw)
        } else if str_eq(s, "2_0") {
            Ok(Category::Audio)
        } else if str_eq(s, "2_1") {
            Ok(Category::AudioLossless)
        } else if str_eq(s, "2_2") {
            Ok(Category::AudioLossy)
        } else if str_eq(s, "3_0") {
            Ok(Category::Literature)
        } else if str_eq(s, "3_1") {
            Ok(Category::LiteratureEnglish)
        } else if str_eq(s, "3_2") {
            Ok(Category::LiteratureNonEnglish)
        } else if str_eq(s, "3_3") {
            Ok(Category::LiteratureRaw)
        } else if str_eq(s, "4_0") {
            Ok(Category::LiveAction)
        } else if str_eq(s, "4_1") {
            Ok(Category::LiveActionEnglish)
        } else if str_eq(s, "4_2") {
            Ok(Category::LiveActionIdol)
        } else if str_eq(s, "4_3") {
            Ok(Category::LiveActionNonEnglish)
        } else if str_eq(s, "4_4") {
            Ok(Category::LiveActionRaw)
        } else if str_eq(s, "5_0") {
            Ok(Category::Pictures)
        } else if str_eq(s, "5_1") {
            Ok(Category::PicturesGraphics)
        } else if str_eq(s, "5_2") {
            Ok(Category::PicturesPhotos)
        } else if str_eq(s, "6_0") {
            Ok(Category::Software)
        } else if str_eq(s, "6_1") {
            Ok(Category::SoftwareApps)
        } else if str_eq(s, "6_2") {
            Ok(Category::SoftwareGames)
        } else {
            Err(Error::ParseCategory)
        }
    }

    /// The code as a string.
    pub fn to_string(&self) -> (r: String)
        ensures
            r@ == self.code_spec(),
    {
        match self {
            Category::All => ("0_0").to_owned(),
            Category::Anime => ("1_0").to_owned(),
            Category::AnimeAmv => ("1_1").to_owned(),
            Category::AnimeEnglish => ("1_2").to_owned(),
            Category::AnimeNonEnglish => ("1_3").to_owned(),
            Category::AnimeRaw => ("1_4").to_owned(),
            Category::Audio => ("2_0").to_owned(),
            Category::AudioLossless => ("2_1").to_owned(),
            Category::AudioLossy => ("2_2").to_owned(),
            Category::Literature => ("3_0").to_owned(),
            Category::LiteratureEnglish => ("3_1").to_owned(),
            Category::LiteratureNonEnglish => ("3_2").to_owned(),
            Category::LiteratureRaw => ("3_3").to_owned(),
            Category::LiveAction => ("4_0").to_owned(),
            Category::LiveActionEnglish => ("4_1").to_owned(),
            Category::LiveActionIdol => ("4_2").to_owned(),
            Category::LiveActionNonEnglish => ("4_3").to_owned(),
            Category::LiveActionRaw => ("4_4").to_owned(),
            Category::Pictures => ("5_0").to_owned(),
            Category::PicturesGraphics => ("5_1").to_owned(),
            Category::PicturesPhotos => ("5_2").to_owned(),
            Category::Software => ("6_0").to_owned(),
            Category::SoftwareApps => ("6_1").to_owned(),
            Category::SoftwareGames => ("6_2").to_owned(),
        }
    }

    /// The English name of the category.
    pub fn english(&self) -> (r: String)
        ensures
            r@ == self.english_spec(),
    {
        match self {
            Category::All => ("All").to_owned(),
            Category::Anime => ("Anime").to_owned(),
            Category::AnimeAmv => ("Anime - AMV").to_owned(),
            Category::AnimeEnglish => ("Anime - English").to_owned(),
            Category::AnimeNonEnglish => ("Anime - Non-English").to_owned(),
            Category::AnimeRaw => ("Anime - Raw").to_owned(),
            Category::Audio => ("Audio").to_owned(),
            Category::AudioLossless => ("Audio - Lossless").to_owned(),
            Category::AudioLossy => ("Audio - Lossy").to_owned(),
            Category::Literature => ("Literature").to_owned(),
            Category::LiteratureEnglish => ("Literature - English").to_owned(),
            Category::LiteratureNonEnglish => ("Literature - Non-English").to_owned(),
            Category::LiteratureRaw => ("Literature - Raw").to_owned(),
            Category::LiveAction => ("Live Action").to_owned(),
            Category::LiveActionEnglish => ("Live Action - English").to_owned(),
            Category::LiveActionIdol => ("Live Action - Idol/PV").to_owned(),
            Category::LiveActionNonEnglish => ("Live Action - Non-English").to_owned(),
            Category::LiveActionRaw => ("Live Action - Raw").to_owned(),
            Category::Pictures => ("Pictures").to_owned(),
            Category::PicturesGraphics => ("Pictures - Graphics").to_owned(),
            Category::PicturesPhotos => ("Pictures - Photos").to_owned(),
            Category::Software => ("Software").to_owned(),
            Category::SoftwareApps => ("Software - Apps").to_owned(),
            Category::SoftwareGames => ("Software - Games").to_owned(),
        }
    }
}

/// List filter: everything, no remakes, or trusted uploads only.
#[derive(Debug, Clone, Copy, PartialEq, Eq, Structural)]
pub enum Filter {
    NoFilter,
    NoRemake,
    Trusted,
}

/// Key the store sorts retrieved items by.
#[derive(Debug, Clone, Copy, PartialEq, Eq, Structural)]
pub enum Sort {
    Date,
    Seeders,
    Leechers,
    Downloads,
    Size,
}

#[derive(Debug, Clone, Copy, PartialEq, Eq, Structural)]
pub enum SortOrder {
    Ascending,
    Descending,
}

impl Filter {
    /// The wire code of the filter.
    pub open spec fn code_spec(self) -> Seq<char> {
        match self {
            Filter::NoFilter => crate::strv("0"),
            Filter::NoRemake => crate::strv("1"),
            Filter::Trusted => crate::strv("2"),
        }
    }

    pub fn to_code(&self) -> (r: String)
        ensures
            r@ == self.code_spec(),
    {
        match self {
            Filter::NoFilter => ("0").to_owned(),
            Filter::NoRemake => ("1").to_owned(),
            Filter::Trusted => ("2").to_owned(),
        }
    }
}

impl Sort {
    /// The wire name of the sort key.
    pub open spec fn code_spec(self) -> Seq<char> {
        match self {
            Sort::Date => crate::strv("date"),
            Sort::Seeders => crate::strv("seeders"),
            Sort::Leechers => crate::strv("leechers"),
            Sort::Downloads => crate::strv("downloads"),
            Sort::Size => crate::strv("size"),
        }
    }

    pub fn to_code(&self) -> (r: String)
        ensures
            r@ == self.code_spec(),
    {
        match self {
            Sort::Date => ("date").to_owned(),
            Sort::Seeders => ("seeders").to_owned(),
            Sort::Leechers => ("leechers").to_owned(),
            Sort::Downloads => ("downloads").to_owned(),
            Sort::Size => ("size").to_owned(),
        }
    }
}

impl SortOrder {
    /// The wire name of the order.
    pub open spec fn code_spec(self) -> Seq<char> {
        match self {
            SortOrder::Ascending => crate::strv("asc"),
            SortOrder::Descending => crate::strv("desc"),
        }
    }

    pub fn to_code(&self) -> (r: String)
        ensures
            r@ == self.code_spec(),
    {
        match self {
            SortOrder::Ascending => ("asc").to_owned(),
            SortOrder::Descending => ("desc").to_owned(),
        }
    }
}

/// A stored listing row.
#[derive(Debug)]
pub struct Item {
    pub id: String,
    pub title: String,
    pub link: String,
    /// Publication instant, UTC epoch seconds.
    pub date: i64,
    pub seeders: usize,
    pub leechers: usize,
    pub downloads: usize,
    pub category: Category,
    pub size: u64,
    pub comments: usize,
    pub trusted: bool,
    pub remake: bool,
    pub download_link: Option<String>,
    pub magnet_link: Option<String>,
}

/// One file of a detail record.
#[derive(Debug)]
pub struct File {
    pub id: String,
    pub name: String,
    pub size: u64,
}

/// One comment of a detail record.
#[derive(Debug)]
pub struct Comment {
    pub id: String,
    pub user: String,
    pub avatar: Option<String>,
    /// UTC epoch seconds.
    pub date: i64,
    pub edited: Option<i64>,
    pub content: String,
}

/// A stored detail record.
#[derive(Debug)]
pub struct ViewRecord {
    pub id: String,
    pub title: String,
    pub link: String,
    /// UTC epoch seconds.
    pub date: i64,
    pub seeders: usize,
    pub leechers: usize,
    pub downloads: usize,
    pub category: Category,
    pub size: u64,
    pub trusted: bool,
    pub remake: bool,
    pub download_link: String,
    pub magnet_link: String,
    pub description: String,
    pub submitter: String,
    pub info_hash: String,
    pub info_link: Option<String>,
    pub files: Vec<File>,
    pub comments: Vec<Comment>,
}

} // verus!
