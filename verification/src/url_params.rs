//! The coarse URL parameter vocabulary of the seed fetcher: top-level
//! categories and named sort and order codes, with a builder over them.

use vstd::prelude::*;

use crate::query::{join_amp, param_part};
use crate::urlbuild::{trim_slashes, trim_slashes_exec};

verus! {

/// A top-level category.
#[derive(Debug, Clone, Copy, PartialEq, Eq, Structural)]
pub enum Category {
    Anime,
    Audio,
    Literature,
    LiveAction,
    Pictures,
    Software,
}

impl Category {
    pub open spec fn code_spec(self) -> Seq<char> {
        match self {
            Category::Anime => crate::strv("1_0"),
            Category::Audio => crate::strv("2_0"),
            Category::Literature => crate::strv("3_0"),
            Category::LiveAction => crate::strv("4_0"),
            Category::Pictures => crate::strv("5_0"),
            Category::Software => crate::strv("6_0"),
        }
    }

    pub fn as_str(&self) -> (r: &'static str)
        ensures
            r@ == self.code_spec(),
    {
        match self {
            Category::Anime => "1_0",
            Category::Audio => "2_0",
            Category::Literature => "3_0",
            Category::LiveAction => "4_0",
            Category::Pictures => "5_0",
            Category::Software => "6_0",
        }
    }
}

/// Remake/trusted filtering.
#[derive(Debug, Clone, Copy, PartialEq, Eq, Structural)]
pub enum Filter {
    NoFilter,
    NoRemakes,
    TrustedOnly,
}

impl Filter {
    pub open spec fn code_spec(self) -> Seq<char> {
        match self {
            Filter::NoFilter => crate::strv("0"),
            Filter::NoRemakes => crate::strv("1"),
            Filter::TrustedOnly => crate::strv("2"),
        }
    }

    pub fn as_str(&self) -> (r: &'static str)
        ensures
            r@ == self.code_spec(),
    {
        match self {
            Filter::NoFilter => "0",
            Filter::NoRemakes => "1",
            Filter::TrustedOnly => "2",
        }
    }
}

/// Sort keys, by their wire names; ordering by date is the upstream's
/// `id` order.
#[derive(Debug, Clone, Copy, PartialEq, Eq, Structural)]
pub enum Sort {
    Comments,
    Size,
    Date,
    Seeders,
    Leechers,
    Downloads,
}

impl Sort {
    pub open spec fn code_spec(self) -> Seq<char> {
        match self {
            Sort::Comments => crate::strv("comments"),
            Sort::Size => crate::strv("size"),
            Sort::Date => crate::strv("id"),
            Sort::Seeders => crate::strv("seeders"),
            Sort::Leechers => crate::strv("leechers"),
            Sort::Downloads => crate::strv("downloads"),
        }
    }

    pub fn as_str(&self) -> (r: &'static str)
        ensures
            r@ == self.code_spec(),
    {
        match self {
            Sort::Comments => "comments",
            Sort::Size => "size",
            Sort::Date => "id",
            Sort::Seeders => "seeders",
            Sort::Leechers => "leechers",
            Sort::Downloads => "downloads",
        }
    }
}

#[derive(Debug, Clone, Copy, PartialEq, Eq, Structural)]
pub enum Order {
    Ascending,
    Descending,
}

impl Order {
    pub open spec fn code_spec(self) -> Seq<char> {
        match self {
            Order::Ascending => crate::strv("asc"),
            Order::Descending => crate::strv("desc"),
        }
    }

    pub fn as_str(&self) -> (r: &'static str)
        ensures
            r@ == self.code_spec(),
    {
        match self {
            Order::Ascending => "asc",
            Order::Descending => "desc",
        }
    }
}

/// Builds a seed listing URL from the coarse parameters.
#[derive(Debug)]
pub struct NyaaUrlBuilder {
    pub base_url: String,
    pub page: Option<String>,
    pub query: Option<String>,
    pub category: Option<Category>,
    pub filter: Option<Filter>,
    pub sort: Option<Sort>,
    pub order: Option<Order>,
}

impl NyaaUrlBuilder {
    /// The parameters the builder would send, in wire order.
    pub open spec fn params_spec(self) -> Seq<Seq<char>> {
        let a: Seq<Seq<char>> = Seq::empty();
        let a = if self.page is Some {
            a.push(param_part(crate::strv("p"), self.page->0@))
        } else {
            a
        };
        let a = if self.query is Some {
            a.push(param_part(crate::strv("q"), self.query->0@))
        } else {
            a
        };
        let a = if self.category is Some {
            a.push(param_part(crate::strv("c"), self.category->0.code_spec()))
        } else {
            a
        };
        let a = if self.filter is Some {
            a.push(param_part(crate::strv("f"), self.filter->0.code_spec()))
        } else {
            a
        };
        let a = if self.sort is Some {
            a.push(param_part(crate::strv("s"), self.sort->0.code_spec()))
        } else {
            a
        };
        let a = if self.order is Some {
            a.push(param_part(crate::strv("o"), self.order->0.code_spec()))
        } else {
            a
        };
        a
    }

    pub open spec fn has_params(self) -> bool {
        self.page is Some || self.query is Some || self.category is Some || self.filter is Some
            || self.sort is Some || self.order is Some
    }

    /// The URL the builder denotes.
    pub open spec fn build_spec(self) -> Seq<char> {
        if self.has_params() {
            trim_slashes(self.base_url@) + crate::strv("/?") + join_amp(self.params_spec())
        } else {
            self.base_url@
        }
    }

    pub fn new(base_url: &str) -> (r: NyaaUrlBuilder)
        ensures
            r.base_url@ == base_url@,
            r.page is None,
            r.query is None,
            r.category is None,
            r.filter is None,
            r.sort is None,
            r.order is None,
    {
        NyaaUrlBuilder {
            base_url: (base_url).to_owned(),
            page: None,
            query: None,
            category: None,
            filter: None,
            sort: None,
            order: None,
        }
    }

    pub fn with_page(self, page: &str) -> (r: NyaaUrlBuilder)
        ensures
            r == (NyaaUrlBuilder { page: r.page, ..self }),
            r.page is Some && r.page->0@ == page@,
    {
        NyaaUrlBuilder { page: Some((page).to_owned()), ..self }
    }

    pub fn with_query(self, query: &str) -> (r: NyaaUrlBuilder)
        ensures
            r == (NyaaUrlBuilder { query: r.query, ..self }),
            r.query is Some && r.query->0@ == query@,
    {
        NyaaUrlBuilder { query: Some((query).to_owned()), ..self }
    }

    pub fn with_category(self, category: Category) -> (r: NyaaUrlBuilder)
        ensures
            r == (NyaaUrlBuilder { category: Some(category), ..self }),
    {
        NyaaUrlBuilder { category: Some(category), ..self }
    }

    pub fn with_filter(self, filter: Filter) -> (r: NyaaUrlBuilder)
        ensures
            r == (NyaaUrlBuilder { filter: Some(filter), ..self }),
    {
        NyaaUrlBuilder { filter: Some(filter), ..self }
    }

    pub fn with_sort(self, sort: Sort) -> (r: NyaaUrlBuilder)
        ensures
            r == (NyaaUrlBuilder { sort: Some(sort), ..self }),
    {
        NyaaUrlBuilder { sort: Some(sort), ..self }
    }

    pub fn with_order(self, order: Order) -> (r: NyaaUrlBuilder)
        ensures
            r == (NyaaUrlBuilder { order: Some(order), ..self }),
    {
        NyaaUrlBuilder { order: Some(order), ..self }
    }

    /// Renders the URL.
    #[verifier::rlimit(100)]
    pub fn build(self) -> (r: String)
        ensures
            r@ == self.build_spec(),
    {
        let has = match (
            &self.page,
            &self.query,
            &self.category,
            &self.filter,
            &self.sort,
            &self.order,
        ) {
            (None, None, None, None, None, None) => false,
            _ => true,
        };
        if has == false {
            return self.base_url;
        }
        proof {
            reveal_strlit("p");
            reveal_strlit("q");
            reveal_strlit("c");
            reveal_strlit("f");
            reveal_strlit("s");
            reveal_strlit("o");
        }
        let mut parts: Vec<String> = Vec::new();
        crate::query::push_param(&mut parts, "p", &self.page);
        crate::query::push_param(&mut parts, "q", &self.query);
        let cat: Option<String> = match &self.category {
            Some(c) => Some((c.as_str()).to_owned()),
            None => None,
        };
        crate::query::push_param(&mut parts, "c", &cat);
        let fil: Option<String> = match &self.filter {
            Some(f) => Some((f.as_str()).to_owned()),
            None => None,
        };
        crate::query::push_param(&mut parts, "f", &fil);
        let sor: Option<String> = match &self.sort {
            Some(x) => Some((x.as_str()).to_owned()),
            None => None,
        };
        crate::query::push_param(&mut parts, "s", &sor);
        let ord: Option<String> = match &self.order {
            Some(x) => Some((x.as_str()).to_owned()),
            None => None,
        };
        crate::query::push_param(&mut parts, "o", &ord);
        proof {
            assert(parts@.map_values(|p: String| p@) =~= self.params_spec());
        }
        let tail = crate::query::join_amp_exec(parts);
        let mut out = trim_slashes_exec(self.base_url.as_str());
        crate::strutil::push_str(&mut out, "/?");
        crate::strutil::push_str(&mut out, tail.as_str());
        proof {
            reveal_strlit("/?");
            assert(out@ =~= self.build_spec());
        }
        out
    }
}

} // verus!
