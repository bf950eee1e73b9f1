//! Builds upstream listing URLs from typed parameters.
//!
//! With no parameter set, the base URL stands as given; otherwise the
//! trailing slashes of the base are trimmed and `/?` plus the set
//! parameters, in wire order, follows.

use vstd::prelude::*;

use crate::data::{Category, Filter, Sort, SortOrder};
use crate::query::{join_amp, param_part};
use crate::strutil::{dec_chars, u64_to_string};

verus! {

#[derive(Debug)]
pub struct NyaaUrlBuilder {
    pub base_url: String,
    /// The page selector (the feed page, for one); it shares the wire key
    /// with `offset`, and a caller sets at most one of the two.
    pub page: Option<String>,
    pub query: Option<String>,
    pub category: Option<Category>,
    pub filter: Option<Filter>,
    pub sort: Option<Sort>,
    pub order: Option<SortOrder>,
    pub offset: Option<usize>,
}

/// `s` without its trailing slashes.
pub open spec fn trim_slashes(s: Seq<char>) -> Seq<char>
    decreases s.len(),
{
    if s.len() > 0 && s.last() == '/' {
        trim_slashes(s.drop_last())
    } else {
        s
    }
}

proof fn lemma_trim_slashes_take(s: Seq<char>, i: int)
    requires
        0 <= i <= s.len(),
        forall|j: int| i <= j < s.len() ==> s[j] == '/',
    ensures
        trim_slashes(s) == trim_slashes(s.take(i)),
    decreases s.len() - i,
{
    if i < s.len() {
        assert(trim_slashes(s) == trim_slashes(s.drop_last()));
        assert(s.drop_last().take(i) =~= s.take(i));
        lemma_trim_slashes_take(s.drop_last(), i);
    } else {
        assert(s.take(i) =~= s);
    }
}

/// Trims trailing slashes off a string.
pub(crate) fn trim_slashes_exec(s: &str) -> (r: String)
    ensures
        r@ == trim_slashes(s@),
{
    let n = s.unicode_len();
    let mut end: usize = n;
    while end > 0 && s.get_char(end - 1) == '/'
        invariant
            0 <= end <= n == s@.len(),
            forall|j: int| end <= j < n ==> s@[j] == '/',
        decreases end,
    {
        end = end - 1;
    }
    proof {
        lemma_trim_slashes_take(s@, end as int);
        if end > 0 {
            assert(s@.take(end as int).last() == s@[end - 1]);
        }
        assert(trim_slashes(s@.take(end as int)) == s@.take(end as int));
    }
    let head = s.substring_char(0, end);
    (head).to_owned()
}

impl NyaaUrlBuilder {
    /// The parameters the builder would send, in wire order.
    pub open spec fn params_spec(self) -> Seq<Seq<char>> {
        let a: Seq<Seq<char>> = Seq::empty();
        let a = if self.page is Some {
            a.push(param_part(crate::strv("p"), self.page->0@))
        } else {
            a
        };
        let a = if self.query is Some {
            a.push(param_part(crate::strv("q"), self.query->0@))
        } else {
            a
        };
        let a = if self.category is Some {
            a.push(param_part(crate::strv("c"), self.category->0.code_spec()))
        } else {
            a
        };
        let a = if self.filter is Some {
            a.push(param_part(crate::strv("f"), self.filter->0.code_spec()))
        } else {
            a
        };
        let a = if self.sort is Some {
            a.push(param_part(crate::strv("s"), self.sort->0.code_spec()))
        } else {
            a
        };
        let a = if self.order is Some {
            a.push(param_part(crate::strv("o"), self.order->0.code_spec()))
        } else {
            a
        };
        let a = if self.offset is Some {
            a.push(param_part(crate::strv("p"), dec_chars(self.offset->0 as int)))
        } else {
            a
        };
        a
    }

    /// Whether any parameter is set.
    pub open spec fn has_params(self) -> bool {
        self.page is Some || self.query is Some || self.category is Some || self.filter is Some
            || self.sort is Some || self.order is Some || self.offset is Some
    }

    /// The URL the builder denotes.
    pub open spec fn build_spec(self) -> Seq<char> {
        if self.has_params() {
            trim_slashes(self.base_url@) + crate::strv("/?") + join_amp(self.params_spec())
        } else {
            self.base_url@
        }
    }

    pub fn new(base_url: &str) -> (r: NyaaUrlBuilder)
        ensures
            r.base_url@ == base_url@,
            r.page is None,
            r.query is None,
            r.category is None,
            r.filter is None,
            r.sort is None,
            r.order is None,
            r.offset is None,
    {
        NyaaUrlBuilder {
            base_url: (base_url).to_owned(),
            page: None,
            query: None,
            category: None,
            filter: None,
            sort: None,
            order: None,
            offset: None,
        }
    }

    pub fn with_page(self, page: &str) -> (r: NyaaUrlBuilder)
        ensures
            r == (NyaaUrlBuilder { page: r.page, ..self }),
            r.page is Some && r.page->0@ == page@,
    {
        NyaaUrlBuilder { page: Some((page).to_owned()), ..self }
    }

    pub fn with_page_option(self, page: Option<&str>) -> (r: NyaaUrlBuilder)
        ensures
            r == (NyaaUrlBuilder { page: r.page, ..self }),
            match page {
                Some(p) => r.page is Some && r.page->0@ == p@,
                None => r.page == self.page,
            },
    {
        match page {
            Some(p) => NyaaUrlBuilder { page: Some((p).to_owned()), ..self },
            None => self,
        }
    }

    pub fn with_query(self, query: &str) -> (r: NyaaUrlBuilder)
        ensures
            r == (NyaaUrlBuilder { query: r.query, ..self }),
            r.query is Some && r.query->0@ == query@,
    {
        NyaaUrlBuilder { query: Some((query).to_owned()), ..self }
    }

    pub fn with_category(self, category: Category) -> (r: NyaaUrlBuilder)
        ensures
            r == (NyaaUrlBuilder { category: Some(category), ..self }),
    {
        NyaaUrlBuilder { category: Some(category), ..self }
    }

    pub fn with_category_option(self, category: Option<Category>) -> (r: NyaaUrlBuilder)
        ensures
            r == (NyaaUrlBuilder { category: r.category, ..self }),
            match category {
                Some(c) => r.category == Some(c),
                None => r.category == self.category,
            },
    {
        match category {
            Some(c) => NyaaUrlBuilder { category: Some(c), ..self },
            None => self,
        }
    }

    pub fn with_filter(self, filter: Filter) -> (r: NyaaUrlBuilder)
        ensures
            r == (NyaaUrlBuilder { filter: Some(filter), ..self }),
    {
        NyaaUrlBuilder { filter: Some(filter), ..self }
    }

    pub fn with_filter_option(self, filter: Option<Filter>) -> (r: NyaaUrlBuilder)
        ensures
            r == (NyaaUrlBuilder { filter: r.filter, ..self }),
            match filter {
                Some(f) => r.filter == Some(f),
                None => r.filter == self.filter,
            },
    {
        match filter {
            Some(f) => NyaaUrlBuilder { filter: Some(f), ..self },
            None => self,
        }
    }

    pub fn with_sort(self, sort: Sort) -> (r: NyaaUrlBuilder)
        ensures
            r == (NyaaUrlBuilder { sort: Some(sort), ..self }),
    {
        NyaaUrlBuilder { sort: Some(sort), ..self }
    }

    pub fn with_sort_option(self, sort: Option<Sort>) -> (r: NyaaUrlBuilder)
        ensures
            r == (NyaaUrlBuilder { sort: r.sort, ..self }),
            match sort {
                Some(x) => r.sort == Some(x),
                None => r.sort == self.sort,
            },
    {
        match sort {
            Some(x) => NyaaUrlBuilder { sort: Some(x), ..self },
            None => self,
        }
    }

    pub fn with_order(self, order: SortOrder) -> (r: NyaaUrlBuilder)
        ensures
            r == (NyaaUrlBuilder { order: Some(order), ..self }),
    {
        NyaaUrlBuilder { order: Some(order), ..self }
    }

    pub fn with_order_option(self, order: Option<SortOrder>) -> (r: NyaaUrlBuilder)
        ensures
            r == (NyaaUrlBuilder { order: r.order, ..self }),
            match order {
                Some(x) => r.order == Some(x),
                None => r.order == self.order,
            },
    {
        match order {
            Some(x) => NyaaUrlBuilder { order: Some(x), ..self },
            None => self,
        }
    }

    pub fn with_offset(self, offset: usize) -> (r: NyaaUrlBuilder)
        ensures
            r == (NyaaUrlBuilder { offset: Some(offset), ..self }),
    {
        NyaaUrlBuilder { offset: Some(offset), ..self }
    }

    pub fn with_offset_option(self, offset: Option<usize>) -> (r: NyaaUrlBuilder)
        ensures
            r == (NyaaUrlBuilder { offset: r.offset, ..self }),
            match offset {
                Some(x) => r.offset == Some(x),
                None => r.offset == self.offset,
            },
    {
        match offset {
            Some(x) => NyaaUrlBuilder { offset: Some(x), ..self },
            None => self,
        }
    }

    /// Renders the URL.
    #[verifier::rlimit(100)]
    pub fn build(self) -> (r: String)
        ensures
            r@ == self.build_spec(),
    {
        let has = match (
            &self.page,
            &self.query,
            &self.category,
            &self.filter,
            &self.sort,
            &self.order,
            &self.offset,
        ) {
            (None, None, None, None, None, None, None) => false,
            _ => true,
        };
        if has == false {
            return self.base_url;
        }
        proof {
            reveal_strlit("q");
            reveal_strlit("c");
            reveal_strlit("f");
            reveal_strlit("s");
            reveal_strlit("o");
            reveal_strlit("p");
        }
        let mut parts: Vec<String> = Vec::new();
        crate::query::push_param(&mut parts, "p", &self.page);
        crate::query::push_param(&mut parts, "q", &self.query);
        let cat: Option<String> = match &self.category {
            Some(c) => Some(c.to_string()),
            None => None,
        };
        crate::query::push_param(&mut parts, "c", &cat);
        let fil: Option<String> = match &self.filter {
            Some(f) => Some(f.to_code()),
            None => None,
        };
        crate::query::push_param(&mut parts, "f", &fil);
        let sor: Option<String> = match &self.sort {
            Some(x) => Some(x.to_code()),
            None => None,
        };
        crate::query::push_param(&mut parts, "s", &sor);
        let ord: Option<String> = match &self.order {
            Some(x) => Some(x.to_code()),
            None => None,
        };
        crate::query::push_param(&mut parts, "o", &ord);
        let off: Option<String> = match &self.offset {
            Some(x) => Some(u64_to_string(usize64(*x))),
            None => None,
        };
        crate::query::push_param(&mut parts, "p", &off);
        proof {
            assert(parts@.map_values(|p: String| p@) =~= self.params_spec());
        }
        let tail = crate::query::join_amp_exec(parts);
        let mut out = trim_slashes_exec(self.base_url.as_str());
        crate::strutil::push_str(&mut out, "/?");
        crate::strutil::push_str(&mut out, tail.as_str());
        proof {
            reveal_strlit("/?");
            assert(out@ =~= self.build_spec());
        }
        out
    }
}

fn usize64(x: usize) -> (r: u64)
    ensures
        r as int == x as int,
{
    x as u64
}

} // verus!
