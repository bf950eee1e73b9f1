//! The outbound list query and the inbound request validators.
//!
//! A `ListQuery` carries the optional `p`/`c`/`f`/`s`/`o`/`q` parameters;
//! `remove_defaults` drops parameters whose value the upstream assumes
//! anyway, and `to_query_string` renders the stable form-URL-encoded
//! string used for outbound requests, cache keys and the ledger.

use vstd::prelude::*;
use vstd::string::StringSliceAdditionalSpecFns;

use crate::strutil::str_eq;

verus! {

#[derive(Debug)]
pub struct ListQuery {
    pub page: Option<usize>,
    pub category: Option<String>,
    pub filter: Option<String>,
    pub sort: Option<String>,
    pub order: Option<String>,
    pub query: Option<String>,
}

/// One escaped byte of a form-URL-encoded value: unreserved bytes stand
/// for themselves, a space becomes `+`, anything else `%XX`.
pub open spec fn form_escape_byte(b: u8) -> Seq<char> {
    if (48 <= b && b <= 57) || (65 <= b && b <= 90) || (97 <= b && b <= 122) || b == 42 || b == 45
        || b == 46 || b == 95 {
        seq![b as char]
    } else if b == 32 {
        seq!['+']
    } else {
        seq!['%', hex_digit(b as int / 16), hex_digit(b as int % 16)]
    }
}

/// Upper-case hexadecimal digit for `d`.
pub open spec fn hex_digit(d: int) -> char {
    if d < 10 {
        ((48 + d) as u8) as char
    } else {
        ((55 + d) as u8) as char
    }
}

/// Form-URL-encoding of a byte string.
pub open spec fn form_escape(s: Seq<u8>) -> Seq<char>
    decreases s.len(),
{
    if s.len() == 0 {
        Seq::empty()
    } else {
        form_escape(s.drop_last()) + form_escape_byte(s.last())
    }
}

/// Escapes `v` as a form-URL-encoded value.
pub fn form_escape_exec(v: &str) -> (r: String)
    ensures
        r@ == form_escape(v.spec_bytes()),
{
    let bytes = crate::strutil::str_to_bytes(v);
    let n = bytes.len();
    let mut out = String::new();
    let mut i: usize = 0;
    while i < n
        invariant
            0 <= i <= n == bytes@.len(),
            bytes@ == v.spec_bytes(),
            out@ == form_escape(bytes@.take(i as int)),
        decreases n - i,
    {
        let b = bytes[i];
        let ghost pre = out@;
        if (48 <= b && b <= 57) || (65 <= b && b <= 90) || (97 <= b && b <= 122) || b == 42 || b
            == 45 || b == 46 || b == 95 {
            crate::strutil::push_char(&mut out, byte_as_char(b));
        } else if b == 32 {
            crate::strutil::push_char(&mut out, '+');
        } else {
            crate::strutil::push_char(&mut out, '%');
            crate::strutil::push_char(&mut out, hex_digit_exec(b / 16));
            crate::strutil::push_char(&mut out, hex_digit_exec(b % 16));
        }
        proof {
            assert(bytes@.take(i + 1).drop_last() =~= bytes@.take(i as int));
            assert(bytes@.take(i + 1).last() == bytes@[i as int]);
            assert(out@ =~= pre + form_escape_byte(bytes@[i as int]));
        }
        i = i + 1;
    }
    proof {
        assert(bytes@.take(n as int) =~= bytes@);
    }
    out
}

fn byte_as_char(b: u8) -> (r: char)
    requires
        b < 128,
    ensures
        r == b as char,
{
    b as char
}

fn hex_digit_exec(d: u8) -> (r: char)
    requires
        d < 16,
    ensures
        r == hex_digit(d as int),
{
    if d < 10 {
        (48 + d) as char
    } else {
        (55 + d) as char
    }
}

/// The present parameters joined with `&`.
pub open spec fn join_amp(parts: Seq<Seq<char>>) -> Seq<char>
    decreases parts.len(),
{
    if parts.len() == 0 {
        Seq::empty()
    } else if parts.len() == 1 {
        parts[0]
    } else {
        join_amp(parts.drop_last()) + seq!['&'] + parts.last()
    }
}

/// `key=` followed by the escaped value.
pub open spec fn param_part(key: Seq<char>, v: Seq<char>) -> Seq<char> {
    key + seq!['='] + form_escape(vstd::utf8::encode_utf8(v))
}

impl ListQuery {
    /// The parameters the query would send, in wire order.
    pub open spec fn params_spec(self) -> Seq<Seq<char>> {
        let a: Seq<Seq<char>> = Seq::empty();
        let a = if self.page is Some {
            a.push(seq!['p', '='] + crate::strutil::dec_chars(self.page->0 as int))
        } else {
            a
        };
        let a = if self.category is Some {
            a.push(param_part(seq!['c'], self.category->0@))
        } else {
            a
        };
        let a = if self.filter is Some {
            a.push(param_part(seq!['f'], self.filter->0@))
        } else {
            a
        };
        let a = if self.sort is Some {
            a.push(param_part(seq!['s'], self.sort->0@))
        } else {
            a
        };
        let a = if self.order is Some {
            a.push(param_part(seq!['o'], self.order->0@))
        } else {
            a
        };
        let a = if self.query is Some {
            a.push(param_part(seq!['q'], self.query->0@))
        } else {
            a
        };
        a
    }

    /// The stable form-URL-encoded rendering of the query.
    pub open spec fn query_string_spec(self) -> Seq<char> {
        join_amp(self.params_spec())
    }

    /// Renders the query as its stable `key=value&...` string.
    pub fn to_query_string(&self) -> (r: String)
        ensures
            r@ == self.query_string_spec(),
    {
        proof {
            reveal_strlit("c");
            reveal_strlit("f");
            reveal_strlit("s");
            reveal_strlit("o");
            reveal_strlit("q");
        }
        let mut parts: Vec<String> = Vec::new();
        match &self.page {
            Some(p) => {
                let mut s = ("p=").to_owned();
                let num = crate::strutil::u64_to_string(usize_as_u64(*p));
                crate::strutil::push_str(&mut s, num.as_str());
                proof {
                    reveal_strlit("p=");
                    assert(s@ =~= seq!['p', '='] + crate::strutil::dec_chars(
                        self.page->0 as int,
                    ));
                }
                parts.push(s);
            },
            None => {},
        }
        push_param(&mut parts, "c", &self.category);
        proof {
            reveal_strlit("c");
            assert(crate::strv("c") =~= seq!['c']);
        }
        push_param(&mut parts, "f", &self.filter);
        proof {
            reveal_strlit("f");
            assert(crate::strv("f") =~= seq!['f']);
        }
        push_param(&mut parts, "s", &self.sort);
        proof {
            reveal_strlit("s");
            assert(crate::strv("s") =~= seq!['s']);
        }
        push_param(&mut parts, "o", &self.order);
        proof {
            reveal_strlit("o");
            assert(crate::strv("o") =~= seq!['o']);
        }
        push_param(&mut parts, "q", &self.query);
        proof {
            reveal_strlit("q");
            assert(crate::strv("q") =~= seq!['q']);
            assert(parts@.map_values(|p: String| p@) =~= self.params_spec());
        }
        join_amp_exec(parts)
    }
}

/// Appends `key=value` to the parts when the value is present.
pub(crate) fn push_param(parts: &mut Vec<String>, key: &str, v: &Option<String>)
    ensures
        match v {
            Some(value) => final(parts)@.map_values(|p: String| p@) == old(parts)@.map_values(
                |p: String| p@,
            ).push(param_part(key@, value@)),
            None => final(parts)@ == old(parts)@,
        },
{
    match v {
        Some(value) => {
            let mut s = (key).to_owned();
            crate::strutil::push_char(&mut s, '=');
            let esc = form_escape_exec(value.as_str());
            crate::strutil::push_str(&mut s, esc.as_str());
            proof {
                assert(s@ =~= param_part(key@, value@));
            }
            let ghost pre = parts@;
            parts.push(s);
            proof {
                assert(parts@.map_values(|p: String| p@) =~= pre.map_values(
                    |p: String| p@,
                ).push(param_part(key@, value@)));
            }
        },
        None => {},
    }
}

/// Joins the parts with `&`.
pub(crate) fn join_amp_exec(parts: Vec<String>) -> (r: String)
    ensures
        r@ == join_amp(parts@.map_values(|p: String| p@)),
{
    let n = parts.len();
    let mut out = String::new();
    if n == 0 {
        return out;
    }
    crate::strutil::push_str(&mut out, parts[0].as_str());
    let mut i: usize = 1;
    proof {
        assert(parts@.map_values(|p: String| p@).take(1).len() == 1);
        assert(out@ =~= join_amp(parts@.map_values(|p: String| p@).take(1)));
    }
    while i < n
        invariant
            1 <= i <= n == parts@.len(),
            out@ == join_amp(parts@.map_values(|p: String| p@).take(i as int)),
        decreases n - i,
    {
        let ghost m = parts@.map_values(|p: String| p@);
        crate::strutil::push_char(&mut out, '&');
        crate::strutil::push_str(&mut out, parts[i].as_str());
        proof {
            assert(m.take(i + 1).drop_last() =~= m.take(i as int));
            assert(m.take(i + 1).last() == m[i as int]);
            assert(m.take(i + 1).len() == i + 1 >= 2);
            assert(out@ =~= join_amp(m.take(i + 1)));
        }
        i = i + 1;
    }
    proof {
        assert(parts@.map_values(|p: String| p@).take(n as int) =~= parts@.map_values(
            |p: String| p@,
        ));
    }
    out
}

fn usize_as_u64(x: usize) -> (r: u64)
    ensures
        r == x as u64,
        r as int == x as int,
{
    x as u64
}

} // verus!

verus! {

/// The character view of an optional string.
pub open spec fn opt_view(v: Option<String>) -> Option<Seq<char>> {
    match v {
        Some(x) => Some(x@),
        None => None,
    }
}

/// The value unless it spells the default, which is dropped.
pub open spec fn drop_default(v: Option<String>, dflt: Seq<char>) -> Option<Seq<char>> {
    match v {
        Some(x) => if x@ == dflt {
            None
        } else {
            Some(x@)
        },
        None => None,
    }
}

impl ListQuery {
    /// Drops every parameter whose value the upstream assumes anyway:
    /// page 1, category `0_0`, filter `0`, sort `id`, descending order,
    /// and an empty search term.
    pub fn remove_defaults(self) -> (r: ListQuery)
        ensures
            r.page == (if self.page == Some(1usize) {
                None::<usize>
            } else {
                self.page
            }),
            opt_view(r.category) == drop_default(self.category, crate::strv("0_0")),
            opt_view(r.filter) == drop_default(self.filter, crate::strv("0")),
            opt_view(r.sort) == drop_default(self.sort, crate::strv("id")),
            opt_view(r.order) == drop_default(self.order, crate::strv("desc")),
            opt_view(r.query) == drop_default(self.query, crate::strv("")),
    {
        let page = match self.page {
            Some(p) => if p == 1 {
                None
            } else {
                Some(p)
            },
            None => None,
        };
        let category = drop_default_exec(self.category, "0_0");
        let filter = drop_default_exec(self.filter, "0");
        let sort = drop_default_exec(self.sort, "id");
        let order = drop_default_exec(self.order, "desc");
        let query = drop_default_exec(self.query, "");
        ListQuery { page, category, filter, sort, order, query }
    }
}

fn drop_default_exec(v: Option<String>, dflt: &str) -> (r: Option<String>)
    ensures
        opt_view(r) == drop_default(v, dflt@),
{
    match v {
        Some(x) => {
            if str_eq(x.as_str(), dflt) {
                None
            } else {
                Some(x)
            }
        },
        None => None,
    }
}

/// A sort key the inbound API accepts.
pub open spec fn valid_sort(s: Seq<char>) -> bool {
    ||| s == crate::strv("id")
    ||| s == crate::strv("size")
    ||| s == crate::strv("seeders")
    ||| s == crate::strv("leechers")
    ||| s == crate::strv("downloads")
    ||| s == crate::strv("comments")
}

pub open spec fn valid_order(s: Seq<char>) -> bool {
    ||| s == crate::strv("asc")
    ||| s == crate::strv("desc")
}

pub open spec fn valid_filter(s: Seq<char>) -> bool {
    ||| s == crate::strv("0")
    ||| s == crate::strv("1")
    ||| s == crate::strv("2")
}

/// What validation leaves of the page: absent stays absent, zero falls
/// back to the first page, anything else stands.
pub open spec fn validated_page(p: Option<usize>) -> Option<usize> {
    match p {
        Some(v) => if v > 0 {
            Some(v)
        } else {
            Some(1usize)
        },
        None => None,
    }
}

/// What validation leaves of a constrained field: an invalid value is
/// dropped rather than rejected.
pub open spec fn validated_by(v: Option<String>, ok: spec_fn(Seq<char>) -> bool) -> Option<
    Seq<char>,
> {
    match v {
        Some(x) => if ok(x@) {
            Some(x@)
        } else {
            None
        },
        None => None,
    }
}

/// A nonempty search term stands; an empty one is dropped.
pub open spec fn validated_query(v: Option<String>) -> Option<Seq<char>> {
    match v {
        Some(x) => if x@.len() > 0 {
            Some(x@)
        } else {
            None
        },
        None => None,
    }
}

pub(crate) fn validate_sort_exec(v: Option<String>) -> (r: Option<String>)
    ensures
        opt_view(r) == validated_by(v, |s: Seq<char>| valid_sort(s)),
{
    match v {
        Some(x) => {
            if str_eq(x.as_str(), "id") || str_eq(x.as_str(), "size") || str_eq(
                x.as_str(),
                "seeders",
            ) || str_eq(x.as_str(), "leechers") || str_eq(x.as_str(), "downloads") || str_eq(
                x.as_str(),
                "comments",
            ) {
                Some(x)
            } else {
                None
            }
        },
        None => None,
    }
}

pub(crate) fn validate_order_exec(v: Option<String>) -> (r: Option<String>)
    ensures
        opt_view(r) == validated_by(v, |s: Seq<char>| valid_order(s)),
{
    match v {
        Some(x) => {
            if str_eq(x.as_str(), "asc") || str_eq(x.as_str(), "desc") {
                Some(x)
            } else {
                None
            }
        },
        None => None,
    }
}

pub(crate) fn validate_filter_exec(v: Option<String>) -> (r: Option<String>)
    ensures
        opt_view(r) == validated_by(v, |s: Seq<char>| valid_filter(s)),
{
    match v {
        Some(x) => {
            if str_eq(x.as_str(), "0") || str_eq(x.as_str(), "1") || str_eq(x.as_str(), "2") {
                Some(x)
            } else {
                None
            }
        },
        None => None,
    }
}

pub(crate) fn validate_query_exec(v: Option<String>) -> (r: Option<String>)
    ensures
        opt_view(r) == validated_query(v),
{
    match v {
        Some(x) => {
            if x.as_str().is_empty() {
                None
            } else {
                Some(x)
            }
        },
        None => None,
    }
}

} // verus!
