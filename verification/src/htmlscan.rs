//! The HTML vocabulary the page parsers use: locating elements, reading
//! attributes out of opening tags, and flattening an element's text.
//!
//! The pages are machine-rendered, so the grammar is modest: elements
//! close explicitly, attributes are double-quoted, and like-named
//! elements do not nest.

use vstd::prelude::*;

use crate::xml::{spec_find, spec_find_open, xml_decode};

verus! {

/// The element regions of `name` at or after `from`: the start of the
/// opening tag, the start of the content, and its end.
pub open spec fn elems(s: Seq<u8>, name: Seq<u8>, from: int) -> Seq<(int, int, int)>
    decreases s.len() + 1 - from,
{
    if from < 0 {
        Seq::empty()
    } else {
        match spec_find_open(s, name, from) {
            None => Seq::empty(),
            Some(i) => match spec_find(s, seq![62u8], i + 1 + name.len()) {
                None => Seq::empty(),
                Some(j) => match spec_find(
                    s,
                    seq![60u8, 47u8] + name + seq![62u8],
                    j + 1,
                ) {
                    None => Seq::empty(),
                    Some(k) => if from <= i && i + 1 + name.len() <= j && j + 1 <= k && k + 1
                        <= s.len() {
                        seq![(i, j + 1, k)] + elems(s, name, k + 1)
                    } else {
                        Seq::empty()
                    },
                },
            },
        }
    }
}

/// Collects the element regions of `name`.
pub fn elems_exec(s: &[u8], name: &[u8]) -> (r: Vec<(usize, usize, usize)>)
    ensures
        r@.map_values(|p: (usize, usize, usize)| (p.0 as int, p.1 as int, p.2 as int)) == elems(
            s@,
            name@,
            0,
        ),
        forall|k: int|
            0 <= k < r@.len() ==> (#[trigger] r@[k]).0 <= r@[k].1 <= r@[k].2 <= s@.len(),
{
    let n = s.len();
    let mut close: Vec<u8> = Vec::new();
    close.push(60);
    close.push(47);
    close.extend_from_slice(name);
    close.push(62);
    proof {
        assert(close@ =~= seq![60u8, 47u8] + name@ + seq![62u8]);
    }
    let gtpat: [u8; 1] = [62];
    proof {
        assert(gtpat@ =~= seq![62u8]);
    }
    let mut out: Vec<(usize, usize, usize)> = Vec::new();
    let mut pos: usize = 0;
    loop
        invariant
            0 <= pos,
            n == s@.len(),
            close@ == seq![60u8, 47u8] + name@ + seq![62u8],
            gtpat@ == seq![62u8],
            elems(s@, name@, 0) == out@.map_values(
                |p: (usize, usize, usize)| (p.0 as int, p.1 as int, p.2 as int),
            ) + elems(s@, name@, pos as int),
            forall|k: int|
                0 <= k < out@.len() ==> (#[trigger] out@[k]).0 <= out@[k].1 <= out@[k].2
                    <= s@.len(),
        decreases s@.len() + 1 - pos,
    {
        let ghost pre = out@.map_values(
            |p: (usize, usize, usize)| (p.0 as int, p.1 as int, p.2 as int),
        );
        let i = match crate::xml::find_open(s, name, pos) {
            None => {
                proof {
                    assert(elems(s@, name@, pos as int) =~= Seq::<(int, int, int)>::empty());
                    assert(pre =~= elems(s@, name@, 0));
                }
                return out;
            },
            Some(i) => i,
        };
        proof {
            crate::xml::lemma_find_open_bounds(s@, name@, pos as int);
        }
        let j = match crate::xml::find_from(s, gtpat.as_slice(), i + 1 + name.len()) {
            None => {
                proof {
                    assert(elems(s@, name@, pos as int) =~= Seq::<(int, int, int)>::empty());
                    assert(pre =~= elems(s@, name@, 0));
                }
                return out;
            },
            Some(j) => j,
        };
        proof {
            crate::xml::lemma_spec_find_advances(s@, gtpat@, i + 1 + name@.len());
        }
        let k = match crate::xml::find_from(s, close.as_slice(), j + 1) {
            None => {
                proof {
                    assert(elems(s@, name@, pos as int) =~= Seq::<(int, int, int)>::empty());
                    assert(pre =~= elems(s@, name@, 0));
                }
                return out;
            },
            Some(k) => k,
        };
        proof {
            crate::xml::lemma_spec_find_advances(s@, close@, j + 1);
        }
        out.push((i, j + 1, k));
        proof {
            assert(elems(s@, name@, pos as int) == seq![(i as int, j + 1 as int, k as int)]
                + elems(s@, name@, k + 1));
            assert(out@.map_values(
                |p: (usize, usize, usize)| (p.0 as int, p.1 as int, p.2 as int),
            ) =~= pre + seq![(i as int, j + 1 as int, k as int)]);
            assert(out@.map_values(
                |p: (usize, usize, usize)| (p.0 as int, p.1 as int, p.2 as int),
            ) + elems(s@, name@, k + 1) =~= elems(s@, name@, 0));
        }
        pos = k + 1;
    }
}

/// The value of attribute `name` inside an opening tag, entities decoded:
/// the bytes between ` name="` and the next `"`.
pub open spec fn attr_of(open: Seq<u8>, name: Seq<u8>) -> Option<Seq<u8>> {
    let pat = seq![32u8] + name + seq![61u8, 34u8];
    match spec_find(open, pat, 0) {
        None => None,
        Some(i) => {
            let vs = i + pat.len();
            match spec_find(open, seq![34u8], vs) {
                None => None,
                Some(j) => if vs <= j <= open.len() {
                    Some(xml_decode(open.subrange(vs, j)))
                } else {
                    None
                },
            }
        },
    }
}

/// Reads attribute `name` out of an opening tag.
pub fn attr_exec(open: &[u8], name: &[u8]) -> (r: Option<Vec<u8>>)
    ensures
        match r {
            Some(v) => attr_of(open@, name@) == Some(v@),
            None => attr_of(open@, name@) is None,
        },
{
    let n = open.len();
    let mut pat: Vec<u8> = Vec::new();
    pat.push(32);
    pat.extend_from_slice(name);
    pat.push(61);
    pat.push(34);
    proof {
        assert(pat@ =~= seq![32u8] + name@ + seq![61u8, 34u8]);
    }
    let qpat: [u8; 1] = [34];
    proof {
        assert(qpat@ =~= seq![34u8]);
    }
    let i = match crate::xml::find_from(open, pat.as_slice(), 0) {
        None => {
            return None;
        },
        Some(i) => i,
    };
    proof {
        crate::xml::lemma_spec_find_advances(open@, pat@, 0);
    }
    let vs = i + pat.len();
    let j = match crate::xml::find_from(open, qpat.as_slice(), vs) {
        None => {
            return None;
        },
        Some(j) => j,
    };
    proof {
        crate::xml::lemma_spec_find_advances(open@, qpat@, vs as int);
    }
    let raw = crate::scan::subvec(open, vs, j);
    Some(crate::xml::xml_decode_exec(raw.as_slice()))
}

/// The markup stripped: everything outside `<...>` tags.
pub open spec fn strip_tags(s: Seq<u8>) -> Seq<u8>
    decreases s.len(),
{
    if s.len() == 0 {
        Seq::empty()
    } else if s[0] == 60 {
        match spec_find(s, seq![62u8], 0) {
            None => Seq::empty(),
            Some(j) => if 0 <= j < s.len() {
                strip_tags(s.skip(j + 1))
            } else {
                Seq::empty()
            },
        }
    } else {
        seq![s[0]] + strip_tags(s.skip(1))
    }
}

/// Strips the markup out of a fragment.
pub fn strip_tags_exec(s: &[u8]) -> (r: Vec<u8>)
    ensures
        r@ == strip_tags(s@),
{
    let n = s.len();
    let gtpat: [u8; 1] = [62];
    proof {
        assert(gtpat@ =~= seq![62u8]);
    }
    let mut out: Vec<u8> = Vec::new();
    let mut i: usize = 0;
    proof {
        assert(s@.skip(0) =~= s@);
    }
    while i < n
        invariant
            0 <= i <= n == s@.len(),
            gtpat@ == seq![62u8],
            strip_tags(s@) == out@ + strip_tags(s@.skip(i as int)),
        decreases n - i,
    {
        let ghost tail = s@.skip(i as int);
        let ghost preout = out@;
        if s[i] == 60 {
            match crate::xml::find_from(s, gtpat.as_slice(), i) {
                None => {
                    proof {
                        crate::xml::lemma_spec_find_shift(s@, gtpat@, i as int, i as int);
                        assert(tail[0] == s@[i as int]);
                        assert(strip_tags(tail) =~= Seq::<u8>::empty());
                        assert(s@.skip(n as int) =~= Seq::<u8>::empty());
                        assert(out@ + strip_tags(s@.skip(n as int)) =~= preout + strip_tags(
                            tail,
                        ));
                    }
                    i = n;
                },
                Some(j) => {
                    proof {
                        crate::xml::lemma_spec_find_advances(s@, gtpat@, i as int);
                        crate::xml::lemma_spec_find_shift(s@, gtpat@, i as int, i as int);
                        assert(tail[0] == s@[i as int]);
                        assert(tail.skip(j + 1 - i) =~= s@.skip(j + 1));
                        assert(strip_tags(tail) == strip_tags(s@.skip(j + 1)));
                    }
                    i = j + 1;
                },
            }
        } else {
            out.push(s[i]);
            proof {
                assert(tail[0] == s@[i as int]);
                assert(tail.skip(1) =~= s@.skip(i + 1));
                assert(out@ =~= preout + seq![s@[i as int]]);
                assert(out@ + strip_tags(s@.skip(i + 1)) =~= preout + strip_tags(tail));
            }
            i = i + 1;
        }
    }
    proof {
        assert(s@.skip(n as int) =~= Seq::<u8>::empty());
    }
    out
}

/// The visible text of an element's content: markup stripped, entities
/// decoded, whitespace trimmed.
pub open spec fn elem_text(s: Seq<u8>) -> Seq<u8> {
    crate::scan::trim_spec(xml_decode(strip_tags(s)))
}

/// Flattens an element's content to its visible text.
pub fn elem_text_exec(s: &[u8]) -> (r: Vec<u8>)
    ensures
        r@ == elem_text(s@),
{
    let stripped = strip_tags_exec(s);
    let decoded = crate::xml::xml_decode_exec(stripped.as_slice());
    crate::scan::trim(decoded.as_slice())
}

} // verus!
