//! The small XML vocabulary the feed uses: locating a tag's content,
//! CDATA sections, and the five named character entities.

use vstd::prelude::*;

use crate::scan::{occurs_at, starts_with_spec};

verus! {

/// First occurrence of `pat` in `s` at or after `from`.
pub open spec fn spec_find(s: Seq<u8>, pat: Seq<u8>, from: int) -> Option<int>
    decreases s.len() + 1 - from,
{
    if from < 0 || from + pat.len() > s.len() {
        None
    } else if occurs_at(s, pat, from) {
        Some(from)
    } else {
        spec_find(s, pat, from + 1)
    }
}

proof fn lemma_spec_find_some(s: Seq<u8>, pat: Seq<u8>, from: int, i: int)
    requires
        0 <= from <= i,
        occurs_at(s, pat, i),
        forall|j: int| from <= j < i ==> !occurs_at(s, pat, j),
    ensures
        spec_find(s, pat, from) == Some(i),
    decreases i - from,
{
    if from < i {
        lemma_spec_find_some(s, pat, from + 1, i);
    }
}

proof fn lemma_spec_find_none(s: Seq<u8>, pat: Seq<u8>, from: int)
    requires
        0 <= from,
        forall|j: int| from <= j ==> !occurs_at(s, pat, j),
    ensures
        spec_find(s, pat, from) is None,
    decreases s.len() + 1 - from,
{
    if !(from + pat.len() > s.len()) {
        lemma_spec_find_none(s, pat, from + 1);
    }
}

/// `scan::find`, tied to the specification-level search.
pub fn find_from(s: &[u8], pat: &[u8], from: usize) -> (r: Option<usize>)
    ensures
        match r {
            Some(i) => spec_find(s@, pat@, from as int) == Some(i as int),
            None => spec_find(s@, pat@, from as int) is None,
        },
{
    let r = crate::scan::find(s, pat, from);
    proof {
        match r {
            Some(i) => {
                lemma_spec_find_some(s@, pat@, from as int, i as int);
            },
            None => {
                lemma_spec_find_none(s@, pat@, from as int);
            },
        }
    }
    r
}

/// A byte that may follow a tag name inside its opening tag.
pub open spec fn tag_delim(b: u8) -> bool {
    b == 62 || b == 32 || b == 9 || b == 10 || b == 13
}

/// `<name` opens at `j` and is followed by a delimiter, so that
/// `<category` does not stand for `<categoryId`.
pub open spec fn open_at(s: Seq<u8>, name: Seq<u8>, j: int) -> bool {
    let open = seq![60u8] + name;
    occurs_at(s, open, j) && j + open.len() < s.len() && tag_delim(s[j + open.len()])
}

/// First position at or after `from` where tag `name` opens.
pub open spec fn spec_find_open(s: Seq<u8>, name: Seq<u8>, from: int) -> Option<int>
    decreases s.len() + 1 - from,
{
    if from < 0 || from + name.len() + 1 > s.len() {
        None
    } else if open_at(s, name, from) {
        Some(from)
    } else {
        spec_find_open(s, name, from + 1)
    }
}

proof fn lemma_spec_find_open_some(s: Seq<u8>, name: Seq<u8>, from: int, i: int)
    requires
        0 <= from <= i,
        open_at(s, name, i),
        forall|j: int| from <= j < i ==> !open_at(s, name, j),
    ensures
        spec_find_open(s, name, from) == Some(i),
    decreases i - from,
{
    if from < i {
        lemma_spec_find_open_some(s, name, from + 1, i);
    }
}

proof fn lemma_spec_find_open_none(s: Seq<u8>, name: Seq<u8>, from: int)
    requires
        0 <= from,
        forall|j: int| from <= j ==> !open_at(s, name, j),
    ensures
        spec_find_open(s, name, from) is None,
    decreases s.len() + 1 - from,
{
    if !(from + name.len() + 1 > s.len()) {
        lemma_spec_find_open_none(s, name, from + 1);
    }
}

/// A found opening leaves room for the delimiter byte.
pub proof fn lemma_find_open_bounds(s: Seq<u8>, name: Seq<u8>, from: int)
    requires
        0 <= from,
    ensures
        match spec_find_open(s, name, from) {
            Some(i) => from <= i && i + name.len() + 1 < s.len(),
            None => true,
        },
    decreases s.len() + 1 - from,
{
    if !(from < 0 || from + name.len() + 1 > s.len()) && !open_at(s, name, from) {
        lemma_find_open_bounds(s, name, from + 1);
    }
}

pub proof fn lemma_spec_find_advances(s: Seq<u8>, pat: Seq<u8>, from: int)
    requires
        0 <= from,
    ensures
        match spec_find(s, pat, from) {
            Some(i) => from <= i && i + pat.len() <= s.len(),
            None => true,
        },
    decreases s.len() + 1 - from,
{
    if !(from + pat.len() > s.len()) && !occurs_at(s, pat, from) {
        lemma_spec_find_advances(s, pat, from + 1);
    }
}

/// Finds the opening of tag `name`, skipping longer names that share the
/// prefix.
pub fn find_open(s: &[u8], name: &[u8], from: usize) -> (r: Option<usize>)
    ensures
        match r {
            Some(i) => spec_find_open(s@, name@, from as int) == Some(i as int),
            None => spec_find_open(s@, name@, from as int) is None,
        },
{
    let n = s.len();
    let m = name.len();
    let mut open: Vec<u8> = Vec::new();
    open.push(60);
    open.extend_from_slice(name);
    proof {
        assert(open@ =~= seq![60u8] + name@);
    }
    if n <= m || from > n - m - 1 {
        proof {
            assert forall|j: int| from <= j implies !open_at(s@, name@, j) by {
                assert(j + name@.len() + 1 >= s@.len() || j + (name@.len() + 1) > s@.len());
            }
            lemma_spec_find_open_none(s@, name@, from as int);
        }
        return None;
    }
    let mut i = from;
    while i < n - m - 1
        invariant
            from <= i,
            i <= n - m - 1,
            n == s@.len(),
            m == name@.len(),
            open@ == seq![60u8] + name@,
            forall|j: int| from <= j < i ==> !open_at(s@, name@, j),
        decreases n - i,
    {
        if crate::scan::occurs_at_exec(s, open.as_slice(), i) {
            let b = s[i + m + 1];
            proof {
                assert(i + (m + 1) < n);
            }
            if b == 62 || b == 32 || b == 9 || b == 10 || b == 13 {
                proof {
                    assert(open_at(s@, name@, i as int));
                    lemma_spec_find_open_some(s@, name@, from as int, i as int);
                }
                return Some(i);
            }
        }
        proof {
            assert(!open_at(s@, name@, i as int));
        }
        i = i + 1;
    }
    proof {
        assert forall|j: int| from <= j implies !open_at(s@, name@, j) by {
            if j < i {
            } else {
                assert(j + name@.len() + 1 >= s@.len());
            }
        }
        lemma_spec_find_open_none(s@, name@, from as int);
    }
    None
}

/// The content range of the first `name` element: past the end of its
/// opening tag, up to its closing tag.
pub open spec fn spec_tag_range(s: Seq<u8>, name: Seq<u8>) -> Option<(int, int)> {
    match spec_find_open(s, name, 0) {
        None => None,
        Some(i) => {
            let open = seq![60u8] + name;
            match spec_find(s, seq![62u8], i + open.len()) {
                None => None,
                Some(j) => {
                    let close = seq![60u8, 47u8] + name + seq![62u8];
                    match spec_find(s, close, j + 1) {
                        None => None,
                        Some(k) => Some((j + 1, k)),
                    }
                },
            }
        },
    }
}

/// Finds the content range of element `name`.
pub fn tag_range(s: &[u8], name: &[u8]) -> (r: Option<(usize, usize)>)
    ensures
        match r {
            Some(p) => {
                &&& spec_tag_range(s@, name@) == Some((p.0 as int, p.1 as int))
                &&& p.0 <= p.1 <= s@.len()
            },
            None => spec_tag_range(s@, name@) is None,
        },
{
    let n = s.len();
    let i = match find_open(s, name, 0) {
        None => {
            return None;
        },
        Some(i) => i,
    };
    let gt: [u8; 1] = [62];
    proof {
        assert(gt@ =~= seq![62u8]);
        assert(spec_find_open(s@, name@, 0) == Some(i as int));
        lemma_find_open_bounds(s@, name@, 0);
    }
    let j = match find_from(s, gt.as_slice(), i + 1 + name.len()) {
        None => {
            return None;
        },
        Some(j) => j,
    };
    let mut close: Vec<u8> = Vec::new();
    close.push(60);
    close.push(47);
    close.extend_from_slice(name);
    close.push(62);
    proof {
        assert(close@ =~= seq![60u8, 47u8] + name@ + seq![62u8]);
        lemma_spec_find_advances(s@, gt@, i + 1 + name@.len());
    }
    let k = match find_from(s, close.as_slice(), j + 1) {
        None => {
            return None;
        },
        Some(k) => k,
    };
    proof {
        lemma_spec_find_advances(s@, close@, j + 1);
    }
    Some((j + 1, k))
}

/// The five named entities decoded; any other `&` stands for itself.
pub open spec fn xml_decode(s: Seq<u8>) -> Seq<u8>
    decreases s.len(),
{
    if s.len() == 0 {
        Seq::empty()
    } else if starts_with_spec(s, seq![38u8, 97u8, 109u8, 112u8, 59u8]) {
        seq![38u8] + xml_decode(s.skip(5))
    } else if starts_with_spec(s, seq![38u8, 108u8, 116u8, 59u8]) {
        seq![60u8] + xml_decode(s.skip(4))
    } else if starts_with_spec(s, seq![38u8, 103u8, 116u8, 59u8]) {
        seq![62u8] + xml_decode(s.skip(4))
    } else if starts_with_spec(s, seq![38u8, 113u8, 117u8, 111u8, 116u8, 59u8]) {
        seq![34u8] + xml_decode(s.skip(6))
    } else if starts_with_spec(s, seq![38u8, 97u8, 112u8, 111u8, 115u8, 59u8]) {
        seq![39u8] + xml_decode(s.skip(6))
    } else {
        seq![s[0]] + xml_decode(s.skip(1))
    }
}

/// Decodes the named entities of `s`.
pub fn xml_decode_exec(s: &[u8]) -> (r: Vec<u8>)
    ensures
        r@ == xml_decode(s@),
{
    let n = s.len();
    let mut out: Vec<u8> = Vec::new();
    let mut i: usize = 0;
    let amp: [u8; 5] = [38, 97, 109, 112, 59];
    let lt: [u8; 4] = [38, 108, 116, 59];
    let gt: [u8; 4] = [38, 103, 116, 59];
    let quot: [u8; 6] = [38, 113, 117, 111, 116, 59];
    let apos: [u8; 6] = [38, 97, 112, 111, 115, 59];
    proof {
        assert(amp@ =~= seq![38u8, 97u8, 109u8, 112u8, 59u8]);
        assert(lt@ =~= seq![38u8, 108u8, 116u8, 59u8]);
        assert(gt@ =~= seq![38u8, 103u8, 116u8, 59u8]);
        assert(quot@ =~= seq![38u8, 113u8, 117u8, 111u8, 116u8, 59u8]);
        assert(apos@ =~= seq![38u8, 97u8, 112u8, 111u8, 115u8, 59u8]);
    }
    proof {
        assert(s@.skip(0) =~= s@);
    }
    while i < n
        invariant
            0 <= i <= n == s@.len(),
            xml_decode(s@) == out@ + xml_decode(s@.skip(i as int)),
            amp@ == seq![38u8, 97u8, 109u8, 112u8, 59u8],
            lt@ == seq![38u8, 108u8, 116u8, 59u8],
            gt@ == seq![38u8, 103u8, 116u8, 59u8],
            quot@ == seq![38u8, 113u8, 117u8, 111u8, 116u8, 59u8],
            apos@ == seq![38u8, 97u8, 112u8, 111u8, 115u8, 59u8],
        decreases n - i,
    {
        let ghost tail = s@.skip(i as int);
        let ghost preout = out@;
        let rest = crate::scan::subvec(s, i, n);
        proof {
            assert(rest@ =~= tail);
        }
        let mut step: usize = 1;
        if crate::scan::starts_with(rest.as_slice(), amp.as_slice()) {
            out.push(38);
            step = 5;
        } else if crate::scan::starts_with(rest.as_slice(), lt.as_slice()) {
            out.push(60);
            step = 4;
        } else if crate::scan::starts_with(rest.as_slice(), gt.as_slice()) {
            out.push(62);
            step = 4;
        } else if crate::scan::starts_with(rest.as_slice(), quot.as_slice()) {
            out.push(34);
            step = 6;
        } else if crate::scan::starts_with(rest.as_slice(), apos.as_slice()) {
            out.push(39);
            step = 6;
        } else {
            out.push(s[i]);
            step = 1;
        }
        proof {
            assert(tail.skip(step as int) =~= s@.skip(i + step));
            assert(tail[0] == s@[i as int]);
            assert(out@ =~= preout + xml_decode(tail).take(out@.len() - preout.len()));
            assert(xml_decode(tail) == out@.skip(preout.len() as int) + xml_decode(
                s@.skip(i + step),
            ));
            assert(out@ + xml_decode(s@.skip(i + step)) =~= preout + xml_decode(tail));
        }
        i = i + step;
    }
    proof {
        assert(s@.skip(n as int) =~= Seq::<u8>::empty());
    }
    out
}

/// CDATA delimiters stripped, if the content is a CDATA section.
pub open spec fn strip_cdata(s: Seq<u8>) -> Seq<u8> {
    let open = seq![60u8, 33u8, 91u8, 67u8, 68u8, 65u8, 84u8, 65u8, 91u8];
    let close = seq![93u8, 93u8, 62u8];
    if s.len() >= 12 && starts_with_spec(s, open) && crate::scan::ends_with_spec(s, close) {
        s.subrange(9, s.len() - 3)
    } else {
        s
    }
}

/// Whether the content is a CDATA section.
pub open spec fn is_cdata(s: Seq<u8>) -> bool {
    s.len() >= 12 && starts_with_spec(
        s,
        seq![60u8, 33u8, 91u8, 67u8, 68u8, 65u8, 84u8, 65u8, 91u8],
    ) && crate::scan::ends_with_spec(s, seq![93u8, 93u8, 62u8])
}

/// The text an element's raw content denotes: a CDATA section stands for
/// its inside verbatim, anything else has its entities decoded.
pub open spec fn content_text(s: Seq<u8>) -> Seq<u8> {
    if is_cdata(s) {
        strip_cdata(s)
    } else {
        xml_decode(s)
    }
}

/// Decodes an element's raw content.
pub fn content_text_exec(s: &[u8]) -> (r: Vec<u8>)
    ensures
        r@ == content_text(s@),
{
    let open: [u8; 9] = [60, 33, 91, 67, 68, 65, 84, 65, 91];
    let close: [u8; 3] = [93, 93, 62];
    proof {
        assert(open@ =~= seq![60u8, 33u8, 91u8, 67u8, 68u8, 65u8, 84u8, 65u8, 91u8]);
        assert(close@ =~= seq![93u8, 93u8, 62u8]);
    }
    if s.len() >= 12 && crate::scan::starts_with(s, open.as_slice()) && crate::scan::ends_with(
        s,
        close.as_slice(),
    ) {
        crate::scan::subvec(s, 9, s.len() - 3)
    } else {
        xml_decode_exec(s)
    }
}

} // verus!

verus! {

/// Searching a suffix finds the same occurrence, shifted.
pub proof fn lemma_spec_find_shift(s: Seq<u8>, pat: Seq<u8>, base: int, from: int)
    requires
        0 <= base <= s.len(),
        base <= from,
    ensures
        ({
            let r1 = spec_find(s, pat, from);
            let r2 = spec_find(s.skip(base), pat, from - base);
            match r1 {
                Some(i) => r2 == Some(i - base),
                None => r2 is None,
            }
        }),
    decreases s.len() + 1 - from,
{
    assert(s.skip(base).len() == s.len() - base);
    if from + pat.len() > s.len() {
    } else {
        assert(occurs_at(s, pat, from) <==> occurs_at(s.skip(base), pat, from - base)) by {
            if occurs_at(s, pat, from) {
                assert(s.skip(base).subrange(from - base, from - base + pat.len()) =~= s.subrange(
                    from,
                    from + pat.len(),
                ));
            }
            if occurs_at(s.skip(base), pat, from - base) {
                assert(s.subrange(from, from + pat.len()) =~= s.skip(base).subrange(
                    from - base,
                    from - base + pat.len(),
                ));
            }
        }
        if !occurs_at(s, pat, from) {
            lemma_spec_find_shift(s, pat, base, from + 1);
        }
    }
}

} // verus!
