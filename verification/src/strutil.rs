//! String helpers: the few trusted bridges to std's string operations,
//! and a verified decimal formatter.

use vstd::prelude::*;
use vstd::string::StringSliceAdditionalSpecFns;

verus! {

/// Relies on str's `==` (PartialEq), which compares the character sequences.
#[verifier::external_body]
pub fn str_eq(a: &str, b: &str) -> (r: bool)
    ensures
        r <==> a@ == b@,
{
    a == b
}

pub fn clone_string(s: &String) -> (r: String)
    ensures
        r@ == s@,
{
    s.clone()
}

pub fn clone_opt_string(s: &Option<String>) -> (r: Option<String>)
    ensures
        match (s, &r) {
            (Some(a), Some(b)) => a@ == b@,
            (None, None) => true,
            _ => false,
        },
{
    match s {
        Some(x) => Some(clone_string(x)),
        None => None,
    }
}

/// Relies on String's `push`, which appends one character.
#[verifier::external_body]
pub fn push_char(s: &mut String, c: char)
    ensures
        final(s)@ == old(s)@ + seq![c],
{
    s.push(c);
}

/// Relies on String's `push_str`, which appends the characters of `t`.
#[verifier::external_body]
pub fn push_str(s: &mut String, t: &str)
    ensures
        final(s)@ == old(s)@ + t@,
{
    s.push_str(t);
}

/// Relies on String's `from_utf8`, which decodes the bytes exactly when
/// they are valid UTF-8.
#[verifier::external_body]
pub fn bytes_to_string(v: Vec<u8>) -> (r: Option<String>)
    ensures
        match r {
            Some(s) => vstd::utf8::valid_utf8(v@) && s@ == vstd::utf8::decode_utf8(v@),
            None => !vstd::utf8::valid_utf8(v@),
        },
{
    match String::from_utf8(v) {
        Ok(s) => Some(s),
        Err(_) => None,
    }
}

/// The bytes of a string, as a fresh vector.
pub fn str_to_bytes(s: &str) -> (r: Vec<u8>)
    ensures
        r@ == s.spec_bytes(),
{
    vstd::slice::slice_to_vec(s.as_bytes())
}

/// The decimal digit character for `d`.
pub open spec fn digit_char(d: int) -> char {
    ((48 + d) as u8) as char
}

/// The canonical decimal rendering of `n`.
pub open spec fn dec_chars(n: int) -> Seq<char>
    decreases n,
{
    if n < 10 {
        seq![digit_char(n)]
    } else {
        dec_chars(n / 10).push(digit_char(n % 10))
    }
}

/// Renders `n` in decimal.
pub fn u64_to_string(n: u64) -> (r: String)
    ensures
        r@ == dec_chars(n as int),
{
    let mut digits: Vec<u8> = Vec::new();
    let mut m: u64 = n;
    while m >= 10
        invariant
            dec_chars(n as int) == dec_chars(m as int) + digits@.map_values(
                |b: u8| digit_char(b as int),
            ).reverse(),
            forall|k: int| 0 <= k < digits@.len() ==> #[trigger] digits@[k] < 10,
        decreases m,
    {
        let ghost pre = digits@;
        digits.push((m % 10) as u8);
        proof {
            assert(dec_chars(m as int) == dec_chars(m as int / 10).push(
                digit_char(m as int % 10),
            ));
            assert(digits@.map_values(|b: u8| digit_char(b as int)).reverse() =~= seq![
                digit_char(m as int % 10)] + pre.map_values(|b: u8| digit_char(b as int)).reverse());
            assert(dec_chars(m as int / 10) + (seq![digit_char(m as int % 10)] + pre.map_values(
                |b: u8| digit_char(b as int),
            ).reverse()) =~= dec_chars(m as int) + pre.map_values(
                |b: u8| digit_char(b as int),
            ).reverse());
        }
        m = m / 10;
    }
    let mut out = String::new();
    push_char(&mut out, digit_to_char(m as u8));
    proof {
        assert(out@ =~= dec_chars(m as int));
    }
    let mut i: usize = digits.len();
    while i > 0
        invariant
            0 <= i <= digits@.len(),
            forall|k: int| 0 <= k < digits@.len() ==> #[trigger] digits@[k] < 10,
            out@ == dec_chars(m as int) + digits@.skip(i as int).map_values(
                |b: u8| digit_char(b as int),
            ).reverse(),
            dec_chars(n as int) == dec_chars(m as int) + digits@.map_values(
                |b: u8| digit_char(b as int),
            ).reverse(),
        decreases i,
    {
        i = i - 1;
        let ghost preout = out@;
        push_char(&mut out, digit_to_char(digits[i]));
        proof {
            assert(out@ =~= preout + seq![digit_char(digits@[i as int] as int)]);
            assert(digits@.skip(i as int).map_values(|b: u8| digit_char(b as int)).reverse()
                =~= digits@.skip(i + 1).map_values(|b: u8| digit_char(b as int)).reverse() + seq![
                digit_char(digits@[i as int] as int)]);
            assert(out@ =~= dec_chars(m as int) + digits@.skip(i as int).map_values(
                |b: u8| digit_char(b as int),
            ).reverse());
        }
    }
    proof {
        assert(digits@.skip(0) =~= digits@);
    }
    out
}

fn digit_to_char(d: u8) -> (r: char)
    requires
        d < 10,
    ensures
        r == digit_char(d as int),
{
    (48 + d) as char
}

} // verus!
