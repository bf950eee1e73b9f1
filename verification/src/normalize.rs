//! Normalizers for the site's human-readable field encodings: booleans and
//! byte sizes with SI / binary suffixes.

use vstd::prelude::*;

use crate::Error;
use vstd::string::StringSliceAdditionalSpecFns;

verus! {

/// The boolean spellings the feed uses, compared without regard to case:
/// `0`/`1` and any casing of `true`, `false`, `yes`, `no` and `none`
/// (`none` meaning false).
pub open spec fn spec_boolean(s: Seq<u8>) -> Option<bool> {
    let l = crate::scan::lower_spec(s);
    if l == seq![48u8] {
        Some(false)
    } else if l == seq![49u8] {
        Some(true)
    } else if l == seq![116u8, 114u8, 117u8, 101u8] {
        Some(true)
    } else if l == seq![102u8, 97u8, 108u8, 115u8, 101u8] {
        Some(false)
    } else if l == seq![121u8, 101u8, 115u8] {
        Some(true)
    } else if l == seq![110u8, 111u8] {
        Some(false)
    } else if l == seq![110u8, 111u8, 110u8, 101u8] {
        Some(false)
    } else {
        None
    }
}

/// Recognizes `0`/`1` and the case variants of `true`/`false`/`yes`/`no`/
/// `none` (`none` meaning false); anything else is a `ParseBoolean` error.
pub fn parse_boolean(value: &str) -> (r: Result<bool, Error>)
    ensures
        match r {
            Ok(b) => spec_boolean(value.spec_bytes()) == Some(b),
            Err(e) => spec_boolean(value.spec_bytes()) is None && e == Error::ParseBoolean,
        },
{
    let bytes = crate::strutil::str_to_bytes(value);
    let l = crate::scan::to_lower(bytes.as_slice());
    let p_zero: [u8; 1] = [48];
    let p_one: [u8; 1] = [49];
    let p_true: [u8; 4] = [116, 114, 117, 101];
    let p_false: [u8; 5] = [102, 97, 108, 115, 101];
    let p_yes: [u8; 3] = [121, 101, 115];
    let p_no: [u8; 2] = [110, 111];
    let p_none: [u8; 4] = [110, 111, 110, 101];
    proof {
        assert(p_zero@ =~= seq![48u8]);
        assert(p_one@ =~= seq![49u8]);
        assert(p_true@ =~= seq![116u8, 114u8, 117u8, 101u8]);
        assert(p_false@ =~= seq![102u8, 97u8, 108u8, 115u8, 101u8]);
        assert(p_yes@ =~= seq![121u8, 101u8, 115u8]);
        assert(p_no@ =~= seq![110u8, 111u8]);
        assert(p_none@ =~= seq![110u8, 111u8, 110u8, 101u8]);
    }
    if crate::scan::eq_bytes(l.as_slice(), p_zero.as_slice()) {
        Ok(false)
    } else if crate::scan::eq_bytes(l.as_slice(), p_one.as_slice()) {
        Ok(true)
    } else if crate::scan::eq_bytes(l.as_slice(), p_true.as_slice()) {
        Ok(true)
    } else if crate::scan::eq_bytes(l.as_slice(), p_false.as_slice()) {
        Ok(false)
    } else if crate::scan::eq_bytes(l.as_slice(), p_yes.as_slice()) {
        Ok(true)
    } else if crate::scan::eq_bytes(l.as_slice(), p_no.as_slice()) {
        Ok(false)
    } else if crate::scan::eq_bytes(l.as_slice(), p_none.as_slice()) {
        Ok(false)
    } else {
        Err(Error::ParseBoolean)
    }
}

} // verus!

verus! {

/// Ten to the `k`.
pub open spec fn pow10(k: nat) -> int
    decreases k,
{
    if k == 0 {
        1
    } else {
        10 * pow10((k - 1) as nat)
    }
}

pub proof fn lemma_pow10_values()
    ensures
        pow10(0) == 1,
        pow10(1) == 10,
        pow10(2) == 100,
        pow10(3) == 1000,
        pow10(6) == 1000000,
        pow10(9) == 1000000000,
        pow10(12) == 1000000000000,
        pow10(15) == 1000000000000000,
        pow10(18) == 1000000000000000000,
{
    assert(pow10(0) == 1);
    assert(pow10(1) == 10);
    assert(pow10(2) == 100);
    assert(pow10(3) == 1000);
    assert(pow10(4) == 10000);
    assert(pow10(5) == 100000);
    assert(pow10(6) == 1000000);
    assert(pow10(7) == 10000000);
    assert(pow10(8) == 100000000);
    assert(pow10(9) == 1000000000);
    assert(pow10(10) == 10000000000);
    assert(pow10(11) == 100000000000);
    assert(pow10(12) == 1000000000000);
    assert(pow10(13) == 10000000000000);
    assert(pow10(14) == 100000000000000);
    assert(pow10(15) == 1000000000000000);
    assert(pow10(16) == 10000000000000000);
    assert(pow10(17) == 100000000000000000);
    assert(pow10(18) == 1000000000000000000);
}

pub proof fn lemma_pow10_mono(a: nat, b: nat)
    requires
        a <= b,
    ensures
        pow10(a) <= pow10(b),
        pow10(a) >= 1,
    decreases b,
{
    if b > 0 {
        if a == b {
            lemma_pow10_mono((a - 1) as nat, (b - 1) as nat);
        } else {
            lemma_pow10_mono(a, (b - 1) as nat);
        }
    }
}

/// A sequence of `n` digits is worth less than ten to the `n`.
pub proof fn lemma_digits_val_upper(s: Seq<u8>)
    requires
        crate::scan::all_digits(s),
    ensures
        0 <= crate::scan::digits_val(s) < pow10(s.len()),
    decreases s.len(),
{
    if s.len() > 0 {
        let t = s.drop_last();
        assert(forall|j: int| 0 <= j < t.len() ==> t[j] == #[trigger] s[j]);
        assert(crate::scan::all_digits(t));
        lemma_digits_val_upper(t);
        assert(crate::scan::digits_val(s) == crate::scan::digits_val(t) * 10 + (s.last() - 48));
        assert(crate::scan::digits_val(t) * 10 <= (pow10(t.len()) - 1) * 10) by (nonlinear_arith)
            requires
                crate::scan::digits_val(t) <= pow10(t.len()) - 1,
        ;
    }
}

/// Index of the first `.` in `s`, or `s.len()` if there is none.
pub open spec fn dot_index(s: Seq<u8>) -> int
    decreases s.len(),
{
    if s.len() == 0 {
        0
    } else if s[0] == 46 {
        0
    } else {
        1 + dot_index(s.drop_first())
    }
}

proof fn lemma_dot_index_at(s: Seq<u8>, i: int)
    requires
        0 <= i <= s.len(),
        forall|j: int| 0 <= j < i ==> s[j] != 46,
        i == s.len() || s[i] == 46,
    ensures
        dot_index(s) == i,
    decreases i,
{
    if i == 0 {
    } else {
        let t = s.drop_first();
        assert(forall|j: int| 0 <= j < i - 1 ==> t[j] == #[trigger] s[j + 1]);
        lemma_dot_index_at(t, i - 1);
    }
}

/// The digits before the first dot.
pub open spec fn int_part(m: Seq<u8>) -> Seq<u8> {
    m.take(dot_index(m))
}

/// The digits after the first dot (empty if there is no dot).
pub open spec fn frac_part(m: Seq<u8>) -> Seq<u8> {
    if dot_index(m) < m.len() {
        m.skip(dot_index(m) + 1)
    } else {
        Seq::empty()
    }
}

/// A mantissa is digits with at most one dot and at least one digit.
pub open spec fn valid_mantissa(m: Seq<u8>) -> bool {
    crate::scan::all_digits(int_part(m)) && crate::scan::all_digits(frac_part(m))
        && int_part(m).len() + frac_part(m).len() > 0
}

/// The fraction counts to eighteen digits; anything finer than that is
/// below the resolution of every recognized unit and is ignored.
pub open spec fn frac_sig(m: Seq<u8>) -> Seq<u8> {
    if frac_part(m).len() <= 18 {
        frac_part(m)
    } else {
        frac_part(m).take(18)
    }
}

/// Bytes denoted by mantissa `m` at `unit` bytes per whole step; `round`
/// picks half-up rounding (else the fraction truncates).
pub open spec fn mantissa_scaled(m: Seq<u8>, unit: int, round: bool) -> int {
    let fp = frac_sig(m);
    let k = fp.len();
    let h = if round {
        pow10(k) / 2
    } else {
        0
    };
    crate::scan::digits_val(int_part(m)) * unit + (crate::scan::digits_val(fp) * unit + h)
        / pow10(k)
}

/// Clamps a mathematical integer into `u64`.
pub open spec fn sat64(x: int) -> u64 {
    if x > u64::MAX {
        u64::MAX
    } else if x < 0 {
        0
    } else {
        x as u64
    }
}

/// `s` with every comma removed.
pub open spec fn strip_commas(s: Seq<u8>) -> Seq<u8>
    decreases s.len(),
{
    if s.len() == 0 {
        Seq::empty()
    } else if s.last() == 44 {
        strip_commas(s.drop_last())
    } else {
        strip_commas(s.drop_last()).push(s.last())
    }
}

fn strip_commas_exec(s: &[u8]) -> (r: Vec<u8>)
    ensures
        r@ == strip_commas(s@),
{
    let n = s.len();
    let mut r: Vec<u8> = Vec::new();
    let mut i: usize = 0;
    while i < n
        invariant
            0 <= i <= n == s@.len(),
            r@ == strip_commas(s@.take(i as int)),
        decreases n - i,
    {
        proof {
            assert(s@.take(i + 1).drop_last() =~= s@.take(i as int));
            assert(s@.take(i + 1).last() == s@[i as int]);
        }
        if s[i] != 44 {
            r.push(s[i]);
        }
        i = i + 1;
    }
    proof {
        assert(s@.take(n as int) =~= s@);
    }
    r
}

} // verus!

verus! {

fn check_digits(s: &[u8]) -> (r: bool)
    ensures
        r == crate::scan::all_digits(s@),
{
    let n = s.len();
    let mut i: usize = 0;
    while i < n
        invariant
            0 <= i <= n == s@.len(),
            forall|j: int| 0 <= j < i ==> crate::scan::is_digit(#[trigger] s@[j]),
        decreases n - i,
    {
        if s[i] < 48 || s[i] > 57 {
            proof {
                assert(!crate::scan::is_digit(s@[i as int]));
            }
            return false;
        }
        i = i + 1;
    }
    true
}

/// Value of a digit string clamped into `u64`; the flag reports clamping.
fn digits_u64_sat(s: &[u8]) -> (r: (u64, bool))
    requires
        crate::scan::all_digits(s@),
    ensures
        r.1 <==> crate::scan::digits_val(s@) > u64::MAX,
        !r.1 ==> r.0 == crate::scan::digits_val(s@),
{
    let n = s.len();
    let mut acc: u64 = 0;
    let mut i: usize = 0;
    while i < n
        invariant
            0 <= i <= n == s@.len(),
            crate::scan::all_digits(s@),
            crate::scan::digits_val(s@.take(i as int)) == acc,
        decreases n - i,
    {
        let b = s[i];
        proof {
            assert(crate::scan::is_digit(s@[i as int]));
            assert(s@.take(i + 1).drop_last() =~= s@.take(i as int));
            assert(s@.take(i + 1).last() == s@[i as int]);
        }
        let acc2 = match acc.checked_mul(10) {
            Some(x) => x.checked_add((b - 48) as u64),
            None => None,
        };
        match acc2 {
            Some(x) => {
                acc = x;
            },
            None => {
                proof {
                    crate::scan::lemma_digits_val_extend_overflow(s@, i as int, acc as int);
                }
                return (0, true);
            },
        }
        i = i + 1;
    }
    proof {
        assert(s@.take(n as int) =~= s@);
    }
    (acc, false)
}

/// Exact value of a digit string of at most eighteen digits.
fn digits_u64_small(s: &[u8]) -> (r: u64)
    requires
        crate::scan::all_digits(s@),
        s@.len() <= 18,
    ensures
        r == crate::scan::digits_val(s@),
        r < pow10(s@.len()),
{
    let n = s.len();
    let mut acc: u64 = 0;
    let mut i: usize = 0;
    proof {
        lemma_pow10_values();
    }
    while i < n
        invariant
            0 <= i <= n == s@.len() <= 18,
            crate::scan::all_digits(s@),
            crate::scan::digits_val(s@.take(i as int)) == acc,
            acc < pow10(i as nat),
        decreases n - i,
    {
        let b = s[i];
        proof {
            assert(crate::scan::is_digit(s@[i as int]));
            assert(s@.take(i + 1).drop_last() =~= s@.take(i as int));
            assert(s@.take(i + 1).last() == s@[i as int]);
            lemma_pow10_mono((i + 1) as nat, 18);
            lemma_pow10_values();
            assert(acc * 10 <= (pow10(i as nat) - 1) * 10) by (nonlinear_arith)
                requires
                    acc <= pow10(i as nat) - 1,
            ;
        }
        acc = acc * 10 + (b - 48) as u64;
        i = i + 1;
    }
    proof {
        assert(s@.take(n as int) =~= s@);
    }
    acc
}

/// Powers of ten that fit a `u64`.
fn pow10_u64(k: usize) -> (r: u64)
    requires
        k <= 18,
    ensures
        r == pow10(k as nat),
{
    proof {
        lemma_pow10_values();
        assert(pow10(4) == 10000 && pow10(5) == 100000 && pow10(7) == 10000000 && pow10(8)
            == 100000000 && pow10(10) == 10000000000 && pow10(11) == 100000000000 && pow10(13)
            == 10000000000000 && pow10(14) == 100000000000000 && pow10(16) == 10000000000000000
            && pow10(17) == 100000000000000000);
    }
    match k {
        0 => 1,
        1 => 10,
        2 => 100,
        3 => 1000,
        4 => 10000,
        5 => 100000,
        6 => 1000000,
        7 => 10000000,
        8 => 100000000,
        9 => 1000000000,
        10 => 10000000000,
        11 => 100000000000,
        12 => 1000000000000,
        13 => 10000000000000,
        14 => 100000000000000,
        15 => 1000000000000000,
        16 => 10000000000000000,
        17 => 100000000000000000,
        _ => 1000000000000000000,
    }
}

/// Evaluates a candidate mantissa against a unit, or reports that it is
/// no mantissa at all.
fn eval_mantissa(m: &[u8], unit: u64, round: bool) -> (r: Option<u64>)
    requires
        1 <= unit <= 1152921504606846976,
    ensures
        match r {
            Some(v) => valid_mantissa(m@) && v == sat64(mantissa_scaled(m@, unit as int, round)),
            None => !valid_mantissa(m@),
        },
{
    let n = m.len();
    let dot = crate::scan::find_byte(m, 46, 0);
    let ip: Vec<u8>;
    let fp: Vec<u8>;
    match dot {
        Some(d) => {
            ip = crate::scan::subvec(m, 0, d);
            fp = crate::scan::subvec(m, d + 1, n);
            proof {
                lemma_dot_index_at(m@, d as int);
            }
        },
        None => {
            ip = crate::scan::subvec(m, 0, n);
            fp = Vec::new();
            proof {
                lemma_dot_index_at(m@, n as int);
                assert(m@.take(n as int) =~= m@);
            }
        },
    }
    proof {
        assert(ip@ == int_part(m@));
        assert(fp@ == frac_part(m@));
    }
    if !check_digits(ip.as_slice()) || !check_digits(fp.as_slice()) {
        return None;
    }
    if ip.len() == 0 && fp.len() == 0 {
        return None;
    }
    let k: usize = if fp.len() <= 18 {
        fp.len()
    } else {
        18
    };
    let fpt = crate::scan::subvec(fp.as_slice(), 0, k);
    proof {
        if fp@.len() <= 18 {
            assert(fpt@ =~= fp@);
        }
        assert(fpt@ == frac_sig(m@));
        assert(crate::scan::all_digits(fpt@)) by {
            assert(forall|j: int|
                0 <= j < fpt@.len() ==> fpt@[j] == #[trigger] fp@[j]);
        }
    }
    let fv = digits_u64_small(fpt.as_slice());
    let (iv, big) = digits_u64_sat(ip.as_slice());
    let p = pow10_u64(k);
    let h: u64 = if round {
        p / 2
    } else {
        0
    };
    proof {
        lemma_pow10_values();
        lemma_pow10_mono(k as nat, 18);
        crate::scan::lemma_digits_val_nonneg(ip@);
        crate::scan::lemma_digits_val_nonneg(fpt@);
        assert((fv as int) * (unit as int) <= 1000000000000000000 * 1152921504606846976)
            by (nonlinear_arith)
            requires
                0 <= fv as int <= 1000000000000000000,
                0 <= unit as int <= 1152921504606846976,
        ;
    }
    let num2: u128 = (fv as u128) * (unit as u128) + (h as u128);
    let part2: u128 = num2 / (p as u128);
    proof {
        assert(part2 <= num2);
    }
    if big {
        proof {
            let scaled = mantissa_scaled(m@, unit as int, round);
            let a = crate::scan::digits_val(int_part(m@));
            assert(a * (unit as int) >= a * 1) by (nonlinear_arith)
                requires
                    a >= 0,
                    unit as int >= 1,
            ;
            assert((crate::scan::digits_val(frac_sig(m@)) * (unit as int) + (if round {
                pow10(frac_sig(m@).len()) / 2
            } else {
                0
            })) / pow10(frac_sig(m@).len()) >= 0) by {
                vstd::arithmetic::div_mod::lemma_div_pos_is_pos(
                    crate::scan::digits_val(frac_sig(m@)) * (unit as int) + (if round {
                        pow10(frac_sig(m@).len()) / 2
                    } else {
                        0
                    }),
                    pow10(frac_sig(m@).len()),
                );
                assert(crate::scan::digits_val(frac_sig(m@)) * (unit as int) >= 0)
                    by (nonlinear_arith)
                    requires
                        crate::scan::digits_val(frac_sig(m@)) >= 0,
                        unit as int >= 0,
                ;
                lemma_pow10_mono(0, frac_sig(m@).len());
            }
            assert(scaled > u64::MAX);
        }
        return Some(u64::MAX);
    }
    proof {
        assert((iv as int) * (unit as int) <= 0xffffffffffffffff * 1152921504606846976)
            by (nonlinear_arith)
            requires
                0 <= iv as int <= 0xffffffffffffffff,
                0 <= unit as int <= 1152921504606846976,
        ;
    }
    let total: u128 = (iv as u128) * (unit as u128) + part2;
    if total > 0xffffffffffffffffu128 {
        Some(u64::MAX)
    } else {
        Some(total as u64)
    }
}

} // verus!

verus! {

/// Splits off the case-folded size suffix and gives the unit it denotes.
/// The space before the unit is optional, so the longer suffixes are
/// tried first.
pub open spec fn spec_size_unit(t: Seq<u8>) -> Option<(Seq<u8>, int)> {
    if crate::scan::ends_with_spec(t, seq![98u8, 121u8, 116u8, 101u8, 115u8]) {
        Some((t.take(t.len() - 5), 1))
    } else if crate::scan::ends_with_spec(t, seq![107u8, 105u8, 98u8]) {
        Some((t.take(t.len() - 3), 1024))
    } else if crate::scan::ends_with_spec(t, seq![109u8, 105u8, 98u8]) {
        Some((t.take(t.len() - 3), 1048576))
    } else if crate::scan::ends_with_spec(t, seq![103u8, 105u8, 98u8]) {
        Some((t.take(t.len() - 3), 1073741824))
    } else if crate::scan::ends_with_spec(t, seq![116u8, 105u8, 98u8]) {
        Some((t.take(t.len() - 3), 1099511627776))
    } else if crate::scan::ends_with_spec(t, seq![112u8, 105u8, 98u8]) {
        Some((t.take(t.len() - 3), 1125899906842624))
    } else if crate::scan::ends_with_spec(t, seq![107u8, 98u8]) {
        Some((t.take(t.len() - 2), 1000))
    } else if crate::scan::ends_with_spec(t, seq![109u8, 98u8]) {
        Some((t.take(t.len() - 2), 1000000))
    } else if crate::scan::ends_with_spec(t, seq![103u8, 98u8]) {
        Some((t.take(t.len() - 2), 1000000000))
    } else if crate::scan::ends_with_spec(t, seq![116u8, 98u8]) {
        Some((t.take(t.len() - 2), 1000000000000))
    } else if crate::scan::ends_with_spec(t, seq![112u8, 98u8]) {
        Some((t.take(t.len() - 2), 1000000000000000))
    } else if crate::scan::ends_with_spec(t, seq![98u8]) {
        Some((t.take(t.len() - 1), 1))
    } else {
        None
    }
}

fn size_unit_exec(t: &[u8]) -> (r: Option<(Vec<u8>, u64)>)
    ensures
        match r {
            Some(p) => spec_size_unit(t@) == Some((p.0@, p.1 as int)),
            None => spec_size_unit(t@) is None,
        },
{
    let p_bytes: [u8; 5] = [98, 121, 116, 101, 115];
    let p_kib: [u8; 3] = [107, 105, 98];
    let p_mib: [u8; 3] = [109, 105, 98];
    let p_gib: [u8; 3] = [103, 105, 98];
    let p_tib: [u8; 3] = [116, 105, 98];
    let p_pib: [u8; 3] = [112, 105, 98];
    let p_kb: [u8; 2] = [107, 98];
    let p_mb: [u8; 2] = [109, 98];
    let p_gb: [u8; 2] = [103, 98];
    let p_tb: [u8; 2] = [116, 98];
    let p_pb: [u8; 2] = [112, 98];
    let p_b: [u8; 1] = [98];
    proof {
        assert(p_bytes@ =~= seq![98u8, 121u8, 116u8, 101u8, 115u8]);
        assert(p_kib@ =~= seq![107u8, 105u8, 98u8]);
        assert(p_mib@ =~= seq![109u8, 105u8, 98u8]);
        assert(p_gib@ =~= seq![103u8, 105u8, 98u8]);
        assert(p_tib@ =~= seq![116u8, 105u8, 98u8]);
        assert(p_pib@ =~= seq![112u8, 105u8, 98u8]);
        assert(p_kb@ =~= seq![107u8, 98u8]);
        assert(p_mb@ =~= seq![109u8, 98u8]);
        assert(p_gb@ =~= seq![103u8, 98u8]);
        assert(p_tb@ =~= seq![116u8, 98u8]);
        assert(p_pb@ =~= seq![112u8, 98u8]);
        assert(p_b@ =~= seq![98u8]);
    }
    let n = t.len();
    if crate::scan::ends_with(t, p_bytes.as_slice()) {
        Some((crate::scan::subvec(t, 0, n - 5), 1))
    } else if crate::scan::ends_with(t, p_kib.as_slice()) {
        Some((crate::scan::subvec(t, 0, n - 3), 1024))
    } else if crate::scan::ends_with(t, p_mib.as_slice()) {
        Some((crate::scan::subvec(t, 0, n - 3), 1048576))
    } else if crate::scan::ends_with(t, p_gib.as_slice()) {
        Some((crate::scan::subvec(t, 0, n - 3), 1073741824))
    } else if crate::scan::ends_with(t, p_tib.as_slice()) {
        Some((crate::scan::subvec(t, 0, n - 3), 1099511627776))
    } else if crate::scan::ends_with(t, p_pib.as_slice()) {
        Some((crate::scan::subvec(t, 0, n - 3), 1125899906842624))
    } else if crate::scan::ends_with(t, p_kb.as_slice()) {
        Some((crate::scan::subvec(t, 0, n - 2), 1000))
    } else if crate::scan::ends_with(t, p_mb.as_slice()) {
        Some((crate::scan::subvec(t, 0, n - 2), 1000000))
    } else if crate::scan::ends_with(t, p_gb.as_slice()) {
        Some((crate::scan::subvec(t, 0, n - 2), 1000000000))
    } else if crate::scan::ends_with(t, p_tb.as_slice()) {
        Some((crate::scan::subvec(t, 0, n - 2), 1000000000000))
    } else if crate::scan::ends_with(t, p_pb.as_slice()) {
        Some((crate::scan::subvec(t, 0, n - 2), 1000000000000000))
    } else if crate::scan::ends_with(t, p_b.as_slice()) {
        Some((crate::scan::subvec(t, 0, n - 1), 1))
    } else {
        None
    }
}

/// What `parse_size` means, over the raw bytes of its input.
pub open spec fn spec_size(s: Seq<u8>) -> Option<u64> {
    let t = crate::scan::lower_spec(trim_spec_bytes(s));
    if t.len() == 0 {
        Some(0)
    } else {
        match spec_size_unit(t) {
            Some(pair) => {
                let m = strip_commas(trim_spec_bytes(pair.0));
                if valid_mantissa(m) {
                    Some(sat64(mantissa_scaled(m, pair.1, true)))
                } else {
                    None
                }
            },
            None => None,
        }
    }
}

/// Synonym kept close to the normalizers.
pub open spec fn trim_spec_bytes(s: Seq<u8>) -> Seq<u8> {
    crate::scan::trim_spec(s)
}

/// Parses a human-readable size such as `205.9 MiB` into bytes.  The
/// comparison is case-insensitive, the space before the unit is optional,
/// surrounding whitespace and commas in the number are ignored, an empty
/// input counts zero bytes, and the fraction rounds half away from zero.  A missing or unknown suffix or a
/// non-numeric mantissa is a `ParseSize` error; a value beyond `u64`
/// clamps to `u64::MAX`.
pub fn parse_size(value: &str) -> (r: Result<u64, Error>)
    ensures
        match r {
            Ok(v) => spec_size(value.spec_bytes()) == Some(v),
            Err(e) => spec_size(value.spec_bytes()) is None && e == Error::ParseSize,
        },
{
    let bytes = value.as_bytes();
    let t0 = crate::scan::trim(bytes);
    let t = crate::scan::to_lower(t0.as_slice());
    if t.len() == 0 {
        return Ok(0);
    }
    match size_unit_exec(t.as_slice()) {
        None => Err(Error::ParseSize),
        Some((raw, unit)) => {
            let m0 = crate::scan::trim(raw.as_slice());
            let m = strip_commas_exec(m0.as_slice());
            match eval_mantissa(m.as_slice(), unit, true) {
                Some(v) => Ok(v),
                None => Err(Error::ParseSize),
            }
        },
    }
}

/// Splits off the exact-case suffix that the page normalizer recognizes.
pub open spec fn spec_human_unit(t: Seq<u8>) -> Option<(Seq<u8>, int)> {
    if crate::scan::ends_with_spec(t, seq![32u8, 77u8, 105u8, 66u8]) {
        Some((t.take(t.len() - 4), 1048576))
    } else if crate::scan::ends_with_spec(t, seq![32u8, 71u8, 105u8, 66u8]) {
        Some((t.take(t.len() - 4), 1073741824))
    } else if crate::scan::ends_with_spec(t, seq![32u8, 75u8, 105u8, 66u8]) {
        Some((t.take(t.len() - 4), 1024))
    } else if crate::scan::ends_with_spec(t, seq![32u8, 66u8]) {
        Some((t.take(t.len() - 2), 1))
    } else if crate::scan::ends_with_spec(t, seq![49u8, 32u8, 66u8, 121u8, 116u8, 101u8]) {
        Some((t.take(t.len() - 6), 1))
    } else if crate::scan::ends_with_spec(t, seq![32u8, 84u8, 105u8, 66u8]) {
        Some((t.take(t.len() - 4), 1099511627776))
    } else if crate::scan::ends_with_spec(t, seq![32u8, 80u8, 105u8, 66u8]) {
        Some((t.take(t.len() - 4), 1125899906842624))
    } else {
        None
    }
}

/// What `parse_human_size` means, over the raw bytes of its input.
pub open spec fn spec_human_size(s: Seq<u8>) -> Option<u64> {
    let t = trim_spec_bytes(s);
    match spec_human_unit(t) {
        Some(pair) => {
            let m = trim_spec_bytes(pair.0);
            if valid_mantissa(m) {
                Some(sat64(mantissa_scaled(m, pair.1, false)))
            } else {
                None
            }
        },
        None => None,
    }
}

fn human_unit_exec(t: &[u8]) -> (r: Option<(Vec<u8>, u64)>)
    ensures
        match r {
            Some(p) => spec_human_unit(t@) == Some((p.0@, p.1 as int)),
            None => spec_human_unit(t@) is None,
        },
{
    let p_mib: [u8; 4] = [32u8, 77u8, 105u8, 66u8];
    let p_gib: [u8; 4] = [32u8, 71u8, 105u8, 66u8];
    let p_kib: [u8; 4] = [32u8, 75u8, 105u8, 66u8];
    let p_b: [u8; 2] = [32u8, 66u8];
    let p_byte: [u8; 6] = [49u8, 32u8, 66u8, 121u8, 116u8, 101u8];
    let p_tib: [u8; 4] = [32u8, 84u8, 105u8, 66u8];
    let p_pib: [u8; 4] = [32u8, 80u8, 105u8, 66u8];
    proof {
        assert(p_mib@ =~= seq![32u8, 77u8, 105u8, 66u8]);
        assert(p_gib@ =~= seq![32u8, 71u8, 105u8, 66u8]);
        assert(p_kib@ =~= seq![32u8, 75u8, 105u8, 66u8]);
        assert(p_b@ =~= seq![32u8, 66u8]);
        assert(p_byte@ =~= seq![49u8, 32u8, 66u8, 121u8, 116u8, 101u8]);
        assert(p_tib@ =~= seq![32u8, 84u8, 105u8, 66u8]);
        assert(p_pib@ =~= seq![32u8, 80u8, 105u8, 66u8]);
    }
    let n = t.len();
    if crate::scan::ends_with(t, p_mib.as_slice()) {
        Some((crate::scan::subvec(t, 0, n - 4), 1048576))
    } else if crate::scan::ends_with(t, p_gib.as_slice()) {
        Some((crate::scan::subvec(t, 0, n - 4), 1073741824))
    } else if crate::scan::ends_with(t, p_kib.as_slice()) {
        Some((crate::scan::subvec(t, 0, n - 4), 1024))
    } else if crate::scan::ends_with(t, p_b.as_slice()) {
        Some((crate::scan::subvec(t, 0, n - 2), 1))
    } else if crate::scan::ends_with(t, p_byte.as_slice()) {
        Some((crate::scan::subvec(t, 0, n - 6), 1))
    } else if crate::scan::ends_with(t, p_tib.as_slice()) {
        Some((crate::scan::subvec(t, 0, n - 4), 1099511627776))
    } else if crate::scan::ends_with(t, p_pib.as_slice()) {
        Some((crate::scan::subvec(t, 0, n - 4), 1125899906842624))
    } else {
        None
    }
}

/// Parses the exact-case `KiB`/`MiB`/`GiB`/`TiB`/`PiB`/`B` sizes the
/// rendered pages use; the fraction truncates toward zero.
pub fn parse_human_size(size: &str) -> (r: Result<u64, Error>)
    ensures
        match r {
            Ok(v) => spec_human_size(size.spec_bytes()) == Some(v),
            Err(e) => spec_human_size(size.spec_bytes()) is None && e == Error::ParseSize,
        },
{
    let bytes = size.as_bytes();
    let t = crate::scan::trim(bytes);
    match human_unit_exec(t.as_slice()) {
        None => Err(Error::ParseSize),
        Some((raw, unit)) => {
            let m = crate::scan::trim(raw.as_slice());
            match eval_mantissa(m.as_slice(), unit, false) {
                Some(v) => Ok(v),
                None => Err(Error::ParseSize),
            }
        },
    }
}

} // verus!

verus! {

/// Law: a size rendered canonically at one fractional digit parses back,
/// with half-up rounding, to within half of that digit.  Here `t` is
/// `bytes` rounded half-up to tenths of the unit, and `m` is any mantissa
/// spelling `t`: its digits before the dot carry `t / 10`, its one digit
/// after carries `t % 10`.  The parsed value sits within a twentieth of
/// the unit of `bytes`, up to the one byte the integer result is itself
/// rounded to.
pub proof fn lemma_size_round_trip(bytes: u64, unit: u64, m: Seq<u8>)
    requires
        unit == 1 || unit == 1024 || unit == 1048576 || unit == 1073741824,
        valid_mantissa(m),
        frac_part(m).len() == 1,
        crate::scan::digits_val(int_part(m)) == ((10 * bytes + unit / 2) / (unit as int)) / 10,
        crate::scan::digits_val(frac_part(m)) == ((10 * bytes + unit / 2) / (unit as int)) % 10,
    ensures
        ({
            let v = mantissa_scaled(m, unit as int, true);
            &&& 20 * v <= 20 * bytes + unit + 10
            &&& 20 * bytes <= 20 * v + unit + 10
        }),
{
    lemma_pow10_values();
    let u = unit as int;
    let b = bytes as int;
    let h = u / 2;
    let t = (10 * b + h) / u;
    let iv = crate::scan::digits_val(int_part(m));
    let fv = crate::scan::digits_val(frac_part(m));
    assert(frac_part(m).drop_last() =~= Seq::<u8>::empty());
    assert(fv == frac_part(m).last() - 48);
    assert(crate::scan::is_digit(frac_part(m)[0]));
    assert(0 <= fv < 10);
    vstd::arithmetic::div_mod::lemma_fundamental_div_mod(10 * b + h, u);
    vstd::arithmetic::div_mod::lemma_mod_division_less_than_divisor(10 * b + h, u);
    let r1 = (10 * b + h) % u;
    assert(10 * b + h == u * t + r1 && 0 <= r1 < u);
    vstd::arithmetic::div_mod::lemma_fundamental_div_mod(t, 10);
    vstd::arithmetic::div_mod::lemma_mod_division_less_than_divisor(t, 10);
    assert(t == 10 * iv + fv);
    assert(frac_sig(m) == frac_part(m));
    let g = (fv * u + 5) / 10;
    assert(mantissa_scaled(m, u, true) == iv * u + g);
    vstd::arithmetic::div_mod::lemma_fundamental_div_mod(fv * u + 5, 10);
    vstd::arithmetic::div_mod::lemma_mod_division_less_than_divisor(fv * u + 5, 10);
    let r2 = (fv * u + 5) % 10;
    assert(fv * u + 5 == 10 * g + r2 && 0 <= r2 < 10);
    assert(u * t == 10 * (iv * u) + fv * u) by (nonlinear_arith)
        requires
            t == 10 * iv + fv,
    ;
    assert(10 * (iv * u + g) == 10 * b + h - r1 + 5 - r2);
    assert(u - 1 <= 2 * h <= u);
}

/// Law: the exact-case page sizes, which truncate the fraction, parse
/// back to within one rendered digit below and half a digit above.
pub proof fn lemma_human_size_round_trip(bytes: u64, unit: u64, m: Seq<u8>)
    requires
        unit == 1 || unit == 1024 || unit == 1048576 || unit == 1073741824,
        valid_mantissa(m),
        frac_part(m).len() == 1,
        crate::scan::digits_val(int_part(m)) == ((10 * bytes + unit / 2) / (unit as int)) / 10,
        crate::scan::digits_val(frac_part(m)) == ((10 * bytes + unit / 2) / (unit as int)) % 10,
    ensures
        ({
            let v = mantissa_scaled(m, unit as int, false);
            &&& 20 * v <= 20 * bytes + unit
            &&& 20 * bytes <= 20 * v + unit + 20
        }),
{
    lemma_pow10_values();
    let u = unit as int;
    let b = bytes as int;
    let h = u / 2;
    let t = (10 * b + h) / u;
    let iv = crate::scan::digits_val(int_part(m));
    let fv = crate::scan::digits_val(frac_part(m));
    assert(frac_part(m).drop_last() =~= Seq::<u8>::empty());
    assert(fv == frac_part(m).last() - 48);
    assert(crate::scan::is_digit(frac_part(m)[0]));
    assert(0 <= fv < 10);
    vstd::arithmetic::div_mod::lemma_fundamental_div_mod(10 * b + h, u);
    vstd::arithmetic::div_mod::lemma_mod_division_less_than_divisor(10 * b + h, u);
    let r1 = (10 * b + h) % u;
    assert(10 * b + h == u * t + r1 && 0 <= r1 < u);
    vstd::arithmetic::div_mod::lemma_fundamental_div_mod(t, 10);
    vstd::arithmetic::div_mod::lemma_mod_division_less_than_divisor(t, 10);
    assert(t == 10 * iv + fv);
    assert(frac_sig(m) == frac_part(m));
    let g = (fv * u) / 10;
    assert(mantissa_scaled(m, u, false) == iv * u + g);
    vstd::arithmetic::div_mod::lemma_fundamental_div_mod(fv * u, 10);
    vstd::arithmetic::div_mod::lemma_mod_division_less_than_divisor(fv * u, 10);
    let r2 = (fv * u) % 10;
    assert(fv * u == 10 * g + r2 && 0 <= r2 < 10);
    assert(u * t == 10 * (iv * u) + fv * u) by (nonlinear_arith)
        requires
            t == 10 * iv + fv,
    ;
    assert(10 * (iv * u + g) == 10 * b + h - r1 - r2);
    assert(u - 1 <= 2 * h <= u);
}

} // verus!
