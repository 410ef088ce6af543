//! Byte sizes as yt-dlp prints them ("12.34MiB", "~1.5GiB", "300KiB/s"),
//! read into byte counts.
use vstd::prelude::*;
use crate::text::{
    chars_of, ends_with, ends_with_chars, eq_chars, find, find_chars, first_word, first_word_chars,
    lemma_trim_len, slice_range, trim, trim_chars, trim_end_matches, trim_end_matches_chars,
    lemma_trim_end_matches_len, trim_start_char, trim_start_char_chars,
};
use crate::scaling::{lemma_pow2_30, lemma_scaled_far, pow2, scaled_floor, scaled_floor_saturated};

verus! {

pub open spec fn is_digit(c: char) -> bool {
    '0' as u32 <= c as u32 && c as u32 <= '9' as u32
}

pub open spec fn digit_value(c: char) -> nat {
    (c as u32 - '0' as u32) as nat
}

/// The number that the decimal digits `d` spell, most significant first.
pub open spec fn digits_value(d: Seq<char>) -> nat
    decreases d.len(),
{
    if d.len() == 0 {
        0
    } else {
        digits_value(d.drop_last()) * 10 + digit_value(d.last())
    }
}

/// Length of the leading run of decimal digits of `s`.
pub open spec fn digit_run(s: Seq<char>) -> nat
    decreases s.len(),
{
    if s.len() > 0 && is_digit(s[0]) {
        1 + digit_run(s.drop_first())
    } else {
        0
    }
}

pub open spec fn pow10(n: nat) -> nat
    decreases n,
{
    if n == 0 {
        1
    } else {
        10 * pow10((n - 1) as nat)
    }
}

/// The integer part of the decimal number whose digits are `d` and whose
/// decimal point stands after the first `p` of them (`p` may lie outside
/// `0..=d.len()`: zeros are understood on either side).
pub open spec fn shifted_floor(d: Seq<char>, p: int) -> nat {
    if p <= 0 {
        0
    } else if p <= d.len() {
        digits_value(d.take(p))
    } else {
        digits_value(d) * pow10((p - d.len()) as nat)
    }
}

/// `s` equals the word `w` of lower-case ASCII letters when ASCII case is
/// ignored: each character of `s` is the letter of `w` or its upper-case form.
pub open spec fn eq_ignore_case(s: Seq<char>, w: Seq<char>) -> bool {
    s.len() == w.len() && forall|i: int|
        0 <= i < s.len() ==> (#[trigger] s[i] == w[i] || s[i] as u32 + 32 == w[i] as u32)
}

/// The digits and the position of the decimal point of an unsigned decimal
/// literal `digits [. digits] [(e|E) [+|-] digits]` with at least one digit
/// before the exponent; `None` for any other text.
pub open spec fn decimal_parts(b: Seq<char>) -> Option<(Seq<char>, int)> {
    let n1 = digit_run(b) as int;
    let has_point = n1 < b.len() && b[n1] == '.';
    let n2: int = if has_point { digit_run(b.skip(n1 + 1)) as int } else { 0 };
    let frac = if has_point { b.subrange(n1 + 1, n1 + 1 + n2) } else { Seq::<char>::empty() };
    let pos: int = if has_point { n1 + 1 + n2 } else { n1 };
    let digits = b.take(n1) + frac;
    if digits.len() == 0 {
        None
    } else if pos == b.len() {
        Some((digits, n1))
    } else if b[pos] == 'e' || b[pos] == 'E' {
        let rest = b.skip(pos + 1);
        let signed = rest.len() > 0 && (rest[0] == '+' || rest[0] == '-');
        let negative = rest.len() > 0 && rest[0] == '-';
        let ed = if signed { rest.drop_first() } else { rest };
        if ed.len() > 0 && digit_run(ed) == ed.len() {
            let e = digits_value(ed) as int;
            Some((digits, if negative { n1 - e } else { n1 + e }))
        } else {
            None
        }
    } else {
        None
    }
}

pub open spec fn u64_max() -> nat {
    0xffff_ffff_ffff_ffff
}

pub open spec fn min_nat(a: nat, b: nat) -> nat {
    if a <= b { a } else { b }
}

/// The whole bytes in `m` units of the floating-point literal `t`: the
/// whole part of the literal's exact decimal value times `m`, at most
/// `u64::MAX`. Text that is no floating-point literal reads as 0, negative
/// values and NaN read as 0, and infinity reads as `u64::MAX`.
pub open spec fn float_bytes(t: Seq<char>, m: nat) -> nat {
    let signed = t.len() > 0 && (t[0] == '+' || t[0] == '-');
    let negative = t.len() > 0 && t[0] == '-';
    let body = if signed { t.drop_first() } else { t };
    if eq_ignore_case(body, seq!['i', 'n', 'f']) || eq_ignore_case(
        body,
        seq!['i', 'n', 'f', 'i', 'n', 'i', 't', 'y'],
    ) {
        if negative { 0 } else { u64_max() }
    } else if eq_ignore_case(body, seq!['n', 'a', 'n']) {
        0
    } else {
        match decimal_parts(body) {
            None => 0,
            Some((d, p)) => if negative { 0 } else { min_nat(scaled_floor(d, p, m), u64_max()) },
        }
    }
}

} // verus!

verus! {

pub proof fn lemma_digit_run(s: Seq<char>, i: int)
    requires
        0 <= i <= s.len(),
        forall|k: int| 0 <= k < i ==> is_digit(#[trigger] s[k]),
        i == s.len() || !is_digit(s[i]),
    ensures
        digit_run(s) == i,
    decreases i,
{
    if i > 0 {
        lemma_digit_run(s.drop_first(), i - 1);
    }
}

pub fn is_ascii_digit(c: char) -> (b: bool)
    ensures
        b == is_digit(c),
{
    let u = c as u32;
    48 <= u && u <= 57
}

/// Length of the run of decimal digits of `v` that starts at `start`.
fn digit_run_at(v: &[char], start: usize) -> (n: usize)
    requires
        start <= v@.len(),
    ensures
        n == digit_run(v@.skip(start as int)),
        start + n <= v@.len(),
{
    let len = v.len();
    let mut j = start;
    while j < len && is_ascii_digit(v[j])
        invariant
            len == v@.len(),
            start <= j <= len,
            forall|k: int| start <= k < j ==> is_digit(#[trigger] v@[k]),
        decreases len - j,
    {
        j = j + 1;
    }
    proof {
        let s = v@.skip(start as int);
        assert forall|k: int| 0 <= k < j - start implies is_digit(#[trigger] s[k]) by {
            assert(s[k] == v@[k + start]);
        }
        lemma_digit_run(s, (j - start) as int);
    }
    j - start
}

/// Whether `v` is the lower-case ASCII word `w`, ignoring ASCII case.
fn eq_ignore_case_chars(v: &[char], w: &[char]) -> (b: bool)
    ensures
        b == eq_ignore_case(v@, w@),
{
    if v.len() != w.len() {
        return false;
    }
    let mut i: usize = 0;
    while i < v.len()
        invariant
            v@.len() == w@.len(),
            i <= v@.len(),
            forall|k: int| 0 <= k < i ==> (#[trigger] v@[k] == w@[k] || v@[k] as u32 + 32 == w@[k] as u32),
        decreases v@.len() - i,
    {
        let c = v[i];
        let d = w[i];
        if !(c == d || (c as u32 as u64) + 32 == d as u32 as u64) {
            return false;
        }
        i = i + 1;
    }
    true
}

pub proof fn lemma_digits_value_take(d: Seq<char>, k: int)
    requires
        0 <= k < d.len(),
    ensures
        digits_value(d.take(k + 1)) == digits_value(d.take(k)) * 10 + digit_value(d[k]),
{
    assert(d.take(k + 1).drop_last() =~= d.take(k));
}

pub proof fn lemma_pow10_step(x: nat, m: nat)
    ensures
        x * pow10(m + 1) == (x * pow10(m)) * 10,
{
    assert(pow10(m + 1) == 10 * pow10(m));
    assert(x * (10 * pow10(m)) == (x * pow10(m)) * 10) by (nonlinear_arith);
}

pub proof fn lemma_pow10_ge(m: nat, k: nat)
    requires
        k <= m,
    ensures
        pow10(k) <= pow10(m),
        pow10(m) >= 1,
    decreases m,
{
    if m > 0 {
        if k < m {
            lemma_pow10_ge((m - 1) as nat, k);
        } else {
            lemma_pow10_ge((m - 1) as nat, (m - 1) as nat);
        }
    }
}

pub proof fn lemma_pow10_20()
    ensures
        pow10(20) == 100_000_000_000_000_000_000,
{
    reveal_with_fuel(pow10, 21);
}

/// `min(x * 10 + dig, MAX)` from `min(x, MAX)`.
fn saturating_push_digit(acc: u64, dig: u64, Ghost(x): Ghost<nat>) -> (r: u64)
    requires
        acc as nat == min_nat(x, u64_max()),
        dig < 10,
    ensures
        r as nat == min_nat((x * 10 + dig) as nat, u64_max()),
{
    if acc == u64::MAX {
        u64::MAX
    } else if acc <= (u64::MAX - dig) / 10 {
        assert(acc * 10 + dig <= u64::MAX) by (nonlinear_arith)
            requires acc <= (u64::MAX - dig) / 10, dig < 10;
        acc * 10 + dig
    } else {
        assert(acc * 10 + dig > u64::MAX) by (nonlinear_arith)
            requires acc > (u64::MAX - dig) / 10, dig < 10;
        u64::MAX
    }
}

/// The saturated value of the digits `d`, with the decimal point after `p` of them.
pub(crate) fn shifted_floor_saturated(d: &[char], p: i128) -> (r: u64)
    requires
        forall|k: int| 0 <= k < d@.len() ==> is_digit(#[trigger] d@[k]),
        d@.len() <= usize::MAX,
    ensures
        r as nat == min_nat(shifted_floor(d@, p as int), u64_max()),
{
    if p <= 0 {
        return 0;
    }
    let len = d.len();
    let upto: usize = if p <= len as i128 { p as usize } else { len };
    let mut acc: u64 = 0;
    let mut k: usize = 0;
    assert(d@.take(0) =~= Seq::<char>::empty());
    while k < upto
        invariant
            upto <= len == d@.len(),
            k <= upto,
            forall|m: int| 0 <= m < d@.len() ==> is_digit(#[trigger] d@[m]),
            acc as nat == min_nat(digits_value(d@.take(k as int)), u64_max()),
        decreases upto - k,
    {
        proof {
            lemma_digits_value_take(d@, k as int);
        }
        let c = d[k];
        let dig = (c as u32 - '0' as u32) as u64;
        acc = saturating_push_digit(acc, dig, Ghost(digits_value(d@.take(k as int))));
        k = k + 1;
    }
    if p <= len as i128 {
        return acc;
    }
    assert(d@.take(len as int) =~= d@);
    let ghost x = digits_value(d@);
    let extra: i128 = p - len as i128;
    let pads: u32 = if extra < 20 { extra as u32 } else { 20 };
    let mut m: u32 = 0;
    assert(pow10(0) == 1);
    assert(x * pow10(0) == x) by (nonlinear_arith)
        requires pow10(0) == 1;
    while m < pads
        invariant
            m <= pads <= 20,
            acc as nat == min_nat(x * pow10(m as nat), u64_max()),
        decreases pads - m,
    {
        proof {
            lemma_pow10_step(x, m as nat);
        }
        acc = saturating_push_digit(acc, 0, Ghost((x * pow10(m as nat)) as nat));
        m = m + 1;
    }
    proof {
        let want = (p - len) as nat;
        if (pads as int) < want {
            lemma_pow10_20();
            lemma_pow10_ge(want, 20);
            if x > 0 {
                assert(x * pow10(20) >= pow10(20)) by (nonlinear_arith)
                    requires x > 0;
                assert(x * pow10(want) >= x * pow10(20)) by (nonlinear_arith)
                    requires pow10(want) >= pow10(20);
            } else {
                let a = pow10(want);
                let c = pow10(20);
                assert(x * a == 0 && x * c == 0) by (nonlinear_arith)
                    requires x == 0;
            }
        }
    }
    acc
}

/// The value of the exponent digits `v[start..]`, saturated at 10^20.
fn exponent_saturated(v: &[char], start: usize) -> (e: u128)
    requires
        start <= v@.len(),
        forall|k: int| start <= k < v@.len() ==> is_digit(#[trigger] v@[k]),
    ensures
        e as nat == min_nat(digits_value(v@.skip(start as int)), 100_000_000_000_000_000_000),
{
    let cap: u128 = 100_000_000_000_000_000_000;
    let len = v.len();
    let mut acc: u128 = 0;
    let mut k = start;
    let ghost s = v@.skip(start as int);
    assert(s.take(0) =~= Seq::<char>::empty());
    while k < len
        invariant
            len == v@.len(),
            start <= k <= len,
            cap == 100_000_000_000_000_000_000,
            s == v@.skip(start as int),
            forall|m: int| start <= m < v@.len() ==> is_digit(#[trigger] v@[m]),
            acc as nat == min_nat(digits_value(s.take(k - start)), 100_000_000_000_000_000_000),
        decreases len - k,
    {
        proof {
            lemma_digits_value_take(s, (k - start) as int);
            assert(s[k - start] == v@[k as int]);
            assert(is_digit(v@[k as int]));
        }
        let dig = (v[k] as u32 - '0' as u32) as u128;
        let ghost x = digits_value(s.take(k - start));
        let ghost y = digits_value(s.take(k - start + 1));
        assert(digit_value(s[k - start]) == dig);
        assert(y == x * 10 + dig);
        if acc == cap {
            assert(x >= cap);
            assert(y >= cap);
        } else {
            assert(acc == x);
            let n = acc * 10 + dig;
            assert(n == y);
            acc = if n < cap { n } else { cap };
        }
        assert(acc as nat == min_nat(y, 100_000_000_000_000_000_000));
        k = k + 1;
        assert(s.take(k - start) == s.take(k - 1 - start + 1));
    }
    assert(s.take(len - start) =~= s);
    acc
}

/// The digits of `b` before the point (`n1` of them) followed by those after it.
fn mantissa_digits(b: &[char], n1: usize, has_point: bool, n2: usize) -> (digits: Vec<char>)
    requires
        n1 == digit_run(b@),
        has_point ==> n1 < b@.len() && n2 == digit_run(b@.skip(n1 + 1)),
        has_point ==> n1 + 1 + n2 <= b@.len(),
        !has_point ==> n2 == 0,
    ensures
        digits@ == b@.take(n1 as int) + (if has_point { b@.subrange(n1 + 1, n1 + 1 + n2) } else { Seq::<char>::empty() }),
        forall|k: int| 0 <= k < digits@.len() ==> is_digit(#[trigger] digits@[k]),
        digits@.len() == n1 + n2,
{
    proof {
        if n1 > b@.len() {
            lemma_digit_run_le(b@);
        }
        lemma_digit_run_le(b@);
    }
    let mut digits = slice_range(b, 0, n1);
    let ghost frac = if has_point { b@.subrange(n1 + 1, n1 + 1 + n2) } else { Seq::<char>::empty() };
    let blen = b.len();
    if has_point {
        assert(n1 + 1 + n2 <= blen);
        let pos = n1 + 1 + n2;
        let mut k = n1 + 1;
        while k < pos
            invariant
                n1 + 1 <= k <= pos <= b@.len(),
                pos == n1 + 1 + n2,
                digits@ == b@.take(n1 as int) + b@.subrange(n1 + 1, k as int),
            decreases pos - k,
        {
            digits.push(b[k]);
            k = k + 1;
            assert(digits@ =~= b@.take(n1 as int) + b@.subrange(n1 + 1, k as int));
        }
    } else {
        assert(digits@ =~= b@.take(n1 as int) + frac);
    }
    proof {
        assert forall|k: int| 0 <= k < digits@.len() implies is_digit(#[trigger] digits@[k]) by {
            if k < n1 {
                assert(digits@[k] == b@[k]);
                lemma_digit_run_prefix(b@, k);
            } else {
                let s2 = b@.skip(n1 + 1);
                assert(digits@[k] == s2[k - n1]);
                lemma_digit_run_prefix(s2, k - n1);
            }
        }
    }
    digits
}

pub proof fn lemma_digit_run_le(s: Seq<char>)
    ensures
        digit_run(s) <= s.len(),
    decreases s.len(),
{
    if s.len() > 0 {
        lemma_digit_run_le(s.drop_first());
    }
}

/// The position of the decimal point once the exponent that starts at `pos`
/// (just after `e` or `E`) is applied to a point after `n1` digits; `None`
/// when the exponent is malformed. Exponents of 10^20 or more are cut to
/// 10^20, which moves the point beyond any digits this machine can hold.
fn exponent_point(b: &[char], pos: usize, n1: usize) -> (r: Option<i128>)
    requires
        pos < b@.len(),
        n1 <= pos,
    ensures
        ({
            let rest = b@.skip(pos + 1);
            let signed = rest.len() > 0 && (rest[0] == '+' || rest[0] == '-');
            let negative = rest.len() > 0 && rest[0] == '-';
            let ed = if signed { rest.drop_first() } else { rest };
            let valid = ed.len() > 0 && digit_run(ed) == ed.len();
            let e = digits_value(ed) as int;
            let want = if negative { n1 - e } else { n1 + e };
            &&& r is Some <==> valid
            &&& r matches Some(p) ==> (p == want
                || (want >= n1 + 100_000_000_000_000_000_000 && p == n1 + 100_000_000_000_000_000_000)
                || (want <= n1 - 100_000_000_000_000_000_000 && p == n1 - 100_000_000_000_000_000_000))
        }),
{
    let blen = b.len();
    let rest_start = pos + 1;
    let esigned = rest_start < blen && (b[rest_start] == '+' || b[rest_start] == '-');
    let enegative = rest_start < blen && b[rest_start] == '-';
    let ed_start = if esigned { rest_start + 1 } else { rest_start };
    let ghost rest = b@.skip(rest_start as int);
    let ghost ed = if esigned { rest.drop_first() } else { rest };
    assert(ed =~= b@.skip(ed_start as int));
    if ed_start >= blen {
        return None;
    }
    let run = digit_run_at(b, ed_start);
    if run != blen - ed_start {
        return None;
    }
    proof {
        assert forall|k: int| ed_start <= k < b@.len() implies is_digit(#[trigger] b@[k]) by {
            lemma_digit_run_prefix(ed, k - ed_start);
            assert(ed[k - ed_start] == b@[k]);
        }
    }
    let e = exponent_saturated(b, ed_start);
    Some(if enegative { n1 as i128 - e as i128 } else { n1 as i128 + e as i128 })
}

/// The whole part of `2^k` times the unsigned decimal literal `b`,
/// saturated; 0 when `b` is no such literal.
fn decimal_bytes_chars(b: &[char], k: u32) -> (r: u64)
    requires
        k <= 30,
    ensures
        r as nat == match decimal_parts(b@) {
            None => 0,
            Some((d, p)) => min_nat(scaled_floor(d, p, pow2(k as nat)), u64_max()),
        },
{
    let blen = b.len();
    let n1 = digit_run_at(b, 0);
    assert(b@.skip(0) =~= b@);
    let has_point = n1 < blen && b[n1] == '.';
    let n2 = if has_point { digit_run_at(b, n1 + 1) } else { 0 };
    let pos = if has_point { n1 + 1 + n2 } else { n1 };
    if n1 + n2 == 0 {
        return 0;
    }
    let digits = mantissa_digits(b, n1, has_point, n2);
    if pos == blen {
        return scaled_floor_saturated(&digits, n1 as i128, k);
    }
    if b[pos] == 'e' || b[pos] == 'E' {
        match exponent_point(b, pos, n1) {
            None => 0,
            Some(p) => {
                let r = scaled_floor_saturated(&digits, p, k);
                proof {
                    let rest = b@.skip(pos + 1);
                    let signed = rest.len() > 0 && (rest[0] == '+' || rest[0] == '-');
                    let negative = rest.len() > 0 && rest[0] == '-';
                    let ed = if signed { rest.drop_first() } else { rest };
                    let e = digits_value(ed) as int;
                    let want = if negative { n1 - e } else { n1 + e };
                    if p != want {
                        lemma_pow2_30();
                        crate::scaling::lemma_pow2_pos(k as nat);
                        crate::scaling::lemma_pow2_mono(k as nat, 30);
                        lemma_scaled_far(digits@, p as int, want, pow2(k as nat));
                    }
                }
                r
            },
        }
    } else {
        0
    }
}

/// The whole bytes in `2^k` units of the floating-point literal `t` (see `float_bytes`).
pub fn float_bytes_chars(t: &[char], k: u32) -> (r: u64)
    requires
        k <= 30,
    ensures
        r as nat == float_bytes(t@, pow2(k as nat)),
{
    let len = t.len();
    let signed = len > 0 && (t[0] == '+' || t[0] == '-');
    let negative = len > 0 && t[0] == '-';
    let body = if signed { slice_range(t, 1, len) } else { slice_range(t, 0, len) };
    assert(body@ == if signed { t@.drop_first() } else { t@ }) by {
        if signed {
            assert(t@.subrange(1, len as int) =~= t@.drop_first());
        } else {
            assert(t@.subrange(0, len as int) =~= t@);
        }
    }
    let inf = ['i', 'n', 'f'];
    let infinity = ['i', 'n', 'f', 'i', 'n', 'i', 't', 'y'];
    let nan = ['n', 'a', 'n'];
    assert(inf@ =~= seq!['i', 'n', 'f']);
    assert(infinity@ =~= seq!['i', 'n', 'f', 'i', 'n', 'i', 't', 'y']);
    assert(nan@ =~= seq!['n', 'a', 'n']);
    if eq_ignore_case_chars(&body, &inf) || eq_ignore_case_chars(&body, &infinity) {
        return if negative { 0 } else { u64::MAX };
    }
    if eq_ignore_case_chars(&body, &nan) {
        return 0;
    }
    if negative {
        return 0;
    }
    decimal_bytes_chars(&body, k)
}

pub proof fn lemma_digit_run_prefix(s: Seq<char>, k: int)
    requires
        0 <= k < digit_run(s),
    ensures
        is_digit(s[k]),
    decreases k,
{
    lemma_digit_run_le(s);
    if k > 0 {
        lemma_digit_run_prefix(s.drop_first(), k - 1);
        assert(s.drop_first()[k - 1] == s[k]);
    }
}


} // verus!

verus! {

pub open spec fn unit_gib() -> Seq<char> { seq!['G', 'i', 'B'] }
pub open spec fn unit_gb() -> Seq<char> { seq!['G', 'B'] }
pub open spec fn unit_mib() -> Seq<char> { seq!['M', 'i', 'B'] }
pub open spec fn unit_mb() -> Seq<char> { seq!['M', 'B'] }
pub open spec fn unit_kib() -> Seq<char> { seq!['K', 'i', 'B'] }
pub open spec fn unit_kb() -> Seq<char> { seq!['K', 'B'] }
pub open spec fn unit_b() -> Seq<char> { seq!['B'] }
pub open spec fn per_second() -> Seq<char> { seq!['/', 's'] }

/// Texts that stand for an unknown size.
pub open spec fn is_unknown_size(t: Seq<char>) -> bool {
    t.len() == 0 || t == seq!['N', '/', 'A'] || t == seq!['~'] || t == seq!['U', 'n', 'k', 'n', 'o', 'w', 'n']
}

/// The number of bytes a size text stands for: the whole bytes in its number
/// of units, 1024^3 bytes for `GiB`/`GB`, 1024^2 for `MiB`/`MB`, 1024 for
/// `KiB`/`KB` and 1 for `B` or no unit ("1.5MiB" is 1572864 bytes), at most
/// `u64::MAX`; a `/s` suffix is dropped first; unknown sizes and unreadable
/// numbers count 0.
pub open spec fn size_value(s: Seq<char>) -> nat
    decreases s.len(),
{
    let t = trim(s);
    if is_unknown_size(t) {
        0
    } else if ends_with(t, unit_gib()) || ends_with(t, unit_gb()) {
        float_bytes(trim(trim_end_matches(trim_end_matches(t, unit_gib()), unit_gb())), 1073741824)
    } else if ends_with(t, unit_mib()) || ends_with(t, unit_mb()) {
        float_bytes(trim(trim_end_matches(trim_end_matches(t, unit_mib()), unit_mb())), 1048576)
    } else if ends_with(t, unit_kib()) || ends_with(t, unit_kb()) {
        float_bytes(trim(trim_end_matches(trim_end_matches(t, unit_kib()), unit_kb())), 1024)
    } else if ends_with(t, unit_b()) {
        float_bytes(trim(trim_end_matches(t, unit_b())), 1)
    } else if ends_with(t, per_second()) {
        proof {
            lemma_trim_len(s);
            lemma_trim_end_matches_len(t, per_second());
        }
        size_value(trim_end_matches(t, per_second()))
    } else {
        float_bytes(t, 1)
    }
}

/// The number part of `t` once every trailing `u1` and then every trailing `u2` is removed.
fn strip_units(t: &[char], u1: &[char], u2: &[char]) -> (r: Vec<char>)
    ensures
        r@ == trim(trim_end_matches(trim_end_matches(t@, u1@), u2@)),
{
    let a = trim_end_matches_chars(t, u1);
    let b = trim_end_matches_chars(&a, u2);
    trim_chars(&b)
}

/// The number of bytes that the size text `v` stands for (see `size_value`).
pub fn size_in_bytes(v: &[char]) -> (r: u64)
    ensures
        r as nat == size_value(v@),
    decreases v@.len(),
{
    let t = trim_chars(v);
    let na = ['N', '/', 'A'];
    let tilde = ['~'];
    let unknown = ['U', 'n', 'k', 'n', 'o', 'w', 'n'];
    assert(na@ =~= seq!['N', '/', 'A']);
    assert(tilde@ =~= seq!['~']);
    assert(unknown@ =~= seq!['U', 'n', 'k', 'n', 'o', 'w', 'n']);
    if t.len() == 0 || eq_chars(&t, &na) || eq_chars(&t, &tilde) || eq_chars(&t, &unknown) {
        return 0;
    }
    proof {
        lemma_pow2_30();
        assert(pow2(0) == 1);
    }
    let gib = ['G', 'i', 'B'];
    let gb = ['G', 'B'];
    let mib = ['M', 'i', 'B'];
    let mb = ['M', 'B'];
    let kib = ['K', 'i', 'B'];
    let kb = ['K', 'B'];
    let b = ['B'];
    let ps = ['/', 's'];
    assert(gib@ =~= unit_gib());
    assert(gb@ =~= unit_gb());
    assert(mib@ =~= unit_mib());
    assert(mb@ =~= unit_mb());
    assert(kib@ =~= unit_kib());
    assert(kb@ =~= unit_kb());
    assert(b@ =~= unit_b());
    assert(ps@ =~= per_second());
    if ends_with_chars(&t, &gib) || ends_with_chars(&t, &gb) {
        let num = strip_units(&t, &gib, &gb);
        float_bytes_chars(&num, 30)
    } else if ends_with_chars(&t, &mib) || ends_with_chars(&t, &mb) {
        let num = strip_units(&t, &mib, &mb);
        float_bytes_chars(&num, 20)
    } else if ends_with_chars(&t, &kib) || ends_with_chars(&t, &kb) {
        let num = strip_units(&t, &kib, &kb);
        float_bytes_chars(&num, 10)
    } else if ends_with_chars(&t, &b) {
        let a = trim_end_matches_chars(&t, &b);
        let num = trim_chars(&a);
        float_bytes_chars(&num, 0)
    } else if ends_with_chars(&t, &ps) {
        let rest = trim_end_matches_chars(&t, &ps);
        proof {
            lemma_trim_len(v@);
            lemma_trim_end_matches_len(t@, per_second());
        }
        size_in_bytes(&rest)
    } else {
        float_bytes_chars(&t, 0)
    }
}

/// Reads a size as yt-dlp prints it ("1.5MiB", "500KiB", "2.3MiB/s") into a
/// number of bytes; unknown sizes ("", "N/A", "~", "Unknown") give 0.
pub fn parse_size_string(s: &str) -> (r: u64)
    ensures
        r as nat == size_value(s@),
{
    let v = chars_of(s);
    size_in_bytes(&v)
}

pub open spec fn of_marker() -> Seq<char> { seq![' ', 'o', 'f', ' '] }
pub open spec fn at_marker() -> Seq<char> { seq![' ', 'a', 't', ' '] }

/// The size word of a progress line: the first word after " of ", without leading `~`.
pub open spec fn total_size_word(line: Seq<char>) -> Option<Seq<char>> {
    match find(line, of_marker()) {
        Some(i) => match first_word(line.skip(i + 4)) {
            Some(w) => Some(trim_start_char(w, '~')),
            None => None,
        },
        None => None,
    }
}

/// The speed word of a progress line: the first word after " at ".
pub open spec fn speed_word(line: Seq<char>) -> Option<Seq<char>> {
    match find(line, at_marker()) {
        Some(i) => first_word(line.skip(i + 4)),
        None => None,
    }
}

pub open spec fn word_size(w: Option<Seq<char>>) -> nat {
    match w {
        Some(x) => size_value(x),
        None => 0,
    }
}

/// The word that follows the first occurrence of `marker` (four characters long) in `v`.
fn word_after(v: &[char], marker: &[char]) -> (r: Option<Vec<char>>)
    requires
        marker@.len() == 4,
    ensures
        match r {
            Some(w) => find(v@, marker@) matches Some(i) && first_word(v@.skip(i + 4)) == Some(w@),
            None => match find(v@, marker@) {
                Some(i) => first_word(v@.skip(i + 4)) is None,
                None => true,
            },
        },
{
    match find_chars(v, marker) {
        Some(i) => {
            proof {
                crate::text::lemma_contains(v@, marker@);
            }
            let n = v.len();
            assert(i + 4 <= n);
            let after = slice_range(v, i + 4, n);
            assert(after@ =~= v@.skip(i + 4));
            first_word_chars(&after)
        },
        None => None,
    }
}

/// The size word of the progress line `v` (see `total_size_word`).
pub fn total_size_word_chars(v: &[char]) -> (r: Option<Vec<char>>)
    ensures
        match r {
            Some(w) => total_size_word(v@) == Some(w@),
            None => total_size_word(v@) is None,
        },
{
    let of = [' ', 'o', 'f', ' '];
    assert(of@ =~= of_marker());
    match word_after(v, &of) {
        Some(w) => Some(trim_start_char_chars(&w, '~')),
        None => None,
    }
}

/// The speed word of the progress line `v` (see `speed_word`).
pub fn speed_word_chars(v: &[char]) -> (r: Option<Vec<char>>)
    ensures
        match r {
            Some(w) => speed_word(v@) == Some(w@),
            None => speed_word(v@) is None,
        },
{
    let at = [' ', 'a', 't', ' '];
    assert(at@ =~= at_marker());
    word_after(v, &at)
}

/// The total size, in bytes, that a yt-dlp progress line such as
/// `[download]  45.2% of ~12.34MiB at 1.23MiB/s ETA 00:05` reports; 0 when it reports none.
pub fn extract_total_size(line: &str) -> (r: u64)
    ensures
        r as nat == word_size(total_size_word(line@)),
{
    let v = chars_of(line);
    match total_size_word_chars(&v) {
        Some(w) => size_in_bytes(&w),
        None => 0,
    }
}


/// The download speed, in bytes per second, that a yt-dlp progress line reports; 0 when it reports none.
pub fn extract_speed(line: &str) -> (r: u64)
    ensures
        r as nat == word_size(speed_word(line@)),
{
    let v = chars_of(line);
    match speed_word_chars(&v) {
        Some(w) => size_in_bytes(&w),
        None => 0,
    }
}


} // verus!
