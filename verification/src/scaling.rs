//! Scaling a decimal number by a power of two, digit by digit: the whole
//! bytes that a size such as "1.5MiB" stands for.
use vstd::prelude::*;
use crate::size::{digit_value, digits_value, is_digit, pow10, shifted_floor, shifted_floor_saturated, u64_max, min_nat};

verus! {

pub open spec fn pow2(n: nat) -> nat
    decreases n,
{
    if n == 0 {
        1
    } else {
        2 * pow2((n - 1) as nat)
    }
}

pub proof fn lemma_pow2_pos(n: nat)
    ensures
        pow2(n) >= 1,
    decreases n,
{
    if n > 0 {
        lemma_pow2_pos((n - 1) as nat);
    }
}

pub proof fn lemma_pow2_mono(a: nat, b: nat)
    requires
        a <= b,
    ensures
        pow2(a) <= pow2(b),
    decreases b,
{
    if a < b {
        lemma_pow2_mono(a, (b - 1) as nat);
        lemma_pow2_pos((b - 1) as nat);
    }
}

/// A digit string's value from its first digit and the rest.
pub proof fn lemma_digits_value_front(s: Seq<char>)
    requires
        s.len() > 0,
    ensures
        digits_value(s) == digit_value(s[0]) * pow10((s.len() - 1) as nat) + digits_value(s.drop_first()),
    decreases s.len(),
{
    if s.len() == 1 {
        assert(s.drop_first() =~= Seq::<char>::empty());
        assert(s.drop_last() =~= Seq::<char>::empty());
        assert(pow10(0) == 1);
        assert(digits_value(Seq::<char>::empty()) == 0);
        assert(s.last() == s[0]);
        assert(digits_value(s) == digits_value(s.drop_last()) * 10 + digit_value(s.last()));
        assert(digits_value(s) == digit_value(s[0]));
        assert(digit_value(s[0]) * pow10(0) == digit_value(s[0]));
    } else {
        let t = s.drop_last();
        lemma_digits_value_front(t);
        assert(t[0] == s[0]);
        assert(t.drop_first() =~= s.drop_first().drop_last());
        assert(s.drop_first().last() == s.last());
        let a = digit_value(s[0]);
        let n = (s.len() - 2) as nat;
        assert(pow10(n + 1) == 10 * pow10(n));
        let r = digits_value(t.drop_first());
        assert(digits_value(s) == digits_value(t) * 10 + digit_value(s.last()));
        assert(digits_value(s.drop_first()) == r * 10 + digit_value(s.last()));
        assert((a * pow10(n) + r) * 10 + digit_value(s.last()) == a * pow10(n + 1) + (r * 10 + digit_value(
            s.last(),
        ))) by (nonlinear_arith)
            requires pow10(n + 1) == 10 * pow10(n);
        assert(digits_value(t) == a * pow10(n) + r);
        assert((s.len() - 1) as nat == n + 1);
    }
}

/// A string of `n` decimal digits is worth less than `10^n`.
pub proof fn lemma_digits_value_bound(s: Seq<char>)
    requires
        forall|k: int| 0 <= k < s.len() ==> is_digit(#[trigger] s[k]),
    ensures
        digits_value(s) < pow10(s.len()),
    decreases s.len(),
{
    if s.len() == 0 {
        assert(pow10(0) == 1);
    } else {
        let t = s.drop_last();
        assert forall|k: int| 0 <= k < t.len() implies is_digit(#[trigger] t[k]) by {
            assert(t[k] == s[k]);
        }
        lemma_digits_value_bound(t);
        assert(is_digit(s[s.len() - 1]));
        assert(digit_value(s.last()) <= 9);
        assert(pow10(s.len()) == 10 * pow10(t.len()));
        assert(digits_value(t) * 10 + digit_value(s.last()) < 10 * pow10(t.len())) by (nonlinear_arith)
            requires digits_value(t) < pow10(t.len()), digit_value(s.last()) <= 9;
    }
}

/// Doubles the number that the digits of `v` spell, in place, keeping its
/// length; returns the digit carried out of the front (0 or 1).
fn double_in_place(v: &mut Vec<char>) -> (carry: u8)
    requires
        forall|k: int| 0 <= k < old(v)@.len() ==> is_digit(#[trigger] old(v)@[k]),
    ensures
        final(v)@.len() == old(v)@.len(),
        forall|k: int| 0 <= k < final(v)@.len() ==> is_digit(#[trigger] final(v)@[k]),
        carry <= 1,
        digits_value(final(v)@) + carry * pow10(old(v)@.len()) == 2 * digits_value(old(v)@),
{
    let ghost o = v@;
    let len = v.len();
    let mut c: u8 = 0;
    let mut i: usize = len;
    assert(v@.skip(len as int) =~= Seq::<char>::empty());
    assert(o.skip(len as int) =~= Seq::<char>::empty());
    assert(pow10(0) == 1);
    while i > 0
        invariant
            i <= len == v@.len() == o.len(),
            c <= 1,
            forall|k: int| 0 <= k < i ==> v@[k] == o[k],
            forall|k: int| 0 <= k < len ==> is_digit(#[trigger] v@[k]),
            forall|k: int| 0 <= k < len ==> is_digit(#[trigger] o[k]),
            digits_value(v@.skip(i as int)) + c * pow10((len - i) as nat) == 2 * digits_value(o.skip(i as int)),
        decreases i,
    {
        i = i - 1;
        let d: u32 = v[i] as u32 - '0' as u32;
        assert(is_digit(v@[i as int]));
        let x: u32 = 2 * d + c as u32;
        let nd: u32 = x % 10;
        let ghost before = v@;
        let ghost c_old = c;
        c = (x / 10) as u8;
        let ch = (nd as u8 + 48u8) as char;
        v.set(i, ch);
        proof {
            let p = pow10((len - i - 1) as nat);
            assert(pow10((len - i) as nat) == 10 * p);
            assert(v@.skip(i as int).drop_first() =~= before.skip(i + 1));
            assert(o.skip(i as int).drop_first() =~= o.skip(i + 1));
            lemma_digits_value_front(v@.skip(i as int));
            lemma_digits_value_front(o.skip(i as int));
            assert(v@.skip(i as int)[0] == ch);
            assert(o.skip(i as int)[0] == o[i as int]);
            assert(digit_value(ch) == nd);
            assert(digit_value(o[i as int]) == d);
            let w = digits_value(before.skip(i + 1));
            let old_rest = digits_value(o.skip(i + 1));
            assert(w + c_old * p == 2 * old_rest);
            assert(x == nd + 10 * c);
            assert((nd * p + w) + c * (10 * p) == 2 * (d * p + old_rest)) by (nonlinear_arith)
                requires
                    w + c_old * p == 2 * old_rest,
                    x == 2 * d + c_old,
                    x == nd + 10 * c;
        }
    }
    assert(v@.skip(0) =~= v@);
    assert(o.skip(0) =~= o);
    c
}

pub proof fn lemma_pow2_30()
    ensures
        pow2(10) == 1024,
        pow2(20) == 1048576,
        pow2(30) == 1073741824,
{
    reveal_with_fuel(pow2, 31);
}

pub proof fn lemma_pow10_add(a: nat, b: nat)
    ensures
        pow10(a + b) == pow10(a) * pow10(b),
    decreases a,
{
    if a > 0 {
        lemma_pow10_add((a - 1) as nat, b);
        assert(pow10(a + b) == 10 * pow10((a - 1 + b) as nat));
        assert(10 * (pow10((a - 1) as nat) * pow10(b)) == (10 * pow10((a - 1) as nat)) * pow10(b)) by (nonlinear_arith);
        assert(pow10(a) == 10 * pow10((a - 1) as nat));
    } else {
        assert(pow10(0) == 1);
        assert(a + b == b);
        assert(1 * pow10(b) == pow10(b));
    }
}

/// `v / 10^e` rounded down for `e > 0`; `v * 10^-e` for `e <= 0`.
pub open spec fn shift_down(v: nat, e: int) -> nat {
    if e <= 0 {
        v * pow10((-e) as nat)
    } else {
        v / pow10(e as nat)
    }
}

/// The whole part of `m` times the decimal number whose digits are `d` and
/// whose point stands after the first `p` of them (zeros are understood on
/// either side where `p` lies outside `0..=d.len()`).
pub open spec fn scaled_floor(d: Seq<char>, p: int, m: nat) -> nat {
    shift_down(digits_value(d) * m, d.len() - p)
}

/// A digit string's value from the digits before position `p` and those after it.
pub proof fn lemma_digits_split(d: Seq<char>, p: int)
    requires
        0 <= p <= d.len(),
    ensures
        digits_value(d) == digits_value(d.take(p)) * pow10((d.len() - p) as nat) + digits_value(d.skip(p)),
    decreases d.len(),
{
    if p == d.len() {
        assert(d.take(p) =~= d);
        assert(d.skip(p) =~= Seq::<char>::empty());
        assert(pow10(0) == 1);
        assert((d.len() - p) as nat == 0);
        assert(digits_value(d.skip(p)) == 0);
        assert(digits_value(d.take(p)) * pow10(0) == digits_value(d.take(p)));
    } else {
        let dl = d.drop_last();
        lemma_digits_split(dl, p);
        assert(dl.take(p) =~= d.take(p));
        assert(d.skip(p).drop_last() =~= dl.skip(p));
        assert(d.skip(p).last() == d.last());
        let a = digits_value(d.take(p));
        let l = (dl.len() - p) as nat;
        assert(pow10(l + 1) == 10 * pow10(l));
        assert((d.len() - p) as nat == l + 1);
        let r = digits_value(dl.skip(p));
        let z = digit_value(d.last());
        assert(digits_value(d.skip(p)) == r * 10 + z);
        assert(digits_value(d) == digits_value(dl) * 10 + z);
        assert((a * pow10(l) + r) * 10 + z == a * pow10(l + 1) + (r * 10 + z)) by (nonlinear_arith)
            requires pow10(l + 1) == 10 * pow10(l);
    }
}

/// The whole part of `2^k` times the fraction `0.f`: the first `k` binary
/// digits of the fraction, read as a number.
fn frac_times_pow2(f: &[char], k: u32) -> (r: u64)
    requires
        forall|i: int| 0 <= i < f@.len() ==> is_digit(#[trigger] f@[i]),
        k <= 30,
    ensures
        r as nat == (digits_value(f@) * pow2(k as nat)) / pow10(f@.len()),
        r < pow2(k as nat),
{
    let ghost len = f@.len();
    let ghost fv = digits_value(f@);
    let mut v: Vec<char> = crate::text::slice_range(f, 0, f.len());
    assert(v@ =~= f@);
    let mut acc: u64 = 0;
    let mut j: u32 = 0;
    proof {
        lemma_digits_value_bound(f@);
        lemma_pow2_30();
    }
    assert(pow2(0) == 1);
    assert(fv * pow2(0) == fv) by (nonlinear_arith)
        requires pow2(0) == 1;
    while j < k
        invariant
            j <= k <= 30,
            v@.len() == len,
            len == f@.len(),
            fv == digits_value(f@),
            pow2(30) == 1073741824,
            forall|i: int| 0 <= i < len ==> is_digit(#[trigger] v@[i]),
            acc as nat * pow10(len) + digits_value(v@) == fv * pow2(j as nat),
            digits_value(v@) < pow10(len),
            acc < pow2(j as nat),
        decreases k - j,
    {
        let ghost dv = digits_value(v@);
        let ghost a0 = acc as nat;
        let c = double_in_place(&mut v);
        proof {
            lemma_digits_value_bound(v@);
            assert(pow2(j as nat + 1) == 2 * pow2(j as nat));
            lemma_pow2_mono(j as nat + 1, 30);
            let t = pow10(len);
            let a = pow2(j as nat);
            assert((2 * a0 + c) * t + digits_value(v@) == fv * (2 * a)) by (nonlinear_arith)
                requires
                    a0 * t + dv == fv * a,
                    digits_value(v@) + c * t == 2 * dv;
        }
        acc = 2 * acc + c as u64;
        j = j + 1;
    }
    proof {
        crate::size::lemma_pow10_ge(len, 0);
        vstd::arithmetic::div_mod::lemma_fundamental_div_mod_converse(
            (fv * pow2(k as nat)) as int,
            pow10(len) as int,
            acc as int,
            digits_value(v@) as int,
        );
    }
    acc
}

/// `min(scaled_floor(d, p, 2^k), u64::MAX)`: the whole part of `2^k` times
/// the decimal number with digits `d` and the point after `p` of them,
/// saturated.
pub(crate) fn scaled_floor_saturated(d: &[char], p: i128, k: u32) -> (r: u64)
    requires
        forall|i: int| 0 <= i < d@.len() ==> is_digit(#[trigger] d@[i]),
        d@.len() <= usize::MAX,
        k <= 30,
    ensures
        r as nat == min_nat(scaled_floor(d@, p as int, pow2(k as nat)), u64_max()),
{
    let len = d.len();
    let ghost dv = digits_value(d@);
    let ghost m = pow2(k as nat);
    proof {
        lemma_pow2_30();
        lemma_pow2_pos(k as nat);
        lemma_pow2_mono(k as nat, 30);
    }
    let m_exec: u64 = pow2_exec(k);
    if p >= len as i128 {
        let i = shifted_floor_saturated(d, p);
        assert(i as u128 * m_exec as u128 <= 0xffff_ffff_ffff_ffff * 1073741824) by (nonlinear_arith)
            requires i <= 0xffff_ffff_ffff_ffff, m_exec <= 1073741824;
        let prod: u128 = i as u128 * m_exec as u128;
        proof {
            let x = shifted_floor(d@, p as int);
            let e = (p - len) as nat;
            if p == len as i128 {
                assert(d@.take(len as int) =~= d@);
                assert(pow10(0) == 1);
                assert(dv * pow10(0) == dv);
            }
            assert(x == dv * pow10(e));
            assert(scaled_floor(d@, p as int, m) == (dv * m) * pow10(e));
            assert((dv * m) * pow10(e) == x * m) by (nonlinear_arith)
                requires x == dv * pow10(e);
            if i < u64::MAX {
                assert(i == x);
            } else {
                assert(x * m >= x) by (nonlinear_arith)
                    requires m >= 1;
                assert(prod >= i) by (nonlinear_arith)
                    requires prod == i * m_exec, m_exec >= 1;
            }
        }
        if prod > u64::MAX as u128 {
            u64::MAX
        } else {
            prod as u64
        }
    } else if p >= 0 {
        let i = shifted_floor_saturated(d, p);
        let f = crate::text::slice_range(d, p as usize, len);
        assert(f@ =~= d@.skip(p as int));
        assert forall|j: int| 0 <= j < f@.len() implies is_digit(#[trigger] f@[j]) by {
            assert(f@[j] == d@[j + p]);
        }
        let fr = frac_times_pow2(&f, k);
        assert(i as u128 * m_exec as u128 <= 0xffff_ffff_ffff_ffff * 1073741824) by (nonlinear_arith)
            requires i <= 0xffff_ffff_ffff_ffff, m_exec <= 1073741824;
        let total: u128 = i as u128 * m_exec as u128 + fr as u128;
        proof {
            let pp = p as int;
            lemma_digits_split(d@, pp);
            let a = digits_value(d@.take(pp));
            let fv = digits_value(d@.skip(pp));
            let l = (len - pp) as nat;
            let t = pow10(l);
            crate::size::lemma_pow10_ge(l, 0);
            if pp == 0 {
                assert(d@.take(0) =~= Seq::<char>::empty());
            }
            assert(shifted_floor(d@, pp) == a);
            assert(f@.len() == l);
            let q = fr as nat;
            vstd::arithmetic::div_mod::lemma_fundamental_div_mod(((fv * m) as int), t as int);
            let rr = (fv * m) % t;
            assert(fv * m == t * q + rr);
            assert(dv * m == (a * m + q) * t + rr) by (nonlinear_arith)
                requires
                    dv == a * t + fv,
                    fv * m == t * q + rr;
            vstd::arithmetic::div_mod::lemma_fundamental_div_mod_converse(
                (dv * m) as int,
                t as int,
                (a * m + q) as int,
                rr as int,
            );
            assert(l > 0);
            assert(scaled_floor(d@, pp, m) == a * m + q);
            if i < u64::MAX {
                assert(i == a);
            } else {
                assert(a * m >= a) by (nonlinear_arith)
                    requires m >= 1;
                assert(total >= i) by (nonlinear_arith)
                    requires total == i * m_exec + fr, m_exec >= 1;
            }
        }
        if total > u64::MAX as u128 {
            u64::MAX
        } else {
            total as u64
        }
    } else if p <= -20 {
        proof {
            lemma_scaled_far_below(d@, p as int, m);
        }
        0
    } else {
        let acc = frac_times_pow2(d, k);
        let e: i128 = -p;
        proof {
            let l = d@.len();
            let ee = e as nat;
            lemma_pow10_add(l, ee);
            crate::size::lemma_pow10_ge(l, 0);
            crate::size::lemma_pow10_ge(ee, 0);
            vstd::arithmetic::div_mod::lemma_div_denominator((dv * m) as int, pow10(l) as int, pow10(ee) as int);
            assert(scaled_floor(d@, p as int, m) == (dv * m) / pow10(l + ee));
            assert(scaled_floor(d@, p as int, m) == acc as nat / pow10(ee));
            vstd::arithmetic::div_mod::lemma_div_is_ordered_by_denominator(acc as int, 1, pow10(ee) as int);
        }
        let pw = pow10_exec(e as u32);
        acc / pw
    }
}

/// Twenty places or more before the digits, less than a byte is left.
pub proof fn lemma_scaled_far_below(d: Seq<char>, p: int, m: nat)
    requires
        forall|i: int| 0 <= i < d.len() ==> is_digit(#[trigger] d[i]),
        1 <= m <= pow2(30),
        p <= -20,
    ensures
        scaled_floor(d, p, m) == 0,
{
    let dv = digits_value(d);
    let l = d.len();
    lemma_pow2_30();
    crate::size::lemma_pow10_20();
    lemma_digits_value_bound(d);
    let ee = (-p) as nat;
    lemma_pow10_add(l, ee);
    crate::size::lemma_pow10_ge(ee, 20);
    crate::size::lemma_pow10_ge(l, 0);
    assert(dv * m < pow10(l) * pow10(ee)) by (nonlinear_arith)
        requires
            dv < pow10(l),
            m <= 1073741824,
            pow10(ee) >= 100_000_000_000_000_000_000;
    vstd::arithmetic::div_mod::lemma_basic_div((dv * m) as int, pow10(l + ee) as int);
}

/// `2^k`.
fn pow2_exec(k: u32) -> (r: u64)
    requires
        k <= 30,
    ensures
        r == pow2(k as nat),
{
    let mut r: u64 = 1;
    let mut j: u32 = 0;
    proof {
        lemma_pow2_30();
    }
    while j < k
        invariant
            j <= k <= 30,
            r == pow2(j as nat),
            pow2(30) == 1073741824,
        decreases k - j,
    {
        proof {
            lemma_pow2_mono(j as nat + 1, 30);
            assert(pow2(j as nat + 1) == 2 * pow2(j as nat));
        }
        r = r * 2;
        j = j + 1;
    }
    r
}

/// `10^e`.
fn pow10_exec(e: u32) -> (r: u64)
    requires
        e <= 19,
    ensures
        r == pow10(e as nat),
{
    let mut r: u64 = 1;
    let mut j: u32 = 0;
    proof {
        reveal_with_fuel(pow10, 20);
    }
    assert(pow10(19) == 10_000_000_000_000_000_000);
    while j < e
        invariant
            j <= e <= 19,
            r == pow10(j as nat),
            pow10(19) == 10_000_000_000_000_000_000,
        decreases e - j,
    {
        proof {
            crate::size::lemma_pow10_ge(19, j as nat + 1);
            assert(pow10(j as nat + 1) == 10 * pow10(j as nat));
        }
        r = r * 10;
        j = j + 1;
    }
    r
}

/// Two decimal points far beyond the digits, or both far before them, give
/// the same saturated result.
pub proof fn lemma_scaled_far(d: Seq<char>, p: int, q: int, m: nat)
    requires
        forall|i: int| 0 <= i < d.len() ==> is_digit(#[trigger] d[i]),
        1 <= m <= pow2(30),
        (p <= -20 && q <= -20) || (p >= d.len() + 20 && q >= d.len() + 20),
    ensures
        min_nat(scaled_floor(d, p, m), u64_max()) == min_nat(scaled_floor(d, q, m), u64_max()),
{
    let dv = digits_value(d);
    let l = d.len();
    lemma_pow2_30();
    crate::size::lemma_pow10_20();
    if p <= -20 {
        lemma_scaled_far_below(d, p, m);
        lemma_scaled_far_below(d, q, m);
    } else {
        assert forall|e: int| e >= l + 20 implies min_nat(#[trigger] scaled_floor(d, e, m), u64_max())
            == if dv == 0 { 0 } else { u64_max() } by {
            let ee = (e - l) as nat;
            crate::size::lemma_pow10_ge(ee, 20);
            if dv == 0 {
                assert(dv * m * pow10(ee) == 0) by (nonlinear_arith)
                    requires dv == 0;
            } else {
                assert(dv * m * pow10(ee) >= pow10(ee)) by (nonlinear_arith)
                    requires dv >= 1, m >= 1;
            }
        }
        assert(min_nat(scaled_floor(d, p, m), u64_max()) == if dv == 0 { 0 } else { u64_max() });
        assert(min_nat(scaled_floor(d, q, m), u64_max()) == if dv == 0 { 0 } else { u64_max() });
    }
}

} // verus!
