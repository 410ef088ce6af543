//! Whole numbers read from text as `str::parse` reads unsigned integers.
use vstd::prelude::*;
use crate::size::{digit_value, digits_value, is_ascii_digit, is_digit, lemma_digits_value_take};
use crate::text::chars_of;

verus! {

/// The digits of an unsigned number text: an optional `+`, then at least
/// one ASCII digit and nothing else.
pub open spec fn unsigned_digits(s: Seq<char>) -> Option<Seq<char>> {
    let d = unsigned_body(s);
    if d.len() > 0 && (forall|i: int| 0 <= i < d.len() ==> #[trigger] is_digit(d[i])) {
        Some(d)
    } else {
        None
    }
}

/// A number text without its leading `+`, if it has one.
pub open spec fn unsigned_body(s: Seq<char>) -> Seq<char> {
    if s.len() > 0 && s[0] == '+' {
        s.drop_first()
    } else {
        s
    }
}

/// The value of an unsigned number text that is at most `max`, as
/// `str::parse` gives it for an unsigned type whose largest value is `max`.
pub open spec fn parse_unsigned(s: Seq<char>, max: nat) -> Option<nat> {
    match unsigned_digits(s) {
        Some(d) => if digits_value(d) <= max {
            Some(digits_value(d))
        } else {
            None
        },
        None => None,
    }
}

/// A longer run of digits is worth at least as much as its prefix.
pub proof fn lemma_digits_value_prefix(d: Seq<char>, k: int)
    requires
        0 <= k <= d.len(),
    ensures
        digits_value(d.take(k)) <= digits_value(d),
    decreases d.len() - k,
{
    if k < d.len() {
        lemma_digits_value_take(d, k);
        lemma_digits_value_prefix(d, k + 1);
    } else {
        assert(d.take(k) =~= d);
    }
}

fn parse_unsigned_upto(v: &[char], max: u64) -> (r: Option<u64>)
    ensures
        match r {
            Some(x) => parse_unsigned(v@, max as nat) == Some(x as nat),
            None => parse_unsigned(v@, max as nat) is None,
        },
{
    let n = v.len();
    let start: usize = if n > 0 && v[0] == '+' { 1 } else { 0 };
    let ghost d = unsigned_body(v@);
    assert(d =~= v@.skip(start as int));
    if start == n {
        return None;
    }
    let mut acc: u64 = 0;
    let mut i: usize = start;
    assert(d.take(0) =~= Seq::<char>::empty());
    while i < n
        invariant
            start <= i <= n,
            n == v@.len(),
            start < n,
            d == v@.skip(start as int),
            d == unsigned_body(v@),
            forall|k: int| start <= k < i ==> #[trigger] is_digit(v@[k]),
            acc as nat == digits_value(d.take(i - start)),
            acc <= max,
        decreases n - i,
    {
        if !is_ascii_digit(v[i]) {
            assert(!is_digit(d[i - start]));
            return None;
        }
        let dig = (v[i] as u32 - 48) as u64;
        proof {
            lemma_digits_value_take(d, i - start);
            assert(d[i - start] == v@[i as int]);
            assert(digit_value(v@[i as int]) == dig);
        }
        let next: u128 = acc as u128 * 10 + dig as u128;
        if next > max as u128 {
            proof {
                lemma_digits_value_prefix(d, i - start + 1);
            }
            return None;
        }
        acc = next as u64;
        i = i + 1;
    }
    assert(d.take(n - start) =~= d);
    assert forall|k: int| 0 <= k < d.len() implies #[trigger] is_digit(d[k]) by {
        assert(d[k] == v@[start + k]);
    }
    Some(acc)
}

/// `s.parse::<u64>().ok()`.
pub fn parse_u64(s: &str) -> (r: Option<u64>)
    ensures
        match r {
            Some(x) => parse_unsigned(s@, u64::MAX as nat) == Some(x as nat),
            None => parse_unsigned(s@, u64::MAX as nat) is None,
        },
{
    let v = chars_of(s);
    parse_unsigned_upto(&v, u64::MAX)
}

/// `s.parse::<u32>().ok()`.
pub fn parse_u32(s: &str) -> (r: Option<u32>)
    ensures
        match r {
            Some(x) => parse_unsigned(s@, u32::MAX as nat) == Some(x as nat),
            None => parse_unsigned(s@, u32::MAX as nat) is None,
        },
{
    let v = chars_of(s);
    match parse_unsigned_upto(&v, u32::MAX as u64) {
        Some(x) => Some(x as u32),
        None => None,
    }
}

} // verus!
