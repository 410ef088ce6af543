//! Character-level text primitives with their specifications.
use vstd::prelude::*;

verus! {

broadcast use vstd::string::group_string_axioms;

/// `String::push` appends one character.
pub assume_specification[ String::push ](s: &mut String, ch: char)
    ensures
        final(s)@ == old(s)@.push(ch),
;

/// The characters of an optional text.
pub open spec fn opt_view(o: Option<String>) -> Option<Seq<char>> {
    match o {
        Some(s) => Some(s@),
        None => None,
    }
}

/// A copy of an optional text.
pub fn clone_opt(o: &Option<String>) -> (r: Option<String>)
    ensures
        r == *o,
{
    match o {
        Some(s) => Some(s.clone()),
        None => None,
    }
}

/// The characters of `s`, in order.
pub fn chars_of(s: &str) -> (v: Vec<char>)
    ensures
        v@ == s@,
{
    let mut v: Vec<char> = Vec::new();
    for c in it: s.chars()
        invariant
            v@ == it.seq().take(it.index()),
            it.seq() == s@,
    {
        v.push(c);
    }
    v
}

/// A `String` holding exactly the characters of `v`.
pub fn string_of(v: &[char]) -> (s: String)
    ensures
        s@ == v@,
{
    let mut s = String::new();
    let mut i: usize = 0;
    while i < v.len()
        invariant
            i <= v@.len(),
            s@ == v@.take(i as int),
        decreases v@.len() - i,
    {
        s.push(v[i]);
        i = i + 1;
        assert(s@ =~= v@.take(i as int));
    }
    assert(v@.take(v@.len() as int) =~= v@);
    s
}

} // verus!

verus! {

/// Unicode `White_Space`, the set that `char::is_whitespace` tests.
pub open spec fn is_ws(c: char) -> bool {
    let u = c as u32;
    (0x9 <= u && u <= 0xd) || u == 0x20 || u == 0x85 || u == 0xa0 || u == 0x1680
        || (0x2000 <= u && u <= 0x200a) || u == 0x2028 || u == 0x2029 || u == 0x202f
        || u == 0x205f || u == 0x3000
}

pub fn is_whitespace(c: char) -> (b: bool)
    ensures
        b == is_ws(c),
{
    let u = c as u32;
    (0x9 <= u && u <= 0xd) || u == 0x20 || u == 0x85 || u == 0xa0 || u == 0x1680
        || (0x2000 <= u && u <= 0x200a) || u == 0x2028 || u == 0x2029 || u == 0x202f
        || u == 0x205f || u == 0x3000
}

/// `s` without its leading whitespace.
pub open spec fn trim_start(s: Seq<char>) -> Seq<char>
    decreases s.len(),
{
    if s.len() > 0 && is_ws(s[0]) {
        trim_start(s.drop_first())
    } else {
        s
    }
}

/// `s` without its trailing whitespace.
pub open spec fn trim_end(s: Seq<char>) -> Seq<char>
    decreases s.len(),
{
    if s.len() > 0 && is_ws(s.last()) {
        trim_end(s.drop_last())
    } else {
        s
    }
}

/// `s` without leading and trailing whitespace, as `str::trim` gives it.
pub open spec fn trim(s: Seq<char>) -> Seq<char> {
    trim_end(trim_start(s))
}

pub open spec fn starts_with(s: Seq<char>, p: Seq<char>) -> bool {
    p.len() <= s.len() && s.take(p.len() as int) == p
}

pub open spec fn ends_with(s: Seq<char>, p: Seq<char>) -> bool {
    p.len() <= s.len() && s.skip(s.len() - p.len()) == p
}

/// `p` occurs in `s` at position `i`.
pub open spec fn occurs_at(s: Seq<char>, p: Seq<char>, i: int) -> bool {
    0 <= i && i + p.len() <= s.len() && s.subrange(i, i + p.len()) == p
}

/// The first position at or after `i` at which `p` occurs in `s`.
pub open spec fn find_from(s: Seq<char>, p: Seq<char>, i: int) -> Option<int>
    decreases s.len() + 1 - i,
{
    if i < 0 || i + p.len() > s.len() {
        None
    } else if occurs_at(s, p, i) {
        Some(i)
    } else {
        find_from(s, p, i + 1)
    }
}

/// The first position at which `p` occurs in `s`, as `str::find` gives it.
pub open spec fn find(s: Seq<char>, p: Seq<char>) -> Option<int> {
    find_from(s, p, 0)
}

/// `p` occurs somewhere in `s`, as `str::contains` tests it.
pub open spec fn contains(s: Seq<char>, p: Seq<char>) -> bool {
    find(s, p) is Some
}

/// `find_from` gives the least position of an occurrence, if there is one.
pub proof fn lemma_find_from(s: Seq<char>, p: Seq<char>, i: int)
    requires
        0 <= i,
    ensures
        match find_from(s, p, i) {
            Some(k) => i <= k && occurs_at(s, p, k) && forall|j: int| i <= j < k ==> !occurs_at(s, p, j),
            None => forall|j: int| i <= j ==> !occurs_at(s, p, j),
        },
    decreases s.len() + 1 - i,
{
    if i + p.len() > s.len() {
    } else if occurs_at(s, p, i) {
    } else {
        lemma_find_from(s, p, i + 1);
    }
}

/// `contains` holds exactly when `p` occurs at some position.
pub proof fn lemma_contains(s: Seq<char>, p: Seq<char>)
    ensures
        contains(s, p) <==> exists|i: int| occurs_at(s, p, i),
        match find(s, p) {
            Some(k) => occurs_at(s, p, k) && forall|j: int| 0 <= j < k ==> !occurs_at(s, p, j),
            None => forall|j: int| !occurs_at(s, p, j),
        },
{
    lemma_find_from(s, p, 0);
    match find(s, p) {
        Some(k) => {}
        None => {
            assert forall|j: int| !occurs_at(s, p, j) by {
                if j >= 0 {
                }
            }
        }
    }
}

/// `s` with every trailing repetition of `p` removed, as `str::trim_end_matches` gives it.
pub open spec fn trim_end_matches(s: Seq<char>, p: Seq<char>) -> Seq<char>
    decreases s.len(),
{
    if p.len() > 0 && ends_with(s, p) {
        trim_end_matches(s.take(s.len() - p.len()), p)
    } else {
        s
    }
}

/// `s` with every leading repetition of the character `c` removed.
pub open spec fn trim_start_char(s: Seq<char>, c: char) -> Seq<char>
    decreases s.len(),
{
    if s.len() > 0 && s[0] == c {
        trim_start_char(s.drop_first(), c)
    } else {
        s
    }
}

pub proof fn lemma_trim_start_skip(s: Seq<char>, i: int)
    requires
        0 <= i <= s.len(),
        forall|k: int| 0 <= k < i ==> is_ws(#[trigger] s[k]),
    ensures
        trim_start(s) == trim_start(s.skip(i)),
    decreases i,
{
    if i > 0 {
        assert(is_ws(s[0]));
        lemma_trim_start_skip(s.drop_first(), i - 1);
        assert(s.drop_first().skip(i - 1) =~= s.skip(i));
    } else {
        assert(s.skip(0) =~= s);
    }
}

pub proof fn lemma_trim_end_take(s: Seq<char>, j: int)
    requires
        0 <= j <= s.len(),
        forall|k: int| j <= k < s.len() ==> is_ws(#[trigger] s[k]),
    ensures
        trim_end(s) == trim_end(s.take(j)),
    decreases s.len() - j,
{
    if j < s.len() {
        assert(is_ws(s.last()));
        lemma_trim_end_take(s.drop_last(), j);
        assert(s.drop_last().take(j) =~= s.take(j));
    } else {
        assert(s.take(j) =~= s);
    }
}

pub proof fn lemma_trim_start_char_skip(s: Seq<char>, c: char, i: int)
    requires
        0 <= i <= s.len(),
        forall|k: int| 0 <= k < i ==> #[trigger] s[k] == c,
    ensures
        trim_start_char(s, c) == trim_start_char(s.skip(i), c),
    decreases i,
{
    if i > 0 {
        lemma_trim_start_char_skip(s.drop_first(), c, i - 1);
        assert(s.drop_first().skip(i - 1) =~= s.skip(i));
    } else {
        assert(s.skip(0) =~= s);
    }
}

/// The characters of `v` without leading and trailing whitespace.
pub fn trim_chars(v: &[char]) -> (r: Vec<char>)
    ensures
        r@ == trim(v@),
{
    let n = v.len();
    let mut i: usize = 0;
    while i < n && is_whitespace(v[i])
        invariant
            n == v@.len(),
            i <= n,
            forall|k: int| 0 <= k < i ==> is_ws(#[trigger] v@[k]),
        decreases n - i,
    {
        i = i + 1;
    }
    proof {
        lemma_trim_start_skip(v@, i as int);
    }
    let ghost t = v@.skip(i as int);
    assert(i == n || !is_ws(t[0]));
    assert(trim_start(v@) == t);
    let mut j: usize = n;
    while j > i && is_whitespace(v[j - 1])
        invariant
            n == v@.len(),
            i <= j <= n,
            forall|k: int| j <= k < n ==> is_ws(#[trigger] v@[k]),
        decreases j,
    {
        j = j - 1;
    }
    proof {
        let m = (j - i) as int;
        assert forall|k: int| m <= k < t.len() implies is_ws(#[trigger] t[k]) by {
            assert(t[k] == v@[k + i]);
        }
        lemma_trim_end_take(t, m);
        assert(t.take(m) =~= v@.subrange(i as int, j as int));
        if m > 0 {
            assert(t.take(m).last() == v@[j - 1]);
        }
    }
    slice_range(v, i, j)
}

/// The characters `v[from..to]`.
pub fn slice_range(v: &[char], from: usize, to: usize) -> (r: Vec<char>)
    requires
        from <= to <= v@.len(),
    ensures
        r@ == v@.subrange(from as int, to as int),
{
    let mut r: Vec<char> = Vec::new();
    let mut k = from;
    while k < to
        invariant
            from <= k <= to <= v@.len(),
            r@ == v@.subrange(from as int, k as int),
        decreases to - k,
    {
        r.push(v[k]);
        k = k + 1;
        assert(r@ =~= v@.subrange(from as int, k as int));
    }
    r
}

/// Whether `v` ends with `p`.
pub fn ends_with_chars(v: &[char], p: &[char]) -> (b: bool)
    ensures
        b == ends_with(v@, p@),
{
    if p.len() > v.len() {
        return false;
    }
    let off = v.len() - p.len();
    let mut k: usize = 0;
    while k < p.len()
        invariant
            off + p@.len() == v@.len(),
            k <= p@.len(),
            forall|m: int| 0 <= m < k ==> v@[off + m] == p@[m],
        decreases p@.len() - k,
    {
        let n = v.len();
        assert(off + k < n);
        if v[off + k] != p[k] {
            assert(v@.skip(off as int)[k as int] != p@[k as int]);
            return false;
        }
        k = k + 1;
    }
    assert(v@.skip(off as int) =~= p@);
    true
}

/// Whether `v` starts with `p`.
pub fn starts_with_chars(v: &[char], p: &[char]) -> (b: bool)
    ensures
        b == starts_with(v@, p@),
{
    if p.len() > v.len() {
        return false;
    }
    let mut k: usize = 0;
    while k < p.len()
        invariant
            p@.len() <= v@.len(),
            k <= p@.len(),
            forall|m: int| 0 <= m < k ==> v@[m] == p@[m],
        decreases p@.len() - k,
    {
        if v[k] != p[k] {
            assert(v@.take(p@.len() as int)[k as int] != p@[k as int]);
            return false;
        }
        k = k + 1;
    }
    assert(v@.take(p@.len() as int) =~= p@);
    true
}

/// Whether `p` occurs in `v` at position `i`.
pub fn occurs_at_chars(v: &[char], p: &[char], i: usize) -> (b: bool)
    ensures
        b == occurs_at(v@, p@, i as int),
{
    if i > v.len() || p.len() > v.len() - i {
        return false;
    }
    let mut k: usize = 0;
    while k < p.len()
        invariant
            i + p@.len() <= v@.len(),
            k <= p@.len(),
            forall|m: int| 0 <= m < k ==> v@[i + m] == p@[m],
        decreases p@.len() - k,
    {
        let n = v.len();
        assert(i + k < n);
        if v[i + k] != p[k] {
            assert(v@.subrange(i as int, i + p@.len())[k as int] != p@[k as int]);
            return false;
        }
        k = k + 1;
    }
    assert(v@.subrange(i as int, i + p@.len()) =~= p@);
    true
}

/// The first position at which `p` occurs in `v`.
pub fn find_chars(v: &[char], p: &[char]) -> (r: Option<usize>)
    ensures
        match r {
            Some(i) => find(v@, p@) == Some(i as int),
            None => find(v@, p@) is None,
        },
{
    if p.len() > v.len() {
        return None;
    }
    let last = v.len() - p.len();
    let mut i: usize = 0;
    while i <= last
        invariant
            last + p@.len() == v@.len(),
            find(v@, p@) == find_from(v@, p@, i as int),
        decreases last + 1 - i,
    {
        if occurs_at_chars(v, p, i) {
            return Some(i);
        }
        if i == last {
            assert(find_from(v@, p@, i as int + 1) is None);
            return None;
        }
        i = i + 1;
    }
    None
}

/// Whether `p` occurs anywhere in `v`.
pub fn contains_chars(v: &[char], p: &[char]) -> (b: bool)
    ensures
        b == contains(v@, p@),
{
    match find_chars(v, p) {
        Some(_) => true,
        None => false,
    }
}

/// `v` with every trailing repetition of `p` removed.
pub fn trim_end_matches_chars(v: &[char], p: &[char]) -> (r: Vec<char>)
    ensures
        r@ == trim_end_matches(v@, p@),
{
    let mut end: usize = v.len();
    if p.len() == 0 {
        return slice_range(v, 0, end);
    }
    assert(v@.take(end as int) =~= v@);
    assert(v@.subrange(0, end as int) =~= v@);
    loop
        invariant
            end <= v@.len(),
            p@.len() > 0,
            trim_end_matches(v@, p@) == trim_end_matches(v@.take(end as int), p@),
        decreases end,
    {
        let cur = slice_range(v, 0, end);
        assert(cur@ == v@.take(end as int));
        if ends_with_chars(&cur, p) {
            let ghost before = v@.take(end as int);
            end = end - p.len();
            assert(before.take(before.len() - p@.len()) =~= v@.take(end as int));
        } else {
            return cur;
        }
    }
}

/// `v` with every leading repetition of `c` removed.
pub fn trim_start_char_chars(v: &[char], c: char) -> (r: Vec<char>)
    ensures
        r@ == trim_start_char(v@, c),
{
    let mut i: usize = 0;
    while i < v.len() && v[i] == c
        invariant
            i <= v@.len(),
            forall|k: int| 0 <= k < i ==> #[trigger] v@[k] == c,
        decreases v@.len() - i,
    {
        i = i + 1;
    }
    proof {
        lemma_trim_start_char_skip(v@, c, i as int);
    }
    slice_range(v, i, v.len())
}

} // verus!

verus! {

/// Length of the leading run of non-whitespace characters of `s`.
pub open spec fn non_ws_run(s: Seq<char>) -> nat
    decreases s.len(),
{
    if s.len() > 0 && !is_ws(s[0]) {
        1 + non_ws_run(s.drop_first())
    } else {
        0
    }
}

/// Length of the trailing run of non-whitespace characters of `s`.
pub open spec fn non_ws_tail(s: Seq<char>) -> nat
    decreases s.len(),
{
    if s.len() > 0 && !is_ws(s.last()) {
        1 + non_ws_tail(s.drop_last())
    } else {
        0
    }
}

/// The first whitespace-separated word of `s`, as `split_whitespace().next()` gives it.
pub open spec fn first_word(s: Seq<char>) -> Option<Seq<char>> {
    let t = trim_start(s);
    if t.len() == 0 {
        None
    } else {
        Some(t.take(non_ws_run(t) as int))
    }
}

/// The last whitespace-separated word of `s`, as `split_whitespace().last()` gives it.
pub open spec fn last_word(s: Seq<char>) -> Option<Seq<char>> {
    let t = trim_end(s);
    if t.len() == 0 {
        None
    } else {
        Some(t.skip(t.len() - non_ws_tail(t)))
    }
}

pub proof fn lemma_non_ws_run(s: Seq<char>, i: int)
    requires
        0 <= i <= s.len(),
        forall|k: int| 0 <= k < i ==> !is_ws(#[trigger] s[k]),
        i == s.len() || is_ws(s[i]),
    ensures
        non_ws_run(s) == i,
    decreases i,
{
    if i > 0 {
        lemma_non_ws_run(s.drop_first(), i - 1);
    }
}

pub proof fn lemma_non_ws_tail(s: Seq<char>, j: int)
    requires
        0 <= j <= s.len(),
        forall|k: int| j <= k < s.len() ==> !is_ws(#[trigger] s[k]),
        j == 0 || is_ws(s[j - 1]),
    ensures
        non_ws_tail(s) == s.len() - j,
    decreases s.len() - j,
{
    if j < s.len() {
        lemma_non_ws_tail(s.drop_last(), j);
    }
}

/// The first whitespace-separated word of `v`.
pub fn first_word_chars(v: &[char]) -> (r: Option<Vec<char>>)
    ensures
        match r {
            Some(w) => first_word(v@) == Some(w@),
            None => first_word(v@) is None,
        },
{
    let n = v.len();
    let mut i: usize = 0;
    while i < n && is_whitespace(v[i])
        invariant
            n == v@.len(),
            i <= n,
            forall|k: int| 0 <= k < i ==> is_ws(#[trigger] v@[k]),
        decreases n - i,
    {
        i = i + 1;
    }
    proof {
        lemma_trim_start_skip(v@, i as int);
    }
    let ghost t = v@.skip(i as int);
    assert(i == n || !is_ws(t[0]));
    assert(trim_start(v@) == t);
    if i == n {
        return None;
    }
    let mut j: usize = i;
    while j < n && !is_whitespace(v[j])
        invariant
            n == v@.len(),
            i <= j <= n,
            forall|k: int| i <= k < j ==> !is_ws(#[trigger] v@[k]),
        decreases n - j,
    {
        j = j + 1;
    }
    proof {
        assert forall|k: int| 0 <= k < j - i implies !is_ws(#[trigger] t[k]) by {
            assert(t[k] == v@[k + i]);
        }
        lemma_non_ws_run(t, (j - i) as int);
        assert(t.take((j - i) as int) =~= v@.subrange(i as int, j as int));
    }
    Some(slice_range(v, i, j))
}

/// The last whitespace-separated word of `v`.
pub fn last_word_chars(v: &[char]) -> (r: Option<Vec<char>>)
    ensures
        match r {
            Some(w) => last_word(v@) == Some(w@),
            None => last_word(v@) is None,
        },
{
    let n = v.len();
    let mut j: usize = n;
    while j > 0 && is_whitespace(v[j - 1])
        invariant
            n == v@.len(),
            j <= n,
            forall|k: int| j <= k < n ==> is_ws(#[trigger] v@[k]),
        decreases j,
    {
        j = j - 1;
    }
    proof {
        lemma_trim_end_take(v@, j as int);
    }
    let ghost t = v@.take(j as int);
    assert(trim_end(v@) == t);
    if j == 0 {
        return None;
    }
    let mut i: usize = j;
    while i > 0 && !is_whitespace(v[i - 1])
        invariant
            n == v@.len(),
            i <= j <= n,
            forall|k: int| i <= k < j ==> !is_ws(#[trigger] v@[k]),
        decreases i,
    {
        i = i - 1;
    }
    proof {
        assert forall|k: int| i <= k < t.len() implies !is_ws(#[trigger] t[k]) by {
            assert(t[k] == v@[k]);
        }
        lemma_non_ws_tail(t, i as int);
        assert(t.skip(i as int) =~= v@.subrange(i as int, j as int));
    }
    Some(slice_range(v, i, j))
}

/// A line without its `'\r'` terminator, if it has one.
pub open spec fn strip_cr(s: Seq<char>) -> Seq<char> {
    if s.len() > 0 && s.last() == '\r' {
        s.drop_last()
    } else {
        s
    }
}

/// The lines of `s`, as `str::lines` gives them: split at `'\n'`, each line
/// without a `'\r'` that stood before its `'\n'`, and no empty line after a
/// final `'\n'`.
pub open spec fn lines_of(s: Seq<char>) -> Seq<Seq<char>>
    decreases s.len(),
{
    if s.len() == 0 {
        Seq::empty()
    } else {
        match find(s, seq!['\n']) {
            Some(i) => if 0 <= i < s.len() {
                seq![strip_cr(s.take(i))] + lines_of(s.skip(i + 1))
            } else {
                seq![s]
            },
            None => seq![s],
        }
    }
}

/// The lines of `v`.
pub fn lines_chars(v: &[char]) -> (r: Vec<Vec<char>>)
    ensures
        r@.len() == lines_of(v@).len(),
        forall|k: int| 0 <= k < r@.len() ==> #[trigger] r@[k]@ == lines_of(v@)[k],
    decreases v@.len(),
{
    if v.len() == 0 {
        return Vec::new();
    }
    let nl = ['\n'];
    assert(nl@ =~= seq!['\n']);
    match find_chars(v, &nl) {
        Some(i) => {
            proof {
                lemma_contains(v@, seq!['\n']);
            }
            let mut line = slice_range(v, 0, i);
            if line.len() > 0 && line[line.len() - 1] == '\r' {
                line.pop();
            }
            assert(line@ =~= strip_cr(v@.take(i as int)));
            let rest = slice_range(v, i + 1, v.len());
            assert(rest@ =~= v@.skip(i as int + 1));
            let tail = lines_chars(&rest);
            let mut r: Vec<Vec<char>> = Vec::new();
            r.push(line);
            let mut k: usize = 0;
            let ghost want = lines_of(v@);
            assert(want =~= seq![strip_cr(v@.take(i as int))] + lines_of(rest@));
            while k < tail.len()
                invariant
                    k <= tail@.len(),
                    tail@.len() == lines_of(rest@).len(),
                    forall|m: int| 0 <= m < tail@.len() ==> #[trigger] tail@[m]@ == lines_of(rest@)[m],
                    r@.len() == k + 1,
                    r@[0]@ == strip_cr(v@.take(i as int)),
                    forall|m: int| 1 <= m < r@.len() ==> #[trigger] r@[m]@ == lines_of(rest@)[m - 1],
                decreases tail@.len() - k,
            {
                let w = slice_range(&tail[k], 0, tail[k].len());
                assert(w@ =~= tail@[k as int]@);
                r.push(w);
                k = k + 1;
            }
            r
        },
        None => {
            let mut r: Vec<Vec<char>> = Vec::new();
            r.push(slice_range(v, 0, v.len()));
            assert(v@.subrange(0, v@.len() as int) =~= v@);
            r
        },
    }
}

/// Whether `v` holds exactly the characters of `p`.
pub fn eq_chars(v: &[char], p: &[char]) -> (b: bool)
    ensures
        b == (v@ == p@),
{
    if v.len() != p.len() {
        return false;
    }
    let b = starts_with_chars(v, p);
    assert(v@.take(p@.len() as int) =~= v@);
    b
}

} // verus!

verus! {

pub proof fn lemma_trim_start_len(s: Seq<char>)
    ensures
        trim_start(s).len() <= s.len(),
    decreases s.len(),
{
    if s.len() > 0 && is_ws(s[0]) {
        lemma_trim_start_len(s.drop_first());
    }
}

pub proof fn lemma_trim_end_len(s: Seq<char>)
    ensures
        trim_end(s).len() <= s.len(),
    decreases s.len(),
{
    if s.len() > 0 && is_ws(s.last()) {
        lemma_trim_end_len(s.drop_last());
    }
}

pub proof fn lemma_trim_len(s: Seq<char>)
    ensures
        trim(s).len() <= s.len(),
{
    lemma_trim_start_len(s);
    lemma_trim_end_len(trim_start(s));
}

/// Removing a suffix that is present makes the text strictly shorter.
pub proof fn lemma_trim_end_matches_len(s: Seq<char>, p: Seq<char>)
    requires
        p.len() > 0,
        ends_with(s, p),
    ensures
        trim_end_matches(s, p).len() < s.len(),
    decreases s.len(),
{
    let shorter = s.take(s.len() - p.len());
    assert(trim_end_matches(s, p) == trim_end_matches(shorter, p));
    if ends_with(shorter, p) {
        lemma_trim_end_matches_len(shorter, p);
    } else {
        assert(trim_end_matches(shorter, p) == shorter);
    }
}

} // verus!

verus! {

pub open spec fn digit_char(d: nat) -> char
    recommends
        d < 10,
{
    ((d + 48) as u32) as char
}

/// The decimal digits of `n`, most significant first, without leading zeros.
pub open spec fn decimal(n: nat) -> Seq<char>
    decreases n,
{
    if n < 10 {
        seq![digit_char(n)]
    } else {
        decimal(n / 10).push(digit_char(n % 10))
    }
}

/// The decimal form of a signed number, with `-` before negative ones.
pub open spec fn signed_decimal(n: int) -> Seq<char> {
    if n < 0 {
        seq!['-'] + decimal((-n) as nat)
    } else {
        decimal(n as nat)
    }
}

fn digit_to_char(d: u64) -> (c: char)
    requires
        d < 10,
    ensures
        c == digit_char(d as nat),
{
    let b: u8 = (d as u8) + 48;
    let c = b as char;
    assert(c as u32 == b as u32);
    c
}

pub proof fn lemma_decimal_len(n: nat)
    ensures
        decimal(n).len() >= 1,
        n < 10 ==> decimal(n).len() == 1,
        n >= 10 ==> decimal(n).len() >= 2,
    decreases n,
{
    if n >= 10 {
        lemma_decimal_len(n / 10);
    }
}

/// The decimal digits of `n`.
pub fn u64_to_decimal(n: u64) -> (r: Vec<char>)
    ensures
        r@ == decimal(n as nat),
    decreases n,
{
    if n < 10 {
        let mut r = Vec::new();
        r.push(digit_to_char(n));
        assert(r@ =~= seq![digit_char(n as nat)]);
        r
    } else {
        let mut r = u64_to_decimal(n / 10);
        r.push(digit_to_char(n % 10));
        r
    }
}

/// The decimal form of `n`, with `-` before negative numbers.
pub fn i64_to_decimal(n: i64) -> (r: Vec<char>)
    ensures
        r@ == signed_decimal(n as int),
{
    if n < 0 {
        let m: u64 = if n == i64::MIN { 9223372036854775808u64 } else { (-n) as u64 };
        assert(m == -(n as int));
        let d = u64_to_decimal(m);
        let mut r = Vec::new();
        r.push('-');
        let mut k: usize = 0;
        while k < d.len()
            invariant
                k <= d@.len(),
                r@ == seq!['-'] + d@.take(k as int),
            decreases d@.len() - k,
        {
            r.push(d[k]);
            k = k + 1;
            assert(r@ =~= seq!['-'] + d@.take(k as int));
        }
        assert(d@.take(d@.len() as int) =~= d@);
        r
    } else {
        u64_to_decimal(n as u64)
    }
}

/// `s` followed by the characters of `v`.
pub fn push_chars(s: &mut String, v: &[char])
    ensures
        final(s)@ == old(s)@ + v@,
{
    let mut k: usize = 0;
    let ghost start = s@;
    while k < v.len()
        invariant
            k <= v@.len(),
            s@ == start + v@.take(k as int),
        decreases v@.len() - k,
    {
        s.push(v[k]);
        k = k + 1;
        assert(s@ =~= start + v@.take(k as int));
    }
    assert(v@.take(v@.len() as int) =~= v@);
}

/// `s` followed by the characters of `t`.
pub fn push_str(s: &mut String, t: &str)
    ensures
        final(s)@ == old(s)@ + t@,
{
    let v = chars_of(t);
    push_chars(s, &v);
}

/// A `String` holding the characters of `t`.
pub fn owned(t: &str) -> (s: String)
    ensures
        s@ == t@,
{
    let mut s = String::new();
    push_str(&mut s, t);
    assert(s@ =~= t@);
    s
}

/// The part of `s` between the first and the second occurrence of `p` (or
/// the end), as `s.split(p).nth(1)` gives it; `None` when `p` does not occur.
pub open spec fn split_second(s: Seq<char>, p: Seq<char>) -> Option<Seq<char>> {
    match find(s, p) {
        Some(i) => {
            let rest = s.skip(i + p.len());
            match find(rest, p) {
                Some(j) => Some(rest.take(j)),
                None => Some(rest),
            }
        },
        None => None,
    }
}

/// The part of `v` between the first and the second occurrence of `p`.
pub fn split_second_chars(v: &[char], p: &[char]) -> (r: Option<Vec<char>>)
    requires
        p@.len() > 0,
    ensures
        match r {
            Some(w) => split_second(v@, p@) == Some(w@),
            None => split_second(v@, p@) is None,
        },
{
    match find_chars(v, p) {
        Some(i) => {
            proof {
                lemma_contains(v@, p@);
            }
            let n = v.len();
            assert(i + p@.len() <= n);
            let rest = slice_range(v, i + p.len(), n);
            assert(rest@ =~= v@.skip(i + p@.len()));
            match find_chars(&rest, p) {
                Some(j) => {
                    proof {
                        lemma_contains(rest@, p@);
                    }
                    let w = slice_range(&rest, 0, j);
                    assert(w@ =~= rest@.take(j as int));
                    Some(w)
                },
                None => Some(rest),
            }
        },
        None => None,
    }
}

/// The last position of the character `c` in `s`, as `str::rfind` gives it.
pub open spec fn rfind_char(s: Seq<char>, c: char) -> Option<int>
    decreases s.len(),
{
    if s.len() == 0 {
        None
    } else if s.last() == c {
        Some(s.len() - 1)
    } else {
        rfind_char(s.drop_last(), c)
    }
}

pub fn rfind_char_chars(v: &[char], c: char) -> (r: Option<usize>)
    ensures
        match r {
            Some(i) => rfind_char(v@, c) == Some(i as int),
            None => rfind_char(v@, c) is None,
        },
{
    let mut j: usize = v.len();
    assert(v@.take(j as int) =~= v@);
    while j > 0
        invariant
            j <= v@.len(),
            rfind_char(v@, c) == rfind_char(v@.take(j as int), c),
        decreases j,
    {
        let ghost t = v@.take(j as int);
        assert(t.drop_last() =~= v@.take(j - 1));
        if v[j - 1] == c {
            return Some(j - 1);
        }
        j = j - 1;
    }
    None
}

} // verus!

verus! {

pub proof fn lemma_non_ws_run_le(s: Seq<char>)
    ensures
        non_ws_run(s) <= s.len(),
        s.len() > 0 && !is_ws(s[0]) ==> non_ws_run(s) >= 1,
    decreases s.len(),
{
    if s.len() > 0 && !is_ws(s[0]) {
        lemma_non_ws_run_le(s.drop_first());
    }
}

/// The whitespace-separated words of `s`, as `split_whitespace` gives them.
pub open spec fn words(s: Seq<char>) -> Seq<Seq<char>>
    decreases s.len(),
{
    if s.len() == 0 {
        Seq::empty()
    } else if is_ws(s[0]) {
        words(s.drop_first())
    } else {
        proof {
            lemma_non_ws_run_le(s);
        }
        let n = non_ws_run(s) as int;
        seq![s.take(n)] + words(s.skip(n))
    }
}

/// The texts of a list of character vectors.
pub open spec fn seqs_of(v: Seq<Vec<char>>) -> Seq<Seq<char>> {
    v.map_values(|w: Vec<char>| w@)
}

/// The whitespace-separated words of `v`.
pub fn words_chars(v: &[char]) -> (r: Vec<Vec<char>>)
    ensures
        seqs_of(r@) == words(v@),
{
    let n = v.len();
    let mut r: Vec<Vec<char>> = Vec::new();
    let mut i: usize = 0;
    assert(v@.skip(0) =~= v@);
    assert(seqs_of(r@) + words(v@) =~= words(v@));
    while i < n
        invariant
            n == v@.len(),
            i <= n,
            seqs_of(r@) + words(v@.skip(i as int)) == words(v@),
        decreases n - i,
    {
        let ghost before = v@.skip(i as int);
        if is_whitespace(v[i]) {
            assert(before.drop_first() =~= v@.skip(i + 1));
            i = i + 1;
        } else {
            let mut j: usize = i;
            while j < n && !is_whitespace(v[j])
                invariant
                    n == v@.len(),
                    i <= j <= n,
                    forall|k: int| i <= k < j ==> !is_ws(#[trigger] v@[k]),
                decreases n - j,
            {
                j = j + 1;
            }
            proof {
                assert forall|k: int| 0 <= k < j - i implies !is_ws(#[trigger] before[k]) by {
                    assert(before[k] == v@[i + k]);
                }
                lemma_non_ws_run(before, (j - i) as int);
                assert(before.skip((j - i) as int) =~= v@.skip(j as int));
                assert(before.take((j - i) as int) =~= v@.subrange(i as int, j as int));
            }
            let w = slice_range(v, i, j);
            let ghost old_r = seqs_of(r@);
            r.push(w);
            assert(seqs_of(r@) =~= old_r.push(w@));
            assert(seqs_of(r@) + words(v@.skip(j as int)) =~= old_r + words(before));
            i = j;
        }
    }
    assert(v@.skip(n as int) =~= Seq::<char>::empty());
    assert(seqs_of(r@) + words(v@.skip(n as int)) =~= seqs_of(r@));
    r
}

} // verus!
