//! Character-level building blocks: whitespace, trimming, case, search,
//! decimal rendering. Strings are modelled as `Seq<char>`.
use vstd::prelude::*;

verus! {

/// Appends one character to a string (`String::push`).
#[verifier::external_body]
pub(crate) fn push_char(s: &mut String, c: char)
    ensures
        final(s)@ == old(s)@.push(c),
{
    s.push(c);
}

/// The characters of a string slice, in order.
pub fn chars_of(s: &str) -> (v: Vec<char>)
    ensures
        v@ == s@,
{
    let mut v: Vec<char> = Vec::new();
    for c in it: s.chars()
        invariant
            v@ == it.seq().take(it.index() as int),
    {
        v.push(c);
    }
    v
}

/// A string holding exactly the given characters.
pub fn string_of(v: &[char]) -> (s: String)
    ensures
        s@ == v@,
{
    let mut s = String::new();
    let mut i: usize = 0;
    while i < v.len()
        invariant
            i <= v@.len(),
            s@ == v@.take(i as int),
        decreases v@.len() - i,
    {
        push_char(&mut s, v[i]);
        i += 1;
        assert(v@.take(i as int) =~= v@.take((i - 1) as int).push(v@[i - 1]));
    }
    assert(v@.take(v@.len() as int) =~= v@);
    s
}

/// A copy of `v[lo..hi]`.
pub fn slice_chars(v: &[char], lo: usize, hi: usize) -> (r: Vec<char>)
    requires
        lo <= hi <= v@.len(),
    ensures
        r@ == v@.subrange(lo as int, hi as int),
{
    let mut r: Vec<char> = Vec::new();
    let mut i: usize = lo;
    while i < hi
        invariant
            lo <= i <= hi <= v@.len(),
            r@ == v@.subrange(lo as int, i as int),
        decreases hi - i,
    {
        r.push(v[i]);
        i += 1;
        assert(r@ =~= v@.subrange(lo as int, i as int));
    }
    r
}

/// Appends all of `w` to `v`.
pub fn extend_chars(v: &mut Vec<char>, w: &[char])
    ensures
        final(v)@ == old(v)@ + w@,
{
    let mut i: usize = 0;
    while i < w.len()
        invariant
            i <= w@.len(),
            v@ == old(v)@ + w@.take(i as int),
        decreases w@.len() - i,
    {
        v.push(w[i]);
        i += 1;
        assert(v@ =~= old(v)@ + w@.take(i as int));
    }
    assert(w@.take(w@.len() as int) =~= w@);
}

/// Appends the characters of `s` to `v`.
pub fn extend_str(v: &mut Vec<char>, s: &str)
    ensures
        final(v)@ == old(v)@ + s@,
{
    let w = chars_of(s);
    extend_chars(v, w.as_slice());
}

/// Unicode `White_Space`, the property that `char::is_whitespace` reports.
pub open spec fn is_ws(c: char) -> bool {
    let u = c as u32;
    ||| 0x9 <= u <= 0xd
    ||| u == 0x20
    ||| u == 0x85
    ||| u == 0xa0
    ||| u == 0x1680
    ||| 0x2000 <= u <= 0x200a
    ||| u == 0x2028
    ||| u == 0x2029
    ||| u == 0x202f
    ||| u == 0x205f
    ||| u == 0x3000
}

pub fn is_whitespace(c: char) -> (r: bool)
    ensures
        r == is_ws(c),
{
    let u = c as u32;
    (0x9 <= u && u <= 0xd) || u == 0x20 || u == 0x85 || u == 0xa0 || u == 0x1680 || (0x2000 <= u
        && u <= 0x200a) || u == 0x2028 || u == 0x2029 || u == 0x202f || u == 0x205f || u == 0x3000
}

/// The characters that trimming functions strip.
#[derive(Clone, Copy, Debug, PartialEq, Eq)]
pub enum Strip {
    /// Unicode whitespace (`str::trim`).
    Whitespace,
    /// `-`, `_` and `.`, the separators around model-name fragments.
    Separators,
}

pub open spec fn strips(k: Strip, c: char) -> bool {
    match k {
        Strip::Whitespace => is_ws(c),
        Strip::Separators => c == '-' || c == '_' || c == '.',
    }
}

pub fn is_stripped(k: Strip, c: char) -> (r: bool)
    ensures
        r == strips(k, c),
{
    match k {
        Strip::Whitespace => is_whitespace(c),
        Strip::Separators => c == '-' || c == '_' || c == '.',
    }
}

/// `s` without its leading characters of class `k`.
pub open spec fn strip_start(k: Strip, s: Seq<char>) -> Seq<char>
    decreases s.len(),
{
    if s.len() > 0 && strips(k, s[0]) {
        strip_start(k, s.drop_first())
    } else {
        s
    }
}

/// `s` without its trailing characters of class `k`.
pub open spec fn strip_end(k: Strip, s: Seq<char>) -> Seq<char>
    decreases s.len(),
{
    if s.len() > 0 && strips(k, s.last()) {
        strip_end(k, s.drop_last())
    } else {
        s
    }
}

/// `s` without leading and trailing characters of class `k`.
pub open spec fn strip_both(k: Strip, s: Seq<char>) -> Seq<char> {
    strip_end(k, strip_start(k, s))
}

/// `str::trim_start`.
pub open spec fn trim_start(s: Seq<char>) -> Seq<char> {
    strip_start(Strip::Whitespace, s)
}

/// `str::trim_end`.
pub open spec fn trim_end(s: Seq<char>) -> Seq<char> {
    strip_end(Strip::Whitespace, s)
}

/// `str::trim`.
pub open spec fn trim(s: Seq<char>) -> Seq<char> {
    strip_both(Strip::Whitespace, s)
}

pub proof fn lemma_strip_start_skip(k: Strip, s: Seq<char>, n: int)
    requires
        0 <= n <= s.len(),
        forall|i: int| 0 <= i < n ==> strips(k, #[trigger] s[i]),
    ensures
        strip_start(k, s) == strip_start(k, s.subrange(n, s.len() as int)),
    decreases n,
{
    if n > 0 {
        assert(s.drop_first() =~= s.subrange(1, s.len() as int));
        let t = s.drop_first();
        assert forall|i: int| 0 <= i < n - 1 implies strips(k, #[trigger] t[i]) by {
            assert(t[i] == s[i + 1]);
        }
        lemma_strip_start_skip(k, t, n - 1);
        assert(t.subrange(n - 1, t.len() as int) =~= s.subrange(n, s.len() as int));
    } else {
        assert(s.subrange(0, s.len() as int) =~= s);
    }
}

pub proof fn lemma_strip_end_skip(k: Strip, s: Seq<char>, n: int)
    requires
        0 <= n <= s.len(),
        forall|i: int| n <= i < s.len() ==> strips(k, #[trigger] s[i]),
    ensures
        strip_end(k, s) == strip_end(k, s.subrange(0, n)),
    decreases s.len() - n,
{
    if n < s.len() {
        let t = s.drop_last();
        assert forall|i: int| n <= i < t.len() implies strips(k, #[trigger] t[i]) by {
            assert(t[i] == s[i]);
        }
        lemma_strip_end_skip(k, t, n);
        assert(t.subrange(0, n) =~= s.subrange(0, n));
    } else {
        assert(s.subrange(0, n) =~= s);
    }
}

proof fn lemma_strip_start_shape(k: Strip, s: Seq<char>) -> (n: int)
    ensures
        0 <= n <= s.len(),
        strip_start(k, s) == s.subrange(n, s.len() as int),
        n < s.len() ==> !strips(k, s[n]),
    decreases s.len(),
{
    if s.len() > 0 && strips(k, s[0]) {
        let m = lemma_strip_start_shape(k, s.drop_first());
        assert(s.drop_first().subrange(m, s.len() - 1) =~= s.subrange(m + 1, s.len() as int));
        m + 1
    } else {
        assert(s.subrange(0, s.len() as int) =~= s);
        0
    }
}

proof fn lemma_strip_end_shape(k: Strip, s: Seq<char>) -> (n: int)
    ensures
        0 <= n <= s.len(),
        strip_end(k, s) == s.subrange(0, n),
        n > 0 ==> !strips(k, s[n - 1]),
    decreases s.len(),
{
    if s.len() > 0 && strips(k, s.last()) {
        let m = lemma_strip_end_shape(k, s.drop_last());
        assert(s.drop_last().subrange(0, m) =~= s.subrange(0, m));
        m
    } else {
        assert(s.subrange(0, s.len() as int) =~= s);
        s.len() as int
    }
}

/// Stripping keeps a middle part of `s` that neither starts nor ends with a
/// character of class `k`.
pub proof fn lemma_strip_both_shape(k: Strip, s: Seq<char>)
    ensures
        is_subsequence(strip_both(k, s), s),
        strip_both(k, s).len() > 0 ==> !strips(k, strip_both(k, s)[0]) && !strips(
            k,
            strip_both(k, s).last(),
        ),
{
    let n1 = lemma_strip_start_shape(k, s);
    let t = s.subrange(n1, s.len() as int);
    let n2 = lemma_strip_end_shape(k, t);
    assert(t.subrange(0, n2) =~= s.subrange(n1, n1 + n2));
    lemma_subrange_subsequence(s, n1, n1 + n2);
    if n2 > 0 {
        assert(strip_both(k, s)[0] == s[n1]);
    }
}

/// Index of the first character of `v` outside class `k` (or its length).
pub fn strip_start_index(k: Strip, v: &[char]) -> (lo: usize)
    ensures
        lo <= v@.len(),
        strip_start(k, v@) == v@.subrange(lo as int, v@.len() as int),
{
    let mut lo: usize = 0;
    while lo < v.len() && is_stripped(k, v[lo])
        invariant
            lo <= v@.len(),
            forall|i: int| 0 <= i < lo ==> strips(k, #[trigger] v@[i]),
        decreases v@.len() - lo,
    {
        lo += 1;
    }
    proof {
        lemma_strip_start_skip(k, v@, lo as int);
        let t = v@.subrange(lo as int, v@.len() as int);
        if t.len() > 0 {
            assert(t[0] == v@[lo as int]);
        }
    }
    lo
}

/// One past the last character of `v[..hi]` outside class `k`.
pub fn strip_end_index(k: Strip, v: &[char], hi: usize) -> (e: usize)
    requires
        hi <= v@.len(),
    ensures
        e <= hi,
        strip_end(k, v@.subrange(0, hi as int)) == v@.subrange(0, e as int),
{
    let ghost s = v@.subrange(0, hi as int);
    let mut e: usize = hi;
    while e > 0 && is_stripped(k, v[e - 1])
        invariant
            e <= hi <= v@.len(),
            s == v@.subrange(0, hi as int),
            forall|i: int| e <= i < hi ==> strips(k, #[trigger] s[i]),
        decreases e,
    {
        e -= 1;
    }
    proof {
        lemma_strip_end_skip(k, s, e as int);
        let t = s.subrange(0, e as int);
        assert(t =~= v@.subrange(0, e as int));
        if t.len() > 0 {
            assert(t.last() == v@[e - 1]);
        }
    }
    e
}

/// Bounds of `strip_both(k, v)` inside `v`.
pub fn strip_bounds(k: Strip, v: &[char]) -> (r: (usize, usize))
    ensures
        r.0 <= r.1 <= v@.len(),
        strip_both(k, v@) == v@.subrange(r.0 as int, r.1 as int),
{
    let lo = strip_start_index(k, v);
    let tail = slice_chars(v, lo, v.len());
    let e = strip_end_index(k, tail.as_slice(), tail.len());
    assert(tail@.subrange(0, tail@.len() as int) =~= tail@);
    assert(tail@.subrange(0, e as int) =~= v@.subrange(lo as int, lo + e));
    (lo, lo + e)
}

/// The characters of `strip_both(k, v)`.
pub fn stripped(k: Strip, v: &[char]) -> (r: Vec<char>)
    ensures
        r@ == strip_both(k, v@),
{
    let (lo, hi) = strip_bounds(k, v);
    slice_chars(v, lo, hi)
}

/// The characters of `trim(v)`.
pub fn trimmed(v: &[char]) -> (r: Vec<char>)
    ensures
        r@ == trim(v@),
{
    stripped(Strip::Whitespace, v)
}

/// The characters of `trim_end(v)`.
pub fn trimmed_end(v: &[char]) -> (r: Vec<char>)
    ensures
        r@ == trim_end(v@),
{
    let e = strip_end_index(Strip::Whitespace, v, v.len());
    assert(v@.subrange(0, v@.len() as int) =~= v@);
    slice_chars(v, 0, e)
}

/// `p` occurs in `s` starting at index `i`.
pub open spec fn matches_at(s: Seq<char>, p: Seq<char>, i: int) -> bool {
    0 <= i && i + p.len() <= s.len() && s.subrange(i, i + p.len()) == p
}

/// `p` occurs somewhere in `s` (`str::contains`).
pub open spec fn contains_seq(s: Seq<char>, p: Seq<char>) -> bool {
    exists|i: int| matches_at(s, p, i)
}

/// `i` is the leftmost occurrence of `p` in `s`.
pub open spec fn is_first_match(s: Seq<char>, p: Seq<char>, i: int) -> bool {
    matches_at(s, p, i) && forall|j: int| 0 <= j < i ==> !matches_at(s, p, j)
}

/// Character index of the leftmost occurrence of `p` in `s` (`str::find`).
pub open spec fn find_seq(s: Seq<char>, p: Seq<char>) -> Option<int> {
    if exists|i: int| is_first_match(s, p, i) {
        Some(choose|i: int| is_first_match(s, p, i))
    } else {
        None
    }
}

pub proof fn lemma_first_match_unique(s: Seq<char>, p: Seq<char>, i: int)
    requires
        is_first_match(s, p, i),
    ensures
        find_seq(s, p) == Some(i),
{
    let k = choose|k: int| is_first_match(s, p, k);
    assert(is_first_match(s, p, k));
    if k < i {
        assert(!matches_at(s, p, k));
    }
    if i < k {
        assert(!matches_at(s, p, i));
    }
}

/// Does `p` occur at index `i` of `s`?
pub fn match_here(s: &[char], p: &[char], i: usize) -> (r: bool)
    ensures
        r == matches_at(s@, p@, i as int),
{
    let n = s.len();
    if i > n || p.len() > n - i {
        return false;
    }
    let mut k: usize = 0;
    while k < p.len()
        invariant
            n == s@.len(),
            i + p@.len() <= n,
            k <= p@.len(),
            forall|j: int| 0 <= j < k ==> s@[i + j] == p@[j],
        decreases p@.len() - k,
    {
        if s[i + k] != p[k] {
            assert(s@.subrange(i as int, i + p@.len())[k as int] != p@[k as int]);
            return false;
        }
        k += 1;
    }
    assert(s@.subrange(i as int, i + p@.len()) =~= p@);
    true
}

/// Leftmost occurrence of `p` in `s`.
pub fn find_chars(s: &[char], p: &[char]) -> (r: Option<usize>)
    ensures
        r matches Some(i) ==> find_seq(s@, p@) == Some(i as int) && is_first_match(
            s@,
            p@,
            i as int,
        ),
        r is None ==> find_seq(s@, p@) is None && !contains_seq(s@, p@),
{
    let n = s.len();
    let mut i: usize = 0;
    loop
        invariant
            n == s@.len(),
            i <= n,
            forall|j: int| 0 <= j < i ==> !matches_at(s@, p@, j),
        ensures
            forall|j: int| 0 <= j <= n ==> !matches_at(s@, p@, j),
        decreases n - i,
    {
        if match_here(s, p, i) {
            proof {
                lemma_first_match_unique(s@, p@, i as int);
            }
            return Some(i);
        }
        if i == n {
            break;
        }
        i += 1;
    }
    assert forall|j: int| !matches_at(s@, p@, j) by {
        if 0 <= j <= n {
        }
    }
    None
}

/// Does `p` occur in `s`?
pub fn contains_chars(s: &[char], p: &[char]) -> (r: bool)
    ensures
        r == contains_seq(s@, p@),
{
    match find_chars(s, p) {
        Some(i) => {
            proof {
                let k = choose|k: int| is_first_match(s@, p@, k);
                assert(matches_at(s@, p@, k));
            }
            true
        },
        None => false,
    }
}

// ---------------------------------------------------------------------------
// Subsequences

/// `idx` lists, in increasing order, positions of `s` that hold the
/// characters of `r` one by one.
pub open spec fn embeds(r: Seq<char>, s: Seq<char>, idx: Seq<int>) -> bool {
    &&& idx.len() == r.len()
    &&& forall|k: int| 0 <= k < r.len() ==> 0 <= #[trigger] idx[k] < s.len() && r[k] == s[idx[k]]
    &&& forall|a: int, b: int| 0 <= a < b < r.len() ==> #[trigger] idx[a] < #[trigger] idx[b]
}

/// `r` is `s` with some characters left out (the rest kept in order).
pub open spec fn is_subsequence(r: Seq<char>, s: Seq<char>) -> bool {
    exists|idx: Seq<int>| embeds(r, s, idx)
}

pub proof fn lemma_subsequence_trans(r: Seq<char>, m: Seq<char>, s: Seq<char>)
    requires
        is_subsequence(r, m),
        is_subsequence(m, s),
    ensures
        is_subsequence(r, s),
{
    let i1 = choose|idx: Seq<int>| embeds(r, m, idx);
    let i2 = choose|idx: Seq<int>| embeds(m, s, idx);
    let idx = Seq::new(r.len(), |k: int| i2[i1[k]]);
    assert forall|k: int| 0 <= k < r.len() implies 0 <= #[trigger] idx[k] < s.len() && r[k] == s[idx[k]] by {
        assert(0 <= i1[k] < m.len());
    }
    assert forall|a: int, b: int| 0 <= a < b < r.len() implies #[trigger] idx[a] < #[trigger] idx[b] by {
        assert(i1[a] < i1[b]);
        assert(0 <= i1[b] < m.len());
    }
    assert(embeds(r, s, idx));
}

pub proof fn lemma_subrange_subsequence(s: Seq<char>, lo: int, hi: int)
    requires
        0 <= lo <= hi <= s.len(),
    ensures
        is_subsequence(s.subrange(lo, hi), s),
{
    let r = s.subrange(lo, hi);
    let idx = Seq::new(r.len(), |k: int| lo + k);
    assert(embeds(r, s, idx));
}

/// `s` with the span `i..j` cut out is a subsequence of `s`.
pub proof fn lemma_cut_subsequence(s: Seq<char>, i: int, j: int)
    requires
        0 <= i <= j <= s.len(),
    ensures
        is_subsequence(s.take(i) + s.skip(j), s),
{
    let r = s.take(i) + s.skip(j);
    let idx = Seq::new(r.len(), |k: int| if k < i { k } else { k - i + j });
    assert(embeds(r, s, idx));
}

pub proof fn lemma_subsequence_refl(s: Seq<char>)
    ensures
        is_subsequence(s, s),
{
    lemma_subrange_subsequence(s, 0, s.len() as int);
    assert(s.subrange(0, s.len() as int) =~= s);
}

/// Every character of a subsequence occurs in the whole.
pub proof fn lemma_subsequence_chars(r: Seq<char>, s: Seq<char>, k: int)
    requires
        is_subsequence(r, s),
        0 <= k < r.len(),
    ensures
        s.contains(r[k]),
{
    let idx = choose|idx: Seq<int>| embeds(r, s, idx);
    assert(s[idx[k]] == r[k]);
}

/// The decimal digit character for `d < 10`.
pub open spec fn digit_char(d: nat) -> char {
    (('0' as u32) + d) as char
}

/// Decimal rendering of `n`, without leading zeros (`u64`'s `Display`).
pub open spec fn decimal(n: nat) -> Seq<char>
    decreases n,
{
    if n < 10 {
        seq![digit_char(n)]
    } else {
        decimal(n / 10).push(digit_char(n % 10))
    }
}

/// Appends the decimal rendering of `n`.
pub fn push_decimal(out: &mut Vec<char>, n: u64)
    ensures
        final(out)@ == old(out)@ + decimal(n as nat),
    decreases n,
{
    if n >= 10 {
        push_decimal(out, n / 10);
    }
    let d = (n % 10) as u8;
    let c = (48 + d) as char;
    out.push(c);
    assert(final(out)@ =~= old(out)@ + decimal(n as nat));
}


/// What `str::to_uppercase` returns for the given characters.
pub uninterp spec fn upper_case(s: Seq<char>) -> Seq<char>;

/// What `str::to_lowercase` returns for the given characters.
pub uninterp spec fn lower_case(s: Seq<char>) -> Seq<char>;

/// Every character is ASCII (`str::is_ascii`).
pub open spec fn is_ascii_chars(s: Seq<char>) -> bool {
    forall|i: int| 0 <= i < s.len() ==> (s[i] as u32) < 128
}

/// ASCII upper case of one character: `a`..`z` become `A`..`Z`, every
/// other character stays (`char::to_ascii_uppercase`).
pub open spec fn ascii_upper(c: char) -> char {
    if 97 <= (c as u32) <= 122 {
        ((c as u32) - 32) as char
    } else {
        c
    }
}

/// `ascii_upper` applied to each character.
pub open spec fn ascii_upper_seq(s: Seq<char>) -> Seq<char> {
    s.map_values(|c: char| ascii_upper(c))
}

/// `str::to_uppercase`: the Unicode upper case of the whole string. The
/// result is named; of it the contract states only what std documents for
/// ASCII text (`str::to_ascii_uppercase` points to `to_uppercase` as the
/// function that upper-cases ASCII letters as well): on an all-ASCII string
/// it is the ASCII upper case. Beyond ASCII nothing is stated.
#[verifier::external_body]
pub(crate) fn to_upper_case(s: &str) -> (r: String)
    ensures
        r@ == upper_case(s@),
        is_ascii_chars(s@) ==> r@ == ascii_upper_seq(s@),
{
    s.to_uppercase()
}

/// `crate::decimal::ascii_lower` applied to each character.
pub open spec fn ascii_lower_seq(s: Seq<char>) -> Seq<char> {
    s.map_values(|c: char| crate::decimal::ascii_lower(c))
}

/// `str::to_lowercase`: the Unicode lower case of the whole string. The
/// result is named; of it the contract states only what std documents for
/// ASCII text (`str::to_ascii_lowercase` points to `to_lowercase` as the
/// function that lower-cases ASCII letters as well): on an all-ASCII string
/// it is the ASCII lower case. Beyond ASCII nothing is stated.
#[verifier::external_body]
pub(crate) fn to_lower_case(s: &str) -> (r: String)
    ensures
        r@ == lower_case(s@),
        is_ascii_chars(s@) ==> r@ == ascii_lower_seq(s@),
{
    s.to_lowercase()
}

/// Number of bytes that UTF-8 spends on `c`.
pub open spec fn utf8_width(c: char) -> nat {
    let u = c as u32;
    if u < 0x80 {
        1
    } else if u < 0x800 {
        2
    } else if u < 0x10000 {
        3
    } else {
        4
    }
}

/// Number of UTF-8 bytes of `s`: a character index turned into a byte offset.
pub open spec fn utf8_len(s: Seq<char>) -> nat
    decreases s.len(),
{
    if s.len() == 0 {
        0
    } else {
        utf8_len(s.drop_last()) + utf8_width(s.last())
    }
}

pub fn char_utf8_width(c: char) -> (r: usize)
    ensures
        r == utf8_width(c),
{
    let u = c as u32;
    if u < 0x80 {
        1
    } else if u < 0x800 {
        2
    } else if u < 0x10000 {
        3
    } else {
        4
    }
}

/// Byte offset of character index `n` of `v`.
pub fn utf8_offset(v: &[char], n: usize) -> (r: u128)
    requires
        n <= v@.len(),
    ensures
        r == utf8_len(v@.take(n as int)),
        r <= 4 * n,
{
    let mut r: u128 = 0;
    let mut i: usize = 0;
    while i < n
        invariant
            i <= n <= v@.len(),
            r == utf8_len(v@.take(i as int)),
            r <= 4 * i,
        decreases n - i,
    {
        proof {
            assert(v@.take(i + 1).drop_last() =~= v@.take(i as int));
        }
        r = r + char_utf8_width(v[i]) as u128;
        i += 1;
    }
    r
}

// ---------------------------------------------------------------------------
// Byte offsets

/// The character index, from `m` on, at which the first `b` UTF-8 bytes of
/// `s` end; `None` when `b` falls inside a character or past the end.
pub open spec fn char_at_byte_from(s: Seq<char>, b: nat, m: int) -> Option<int>
    decreases s.len() + 1 - m,
{
    if m < 0 || m > s.len() {
        None
    } else if utf8_len(s.take(m)) == b {
        Some(m)
    } else if utf8_len(s.take(m)) > b {
        None
    } else {
        char_at_byte_from(s, b, m + 1)
    }
}

/// The character index at which the first `b` UTF-8 bytes of `s` end
/// (where `&s[b..]` starts); `None` when that slice would panic.
pub open spec fn char_at_byte(s: Seq<char>, b: nat) -> Option<int> {
    char_at_byte_from(s, b, 0)
}

pub fn char_index_of_byte(s: &[char], b: u128) -> (r: Option<usize>)
    ensures
        match r {
            Some(m) => char_at_byte(s@, b as nat) == Some(m as int) && m <= s@.len(),
            None => char_at_byte(s@, b as nat) is None,
        },
{
    let n = s.len();
    let mut m: usize = 0;
    let mut acc: u128 = 0;
    loop
        invariant
            n == s@.len(),
            m <= n,
            acc == utf8_len(s@.take(m as int)),
            acc <= 4 * m,
            char_at_byte(s@, b as nat) == char_at_byte_from(s@, b as nat, m as int),
        decreases n - m,
    {
        if acc == b {
            return Some(m);
        }
        if acc > b {
            return None;
        }
        if m == n {
            assert(char_at_byte_from(s@, b as nat, (m + 1) as int) is None);
            return None;
        }
        assert(s@.take(m + 1).drop_last() =~= s@.take(m as int));
        acc = acc + char_utf8_width(s[m]) as u128;
        m += 1;
    }
}

/// Longer prefixes take more UTF-8 bytes.
pub proof fn lemma_utf8_len_grows(s: Seq<char>, a: int, b: int)
    requires
        0 <= a < b <= s.len(),
    ensures
        utf8_len(s.take(a)) < utf8_len(s.take(b)),
    decreases b,
{
    assert(s.take(b).drop_last() =~= s.take(b - 1));
    if a < b - 1 {
        lemma_utf8_len_grows(s, a, b - 1);
    }
}

/// A character index found for a byte offset ends exactly that many bytes.
pub proof fn lemma_char_at_byte_ends(s: Seq<char>, b: nat)
    requires
        char_at_byte(s, b) is Some,
    ensures
        0 <= char_at_byte(s, b)->0 <= s.len(),
        utf8_len(s.take(char_at_byte(s, b)->0)) == b,
{
    lemma_char_at_byte_from_ends(s, b, 0);
}

proof fn lemma_char_at_byte_from_ends(s: Seq<char>, b: nat, k: int)
    requires
        char_at_byte_from(s, b, k) is Some,
    ensures
        0 <= k <= char_at_byte_from(s, b, k)->0 <= s.len(),
        utf8_len(s.take(char_at_byte_from(s, b, k)->0)) == b,
    decreases s.len() + 1 - k,
{
    if 0 <= k <= s.len() && utf8_len(s.take(k)) < b {
        lemma_char_at_byte_from_ends(s, b, k + 1);
    }
}

/// The character index where a byte offset falls is unique.
pub proof fn lemma_char_at_byte_found(s: Seq<char>, b: nat, m: int)
    requires
        0 <= m <= s.len(),
        utf8_len(s.take(m)) == b,
    ensures
        char_at_byte(s, b) == Some(m),
{
    assert forall|k: int| 0 <= k <= m implies char_at_byte_from(s, b, k) == Some(m) by {
        lemma_char_at_byte_from_found(s, b, m, k);
    }
}

proof fn lemma_char_at_byte_from_found(s: Seq<char>, b: nat, m: int, k: int)
    requires
        0 <= k <= m <= s.len(),
        utf8_len(s.take(m)) == b,
    ensures
        char_at_byte_from(s, b, k) == Some(m),
    decreases m - k,
{
    if k < m {
        lemma_utf8_len_grows(s, k, m);
        lemma_char_at_byte_from_found(s, b, m, k + 1);
    }
}


/// Do two strings hold the same characters?
pub fn str_equal(a: &str, b: &str) -> (r: bool)
    ensures
        r == (a@ == b@),
{
    let x = chars_of(a);
    let y = chars_of(b);
    if x.len() != y.len() {
        return false;
    }
    let mut i: usize = 0;
    while i < x.len()
        invariant
            x@ == a@,
            y@ == b@,
            x@.len() == y@.len(),
            i <= x@.len(),
            forall|j: int| 0 <= j < i ==> x@[j] == y@[j],
        decreases x@.len() - i,
    {
        if x[i] != y[i] {
            assert(x@[i as int] != y@[i as int]);
            return false;
        }
        i += 1;
    }
    assert(x@ =~= y@);
    true
}

/// A copy of a string (`String::clone`, whose contract vstd gives).
pub fn copy_string(s: &String) -> (r: String)
    ensures
        r@ == s@,
{
    s.clone()
}

} // verus!
