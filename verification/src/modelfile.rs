//! Reading model names and the size/quantisation labels that Ollama reports.
use vstd::prelude::*;


use crate::decimal::{digit_of, float_literal, is_digit, is_float_literal};
use crate::text::{
    char_at_byte, char_index_of_byte, chars_of, contains_chars, contains_seq, extend_chars, find_chars, find_seq, matches_at, slice_chars,
    string_of, strip_both, stripped, to_upper_case, trim, trimmed, upper_case, utf8_len, utf8_offset,
    ascii_upper_seq, is_ascii_chars, is_subsequence, lemma_char_at_byte_ends, lemma_cut_subsequence,
    lemma_strip_both_shape, lemma_subsequence_chars, lemma_char_at_byte_found, strip_start, strip_end, is_first_match, lemma_first_match_unique, lemma_subsequence_refl, lemma_subsequence_trans,
    lemma_utf8_len_grows, strips, Strip,
};

verus! {

// ---------------------------------------------------------------------------
// Name fragments

/// The part of `s` after its last `c` (all of `s` when `c` does not occur).
pub open spec fn after_last(s: Seq<char>, c: char) -> Seq<char>
    decreases s.len(),
{
    if s.len() == 0 {
        s
    } else if s.last() == c {
        Seq::empty()
    } else {
        after_last(s.drop_last(), c).push(s.last())
    }
}

/// The part of `s` before its first `c` (all of `s` when `c` does not occur).
pub open spec fn before_first(s: Seq<char>, c: char) -> Seq<char>
    decreases s.len(),
{
    if s.len() == 0 {
        s
    } else if s[0] == c {
        Seq::empty()
    } else {
        seq![s[0]] + before_first(s.drop_first(), c)
    }
}

proof fn lemma_after_last(s: Seq<char>, c: char, i: int)
    requires
        0 <= i <= s.len(),
        forall|j: int| i <= j < s.len() ==> s[j] != c,
    ensures
        after_last(s, c) == after_last(s.take(i), c) + s.subrange(i, s.len() as int),
    decreases s.len() - i,
{
    if i < s.len() {
        let t = s.drop_last();
        lemma_after_last(t, c, i);
        assert(t.take(i) =~= s.take(i));
        assert(s.subrange(i, s.len() as int) =~= t.subrange(i, t.len() as int).push(s.last()));
    } else {
        assert(s.take(i) =~= s);
    }
}

proof fn lemma_before_first(s: Seq<char>, c: char, i: int)
    requires
        0 <= i <= s.len(),
        forall|j: int| 0 <= j < i ==> s[j] != c,
    ensures
        before_first(s, c) == s.take(i) + before_first(s.skip(i), c),
    decreases i,
{
    if i > 0 {
        let t = s.drop_first();
        lemma_before_first(t, c, i - 1);
        assert(s.take(i) =~= seq![s[0]] + t.take(i - 1));
        assert(t.skip(i - 1) =~= s.skip(i));
    } else {
        assert(s.skip(0) =~= s);
    }
}

/// `after_last(v, c)`.
pub fn chars_after_last(v: &[char], c: char) -> (r: Vec<char>)
    ensures
        r@ == after_last(v@, c),
        is_ascii_chars(v@) ==> is_ascii_chars(r@),
{
    let mut i: usize = v.len();
    while i > 0 && v[i - 1] != c
        invariant
            i <= v@.len(),
            forall|j: int| i <= j < v@.len() ==> v@[j] != c,
        decreases i,
    {
        i -= 1;
    }
    proof {
        lemma_after_last(v@, c, i as int);
        let t = v@.take(i as int);
        if i > 0 {
            assert(t.last() == c);
        }
        assert(after_last(t, c) =~= Seq::<char>::empty());
        assert(Seq::<char>::empty() + v@.subrange(i as int, v@.len() as int) =~= v@.subrange(
            i as int,
            v@.len() as int,
        ));
    }
    slice_chars(v, i, v.len())
}

/// `before_first(v, c)`.
pub fn chars_before_first(v: &[char], c: char) -> (r: Vec<char>)
    ensures
        r@ == before_first(v@, c),
        is_ascii_chars(v@) ==> is_ascii_chars(r@),
{
    let mut i: usize = 0;
    while i < v.len() && v[i] != c
        invariant
            i <= v@.len(),
            forall|j: int| 0 <= j < i ==> v@[j] != c,
        decreases v@.len() - i,
    {
        i += 1;
    }
    proof {
        lemma_before_first(v@, c, i as int);
        let t = v@.skip(i as int);
        if i < v@.len() {
            assert(t[0] == c);
        }
        assert(before_first(t, c) =~= Seq::<char>::empty());
        assert(v@.take(i as int) + Seq::<char>::empty() =~= v@.subrange(0, i as int));
    }
    slice_chars(v, 0, i)
}

/// `s` with the first occurrence of `p` cut out. `p` (ASCII, upper case)
/// is looked for in the Unicode upper case of `s`, and the cut is made at
/// the same UTF-8 byte offsets in `s`; when an offset does not fall on a
/// character boundary of `s`, `s` is kept whole.
#[verifier::opaque]
pub open spec fn drop_fragment(s: Seq<char>, p: Seq<char>) -> Seq<char> {
    let up = upper_case(s);
    match find_seq(up, p) {
        None => s,
        Some(k) => {
            let b = utf8_len(up.take(k));
            match char_at_byte(s, b) {
                None => s,
                Some(i) => match char_at_byte(s, b + utf8_len(p)) {
                    None => s,
                    Some(j) => s.take(i) + s.skip(j),
                },
            }
        },
    }
}

/// For ASCII text, cutting `p` out of `s`: the first occurrence of `p` in
/// the ASCII upper case of `s` is removed from `s` (nothing when there is
/// none).
pub open spec fn ascii_cut(s: Seq<char>, p: Seq<char>) -> Seq<char> {
    match find_seq(ascii_upper_seq(s), p) {
        None => s,
        Some(k) => s.take(k) + s.skip(k + p.len()),
    }
}

/// An ASCII string takes one UTF-8 byte per character.
proof fn lemma_utf8_len_ascii(s: Seq<char>)
    requires
        is_ascii_chars(s),
    ensures
        utf8_len(s) == s.len(),
    decreases s.len(),
{
    if s.len() > 0 {
        lemma_utf8_len_ascii(s.drop_last());
    }
}

fn drop_fragment_exec(s: Vec<char>, p: &str) -> (r: Vec<char>)
    ensures
        r@ == drop_fragment(s@, p@),
        is_ascii_chars(s@) && !contains_seq(ascii_upper_seq(s@), p@) ==> r@ == s@,
        is_ascii_chars(s@) ==> is_ascii_chars(r@),
        is_ascii_chars(s@) && is_ascii_chars(p@) ==> r@ == ascii_cut(s@, p@),
{
    proof {
        lemma_drop_fragment_subsequence(s@, p@);
        if is_ascii_chars(s@) {
            assert forall|k: int| 0 <= k < drop_fragment(s@, p@).len() implies (drop_fragment(s@, p@)[k] as u32)
                < 128 by {
                lemma_subsequence_chars(drop_fragment(s@, p@), s@, k);
            }
        }
    }
    reveal(drop_fragment);
    let text = string_of(s.as_slice());
    let up_text = to_upper_case(text.as_str());
    let up = chars_of(up_text.as_str());
    let pat = chars_of(p);
    match find_chars(up.as_slice(), pat.as_slice()) {
        None => s,
        Some(k) => {
            assert(matches_at(up@, pat@, k as int));
            let b = utf8_offset(up.as_slice(), k);
            let plen = utf8_offset(pat.as_slice(), pat.len());
            assert(pat@.take(pat@.len() as int) =~= pat@);
            proof {
                if is_ascii_chars(s@) && is_ascii_chars(p@) {
                    assert(is_ascii_chars(up@));
                    lemma_utf8_len_ascii(up@.take(k as int));
                    lemma_utf8_len_ascii(pat@);
                    lemma_utf8_len_ascii(s@.take(k as int));
                    lemma_utf8_len_ascii(s@.take(k + pat@.len()));
                    lemma_char_at_byte_found(s@, k as nat, k as int);
                    lemma_char_at_byte_found(s@, (k + pat@.len()) as nat, k + pat@.len());
                }
            }
            match char_index_of_byte(s.as_slice(), b) {
                None => s,
                Some(i) => match char_index_of_byte(s.as_slice(), b + plen) {
                    None => s,
                    Some(j) => {
                        let n = s.len();
                        let mut r = slice_chars(s.as_slice(), 0, i);
                        let tail = slice_chars(s.as_slice(), j, n);
                        extend_chars(&mut r, tail.as_slice());
                        assert(r@ =~= s@.take(i as int) + s@.skip(j as int));
                        r
                    },
                },
            }
        },
    }
}

/// Packaging fragments that are cut out of a model name, in the order they
/// are tried.
pub open spec fn without_packaging(s: Seq<char>) -> Seq<char> {
    let s = drop_fragment(s, "-GGUF"@);
    let s = drop_fragment(s, ".GGUF"@);
    let s = drop_fragment(s, "GGUF-"@);
    let s = drop_fragment(s, "GGUF."@);
    let s = drop_fragment(s, "-MXFP4"@);
    let s = drop_fragment(s, "MXFP4-"@);
    let s = drop_fragment(s, "MXFP-"@);
    let s = drop_fragment(s, "-MXFP"@);
    let s = drop_fragment(s, "-IQ"@);
    let s = drop_fragment(s, "-Q4"@);
    let s = drop_fragment(s, "-Q5"@);
    let s = drop_fragment(s, "-Q6"@);
    let s = drop_fragment(s, "-Q8"@);
    let s = drop_fragment(s, "-I1"@);
    let s = drop_fragment(s, "-V1"@);
    drop_fragment(s, "GGUF-"@)
}

/// The display name of a model: the last path segment, without its `:tag`,
/// without packaging fragments, and without separators at either end.
#[verifier::opaque]
pub open spec fn sanitized_name(name: Seq<char>) -> Seq<char> {
    strip_both(Strip::Separators, without_packaging(before_first(after_last(name, '/'), ':')))
}

/// `without_packaging` for ASCII text, where the upper case is the ASCII
/// one.
#[verifier::opaque]
pub open spec fn ascii_without_packaging(s: Seq<char>) -> Seq<char> {
    let s = ascii_cut(s, "-GGUF"@);
    let s = ascii_cut(s, ".GGUF"@);
    let s = ascii_cut(s, "GGUF-"@);
    let s = ascii_cut(s, "GGUF."@);
    let s = ascii_cut(s, "-MXFP4"@);
    let s = ascii_cut(s, "MXFP4-"@);
    let s = ascii_cut(s, "MXFP-"@);
    let s = ascii_cut(s, "-MXFP"@);
    let s = ascii_cut(s, "-IQ"@);
    let s = ascii_cut(s, "-Q4"@);
    let s = ascii_cut(s, "-Q5"@);
    let s = ascii_cut(s, "-Q6"@);
    let s = ascii_cut(s, "-Q8"@);
    let s = ascii_cut(s, "-I1"@);
    let s = ascii_cut(s, "-V1"@);
    ascii_cut(s, "GGUF-"@)
}

/// The last path segment of a model name, without its `:tag`.
pub open spec fn name_base(name: Seq<char>) -> Seq<char> {
    before_first(after_last(name, '/'), ':')
}

/// None of the packaging fragments occurs in `s`, letter case ignored.
pub open spec fn no_packaging_marker(s: Seq<char>) -> bool {
    let u = ascii_upper_seq(s);
    &&& !contains_seq(u, "-GGUF"@)
    &&& !contains_seq(u, ".GGUF"@)
    &&& !contains_seq(u, "GGUF-"@)
    &&& !contains_seq(u, "GGUF."@)
    &&& !contains_seq(u, "-MXFP4"@)
    &&& !contains_seq(u, "MXFP4-"@)
    &&& !contains_seq(u, "MXFP-"@)
    &&& !contains_seq(u, "-MXFP"@)
    &&& !contains_seq(u, "-IQ"@)
    &&& !contains_seq(u, "-Q4"@)
    &&& !contains_seq(u, "-Q5"@)
    &&& !contains_seq(u, "-Q6"@)
    &&& !contains_seq(u, "-Q8"@)
    &&& !contains_seq(u, "-I1"@)
    &&& !contains_seq(u, "-V1"@)
}

/// The packaging fragments cut out of a name's base, in order.
#[verifier::rlimit(40)]
fn cut_packaging(base: Vec<char>) -> (r: Vec<char>)
    ensures
        r@ == without_packaging(base@),
        is_ascii_chars(base@) && no_packaging_marker(base@) ==> r@ == base@,
        is_ascii_chars(base@) ==> r@ == ascii_without_packaging(base@),
{
    proof {
        reveal(ascii_without_packaging);
        assert(is_ascii_chars("-GGUF"@)) by {
            reveal_strlit("-GGUF");
        }
        assert(is_ascii_chars("-I1"@)) by {
            reveal_strlit("-I1");
        }
        assert(is_ascii_chars("-IQ"@)) by {
            reveal_strlit("-IQ");
        }
        assert(is_ascii_chars("-MXFP"@)) by {
            reveal_strlit("-MXFP");
        }
        assert(is_ascii_chars("-MXFP4"@)) by {
            reveal_strlit("-MXFP4");
        }
        assert(is_ascii_chars("-Q4"@)) by {
            reveal_strlit("-Q4");
        }
        assert(is_ascii_chars("-Q5"@)) by {
            reveal_strlit("-Q5");
        }
        assert(is_ascii_chars("-Q6"@)) by {
            reveal_strlit("-Q6");
        }
        assert(is_ascii_chars("-Q8"@)) by {
            reveal_strlit("-Q8");
        }
        assert(is_ascii_chars("-V1"@)) by {
            reveal_strlit("-V1");
        }
        assert(is_ascii_chars(".GGUF"@)) by {
            reveal_strlit(".GGUF");
        }
        assert(is_ascii_chars("GGUF-"@)) by {
            reveal_strlit("GGUF-");
        }
        assert(is_ascii_chars("GGUF."@)) by {
            reveal_strlit("GGUF.");
        }
        assert(is_ascii_chars("MXFP-"@)) by {
            reveal_strlit("MXFP-");
        }
        assert(is_ascii_chars("MXFP4-"@)) by {
            reveal_strlit("MXFP4-");
        }
    }
    let s = drop_fragment_exec(base, "-GGUF");
    let s = drop_fragment_exec(s, ".GGUF");
    let s = drop_fragment_exec(s, "GGUF-");
    let s = drop_fragment_exec(s, "GGUF.");
    let s = drop_fragment_exec(s, "-MXFP4");
    let s = drop_fragment_exec(s, "MXFP4-");
    let s = drop_fragment_exec(s, "MXFP-");
    let s = drop_fragment_exec(s, "-MXFP");
    let s = drop_fragment_exec(s, "-IQ");
    let s = drop_fragment_exec(s, "-Q4");
    let s = drop_fragment_exec(s, "-Q5");
    let s = drop_fragment_exec(s, "-Q6");
    let s = drop_fragment_exec(s, "-Q8");
    let s = drop_fragment_exec(s, "-I1");
    let s = drop_fragment_exec(s, "-V1");
    let s = drop_fragment_exec(s, "GGUF-");
    s
}

/// For a base `x + "-MXFP4"` or `x + "-MXFP4-GGUF"` with `x` a plain stem,
/// the base is ASCII and its display name is `x`.
proof fn lemma_plain_stem_display(b: Seq<char>, x: Seq<char>)
    requires
        plain_stem(x),
        b == x + "-MXFP4"@ || b == x + "-MXFP4-GGUF"@,
    ensures
        is_ascii_chars(b),
        strip_both(Strip::Separators, ascii_without_packaging(b)) == x,
{
    lemma_mxfp4_suffix_cut(x);
    let t = if b == x + "-MXFP4"@ {
        "-MXFP4"@
    } else {
        "-MXFP4-GGUF"@
    };
    assert(b == x + t);
    assert(is_ascii_chars(t)) by {
        reveal_strlit("-MXFP4");
        reveal_strlit("-MXFP4-GGUF");
    }
    assert forall|k: int| 0 <= k < b.len() implies (b[k] as u32) < 128 by {
        if k >= x.len() {
            assert(b[k] == t[k - x.len()]);
        } else {
            assert(b[k] == x[k]);
        }
    }
    assert(ascii_without_packaging(b) == x);
    assert(strip_start(Strip::Separators, x) == x);
    assert(strip_end(Strip::Separators, x) == x);
}

/// For a base made of a plain stem `x` and one fragment that ends names,
/// the base is ASCII and its display name is `x`.
proof fn lemma_fragment_display(b: Seq<char>, x: Seq<char>, k: int)
    requires
        plain_stem(x),
        0 <= k < suffix_fragments().len(),
        b == x + suffix_fragments()[k],
    ensures
        is_ascii_chars(b),
        strip_both(Strip::Separators, ascii_without_packaging(b)) == x,
{
    lemma_fragment_suffix_cut(x, k);
    let t = suffix_fragments()[k];
    assert(is_ascii_chars(t)) by {
        reveal_strlit("-GGUF");
        reveal_strlit(".GGUF");
        reveal_strlit("-MXFP4");
        reveal_strlit("-MXFP");
        reveal_strlit("-IQ");
        reveal_strlit("-Q4");
        reveal_strlit("-Q5");
        reveal_strlit("-Q6");
        reveal_strlit("-Q8");
        reveal_strlit("-I1");
        reveal_strlit("-V1");
    }
    assert forall|i: int| 0 <= i < b.len() implies (b[i] as u32) < 128 by {
        if i >= x.len() {
            assert(b[i] == t[i - x.len()]);
        } else {
            assert(b[i] == x[i]);
        }
    }
    assert(strip_start(Strip::Separators, x) == x);
    assert(strip_end(Strip::Separators, x) == x);
}

/// Display name of a model, e.g. `hf.co/org/Model-8B-GGUF:Q4_K_M` gives
/// `Model-8B`. Fragments are matched in the upper-cased name (see
/// `drop_fragment`).
pub fn sanitize_model_name(name: &str) -> (r: String)
    ensures
        r@ == sanitized_name(name@),
        is_ascii_chars(name@) && no_packaging_marker(name_base(name@)) ==> r@ == strip_both(
            Strip::Separators,
            name_base(name@),
        ),
        is_ascii_chars(name_base(name@)) ==> r@ == strip_both(
            Strip::Separators,
            ascii_without_packaging(name_base(name@)),
        ),
        forall|x: Seq<char>|
            #[trigger] plain_stem(x) && (name_base(name@) == x + "-MXFP4"@ || name_base(name@) == x
                + "-MXFP4-GGUF"@) ==> r@ == x,
        forall|x: Seq<char>, k: int|
            #[trigger] plain_stem(x) && 0 <= k < suffix_fragments().len() && name_base(name@) == x
                + #[trigger] suffix_fragments()[k] ==> r@ == x,
{
    reveal(sanitized_name);
    let all = chars_of(name);
    let part = chars_after_last(all.as_slice(), '/');
    let base = chars_before_first(part.as_slice(), ':');
    let s = cut_packaging(base);
    let clean = stripped(Strip::Separators, s.as_slice());
    let r = string_of(clean.as_slice());
    proof {
        assert forall|x: Seq<char>|
            #[trigger] plain_stem(x) && (name_base(name@) == x + "-MXFP4"@ || name_base(name@) == x
                + "-MXFP4-GGUF"@) implies r@ == x by {
            lemma_plain_stem_display(name_base(name@), x);
        }
        assert forall|x: Seq<char>, k: int|
            #[trigger] plain_stem(x) && 0 <= k < suffix_fragments().len() && name_base(name@) == x
                + #[trigger] suffix_fragments()[k] implies r@ == x by {
            lemma_fragment_display(name_base(name@), x, k);
        }
    }
    r
}

proof fn lemma_after_last_shape(s: Seq<char>, c: char) -> (n: int)
    ensures
        0 <= n <= s.len(),
        after_last(s, c) == s.subrange(n, s.len() as int),
        forall|k: int| n <= k < s.len() ==> s[k] != c,
    decreases s.len(),
{
    if s.len() == 0 {
        0
    } else if s.last() == c {
        assert(s.subrange(s.len() as int, s.len() as int) =~= Seq::<char>::empty());
        s.len() as int
    } else {
        let m = lemma_after_last_shape(s.drop_last(), c);
        assert(s.drop_last().subrange(m, s.len() - 1).push(s.last()) =~= s.subrange(m, s.len() as int));
        assert forall|k: int| m <= k < s.len() implies s[k] != c by {
            if k < s.len() - 1 {
                assert(s[k] == s.drop_last()[k]);
            }
        }
        m
    }
}

proof fn lemma_before_first_shape(s: Seq<char>, c: char) -> (n: int)
    ensures
        0 <= n <= s.len(),
        before_first(s, c) == s.subrange(0, n),
        forall|k: int| 0 <= k < n ==> s[k] != c,
    decreases s.len(),
{
    if s.len() == 0 {
        assert(s.subrange(0, 0) =~= s);
        0
    } else if s[0] == c {
        assert(s.subrange(0, 0) =~= Seq::<char>::empty());
        0
    } else {
        let m = lemma_before_first_shape(s.drop_first(), c);
        assert(seq![s[0]] + s.drop_first().subrange(0, m) =~= s.subrange(0, m + 1));
        assert forall|k: int| 0 <= k < m + 1 implies s[k] != c by {
            if k > 0 {
                assert(s[k] == s.drop_first()[k - 1]);
            }
        }
        m + 1
    }
}

/// Cutting a fragment out only leaves characters out.
proof fn lemma_drop_fragment_subsequence(s: Seq<char>, p: Seq<char>)
    ensures
        is_subsequence(drop_fragment(s, p), s),
{
    reveal(drop_fragment);
    lemma_subsequence_refl(s);
    let up = upper_case(s);
    match find_seq(up, p) {
        None => {},
        Some(k) => {
            let b = utf8_len(up.take(k));
            match char_at_byte(s, b) {
                None => {},
                Some(i) => match char_at_byte(s, b + utf8_len(p)) {
                    None => {},
                    Some(j) => {
                        lemma_char_at_byte_ends(s, b);
                        lemma_char_at_byte_ends(s, b + utf8_len(p));
                        if j < i {
                            lemma_utf8_len_grows(s, j, i);
                        }
                        lemma_cut_subsequence(s, i, j);
                    },
                },
            }
        },
    }
}

proof fn lemma_without_packaging_subsequence(s: Seq<char>)
    ensures
        is_subsequence(without_packaging(s), s),
{
    let s1 = drop_fragment(s, "-GGUF"@);
    lemma_drop_fragment_subsequence(s, "-GGUF"@);
    let s2 = drop_fragment(s1, ".GGUF"@);
    lemma_drop_fragment_subsequence(s1, ".GGUF"@);
    lemma_subsequence_trans(s2, s1, s);
    let s3 = drop_fragment(s2, "GGUF-"@);
    lemma_drop_fragment_subsequence(s2, "GGUF-"@);
    lemma_subsequence_trans(s3, s2, s);
    let s4 = drop_fragment(s3, "GGUF."@);
    lemma_drop_fragment_subsequence(s3, "GGUF."@);
    lemma_subsequence_trans(s4, s3, s);
    let s5 = drop_fragment(s4, "-MXFP4"@);
    lemma_drop_fragment_subsequence(s4, "-MXFP4"@);
    lemma_subsequence_trans(s5, s4, s);
    let s6 = drop_fragment(s5, "MXFP4-"@);
    lemma_drop_fragment_subsequence(s5, "MXFP4-"@);
    lemma_subsequence_trans(s6, s5, s);
    let s7 = drop_fragment(s6, "MXFP-"@);
    lemma_drop_fragment_subsequence(s6, "MXFP-"@);
    lemma_subsequence_trans(s7, s6, s);
    let s8 = drop_fragment(s7, "-MXFP"@);
    lemma_drop_fragment_subsequence(s7, "-MXFP"@);
    lemma_subsequence_trans(s8, s7, s);
    let s9 = drop_fragment(s8, "-IQ"@);
    lemma_drop_fragment_subsequence(s8, "-IQ"@);
    lemma_subsequence_trans(s9, s8, s);
    let s10 = drop_fragment(s9, "-Q4"@);
    lemma_drop_fragment_subsequence(s9, "-Q4"@);
    lemma_subsequence_trans(s10, s9, s);
    let s11 = drop_fragment(s10, "-Q5"@);
    lemma_drop_fragment_subsequence(s10, "-Q5"@);
    lemma_subsequence_trans(s11, s10, s);
    let s12 = drop_fragment(s11, "-Q6"@);
    lemma_drop_fragment_subsequence(s11, "-Q6"@);
    lemma_subsequence_trans(s12, s11, s);
    let s13 = drop_fragment(s12, "-Q8"@);
    lemma_drop_fragment_subsequence(s12, "-Q8"@);
    lemma_subsequence_trans(s13, s12, s);
    let s14 = drop_fragment(s13, "-I1"@);
    lemma_drop_fragment_subsequence(s13, "-I1"@);
    lemma_subsequence_trans(s14, s13, s);
    let s15 = drop_fragment(s14, "-V1"@);
    lemma_drop_fragment_subsequence(s14, "-V1"@);
    lemma_subsequence_trans(s15, s14, s);
    let s16 = drop_fragment(s15, "GGUF-"@);
    lemma_drop_fragment_subsequence(s15, "GGUF-"@);
    lemma_subsequence_trans(s16, s15, s);
}

/// The display name is the name's base with some characters left out: so
/// it holds no `/` and no `:`, and it neither starts nor ends with `-`, `_`
/// or `.`.
pub proof fn lemma_sanitized_name_shape(name: Seq<char>)
    ensures
        is_subsequence(sanitized_name(name), name_base(name)),
        forall|k: int|
            0 <= k < sanitized_name(name).len() ==> #[trigger] sanitized_name(name)[k] != '/'
                && sanitized_name(name)[k] != ':',
        sanitized_name(name).len() > 0 ==> !strips(Strip::Separators, sanitized_name(name)[0])
            && !strips(Strip::Separators, sanitized_name(name).last()),
{
    reveal(sanitized_name);
    let part = after_last(name, '/');
    let base = name_base(name);
    let n1 = lemma_after_last_shape(name, '/');
    let n2 = lemma_before_first_shape(part, ':');
    let w = without_packaging(base);
    let r = sanitized_name(name);
    lemma_without_packaging_subsequence(base);
    lemma_strip_both_shape(Strip::Separators, w);
    lemma_subsequence_trans(r, w, base);
    assert forall|k: int| 0 <= k < r.len() implies #[trigger] r[k] != '/' && r[k] != ':' by {
        lemma_subsequence_chars(r, base, k);
        let j = choose|j: int| 0 <= j < base.len() && base[j] == r[k];
        assert(base[j] == part[j]);
        assert(part[j] == name[n1 + j]);
    }
}

// ---------------------------------------------------------------------------
// Parameter counts

/// The upper-cased, trimmed label that the parsers read.
pub open spec fn label(s: Seq<char>) -> Seq<char> {
    upper_case(trim(s))
}

/// The unit a parameter-size label counts in.
#[derive(Clone, Copy, Debug, PartialEq, Eq)]
pub enum SizeUnit {
    /// `B`: billions.
    Billion,
    /// `M`: millions.
    Million,
}

/// The number of a parameter-size label such as `7B`, `1.7B` or `135M`, and
/// its unit: the text before the first `B` when `f64::from_str` accepts it,
/// else the text before the first `M` when it accepts that.
pub open spec fn size_parts(s: Seq<char>) -> Option<(Seq<char>, SizeUnit)> {
    let by_b = match find_seq(s, seq!['B']) {
        Some(i) => if is_float_literal(s.take(i)) {
            Some((s.take(i), SizeUnit::Billion))
        } else {
            None
        },
        None => None,
    };
    if by_b is Some {
        by_b
    } else {
        match find_seq(s, seq!['M']) {
            Some(i) => if is_float_literal(s.take(i)) {
                Some((s.take(i), SizeUnit::Million))
            } else {
                None
            },
            None => None,
        }
    }
}

/// The text of a number and its unit.
pub open spec fn parts_view(o: Option<(String, SizeUnit)>) -> Option<(Seq<char>, SizeUnit)> {
    match o {
        Some((n, u)) => Some((n@, u)),
        None => None,
    }
}

fn label_chars(s: &str) -> (r: Vec<char>)
    ensures
        r@ == label(s@),
        is_ascii_chars(s@) ==> r@ == ascii_upper_seq(trim(s@)),
{
    let v = chars_of(s);
    let t = trimmed(v.as_slice());
    proof {
        if is_ascii_chars(s@) {
            lemma_strip_both_shape(Strip::Whitespace, s@);
            assert forall|k: int| 0 <= k < t@.len() implies (t@[k] as u32) < 128 by {
                lemma_subsequence_chars(t@, s@, k);
            }
        }
    }
    let ts = string_of(t.as_slice());
    let u = to_upper_case(ts.as_str());
    chars_of(u.as_str())
}

fn number_before(s: &[char], mark: char) -> (r: Option<Vec<char>>)
    ensures
        match r {
            Some(n) => find_seq(s@, seq![mark]) matches Some(i) && n@ == s@.take(i) && is_float_literal(n@),
            None => match find_seq(s@, seq![mark]) {
                Some(i) => !is_float_literal(s@.take(i)),
                None => true,
            },
        },
{
    let m = vec![mark];
    assert(m@ =~= seq![mark]);
    match find_chars(s, m.as_slice()) {
        Some(i) => {
            assert(matches_at(s@, m@, i as int));
            let head = slice_chars(s, 0, i);
            assert(head@ =~= s@.take(i as int));
            if float_literal(head.as_slice()) {
                Some(head)
            } else {
                None
            }
        },
        None => None,
    }
}

/// The number and unit of a parameter-size label (`"7B"` gives `7` and
/// billions): the label is trimmed and upper-cased first (see `size_parts`).
/// The count itself, the number read as an `f64` times the unit, is computed
/// in floating point by the caller.
pub fn parameter_size_parts(size_str: &str) -> (r: Option<(String, SizeUnit)>)
    ensures
        match r {
            Some((n, u)) => size_parts(label(size_str@)) == Some((n@, u)),
            None => size_parts(label(size_str@)) is None,
        },
{
    let s = label_chars(size_str);
    match number_before(s.as_slice(), 'B') {
        Some(n) => Some((string_of(n.as_slice()), SizeUnit::Billion)),
        None => match number_before(s.as_slice(), 'M') {
            Some(n) => Some((string_of(n.as_slice()), SizeUnit::Million)),
            None => None,
        },
    }
}

// ---------------------------------------------------------------------------
// Quantisation

/// Quantisation names and their bits per weight, in hundredths of a bit, in
/// the order in which they are tried.
pub open spec fn quant_tokens() -> Seq<(&'static str, u32)> {
    seq![
        ("F32", 3200u32),
        ("F16", 1600u32),
        ("BF16", 1600u32),
        ("Q8_0", 850u32),
        ("Q6_K", 660u32),
        ("Q5_K_M", 550u32),
        ("Q5_K_S", 550u32),
        ("Q5_0", 550u32),
        ("Q5_1", 550u32),
        ("Q4_K_M", 450u32),
        ("Q4_K_S", 450u32),
        ("Q4_0", 450u32),
        ("Q4_1", 450u32),
        ("Q3_K_L", 350u32),
        ("Q3_K_M", 350u32),
        ("Q3_K_S", 350u32),
        ("Q2_K", 260u32),
        ("IQ4_NL", 450u32),
        ("IQ4_XS", 425u32),
        ("IQ3_M", 370u32),
        ("IQ3_S", 350u32),
        ("IQ3_XXS", 300u32),
        ("IQ2_M", 270u32),
        ("IQ2_S", 250u32),
        ("IQ2_XS", 230u32),
        ("IQ2_XXS", 210u32),
        ("IQ1_M", 170u32),
        ("IQ1_S", 150u32),
        ("MXFP4", 400u32),
    ]
}

/// The bits of the first token (from index `i` on) that occurs in `s`.
pub open spec fn first_token(s: Seq<char>, toks: Seq<(&'static str, u32)>, i: int) -> Option<u32>
    decreases toks.len() - i,
{
    if i < 0 || i >= toks.len() {
        None
    } else if contains_seq(s, toks[i].0@) {
        Some(toks[i].1)
    } else {
        first_token(s, toks, i + 1)
    }
}

/// The fallback rule: the character at the *byte* offset of the first `Q`,
/// plus one, read as a single decimal digit `d` gives `d + 0.5` bits.
pub open spec fn digit_after_q(s: Seq<char>) -> Option<u32> {
    match find_seq(s, seq!['Q']) {
        None => None,
        Some(j) => {
            let pos = utf8_len(s.take(j)) as int;
            if pos + 1 < s.len() && is_digit(s[pos + 1]) && (pos + 2 >= s.len() || !is_digit(
                s[pos + 2],
            )) {
                Some((digit_of(s[pos + 1]) * 100 + 50) as u32)
            } else {
                None
            }
        },
    }
}

/// Bits per weight (in hundredths of a bit) that a quantisation label denotes.
pub open spec fn quant_bits(s: Seq<char>) -> Option<u32> {
    match first_token(s, quant_tokens(), 0) {
        Some(b) => Some(b),
        None => digit_after_q(s),
    }
}

fn digit_after_q_exec(s: &[char]) -> (r: Option<u32>)
    ensures
        r == digit_after_q(s@),
{
    let q = vec!['Q'];
    assert(q@ =~= seq!['Q']);
    match find_chars(s, q.as_slice()) {
        None => None,
        Some(j) => {
            assert(matches_at(s@, q@, j as int));
            let n = s.len();
            let pos = utf8_offset(s, j);
            if pos + 1 < n as u128 {
                let p1 = (pos + 1) as usize;
                let c = s[p1];
                if '0' <= c && c <= '9' {
                    let single = if pos + 2 < n as u128 {
                        let c2 = s[p1 + 1];
                        !('0' <= c2 && c2 <= '9')
                    } else {
                        true
                    };
                    if single {
                        let d = (c as u32) - 48;
                        return Some(d * 100 + 50);
                    }
                }
            }
            None
        },
    }
}

/// Bits per weight of a quantisation label, in hundredths of a bit:
/// `"Q4_K_M"` gives 450 (4.5 bits), `"model:Q5"` gives 550. The label is
/// trimmed and upper-cased first; known names are looked for anywhere in it,
/// in table order, and otherwise a single digit after the first `Q` is read.
pub fn parse_quantization_bits(quant_str: &str) -> (r: Option<u32>)
    ensures
        r == quant_bits(label(quant_str@)),
        is_ascii_chars(quant_str@) ==> r == quant_bits(ascii_upper_seq(trim(quant_str@))),
{
    let s = label_chars(quant_str);
    let tokens: [(&'static str, u32); 29] = [
        ("F32", 3200u32),
        ("F16", 1600u32),
        ("BF16", 1600u32),
        ("Q8_0", 850u32),
        ("Q6_K", 660u32),
        ("Q5_K_M", 550u32),
        ("Q5_K_S", 550u32),
        ("Q5_0", 550u32),
        ("Q5_1", 550u32),
        ("Q4_K_M", 450u32),
        ("Q4_K_S", 450u32),
        ("Q4_0", 450u32),
        ("Q4_1", 450u32),
        ("Q3_K_L", 350u32),
        ("Q3_K_M", 350u32),
        ("Q3_K_S", 350u32),
        ("Q2_K", 260u32),
        ("IQ4_NL", 450u32),
        ("IQ4_XS", 425u32),
        ("IQ3_M", 370u32),
        ("IQ3_S", 350u32),
        ("IQ3_XXS", 300u32),
        ("IQ2_M", 270u32),
        ("IQ2_S", 250u32),
        ("IQ2_XS", 230u32),
        ("IQ2_XXS", 210u32),
        ("IQ1_M", 170u32),
        ("IQ1_S", 150u32),
        ("MXFP4", 400u32),
    ];
    assert(tokens@ =~= quant_tokens());
    let mut i: usize = 0;
    while i < 29
        invariant
            tokens@ == quant_tokens(),
            s@ == label(quant_str@),
            is_ascii_chars(quant_str@) ==> s@ == ascii_upper_seq(trim(quant_str@)),
            i <= 29,
            first_token(s@, quant_tokens(), 0) == first_token(s@, quant_tokens(), i as int),
        decreases 29 - i,
    {
        let tok = chars_of(tokens[i].0);
        assert(tok@ == quant_tokens()[i as int].0@);
        if contains_chars(s.as_slice(), tok.as_slice()) {
            assert(first_token(s@, quant_tokens(), i as int) == Some(quant_tokens()[i as int].1));
            let b = tokens[i].1;
            return Some(b);
        }
        i += 1;
    }
    digit_after_q_exec(s.as_slice())
}

// ---------------------------------------------------------------------------
// Token search by scanning

spec fn agrees(s: Seq<char>, p: Seq<char>, i: int, t: int) -> bool
    decreases p.len() - t,
{
    if t < 0 || t >= p.len() {
        true
    } else {
        s[i + t] == p[t] && agrees(s, p, i, t + 1)
    }
}

spec fn occurs_from(s: Seq<char>, p: Seq<char>, i: int) -> bool
    decreases s.len() + 1 - i,
{
    if i < 0 || i + p.len() > s.len() {
        false
    } else {
        agrees(s, p, i, 0) || occurs_from(s, p, i + 1)
    }
}

spec fn first_token_at(s: Seq<char>, toks: Seq<(&'static str, u32)>, i: int) -> Option<u32>
    decreases toks.len() - i,
{
    if i < 0 || i >= toks.len() {
        None
    } else if occurs_from(s, toks[i].0@, 0) {
        Some(toks[i].1)
    } else {
        first_token_at(s, toks, i + 1)
    }
}

proof fn lemma_agrees(s: Seq<char>, p: Seq<char>, i: int, t: int)
    requires
        0 <= i,
        0 <= t <= p.len(),
        i + p.len() <= s.len(),
    ensures
        agrees(s, p, i, t) == (forall|k: int| t <= k < p.len() ==> s[i + k] == p[k]),
    decreases p.len() - t,
{
    if t < p.len() {
        lemma_agrees(s, p, i, t + 1);
    }
}

proof fn lemma_occurs_from(s: Seq<char>, p: Seq<char>, i: int)
    requires
        0 <= i,
    ensures
        occurs_from(s, p, i) == (exists|k: int| i <= k && matches_at(s, p, k)),
    decreases s.len() + 1 - i,
{
    if i + p.len() <= s.len() {
        lemma_occurs_from(s, p, i + 1);
        lemma_agrees(s, p, i, 0);
        if agrees(s, p, i, 0) {
            assert(s.subrange(i, i + p.len()) =~= p);
            assert(matches_at(s, p, i));
        }
        if matches_at(s, p, i) {
            assert forall|k: int| 0 <= k < p.len() implies s[i + k] == p[k] by {
                assert(s.subrange(i, i + p.len())[k] == s[i + k]);
            }
        }
        if exists|k: int| i <= k && matches_at(s, p, k) {
            let k = choose|k: int| i <= k && matches_at(s, p, k);
            if k > i {
                assert(i + 1 <= k && matches_at(s, p, k));
            }
        }
    } else {
        if exists|k: int| i <= k && matches_at(s, p, k) {
            let k = choose|k: int| i <= k && matches_at(s, p, k);
            assert(k + p.len() <= s.len());
        }
    }
}

proof fn lemma_first_token_at(s: Seq<char>, toks: Seq<(&'static str, u32)>, i: int)
    requires
        0 <= i,
    ensures
        first_token_at(s, toks, i) == first_token(s, toks, i),
    decreases toks.len() - i,
{
    if i < toks.len() {
        lemma_first_token_at(s, toks, i + 1);
        lemma_occurs_from(s, toks[i].0@, 0);
        if contains_seq(s, toks[i].0@) {
            let k = choose|k: int| matches_at(s, toks[i].0@, k);
            assert(0 <= k && matches_at(s, toks[i].0@, k));
        }
    }
}

#[verifier::spinoff_prover]
proof fn lemma_quantisation_bits_0()
    ensures
        quant_bits("F32"@) == Some(3200u32),
        quant_bits("F16"@) == Some(1600u32),
        quant_bits("BF16"@) == Some(1600u32),
        quant_bits("Q8_0"@) == Some(850u32),
        quant_bits("Q6_K"@) == Some(660u32),
        quant_bits("Q5_K_M"@) == Some(550u32),
{
    reveal_strlit("F32");
    reveal_strlit("F16");
    reveal_strlit("BF16");
    reveal_strlit("Q8_0");
    reveal_strlit("Q6_K");
    reveal_strlit("Q5_K_M");
    reveal_strlit("Q5_K_S");
    reveal_strlit("Q5_0");
    reveal_strlit("Q5_1");
    reveal_strlit("Q4_K_M");
    reveal_strlit("Q4_K_S");
    reveal_strlit("Q4_0");
    reveal_strlit("Q4_1");
    reveal_strlit("Q3_K_L");
    reveal_strlit("Q3_K_M");
    reveal_strlit("Q3_K_S");
    reveal_strlit("Q2_K");
    reveal_strlit("IQ4_NL");
    reveal_strlit("IQ4_XS");
    reveal_strlit("IQ3_M");
    reveal_strlit("IQ3_S");
    reveal_strlit("IQ3_XXS");
    reveal_strlit("IQ2_M");
    reveal_strlit("IQ2_S");
    reveal_strlit("IQ2_XS");
    reveal_strlit("IQ2_XXS");
    reveal_strlit("IQ1_M");
    reveal_strlit("IQ1_S");
    reveal_strlit("MXFP4");
    reveal_strlit("F32");
    reveal_strlit("F16");
    reveal_strlit("BF16");
    reveal_strlit("Q8_0");
    reveal_strlit("Q6_K");
    reveal_strlit("Q5_K_M");
    reveal_strlit("Q5_K_S");
    reveal_strlit("Q5_0");
    reveal_strlit("Q5_1");
    reveal_strlit("Q4_K_M");
    reveal_strlit("Q4_K_S");
    reveal_strlit("Q4_0");
    reveal_strlit("Q4_1");
    reveal_strlit("Q3_K_L");
    reveal_strlit("Q3_K_M");
    reveal_strlit("Q3_K_S");
    reveal_strlit("Q2_K");
    reveal_strlit("IQ4_NL");
    reveal_strlit("IQ4_XS");
    reveal_strlit("IQ3_M");
    reveal_strlit("IQ3_S");
    reveal_strlit("IQ3_XXS");
    reveal_strlit("IQ2_M");
    reveal_strlit("IQ2_S");
    reveal_strlit("IQ2_XS");
    reveal_strlit("IQ2_XXS");
    reveal_strlit("IQ1_M");
    reveal_strlit("IQ1_S");
    reveal_strlit("MXFP4");
    reveal_with_fuel(first_token_at, 30);
    reveal_with_fuel(occurs_from, 9);
    reveal_with_fuel(agrees, 9);
    lemma_first_token_at("F32"@, quant_tokens(), 0);
    assert(first_token_at("F32"@, quant_tokens(), 0) == Some(3200u32));
    lemma_first_token_at("F16"@, quant_tokens(), 0);
    assert(first_token_at("F16"@, quant_tokens(), 0) == Some(1600u32));
    lemma_first_token_at("BF16"@, quant_tokens(), 0);
    assert(first_token_at("BF16"@, quant_tokens(), 0) == Some(1600u32));
    lemma_first_token_at("Q8_0"@, quant_tokens(), 0);
    assert(first_token_at("Q8_0"@, quant_tokens(), 0) == Some(850u32));
    lemma_first_token_at("Q6_K"@, quant_tokens(), 0);
    assert(first_token_at("Q6_K"@, quant_tokens(), 0) == Some(660u32));
    lemma_first_token_at("Q5_K_M"@, quant_tokens(), 0);
    assert(first_token_at("Q5_K_M"@, quant_tokens(), 0) == Some(550u32));
}

#[verifier::spinoff_prover]
proof fn lemma_quantisation_bits_1()
    ensures
        quant_bits("Q5_K_S"@) == Some(550u32),
        quant_bits("Q5_0"@) == Some(550u32),
        quant_bits("Q5_1"@) == Some(550u32),
        quant_bits("Q4_K_M"@) == Some(450u32),
        quant_bits("Q4_K_S"@) == Some(450u32),
        quant_bits("Q4_0"@) == Some(450u32),
{
    reveal_strlit("F32");
    reveal_strlit("F16");
    reveal_strlit("BF16");
    reveal_strlit("Q8_0");
    reveal_strlit("Q6_K");
    reveal_strlit("Q5_K_M");
    reveal_strlit("Q5_K_S");
    reveal_strlit("Q5_0");
    reveal_strlit("Q5_1");
    reveal_strlit("Q4_K_M");
    reveal_strlit("Q4_K_S");
    reveal_strlit("Q4_0");
    reveal_strlit("Q4_1");
    reveal_strlit("Q3_K_L");
    reveal_strlit("Q3_K_M");
    reveal_strlit("Q3_K_S");
    reveal_strlit("Q2_K");
    reveal_strlit("IQ4_NL");
    reveal_strlit("IQ4_XS");
    reveal_strlit("IQ3_M");
    reveal_strlit("IQ3_S");
    reveal_strlit("IQ3_XXS");
    reveal_strlit("IQ2_M");
    reveal_strlit("IQ2_S");
    reveal_strlit("IQ2_XS");
    reveal_strlit("IQ2_XXS");
    reveal_strlit("IQ1_M");
    reveal_strlit("IQ1_S");
    reveal_strlit("MXFP4");
    reveal_strlit("F32");
    reveal_strlit("F16");
    reveal_strlit("BF16");
    reveal_strlit("Q8_0");
    reveal_strlit("Q6_K");
    reveal_strlit("Q5_K_M");
    reveal_strlit("Q5_K_S");
    reveal_strlit("Q5_0");
    reveal_strlit("Q5_1");
    reveal_strlit("Q4_K_M");
    reveal_strlit("Q4_K_S");
    reveal_strlit("Q4_0");
    reveal_strlit("Q4_1");
    reveal_strlit("Q3_K_L");
    reveal_strlit("Q3_K_M");
    reveal_strlit("Q3_K_S");
    reveal_strlit("Q2_K");
    reveal_strlit("IQ4_NL");
    reveal_strlit("IQ4_XS");
    reveal_strlit("IQ3_M");
    reveal_strlit("IQ3_S");
    reveal_strlit("IQ3_XXS");
    reveal_strlit("IQ2_M");
    reveal_strlit("IQ2_S");
    reveal_strlit("IQ2_XS");
    reveal_strlit("IQ2_XXS");
    reveal_strlit("IQ1_M");
    reveal_strlit("IQ1_S");
    reveal_strlit("MXFP4");
    reveal_with_fuel(first_token_at, 30);
    reveal_with_fuel(occurs_from, 9);
    reveal_with_fuel(agrees, 9);
    lemma_first_token_at("Q5_K_S"@, quant_tokens(), 0);
    assert(first_token_at("Q5_K_S"@, quant_tokens(), 0) == Some(550u32));
    lemma_first_token_at("Q5_0"@, quant_tokens(), 0);
    assert(first_token_at("Q5_0"@, quant_tokens(), 0) == Some(550u32));
    lemma_first_token_at("Q5_1"@, quant_tokens(), 0);
    assert(first_token_at("Q5_1"@, quant_tokens(), 0) == Some(550u32));
    lemma_first_token_at("Q4_K_M"@, quant_tokens(), 0);
    assert(first_token_at("Q4_K_M"@, quant_tokens(), 0) == Some(450u32));
    lemma_first_token_at("Q4_K_S"@, quant_tokens(), 0);
    assert(first_token_at("Q4_K_S"@, quant_tokens(), 0) == Some(450u32));
    lemma_first_token_at("Q4_0"@, quant_tokens(), 0);
    assert(first_token_at("Q4_0"@, quant_tokens(), 0) == Some(450u32));
}

#[verifier::spinoff_prover]
proof fn lemma_quantisation_bits_2()
    ensures
        quant_bits("Q4_1"@) == Some(450u32),
        quant_bits("Q3_K_L"@) == Some(350u32),
        quant_bits("Q3_K_M"@) == Some(350u32),
        quant_bits("Q3_K_S"@) == Some(350u32),
        quant_bits("Q2_K"@) == Some(260u32),
        quant_bits("IQ4_NL"@) == Some(450u32),
{
    reveal_strlit("F32");
    reveal_strlit("F16");
    reveal_strlit("BF16");
    reveal_strlit("Q8_0");
    reveal_strlit("Q6_K");
    reveal_strlit("Q5_K_M");
    reveal_strlit("Q5_K_S");
    reveal_strlit("Q5_0");
    reveal_strlit("Q5_1");
    reveal_strlit("Q4_K_M");
    reveal_strlit("Q4_K_S");
    reveal_strlit("Q4_0");
    reveal_strlit("Q4_1");
    reveal_strlit("Q3_K_L");
    reveal_strlit("Q3_K_M");
    reveal_strlit("Q3_K_S");
    reveal_strlit("Q2_K");
    reveal_strlit("IQ4_NL");
    reveal_strlit("IQ4_XS");
    reveal_strlit("IQ3_M");
    reveal_strlit("IQ3_S");
    reveal_strlit("IQ3_XXS");
    reveal_strlit("IQ2_M");
    reveal_strlit("IQ2_S");
    reveal_strlit("IQ2_XS");
    reveal_strlit("IQ2_XXS");
    reveal_strlit("IQ1_M");
    reveal_strlit("IQ1_S");
    reveal_strlit("MXFP4");
    reveal_strlit("F32");
    reveal_strlit("F16");
    reveal_strlit("BF16");
    reveal_strlit("Q8_0");
    reveal_strlit("Q6_K");
    reveal_strlit("Q5_K_M");
    reveal_strlit("Q5_K_S");
    reveal_strlit("Q5_0");
    reveal_strlit("Q5_1");
    reveal_strlit("Q4_K_M");
    reveal_strlit("Q4_K_S");
    reveal_strlit("Q4_0");
    reveal_strlit("Q4_1");
    reveal_strlit("Q3_K_L");
    reveal_strlit("Q3_K_M");
    reveal_strlit("Q3_K_S");
    reveal_strlit("Q2_K");
    reveal_strlit("IQ4_NL");
    reveal_strlit("IQ4_XS");
    reveal_strlit("IQ3_M");
    reveal_strlit("IQ3_S");
    reveal_strlit("IQ3_XXS");
    reveal_strlit("IQ2_M");
    reveal_strlit("IQ2_S");
    reveal_strlit("IQ2_XS");
    reveal_strlit("IQ2_XXS");
    reveal_strlit("IQ1_M");
    reveal_strlit("IQ1_S");
    reveal_strlit("MXFP4");
    reveal_with_fuel(first_token_at, 30);
    reveal_with_fuel(occurs_from, 9);
    reveal_with_fuel(agrees, 9);
    lemma_first_token_at("Q4_1"@, quant_tokens(), 0);
    assert(first_token_at("Q4_1"@, quant_tokens(), 0) == Some(450u32));
    lemma_first_token_at("Q3_K_L"@, quant_tokens(), 0);
    assert(first_token_at("Q3_K_L"@, quant_tokens(), 0) == Some(350u32));
    lemma_first_token_at("Q3_K_M"@, quant_tokens(), 0);
    assert(first_token_at("Q3_K_M"@, quant_tokens(), 0) == Some(350u32));
    lemma_first_token_at("Q3_K_S"@, quant_tokens(), 0);
    assert(first_token_at("Q3_K_S"@, quant_tokens(), 0) == Some(350u32));
    lemma_first_token_at("Q2_K"@, quant_tokens(), 0);
    assert(first_token_at("Q2_K"@, quant_tokens(), 0) == Some(260u32));
    lemma_first_token_at("IQ4_NL"@, quant_tokens(), 0);
    assert(first_token_at("IQ4_NL"@, quant_tokens(), 0) == Some(450u32));
}

#[verifier::spinoff_prover]
proof fn lemma_quantisation_bits_3()
    ensures
        quant_bits("IQ4_XS"@) == Some(425u32),
        quant_bits("IQ3_M"@) == Some(370u32),
        quant_bits("IQ3_S"@) == Some(350u32),
        quant_bits("IQ3_XXS"@) == Some(300u32),
        quant_bits("IQ2_M"@) == Some(270u32),
        quant_bits("IQ2_S"@) == Some(250u32),
{
    reveal_strlit("F32");
    reveal_strlit("F16");
    reveal_strlit("BF16");
    reveal_strlit("Q8_0");
    reveal_strlit("Q6_K");
    reveal_strlit("Q5_K_M");
    reveal_strlit("Q5_K_S");
    reveal_strlit("Q5_0");
    reveal_strlit("Q5_1");
    reveal_strlit("Q4_K_M");
    reveal_strlit("Q4_K_S");
    reveal_strlit("Q4_0");
    reveal_strlit("Q4_1");
    reveal_strlit("Q3_K_L");
    reveal_strlit("Q3_K_M");
    reveal_strlit("Q3_K_S");
    reveal_strlit("Q2_K");
    reveal_strlit("IQ4_NL");
    reveal_strlit("IQ4_XS");
    reveal_strlit("IQ3_M");
    reveal_strlit("IQ3_S");
    reveal_strlit("IQ3_XXS");
    reveal_strlit("IQ2_M");
    reveal_strlit("IQ2_S");
    reveal_strlit("IQ2_XS");
    reveal_strlit("IQ2_XXS");
    reveal_strlit("IQ1_M");
    reveal_strlit("IQ1_S");
    reveal_strlit("MXFP4");
    reveal_strlit("F32");
    reveal_strlit("F16");
    reveal_strlit("BF16");
    reveal_strlit("Q8_0");
    reveal_strlit("Q6_K");
    reveal_strlit("Q5_K_M");
    reveal_strlit("Q5_K_S");
    reveal_strlit("Q5_0");
    reveal_strlit("Q5_1");
    reveal_strlit("Q4_K_M");
    reveal_strlit("Q4_K_S");
    reveal_strlit("Q4_0");
    reveal_strlit("Q4_1");
    reveal_strlit("Q3_K_L");
    reveal_strlit("Q3_K_M");
    reveal_strlit("Q3_K_S");
    reveal_strlit("Q2_K");
    reveal_strlit("IQ4_NL");
    reveal_strlit("IQ4_XS");
    reveal_strlit("IQ3_M");
    reveal_strlit("IQ3_S");
    reveal_strlit("IQ3_XXS");
    reveal_strlit("IQ2_M");
    reveal_strlit("IQ2_S");
    reveal_strlit("IQ2_XS");
    reveal_strlit("IQ2_XXS");
    reveal_strlit("IQ1_M");
    reveal_strlit("IQ1_S");
    reveal_strlit("MXFP4");
    reveal_with_fuel(first_token_at, 30);
    reveal_with_fuel(occurs_from, 9);
    reveal_with_fuel(agrees, 9);
    lemma_first_token_at("IQ4_XS"@, quant_tokens(), 0);
    assert(first_token_at("IQ4_XS"@, quant_tokens(), 0) == Some(425u32));
    lemma_first_token_at("IQ3_M"@, quant_tokens(), 0);
    assert(first_token_at("IQ3_M"@, quant_tokens(), 0) == Some(370u32));
    lemma_first_token_at("IQ3_S"@, quant_tokens(), 0);
    assert(first_token_at("IQ3_S"@, quant_tokens(), 0) == Some(350u32));
    lemma_first_token_at("IQ3_XXS"@, quant_tokens(), 0);
    assert(first_token_at("IQ3_XXS"@, quant_tokens(), 0) == Some(300u32));
    lemma_first_token_at("IQ2_M"@, quant_tokens(), 0);
    assert(first_token_at("IQ2_M"@, quant_tokens(), 0) == Some(270u32));
    lemma_first_token_at("IQ2_S"@, quant_tokens(), 0);
    assert(first_token_at("IQ2_S"@, quant_tokens(), 0) == Some(250u32));
}

#[verifier::spinoff_prover]
proof fn lemma_quantisation_bits_4()
    ensures
        quant_bits("IQ2_XS"@) == Some(230u32),
        quant_bits("IQ2_XXS"@) == Some(210u32),
        quant_bits("IQ1_M"@) == Some(170u32),
        quant_bits("IQ1_S"@) == Some(150u32),
        quant_bits("MXFP4"@) == Some(400u32),
        quant_bits("F32"@) == Some(3200u32),
{
    reveal_strlit("F32");
    reveal_strlit("F16");
    reveal_strlit("BF16");
    reveal_strlit("Q8_0");
    reveal_strlit("Q6_K");
    reveal_strlit("Q5_K_M");
    reveal_strlit("Q5_K_S");
    reveal_strlit("Q5_0");
    reveal_strlit("Q5_1");
    reveal_strlit("Q4_K_M");
    reveal_strlit("Q4_K_S");
    reveal_strlit("Q4_0");
    reveal_strlit("Q4_1");
    reveal_strlit("Q3_K_L");
    reveal_strlit("Q3_K_M");
    reveal_strlit("Q3_K_S");
    reveal_strlit("Q2_K");
    reveal_strlit("IQ4_NL");
    reveal_strlit("IQ4_XS");
    reveal_strlit("IQ3_M");
    reveal_strlit("IQ3_S");
    reveal_strlit("IQ3_XXS");
    reveal_strlit("IQ2_M");
    reveal_strlit("IQ2_S");
    reveal_strlit("IQ2_XS");
    reveal_strlit("IQ2_XXS");
    reveal_strlit("IQ1_M");
    reveal_strlit("IQ1_S");
    reveal_strlit("MXFP4");
    reveal_strlit("F32");
    reveal_strlit("F16");
    reveal_strlit("BF16");
    reveal_strlit("Q8_0");
    reveal_strlit("Q6_K");
    reveal_strlit("Q5_K_M");
    reveal_strlit("Q5_K_S");
    reveal_strlit("Q5_0");
    reveal_strlit("Q5_1");
    reveal_strlit("Q4_K_M");
    reveal_strlit("Q4_K_S");
    reveal_strlit("Q4_0");
    reveal_strlit("Q4_1");
    reveal_strlit("Q3_K_L");
    reveal_strlit("Q3_K_M");
    reveal_strlit("Q3_K_S");
    reveal_strlit("Q2_K");
    reveal_strlit("IQ4_NL");
    reveal_strlit("IQ4_XS");
    reveal_strlit("IQ3_M");
    reveal_strlit("IQ3_S");
    reveal_strlit("IQ3_XXS");
    reveal_strlit("IQ2_M");
    reveal_strlit("IQ2_S");
    reveal_strlit("IQ2_XS");
    reveal_strlit("IQ2_XXS");
    reveal_strlit("IQ1_M");
    reveal_strlit("IQ1_S");
    reveal_strlit("MXFP4");
    reveal_with_fuel(first_token_at, 30);
    reveal_with_fuel(occurs_from, 9);
    reveal_with_fuel(agrees, 9);
    lemma_first_token_at("IQ2_XS"@, quant_tokens(), 0);
    assert(first_token_at("IQ2_XS"@, quant_tokens(), 0) == Some(230u32));
    lemma_first_token_at("IQ2_XXS"@, quant_tokens(), 0);
    assert(first_token_at("IQ2_XXS"@, quant_tokens(), 0) == Some(210u32));
    lemma_first_token_at("IQ1_M"@, quant_tokens(), 0);
    assert(first_token_at("IQ1_M"@, quant_tokens(), 0) == Some(170u32));
    lemma_first_token_at("IQ1_S"@, quant_tokens(), 0);
    assert(first_token_at("IQ1_S"@, quant_tokens(), 0) == Some(150u32));
    lemma_first_token_at("MXFP4"@, quant_tokens(), 0);
    assert(first_token_at("MXFP4"@, quant_tokens(), 0) == Some(400u32));
    lemma_first_token_at("F32"@, quant_tokens(), 0);
    assert(first_token_at("F32"@, quant_tokens(), 0) == Some(3200u32));
}

#[verifier::spinoff_prover]
proof fn lemma_quantisation_bits_5()
    ensures
        quant_bits("F16"@) == Some(1600u32),
        quant_bits("BF16"@) == Some(1600u32),
        quant_bits("Q8_0"@) == Some(850u32),
        quant_bits("Q6_K"@) == Some(660u32),
        quant_bits("Q5_K_M"@) == Some(550u32),
        quant_bits("Q5_K_S"@) == Some(550u32),
{
    reveal_strlit("F32");
    reveal_strlit("F16");
    reveal_strlit("BF16");
    reveal_strlit("Q8_0");
    reveal_strlit("Q6_K");
    reveal_strlit("Q5_K_M");
    reveal_strlit("Q5_K_S");
    reveal_strlit("Q5_0");
    reveal_strlit("Q5_1");
    reveal_strlit("Q4_K_M");
    reveal_strlit("Q4_K_S");
    reveal_strlit("Q4_0");
    reveal_strlit("Q4_1");
    reveal_strlit("Q3_K_L");
    reveal_strlit("Q3_K_M");
    reveal_strlit("Q3_K_S");
    reveal_strlit("Q2_K");
    reveal_strlit("IQ4_NL");
    reveal_strlit("IQ4_XS");
    reveal_strlit("IQ3_M");
    reveal_strlit("IQ3_S");
    reveal_strlit("IQ3_XXS");
    reveal_strlit("IQ2_M");
    reveal_strlit("IQ2_S");
    reveal_strlit("IQ2_XS");
    reveal_strlit("IQ2_XXS");
    reveal_strlit("IQ1_M");
    reveal_strlit("IQ1_S");
    reveal_strlit("MXFP4");
    reveal_strlit("F32");
    reveal_strlit("F16");
    reveal_strlit("BF16");
    reveal_strlit("Q8_0");
    reveal_strlit("Q6_K");
    reveal_strlit("Q5_K_M");
    reveal_strlit("Q5_K_S");
    reveal_strlit("Q5_0");
    reveal_strlit("Q5_1");
    reveal_strlit("Q4_K_M");
    reveal_strlit("Q4_K_S");
    reveal_strlit("Q4_0");
    reveal_strlit("Q4_1");
    reveal_strlit("Q3_K_L");
    reveal_strlit("Q3_K_M");
    reveal_strlit("Q3_K_S");
    reveal_strlit("Q2_K");
    reveal_strlit("IQ4_NL");
    reveal_strlit("IQ4_XS");
    reveal_strlit("IQ3_M");
    reveal_strlit("IQ3_S");
    reveal_strlit("IQ3_XXS");
    reveal_strlit("IQ2_M");
    reveal_strlit("IQ2_S");
    reveal_strlit("IQ2_XS");
    reveal_strlit("IQ2_XXS");
    reveal_strlit("IQ1_M");
    reveal_strlit("IQ1_S");
    reveal_strlit("MXFP4");
    reveal_with_fuel(first_token_at, 30);
    reveal_with_fuel(occurs_from, 9);
    reveal_with_fuel(agrees, 9);
    lemma_first_token_at("F16"@, quant_tokens(), 0);
    assert(first_token_at("F16"@, quant_tokens(), 0) == Some(1600u32));
    lemma_first_token_at("BF16"@, quant_tokens(), 0);
    assert(first_token_at("BF16"@, quant_tokens(), 0) == Some(1600u32));
    lemma_first_token_at("Q8_0"@, quant_tokens(), 0);
    assert(first_token_at("Q8_0"@, quant_tokens(), 0) == Some(850u32));
    lemma_first_token_at("Q6_K"@, quant_tokens(), 0);
    assert(first_token_at("Q6_K"@, quant_tokens(), 0) == Some(660u32));
    lemma_first_token_at("Q5_K_M"@, quant_tokens(), 0);
    assert(first_token_at("Q5_K_M"@, quant_tokens(), 0) == Some(550u32));
    lemma_first_token_at("Q5_K_S"@, quant_tokens(), 0);
    assert(first_token_at("Q5_K_S"@, quant_tokens(), 0) == Some(550u32));
}

#[verifier::spinoff_prover]
proof fn lemma_quantisation_bits_6()
    ensures
        quant_bits("Q5_0"@) == Some(550u32),
        quant_bits("Q5_1"@) == Some(550u32),
        quant_bits("Q4_K_M"@) == Some(450u32),
        quant_bits("Q4_K_S"@) == Some(450u32),
        quant_bits("Q4_0"@) == Some(450u32),
        quant_bits("Q4_1"@) == Some(450u32),
{
    reveal_strlit("F32");
    reveal_strlit("F16");
    reveal_strlit("BF16");
    reveal_strlit("Q8_0");
    reveal_strlit("Q6_K");
    reveal_strlit("Q5_K_M");
    reveal_strlit("Q5_K_S");
    reveal_strlit("Q5_0");
    reveal_strlit("Q5_1");
    reveal_strlit("Q4_K_M");
    reveal_strlit("Q4_K_S");
    reveal_strlit("Q4_0");
    reveal_strlit("Q4_1");
    reveal_strlit("Q3_K_L");
    reveal_strlit("Q3_K_M");
    reveal_strlit("Q3_K_S");
    reveal_strlit("Q2_K");
    reveal_strlit("IQ4_NL");
    reveal_strlit("IQ4_XS");
    reveal_strlit("IQ3_M");
    reveal_strlit("IQ3_S");
    reveal_strlit("IQ3_XXS");
    reveal_strlit("IQ2_M");
    reveal_strlit("IQ2_S");
    reveal_strlit("IQ2_XS");
    reveal_strlit("IQ2_XXS");
    reveal_strlit("IQ1_M");
    reveal_strlit("IQ1_S");
    reveal_strlit("MXFP4");
    reveal_strlit("F32");
    reveal_strlit("F16");
    reveal_strlit("BF16");
    reveal_strlit("Q8_0");
    reveal_strlit("Q6_K");
    reveal_strlit("Q5_K_M");
    reveal_strlit("Q5_K_S");
    reveal_strlit("Q5_0");
    reveal_strlit("Q5_1");
    reveal_strlit("Q4_K_M");
    reveal_strlit("Q4_K_S");
    reveal_strlit("Q4_0");
    reveal_strlit("Q4_1");
    reveal_strlit("Q3_K_L");
    reveal_strlit("Q3_K_M");
    reveal_strlit("Q3_K_S");
    reveal_strlit("Q2_K");
    reveal_strlit("IQ4_NL");
    reveal_strlit("IQ4_XS");
    reveal_strlit("IQ3_M");
    reveal_strlit("IQ3_S");
    reveal_strlit("IQ3_XXS");
    reveal_strlit("IQ2_M");
    reveal_strlit("IQ2_S");
    reveal_strlit("IQ2_XS");
    reveal_strlit("IQ2_XXS");
    reveal_strlit("IQ1_M");
    reveal_strlit("IQ1_S");
    reveal_strlit("MXFP4");
    reveal_with_fuel(first_token_at, 30);
    reveal_with_fuel(occurs_from, 9);
    reveal_with_fuel(agrees, 9);
    lemma_first_token_at("Q5_0"@, quant_tokens(), 0);
    assert(first_token_at("Q5_0"@, quant_tokens(), 0) == Some(550u32));
    lemma_first_token_at("Q5_1"@, quant_tokens(), 0);
    assert(first_token_at("Q5_1"@, quant_tokens(), 0) == Some(550u32));
    lemma_first_token_at("Q4_K_M"@, quant_tokens(), 0);
    assert(first_token_at("Q4_K_M"@, quant_tokens(), 0) == Some(450u32));
    lemma_first_token_at("Q4_K_S"@, quant_tokens(), 0);
    assert(first_token_at("Q4_K_S"@, quant_tokens(), 0) == Some(450u32));
    lemma_first_token_at("Q4_0"@, quant_tokens(), 0);
    assert(first_token_at("Q4_0"@, quant_tokens(), 0) == Some(450u32));
    lemma_first_token_at("Q4_1"@, quant_tokens(), 0);
    assert(first_token_at("Q4_1"@, quant_tokens(), 0) == Some(450u32));
}

#[verifier::spinoff_prover]
proof fn lemma_quantisation_bits_7()
    ensures
        quant_bits("Q3_K_L"@) == Some(350u32),
        quant_bits("Q3_K_M"@) == Some(350u32),
        quant_bits("Q3_K_S"@) == Some(350u32),
        quant_bits("Q2_K"@) == Some(260u32),
        quant_bits("IQ4_NL"@) == Some(450u32),
        quant_bits("IQ4_XS"@) == Some(425u32),
{
    reveal_strlit("F32");
    reveal_strlit("F16");
    reveal_strlit("BF16");
    reveal_strlit("Q8_0");
    reveal_strlit("Q6_K");
    reveal_strlit("Q5_K_M");
    reveal_strlit("Q5_K_S");
    reveal_strlit("Q5_0");
    reveal_strlit("Q5_1");
    reveal_strlit("Q4_K_M");
    reveal_strlit("Q4_K_S");
    reveal_strlit("Q4_0");
    reveal_strlit("Q4_1");
    reveal_strlit("Q3_K_L");
    reveal_strlit("Q3_K_M");
    reveal_strlit("Q3_K_S");
    reveal_strlit("Q2_K");
    reveal_strlit("IQ4_NL");
    reveal_strlit("IQ4_XS");
    reveal_strlit("IQ3_M");
    reveal_strlit("IQ3_S");
    reveal_strlit("IQ3_XXS");
    reveal_strlit("IQ2_M");
    reveal_strlit("IQ2_S");
    reveal_strlit("IQ2_XS");
    reveal_strlit("IQ2_XXS");
    reveal_strlit("IQ1_M");
    reveal_strlit("IQ1_S");
    reveal_strlit("MXFP4");
    reveal_strlit("F32");
    reveal_strlit("F16");
    reveal_strlit("BF16");
    reveal_strlit("Q8_0");
    reveal_strlit("Q6_K");
    reveal_strlit("Q5_K_M");
    reveal_strlit("Q5_K_S");
    reveal_strlit("Q5_0");
    reveal_strlit("Q5_1");
    reveal_strlit("Q4_K_M");
    reveal_strlit("Q4_K_S");
    reveal_strlit("Q4_0");
    reveal_strlit("Q4_1");
    reveal_strlit("Q3_K_L");
    reveal_strlit("Q3_K_M");
    reveal_strlit("Q3_K_S");
    reveal_strlit("Q2_K");
    reveal_strlit("IQ4_NL");
    reveal_strlit("IQ4_XS");
    reveal_strlit("IQ3_M");
    reveal_strlit("IQ3_S");
    reveal_strlit("IQ3_XXS");
    reveal_strlit("IQ2_M");
    reveal_strlit("IQ2_S");
    reveal_strlit("IQ2_XS");
    reveal_strlit("IQ2_XXS");
    reveal_strlit("IQ1_M");
    reveal_strlit("IQ1_S");
    reveal_strlit("MXFP4");
    reveal_with_fuel(first_token_at, 30);
    reveal_with_fuel(occurs_from, 9);
    reveal_with_fuel(agrees, 9);
    lemma_first_token_at("Q3_K_L"@, quant_tokens(), 0);
    assert(first_token_at("Q3_K_L"@, quant_tokens(), 0) == Some(350u32));
    lemma_first_token_at("Q3_K_M"@, quant_tokens(), 0);
    assert(first_token_at("Q3_K_M"@, quant_tokens(), 0) == Some(350u32));
    lemma_first_token_at("Q3_K_S"@, quant_tokens(), 0);
    assert(first_token_at("Q3_K_S"@, quant_tokens(), 0) == Some(350u32));
    lemma_first_token_at("Q2_K"@, quant_tokens(), 0);
    assert(first_token_at("Q2_K"@, quant_tokens(), 0) == Some(260u32));
    lemma_first_token_at("IQ4_NL"@, quant_tokens(), 0);
    assert(first_token_at("IQ4_NL"@, quant_tokens(), 0) == Some(450u32));
    lemma_first_token_at("IQ4_XS"@, quant_tokens(), 0);
    assert(first_token_at("IQ4_XS"@, quant_tokens(), 0) == Some(425u32));
}

#[verifier::spinoff_prover]
proof fn lemma_quantisation_bits_8()
    ensures
        quant_bits("IQ3_M"@) == Some(370u32),
        quant_bits("IQ3_S"@) == Some(350u32),
        quant_bits("IQ3_XXS"@) == Some(300u32),
        quant_bits("IQ2_M"@) == Some(270u32),
        quant_bits("IQ2_S"@) == Some(250u32),
        quant_bits("IQ2_XS"@) == Some(230u32),
{
    reveal_strlit("F32");
    reveal_strlit("F16");
    reveal_strlit("BF16");
    reveal_strlit("Q8_0");
    reveal_strlit("Q6_K");
    reveal_strlit("Q5_K_M");
    reveal_strlit("Q5_K_S");
    reveal_strlit("Q5_0");
    reveal_strlit("Q5_1");
    reveal_strlit("Q4_K_M");
    reveal_strlit("Q4_K_S");
    reveal_strlit("Q4_0");
    reveal_strlit("Q4_1");
    reveal_strlit("Q3_K_L");
    reveal_strlit("Q3_K_M");
    reveal_strlit("Q3_K_S");
    reveal_strlit("Q2_K");
    reveal_strlit("IQ4_NL");
    reveal_strlit("IQ4_XS");
    reveal_strlit("IQ3_M");
    reveal_strlit("IQ3_S");
    reveal_strlit("IQ3_XXS");
    reveal_strlit("IQ2_M");
    reveal_strlit("IQ2_S");
    reveal_strlit("IQ2_XS");
    reveal_strlit("IQ2_XXS");
    reveal_strlit("IQ1_M");
    reveal_strlit("IQ1_S");
    reveal_strlit("MXFP4");
    reveal_strlit("F32");
    reveal_strlit("F16");
    reveal_strlit("BF16");
    reveal_strlit("Q8_0");
    reveal_strlit("Q6_K");
    reveal_strlit("Q5_K_M");
    reveal_strlit("Q5_K_S");
    reveal_strlit("Q5_0");
    reveal_strlit("Q5_1");
    reveal_strlit("Q4_K_M");
    reveal_strlit("Q4_K_S");
    reveal_strlit("Q4_0");
    reveal_strlit("Q4_1");
    reveal_strlit("Q3_K_L");
    reveal_strlit("Q3_K_M");
    reveal_strlit("Q3_K_S");
    reveal_strlit("Q2_K");
    reveal_strlit("IQ4_NL");
    reveal_strlit("IQ4_XS");
    reveal_strlit("IQ3_M");
    reveal_strlit("IQ3_S");
    reveal_strlit("IQ3_XXS");
    reveal_strlit("IQ2_M");
    reveal_strlit("IQ2_S");
    reveal_strlit("IQ2_XS");
    reveal_strlit("IQ2_XXS");
    reveal_strlit("IQ1_M");
    reveal_strlit("IQ1_S");
    reveal_strlit("MXFP4");
    reveal_with_fuel(first_token_at, 30);
    reveal_with_fuel(occurs_from, 9);
    reveal_with_fuel(agrees, 9);
    lemma_first_token_at("IQ3_M"@, quant_tokens(), 0);
    assert(first_token_at("IQ3_M"@, quant_tokens(), 0) == Some(370u32));
    lemma_first_token_at("IQ3_S"@, quant_tokens(), 0);
    assert(first_token_at("IQ3_S"@, quant_tokens(), 0) == Some(350u32));
    lemma_first_token_at("IQ3_XXS"@, quant_tokens(), 0);
    assert(first_token_at("IQ3_XXS"@, quant_tokens(), 0) == Some(300u32));
    lemma_first_token_at("IQ2_M"@, quant_tokens(), 0);
    assert(first_token_at("IQ2_M"@, quant_tokens(), 0) == Some(270u32));
    lemma_first_token_at("IQ2_S"@, quant_tokens(), 0);
    assert(first_token_at("IQ2_S"@, quant_tokens(), 0) == Some(250u32));
    lemma_first_token_at("IQ2_XS"@, quant_tokens(), 0);
    assert(first_token_at("IQ2_XS"@, quant_tokens(), 0) == Some(230u32));
}

#[verifier::spinoff_prover]
proof fn lemma_quantisation_bits_9()
    ensures
        quant_bits("IQ2_XXS"@) == Some(210u32),
        quant_bits("IQ1_M"@) == Some(170u32),
        quant_bits("IQ1_S"@) == Some(150u32),
        quant_bits("MXFP4"@) == Some(400u32),
{
    reveal_strlit("F32");
    reveal_strlit("F16");
    reveal_strlit("BF16");
    reveal_strlit("Q8_0");
    reveal_strlit("Q6_K");
    reveal_strlit("Q5_K_M");
    reveal_strlit("Q5_K_S");
    reveal_strlit("Q5_0");
    reveal_strlit("Q5_1");
    reveal_strlit("Q4_K_M");
    reveal_strlit("Q4_K_S");
    reveal_strlit("Q4_0");
    reveal_strlit("Q4_1");
    reveal_strlit("Q3_K_L");
    reveal_strlit("Q3_K_M");
    reveal_strlit("Q3_K_S");
    reveal_strlit("Q2_K");
    reveal_strlit("IQ4_NL");
    reveal_strlit("IQ4_XS");
    reveal_strlit("IQ3_M");
    reveal_strlit("IQ3_S");
    reveal_strlit("IQ3_XXS");
    reveal_strlit("IQ2_M");
    reveal_strlit("IQ2_S");
    reveal_strlit("IQ2_XS");
    reveal_strlit("IQ2_XXS");
    reveal_strlit("IQ1_M");
    reveal_strlit("IQ1_S");
    reveal_strlit("MXFP4");
    reveal_strlit("F32");
    reveal_strlit("F16");
    reveal_strlit("BF16");
    reveal_strlit("Q8_0");
    reveal_strlit("Q6_K");
    reveal_strlit("Q5_K_M");
    reveal_strlit("Q5_K_S");
    reveal_strlit("Q5_0");
    reveal_strlit("Q5_1");
    reveal_strlit("Q4_K_M");
    reveal_strlit("Q4_K_S");
    reveal_strlit("Q4_0");
    reveal_strlit("Q4_1");
    reveal_strlit("Q3_K_L");
    reveal_strlit("Q3_K_M");
    reveal_strlit("Q3_K_S");
    reveal_strlit("Q2_K");
    reveal_strlit("IQ4_NL");
    reveal_strlit("IQ4_XS");
    reveal_strlit("IQ3_M");
    reveal_strlit("IQ3_S");
    reveal_strlit("IQ3_XXS");
    reveal_strlit("IQ2_M");
    reveal_strlit("IQ2_S");
    reveal_strlit("IQ2_XS");
    reveal_strlit("IQ2_XXS");
    reveal_strlit("IQ1_M");
    reveal_strlit("IQ1_S");
    reveal_strlit("MXFP4");
    reveal_with_fuel(first_token_at, 30);
    reveal_with_fuel(occurs_from, 9);
    reveal_with_fuel(agrees, 9);
    lemma_first_token_at("IQ2_XXS"@, quant_tokens(), 0);
    assert(first_token_at("IQ2_XXS"@, quant_tokens(), 0) == Some(210u32));
    lemma_first_token_at("IQ1_M"@, quant_tokens(), 0);
    assert(first_token_at("IQ1_M"@, quant_tokens(), 0) == Some(170u32));
    lemma_first_token_at("IQ1_S"@, quant_tokens(), 0);
    assert(first_token_at("IQ1_S"@, quant_tokens(), 0) == Some(150u32));
    lemma_first_token_at("MXFP4"@, quant_tokens(), 0);
    assert(first_token_at("MXFP4"@, quant_tokens(), 0) == Some(400u32));
}

proof fn lemma_short_label_no_token(s: Seq<char>, i: int)
    requires
        0 <= i,
        s.len() < 3,
        forall|j: int| 0 <= j < quant_tokens().len() ==> (#[trigger] quant_tokens()[j]).0@.len() >= 3,
    ensures
        first_token(s, quant_tokens(), i) is None,
    decreases quant_tokens().len() - i,
{
    if i < quant_tokens().len() {
        let p = quant_tokens()[i].0@;
        assert(p.len() >= 3);
        assert(!contains_seq(s, p));
        lemma_short_label_no_token(s, i + 1);
    }
}

/// A label `Q` followed by one decimal digit `d`, which names no known
/// quantisation, gives `d + 0.5` bits per weight.
pub proof fn lemma_single_digit_quant(d: char)
    requires
        '0' <= d <= '9',
    ensures
        quant_bits(seq!['Q', d]) == Some((((d as u32) - 48) * 100 + 50) as u32),
{
    reveal_strlit("F32");
    reveal_strlit("F16");
    reveal_strlit("BF16");
    reveal_strlit("Q8_0");
    reveal_strlit("Q6_K");
    reveal_strlit("Q5_K_M");
    reveal_strlit("Q5_K_S");
    reveal_strlit("Q5_0");
    reveal_strlit("Q5_1");
    reveal_strlit("Q4_K_M");
    reveal_strlit("Q4_K_S");
    reveal_strlit("Q4_0");
    reveal_strlit("Q4_1");
    reveal_strlit("Q3_K_L");
    reveal_strlit("Q3_K_M");
    reveal_strlit("Q3_K_S");
    reveal_strlit("Q2_K");
    reveal_strlit("IQ4_NL");
    reveal_strlit("IQ4_XS");
    reveal_strlit("IQ3_M");
    reveal_strlit("IQ3_S");
    reveal_strlit("IQ3_XXS");
    reveal_strlit("IQ2_M");
    reveal_strlit("IQ2_S");
    reveal_strlit("IQ2_XS");
    reveal_strlit("IQ2_XXS");
    reveal_strlit("IQ1_M");
    reveal_strlit("IQ1_S");
    reveal_strlit("MXFP4");
    let s = seq!['Q', d];
    assert forall|j: int| 0 <= j < quant_tokens().len() implies (#[trigger] quant_tokens()[j]).0@.len() >= 3 by {
        if j == 0 {
        } else if j == 1 {
        } else if j == 2 {
        } else if j == 3 {
        } else if j == 4 {
        } else if j == 5 {
        } else if j == 6 {
        } else if j == 7 {
        } else if j == 8 {
        } else if j == 9 {
        } else if j == 10 {
        } else if j == 11 {
        } else if j == 12 {
        } else if j == 13 {
        } else if j == 14 {
        } else if j == 15 {
        } else if j == 16 {
        } else if j == 17 {
        } else if j == 18 {
        } else if j == 19 {
        } else if j == 20 {
        } else if j == 21 {
        } else if j == 22 {
        } else if j == 23 {
        } else if j == 24 {
        } else if j == 25 {
        } else if j == 26 {
        } else if j == 27 {
        } else if j == 28 {
        }
    }
    lemma_short_label_no_token(s, 0);
    assert(matches_at(s, seq!['Q'], 0)) by {
        assert(s.subrange(0, 1) =~= seq!['Q']);
    }
    assert(is_first_match(s, seq!['Q'], 0));
    lemma_first_match_unique(s, seq!['Q'], 0);
    assert(s.take(0) =~= Seq::<char>::empty());
    assert(utf8_len(Seq::<char>::empty()) == 0);
}

/// The bits per weight of every known quantisation name, in hundredths of
/// a bit, for a label that is exactly that name.
pub proof fn lemma_known_quantisation_bits()
    ensures
        quant_bits("F32"@) == Some(3200u32),
        quant_bits("F16"@) == Some(1600u32),
        quant_bits("BF16"@) == Some(1600u32),
        quant_bits("Q8_0"@) == Some(850u32),
        quant_bits("Q6_K"@) == Some(660u32),
        quant_bits("Q5_K_M"@) == Some(550u32),
        quant_bits("Q5_K_S"@) == Some(550u32),
        quant_bits("Q5_0"@) == Some(550u32),
        quant_bits("Q5_1"@) == Some(550u32),
        quant_bits("Q4_K_M"@) == Some(450u32),
        quant_bits("Q4_K_S"@) == Some(450u32),
        quant_bits("Q4_0"@) == Some(450u32),
        quant_bits("Q4_1"@) == Some(450u32),
        quant_bits("Q3_K_L"@) == Some(350u32),
        quant_bits("Q3_K_M"@) == Some(350u32),
        quant_bits("Q3_K_S"@) == Some(350u32),
        quant_bits("Q2_K"@) == Some(260u32),
        quant_bits("IQ4_NL"@) == Some(450u32),
        quant_bits("IQ4_XS"@) == Some(425u32),
        quant_bits("IQ3_M"@) == Some(370u32),
        quant_bits("IQ3_S"@) == Some(350u32),
        quant_bits("IQ3_XXS"@) == Some(300u32),
        quant_bits("IQ2_M"@) == Some(270u32),
        quant_bits("IQ2_S"@) == Some(250u32),
        quant_bits("IQ2_XS"@) == Some(230u32),
        quant_bits("IQ2_XXS"@) == Some(210u32),
        quant_bits("IQ1_M"@) == Some(170u32),
        quant_bits("IQ1_S"@) == Some(150u32),
        quant_bits("MXFP4"@) == Some(400u32),
        quant_bits("F32"@) == Some(3200u32),
        quant_bits("F16"@) == Some(1600u32),
        quant_bits("BF16"@) == Some(1600u32),
        quant_bits("Q8_0"@) == Some(850u32),
        quant_bits("Q6_K"@) == Some(660u32),
        quant_bits("Q5_K_M"@) == Some(550u32),
        quant_bits("Q5_K_S"@) == Some(550u32),
        quant_bits("Q5_0"@) == Some(550u32),
        quant_bits("Q5_1"@) == Some(550u32),
        quant_bits("Q4_K_M"@) == Some(450u32),
        quant_bits("Q4_K_S"@) == Some(450u32),
        quant_bits("Q4_0"@) == Some(450u32),
        quant_bits("Q4_1"@) == Some(450u32),
        quant_bits("Q3_K_L"@) == Some(350u32),
        quant_bits("Q3_K_M"@) == Some(350u32),
        quant_bits("Q3_K_S"@) == Some(350u32),
        quant_bits("Q2_K"@) == Some(260u32),
        quant_bits("IQ4_NL"@) == Some(450u32),
        quant_bits("IQ4_XS"@) == Some(425u32),
        quant_bits("IQ3_M"@) == Some(370u32),
        quant_bits("IQ3_S"@) == Some(350u32),
        quant_bits("IQ3_XXS"@) == Some(300u32),
        quant_bits("IQ2_M"@) == Some(270u32),
        quant_bits("IQ2_S"@) == Some(250u32),
        quant_bits("IQ2_XS"@) == Some(230u32),
        quant_bits("IQ2_XXS"@) == Some(210u32),
        quant_bits("IQ1_M"@) == Some(170u32),
        quant_bits("IQ1_S"@) == Some(150u32),
        quant_bits("MXFP4"@) == Some(400u32),
{
    lemma_quantisation_bits_0();
    lemma_quantisation_bits_1();
    lemma_quantisation_bits_2();
    lemma_quantisation_bits_3();
    lemma_quantisation_bits_4();
    lemma_quantisation_bits_5();
    lemma_quantisation_bits_6();
    lemma_quantisation_bits_7();
    lemma_quantisation_bits_8();
    lemma_quantisation_bits_9();
}

// ---------------------------------------------------------------------------
// Cutting a trailing `-MXFP4` (ASCII names)

/// `a` ends with `b`.
pub open spec fn ends_with(a: Seq<char>, b: Seq<char>) -> bool {
    b.len() <= a.len() && a.subrange(a.len() - b.len(), a.len() as int) == b
}

/// A plain model stem: ASCII, no `/` or `:`, no packaging fragment (letter
/// case ignored), no `-`, `_` or `.` at either end, and not ending in
/// `gguf`, `mxfp4` or `mxfp` (letter case ignored), which with a following
/// `-` would form a fragment of their own.
pub open spec fn plain_stem(x: Seq<char>) -> bool {
    &&& is_ascii_chars(x)
    &&& forall|k: int| 0 <= k < x.len() ==> #[trigger] x[k] != '/' && x[k] != ':'
    &&& no_packaging_marker(x)
    &&& x.len() > 0 ==> !strips(Strip::Separators, x[0]) && !strips(Strip::Separators, x.last())
    &&& !ends_with(ascii_upper_seq(x), "GGUF"@)
    &&& !ends_with(ascii_upper_seq(x), "MXFP4"@)
    &&& !ends_with(ascii_upper_seq(x), "MXFP"@)
}

/// The packaging fragments that end a name.
pub open spec fn suffix_fragments() -> Seq<Seq<char>> {
    seq!["-GGUF"@, ".GGUF"@, "-MXFP4"@, "-MXFP"@, "-IQ"@, "-Q4"@, "-Q5"@, "-Q6"@, "-Q8"@, "-I1"@, "-V1"@]
}

/// An occurrence of `p` in `x + t` that begins in `x` and ends in `t`, with
/// `d` of its characters in `x`.
spec fn straddles(x: Seq<char>, t: Seq<char>, p: Seq<char>, d: int) -> bool {
    &&& 1 <= d < p.len()
    &&& d <= x.len()
    &&& p.len() - d <= t.len()
    &&& x.subrange(x.len() - d, x.len() as int) == p.take(d)
    &&& t.take(p.len() - d) == p.skip(d)
}

proof fn lemma_no_match_concat(x: Seq<char>, t: Seq<char>, p: Seq<char>)
    requires
        !contains_seq(x, p),
        !contains_seq(t, p),
        forall|d: int| !straddles(x, t, p, d),
    ensures
        !contains_seq(x + t, p),
{
    let s = x + t;
    assert forall|i: int| !matches_at(s, p, i) by {
        if matches_at(s, p, i) {
            if i + p.len() <= x.len() {
                assert(x.subrange(i, i + p.len()) =~= s.subrange(i, i + p.len()));
                assert(matches_at(x, p, i));
            } else if i >= x.len() {
                assert(t.subrange(i - x.len(), i - x.len() + p.len()) =~= s.subrange(i, i + p.len()));
                assert(matches_at(t, p, i - x.len()));
            } else {
                let d = x.len() - i;
                assert(x.subrange(x.len() - d, x.len() as int) =~= p.take(d)) by {
                    assert forall|k: int| 0 <= k < d implies x.subrange(x.len() - d, x.len() as int)[k]
                        == p.take(d)[k] by {
                        assert(s.subrange(i, i + p.len())[k] == s[i + k]);
                    }
                }
                assert(t.take(p.len() - d) =~= p.skip(d)) by {
                    assert forall|k: int| 0 <= k < p.len() - d implies t.take(p.len() - d)[k]
                        == p.skip(d)[k] by {
                        assert(s.subrange(i, i + p.len())[d + k] == s[i + d + k]);
                    }
                }
                assert(straddles(x, t, p, d));
            }
        }
    }
}

proof fn lemma_first_match_concat(x: Seq<char>, t: Seq<char>, p: Seq<char>)
    requires
        !contains_seq(x, p),
        p.len() <= t.len(),
        t.take(p.len() as int) == p,
        forall|d: int| !straddles(x, t, p, d),
    ensures
        find_seq(x + t, p) == Some(x.len() as int),
{
    let s = x + t;
    assert(s.subrange(x.len() as int, (x.len() + p.len()) as int) =~= p);
    assert forall|j: int| 0 <= j < x.len() implies !matches_at(s, p, j) by {
        if matches_at(s, p, j) {
            if j + p.len() <= x.len() {
                assert(x.subrange(j, j + p.len()) =~= s.subrange(j, j + p.len()));
                assert(matches_at(x, p, j));
            } else {
                let d = x.len() - j;
                assert(x.subrange(x.len() - d, x.len() as int) =~= p.take(d)) by {
                    assert forall|k: int| 0 <= k < d implies x.subrange(x.len() - d, x.len() as int)[k]
                        == p.take(d)[k] by {
                        assert(s.subrange(j, j + p.len())[k] == s[j + k]);
                    }
                }
                assert(t.take(p.len() - d) =~= p.skip(d)) by {
                    assert forall|k: int| 0 <= k < p.len() - d implies t.take(p.len() - d)[k]
                        == p.skip(d)[k] by {
                        assert(s.subrange(j, j + p.len())[d + k] == s[j + d + k]);
                        assert(t.take(p.len() as int)[k] == p[k]);
                    }
                }
                assert(straddles(x, t, p, d));
            }
        }
    }
    assert(is_first_match(s, p, x.len() as int));
    lemma_first_match_unique(s, p, x.len() as int);
}

/// No occurrence of `p` straddles `x` and `t` when, from its second
/// character on, `p` can only meet the first character of `t` at its last
/// character, and `x` does not end with the rest of `p`.
proof fn lemma_no_straddle(x: Seq<char>, t: Seq<char>, p: Seq<char>)
    requires
        t.len() > 0,
        forall|d: int| 1 <= d < p.len() - 1 ==> p[d] != t[0],
        p.len() >= 2 ==> p[p.len() - 1] != t[0] || !ends_with(x, p.take(p.len() - 1)),
    ensures
        forall|d: int| !straddles(x, t, p, d),
{
    assert forall|d: int| !straddles(x, t, p, d) by {
        if straddles(x, t, p, d) {
            assert(t.take(p.len() - d)[0] == p.skip(d)[0]);
            if d == p.len() - 1 {
                assert(p.take(d).len() == d);
            }
        }
    }
}

proof fn lemma_ascii_upper_concat(a: Seq<char>, b: Seq<char>)
    ensures
        ascii_upper_seq(a + b) == ascii_upper_seq(a) + ascii_upper_seq(b),
{
    assert(ascii_upper_seq(a + b) =~= ascii_upper_seq(a) + ascii_upper_seq(b));
}

proof fn lemma_not_in_text(t: Seq<char>, p: Seq<char>)
    requires
        !occurs_from(t, p, 0),
    ensures
        !contains_seq(t, p),
{
    lemma_occurs_from(t, p, 0);
    if contains_seq(t, p) {
        let k = choose|k: int| matches_at(t, p, k);
        assert(0 <= k && matches_at(t, p, k));
    }
}

#[verifier::spinoff_prover]
#[verifier::rlimit(60)]
proof fn lemma_suffix_cut_0(x: Seq<char>)
    requires
        plain_stem(x),
    ensures
        ascii_without_packaging(x + "-GGUF"@) == x,
{
    reveal(ascii_without_packaging);
    reveal_strlit("-GGUF");
    reveal_strlit("GGUF");
    reveal_strlit("MXFP");
    reveal_strlit("MXFP4");
    let ux = ascii_upper_seq(x);
    let t = "-GGUF"@;
    let sa = x + t;
    lemma_ascii_upper_concat(x, t);
    assert(ascii_upper_seq(t) =~= t);
    reveal_with_fuel(occurs_from, 8);
    reveal_with_fuel(agrees, 7);
    lemma_no_straddle(ux, t, t);
    assert(t.take(t.len() as int) =~= t);
    lemma_first_match_concat(ux, t, t);
    assert(sa.take(x.len() as int) + sa.skip((x.len() + t.len()) as int) =~= x);
}

#[verifier::spinoff_prover]
#[verifier::rlimit(60)]
proof fn lemma_suffix_cut_1(x: Seq<char>)
    requires
        plain_stem(x),
    ensures
        ascii_without_packaging(x + ".GGUF"@) == x,
{
    reveal(ascii_without_packaging);
    reveal_strlit("-GGUF");
    reveal_strlit(".GGUF");
    reveal_strlit("GGUF");
    reveal_strlit("MXFP");
    reveal_strlit("MXFP4");
    let ux = ascii_upper_seq(x);
    let t = ".GGUF"@;
    let sa = x + t;
    lemma_ascii_upper_concat(x, t);
    assert(ascii_upper_seq(t) =~= t);
    reveal_with_fuel(occurs_from, 8);
    reveal_with_fuel(agrees, 7);
    lemma_not_in_text(t, "-GGUF"@);
    lemma_no_straddle(ux, t, "-GGUF"@);
    lemma_no_match_concat(ux, t, "-GGUF"@);
    assert(find_seq(ux + t, "-GGUF"@) is None);
    lemma_no_straddle(ux, t, t);
    assert(t.take(t.len() as int) =~= t);
    lemma_first_match_concat(ux, t, t);
    assert(sa.take(x.len() as int) + sa.skip((x.len() + t.len()) as int) =~= x);
}

#[verifier::spinoff_prover]
#[verifier::rlimit(60)]
proof fn lemma_suffix_cut_2(x: Seq<char>)
    requires
        plain_stem(x),
    ensures
        ascii_without_packaging(x + "-MXFP4"@) == x,
{
    reveal(ascii_without_packaging);
    reveal_strlit("-GGUF");
    reveal_strlit("-MXFP4");
    reveal_strlit(".GGUF");
    reveal_strlit("GGUF");
    reveal_strlit("GGUF-");
    reveal_strlit("GGUF.");
    reveal_strlit("MXFP");
    reveal_strlit("MXFP4");
    let ux = ascii_upper_seq(x);
    let t = "-MXFP4"@;
    let sa = x + t;
    lemma_ascii_upper_concat(x, t);
    assert(ascii_upper_seq(t) =~= t);
    reveal_with_fuel(occurs_from, 8);
    reveal_with_fuel(agrees, 7);
    lemma_not_in_text(t, "-GGUF"@);
    lemma_no_straddle(ux, t, "-GGUF"@);
    lemma_no_match_concat(ux, t, "-GGUF"@);
    assert(find_seq(ux + t, "-GGUF"@) is None);
    lemma_not_in_text(t, ".GGUF"@);
    lemma_no_straddle(ux, t, ".GGUF"@);
    lemma_no_match_concat(ux, t, ".GGUF"@);
    assert(find_seq(ux + t, ".GGUF"@) is None);
    lemma_not_in_text(t, "GGUF-"@);
    assert("GGUF-"@.take(4) =~= "GGUF"@);
    lemma_no_straddle(ux, t, "GGUF-"@);
    lemma_no_match_concat(ux, t, "GGUF-"@);
    assert(find_seq(ux + t, "GGUF-"@) is None);
    lemma_not_in_text(t, "GGUF."@);
    lemma_no_straddle(ux, t, "GGUF."@);
    lemma_no_match_concat(ux, t, "GGUF."@);
    assert(find_seq(ux + t, "GGUF."@) is None);
    lemma_no_straddle(ux, t, t);
    assert(t.take(t.len() as int) =~= t);
    lemma_first_match_concat(ux, t, t);
    assert(sa.take(x.len() as int) + sa.skip((x.len() + t.len()) as int) =~= x);
}

#[verifier::spinoff_prover]
#[verifier::rlimit(60)]
proof fn lemma_suffix_cut_3(x: Seq<char>)
    requires
        plain_stem(x),
    ensures
        ascii_without_packaging(x + "-MXFP"@) == x,
{
    reveal(ascii_without_packaging);
    reveal_strlit("-GGUF");
    reveal_strlit("-MXFP");
    reveal_strlit("-MXFP4");
    reveal_strlit(".GGUF");
    reveal_strlit("GGUF");
    reveal_strlit("GGUF-");
    reveal_strlit("GGUF.");
    reveal_strlit("MXFP");
    reveal_strlit("MXFP-");
    reveal_strlit("MXFP4");
    reveal_strlit("MXFP4-");
    let ux = ascii_upper_seq(x);
    let t = "-MXFP"@;
    let sa = x + t;
    lemma_ascii_upper_concat(x, t);
    assert(ascii_upper_seq(t) =~= t);
    reveal_with_fuel(occurs_from, 8);
    reveal_with_fuel(agrees, 7);
    lemma_not_in_text(t, "-GGUF"@);
    lemma_no_straddle(ux, t, "-GGUF"@);
    lemma_no_match_concat(ux, t, "-GGUF"@);
    assert(find_seq(ux + t, "-GGUF"@) is None);
    lemma_not_in_text(t, ".GGUF"@);
    lemma_no_straddle(ux, t, ".GGUF"@);
    lemma_no_match_concat(ux, t, ".GGUF"@);
    assert(find_seq(ux + t, ".GGUF"@) is None);
    lemma_not_in_text(t, "GGUF-"@);
    assert("GGUF-"@.take(4) =~= "GGUF"@);
    lemma_no_straddle(ux, t, "GGUF-"@);
    lemma_no_match_concat(ux, t, "GGUF-"@);
    assert(find_seq(ux + t, "GGUF-"@) is None);
    lemma_not_in_text(t, "GGUF."@);
    lemma_no_straddle(ux, t, "GGUF."@);
    lemma_no_match_concat(ux, t, "GGUF."@);
    assert(find_seq(ux + t, "GGUF."@) is None);
    lemma_not_in_text(t, "-MXFP4"@);
    lemma_no_straddle(ux, t, "-MXFP4"@);
    lemma_no_match_concat(ux, t, "-MXFP4"@);
    assert(find_seq(ux + t, "-MXFP4"@) is None);
    lemma_not_in_text(t, "MXFP4-"@);
    assert("MXFP4-"@.take(5) =~= "MXFP4"@);
    lemma_no_straddle(ux, t, "MXFP4-"@);
    lemma_no_match_concat(ux, t, "MXFP4-"@);
    assert(find_seq(ux + t, "MXFP4-"@) is None);
    lemma_not_in_text(t, "MXFP-"@);
    assert("MXFP-"@.take(4) =~= "MXFP"@);
    lemma_no_straddle(ux, t, "MXFP-"@);
    lemma_no_match_concat(ux, t, "MXFP-"@);
    assert(find_seq(ux + t, "MXFP-"@) is None);
    lemma_no_straddle(ux, t, t);
    assert(t.take(t.len() as int) =~= t);
    lemma_first_match_concat(ux, t, t);
    assert(sa.take(x.len() as int) + sa.skip((x.len() + t.len()) as int) =~= x);
}

#[verifier::spinoff_prover]
#[verifier::rlimit(60)]
proof fn lemma_suffix_cut_4(x: Seq<char>)
    requires
        plain_stem(x),
    ensures
        ascii_without_packaging(x + "-IQ"@) == x,
{
    reveal(ascii_without_packaging);
    reveal_strlit("-GGUF");
    reveal_strlit("-IQ");
    reveal_strlit("-MXFP");
    reveal_strlit("-MXFP4");
    reveal_strlit(".GGUF");
    reveal_strlit("GGUF");
    reveal_strlit("GGUF-");
    reveal_strlit("GGUF.");
    reveal_strlit("MXFP");
    reveal_strlit("MXFP-");
    reveal_strlit("MXFP4");
    reveal_strlit("MXFP4-");
    let ux = ascii_upper_seq(x);
    let t = "-IQ"@;
    let sa = x + t;
    lemma_ascii_upper_concat(x, t);
    assert(ascii_upper_seq(t) =~= t);
    reveal_with_fuel(occurs_from, 8);
    reveal_with_fuel(agrees, 7);
    lemma_not_in_text(t, "-GGUF"@);
    lemma_no_straddle(ux, t, "-GGUF"@);
    lemma_no_match_concat(ux, t, "-GGUF"@);
    assert(find_seq(ux + t, "-GGUF"@) is None);
    lemma_not_in_text(t, ".GGUF"@);
    lemma_no_straddle(ux, t, ".GGUF"@);
    lemma_no_match_concat(ux, t, ".GGUF"@);
    assert(find_seq(ux + t, ".GGUF"@) is None);
    lemma_not_in_text(t, "GGUF-"@);
    assert("GGUF-"@.take(4) =~= "GGUF"@);
    lemma_no_straddle(ux, t, "GGUF-"@);
    lemma_no_match_concat(ux, t, "GGUF-"@);
    assert(find_seq(ux + t, "GGUF-"@) is None);
    lemma_not_in_text(t, "GGUF."@);
    lemma_no_straddle(ux, t, "GGUF."@);
    lemma_no_match_concat(ux, t, "GGUF."@);
    assert(find_seq(ux + t, "GGUF."@) is None);
    lemma_not_in_text(t, "-MXFP4"@);
    lemma_no_straddle(ux, t, "-MXFP4"@);
    lemma_no_match_concat(ux, t, "-MXFP4"@);
    assert(find_seq(ux + t, "-MXFP4"@) is None);
    lemma_not_in_text(t, "MXFP4-"@);
    assert("MXFP4-"@.take(5) =~= "MXFP4"@);
    lemma_no_straddle(ux, t, "MXFP4-"@);
    lemma_no_match_concat(ux, t, "MXFP4-"@);
    assert(find_seq(ux + t, "MXFP4-"@) is None);
    lemma_not_in_text(t, "MXFP-"@);
    assert("MXFP-"@.take(4) =~= "MXFP"@);
    lemma_no_straddle(ux, t, "MXFP-"@);
    lemma_no_match_concat(ux, t, "MXFP-"@);
    assert(find_seq(ux + t, "MXFP-"@) is None);
    lemma_not_in_text(t, "-MXFP"@);
    lemma_no_straddle(ux, t, "-MXFP"@);
    lemma_no_match_concat(ux, t, "-MXFP"@);
    assert(find_seq(ux + t, "-MXFP"@) is None);
    lemma_no_straddle(ux, t, t);
    assert(t.take(t.len() as int) =~= t);
    lemma_first_match_concat(ux, t, t);
    assert(sa.take(x.len() as int) + sa.skip((x.len() + t.len()) as int) =~= x);
}

#[verifier::spinoff_prover]
#[verifier::rlimit(60)]
proof fn lemma_suffix_cut_5(x: Seq<char>)
    requires
        plain_stem(x),
    ensures
        ascii_without_packaging(x + "-Q4"@) == x,
{
    reveal(ascii_without_packaging);
    reveal_strlit("-GGUF");
    reveal_strlit("-IQ");
    reveal_strlit("-MXFP");
    reveal_strlit("-MXFP4");
    reveal_strlit("-Q4");
    reveal_strlit(".GGUF");
    reveal_strlit("GGUF");
    reveal_strlit("GGUF-");
    reveal_strlit("GGUF.");
    reveal_strlit("MXFP");
    reveal_strlit("MXFP-");
    reveal_strlit("MXFP4");
    reveal_strlit("MXFP4-");
    let ux = ascii_upper_seq(x);
    let t = "-Q4"@;
    let sa = x + t;
    lemma_ascii_upper_concat(x, t);
    assert(ascii_upper_seq(t) =~= t);
    reveal_with_fuel(occurs_from, 8);
    reveal_with_fuel(agrees, 7);
    lemma_not_in_text(t, "-GGUF"@);
    lemma_no_straddle(ux, t, "-GGUF"@);
    lemma_no_match_concat(ux, t, "-GGUF"@);
    assert(find_seq(ux + t, "-GGUF"@) is None);
    lemma_not_in_text(t, ".GGUF"@);
    lemma_no_straddle(ux, t, ".GGUF"@);
    lemma_no_match_concat(ux, t, ".GGUF"@);
    assert(find_seq(ux + t, ".GGUF"@) is None);
    lemma_not_in_text(t, "GGUF-"@);
    assert("GGUF-"@.take(4) =~= "GGUF"@);
    lemma_no_straddle(ux, t, "GGUF-"@);
    lemma_no_match_concat(ux, t, "GGUF-"@);
    assert(find_seq(ux + t, "GGUF-"@) is None);
    lemma_not_in_text(t, "GGUF."@);
    lemma_no_straddle(ux, t, "GGUF."@);
    lemma_no_match_concat(ux, t, "GGUF."@);
    assert(find_seq(ux + t, "GGUF."@) is None);
    lemma_not_in_text(t, "-MXFP4"@);
    lemma_no_straddle(ux, t, "-MXFP4"@);
    lemma_no_match_concat(ux, t, "-MXFP4"@);
    assert(find_seq(ux + t, "-MXFP4"@) is None);
    lemma_not_in_text(t, "MXFP4-"@);
    assert("MXFP4-"@.take(5) =~= "MXFP4"@);
    lemma_no_straddle(ux, t, "MXFP4-"@);
    lemma_no_match_concat(ux, t, "MXFP4-"@);
    assert(find_seq(ux + t, "MXFP4-"@) is None);
    lemma_not_in_text(t, "MXFP-"@);
    assert("MXFP-"@.take(4) =~= "MXFP"@);
    lemma_no_straddle(ux, t, "MXFP-"@);
    lemma_no_match_concat(ux, t, "MXFP-"@);
    assert(find_seq(ux + t, "MXFP-"@) is None);
    lemma_not_in_text(t, "-MXFP"@);
    lemma_no_straddle(ux, t, "-MXFP"@);
    lemma_no_match_concat(ux, t, "-MXFP"@);
    assert(find_seq(ux + t, "-MXFP"@) is None);
    lemma_not_in_text(t, "-IQ"@);
    lemma_no_straddle(ux, t, "-IQ"@);
    lemma_no_match_concat(ux, t, "-IQ"@);
    assert(find_seq(ux + t, "-IQ"@) is None);
    lemma_no_straddle(ux, t, t);
    assert(t.take(t.len() as int) =~= t);
    lemma_first_match_concat(ux, t, t);
    assert(sa.take(x.len() as int) + sa.skip((x.len() + t.len()) as int) =~= x);
}

#[verifier::spinoff_prover]
#[verifier::rlimit(60)]
proof fn lemma_suffix_cut_6(x: Seq<char>)
    requires
        plain_stem(x),
    ensures
        ascii_without_packaging(x + "-Q5"@) == x,
{
    reveal(ascii_without_packaging);
    reveal_strlit("-GGUF");
    reveal_strlit("-IQ");
    reveal_strlit("-MXFP");
    reveal_strlit("-MXFP4");
    reveal_strlit("-Q4");
    reveal_strlit("-Q5");
    reveal_strlit(".GGUF");
    reveal_strlit("GGUF");
    reveal_strlit("GGUF-");
    reveal_strlit("GGUF.");
    reveal_strlit("MXFP");
    reveal_strlit("MXFP-");
    reveal_strlit("MXFP4");
    reveal_strlit("MXFP4-");
    let ux = ascii_upper_seq(x);
    let t = "-Q5"@;
    let sa = x + t;
    lemma_ascii_upper_concat(x, t);
    assert(ascii_upper_seq(t) =~= t);
    reveal_with_fuel(occurs_from, 8);
    reveal_with_fuel(agrees, 7);
    lemma_not_in_text(t, "-GGUF"@);
    lemma_no_straddle(ux, t, "-GGUF"@);
    lemma_no_match_concat(ux, t, "-GGUF"@);
    assert(find_seq(ux + t, "-GGUF"@) is None);
    lemma_not_in_text(t, ".GGUF"@);
    lemma_no_straddle(ux, t, ".GGUF"@);
    lemma_no_match_concat(ux, t, ".GGUF"@);
    assert(find_seq(ux + t, ".GGUF"@) is None);
    lemma_not_in_text(t, "GGUF-"@);
    assert("GGUF-"@.take(4) =~= "GGUF"@);
    lemma_no_straddle(ux, t, "GGUF-"@);
    lemma_no_match_concat(ux, t, "GGUF-"@);
    assert(find_seq(ux + t, "GGUF-"@) is None);
    lemma_not_in_text(t, "GGUF."@);
    lemma_no_straddle(ux, t, "GGUF."@);
    lemma_no_match_concat(ux, t, "GGUF."@);
    assert(find_seq(ux + t, "GGUF."@) is None);
    lemma_not_in_text(t, "-MXFP4"@);
    lemma_no_straddle(ux, t, "-MXFP4"@);
    lemma_no_match_concat(ux, t, "-MXFP4"@);
    assert(find_seq(ux + t, "-MXFP4"@) is None);
    lemma_not_in_text(t, "MXFP4-"@);
    assert("MXFP4-"@.take(5) =~= "MXFP4"@);
    lemma_no_straddle(ux, t, "MXFP4-"@);
    lemma_no_match_concat(ux, t, "MXFP4-"@);
    assert(find_seq(ux + t, "MXFP4-"@) is None);
    lemma_not_in_text(t, "MXFP-"@);
    assert("MXFP-"@.take(4) =~= "MXFP"@);
    lemma_no_straddle(ux, t, "MXFP-"@);
    lemma_no_match_concat(ux, t, "MXFP-"@);
    assert(find_seq(ux + t, "MXFP-"@) is None);
    lemma_not_in_text(t, "-MXFP"@);
    lemma_no_straddle(ux, t, "-MXFP"@);
    lemma_no_match_concat(ux, t, "-MXFP"@);
    assert(find_seq(ux + t, "-MXFP"@) is None);
    lemma_not_in_text(t, "-IQ"@);
    lemma_no_straddle(ux, t, "-IQ"@);
    lemma_no_match_concat(ux, t, "-IQ"@);
    assert(find_seq(ux + t, "-IQ"@) is None);
    lemma_not_in_text(t, "-Q4"@);
    lemma_no_straddle(ux, t, "-Q4"@);
    lemma_no_match_concat(ux, t, "-Q4"@);
    assert(find_seq(ux + t, "-Q4"@) is None);
    lemma_no_straddle(ux, t, t);
    assert(t.take(t.len() as int) =~= t);
    lemma_first_match_concat(ux, t, t);
    assert(sa.take(x.len() as int) + sa.skip((x.len() + t.len()) as int) =~= x);
}

#[verifier::spinoff_prover]
#[verifier::rlimit(60)]
proof fn lemma_suffix_cut_7(x: Seq<char>)
    requires
        plain_stem(x),
    ensures
        ascii_without_packaging(x + "-Q6"@) == x,
{
    reveal(ascii_without_packaging);
    reveal_strlit("-GGUF");
    reveal_strlit("-IQ");
    reveal_strlit("-MXFP");
    reveal_strlit("-MXFP4");
    reveal_strlit("-Q4");
    reveal_strlit("-Q5");
    reveal_strlit("-Q6");
    reveal_strlit(".GGUF");
    reveal_strlit("GGUF");
    reveal_strlit("GGUF-");
    reveal_strlit("GGUF.");
    reveal_strlit("MXFP");
    reveal_strlit("MXFP-");
    reveal_strlit("MXFP4");
    reveal_strlit("MXFP4-");
    let ux = ascii_upper_seq(x);
    let t = "-Q6"@;
    let sa = x + t;
    lemma_ascii_upper_concat(x, t);
    assert(ascii_upper_seq(t) =~= t);
    reveal_with_fuel(occurs_from, 8);
    reveal_with_fuel(agrees, 7);
    lemma_not_in_text(t, "-GGUF"@);
    lemma_no_straddle(ux, t, "-GGUF"@);
    lemma_no_match_concat(ux, t, "-GGUF"@);
    assert(find_seq(ux + t, "-GGUF"@) is None);
    lemma_not_in_text(t, ".GGUF"@);
    lemma_no_straddle(ux, t, ".GGUF"@);
    lemma_no_match_concat(ux, t, ".GGUF"@);
    assert(find_seq(ux + t, ".GGUF"@) is None);
    lemma_not_in_text(t, "GGUF-"@);
    assert("GGUF-"@.take(4) =~= "GGUF"@);
    lemma_no_straddle(ux, t, "GGUF-"@);
    lemma_no_match_concat(ux, t, "GGUF-"@);
    assert(find_seq(ux + t, "GGUF-"@) is None);
    lemma_not_in_text(t, "GGUF."@);
    lemma_no_straddle(ux, t, "GGUF."@);
    lemma_no_match_concat(ux, t, "GGUF."@);
    assert(find_seq(ux + t, "GGUF."@) is None);
    lemma_not_in_text(t, "-MXFP4"@);
    lemma_no_straddle(ux, t, "-MXFP4"@);
    lemma_no_match_concat(ux, t, "-MXFP4"@);
    assert(find_seq(ux + t, "-MXFP4"@) is None);
    lemma_not_in_text(t, "MXFP4-"@);
    assert("MXFP4-"@.take(5) =~= "MXFP4"@);
    lemma_no_straddle(ux, t, "MXFP4-"@);
    lemma_no_match_concat(ux, t, "MXFP4-"@);
    assert(find_seq(ux + t, "MXFP4-"@) is None);
    lemma_not_in_text(t, "MXFP-"@);
    assert("MXFP-"@.take(4) =~= "MXFP"@);
    lemma_no_straddle(ux, t, "MXFP-"@);
    lemma_no_match_concat(ux, t, "MXFP-"@);
    assert(find_seq(ux + t, "MXFP-"@) is None);
    lemma_not_in_text(t, "-MXFP"@);
    lemma_no_straddle(ux, t, "-MXFP"@);
    lemma_no_match_concat(ux, t, "-MXFP"@);
    assert(find_seq(ux + t, "-MXFP"@) is None);
    lemma_not_in_text(t, "-IQ"@);
    lemma_no_straddle(ux, t, "-IQ"@);
    lemma_no_match_concat(ux, t, "-IQ"@);
    assert(find_seq(ux + t, "-IQ"@) is None);
    lemma_not_in_text(t, "-Q4"@);
    lemma_no_straddle(ux, t, "-Q4"@);
    lemma_no_match_concat(ux, t, "-Q4"@);
    assert(find_seq(ux + t, "-Q4"@) is None);
    lemma_not_in_text(t, "-Q5"@);
    lemma_no_straddle(ux, t, "-Q5"@);
    lemma_no_match_concat(ux, t, "-Q5"@);
    assert(find_seq(ux + t, "-Q5"@) is None);
    lemma_no_straddle(ux, t, t);
    assert(t.take(t.len() as int) =~= t);
    lemma_first_match_concat(ux, t, t);
    assert(sa.take(x.len() as int) + sa.skip((x.len() + t.len()) as int) =~= x);
}

#[verifier::spinoff_prover]
#[verifier::rlimit(60)]
proof fn lemma_suffix_cut_8(x: Seq<char>)
    requires
        plain_stem(x),
    ensures
        ascii_without_packaging(x + "-Q8"@) == x,
{
    reveal(ascii_without_packaging);
    reveal_strlit("-GGUF");
    reveal_strlit("-IQ");
    reveal_strlit("-MXFP");
    reveal_strlit("-MXFP4");
    reveal_strlit("-Q4");
    reveal_strlit("-Q5");
    reveal_strlit("-Q6");
    reveal_strlit("-Q8");
    reveal_strlit(".GGUF");
    reveal_strlit("GGUF");
    reveal_strlit("GGUF-");
    reveal_strlit("GGUF.");
    reveal_strlit("MXFP");
    reveal_strlit("MXFP-");
    reveal_strlit("MXFP4");
    reveal_strlit("MXFP4-");
    let ux = ascii_upper_seq(x);
    let t = "-Q8"@;
    let sa = x + t;
    lemma_ascii_upper_concat(x, t);
    assert(ascii_upper_seq(t) =~= t);
    reveal_with_fuel(occurs_from, 8);
    reveal_with_fuel(agrees, 7);
    lemma_not_in_text(t, "-GGUF"@);
    lemma_no_straddle(ux, t, "-GGUF"@);
    lemma_no_match_concat(ux, t, "-GGUF"@);
    assert(find_seq(ux + t, "-GGUF"@) is None);
    lemma_not_in_text(t, ".GGUF"@);
    lemma_no_straddle(ux, t, ".GGUF"@);
    lemma_no_match_concat(ux, t, ".GGUF"@);
    assert(find_seq(ux + t, ".GGUF"@) is None);
    lemma_not_in_text(t, "GGUF-"@);
    assert("GGUF-"@.take(4) =~= "GGUF"@);
    lemma_no_straddle(ux, t, "GGUF-"@);
    lemma_no_match_concat(ux, t, "GGUF-"@);
    assert(find_seq(ux + t, "GGUF-"@) is None);
    lemma_not_in_text(t, "GGUF."@);
    lemma_no_straddle(ux, t, "GGUF."@);
    lemma_no_match_concat(ux, t, "GGUF."@);
    assert(find_seq(ux + t, "GGUF."@) is None);
    lemma_not_in_text(t, "-MXFP4"@);
    lemma_no_straddle(ux, t, "-MXFP4"@);
    lemma_no_match_concat(ux, t, "-MXFP4"@);
    assert(find_seq(ux + t, "-MXFP4"@) is None);
    lemma_not_in_text(t, "MXFP4-"@);
    assert("MXFP4-"@.take(5) =~= "MXFP4"@);
    lemma_no_straddle(ux, t, "MXFP4-"@);
    lemma_no_match_concat(ux, t, "MXFP4-"@);
    assert(find_seq(ux + t, "MXFP4-"@) is None);
    lemma_not_in_text(t, "MXFP-"@);
    assert("MXFP-"@.take(4) =~= "MXFP"@);
    lemma_no_straddle(ux, t, "MXFP-"@);
    lemma_no_match_concat(ux, t, "MXFP-"@);
    assert(find_seq(ux + t, "MXFP-"@) is None);
    lemma_not_in_text(t, "-MXFP"@);
    lemma_no_straddle(ux, t, "-MXFP"@);
    lemma_no_match_concat(ux, t, "-MXFP"@);
    assert(find_seq(ux + t, "-MXFP"@) is None);
    lemma_not_in_text(t, "-IQ"@);
    lemma_no_straddle(ux, t, "-IQ"@);
    lemma_no_match_concat(ux, t, "-IQ"@);
    assert(find_seq(ux + t, "-IQ"@) is None);
    lemma_not_in_text(t, "-Q4"@);
    lemma_no_straddle(ux, t, "-Q4"@);
    lemma_no_match_concat(ux, t, "-Q4"@);
    assert(find_seq(ux + t, "-Q4"@) is None);
    lemma_not_in_text(t, "-Q5"@);
    lemma_no_straddle(ux, t, "-Q5"@);
    lemma_no_match_concat(ux, t, "-Q5"@);
    assert(find_seq(ux + t, "-Q5"@) is None);
    lemma_not_in_text(t, "-Q6"@);
    lemma_no_straddle(ux, t, "-Q6"@);
    lemma_no_match_concat(ux, t, "-Q6"@);
    assert(find_seq(ux + t, "-Q6"@) is None);
    lemma_no_straddle(ux, t, t);
    assert(t.take(t.len() as int) =~= t);
    lemma_first_match_concat(ux, t, t);
    assert(sa.take(x.len() as int) + sa.skip((x.len() + t.len()) as int) =~= x);
}

#[verifier::spinoff_prover]
#[verifier::rlimit(60)]
proof fn lemma_suffix_cut_9(x: Seq<char>)
    requires
        plain_stem(x),
    ensures
        ascii_without_packaging(x + "-I1"@) == x,
{
    reveal(ascii_without_packaging);
    reveal_strlit("-GGUF");
    reveal_strlit("-I1");
    reveal_strlit("-IQ");
    reveal_strlit("-MXFP");
    reveal_strlit("-MXFP4");
    reveal_strlit("-Q4");
    reveal_strlit("-Q5");
    reveal_strlit("-Q6");
    reveal_strlit("-Q8");
    reveal_strlit(".GGUF");
    reveal_strlit("GGUF");
    reveal_strlit("GGUF-");
    reveal_strlit("GGUF.");
    reveal_strlit("MXFP");
    reveal_strlit("MXFP-");
    reveal_strlit("MXFP4");
    reveal_strlit("MXFP4-");
    let ux = ascii_upper_seq(x);
    let t = "-I1"@;
    let sa = x + t;
    lemma_ascii_upper_concat(x, t);
    assert(ascii_upper_seq(t) =~= t);
    reveal_with_fuel(occurs_from, 8);
    reveal_with_fuel(agrees, 7);
    lemma_not_in_text(t, "-GGUF"@);
    lemma_no_straddle(ux, t, "-GGUF"@);
    lemma_no_match_concat(ux, t, "-GGUF"@);
    assert(find_seq(ux + t, "-GGUF"@) is None);
    lemma_not_in_text(t, ".GGUF"@);
    lemma_no_straddle(ux, t, ".GGUF"@);
    lemma_no_match_concat(ux, t, ".GGUF"@);
    assert(find_seq(ux + t, ".GGUF"@) is None);
    lemma_not_in_text(t, "GGUF-"@);
    assert("GGUF-"@.take(4) =~= "GGUF"@);
    lemma_no_straddle(ux, t, "GGUF-"@);
    lemma_no_match_concat(ux, t, "GGUF-"@);
    assert(find_seq(ux + t, "GGUF-"@) is None);
    lemma_not_in_text(t, "GGUF."@);
    lemma_no_straddle(ux, t, "GGUF."@);
    lemma_no_match_concat(ux, t, "GGUF."@);
    assert(find_seq(ux + t, "GGUF."@) is None);
    lemma_not_in_text(t, "-MXFP4"@);
    lemma_no_straddle(ux, t, "-MXFP4"@);
    lemma_no_match_concat(ux, t, "-MXFP4"@);
    assert(find_seq(ux + t, "-MXFP4"@) is None);
    lemma_not_in_text(t, "MXFP4-"@);
    assert("MXFP4-"@.take(5) =~= "MXFP4"@);
    lemma_no_straddle(ux, t, "MXFP4-"@);
    lemma_no_match_concat(ux, t, "MXFP4-"@);
    assert(find_seq(ux + t, "MXFP4-"@) is None);
    lemma_not_in_text(t, "MXFP-"@);
    assert("MXFP-"@.take(4) =~= "MXFP"@);
    lemma_no_straddle(ux, t, "MXFP-"@);
    lemma_no_match_concat(ux, t, "MXFP-"@);
    assert(find_seq(ux + t, "MXFP-"@) is None);
    lemma_not_in_text(t, "-MXFP"@);
    lemma_no_straddle(ux, t, "-MXFP"@);
    lemma_no_match_concat(ux, t, "-MXFP"@);
    assert(find_seq(ux + t, "-MXFP"@) is None);
    lemma_not_in_text(t, "-IQ"@);
    lemma_no_straddle(ux, t, "-IQ"@);
    lemma_no_match_concat(ux, t, "-IQ"@);
    assert(find_seq(ux + t, "-IQ"@) is None);
    lemma_not_in_text(t, "-Q4"@);
    lemma_no_straddle(ux, t, "-Q4"@);
    lemma_no_match_concat(ux, t, "-Q4"@);
    assert(find_seq(ux + t, "-Q4"@) is None);
    lemma_not_in_text(t, "-Q5"@);
    lemma_no_straddle(ux, t, "-Q5"@);
    lemma_no_match_concat(ux, t, "-Q5"@);
    assert(find_seq(ux + t, "-Q5"@) is None);
    lemma_not_in_text(t, "-Q6"@);
    lemma_no_straddle(ux, t, "-Q6"@);
    lemma_no_match_concat(ux, t, "-Q6"@);
    assert(find_seq(ux + t, "-Q6"@) is None);
    lemma_not_in_text(t, "-Q8"@);
    lemma_no_straddle(ux, t, "-Q8"@);
    lemma_no_match_concat(ux, t, "-Q8"@);
    assert(find_seq(ux + t, "-Q8"@) is None);
    lemma_no_straddle(ux, t, t);
    assert(t.take(t.len() as int) =~= t);
    lemma_first_match_concat(ux, t, t);
    assert(sa.take(x.len() as int) + sa.skip((x.len() + t.len()) as int) =~= x);
}

#[verifier::spinoff_prover]
#[verifier::rlimit(60)]
proof fn lemma_suffix_cut_10(x: Seq<char>)
    requires
        plain_stem(x),
    ensures
        ascii_without_packaging(x + "-V1"@) == x,
{
    reveal(ascii_without_packaging);
    reveal_strlit("-GGUF");
    reveal_strlit("-I1");
    reveal_strlit("-IQ");
    reveal_strlit("-MXFP");
    reveal_strlit("-MXFP4");
    reveal_strlit("-Q4");
    reveal_strlit("-Q5");
    reveal_strlit("-Q6");
    reveal_strlit("-Q8");
    reveal_strlit("-V1");
    reveal_strlit(".GGUF");
    reveal_strlit("GGUF");
    reveal_strlit("GGUF-");
    reveal_strlit("GGUF.");
    reveal_strlit("MXFP");
    reveal_strlit("MXFP-");
    reveal_strlit("MXFP4");
    reveal_strlit("MXFP4-");
    let ux = ascii_upper_seq(x);
    let t = "-V1"@;
    let sa = x + t;
    lemma_ascii_upper_concat(x, t);
    assert(ascii_upper_seq(t) =~= t);
    reveal_with_fuel(occurs_from, 8);
    reveal_with_fuel(agrees, 7);
    lemma_not_in_text(t, "-GGUF"@);
    lemma_no_straddle(ux, t, "-GGUF"@);
    lemma_no_match_concat(ux, t, "-GGUF"@);
    assert(find_seq(ux + t, "-GGUF"@) is None);
    lemma_not_in_text(t, ".GGUF"@);
    lemma_no_straddle(ux, t, ".GGUF"@);
    lemma_no_match_concat(ux, t, ".GGUF"@);
    assert(find_seq(ux + t, ".GGUF"@) is None);
    lemma_not_in_text(t, "GGUF-"@);
    assert("GGUF-"@.take(4) =~= "GGUF"@);
    lemma_no_straddle(ux, t, "GGUF-"@);
    lemma_no_match_concat(ux, t, "GGUF-"@);
    assert(find_seq(ux + t, "GGUF-"@) is None);
    lemma_not_in_text(t, "GGUF."@);
    lemma_no_straddle(ux, t, "GGUF."@);
    lemma_no_match_concat(ux, t, "GGUF."@);
    assert(find_seq(ux + t, "GGUF."@) is None);
    lemma_not_in_text(t, "-MXFP4"@);
    lemma_no_straddle(ux, t, "-MXFP4"@);
    lemma_no_match_concat(ux, t, "-MXFP4"@);
    assert(find_seq(ux + t, "-MXFP4"@) is None);
    lemma_not_in_text(t, "MXFP4-"@);
    assert("MXFP4-"@.take(5) =~= "MXFP4"@);
    lemma_no_straddle(ux, t, "MXFP4-"@);
    lemma_no_match_concat(ux, t, "MXFP4-"@);
    assert(find_seq(ux + t, "MXFP4-"@) is None);
    lemma_not_in_text(t, "MXFP-"@);
    assert("MXFP-"@.take(4) =~= "MXFP"@);
    lemma_no_straddle(ux, t, "MXFP-"@);
    lemma_no_match_concat(ux, t, "MXFP-"@);
    assert(find_seq(ux + t, "MXFP-"@) is None);
    lemma_not_in_text(t, "-MXFP"@);
    lemma_no_straddle(ux, t, "-MXFP"@);
    lemma_no_match_concat(ux, t, "-MXFP"@);
    assert(find_seq(ux + t, "-MXFP"@) is None);
    lemma_not_in_text(t, "-IQ"@);
    lemma_no_straddle(ux, t, "-IQ"@);
    lemma_no_match_concat(ux, t, "-IQ"@);
    assert(find_seq(ux + t, "-IQ"@) is None);
    lemma_not_in_text(t, "-Q4"@);
    lemma_no_straddle(ux, t, "-Q4"@);
    lemma_no_match_concat(ux, t, "-Q4"@);
    assert(find_seq(ux + t, "-Q4"@) is None);
    lemma_not_in_text(t, "-Q5"@);
    lemma_no_straddle(ux, t, "-Q5"@);
    lemma_no_match_concat(ux, t, "-Q5"@);
    assert(find_seq(ux + t, "-Q5"@) is None);
    lemma_not_in_text(t, "-Q6"@);
    lemma_no_straddle(ux, t, "-Q6"@);
    lemma_no_match_concat(ux, t, "-Q6"@);
    assert(find_seq(ux + t, "-Q6"@) is None);
    lemma_not_in_text(t, "-Q8"@);
    lemma_no_straddle(ux, t, "-Q8"@);
    lemma_no_match_concat(ux, t, "-Q8"@);
    assert(find_seq(ux + t, "-Q8"@) is None);
    lemma_not_in_text(t, "-I1"@);
    lemma_no_straddle(ux, t, "-I1"@);
    lemma_no_match_concat(ux, t, "-I1"@);
    assert(find_seq(ux + t, "-I1"@) is None);
    lemma_no_straddle(ux, t, t);
    assert(t.take(t.len() as int) =~= t);
    lemma_first_match_concat(ux, t, t);
    assert(sa.take(x.len() as int) + sa.skip((x.len() + t.len()) as int) =~= x);
}

/// Cutting the packaging out of an ASCII base made of a plain stem `x`
/// and one fragment that ends names (`-GGUF`, `.GGUF`, `-MXFP4`, `-MXFP`,
/// `-IQ`, `-Q4`, `-Q5`, `-Q6`, `-Q8`, `-I1`, `-V1`) leaves `x`: the
/// fragment is cut whole.
pub proof fn lemma_fragment_suffix_cut(x: Seq<char>, k: int)
    requires
        plain_stem(x),
        0 <= k < suffix_fragments().len(),
    ensures
        ascii_without_packaging(x + suffix_fragments()[k]) == x,
{
    if k == 0 {
        lemma_suffix_cut_0(x);
    }     else if k == 1 {
        lemma_suffix_cut_1(x);
    }     else if k == 2 {
        lemma_suffix_cut_2(x);
    }     else if k == 3 {
        lemma_suffix_cut_3(x);
    }     else if k == 4 {
        lemma_suffix_cut_4(x);
    }     else if k == 5 {
        lemma_suffix_cut_5(x);
    }     else if k == 6 {
        lemma_suffix_cut_6(x);
    }     else if k == 7 {
        lemma_suffix_cut_7(x);
    }     else if k == 8 {
        lemma_suffix_cut_8(x);
    }     else if k == 9 {
        lemma_suffix_cut_9(x);
    }     else if k == 10 {
        lemma_suffix_cut_10(x);
    }
}

/// Cutting the packaging out of an ASCII base `x + "-MXFP4"` or
/// `x + "-MXFP4-GGUF"`, with `x` a plain stem, leaves `x`: each fragment is
/// cut whole.
#[verifier::spinoff_prover]
#[verifier::rlimit(60)]
pub proof fn lemma_mxfp4_suffix_cut(x: Seq<char>)
    requires
        plain_stem(x),
    ensures
        ascii_without_packaging(x + "-MXFP4"@) == x,
        ascii_without_packaging(x + "-MXFP4-GGUF"@) == x,
{
    reveal(ascii_without_packaging);
    reveal_strlit("-MXFP4");
    reveal_strlit("-MXFP4-GGUF");
    reveal_strlit("-GGUF");
    reveal_strlit(".GGUF");
    reveal_strlit("GGUF-");
    reveal_strlit("GGUF.");
    reveal_strlit("GGUF");
    let ux = ascii_upper_seq(x);
    let t = "-MXFP4"@;
    let sa = x + t;
    lemma_ascii_upper_concat(x, t);
    assert(ascii_upper_seq(t) =~= t);
    assert(ascii_upper_seq(sa) == ux + t);
    reveal_with_fuel(occurs_from, 8);
    reveal_with_fuel(agrees, 7);
    // Steps that find nothing in `x + "-MXFP4"`.
    lemma_not_in_text(t, "-GGUF"@);
    lemma_no_straddle(ux, t, "-GGUF"@);
    lemma_no_match_concat(ux, t, "-GGUF"@);
    lemma_not_in_text(t, ".GGUF"@);
    lemma_no_straddle(ux, t, ".GGUF"@);
    lemma_no_match_concat(ux, t, ".GGUF"@);
    lemma_not_in_text(t, "GGUF-"@);
    assert("GGUF-"@.take(4) =~= "GGUF"@);
    lemma_no_straddle(ux, t, "GGUF-"@);
    lemma_no_match_concat(ux, t, "GGUF-"@);
    lemma_not_in_text(t, "GGUF."@);
    lemma_no_straddle(ux, t, "GGUF."@);
    lemma_no_match_concat(ux, t, "GGUF."@);
    assert(find_seq(ux + t, "-GGUF"@) is None);
    assert(find_seq(ux + t, ".GGUF"@) is None);
    assert(find_seq(ux + t, "GGUF-"@) is None);
    assert(find_seq(ux + t, "GGUF."@) is None);
    // The `-MXFP4` step cuts the suffix.
    lemma_no_straddle(ux, t, "-MXFP4"@);
    assert(t.take(6) =~= "-MXFP4"@);
    lemma_first_match_concat(ux, t, "-MXFP4"@);
    assert(sa.take(x.len() as int) + sa.skip((x.len() + 6) as int) =~= x);
    // The suffix with `-GGUF`: that step cuts `-GGUF` and leaves `x + "-MXFP4"`.
    let g = "-GGUF"@;
    let sb = sa + g;
    assert(sb =~= x + "-MXFP4-GGUF"@);
    lemma_ascii_upper_concat(sa, g);
    assert(ascii_upper_seq(g) =~= g);
    lemma_no_straddle(ux + t, g, g);
    assert(g.take(5) =~= g);
    lemma_first_match_concat(ux + t, g, g);
    assert(sb.take(sa.len() as int) + sb.skip((sa.len() + 5) as int) =~= sa);
    assert(ascii_cut(sb, g) == ascii_cut(sa, g));
}

} // verus!
