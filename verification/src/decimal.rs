//! Decimal literals in the syntax that `f64::from_str` accepts.
use vstd::prelude::*;

use crate::text::slice_chars;

verus! {

pub open spec fn is_digit(c: char) -> bool {
    '0' <= c && c <= '9'
}

pub open spec fn digit_of(c: char) -> nat {
    ((c as u32) - ('0' as u32)) as nat
}

pub open spec fn all_digits(s: Seq<char>) -> bool {
    forall|i: int| 0 <= i < s.len() ==> is_digit(#[trigger] s[i])
}

/// ASCII lower case of one character.
pub open spec fn ascii_lower(c: char) -> char {
    if 'A' <= c <= 'Z' {
        ((c as u32) + 32) as char
    } else {
        c
    }
}

/// `s` spells `word` (given in lower case) without regard to ASCII case.
pub open spec fn spells(s: Seq<char>, word: Seq<char>) -> bool {
    s.len() == word.len() && forall|i: int| 0 <= i < s.len() ==> ascii_lower(s[i]) == word[i]
}

pub open spec fn word_inf() -> Seq<char> {
    seq!['i', 'n', 'f']
}

pub open spec fn word_infinity() -> Seq<char> {
    seq!['i', 'n', 'f', 'i', 'n', 'i', 't', 'y']
}

pub open spec fn word_nan() -> Seq<char> {
    seq!['n', 'a', 'n']
}

pub open spec fn is_sign(c: char) -> bool {
    c == '+' || c == '-'
}

/// The literal without its leading sign.
pub open spec fn unsigned_part(s: Seq<char>) -> Seq<char> {
    if s.len() > 0 && is_sign(s[0]) {
        s.drop_first()
    } else {
        s
    }
}

pub open spec fn is_exp_mark(c: char) -> bool {
    c == 'e' || c == 'E'
}

/// Index of the first exponent mark (`e` or `E`).
pub open spec fn exp_mark(s: Seq<char>) -> Option<int> {
    if exists|i: int|
        0 <= i < s.len() && is_exp_mark(s[i]) && forall|j: int|
            0 <= j < i ==> !is_exp_mark(#[trigger] s[j]) {
        Some(
            choose|i: int|
                0 <= i < s.len() && is_exp_mark(s[i]) && forall|j: int|
                    0 <= j < i ==> !is_exp_mark(#[trigger] s[j]),
        )
    } else {
        None
    }
}

/// Index of the first `.`.
pub open spec fn point_mark(s: Seq<char>) -> Option<int> {
    if exists|i: int|
        0 <= i < s.len() && s[i] == '.' && forall|j: int| 0 <= j < i ==> #[trigger] s[j] != '.' {
        Some(
            choose|i: int|
                0 <= i < s.len() && s[i] == '.' && forall|j: int|
                    0 <= j < i ==> #[trigger] s[j] != '.',
        )
    } else {
        None
    }
}

/// The mantissa of an unsigned literal: everything before the exponent mark.
pub open spec fn mantissa(u: Seq<char>) -> Seq<char> {
    match exp_mark(u) {
        Some(i) => u.take(i),
        None => u,
    }
}

/// The exponent after the first `e` or `E` is well-formed: an optional sign
/// and at least one digit (true when there is no exponent).
pub open spec fn exponent_ok(u: Seq<char>) -> bool {
    match exp_mark(u) {
        None => true,
        Some(i) => {
            let d = unsigned_part(u.skip(i + 1));
            d.len() > 0 && all_digits(d)
        },
    }
}

/// Digits before the decimal point.
pub open spec fn int_digits(m: Seq<char>) -> Seq<char> {
    match point_mark(m) {
        Some(i) => m.take(i),
        None => m,
    }
}

/// Digits after the decimal point.
pub open spec fn frac_digits(m: Seq<char>) -> Seq<char> {
    match point_mark(m) {
        Some(i) => m.skip(i + 1),
        None => Seq::empty(),
    }
}

/// The mantissa is well-formed: digits, at most one point, at least one digit.
pub open spec fn mantissa_ok(m: Seq<char>) -> bool {
    all_digits(int_digits(m)) && all_digits(frac_digits(m)) && int_digits(m).len() + frac_digits(
        m,
    ).len() >= 1
}

/// Does `f64::from_str` accept `s`? An optional sign, then `inf`,
/// `infinity` or `nan` in any ASCII case, or digits with at most one point
/// (at least one digit) and an optional exponent.
pub open spec fn is_float_literal(s: Seq<char>) -> bool {
    let u = unsigned_part(s);
    spells(u, word_inf()) || spells(u, word_infinity()) || spells(u, word_nan()) || (exponent_ok(u)
        && mantissa_ok(mantissa(u)))
}

// ---------------------------------------------------------------------------
// Executable reading

fn all_digit_chars(v: &[char]) -> (r: bool)
    ensures
        r == all_digits(v@),
{
    let mut i: usize = 0;
    while i < v.len()
        invariant
            i <= v@.len(),
            forall|j: int| 0 <= j < i ==> is_digit(#[trigger] v@[j]),
        decreases v@.len() - i,
    {
        if !('0' <= v[i] && v[i] <= '9') {
            return false;
        }
        i += 1;
    }
    true
}

/// Does `s` spell `word` (given in lower case) without regard to ASCII case?
fn spells_word(s: &[char], word: &[char]) -> (r: bool)
    ensures
        r == spells(s@, word@),
{
    if s.len() != word.len() {
        return false;
    }
    let mut i: usize = 0;
    while i < s.len()
        invariant
            s@.len() == word@.len(),
            i <= s@.len(),
            forall|j: int| 0 <= j < i ==> ascii_lower(s@[j]) == word@[j],
        decreases s@.len() - i,
    {
        let c = s[i];
        let l = if 'A' <= c && c <= 'Z' {
            ((c as u8) + 32) as char
        } else {
            c
        };
        if l != word[i] {
            return false;
        }
        i += 1;
    }
    true
}

fn find_exp_mark(u: &[char]) -> (r: Option<usize>)
    ensures
        r matches Some(i) ==> exp_mark(u@) == Some(i as int) && i < u@.len(),
        r is None ==> exp_mark(u@) is None,
{
    let mut i: usize = 0;
    while i < u.len()
        invariant
            i <= u@.len(),
            forall|j: int| 0 <= j < i ==> !is_exp_mark(#[trigger] u@[j]),
        decreases u@.len() - i,
    {
        if u[i] == 'e' || u[i] == 'E' {
            proof {
                let k = choose|k: int|
                    0 <= k < u@.len() && is_exp_mark(u@[k]) && forall|j: int|
                        0 <= j < k ==> !is_exp_mark(#[trigger] u@[j]);
                if k < i {
                    assert(!is_exp_mark(u@[k]));
                }
                if i < k {
                    assert(!is_exp_mark(u@[i as int]));
                }
            }
            return Some(i);
        }
        i += 1;
    }
    None
}

fn find_point(m: &[char]) -> (r: Option<usize>)
    ensures
        r matches Some(i) ==> point_mark(m@) == Some(i as int) && i < m@.len(),
        r is None ==> point_mark(m@) is None,
{
    let mut i: usize = 0;
    while i < m.len()
        invariant
            i <= m@.len(),
            forall|j: int| 0 <= j < i ==> #[trigger] m@[j] != '.',
        decreases m@.len() - i,
    {
        if m[i] == '.' {
            proof {
                let k = choose|k: int|
                    0 <= k < m@.len() && m@[k] == '.' && forall|j: int|
                        0 <= j < k ==> #[trigger] m@[j] != '.';
                if k < i {
                    assert(m@[k] != '.');
                }
                if i < k {
                    assert(m@[i as int] != '.');
                }
            }
            return Some(i);
        }
        i += 1;
    }
    None
}

/// Does `f64::from_str` accept `s` (see `is_float_literal`)?
pub fn float_literal(s: &[char]) -> (r: bool)
    ensures
        r == is_float_literal(s@),
{
    let start: usize = if s.len() > 0 && (s[0] == '+' || s[0] == '-') {
        1
    } else {
        0
    };
    let u = slice_chars(s, start, s.len());
    assert(u@ =~= unsigned_part(s@));
    let w_inf = vec!['i', 'n', 'f'];
    let w_infinity = vec!['i', 'n', 'f', 'i', 'n', 'i', 't', 'y'];
    let w_nan = vec!['n', 'a', 'n'];
    assert(w_inf@ =~= word_inf());
    assert(w_infinity@ =~= word_infinity());
    assert(w_nan@ =~= word_nan());
    if spells_word(u.as_slice(), w_inf.as_slice()) || spells_word(u.as_slice(), w_infinity.as_slice())
        || spells_word(u.as_slice(), w_nan.as_slice()) {
        return true;
    }
    let n = u.len();
    let mend: usize = match find_exp_mark(u.as_slice()) {
        None => {
            assert(u@.take(n as int) =~= u@);
            n
        },
        Some(i) => {
            let e = slice_chars(u.as_slice(), i + 1, n);
            assert(e@ =~= u@.skip(i + 1));
            let estart: usize = if e.len() > 0 && (e[0] == '+' || e[0] == '-') {
                1
            } else {
                0
            };
            let d = slice_chars(e.as_slice(), estart, e.len());
            assert(d@ =~= unsigned_part(e@));
            if d.len() == 0 || !all_digit_chars(d.as_slice()) {
                return false;
            }
            i
        },
    };
    let m = slice_chars(u.as_slice(), 0, mend);
    assert(m@ =~= mantissa(u@));
    let mn = m.len();
    let (ip, fp): (Vec<char>, Vec<char>) = match find_point(m.as_slice()) {
        None => (slice_chars(m.as_slice(), 0, mn), Vec::new()),
        Some(i) => (slice_chars(m.as_slice(), 0, i), slice_chars(m.as_slice(), i + 1, mn)),
    };
    assert(ip@ =~= int_digits(m@));
    assert(fp@ =~= frac_digits(m@));
    all_digit_chars(ip.as_slice()) && all_digit_chars(fp.as_slice()) && (ip.len() > 0 || fp.len() > 0)
}

} // verus!
