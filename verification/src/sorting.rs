//! Ordering the model list by name, size or modification time.
use vstd::prelude::*;

use crate::modelfile::{sanitize_model_name, sanitized_name};
use crate::text::{chars_of, lower_case, to_lower_case};
use crate::types::Model;

verus! {

/// The column the model table is sorted by.
#[derive(PartialEq, Eq, Debug, Clone, Copy, Structural)]
pub enum SortColumn {
    Name,
    Size,
    Modified,
}

/// `a` comes strictly before `b` in lexicographic order of characters (the
/// order of `String`'s `Ord`, since UTF-8 keeps code-point order).
pub open spec fn text_lt(a: Seq<char>, b: Seq<char>) -> bool
    decreases a.len(),
{
    if a.len() == 0 {
        b.len() > 0
    } else if b.len() == 0 {
        false
    } else if a[0] < b[0] {
        true
    } else if a[0] == b[0] {
        text_lt(a.drop_first(), b.drop_first())
    } else {
        false
    }
}

pub open spec fn text_le(a: Seq<char>, b: Seq<char>) -> bool {
    !text_lt(b, a)
}

/// The text a model is sorted by: its lower-cased display name, or its
/// modification time.
pub open spec fn sort_text(m: Model, col: SortColumn) -> Seq<char> {
    match col {
        SortColumn::Name => lower_case(sanitized_name(m.name@)),
        SortColumn::Modified => m.modified_at@,
        SortColumn::Size => Seq::empty(),
    }
}

/// `a` may stay before `b` when sorting by `col`.
pub open spec fn key_le(a: Model, b: Model, col: SortColumn) -> bool {
    match col {
        SortColumn::Size => a.size <= b.size,
        _ => text_le(sort_text(a, col), sort_text(b, col)),
    }
}

/// `s` with `x` inserted after every element that may precede it, scanning
/// from the end: the step of a stable insertion sort.
pub open spec fn insert_sorted(s: Seq<Model>, x: Model, col: SortColumn) -> Seq<Model>
    decreases s.len(),
{
    if s.len() == 0 {
        seq![x]
    } else if key_le(s.last(), x, col) {
        s.push(x)
    } else {
        insert_sorted(s.drop_last(), x, col).push(s.last())
    }
}

/// The first `n` elements of `s`, stably sorted by `col`.
pub open spec fn sorted_prefix(s: Seq<Model>, n: int, col: SortColumn) -> Seq<Model>
    decreases n,
{
    if n <= 0 {
        Seq::empty()
    } else {
        insert_sorted(sorted_prefix(s, n - 1, col), s[n - 1], col)
    }
}

/// `s` stably sorted by `col` (what `sort_by` / `sort_by_key` give).
pub open spec fn sorted_by(s: Seq<Model>, col: SortColumn) -> Seq<Model> {
    sorted_prefix(s, s.len() as int, col)
}

// ---------------------------------------------------------------------------
// The lexicographic order is a total order.

pub proof fn lemma_text_lt_irreflexive(a: Seq<char>)
    ensures
        !text_lt(a, a),
    decreases a.len(),
{
    if a.len() > 0 {
        lemma_text_lt_irreflexive(a.drop_first());
    }
}

pub proof fn lemma_text_lt_total(a: Seq<char>, b: Seq<char>)
    ensures
        text_lt(a, b) || text_lt(b, a) || a == b,
    decreases a.len(),
{
    if a.len() > 0 && b.len() > 0 && a[0] == b[0] {
        lemma_text_lt_total(a.drop_first(), b.drop_first());
        if a.drop_first() == b.drop_first() {
            assert(a =~= seq![a[0]] + a.drop_first());
            assert(b =~= seq![b[0]] + b.drop_first());
        }
    } else if a.len() > 0 && b.len() > 0 {
    } else if a.len() == 0 && b.len() == 0 {
        assert(a =~= b);
    }
}

pub proof fn lemma_text_lt_transitive(a: Seq<char>, b: Seq<char>, c: Seq<char>)
    requires
        text_lt(a, b),
        text_lt(b, c),
    ensures
        text_lt(a, c),
    decreases a.len(),
{
    if a.len() > 0 && b.len() > 0 && c.len() > 0 && a[0] == b[0] && b[0] == c[0] {
        lemma_text_lt_transitive(a.drop_first(), b.drop_first(), c.drop_first());
    }
}

pub proof fn lemma_text_lt_asymmetric(a: Seq<char>, b: Seq<char>)
    requires
        text_lt(a, b),
    ensures
        !text_lt(b, a),
{
    if text_lt(b, a) {
        lemma_text_lt_transitive(a, b, a);
        lemma_text_lt_irreflexive(a);
    }
}

/// `key_le` is total: of two models, one may precede the other.
pub proof fn lemma_key_le_total(a: Model, b: Model, col: SortColumn)
    ensures
        key_le(a, b, col) || key_le(b, a, col),
{
    if col != SortColumn::Size {
        let x = sort_text(a, col);
        let y = sort_text(b, col);
        if text_lt(x, y) {
            lemma_text_lt_asymmetric(x, y);
        }
    }
}

/// `key_le` is transitive.
pub proof fn lemma_key_le_transitive(a: Model, b: Model, c: Model, col: SortColumn)
    requires
        key_le(a, b, col),
        key_le(b, c, col),
    ensures
        key_le(a, c, col),
{
    if col != SortColumn::Size {
        let x = sort_text(a, col);
        let y = sort_text(b, col);
        let z = sort_text(c, col);
        lemma_text_lt_total(x, y);
        lemma_text_lt_total(y, z);
        if text_lt(z, x) {
            if text_lt(x, y) {
                lemma_text_lt_transitive(z, x, y);
            } else if x == y {
            }
        }
    }
}

// ---------------------------------------------------------------------------
// Laws of the sort

/// Every pair of positions is in order.
pub open spec fn is_sorted(s: Seq<Model>, col: SortColumn) -> bool {
    forall|i: int, j: int| 0 <= i < j < s.len() ==> key_le(#[trigger] s[i], #[trigger] s[j], col)
}

proof fn lemma_insert_multiset(s: Seq<Model>, x: Model, col: SortColumn)
    ensures
        insert_sorted(s, x, col).to_multiset() =~= s.to_multiset().insert(x),
    decreases s.len(),
{
    s.to_multiset_ensures();
    if s.len() == 0 {
        assert(seq![x] =~= s.push(x));
        assert(s.push(x).to_multiset() =~= s.to_multiset().insert(x));
    } else if key_le(s.last(), x, col) {
        assert(s.push(x).to_multiset() =~= s.to_multiset().insert(x));
    } else {
        let t = s.drop_last();
        let last = s.last();
        lemma_insert_multiset(t, x, col);
        let u = insert_sorted(t, x, col);
        u.to_multiset_ensures();
        t.to_multiset_ensures();
        assert(s =~= t.push(last));
        assert(u.push(last).to_multiset() =~= u.to_multiset().insert(last));
        assert(t.push(last).to_multiset() =~= t.to_multiset().insert(last));
        assert(insert_sorted(s, x, col) == u.push(last));
    }
}

proof fn lemma_insert_members(s: Seq<Model>, x: Model, col: SortColumn, e: Model)
    requires
        insert_sorted(s, x, col).contains(e),
    ensures
        e == x || s.contains(e),
{
    let u = insert_sorted(s, x, col);
    lemma_insert_multiset(s, x, col);
    u.to_multiset_ensures();
    s.to_multiset_ensures();
    assert(u.to_multiset().count(e) > 0);
    if e != x {
        assert(s.to_multiset().count(e) > 0);
    }
}

proof fn lemma_insert_keeps_sorted(s: Seq<Model>, x: Model, col: SortColumn)
    requires
        is_sorted(s, col),
    ensures
        is_sorted(insert_sorted(s, x, col), col),
    decreases s.len(),
{
    if s.len() == 0 {
    } else if key_le(s.last(), x, col) {
        let r = s.push(x);
        assert forall|i: int, j: int| 0 <= i < j < r.len() implies key_le(
            #[trigger] r[i],
            #[trigger] r[j],
            col,
        ) by {
            if j == s.len() {
                if i < s.len() - 1 {
                    lemma_key_le_transitive(s[i], s.last(), x, col);
                }
            }
        }
    } else {
        let t = s.drop_last();
        let last = s.last();
        lemma_insert_keeps_sorted(t, x, col);
        let u = insert_sorted(t, x, col);
        lemma_key_le_total(last, x, col);
        assert forall|k: int| 0 <= k < u.len() implies key_le(#[trigger] u[k], last, col) by {
            assert(u.contains(u[k]));
            lemma_insert_members(t, x, col, u[k]);
            if u[k] != x {
                let m = choose|m: int| 0 <= m < t.len() && t[m] == u[k];
                assert(s[m] == t[m]);
            }
        }
        let r = u.push(last);
        assert forall|i: int, j: int| 0 <= i < j < r.len() implies key_le(
            #[trigger] r[i],
            #[trigger] r[j],
            col,
        ) by {
            if j == u.len() {
                assert(r[i] == u[i]);
            } else {
                assert(r[i] == u[i] && r[j] == u[j]);
            }
        }
    }
}

proof fn lemma_sorted_prefix(s: Seq<Model>, n: int, col: SortColumn)
    requires
        0 <= n <= s.len(),
    ensures
        is_sorted(sorted_prefix(s, n, col), col),
        sorted_prefix(s, n, col).to_multiset() =~= s.take(n).to_multiset(),
    decreases n,
{
    if n > 0 {
        lemma_sorted_prefix(s, n - 1, col);
        lemma_insert_keeps_sorted(sorted_prefix(s, n - 1, col), s[n - 1], col);
        lemma_insert_multiset(sorted_prefix(s, n - 1, col), s[n - 1], col);
        assert(s.take(n) =~= s.take(n - 1).push(s[n - 1]));
        s.take(n - 1).to_multiset_ensures();
        assert(s.take(n - 1).push(s[n - 1]).to_multiset() =~= s.take(n - 1).to_multiset().insert(
            s[n - 1],
        ));
    } else {
        assert(s.take(0) =~= Seq::<Model>::empty());
        assert(Seq::<Model>::empty().to_multiset() =~= vstd::multiset::Multiset::empty()) by {
            broadcast use vstd::seq_lib::group_to_multiset_ensures;
        }
    }
}

/// Sorting puts the models in order of the column: every model may precede
/// every later one.
pub proof fn lemma_sorted_by_is_sorted(s: Seq<Model>, col: SortColumn)
    ensures
        is_sorted(sorted_by(s, col), col),
{
    lemma_sorted_prefix(s, s.len() as int, col);
}

/// What each column orders by: by modification time the `modified_at`
/// texts never decrease, by size the sizes never decrease, and by name the
/// lower-cased display names never decrease (text compared character by
/// character, as `String`'s `Ord` does).
pub proof fn lemma_sorted_by_column(s: Seq<Model>, col: SortColumn)
    ensures
        forall|i: int, j: int|
            #![trigger sorted_by(s, col)[i], sorted_by(s, col)[j]]
            0 <= i < j < sorted_by(s, col).len() ==> match col {
                SortColumn::Modified => text_le(
                    sorted_by(s, col)[i].modified_at@,
                    sorted_by(s, col)[j].modified_at@,
                ),
                SortColumn::Size => sorted_by(s, col)[i].size <= sorted_by(s, col)[j].size,
                SortColumn::Name => text_le(
                    lower_case(sanitized_name(sorted_by(s, col)[i].name@)),
                    lower_case(sanitized_name(sorted_by(s, col)[j].name@)),
                ),
            },
{
    lemma_sorted_by_is_sorted(s, col);
    let r = sorted_by(s, col);
    assert forall|i: int, j: int| #![trigger r[i], r[j]] 0 <= i < j < r.len() implies match col {
        SortColumn::Modified => text_le(r[i].modified_at@, r[j].modified_at@),
        SortColumn::Size => r[i].size <= r[j].size,
        SortColumn::Name => text_le(lower_case(sanitized_name(r[i].name@)), lower_case(sanitized_name(r[j].name@))),
    } by {
        assert(key_le(r[i], r[j], col));
    }
}

/// Sorting neither loses nor adds a model: the result holds the same models,
/// each as often as before.
pub proof fn lemma_sorted_by_permutes(s: Seq<Model>, col: SortColumn)
    ensures
        sorted_by(s, col).to_multiset() == s.to_multiset(),
{
    lemma_sorted_prefix(s, s.len() as int, col);
    assert(s.take(s.len() as int) =~= s);
}

/// `a` and `b` sort alike: each may precede the other.
pub open spec fn same_key(a: Model, b: Model, col: SortColumn) -> bool {
    key_le(a, b, col) && key_le(b, a, col)
}

/// The models that sort alike with `k`.
pub open spec fn key_class(k: Model, col: SortColumn) -> spec_fn(Model) -> bool {
    |m: Model| same_key(m, k, col)
}

proof fn lemma_insert_filter(t: Seq<Model>, x: Model, col: SortColumn, k: Model)
    ensures
        insert_sorted(t, x, col).filter(key_class(k, col)) == if same_key(x, k, col) {
            t.filter(key_class(k, col)).push(x)
        } else {
            t.filter(key_class(k, col))
        },
    decreases t.len(),
{
    let p = key_class(k, col);
    if t.len() == 0 {
        reveal(Seq::filter);
        assert(seq![x] =~= t.push(x));
        t.lemma_filter_push(x, p);
    } else if key_le(t.last(), x, col) {
        t.lemma_filter_push(x, p);
    } else {
        let u = t.drop_last();
        let last = t.last();
        lemma_insert_filter(u, x, col, k);
        insert_sorted(u, x, col).lemma_filter_push(last, p);
        u.lemma_filter_push(last, p);
        assert(u.push(last) =~= t);
        if same_key(x, k, col) && same_key(last, k, col) {
            lemma_key_le_transitive(last, k, x, col);
        }
    }
}

proof fn lemma_sorted_prefix_stable(s: Seq<Model>, n: int, col: SortColumn, k: Model)
    requires
        0 <= n <= s.len(),
    ensures
        sorted_prefix(s, n, col).filter(key_class(k, col)) == s.take(n).filter(key_class(k, col)),
    decreases n,
{
    if n > 0 {
        lemma_sorted_prefix_stable(s, n - 1, col, k);
        lemma_insert_filter(sorted_prefix(s, n - 1, col), s[n - 1], col, k);
        assert(s.take(n) =~= s.take(n - 1).push(s[n - 1]));
        s.take(n - 1).lemma_filter_push(s[n - 1], key_class(k, col));
    } else {
        reveal(Seq::filter);
        assert(s.take(0) =~= Seq::<Model>::empty());
    }
}

/// Sorting is stable: the models that sort alike with any model `k` keep
/// their order (and number).
pub proof fn lemma_sorted_by_stable(s: Seq<Model>, col: SortColumn, k: Model)
    ensures
        sorted_by(s, col).filter(key_class(k, col)) == s.filter(key_class(k, col)),
{
    lemma_sorted_prefix_stable(s, s.len() as int, col, k);
    assert(s.take(s.len() as int) =~= s);
}

// ---------------------------------------------------------------------------
// Executable sort

/// What a model is compared by, computed once per model.
struct SortKey {
    text: Vec<char>,
    size: u64,
}

spec fn key_matches(k: SortKey, m: Model, col: SortColumn) -> bool {
    k.text@ == sort_text(m, col) && k.size == m.size
}

fn sort_key_of(m: &Model, col: SortColumn) -> (k: SortKey)
    ensures
        key_matches(k, *m, col),
{
    match col {
        SortColumn::Name => {
            let display = sanitize_model_name(m.name.as_str());
            let lower = to_lower_case(display.as_str());
            SortKey { text: chars_of(lower.as_str()), size: m.size }
        },
        SortColumn::Modified => SortKey { text: chars_of(m.modified_at.as_str()), size: m.size },
        SortColumn::Size => SortKey { text: Vec::new(), size: m.size },
    }
}

fn text_less(a: &[char], b: &[char]) -> (r: bool)
    ensures
        r == text_lt(a@, b@),
{
    let mut i: usize = 0;
    assert(a@.skip(0) =~= a@);
    assert(b@.skip(0) =~= b@);
    while i < a.len() && i < b.len() && a[i] == b[i]
        invariant
            i <= a@.len(),
            i <= b@.len(),
            text_lt(a@, b@) == text_lt(a@.skip(i as int), b@.skip(i as int)),
        decreases a@.len() - i,
    {
        proof {
            assert(a@.skip(i as int).drop_first() =~= a@.skip(i + 1));
            assert(b@.skip(i as int).drop_first() =~= b@.skip(i + 1));
        }
        i += 1;
    }
    let ghost x = a@.skip(i as int);
    let ghost y = b@.skip(i as int);
    if i == a.len() {
        assert(x.len() == 0);
        i < b.len()
    } else if i == b.len() {
        false
    } else {
        assert(x[0] == a@[i as int] && y[0] == b@[i as int]);
        a[i] < b[i]
    }
}

fn key_le_exec(a: &SortKey, b: &SortKey, col: SortColumn, Ghost(ma): Ghost<Model>, Ghost(mb): Ghost<Model>) -> (r: bool)
    requires
        key_matches(*a, ma, col),
        key_matches(*b, mb, col),
    ensures
        r == key_le(ma, mb, col),
{
    match col {
        SortColumn::Size => a.size <= b.size,
        _ => !text_less(b.text.as_slice(), a.text.as_slice()),
    }
}

proof fn lemma_insert_at(s: Seq<Model>, x: Model, col: SortColumn, j: int)
    requires
        0 <= j <= s.len(),
        forall|t: int| j <= t < s.len() ==> !key_le(#[trigger] s[t], x, col),
        j == 0 || key_le(s[j - 1], x, col),
    ensures
        insert_sorted(s, x, col) == s.take(j).push(x) + s.skip(j),
    decreases s.len() - j,
{
    if j < s.len() {
        let t = s.drop_last();
        assert forall|u: int| j <= u < t.len() implies !key_le(#[trigger] t[u], x, col) by {
            assert(t[u] == s[u]);
        }
        if j > 0 {
            assert(t[j - 1] == s[j - 1]);
        }
        lemma_insert_at(t, x, col, j);
        assert(t.take(j) =~= s.take(j));
        assert(s.skip(j) =~= t.skip(j).push(s.last()));
        assert(insert_sorted(s, x, col) =~= (t.take(j).push(x) + t.skip(j)).push(s.last()));
    } else {
        assert(s.take(j) =~= s);
        assert(s.skip(j) =~= Seq::<Model>::empty());
        if j > 0 {
            assert(s.last() == s[j - 1]);
        }
        assert(insert_sorted(s, x, col) =~= s.push(x));
    }
}

/// `models` stably sorted by `col`.
pub fn sort_models_by(models: Vec<Model>, col: SortColumn) -> (r: Vec<Model>)
    ensures
        r@ == sorted_by(models@, col),
        r@.to_multiset() == models@.to_multiset(),
        forall|i: int, j: int|
            #![trigger r@[i], r@[j]]
            0 <= i < j < r@.len() ==> match col {
                SortColumn::Modified => text_le(r@[i].modified_at@, r@[j].modified_at@),
                SortColumn::Size => r@[i].size <= r@[j].size,
                SortColumn::Name => text_le(
                    lower_case(sanitized_name(r@[i].name@)),
                    lower_case(sanitized_name(r@[j].name@)),
                ),
            },
{
    proof {
        lemma_sorted_by_column(models@, col);
        lemma_sorted_by_permutes(models@, col);
    }
    let ghost orig = models@;
    let n = models.len();
    let mut rest = models;
    let mut sorted: Vec<Model> = Vec::new();
    let mut keys: Vec<SortKey> = Vec::new();
    let mut i: usize = 0;
    while rest.len() > 0
        invariant
            i + rest@.len() == orig.len(),
            orig.len() == n,
            rest@ == orig.skip(i as int),
            sorted@ == sorted_prefix(orig, i as int, col),
            keys@.len() == sorted@.len(),
            forall|t: int| 0 <= t < keys@.len() ==> key_matches(#[trigger] keys@[t], sorted@[t], col),
        decreases rest@.len(),
    {
        let m = rest.remove(0);
        assert(m == orig[i as int]);
        let k = sort_key_of(&m, col);
        let mut j: usize = sorted.len();
        while j > 0 && !key_le_exec(&keys[j - 1], &k, col, Ghost(sorted@[j - 1]), Ghost(m))
            invariant
                j <= sorted@.len(),
                keys@.len() == sorted@.len(),
                forall|t: int| 0 <= t < keys@.len() ==> key_matches(#[trigger] keys@[t], sorted@[t], col),
                key_matches(k, m, col),
                forall|t: int| j <= t < sorted@.len() ==> !key_le(#[trigger] sorted@[t], m, col),
            decreases j,
        {
            j -= 1;
        }
        proof {
            lemma_insert_at(sorted@, m, col, j as int);
            assert(sorted@.insert(j as int, m) =~= sorted@.take(j as int).push(m) + sorted@.skip(
                j as int,
            ));
        }
        let ghost before_keys = keys@;
        let ghost before_sorted = sorted@;
        sorted.insert(j, m);
        keys.insert(j, k);
        proof {
            assert forall|t: int| 0 <= t < keys@.len() implies key_matches(
                #[trigger] keys@[t],
                sorted@[t],
                col,
            ) by {
                if t < j {
                    assert(keys@[t] == before_keys[t] && sorted@[t] == before_sorted[t]);
                } else if t > j {
                    assert(keys@[t] == before_keys[t - 1] && sorted@[t] == before_sorted[t - 1]);
                }
            }
            assert(orig.skip(i + 1) =~= orig.skip(i as int).drop_first());
        }
        i += 1;
    }
    assert(i == orig.len());
    sorted
}

} // verus!
