//! The model picker: a filterable list of the installed models.
use vstd::prelude::*;

use crate::modelfile::{sanitize_model_name, sanitized_name};
use crate::text::{chars_of, contains_chars, contains_seq, copy_string, decimal, extend_str, lower_case, push_decimal, string_of, to_lower_case};
use crate::types::Model;

verus! {

/// State of the model picker overlay.
#[derive(Clone, Debug, PartialEq)]
pub struct ModelPicker {
    pub selected: usize,
    pub query: String,
}

/// Does model `m` pass the (lower-cased) filter `q`? An empty filter passes
/// every model; otherwise the filter must occur in the lower-cased name or
/// in the lower-cased display name.
pub open spec fn passes_filter(m: Model, q: Seq<char>) -> bool {
    q.len() == 0 || contains_seq(lower_case(m.name@), q) || contains_seq(
        lower_case(sanitized_name(m.name@)),
        q,
    )
}

/// Indices, in order, of the first `n` models that pass the filter.
pub open spec fn passing_upto(models: Seq<Model>, q: Seq<char>, n: int) -> Seq<int>
    decreases n,
{
    if n <= 0 {
        Seq::empty()
    } else if passes_filter(models[n - 1], q) {
        passing_upto(models, q, n - 1).push(n - 1)
    } else {
        passing_upto(models, q, n - 1)
    }
}

/// Indices, in order, of the models that pass the filter.
pub open spec fn passing(models: Seq<Model>, q: Seq<char>) -> Seq<int> {
    passing_upto(models, q, models.len() as int)
}

/// The filter keeps a model exactly when the query is empty or occurs in
/// the model's lower-cased full name or in its lower-cased display name;
/// the kept indices are each model's own, in list order.
pub proof fn lemma_filter_keeps(models: Seq<Model>, q: Seq<char>, n: int)
    requires
        0 <= n <= models.len(),
    ensures
        forall|i: int|
            0 <= i < n ==> (passing_upto(models, q, n).contains(i) <==> (q.len() == 0 || contains_seq(
                lower_case(models[i].name@),
                q,
            ) || contains_seq(lower_case(sanitized_name(models[i].name@)), q))),
        forall|j: int| 0 <= j < passing_upto(models, q, n).len() ==> 0 <= #[trigger] passing_upto(models, q, n)[j] < n,
        forall|a: int, b: int|
            0 <= a < b < passing_upto(models, q, n).len() ==> #[trigger] passing_upto(models, q, n)[a]
                < #[trigger] passing_upto(models, q, n)[b],
    decreases n,
{
    if n > 0 {
        lemma_filter_keeps(models, q, n - 1);
        let prev = passing_upto(models, q, n - 1);
        let cur = passing_upto(models, q, n);
        assert forall|i: int| 0 <= i < n implies (cur.contains(i) <==> (q.len() == 0 || contains_seq(
            lower_case(models[i].name@),
            q,
        ) || contains_seq(lower_case(sanitized_name(models[i].name@)), q))) by {
            if i < n - 1 {
                if cur.contains(i) {
                    let j = choose|j: int| 0 <= j < cur.len() && cur[j] == i;
                    if j < prev.len() {
                        assert(prev[j] == i);
                    }
                }
                if prev.contains(i) {
                    let j = choose|j: int| 0 <= j < prev.len() && prev[j] == i;
                    assert(cur[j] == i);
                }
            } else {
                if passes_filter(models[n - 1], q) {
                    assert(cur[prev.len() as int] == n - 1);
                } else if cur.contains(i) {
                    let j = choose|j: int| 0 <= j < cur.len() && cur[j] == i;
                    assert(prev[j] < n - 1);
                }
            }
        }
    }
}

impl ModelPicker {
    /// A picker with the given model selected and an empty filter.
    pub fn new(selected_model_index: usize) -> (r: Self)
        ensures
            r.selected == selected_model_index,
            r.query@ == Seq::<char>::empty(),
    {
        ModelPicker { selected: selected_model_index, query: String::new() }
    }

    /// The models whose name or display name contains the filter, compared
    /// in lower case, with their indices, in list order.
    pub fn filtered<'a>(&self, models: &'a [Model]) -> (r: Vec<(usize, &'a Model)>)
        ensures
            r@.len() == passing(models@, lower_case(self.query@)).len(),
            forall|j: int|
                0 <= j < r@.len() ==> r@[j].0 as int == passing(models@, lower_case(self.query@))[j]
                    && *r@[j].1 == models@[r@[j].0 as int],
            forall|i: int|
                0 <= i < models@.len() ==> ((exists|j: int| 0 <= j < r@.len() && #[trigger] r@[j].0 == i) <==> (
                lower_case(self.query@).len() == 0 || contains_seq(
                    lower_case(models@[i].name@),
                    lower_case(self.query@),
                ) || contains_seq(lower_case(sanitized_name(models@[i].name@)), lower_case(self.query@)))),
            forall|a: int, b: int| 0 <= a < b < r@.len() ==> #[trigger] r@[a].0 < #[trigger] r@[b].0,
    {
        let ql = to_lower_case(self.query.as_str());
        let q = chars_of(ql.as_str());
        let ghost qs = lower_case(self.query@);
        let mut out: Vec<(usize, &'a Model)> = Vec::new();
        let mut i: usize = 0;
        while i < models.len()
            invariant
                i <= models@.len(),
                q@ == qs,
                out@.len() == passing_upto(models@, qs, i as int).len(),
                forall|j: int|
                    0 <= j < out@.len() ==> out@[j].0 as int == passing_upto(models@, qs, i as int)[j]
                        && *out@[j].1 == models@[out@[j].0 as int],
            decreases models@.len() - i,
        {
            let m = &models[i];
            let keep = if q.len() == 0 {
                true
            } else {
                let nl = to_lower_case(m.name.as_str());
                let nc = chars_of(nl.as_str());
                if contains_chars(nc.as_slice(), q.as_slice()) {
                    true
                } else {
                    let display = sanitize_model_name(m.name.as_str());
                    let dl = to_lower_case(display.as_str());
                    let dc = chars_of(dl.as_str());
                    contains_chars(dc.as_slice(), q.as_slice())
                }
            };
            assert(keep == passes_filter(models@[i as int], qs));
            if keep {
                out.push((i, m));
            }
            i += 1;
        }
        proof {
            let p = passing(models@, qs);
            lemma_filter_keeps(models@, qs, models@.len() as int);
            assert forall|k: int| 0 <= k < models@.len() implies ((exists|j: int|
                0 <= j < out@.len() && #[trigger] out@[j].0 == k) <==> (qs.len() == 0 || contains_seq(
                lower_case(models@[k].name@),
                qs,
            ) || contains_seq(lower_case(sanitized_name(models@[k].name@)), qs))) by {
                assert(p.contains(k) <==> (qs.len() == 0 || contains_seq(lower_case(models@[k].name@), qs)
                    || contains_seq(lower_case(sanitized_name(models@[k].name@)), qs)));
                if exists|j: int| 0 <= j < out@.len() && #[trigger] out@[j].0 == k {
                    let j = choose|j: int| 0 <= j < out@.len() && #[trigger] out@[j].0 == k;
                    assert(p[j] == k);
                }
                if p.contains(k) {
                    let j = choose|j: int| 0 <= j < p.len() && p[j] == k;
                    assert(out@[j].0 == k);
                }
            }
            assert forall|a: int, b: int| 0 <= a < b < out@.len() implies #[trigger] out@[a].0 < #[trigger] out@[b].0 by {
                assert(p[a] < p[b]);
            }
        }
        out
    }

    /// Keeps the selection inside a list of `filtered_len` entries.
    pub fn clamp_selection(&mut self, filtered_len: usize)
        ensures
            final(self).query == old(self).query,
            final(self).selected == (if filtered_len == 0 {
                0
            } else if old(self).selected >= filtered_len {
                (filtered_len - 1) as usize
            } else {
                old(self).selected
            }),
    {
        if filtered_len == 0 {
            self.selected = 0;
        } else if self.selected >= filtered_len {
            self.selected = filtered_len - 1;
        }
    }
    /// The entry shown at the selection, in a list of `filtered_len`
    /// entries: the selection, at most the last; none in an empty list.
    pub fn shown_selection(&self, filtered_len: usize) -> (r: Option<usize>)
        ensures
            filtered_len == 0 ==> r is None,
            filtered_len > 0 ==> r == Some(
                if self.selected < filtered_len {
                    self.selected
                } else {
                    (filtered_len - 1) as usize
                },
            ),
    {
        if filtered_len == 0 {
            None
        } else if self.selected < filtered_len {
            Some(self.selected)
        } else {
            Some(filtered_len - 1)
        }
    }
}

/// The two parts of a model's entry in the picker: its display name in
/// lower case and two spaces, and its full name.
pub fn picker_item(m: &Model) -> (r: (String, String))
    ensures
        r.0@ == lower_case(sanitized_name(m.name@)) + "  "@,
        r.1@ == m.name@,
{
    let display = sanitize_model_name(m.name.as_str());
    let lower = to_lower_case(display.as_str());
    let mut t = chars_of(lower.as_str());
    extend_str(&mut t, "  ");
    (string_of(t.as_slice()), copy_string(&m.name))
}

/// `n models`: how many models pass the filter.
pub fn count_text(n: usize) -> (r: String)
    ensures
        r@ == decimal(n as nat) + " models"@,
{
    let mut out: Vec<char> = Vec::new();
    push_decimal(&mut out, n as u64);
    extend_str(&mut out, " models");
    string_of(out.as_slice())
}

} // verus!
