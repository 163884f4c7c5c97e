//! The chat transcript as markdown: role headings, separators, and bodies
//! with runs of blank lines collapsed.
use vstd::prelude::*;

use crate::styles::{ellipsize, ellipsized, role_label, role_label_text};
use crate::text::{
    chars_of, extend_chars, extend_str, slice_chars, str_equal, string_of, trim, trimmed,
    trimmed_end, trim_end,
};
use crate::types::Message;

verus! {

/// `l` without one trailing carriage return.
pub open spec fn strip_cr(l: Seq<char>) -> Seq<char> {
    if l.len() > 0 && l.last() == '\r' {
        l.drop_last()
    } else {
        l
    }
}

/// `s` cut at every `\n` (the last piece is what follows the last `\n`).
pub open spec fn pieces(s: Seq<char>) -> Seq<Seq<char>>
    decreases s.len(),
{
    if s.len() == 0 {
        seq![Seq::empty()]
    } else {
        let p = pieces(s.drop_last());
        if s.last() == '\n' {
            p.push(Seq::empty())
        } else {
            p.update(p.len() - 1, p.last().push(s.last()))
        }
    }
}

proof fn lemma_pieces_nonempty(s: Seq<char>)
    ensures
        pieces(s).len() >= 1,
    decreases s.len(),
{
    if s.len() > 0 {
        lemma_pieces_nonempty(s.drop_last());
    }
}

/// The lines of `s` as `str::lines` gives them: split at `\n`, a `\r` before
/// the `\n` removed, and no empty line after a final `\n`.
pub open spec fn lines_of(s: Seq<char>) -> Seq<Seq<char>> {
    let p = pieces(s);
    let ended = p.drop_last().map_values(|l: Seq<char>| strip_cr(l));
    if p.last().len() == 0 {
        ended
    } else {
        ended.push(p.last())
    }
}

/// Views of a vector of lines.
pub open spec fn lines_view(v: Seq<Vec<char>>) -> Seq<Seq<char>> {
    v.map_values(|l: Vec<char>| l@)
}

fn strip_cr_exec(l: Vec<char>) -> (r: Vec<char>)
    ensures
        r@ == strip_cr(l@),
{
    let n = l.len();
    if n > 0 && l[n - 1] == '\r' {
        let r = slice_chars(l.as_slice(), 0, n - 1);
        assert(r@ =~= l@.drop_last());
        r
    } else {
        l
    }
}

/// The lines of `v`, as `str::lines` gives them.
pub fn lines_exec(v: &[char]) -> (r: Vec<Vec<char>>)
    ensures
        lines_view(r@) == lines_of(v@),
{
    let mut done: Vec<Vec<char>> = Vec::new();
    let mut cur: Vec<char> = Vec::new();
    let mut i: usize = 0;
    proof {
        assert(v@.take(0) =~= Seq::<char>::empty());
    }
    while i < v.len()
        invariant
            i <= v@.len(),
            pieces(v@.take(i as int)).len() >= 1,
            lines_view(done@) == pieces(v@.take(i as int)).drop_last().map_values(
                |l: Seq<char>| strip_cr(l),
            ),
            cur@ == pieces(v@.take(i as int)).last(),
        decreases v@.len() - i,
    {
        let c = v[i];
        proof {
            assert(v@.take(i + 1).drop_last() =~= v@.take(i as int));
            lemma_pieces_nonempty(v@.take(i + 1));
        }
        if c == '\n' {
            let line = strip_cr_exec(cur);
            let ghost old_done = done@;
            done.push(line);
            assert(lines_view(done@) =~= lines_view(old_done).push(line@));
            cur = Vec::new();
            proof {
                let p = pieces(v@.take(i as int));
                assert(pieces(v@.take(i + 1)) == p.push(Seq::<char>::empty()));
                assert(pieces(v@.take(i + 1)).drop_last() =~= p);
                assert(lines_view(done@) =~= p.map_values(|l: Seq<char>| strip_cr(l)));
            }
        } else {
            cur.push(c);
            proof {
                let p = pieces(v@.take(i as int));
                let q = pieces(v@.take(i + 1));
                assert(q == p.update(p.len() - 1, p.last().push(c)));
                assert(q.drop_last() =~= p.drop_last());
            }
        }
        i += 1;
    }
    proof {
        assert(v@.take(v@.len() as int) =~= v@);
    }
    if cur.len() > 0 {
        done.push(cur);
        proof {
            let p = pieces(v@);
            assert(lines_view(done@) =~= p.drop_last().map_values(|l: Seq<char>| strip_cr(l)).push(
                p.last(),
            ));
        }
    }
    done
}

/// Body text with runs of blank lines (whitespace only) cut to at most two
/// empty lines; every kept line ends with `\n`. `run` counts the blank lines
/// just before.
pub open spec fn collapse_blank_lines(lines: Seq<Seq<char>>, run: nat) -> Seq<char>
    decreases lines.len(),
{
    if lines.len() == 0 {
        Seq::empty()
    } else if trim(lines[0]).len() == 0 {
        (if run + 1 <= 2 {
            seq!['\n']
        } else {
            Seq::empty()
        }) + collapse_blank_lines(lines.drop_first(), run + 1)
    } else {
        lines[0].push('\n') + collapse_blank_lines(lines.drop_first(), 0)
    }
}

/// A message body prepared for markdown rendering.
pub open spec fn normalized_body(content: Seq<char>) -> Seq<char> {
    collapse_blank_lines(lines_of(content), 0)
}

/// A blank line: nothing but whitespace.
pub open spec fn is_blank(l: Seq<char>) -> bool {
    trim(l).len() == 0
}

/// The lines that a normalized body keeps: each blank line becomes empty,
/// and of each run of blank lines only the first two stay (`run` counts the
/// blank lines just before); other lines stay as they are.
pub open spec fn kept_lines(lines: Seq<Seq<char>>, run: nat) -> Seq<Seq<char>>
    decreases lines.len(),
{
    if lines.len() == 0 {
        Seq::empty()
    } else if is_blank(lines[0]) {
        (if run + 1 <= 2 {
            seq![Seq::<char>::empty()]
        } else {
            Seq::empty()
        }) + kept_lines(lines.drop_first(), run + 1)
    } else {
        seq![lines[0]] + kept_lines(lines.drop_first(), 0)
    }
}

/// The lines, each followed by `\n`.
pub open spec fn terminated(lines: Seq<Seq<char>>) -> Seq<char>
    decreases lines.len(),
{
    if lines.len() == 0 {
        Seq::empty()
    } else {
        lines[0].push('\n') + terminated(lines.drop_first())
    }
}

/// Is a line not blank?
pub open spec fn not_blank() -> spec_fn(Seq<char>) -> bool {
    |l: Seq<char>| !is_blank(l)
}

/// Three empty lines in a row at `j`.
pub open spec fn three_empty_at(k: Seq<Seq<char>>, j: int) -> bool {
    0 <= j && j + 2 < k.len() && k[j].len() == 0 && k[j + 1].len() == 0 && k[j + 2].len() == 0
}

proof fn lemma_collapse_is_terminated(lines: Seq<Seq<char>>, run: nat)
    ensures
        collapse_blank_lines(lines, run) == terminated(kept_lines(lines, run)),
    decreases lines.len(),
{
    if lines.len() > 0 {
        let rest = lines.drop_first();
        if is_blank(lines[0]) {
            lemma_collapse_is_terminated(rest, run + 1);
            if run + 1 <= 2 {
                let k = seq![Seq::<char>::empty()] + kept_lines(rest, run + 1);
                assert(k.drop_first() =~= kept_lines(rest, run + 1));
                assert(Seq::<char>::empty().push('\n') =~= seq!['\n']);
            } else {
                assert(Seq::<Seq<char>>::empty() + kept_lines(rest, run + 1) =~= kept_lines(rest, run + 1));
                assert(Seq::<char>::empty() + collapse_blank_lines(rest, run + 1) =~= collapse_blank_lines(rest, run + 1));
            }
        } else {
            lemma_collapse_is_terminated(rest, 0);
            let k = seq![lines[0]] + kept_lines(rest, 0);
            assert(k.drop_first() =~= kept_lines(rest, 0));
        }
    }
}

proof fn lemma_kept_shape(lines: Seq<Seq<char>>, run: nat)
    requires
        run <= 2,
    ensures
        kept_lines(lines, run).filter(not_blank()) == lines.filter(not_blank()),
        forall|j: int| 0 <= j < kept_lines(lines, run).len() ==> #[trigger] kept_lines(lines, run)[j].len() == 0
            || (!is_blank(kept_lines(lines, run)[j]) && lines.contains(kept_lines(lines, run)[j])),
        forall|j: int| !three_empty_at(kept_lines(lines, run), j),
        run == 2 ==> kept_lines(lines, run).len() == 0 || kept_lines(lines, run)[0].len() > 0,
        run == 1 ==> kept_lines(lines, run).len() < 2 || kept_lines(lines, run)[0].len() > 0
            || kept_lines(lines, run)[1].len() > 0,
    decreases lines.len(),
{
    let k = kept_lines(lines, run);
    let p = not_blank();
    if lines.len() == 0 {
        reveal(Seq::filter);
    } else {
        let rest = lines.drop_first();
        assert(lines =~= seq![lines[0]] + rest);
        Seq::filter_distributes_over_add(seq![lines[0]], rest, p);
        Seq::<Seq<char>>::empty().lemma_filter_push(lines[0], p);
        assert(Seq::<Seq<char>>::empty().push(lines[0]) =~= seq![lines[0]]);
        assert(Seq::<Seq<char>>::empty().filter(p) =~= Seq::<Seq<char>>::empty()) by {
            reveal(Seq::filter);
        }
        if is_blank(lines[0]) {
            let r2: nat = if run + 1 <= 2 { run + 1 } else { 2 };
            lemma_kept_shape(rest, r2);
            if run + 1 > 2 {
                assert(kept_lines(rest, run + 1) == kept_lines(rest, 2)) by {
                    lemma_kept_run_cap(rest, run + 1);
                }
            }
            let tail = kept_lines(rest, run + 1);
            let head: Seq<Seq<char>> = if run + 1 <= 2 { seq![Seq::<char>::empty()] } else { Seq::empty() };
            Seq::filter_distributes_over_add(head, tail, p);
            Seq::<Seq<char>>::empty().lemma_filter_push(Seq::<char>::empty(), p);
            assert(Seq::<Seq<char>>::empty().push(Seq::<char>::empty()) =~= seq![Seq::<char>::empty()]);
            assert(is_blank(Seq::<char>::empty()));
            assert(head.filter(p) =~= Seq::<Seq<char>>::empty());
            assert(k == head + tail);
            assert(k.filter(p) =~= tail.filter(p));
            assert forall|j: int| 0 <= j < k.len() implies #[trigger] k[j].len() == 0 || (!is_blank(k[j])
                && lines.contains(k[j])) by {
                if j >= head.len() {
                    assert(k[j] == tail[j - head.len()]);
                    if k[j].len() != 0 {
                        let i = choose|i: int| 0 <= i < rest.len() && rest[i] == k[j];
                        assert(lines[i + 1] == rest[i]);
                    }
                }
            }
            assert forall|j: int| !three_empty_at(k, j) by {
                if three_empty_at(k, j) && head.len() == 1 {
                    if j == 0 {
                        assert(k[1] == tail[0] && k[2] == tail[1]);
                    } else {
                        assert(three_empty_at(tail, j - 1));
                    }
                } else if three_empty_at(k, j) {
                    assert(three_empty_at(tail, j));
                }
            }
        } else {
            lemma_kept_shape(rest, 0);
            let tail = kept_lines(rest, 0);
            let head = seq![lines[0]];
            Seq::filter_distributes_over_add(head, tail, p);
            assert(k == head + tail);
            assert(lines[0].len() > 0);
            assert forall|j: int| 0 <= j < k.len() implies #[trigger] k[j].len() == 0 || (!is_blank(k[j])
                && lines.contains(k[j])) by {
                if j == 0 {
                    assert(lines[0] == k[0]);
                } else {
                    assert(k[j] == tail[j - 1]);
                    if k[j].len() != 0 {
                        let i = choose|i: int| 0 <= i < rest.len() && rest[i] == k[j];
                        assert(lines[i + 1] == rest[i]);
                    }
                }
            }
            assert forall|j: int| !three_empty_at(k, j) by {
                if three_empty_at(k, j) {
                    if j == 0 {
                    } else {
                        assert(three_empty_at(tail, j - 1));
                    }
                }
            }
        }
    }
}

proof fn lemma_kept_run_cap(lines: Seq<Seq<char>>, run: nat)
    requires
        run >= 2,
    ensures
        kept_lines(lines, run) == kept_lines(lines, 2),
    decreases lines.len(),
{
    if lines.len() > 0 {
        lemma_kept_run_cap(lines.drop_first(), run + 1);
        lemma_kept_run_cap(lines.drop_first(), 3);
    }
}

proof fn lemma_lines_of_empty(s: Seq<char>)
    ensures
        (lines_of(s).len() == 0) == (s.len() == 0),
{
    lemma_pieces_nonempty(s);
    if s.len() > 0 {
        let p = pieces(s);
        if s.last() == '\n' {
            lemma_pieces_nonempty(s.drop_last());
        } else {
            let q = pieces(s.drop_last());
            lemma_pieces_nonempty(s.drop_last());
            assert(p.last() == q.last().push(s.last()));
        }
    } else {
        assert(pieces(s) =~= seq![Seq::<char>::empty()]);
    }
}

/// Line `i` of `lines` is left out of a normalized body: it is blank, and
/// so are the two lines before it.
pub open spec fn dropped_line(lines: Seq<Seq<char>>, i: int) -> bool {
    2 <= i && is_blank(lines[i]) && is_blank(lines[i - 1]) && is_blank(lines[i - 2])
}

/// How a line appears in a normalized body: a blank line as an empty line,
/// any other line as it is.
pub open spec fn kept_form(l: Seq<char>) -> Seq<char> {
    if is_blank(l) {
        Seq::empty()
    } else {
        l
    }
}

/// `f` maps each line of `k` to the line of `lines` it comes from: `k` is
/// the kept form of every line of `lines` that is not dropped, in order,
/// and of no other.
pub open spec fn lists_kept(k: Seq<Seq<char>>, lines: Seq<Seq<char>>, f: Seq<int>) -> bool {
    &&& f.len() == k.len()
    &&& forall|j: int|
        0 <= j < k.len() ==> 0 <= #[trigger] f[j] < lines.len() && k[j] == kept_form(lines[f[j]])
            && !dropped_line(lines, f[j])
    &&& forall|a: int, b: int| 0 <= a < b < k.len() ==> #[trigger] f[a] < #[trigger] f[b]
    &&& forall|i: int|
        0 <= i < lines.len() && !dropped_line(lines, i) ==> exists|j: int| 0 <= j < k.len() && #[trigger] f[j] == i
}

/// Blank lines right before line `i`, `run` blank lines being counted
/// before the first line.
spec fn blanks_before(lines: Seq<Seq<char>>, i: int, run: nat) -> nat
    decreases i,
{
    if i <= 0 {
        run
    } else if is_blank(lines[i - 1]) {
        blanks_before(lines, i - 1, run) + 1
    } else {
        0
    }
}

spec fn dropped_after(lines: Seq<Seq<char>>, i: int, run: nat) -> bool {
    is_blank(lines[i]) && blanks_before(lines, i, run) >= 2
}

spec fn lists_kept_after(k: Seq<Seq<char>>, lines: Seq<Seq<char>>, f: Seq<int>, run: nat) -> bool {
    &&& f.len() == k.len()
    &&& forall|j: int|
        0 <= j < k.len() ==> 0 <= #[trigger] f[j] < lines.len() && k[j] == kept_form(lines[f[j]])
            && !dropped_after(lines, f[j], run)
    &&& forall|a: int, b: int| 0 <= a < b < k.len() ==> #[trigger] f[a] < #[trigger] f[b]
    &&& forall|i: int|
        0 <= i < lines.len() && !dropped_after(lines, i, run) ==> exists|j: int|
            0 <= j < k.len() && #[trigger] f[j] == i
}

proof fn lemma_blanks_before_shift(lines: Seq<Seq<char>>, i: int, run: nat)
    requires
        0 <= i < lines.len(),
    ensures
        blanks_before(lines, i + 1, run) == blanks_before(
            lines.drop_first(),
            i,
            if is_blank(lines[0]) { run + 1 } else { 0 },
        ),
    decreases i,
{
    reveal_with_fuel(blanks_before, 2);
    if i > 0 {
        lemma_blanks_before_shift(lines, i - 1, run);
        assert(lines.drop_first()[i - 1] == lines[i]);
    }
}

proof fn lemma_dropped_from_start(lines: Seq<Seq<char>>, i: int)
    requires
        0 <= i < lines.len(),
    ensures
        dropped_after(lines, i, 0) == dropped_line(lines, i),
{
    reveal_with_fuel(blanks_before, 3);
    if i >= 2 && is_blank(lines[i - 1]) {
        assert(blanks_before(lines, i, 0) == blanks_before(lines, i - 1, 0) + 1);
    }
}

proof fn lemma_kept_lines_listed(lines: Seq<Seq<char>>, run: nat) -> (f: Seq<int>)
    ensures
        lists_kept_after(kept_lines(lines, run), lines, f, run),
    decreases lines.len(),
{
    let k = kept_lines(lines, run);
    if lines.len() == 0 {
        Seq::empty()
    } else {
        let rest = lines.drop_first();
        let r2: nat = if is_blank(lines[0]) { run + 1 } else { 0 };
        let g = lemma_kept_lines_listed(rest, r2);
        let tail = kept_lines(rest, r2);
        assert forall|i: int| 0 <= i < rest.len() implies dropped_after(lines, i + 1, run) == dropped_after(
            rest,
            i,
            r2,
        ) by {
            lemma_blanks_before_shift(lines, i, run);
            assert(rest[i] == lines[i + 1]);
        }
        let shifted = Seq::new(g.len(), |j: int| g[j] + 1);
        if !is_blank(lines[0]) || run + 1 <= 2 {
            let f = seq![0int] + shifted;
            assert(k == seq![kept_form(lines[0])] + tail);
            assert(!dropped_after(lines, 0, run));
            assert forall|j: int| 0 <= j < k.len() implies 0 <= #[trigger] f[j] < lines.len() && k[j]
                == kept_form(lines[f[j]]) && !dropped_after(lines, f[j], run) by {
                if j > 0 {
                    assert(f[j] == g[j - 1] + 1);
                    assert(k[j] == tail[j - 1]);
                    assert(lines[f[j]] == rest[g[j - 1]]);
                }
            }
            assert forall|a: int, b: int| 0 <= a < b < k.len() implies #[trigger] f[a] < #[trigger] f[b] by {
                if a > 0 {
                    assert(g[a - 1] < g[b - 1]);
                } else {
                    assert(0 <= g[b - 1]);
                }
            }
            assert forall|i: int| 0 <= i < lines.len() && !dropped_after(lines, i, run) implies exists|j: int|
                0 <= j < k.len() && #[trigger] f[j] == i by {
                if i == 0 {
                    assert(f[0] == 0);
                } else {
                    assert(!dropped_after(rest, i - 1, r2));
                    let j0 = choose|j: int| 0 <= j < tail.len() && #[trigger] g[j] == i - 1;
                    assert(f[j0 + 1] == i);
                }
            }
            f
        } else {
            let f = shifted;
            assert(k =~= tail);
            assert(dropped_after(lines, 0, run));
            assert forall|j: int| 0 <= j < k.len() implies 0 <= #[trigger] f[j] < lines.len() && k[j]
                == kept_form(lines[f[j]]) && !dropped_after(lines, f[j], run) by {
                assert(lines[f[j]] == rest[g[j]]);
            }
            assert forall|a: int, b: int| 0 <= a < b < k.len() implies #[trigger] f[a] < #[trigger] f[b] by {
                assert(g[a] < g[b]);
            }
            assert forall|i: int| 0 <= i < lines.len() && !dropped_after(lines, i, run) implies exists|j: int|
                0 <= j < k.len() && #[trigger] f[j] == i by {
                assert(i > 0);
                assert(!dropped_after(rest, i - 1, r2));
                let j0 = choose|j: int| 0 <= j < tail.len() && #[trigger] g[j] == i - 1;
                assert(f[j0] == i);
            }
            f
        }
    }
}

proof fn lemma_kept_lines_exact(lines: Seq<Seq<char>>)
    ensures
        exists|f: Seq<int>| lists_kept(kept_lines(lines, 0), lines, f),
{
    let f = lemma_kept_lines_listed(lines, 0);
    assert forall|i: int| 0 <= i < lines.len() implies dropped_after(lines, i, 0) == dropped_line(lines, i) by {
        lemma_dropped_from_start(lines, i);
    }
    let k = kept_lines(lines, 0);
    assert forall|j: int| 0 <= j < k.len() implies 0 <= #[trigger] f[j] < lines.len() && k[j] == kept_form(
        lines[f[j]],
    ) && !dropped_line(lines, f[j]) by {
        assert(0 <= f[j] < lines.len());
    }
    assert(lists_kept(k, lines, f));
}

/// `l` holds no `\n`.
spec fn no_newline(l: Seq<char>) -> bool {
    forall|i: int| 0 <= i < l.len() ==> l[i] != '\n'
}

proof fn lemma_pieces_no_newline(s: Seq<char>)
    ensures
        forall|j: int| 0 <= j < pieces(s).len() ==> no_newline(#[trigger] pieces(s)[j]),
    decreases s.len(),
{
    if s.len() > 0 {
        lemma_pieces_no_newline(s.drop_last());
        lemma_pieces_nonempty(s.drop_last());
        let p = pieces(s.drop_last());
        if s.last() != '\n' {
            assert forall|j: int| 0 <= j < pieces(s).len() implies no_newline(#[trigger] pieces(s)[j]) by {
                if j == p.len() - 1 {
                    assert(no_newline(p[j]));
                    assert(pieces(s)[j] == p.last().push(s.last()));
                } else {
                    assert(pieces(s)[j] == p[j]);
                }
            }
        } else {
            assert forall|j: int| 0 <= j < pieces(s).len() implies no_newline(#[trigger] pieces(s)[j]) by {
                if j < p.len() {
                    assert(pieces(s)[j] == p[j]);
                }
            }
        }
    }
}

proof fn lemma_lines_no_newline(s: Seq<char>)
    ensures
        forall|j: int| 0 <= j < lines_of(s).len() ==> no_newline(#[trigger] lines_of(s)[j]),
{
    lemma_pieces_no_newline(s);
    lemma_pieces_nonempty(s);
    let p = pieces(s);
    assert forall|j: int| 0 <= j < lines_of(s).len() implies no_newline(#[trigger] lines_of(s)[j]) by {
        if j < p.len() - 1 {
            assert(no_newline(p[j]));
            assert(lines_of(s)[j] == strip_cr(p[j]));
        } else {
            assert(lines_of(s)[j] == p.last());
            assert(no_newline(p[p.len() - 1]));
        }
    }
}

/// Four `\n` in a row at `i`.
pub open spec fn four_newlines_at(t: Seq<char>, i: int) -> bool {
    0 <= i && i + 3 < t.len() && t[i] == '\n' && t[i + 1] == '\n' && t[i + 2] == '\n' && t[i + 3] == '\n'
}

proof fn lemma_terminated_head(k: Seq<Seq<char>>)
    requires
        k.len() > 0,
        no_newline(k[0]),
    ensures
        terminated(k) == k[0].push('\n') + terminated(k.drop_first()),
        terminated(k).len() > 0,
        (terminated(k)[0] == '\n') == (k[0].len() == 0),
        k[0].len() == 0 ==> terminated(k).drop_first() == terminated(k.drop_first()),
{
    let a = k[0].push('\n');
    assert(terminated(k) == a + terminated(k.drop_first()));
    assert(terminated(k)[0] == a[0]);
    if k[0].len() == 0 {
        assert((a + terminated(k.drop_first())).drop_first() =~= terminated(k.drop_first()));
    }
}

proof fn lemma_terminated_no_four(k: Seq<Seq<char>>)
    requires
        forall|j: int| 0 <= j < k.len() ==> no_newline(#[trigger] k[j]),
        forall|j: int| !three_empty_at(k, j),
    ensures
        forall|i: int| !four_newlines_at(terminated(k), i),
        !(terminated(k).len() >= 3 && terminated(k)[0] == '\n' && terminated(k)[1] == '\n'
            && terminated(k)[2] == '\n'),
    decreases k.len(),
{
    let t = terminated(k);
    if k.len() > 0 {
        let rest = k.drop_first();
        assert forall|j: int| 0 <= j < rest.len() implies no_newline(#[trigger] rest[j]) by {
            assert(rest[j] == k[j + 1]);
        }
        assert forall|j: int| !three_empty_at(rest, j) by {
            if three_empty_at(rest, j) {
                assert(three_empty_at(k, j + 1));
            }
        }
        lemma_terminated_no_four(rest);
        assert(no_newline(k[0]));
        lemma_terminated_head(k);
        let a = k[0].push('\n');
        let t2 = terminated(rest);
        assert forall|i: int| !four_newlines_at(t, i) by {
            if four_newlines_at(t, i) {
                if i >= a.len() {
                    assert(four_newlines_at(t2, i - a.len()));
                } else {
                    if i < a.len() - 1 {
                        assert(t[i] == k[0][i]);
                    }
                    assert(t2[0] == t[i + 1] && t2[1] == t[i + 2] && t2[2] == t[i + 3]);
                }
            }
        }
        if t.len() >= 3 && t[0] == '\n' && t[1] == '\n' && t[2] == '\n' {
            assert(k[0].len() == 0);
            assert(t.drop_first() == t2);
            assert(rest.len() > 0);
            assert(no_newline(rest[0]));
            lemma_terminated_head(rest);
            assert(t2[0] == '\n');
            assert(rest[0].len() == 0);
            let t3 = terminated(rest.drop_first());
            assert(t2.drop_first() == t3);
            assert(rest.drop_first().len() > 0);
            assert(rest.drop_first()[0] == k[2]);
            assert(no_newline(k[2]));
            lemma_terminated_head(rest.drop_first());
            assert(t3[0] == t[2]);
            assert(k[2].len() == 0);
            assert(three_empty_at(k, 0));
        }
    }
}

/// What normalizing a message body does, line by line: the body is the
/// kept lines of the content, each followed by `\n`. The kept lines are,
/// in order, every line of the content except the third and later blank
/// lines of each run, a blank line kept as an empty line and any other line
/// as it is (`lists_kept`): so a run of `n` blank lines leaves `min(n, 2)`
/// empty lines. Non-blank lines are kept as they are and in their order;
/// every other kept line is empty; no three kept lines in a row are empty,
/// so the body never holds four `\n` in a row; and the body is empty
/// exactly when the content is.
pub proof fn lemma_normalized_lines(content: Seq<char>)
    ensures
        normalized_body(content) == terminated(kept_lines(lines_of(content), 0)),
        kept_lines(lines_of(content), 0).filter(not_blank()) == lines_of(content).filter(not_blank()),
        forall|j: int| 0 <= j < kept_lines(lines_of(content), 0).len() ==> #[trigger] kept_lines(
            lines_of(content),
            0,
        )[j].len() == 0 || (!is_blank(kept_lines(lines_of(content), 0)[j]) && lines_of(content).contains(
            kept_lines(lines_of(content), 0)[j],
        )),
        forall|j: int| !three_empty_at(kept_lines(lines_of(content), 0), j),
        (normalized_body(content).len() == 0) == (content.len() == 0),
        exists|f: Seq<int>| lists_kept(kept_lines(lines_of(content), 0), lines_of(content), f),
        forall|i: int| !four_newlines_at(normalized_body(content), i),
{
    let lines = lines_of(content);
    lemma_kept_lines_exact(lines);
    lemma_lines_no_newline(content);
    let kept = kept_lines(lines, 0);
    lemma_kept_shape(lines, 0);
    assert forall|j: int| 0 <= j < kept.len() implies no_newline(#[trigger] kept[j]) by {
        if kept[j].len() != 0 {
            let i = choose|i: int| 0 <= i < lines.len() && lines[i] == kept[j];
            assert(no_newline(lines[i]));
        }
    }
    lemma_terminated_no_four(kept);
    lemma_collapse_is_terminated(lines, 0);
    lemma_kept_shape(lines, 0);
    lemma_lines_of_empty(content);
    if lines.len() > 0 {
        let k = kept_lines(lines, 0);
        if is_blank(lines[0]) {
            assert(k[0] == Seq::<char>::empty());
        } else {
            assert(k[0] == lines[0]);
        }
        assert(terminated(k).len() > 0);
    } else {
        assert(kept_lines(lines, 0).len() == 0);
    }
}

fn normalize_chars(content: &[char]) -> (r: Vec<char>)
    ensures
        r@ == normalized_body(content@),
{
    let lines = lines_exec(content);
    let ghost all = lines_view(lines@);
    let mut out: Vec<char> = Vec::new();
    let mut blank_run: u8 = 0;
    let ghost mut run: nat = 0;
    let mut i: usize = 0;
    assert(all.skip(0) =~= all);
    assert(out@ + collapse_blank_lines(all.skip(0), 0) =~= collapse_blank_lines(all, 0));
    while i < lines.len()
        invariant
            i <= lines@.len(),
            all == lines_view(lines@),
            blank_run as nat == (if run > 255 {
                255
            } else {
                run
            }),
            out@ + collapse_blank_lines(all.skip(i as int), run) == collapse_blank_lines(all, 0),
        decreases lines@.len() - i,
    {
        let line = &lines[i];
        let t = trimmed(line.as_slice());
        proof {
            assert(all.skip(i as int)[0] == line@);
            assert(all.skip(i as int).drop_first() =~= all.skip(i + 1));
        }
        if t.len() == 0 {
            if blank_run < 255 {
                blank_run = blank_run + 1;
            }
            proof {
                run = run + 1;
            }
            if blank_run <= 2 {
                out.push('\n');
            }
            proof {
                if run <= 2 {
                    assert(out@ + collapse_blank_lines(all.skip(i + 1), run) =~= (out@.drop_last()
                        + seq!['\n']) + collapse_blank_lines(all.skip(i + 1), run));
                }
            }
        } else {
            blank_run = 0;
            proof {
                run = 0;
            }
            extend_chars(&mut out, line.as_slice());
            out.push('\n');
        }
        i += 1;
    }
    assert(all.skip(i as int) =~= Seq::<Seq<char>>::empty());
    out
}

/// Collapses runs of blank lines in a message body to at most two empty
/// lines; every line of the result ends with `\n`.
pub fn normalize_md_body(content: &str) -> (r: String)
    ensures
        r@ == normalized_body(content@),
{
    let v = chars_of(content);
    let n = normalize_chars(v.as_slice());
    string_of(n.as_slice())
}

/// One message of the transcript: a separator before all but the first, the
/// role heading, the body, and a cursor after a reply still being streamed.
pub open spec fn transcript_entry(msgs: Seq<Message>, generating: bool, i: int) -> Seq<char> {
    let m = msgs[i];
    (if i > 0 {
        "\n\n---\n\n"@
    } else {
        Seq::empty()
    }) + "### "@ + role_label_text(m.role@) + "\n\n"@ + normalized_body(trim_end(m.content@)) + (
    if generating && i + 1 == msgs.len() && m.role@ == "assistant"@ {
        " ▍"@
    } else {
        Seq::empty()
    })
}

/// The transcript of the first `n` messages.
pub open spec fn transcript_upto(msgs: Seq<Message>, generating: bool, n: int) -> Seq<char>
    decreases n,
{
    if n <= 0 {
        Seq::empty()
    } else {
        transcript_upto(msgs, generating, n - 1) + transcript_entry(msgs, generating, n - 1)
    }
}

/// The whole chat as one markdown document.
pub open spec fn transcript_text(msgs: Seq<Message>, generating: bool) -> Seq<char> {
    transcript_upto(msgs, generating, msgs.len() as int)
}

/// Markdown for the whole chat: for each message a `### role` heading and
/// its body (trailing whitespace removed, blank runs collapsed), messages
/// separated by a rule; while generating, the last assistant message ends
/// with a cursor.
pub fn format_transcript(messages: &[Message], is_generating: bool) -> (r: String)
    ensures
        r@ == transcript_text(messages@, is_generating),
{
    let mut out: Vec<char> = Vec::new();
    let mut i: usize = 0;
    while i < messages.len()
        invariant
            i <= messages@.len(),
            out@ == transcript_upto(messages@, is_generating, i as int),
        decreases messages@.len() - i,
    {
        let m = &messages[i];
        let ghost before = out@;
        if i > 0 {
            extend_str(&mut out, "\n\n---\n\n");
        }
        extend_str(&mut out, "### ");
        let label = role_label(m.role.as_str());
        extend_str(&mut out, label);
        extend_str(&mut out, "\n\n");
        let content = chars_of(m.content.as_str());
        let body = trimmed_end(content.as_slice());
        let norm = normalize_chars(body.as_slice());
        extend_chars(&mut out, norm.as_slice());
        let cursor = is_generating && i + 1 == messages.len() && str_equal(
            m.role.as_str(),
            "assistant",
        );
        if cursor {
            extend_str(&mut out, " ▍");
        }
        proof {
            assert(out@ =~= before + transcript_entry(messages@, is_generating, i as int));
        }
        i += 1;
    }
    string_of(out.as_slice())
}

/// A model name cut to `max` characters for the session list, the cut
/// marked by `…`.
pub fn truncate_model(name: &str, max: usize) -> (r: String)
    ensures
        r@ == ellipsized(name@, max as nat),
{
    ellipsize(name, max)
}

} // verus!
