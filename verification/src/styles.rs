//! Text shaping for the status bar, tables and lists: shortened names, role
//! labels, key-hint lines, and the outer frame inset.
use vstd::prelude::*;

use crate::modelfile::{after_last, chars_after_last};
use crate::text::{chars_of, extend_chars, slice_chars, string_of};

verus! {

/// Sort indicator for a table header.
pub fn sort_mark(active: bool, _asc: bool) -> (r: &'static str)
    ensures
        active ==> r@ == "▾"@,
        !active ==> r@ == " "@,
{
    if active {
        "▾"
    } else {
        " "
    }
}

/// ASCII lower case of one character.
pub open spec fn lower_ascii(c: char) -> char {
    crate::decimal::ascii_lower(c)
}

pub open spec fn lower_ascii_seq(s: Seq<char>) -> Seq<char> {
    Seq::new(s.len(), |i: int| lower_ascii(s[i]))
}

/// `s` equals `w` without regard to ASCII case (`w` given in lower case).
fn equals_ignoring_ascii_case(s: &[char], w: &[char]) -> (r: bool)
    ensures
        r == (lower_ascii_seq(s@) == w@),
{
    if s.len() != w.len() {
        assert(lower_ascii_seq(s@).len() != w@.len());
        return false;
    }
    let mut i: usize = 0;
    while i < s.len()
        invariant
            s@.len() == w@.len(),
            i <= s@.len(),
            forall|j: int| 0 <= j < i ==> lower_ascii(s@[j]) == w@[j],
        decreases s@.len() - i,
    {
        let c = s[i];
        let l = if 'A' <= c && c <= 'Z' {
            ((c as u8) + 32) as char
        } else {
            c
        };
        if l != w[i] {
            assert(lower_ascii_seq(s@)[i as int] != w@[i as int]);
            return false;
        }
        i += 1;
    }
    assert(lower_ascii_seq(s@) =~= w@);
    true
}

pub open spec fn word_user() -> Seq<char> {
    seq!['u', 's', 'e', 'r']
}

pub open spec fn word_assistant() -> Seq<char> {
    seq!['a', 's', 's', 'i', 's', 't', 'a', 'n', 't']
}

pub open spec fn word_system() -> Seq<char> {
    seq!['s', 'y', 's', 't', 'e', 'm']
}

/// The heading shown for a message of the given role.
pub open spec fn role_label_text(role: Seq<char>) -> Seq<char> {
    let l = lower_ascii_seq(role);
    if l == word_user() {
        "you"@
    } else if l == word_assistant() {
        "assistant"@
    } else if l == word_system() {
        "system"@
    } else {
        "message"@
    }
}

/// Heading for a chat role, matched without regard to ASCII case: `user`
/// is shown as `you`; `assistant` and `system` as themselves; anything else
/// as `message`.
pub fn role_label(role: &str) -> (r: &'static str)
    ensures
        r@ == role_label_text(role@),
{
    let v = chars_of(role);
    let user = vec!['u', 's', 'e', 'r'];
    let assistant = vec!['a', 's', 's', 'i', 's', 't', 'a', 'n', 't'];
    let system = vec!['s', 'y', 's', 't', 'e', 'm'];
    assert(user@ =~= word_user());
    assert(assistant@ =~= word_assistant());
    assert(system@ =~= word_system());
    if equals_ignoring_ascii_case(v.as_slice(), user.as_slice()) {
        "you"
    } else if equals_ignoring_ascii_case(v.as_slice(), assistant.as_slice()) {
        "assistant"
    } else if equals_ignoring_ascii_case(v.as_slice(), system.as_slice()) {
        "system"
    } else {
        "message"
    }
}

/// The colour family of a chat role.
#[derive(Clone, Copy, Debug, PartialEq, Eq)]
pub enum RoleKind {
    User,
    Assistant,
    System,
    Other,
}

/// The colour family of a role, matched without regard to ASCII case:
/// `user` or `you`, `assistant` or `model`, `system`, or anything else.
pub open spec fn role_kind_of(role: Seq<char>) -> RoleKind {
    let l = lower_ascii_seq(role);
    if l == word_user() || l == "you"@ {
        RoleKind::User
    } else if l == word_assistant() || l == "model"@ {
        RoleKind::Assistant
    } else if l == word_system() {
        RoleKind::System
    } else {
        RoleKind::Other
    }
}

/// The colour family of a role (see `role_kind_of`).
pub fn role_kind(role: &str) -> (r: RoleKind)
    ensures
        r == role_kind_of(role@),
{
    let v = chars_of(role);
    let user = vec!['u', 's', 'e', 'r'];
    let you = vec!['y', 'o', 'u'];
    let assistant = vec!['a', 's', 's', 'i', 's', 't', 'a', 'n', 't'];
    let model = vec!['m', 'o', 'd', 'e', 'l'];
    let system = vec!['s', 'y', 's', 't', 'e', 'm'];
    proof {
        reveal_strlit("you");
        reveal_strlit("model");
    }
    assert(user@ =~= word_user());
    assert(you@ =~= "you"@);
    assert(assistant@ =~= word_assistant());
    assert(model@ =~= "model"@);
    assert(system@ =~= word_system());
    if equals_ignoring_ascii_case(v.as_slice(), user.as_slice()) || equals_ignoring_ascii_case(
        v.as_slice(),
        you.as_slice(),
    ) {
        RoleKind::User
    } else if equals_ignoring_ascii_case(v.as_slice(), assistant.as_slice()) || equals_ignoring_ascii_case(
        v.as_slice(),
        model.as_slice(),
    ) {
        RoleKind::Assistant
    } else if equals_ignoring_ascii_case(v.as_slice(), system.as_slice()) {
        RoleKind::System
    } else {
        RoleKind::Other
    }
}

/// `s` cut to at most `max` characters, the cut marked by a final `…`.
pub open spec fn ellipsized(s: Seq<char>, max: nat) -> Seq<char> {
    if s.len() <= max {
        s
    } else if max <= 1 {
        seq!['…']
    } else {
        s.take(max - 1).push('…')
    }
}

pub fn ellipsize_chars(s: &[char], max: usize) -> (r: Vec<char>)
    ensures
        r@ == ellipsized(s@, max as nat),
{
    if s.len() <= max {
        slice_chars(s, 0, s.len())
    } else if max <= 1 {
        let r = vec!['…'];
        assert(r@ =~= seq!['…']);
        r
    } else {
        let mut r = slice_chars(s, 0, max - 1);
        r.push('…');
        r
    }
}

/// `s` cut to at most `max` characters; a cut is marked by a final `…`.
pub fn ellipsize(s: &str, max: usize) -> (r: String)
    ensures
        r@ == ellipsized(s@, max as nat),
{
    let v = chars_of(s);
    let e = ellipsize_chars(v.as_slice(), max);
    string_of(e.as_slice())
}

/// Index of the last `c` in `s`.
pub open spec fn last_index(s: Seq<char>, c: char) -> Option<int> {
    if exists|i: int| 0 <= i < s.len() && s[i] == c && forall|j: int| i < j < s.len() ==> s[j] != c {
        Some(
            choose|i: int|
                0 <= i < s.len() && s[i] == c && forall|j: int| i < j < s.len() ==> s[j] != c,
        )
    } else {
        None
    }
}

fn find_last(s: &[char], c: char) -> (r: Option<usize>)
    ensures
        r matches Some(i) ==> last_index(s@, c) == Some(i as int) && i < s@.len() && s@[i as int]
            == c,
        r is None ==> last_index(s@, c) is None && forall|j: int| 0 <= j < s@.len() ==> s@[j] != c,
{
    let mut i: usize = s.len();
    while i > 0
        invariant
            i <= s@.len(),
            forall|j: int| i <= j < s@.len() ==> s@[j] != c,
        decreases i,
    {
        if s[i - 1] == c {
            proof {
                let k = choose|k: int|
                    0 <= k < s@.len() && s@[k] == c && forall|j: int| k < j < s@.len() ==> s@[j] != c;
                if k < i - 1 {
                    assert(s@[i - 1] == c);
                }
            }
            return Some(i - 1);
        }
        i -= 1;
    }
    None
}

/// A model id shortened for the status bar to at most `max` characters: its
/// last path segment, keeping the `:tag` when there is room for it.
pub open spec fn short_model_text(name: Seq<char>, max: nat) -> Seq<char> {
    let base = after_last(name, '/');
    if max == 0 {
        Seq::empty()
    } else if base.len() <= max {
        base
    } else {
        match last_index(base, ':') {
            None => ellipsized(base, max),
            Some(c) => {
                let head = base.take(c);
                let tag_part = base.skip(c);
                if max <= 2 || tag_part.len() >= max - 2 {
                    ellipsized(base, max)
                } else {
                    let head_short = ellipsized(head, (max - (tag_part.len() + 1)) as nat);
                    if head_short.len() > 0 && head_short.last() == '…' {
                        head_short + tag_part
                    } else {
                        head_short.push('…') + tag_part
                    }
                }
            },
        }
    }
}

/// Shortens a model id for the status bar: the part after the last `/`,
/// keeping the `:tag` when it leaves room for the name (see
/// `short_model_text`).
pub fn short_model(name: &str, max: usize) -> (r: String)
    ensures
        r@ == short_model_text(name@, max as nat),
        max > 0 ==> r@.len() <= max,
        forall|i: int| 0 <= i < r@.len() ==> r@[i] != '/',
{
    let all = chars_of(name);
    let base = chars_after_last(all.as_slice(), '/');
    proof {
        lemma_after_last_no_sep(name@, '/');
    }
    if max == 0 {
        return String::new();
    }
    if base.len() <= max {
        return string_of(base.as_slice());
    }
    let n = base.len();
    match find_last(base.as_slice(), ':') {
        None => {
            let e = ellipsize_chars(base.as_slice(), max);
            string_of(e.as_slice())
        },
        Some(c) => {
            let tag_part = slice_chars(base.as_slice(), c, n);
            assert(tag_part@ =~= base@.skip(c as int));
            if max <= 2 || tag_part.len() >= max - 2 {
                let e = ellipsize_chars(base.as_slice(), max);
                string_of(e.as_slice())
            } else {
                let head = slice_chars(base.as_slice(), 0, c);
                assert(head@ =~= base@.take(c as int));
                let mut out = ellipsize_chars(head.as_slice(), max - (tag_part.len() + 1));
                let ends = out.len() > 0 && out[out.len() - 1] == '…';
                if !ends {
                    out.push('…');
                }
                extend_chars(&mut out, tag_part.as_slice());
                string_of(out.as_slice())
            }
        },
    }
}

proof fn lemma_after_last_no_sep(s: Seq<char>, c: char)
    ensures
        forall|i: int| 0 <= i < after_last(s, c).len() ==> after_last(s, c)[i] != c,
    decreases s.len(),
{
    if s.len() > 0 && s.last() != c {
        lemma_after_last_no_sep(s.drop_last(), c);
        let t = after_last(s.drop_last(), c);
        assert forall|i: int| 0 <= i < t.push(s.last()).len() implies t.push(s.last())[i] != c by {
            if i < t.len() {
                assert(t.push(s.last())[i] == t[i]);
            }
        }
    }
}

// ---------------------------------------------------------------------------
// Key hints

/// How a piece of a key-hint line is drawn.
#[derive(Clone, Copy, Debug, PartialEq, Eq)]
pub enum HelpStyle {
    /// A key cap such as `<enter>` (also a truncated first binding).
    Key,
    /// The description after a key.
    Desc,
    /// The gap between two bindings.
    Gap,
}

/// One styled piece of a key-hint line.
#[derive(Clone, Debug, PartialEq, Eq)]
pub struct HelpSpan {
    pub text: String,
    pub style: HelpStyle,
}

impl View for HelpSpan {
    type V = (Seq<char>, HelpStyle);

    open spec fn view(&self) -> (Seq<char>, HelpStyle) {
        (self.text@, self.style)
    }
}

/// `<key> desc`: the cells one binding takes.
pub open spec fn binding_text(key: Seq<char>, desc: Seq<char>) -> Seq<char> {
    seq!['<'] + key + seq!['>', ' '] + desc
}

/// The pieces of the hint line for `keys[i..]`, with `used` cells already
/// taken out of `max`: bindings are added while they fit (two cells of gap
/// between them); a first binding that does not fit is cut to `max - 1`
/// characters and marked with `…`; the first binding that does not fit ends
/// the line.
pub open spec fn help_pieces(keys: Seq<(&str, &str)>, max: nat, i: int, used: nat) -> Seq<
    (Seq<char>, HelpStyle),
>
    decreases keys.len() - i,
{
    if i < 0 || i >= keys.len() {
        Seq::empty()
    } else {
        let key = keys[i].0@;
        let desc = keys[i].1@;
        let sep: nat = if i == 0 {
            0
        } else {
            2
        };
        let w = binding_text(key, desc).len();
        if used + sep + w > max {
            if i == 0 {
                let keep: nat = if max >= 1 {
                    (max - 1) as nat
                } else {
                    0
                };
                seq![(binding_text(key, desc).take(keep as int).push('…'), HelpStyle::Key)]
            } else {
                Seq::empty()
            }
        } else {
            let gap: Seq<(Seq<char>, HelpStyle)> = if i > 0 {
                seq![(seq![' ', ' '], HelpStyle::Gap)]
            } else {
                Seq::empty()
            };
            gap + seq![
                (seq!['<'] + key + seq!['>'], HelpStyle::Key),
                (seq![' '] + desc, HelpStyle::Desc),
            ] + help_pieces(keys, max, i + 1, used + sep + w)
        }
    }
}

/// Total number of characters in a sequence of pieces.
pub open spec fn pieces_width(p: Seq<(Seq<char>, HelpStyle)>) -> nat
    decreases p.len(),
{
    if p.len() == 0 {
        0
    } else {
        pieces_width(p.drop_last()) + p.last().0.len()
    }
}

pub proof fn lemma_pieces_width_concat(a: Seq<(Seq<char>, HelpStyle)>, b: Seq<(Seq<char>, HelpStyle)>)
    ensures
        pieces_width(a + b) == pieces_width(a) + pieces_width(b),
    decreases b.len(),
{
    if b.len() > 0 {
        lemma_pieces_width_concat(a, b.drop_last());
        assert((a + b).drop_last() =~= a + b.drop_last());
    } else {
        assert(a + b =~= a);
    }
}

/// The pieces never take more than the room left.
pub proof fn lemma_help_pieces_fit(keys: Seq<(&str, &str)>, max: nat, i: int, used: nat)
    requires
        used <= max,
        0 <= i,
        i == 0 ==> max >= 1 && used == 0,
    ensures
        used + pieces_width(help_pieces(keys, max, i, used)) <= max,
    decreases keys.len() - i,
{
    if i < keys.len() {
        let key = keys[i].0@;
        let desc = keys[i].1@;
        let sep: nat = if i == 0 {
            0
        } else {
            2
        };
        let w = binding_text(key, desc).len();
        if used + sep + w > max {
            if i == 0 {
                let t = binding_text(key, desc).take((max - 1) as int).push('…');
                let one = seq![(t, HelpStyle::Key)];
                assert(one.drop_last() =~= Seq::<(Seq<char>, HelpStyle)>::empty());
                reveal_with_fuel(pieces_width, 2);
                assert(pieces_width(one) == t.len());
                assert(t.len() == max);
                assert(help_pieces(keys, max, i, used) == one);
            } else {
                assert(help_pieces(keys, max, i, used) =~= Seq::<(Seq<char>, HelpStyle)>::empty());
                assert(pieces_width(Seq::<(Seq<char>, HelpStyle)>::empty()) == 0);
            }
        } else {
            lemma_help_pieces_fit(keys, max, i + 1, used + sep + w);
            let gap: Seq<(Seq<char>, HelpStyle)> = if i > 0 {
                seq![(seq![' ', ' '], HelpStyle::Gap)]
            } else {
                Seq::empty()
            };
            let two = seq![
                (seq!['<'] + key + seq!['>'], HelpStyle::Key),
                (seq![' '] + desc, HelpStyle::Desc),
            ];
            let rest = help_pieces(keys, max, i + 1, used + sep + w);
            lemma_pieces_width_concat(gap + two, rest);
            lemma_pieces_width_concat(gap, two);
            assert(two.drop_last().drop_last() =~= Seq::<(Seq<char>, HelpStyle)>::empty());
            reveal_with_fuel(pieces_width, 3);
            assert(pieces_width(two) == w);
            if i > 0 {
                assert(gap.drop_last() =~= Seq::<(Seq<char>, HelpStyle)>::empty());
                assert(pieces_width(gap) == 2);
            } else {
                assert(pieces_width(gap) == 0);
            }
            assert(help_pieces(keys, max, i, used) == gap + two + rest);
        }
    } else {
        assert(pieces_width(help_pieces(keys, max, i, used)) == 0);
    }
}

/// Cells the first `n` bindings take: each `<key> desc`, and two cells of
/// gap between neighbours.
pub open spec fn bindings_width(keys: Seq<(&str, &str)>, n: int) -> nat
    decreases n,
{
    if n <= 0 {
        0
    } else {
        bindings_width(keys, n - 1) + (if n > 1 {
            2nat
        } else {
            0nat
        }) + binding_text(keys[n - 1].0@, keys[n - 1].1@).len()
    }
}

/// The pieces of the first `n` bindings in full: `<key>`, ` desc`, and a
/// gap before every binding but the first.
pub open spec fn bindings_pieces(keys: Seq<(&str, &str)>, n: int) -> Seq<(Seq<char>, HelpStyle)>
    decreases n,
{
    if n <= 0 {
        Seq::empty()
    } else {
        let gap: Seq<(Seq<char>, HelpStyle)> = if n > 1 {
            seq![(seq![' ', ' '], HelpStyle::Gap)]
        } else {
            Seq::empty()
        };
        bindings_pieces(keys, n - 1) + gap + seq![
            (seq!['<'] + keys[n - 1].0@ + seq!['>'], HelpStyle::Key),
            (seq![' '] + keys[n - 1].1@, HelpStyle::Desc),
        ]
    }
}

/// How many bindings from `i` on are shown: the scan stops at the first
/// one that does not fit.
pub open spec fn fit_count(keys: Seq<(&str, &str)>, max: nat, i: int) -> int
    decreases keys.len() - i,
{
    if i < 0 || i >= keys.len() {
        keys.len() as int
    } else if bindings_width(keys, i + 1) > max {
        i
    } else {
        fit_count(keys, max, i + 1)
    }
}

proof fn lemma_bindings_width_grows(keys: Seq<(&str, &str)>, a: int, b: int)
    requires
        0 <= a <= b,
    ensures
        bindings_width(keys, a) <= bindings_width(keys, b),
    decreases b - a,
{
    if a < b {
        lemma_bindings_width_grows(keys, a, b - 1);
    }
}

proof fn lemma_help_pieces_prefix(keys: Seq<(&str, &str)>, max: nat, i: int)
    requires
        0 <= i <= keys.len(),
        bindings_width(keys, i) <= max,
        i == 0 ==> keys.len() == 0 || bindings_width(keys, 1) <= max,
    ensures
        bindings_pieces(keys, i) + help_pieces(keys, max, i, bindings_width(keys, i)) == bindings_pieces(
            keys,
            fit_count(keys, max, i),
        ),
        i <= fit_count(keys, max, i) <= keys.len(),
        bindings_width(keys, fit_count(keys, max, i)) <= max,
        fit_count(keys, max, i) < keys.len() ==> bindings_width(keys, fit_count(keys, max, i) + 1) > max,
    decreases keys.len() - i,
{
    let used = bindings_width(keys, i);
    if i >= keys.len() {
        assert(bindings_pieces(keys, i) + Seq::<(Seq<char>, HelpStyle)>::empty() =~= bindings_pieces(keys, i));
    } else if bindings_width(keys, i + 1) > max {
        assert(i > 0);
        assert(help_pieces(keys, max, i, used) =~= Seq::<(Seq<char>, HelpStyle)>::empty());
        assert(bindings_pieces(keys, i) + Seq::<(Seq<char>, HelpStyle)>::empty() =~= bindings_pieces(keys, i));
    } else {
        lemma_help_pieces_prefix(keys, max, i + 1);
        let gap: Seq<(Seq<char>, HelpStyle)> = if i > 0 {
            seq![(seq![' ', ' '], HelpStyle::Gap)]
        } else {
            Seq::empty()
        };
        let two = seq![
            (seq!['<'] + keys[i].0@ + seq!['>'], HelpStyle::Key),
            (seq![' '] + keys[i].1@, HelpStyle::Desc),
        ];
        let rest = help_pieces(keys, max, i + 1, bindings_width(keys, i + 1));
        assert(help_pieces(keys, max, i, used) == gap + two + rest);
        assert(bindings_pieces(keys, i + 1) == bindings_pieces(keys, i) + gap + two);
        assert(bindings_pieces(keys, i) + (gap + two + rest) =~= bindings_pieces(keys, i) + gap + two + rest);
    }
}

/// What the hint line shows, without recursion: `j` is the largest number
/// of leading bindings whose texts and gaps fit in `max`, and the line is
/// those `j` bindings in full and in order. When even the first binding
/// does not fit, the line is that binding cut to `max - 1` characters and
/// marked with `…`; with no bindings the line is empty.
pub proof fn lemma_help_pieces_exact(keys: Seq<(&str, &str)>, max: nat)
    ensures
        ({
            let j = fit_count(keys, max, 0);
            &&& 0 <= j <= keys.len()
            &&& bindings_width(keys, j) <= max
            &&& forall|n: int| j < n <= keys.len() ==> bindings_width(keys, n) > max
            &&& (keys.len() == 0 || bindings_width(keys, 1) <= max) ==> help_pieces(keys, max, 0, 0)
                == bindings_pieces(keys, j)
            &&& keys.len() > 0 && bindings_width(keys, 1) > max ==> j == 0 && help_pieces(keys, max, 0, 0)
                == seq![
                (
                    binding_text(keys[0].0@, keys[0].1@).take(if max >= 1 {
                        max - 1
                    } else {
                        0
                    }).push('…'),
                    HelpStyle::Key,
                ),
            ]
        }),
{
    let j = fit_count(keys, max, 0);
    if keys.len() == 0 || bindings_width(keys, 1) <= max {
        lemma_help_pieces_prefix(keys, max, 0);
        assert(bindings_pieces(keys, 0) + help_pieces(keys, max, 0, 0) =~= help_pieces(keys, max, 0, 0));
        assert forall|n: int| j < n <= keys.len() implies bindings_width(keys, n) > max by {
            lemma_bindings_width_grows(keys, j + 1, n);
        }
    } else {
        assert(bindings_width(keys, 0) == 0);
        assert forall|n: int| j < n <= keys.len() implies bindings_width(keys, n) > max by {
            lemma_bindings_width_grows(keys, 1, n);
        }
    }
}

/// The view of each piece.
pub open spec fn spans_view(v: Seq<HelpSpan>) -> Seq<(Seq<char>, HelpStyle)> {
    v.map_values(|s: HelpSpan| s@)
}

fn push_span(out: &mut Vec<HelpSpan>, text: Vec<char>, style: HelpStyle)
    ensures
        spans_view(final(out)@) == spans_view(old(out)@).push((text@, style)),
{
    let span = HelpSpan { text: string_of(text.as_slice()), style };
    out.push(span);
    assert(spans_view(final(out)@) =~= spans_view(old(out)@).push((text@, style)));
}

/// A key-hint line that fits `max_width` cells: bindings `<key> desc` while
/// they fit, two cells apart; when even the first does not fit, it is cut
/// and marked with `…`. With room for at least one cell the pieces never
/// exceed `max_width`.
pub fn help_line(keys: &[(&str, &str)], max_width: u16) -> (r: Vec<HelpSpan>)
    ensures
        spans_view(r@) == help_pieces(keys@, max_width as nat, 0, 0),
        max_width >= 1 ==> pieces_width(spans_view(r@)) <= max_width,
{
    let max = max_width as u128;
    let mut out: Vec<HelpSpan> = Vec::new();
    let mut used: u128 = 0;
    let mut i: usize = 0;
    proof {
        if max_width >= 1 {
            lemma_help_pieces_fit(keys@, max_width as nat, 0, 0);
        }
    }
    while i < keys.len()
        invariant
            i <= keys@.len(),
            used <= max,
            max == max_width,
            spans_view(out@) + help_pieces(keys@, max as nat, i as int, used as nat)
                == help_pieces(keys@, max as nat, 0, 0),
            i == 0 ==> used == 0 && out@.len() == 0,
            max_width >= 1 ==> pieces_width(help_pieces(keys@, max as nat, 0, 0)) <= max_width,
        decreases keys@.len() - i,
    {
        let (key, desc) = keys[i];
        let kc = chars_of(key);
        let dc = chars_of(desc);
        let sep: u128 = if i == 0 {
            0
        } else {
            2
        };
        let mut piece: Vec<char> = vec!['<'];
        extend_chars(&mut piece, kc.as_slice());
        piece.push('>');
        piece.push(' ');
        extend_chars(&mut piece, dc.as_slice());
        assert(piece@ =~= binding_text(kc@, dc@));
        let w = piece.len() as u128;
        if used + sep + w > max {
            if i == 0 {
                let keep: usize = if max >= 1 {
                    (max - 1) as usize
                } else {
                    0
                };
                let mut s = slice_chars(piece.as_slice(), 0, keep);
                if s.len() < piece.len() {
                    s.push('…');
                }
                assert(s@ =~= piece@.take(keep as int).push('…'));
                push_span(&mut out, s, HelpStyle::Key);
                assert(spans_view(out@) =~= help_pieces(keys@, max as nat, 0, 0));
            } else {
                assert(spans_view(out@) =~= help_pieces(keys@, max as nat, 0, 0));
            }
            return out;
        }
        let ghost before = spans_view(out@);
        if i > 0 {
            let gap = vec![' ', ' '];
            assert(gap@ =~= seq![' ', ' ']);
            push_span(&mut out, gap, HelpStyle::Gap);
        }
        let mut kpart: Vec<char> = vec!['<'];
        extend_chars(&mut kpart, kc.as_slice());
        kpart.push('>');
        assert(kpart@ =~= seq!['<'] + kc@ + seq!['>']);
        push_span(&mut out, kpart, HelpStyle::Key);
        let mut dpart: Vec<char> = vec![' '];
        extend_chars(&mut dpart, dc.as_slice());
        assert(dpart@ =~= seq![' '] + dc@);
        push_span(&mut out, dpart, HelpStyle::Desc);
        used = used + sep + w;
        i += 1;
        proof {
            let gap: Seq<(Seq<char>, HelpStyle)> = if i - 1 > 0 {
                seq![(seq![' ', ' '], HelpStyle::Gap)]
            } else {
                Seq::empty()
            };
            let two = seq![
                (seq!['<'] + kc@ + seq!['>'], HelpStyle::Key),
                (seq![' '] + dc@, HelpStyle::Desc),
            ];
            assert(spans_view(out@) =~= before + gap + two);
        }
    }
    assert(spans_view(out@) =~= help_pieces(keys@, max as nat, 0, 0));
    out
}

// ---------------------------------------------------------------------------
// Frame geometry

/// A rectangle of terminal cells.
#[derive(Clone, Copy, Debug, PartialEq, Eq)]
pub struct Rect {
    pub x: u16,
    pub y: u16,
    pub width: u16,
    pub height: u16,
}

/// Inset of the outer frame, on the top and the sides.
pub const OUTER_PAD: u16 = 1;

/// Gap between sibling panes.
pub const GAP: u16 = 1;

/// The content area inside the outer frame: one cell in from the top and
/// both sides, flush at the bottom; an area too small to inset is kept.
pub fn outer_area(area: Rect) -> (r: Rect)
    requires
        area.width <= 2 || area.height <= 1 || (area.x < u16::MAX && area.y < u16::MAX),
    ensures
        (area.width <= 2 || area.height <= 1) ==> r == area,
        !(area.width <= 2 || area.height <= 1) ==> r == (Rect {
            x: (area.x + 1) as u16,
            y: (area.y + 1) as u16,
            width: (area.width - 2) as u16,
            height: (area.height - 1) as u16,
        }),
{
    let pad = OUTER_PAD;
    if area.width <= pad * 2 || area.height <= pad {
        return area;
    }
    Rect {
        x: area.x + pad,
        y: area.y + pad,
        width: area.width - pad * 2,
        height: area.height - pad,
    }
}

/// Where a notification is drawn on `area`: three rows high, one row from
/// the top, centred, as wide as its text plus six (the text length counted
/// as a `u16`), between 24 cells and the area's width less four.
pub fn toast_area(message: &str, area: Rect) -> (r: Rect)
    requires
        area.width >= 28,
        (message@.len() % 65536) + 6 <= u16::MAX,
        area.x + area.width <= u16::MAX,
        area.y < u16::MAX,
    ensures
        ({
            let want: int = (message@.len() % 65536) as int + 6;
            let width: int = if want < 24 {
                24
            } else if want > area.width - 4 {
                area.width - 4
            } else {
                want
            };
            r == Rect {
                x: (area.x + (area.width - width) / 2) as u16,
                y: (area.y + 1) as u16,
                width: width as u16,
                height: 3,
            }
        }),
{
    let n = chars_of(message).len();
    let len = (n % 65536) as u16;
    let want = len + 6;
    let most = area.width - 4;
    let width = if want < 24 {
        24
    } else if want > most {
        most
    } else {
        want
    };
    Rect { x: area.x + (area.width - width) / 2, y: area.y + 1, width, height: 3 }
}

/// How far a text of `line_count` lines can scroll in a pane of
/// `inner_height` rows (at least one), and the offset shown: the bottom when
/// following, else `scroll` held to that limit.
pub fn scroll_window(line_count: u16, inner_height: u16, scroll: u16, follow: bool) -> (r: (u16, u16))
    ensures
        ({
            let h: int = if inner_height < 1 {
                1
            } else {
                inner_height as int
            };
            let most: int = if line_count >= h {
                line_count - h
            } else {
                0
            };
            &&& r.0 == most
            &&& r.1 == if follow {
                most
            } else if scroll < most {
                scroll as int
            } else {
                most
            }
        }),
{
    let h = if inner_height < 1 {
        1
    } else {
        inner_height
    };
    let most = line_count.saturating_sub(h);
    let shown = if follow {
        most
    } else if scroll < most {
        scroll
    } else {
        most
    };
    (most, shown)
}

} // verus!
