//! The chat tab's text: the session list, pane titles, and how tall the
//! composer is.
use vstd::prelude::*;

use crate::app::{strings_view, App, AppView, ChatFocus};
use crate::styles::ellipsized;
use crate::text::{chars_of, copy_string, decimal, extend_str, push_decimal, string_of};
use crate::transcript::truncate_model;
use crate::types::Session;

verus! {

// ---------------------------------------------------------------------------
// Composer height

/// Columns a composer line wraps at on a pane `width` cells wide: six fewer
/// (borders and padding), at least one.
pub open spec fn wrap_width(width: u16) -> nat {
    if width > 7 {
        (width - 6) as nat
    } else {
        1
    }
}

/// Screen rows a line of `len` characters takes at `wrap` columns: one when
/// empty, else the length (counted modulo 2^16, as a `u16`) divided by the
/// width, rounded up.
pub open spec fn line_rows(len: nat, wrap: nat) -> nat {
    let l = len % 65536;
    if l == 0 {
        1
    } else {
        ((l + wrap - 1) as nat) / wrap
    }
}

/// Screen rows the composer's lines take.
pub open spec fn visual_rows(lines: Seq<Seq<char>>, wrap: nat) -> nat
    decreases lines.len(),
{
    if lines.len() == 0 {
        0
    } else {
        visual_rows(lines.drop_last(), wrap) + line_rows(lines.last().len(), wrap)
    }
}

/// Height of the composer pane: its rows plus three, between 4 and 12.
pub open spec fn composer_height_for(rows: nat) -> nat {
    if rows + 3 < 4 {
        4
    } else if rows + 3 > 12 {
        12
    } else {
        rows + 3
    }
}

/// The rows the composer's text takes on a pane `width` cells wide, and the
/// height of the composer pane (see `visual_rows`, `composer_height_for`);
/// `None` when the rows and three more do not fit a `u16`, where the count
/// would overflow.
pub fn composer_height(lines: &Vec<String>, width: u16) -> (r: Option<(u16, u16)>)
    ensures
        match r {
            None => visual_rows(strings_view(lines@), wrap_width(width)) + 3 > u16::MAX,
            Some((rows, height)) => rows == visual_rows(strings_view(lines@), wrap_width(width))
                && height == composer_height_for(rows as nat),
        },
{
    let ghost all = strings_view(lines@);
    let wrap: u128 = if width > 7 {
        (width - 6) as u128
    } else {
        1
    };
    let mut rows: u128 = 0;
    let mut i: usize = 0;
    assert(all.take(0) =~= Seq::<Seq<char>>::empty());
    while i < lines.len()
        invariant
            i <= lines@.len(),
            all == strings_view(lines@),
            wrap == wrap_width(width),
            wrap >= 1,
            rows == visual_rows(all.take(i as int), wrap as nat),
            rows <= 65536 * i,
        decreases lines@.len() - i,
    {
        let len = chars_of(lines[i].as_str()).len() as u128;
        let l = len % 65536;
        let step: u128 = if l == 0 {
            1
        } else {
            let num = l + wrap - 1;
            let q = num / wrap;
            assert(q <= 65536) by (nonlinear_arith)
                requires
                    wrap >= 1,
                    l < 65536,
                    num == l + wrap - 1,
                    q == num / wrap,
            ;
            q
        };
        assert(all.take(i + 1).drop_last() =~= all.take(i as int));
        assert(all[i as int] == lines@[i as int]@);
        rows = rows + step;
        i += 1;
    }
    assert(all.take(lines@.len() as int) =~= all);
    if rows + 3 > 65535 {
        return None;
    }
    let v = rows as u16;
    let h: u16 = if v + 3 < 4 {
        4
    } else if v + 3 > 12 {
        12
    } else {
        v + 3
    };
    Some((v, h))
}

// ---------------------------------------------------------------------------
// Session list

/// A session's title as listed: `untitled` when it is empty.
pub open spec fn listed_title(title: Seq<char>) -> Seq<char> {
    if title.len() == 0 {
        "untitled"@
    } else {
        title
    }
}

/// The two parts of a session's entry: its title and two spaces, and its
/// model cut to 14 characters.
pub fn session_item(s: &Session) -> (r: (String, String))
    ensures
        r.0@ == listed_title(s.title@) + "  "@,
        r.1@ == ellipsized(s.model.0@, 14),
{
    let mut t: Vec<char> = if s.title.as_str().is_empty() {
        chars_of("untitled")
    } else {
        chars_of(s.title.as_str())
    };
    proof {
        reveal_strlit("untitled");
    }
    extend_str(&mut t, "  ");
    (string_of(t.as_slice()), truncate_model(s.model.0.as_str(), 14))
}

/// The session list's title: `sessions`, with the count when there are any.
pub fn sessions_title(count: usize) -> (r: String)
    ensures
        r@ == if count == 0 {
            "sessions"@
        } else {
            "sessions · "@ + decimal(count as nat)
        },
{
    if count == 0 {
        return String::from_str("sessions");
    }
    let mut out = chars_of("sessions · ");
    push_decimal(&mut out, count as u64);
    string_of(out.as_slice())
}

// ---------------------------------------------------------------------------
// Pane titles

/// The name of the selected model, or `fallback` when none is selected.
pub open spec fn selected_name(v: AppView, fallback: Seq<char>) -> Seq<char> {
    if v.selected_model_index < v.models.len() {
        v.models[v.selected_model_index as int].name@
    } else {
        fallback
    }
}

fn selected_name_exec(app: &App, fallback: &str) -> (r: String)
    ensures
        r@ == selected_name(app@, fallback@),
{
    if app.selected_model_index < app.models.len() {
        copy_string(&app.models[app.selected_model_index].name)
    } else {
        String::from_str(fallback)
    }
}

/// The conversation pane's title: the selected model (`?` when none), and
/// `spinner` with `streaming` while a reply is generated.
pub fn conversation_title(app: &App, spinner: &str) -> (r: String)
    ensures
        r@ == "conversation · "@ + selected_name(app@, "?"@) + if app@.is_generating {
            " · "@ + spinner@ + " streaming"@
        } else {
            Seq::empty()
        },
{
    let name = selected_name_exec(app, "?");
    let mut out = chars_of("conversation · ");
    extend_str(&mut out, name.as_str());
    if app.is_generating {
        extend_str(&mut out, " · ");
        extend_str(&mut out, spinner);
        extend_str(&mut out, " streaming");
    }
    string_of(out.as_slice())
}

/// The title of the empty conversation pane, and the model named in its
/// greeting: the selected model, or `no model selected`.
pub fn empty_chat_titles(app: &App) -> (r: (String, String))
    ensures
        r.0@ == "conversation · "@ + selected_name(app@, "no model selected"@),
        r.1@ == selected_name(app@, "no model selected"@),
{
    let name = selected_name_exec(app, "no model selected");
    let mut out = chars_of("conversation · ");
    extend_str(&mut out, name.as_str());
    (string_of(out.as_slice()), name)
}

/// The composer's title: what to do while a reply is generated, when the
/// composer has focus, and otherwise how to focus it.
pub fn composer_title(app: &App, spinner: &str) -> (r: String)
    ensures
        r@ == if app@.is_generating {
            "composer · "@ + spinner@ + " generating · ^c cancel"@
        } else if app@.chat_focus == ChatFocus::Input {
            "composer · enter send · tab cycle · esc back"@
        } else {
            "composer · i / tab to focus"@
        },
{
    if app.is_generating {
        let mut out = chars_of("composer · ");
        extend_str(&mut out, spinner);
        extend_str(&mut out, " generating · ^c cancel");
        return string_of(out.as_slice());
    }
    match app.chat_focus {
        ChatFocus::Input => String::from_str("composer · enter send · tab cycle · esc back"),
        ChatFocus::Sessions => String::from_str("composer · i / tab to focus"),
    }
}

} // verus!
