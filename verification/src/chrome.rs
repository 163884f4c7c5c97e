//! The status bar at the bottom of the screen: key hints for the current
//! mode, the session title, the mode badge, and how the row is shared.
use vstd::prelude::*;

use crate::app::{App, AppView, ChatFocus, CurrentTab, ModelsFocus};
use crate::styles::{help_line, help_pieces, pieces_width, short_model, short_model_text, spans_view, HelpSpan, HelpStyle};
use crate::text::{copy_string, str_equal};
use crate::types::Session;

verus! {

/// The key hints for a state.
pub open spec fn help_keys_for(v: AppView) -> Seq<(&'static str, &'static str)> {
    if v.show_popup {
        seq![("enter", "pull"), ("esc", "cancel")]
    } else {
        match v.current_tab {
            CurrentTab::Models => if v.show_info {
                match v.models_focus {
                    ModelsFocus::Info => seq![("↑↓", "scroll"), ("f3/esc", "close"), ("tab", "list"), ("j/k", "scroll")],
                    ModelsFocus::List => seq![
                        ("f3/esc", "close"),
                        ("tab", "inspect"),
                        ("j/k", "nav"),
                        ("enter", "chat"),
                        ("p", "pull"),
                    ],
                }
            } else {
                seq![
                    ("f3", "inspect"),
                    ("esc", "chat"),
                    ("j/k", "nav"),
                    ("enter", "use"),
                    ("p", "pull"),
                    ("d", "delete"),
                    ("s", "sort"),
                ]
            },
            CurrentTab::Chat => match v.chat_focus {
                ChatFocus::Sessions => if v.is_generating {
                    seq![("c", "cancel"), ("tab", "focus"), ("j/k", "sessions")]
                } else {
                    seq![
                        ("tab", "focus"),
                        ("j/k", "sessions"),
                        ("enter", "open"),
                        ("i", "insert"),
                        ("f2", "library"),
                        ("m", "model"),
                    ]
                },
                ChatFocus::Input => if v.is_generating {
                    seq![("^c", "cancel"), ("tab", "focus"), ("esc", "back")]
                } else {
                    seq![
                        ("enter", "send"),
                        ("tab", "focus"),
                        ("esc", "back"),
                        ("f2", "library"),
                        ("^r", "regen"),
                        ("^c^c", "quit"),
                    ]
                },
            },
        }
    }
}

/// The key hints `(key, description)` for the current mode.
pub fn help_keys(app: &App) -> (r: Vec<(&'static str, &'static str)>)
    ensures
        r@ == help_keys_for(app@),
{
    let r: Vec<(&'static str, &'static str)> = if app.show_popup {
        vec![("enter", "pull"), ("esc", "cancel")]
    } else {
        match app.current_tab {
            CurrentTab::Models => if app.show_info {
                match app.models_focus {
                    ModelsFocus::Info => vec![("↑↓", "scroll"), ("f3/esc", "close"), ("tab", "list"), ("j/k", "scroll")],
                    ModelsFocus::List => vec![
                        ("f3/esc", "close"),
                        ("tab", "inspect"),
                        ("j/k", "nav"),
                        ("enter", "chat"),
                        ("p", "pull"),
                    ],
                }
            } else {
                vec![
                    ("f3", "inspect"),
                    ("esc", "chat"),
                    ("j/k", "nav"),
                    ("enter", "use"),
                    ("p", "pull"),
                    ("d", "delete"),
                    ("s", "sort"),
                ]
            },
            CurrentTab::Chat => match app.chat_focus {
                ChatFocus::Sessions => if app.is_generating {
                    vec![("c", "cancel"), ("tab", "focus"), ("j/k", "sessions")]
                } else {
                    vec![
                        ("tab", "focus"),
                        ("j/k", "sessions"),
                        ("enter", "open"),
                        ("i", "insert"),
                        ("f2", "library"),
                        ("m", "model"),
                    ]
                },
                ChatFocus::Input => if app.is_generating {
                    vec![("^c", "cancel"), ("tab", "focus"), ("esc", "back")]
                } else {
                    vec![
                        ("enter", "send"),
                        ("tab", "focus"),
                        ("esc", "back"),
                        ("f2", "library"),
                        ("^r", "regen"),
                        ("^c^c", "quit"),
                    ]
                },
            },
        }
    };
    assert(r@ =~= help_keys_for(app@));
    r
}

/// Cells offered to the key hints on a row of `width` cells: 55% of it, at
/// least 20, at most the whole row.
pub open spec fn keys_budget_for(width: nat) -> nat {
    let share = width * 55 / 100;
    let at_least: nat = if share < 20 {
        20
    } else {
        share
    };
    if at_least > width {
        width
    } else {
        at_least
    }
}

/// Cells offered to the key hints (see `keys_budget_for`).
pub fn keys_budget(width: u16) -> (r: u16)
    ensures
        r == keys_budget_for(width as nat),
        r <= width,
{
    let share: u32 = (width as u32) * 55 / 100;
    let at_least: u32 = if share < 20 {
        20
    } else {
        share
    };
    let r: u32 = if at_least > width as u32 {
        width as u32
    } else {
        at_least
    };
    r as u16
}

/// The width of hint pieces with each piece's length counted as a `u16`
/// (modulo 2^16).
pub open spec fn counted_width(p: Seq<(Seq<char>, HelpStyle)>) -> nat
    decreases p.len(),
{
    if p.len() == 0 {
        0
    } else {
        counted_width(p.drop_last()) + p.last().0.len() % 65536
    }
}

/// Cells the key-hint zone takes: the hints, two cells for the separator,
/// at most the whole row.
pub open spec fn keys_zone_for(hints: nat, width: nat) -> nat {
    if hints + 2 > width {
        width
    } else {
        hints + 2
    }
}

/// Cells the key-hint zone takes for the given hint pieces (see
/// `counted_width`, `keys_zone_for`). The counted width must fit a `u16`.
pub fn keys_zone_width(spans: &Vec<HelpSpan>, width: u16) -> (r: u16)
    requires
        counted_width(spans_view(spans@)) <= u16::MAX,
    ensures
        r == keys_zone_for(counted_width(spans_view(spans@)), width as nat),
{
    let ghost all = spans_view(spans@);
    let mut total: u128 = 0;
    let mut i: usize = 0;
    assert(all.take(0) =~= Seq::<(Seq<char>, HelpStyle)>::empty());
    while i < spans.len()
        invariant
            i <= spans@.len(),
            all == spans_view(spans@),
            counted_width(all) <= u16::MAX,
            total == counted_width(all.take(i as int)),
            total <= 65536 * i,
        decreases spans@.len() - i,
    {
        let n = crate::text::chars_of(spans[i].text.as_str()).len() as u128;
        assert(all.take(i + 1).drop_last() =~= all.take(i as int));
        assert(all[i as int].0 == spans@[i as int].text@);
        total = total + n % 65536;
        i += 1;
    }
    assert(all.take(spans@.len() as int) =~= all);
    let w = width as u128;
    let r: u128 = if total + 2 > w {
        w
    } else {
        total + 2
    };
    r as u16
}

proof fn lemma_counted_width_at_most(p: Seq<(Seq<char>, HelpStyle)>)
    ensures
        counted_width(p) <= pieces_width(p),
    decreases p.len(),
{
    if p.len() > 0 {
        lemma_counted_width_at_most(p.drop_last());
    }
}

/// The key hints of the bottom line on a row of `width` cells, and the cells
/// their zone takes: the hints for the current mode fitted to the keys'
/// share of the row (see `help_keys_for`, `keys_budget_for`, `help_pieces`,
/// `keys_zone_for`).
pub fn key_hints(app: &App, width: u16) -> (r: (Vec<HelpSpan>, u16))
    ensures
        spans_view(r.0@) == help_pieces(help_keys_for(app@), keys_budget_for(width as nat), 0, 0),
        r.1 == keys_zone_for(counted_width(spans_view(r.0@)), width as nat),
        r.1 <= width,
{
    let keys = help_keys(app);
    let budget = keys_budget(width);
    let pieces = help_line(keys.as_slice(), budget);
    proof {
        lemma_counted_width_at_most(spans_view(pieces@));
        if budget == 0 {
            let k = keys@;
            if k.len() > 0 {
                let one = help_pieces(k, 0, 0, 0);
                assert(one.len() == 1);
                assert(one.drop_last() =~= Seq::<(Seq<char>, HelpStyle)>::empty());
                reveal_with_fuel(pieces_width, 2);
                assert(pieces_width(one) == one[0].0.len());
            } else {
                assert(help_pieces(k, 0, 0, 0) =~= Seq::<(Seq<char>, HelpStyle)>::empty());
            }
        }
    }
    let zone = keys_zone_width(&pieces, width);
    (pieces, zone)
}

/// The title shown for the current session: the title of the session with
/// that id (`untitled` when it is empty), or `chat` when none has it.
pub open spec fn session_title_for(sessions: Seq<Session>, id: Seq<char>) -> Seq<char>
    decreases sessions.len(),
{
    if sessions.len() == 0 {
        "chat"@
    } else if sessions[0].id.0@ == id {
        if sessions[0].title@.len() == 0 {
            "untitled"@
        } else {
            sessions[0].title@
        }
    } else {
        session_title_for(sessions.drop_first(), id)
    }
}

/// Cells left for the session title on a zone of `zone_width` cells: what
/// the brand and tab labels (27 cells) and 12 more leave, at least 8.
pub open spec fn title_budget_for(zone_width: nat) -> nat {
    if zone_width >= 39 && zone_width - 39 >= 8 {
        (zone_width - 39) as nat
    } else {
        8
    }
}

/// The status-bar title of the current session, shortened to fit a zone
/// of `zone_width` cells; `None` when no session is current ("new chat").
pub fn session_caption(app: &App, zone_width: u16) -> (r: Option<String>)
    ensures
        match app@.current_session_id {
            None => r is None,
            Some(id) => r matches Some(t) && t@ == short_model_text(
                session_title_for(app@.sessions, id),
                title_budget_for(zone_width as nat),
            ),
        },
{
    match &app.current_session_id {
        None => None,
        Some(id) => {
            let mut title = String::from_str("chat");
            let mut i: usize = 0;
            let mut done = false;
            let ghost all = app@.sessions;
            proof {
                reveal_strlit("chat");
                reveal_strlit("untitled");
                assert(all.skip(0) =~= all);
            }
            while !done && i < app.sessions.len()
                invariant
                    i <= app.sessions@.len(),
                    all == app@.sessions,
                    !done ==> title@ == "chat"@,
                    !done ==> session_title_for(all, id@) == session_title_for(all.skip(i as int), id@),
                    done ==> title@ == session_title_for(all, id@),
                decreases app.sessions@.len() - i,
            {
                let s = &app.sessions[i];
                assert(all.skip(i as int).drop_first() =~= all.skip(i + 1));
                assert(all.skip(i as int)[0] == *s);
                if str_equal(s.id.0.as_str(), id.as_str()) {
                    if s.title.as_str().is_empty() {
                        title = String::from_str("untitled");
                    } else {
                        title = copy_string(&s.title);
                    }
                    done = true;
                }
                i += 1;
            }
            proof {
                if !done {
                    assert(all.skip(i as int) =~= Seq::<Session>::empty());
                }
            }
            let budget: usize = if zone_width >= 39 && zone_width - 39 >= 8 {
                (zone_width - 39) as usize
            } else {
                8
            };
            Some(short_model(title.as_str(), budget))
        },
    }
}

/// A badge naming the mode.
#[derive(Clone, Copy, Debug, PartialEq, Eq)]
pub enum ModeBadge {
    /// The pull prompt is open.
    Pull,
    /// The composer has focus.
    Insert,
    /// The session list has focus.
    List,
}

impl ModeBadge {
    /// The badge's text.
    pub fn label(&self) -> (r: &'static str)
        ensures
            r@ == match *self {
                ModeBadge::Pull => " PULL "@,
                ModeBadge::Insert => " INS "@,
                ModeBadge::List => " LIST "@,
            },
    {
        match self {
            ModeBadge::Pull => " PULL ",
            ModeBadge::Insert => " INS ",
            ModeBadge::List => " LIST ",
        }
    }
}

/// The badge naming the mode: the pull prompt, or the focused pane of the
/// chat tab; none on the models tab.
pub open spec fn mode_badge_for(v: AppView) -> Option<ModeBadge> {
    if v.show_popup {
        Some(ModeBadge::Pull)
    } else {
        match v.current_tab {
            CurrentTab::Chat => match v.chat_focus {
                ChatFocus::Input => Some(ModeBadge::Insert),
                ChatFocus::Sessions => Some(ModeBadge::List),
            },
            CurrentTab::Models => None,
        }
    }
}

/// The mode badge (see `mode_badge_for`).
pub fn mode_badge(app: &App) -> (r: Option<ModeBadge>)
    ensures
        r == mode_badge_for(app@),
{
    if app.show_popup {
        Some(ModeBadge::Pull)
    } else {
        match app.current_tab {
            CurrentTab::Chat => match app.chat_focus {
                ChatFocus::Input => Some(ModeBadge::Insert),
                ChatFocus::Sessions => Some(ModeBadge::List),
            },
            CurrentTab::Models => None,
        }
    }
}

} // verus!
