//! The application state and how it answers key presses: which pane has
//! focus, what is selected, and which actions go to the backend.
use vstd::prelude::*;

use crate::config::Config;
use crate::events::Event;
pub use crate::sorting::SortColumn;
use crate::sorting::{sort_models_by, sorted_by};
use crate::text::{chars_of, copy_string, extend_chars, extend_str, slice_chars, str_equal, string_of, trim, trimmed};
use crate::types::{Message, Model, ModelName, Session, SessionId, ShowModelResponse};

verus! {

// ---------------------------------------------------------------------------
// Actions, modes, keys

/// Work for the backend.
#[derive(Clone, Debug, PartialEq)]
pub enum Action {
    FetchModels,
    Quit,
    DeleteModel(ModelName),
    PullModel(ModelName),
    ShowModelInfo(ModelName),
    Generate(String, ModelName),
    FetchSessions,
    LoadSession(SessionId),
    DeleteSession(SessionId),
    CreateSession(SessionId, String, ModelName),
    SaveMessage(SessionId, String, String),
    InitImage(u16, u16),
}

/// An action with its text payloads as character sequences.
pub enum ActionView {
    FetchModels,
    Quit,
    DeleteModel(Seq<char>),
    PullModel(Seq<char>),
    ShowModelInfo(Seq<char>),
    Generate(Seq<char>, Seq<char>),
    FetchSessions,
    LoadSession(Seq<char>),
    DeleteSession(Seq<char>),
    CreateSession(Seq<char>, Seq<char>, Seq<char>),
    SaveMessage(Seq<char>, Seq<char>, Seq<char>),
    InitImage(u16, u16),
}

impl View for Action {
    type V = ActionView;

    open spec fn view(&self) -> ActionView {
        match self {
            Action::FetchModels => ActionView::FetchModels,
            Action::Quit => ActionView::Quit,
            Action::DeleteModel(n) => ActionView::DeleteModel(n.0@),
            Action::PullModel(n) => ActionView::PullModel(n.0@),
            Action::ShowModelInfo(n) => ActionView::ShowModelInfo(n.0@),
            Action::Generate(p, n) => ActionView::Generate(p@, n.0@),
            Action::FetchSessions => ActionView::FetchSessions,
            Action::LoadSession(s) => ActionView::LoadSession(s.0@),
            Action::DeleteSession(s) => ActionView::DeleteSession(s.0@),
            Action::CreateSession(s, t, n) => ActionView::CreateSession(s.0@, t@, n.0@),
            Action::SaveMessage(s, r, c) => ActionView::SaveMessage(s.0@, r@, c@),
            Action::InitImage(w, h) => ActionView::InitImage(*w, *h),
        }
    }
}

pub open spec fn actions_view(v: Seq<Action>) -> Seq<ActionView> {
    v.map_values(|a: Action| a@)
}

/// The tab on screen.
#[derive(PartialEq, Eq, Debug, Clone, Copy, Structural)]
pub enum CurrentTab {
    Models,
    Chat,
}

/// The focused pane of the chat tab.
#[derive(PartialEq, Eq, Debug, Clone, Copy, Structural)]
pub enum ChatFocus {
    Input,
    Sessions,
}

/// The focused pane of the models tab.
#[derive(PartialEq, Eq, Debug, Clone, Copy, Structural)]
pub enum ModelsFocus {
    List,
    Info,
}

/// The keys the application tells apart.
#[derive(PartialEq, Eq, Debug, Clone, Copy, Structural)]
pub enum KeyCode {
    Char(char),
    Enter,
    Esc,
    Tab,
    Up,
    Down,
    Left,
    Right,
    PageUp,
    PageDown,
    /// Any other key (it may still be typed into an editor).
    Other,
}

/// A key press: the key, and whether Control was held.
#[derive(PartialEq, Eq, Debug, Clone, Copy, Structural)]
pub struct KeyPress {
    pub code: KeyCode,
    pub ctrl: bool,
}

/// What the text editors (message composer, model-name prompt) should do
/// after a key press.
#[derive(PartialEq, Eq, Debug, Clone, Copy, Structural)]
pub enum EditorEffect {
    /// Nothing.
    Keep,
    /// Type the key into the message composer.
    InputKey,
    /// Type the key into the model-name prompt.
    PopupKey,
    /// Empty the message composer.
    ResetInput,
    /// Empty the model-name prompt.
    ResetPopup,
}

/// Colour of a notification.
#[derive(PartialEq, Eq, Debug, Clone, Copy, Structural)]
pub enum ToastColor {
    Red,
}

/// A notification that disappears after `duration` ticks.
#[derive(Clone, Debug, PartialEq)]
pub struct Toast {
    pub message: String,
    pub duration: usize,
    pub color: ToastColor,
}

/// Ticks a notification stays on screen.
pub const TOAST_TICKS: usize = 20;

// ---------------------------------------------------------------------------
// State

/// The application state.
pub struct App {
    pub _config: Config,
    pub current_tab: CurrentTab,
    pub chat_focus: ChatFocus,
    pub models_focus: ModelsFocus,
    pub should_quit: bool,
    pub models: Vec<Model>,
    pub selected_model_index: usize,
    pub sort_column: SortColumn,
    pub show_info: bool,
    pub model_info: Option<ShowModelResponse>,
    pub info_scroll: u16,
    /// The lines of the message composer.
    pub input_lines: Vec<String>,
    pub messages: Vec<Message>,
    pub is_generating: bool,
    pub toasts: Vec<Toast>,
    pub sessions: Vec<Session>,
    pub selected_session_index: usize,
    pub current_session_id: Option<String>,
    pub chat_scroll: u16,
    pub show_popup: bool,
    /// The lines of the model-name prompt.
    pub popup_lines: Vec<String>,
    /// What the editors must do after the last key press.
    pub editor: EditorEffect,
}

/// The state with text as character sequences.
#[verifier::ext_equal]
pub struct AppView {
    pub config: Config,
    pub current_tab: CurrentTab,
    pub chat_focus: ChatFocus,
    pub models_focus: ModelsFocus,
    pub should_quit: bool,
    pub models: Seq<Model>,
    pub selected_model_index: usize,
    pub sort_column: SortColumn,
    pub show_info: bool,
    pub model_info: Option<ShowModelResponse>,
    pub info_scroll: u16,
    pub input_lines: Seq<Seq<char>>,
    /// `(role, content)` of each message.
    pub messages: Seq<(Seq<char>, Seq<char>)>,
    pub is_generating: bool,
    /// `(message, duration, color)` of each notification.
    pub toasts: Seq<(Seq<char>, usize, ToastColor)>,
    pub sessions: Seq<Session>,
    pub selected_session_index: usize,
    pub current_session_id: Option<Seq<char>>,
    pub chat_scroll: u16,
    pub show_popup: bool,
    pub popup_lines: Seq<Seq<char>>,
    pub editor: EditorEffect,
}

pub open spec fn strings_view(v: Seq<String>) -> Seq<Seq<char>> {
    v.map_values(|s: String| s@)
}

pub open spec fn messages_view(v: Seq<Message>) -> Seq<(Seq<char>, Seq<char>)> {
    v.map_values(|m: Message| (m.role@, m.content@))
}

pub open spec fn toasts_view(v: Seq<Toast>) -> Seq<(Seq<char>, usize, ToastColor)> {
    v.map_values(|t: Toast| (t.message@, t.duration, t.color))
}

pub open spec fn opt_view(o: Option<String>) -> Option<Seq<char>> {
    match o {
        Some(s) => Some(s@),
        None => None,
    }
}

impl View for App {
    type V = AppView;

    open spec fn view(&self) -> AppView {
        AppView {
            config: self._config,
            current_tab: self.current_tab,
            chat_focus: self.chat_focus,
            models_focus: self.models_focus,
            should_quit: self.should_quit,
            models: self.models@,
            selected_model_index: self.selected_model_index,
            sort_column: self.sort_column,
            show_info: self.show_info,
            model_info: self.model_info,
            info_scroll: self.info_scroll,
            input_lines: strings_view(self.input_lines@),
            messages: messages_view(self.messages@),
            is_generating: self.is_generating,
            toasts: toasts_view(self.toasts@),
            sessions: self.sessions@,
            selected_session_index: self.selected_session_index,
            current_session_id: opt_view(self.current_session_id),
            chat_scroll: self.chat_scroll,
            show_popup: self.show_popup,
            popup_lines: strings_view(self.popup_lines@),
            editor: self.editor,
        }
    }
}

// ---------------------------------------------------------------------------
// What a key press does

pub open spec fn sat_sub(a: u16, b: u16) -> u16 {
    if a >= b {
        (a - b) as u16
    } else {
        0
    }
}

pub open spec fn sat_add(a: u16, b: u16) -> u16 {
    if a + b > u16::MAX {
        u16::MAX
    } else {
        (a + b) as u16
    }
}

/// The lines joined with `sep` between them.
pub open spec fn join_lines(lines: Seq<Seq<char>>, sep: Seq<char>) -> Seq<char>
    decreases lines.len(),
{
    if lines.len() == 0 {
        Seq::empty()
    } else if lines.len() == 1 {
        lines[0]
    } else {
        join_lines(lines.drop_last(), sep) + sep + lines.last()
    }
}

/// The text of an empty editor: one empty line.
pub open spec fn empty_editor() -> Seq<Seq<char>> {
    seq![Seq::empty()]
}

/// Index of the first model with the given name.
pub open spec fn model_position(models: Seq<Model>, name: Seq<char>) -> Option<int> {
    if exists|p: int|
        0 <= p < models.len() && models[p].name@ == name && forall|q: int|
            0 <= q < p ==> #[trigger] models[q].name@ != name {
        Some(
            choose|p: int|
                0 <= p < models.len() && models[p].name@ == name && forall|q: int|
                    0 <= q < p ==> #[trigger] models[q].name@ != name,
        )
    } else {
        None
    }
}

pub open spec fn is_char(key: KeyPress, c: char) -> bool {
    key.code == KeyCode::Char(c)
}

/// The model-name prompt: `Esc` closes it, `Enter` with a non-blank name
/// asks to pull that model, other keys are typed.
pub open spec fn popup_step(v: AppView, key: KeyPress) -> (AppView, Seq<ActionView>) {
    if key.code == KeyCode::Esc {
        (AppView { show_popup: false, ..v }, Seq::empty())
    } else if key.code == KeyCode::Enter {
        let name = trim(join_lines(v.popup_lines, Seq::empty()));
        if name.len() > 0 {
            (
                AppView {
                    show_popup: false,
                    popup_lines: empty_editor(),
                    editor: EditorEffect::ResetPopup,
                    ..v
                },
                seq![ActionView::PullModel(name)],
            )
        } else {
            (v, Seq::empty())
        }
    } else {
        (AppView { editor: EditorEffect::PopupKey, ..v }, Seq::empty())
    }
}

/// Leaves the current conversation.
pub open spec fn cleared_chat(v: AppView) -> AppView {
    AppView { messages: Seq::empty(), current_session_id: None, chat_scroll: 0, ..v }
}

/// The session list of the chat tab.
pub open spec fn sessions_step(v: AppView, key: KeyPress) -> (AppView, Seq<ActionView>) {
    let idx = v.selected_session_index;
    if is_char(key, 'j') || key.code == KeyCode::Down {
        if v.sessions.len() > 0 && idx < v.sessions.len() - 1 {
            (AppView { selected_session_index: (idx + 1) as usize, ..v }, Seq::empty())
        } else {
            (v, Seq::empty())
        }
    } else if is_char(key, 'k') || key.code == KeyCode::Up {
        if idx > 0 {
            (AppView { selected_session_index: (idx - 1) as usize, ..v }, Seq::empty())
        } else {
            (v, Seq::empty())
        }
    } else if key.code == KeyCode::Enter {
        if idx < v.sessions.len() {
            let s = v.sessions[idx as int];
            let sel = match model_position(v.models, s.model.0@) {
                Some(p) => p as usize,
                None => v.selected_model_index,
            };
            (
                AppView {
                    selected_model_index: sel,
                    current_session_id: Some(s.id.0@),
                    chat_focus: ChatFocus::Input,
                    ..v
                },
                seq![ActionView::LoadSession(s.id.0@)],
            )
        } else {
            (v, Seq::empty())
        }
    } else if is_char(key, 'n') && key.ctrl {
        (AppView { chat_focus: ChatFocus::Input, ..cleared_chat(v) }, Seq::empty())
    } else if is_char(key, 'd') {
        if idx < v.sessions.len() {
            let id = v.sessions[idx as int].id.0@;
            let v2 = if v.current_session_id == Some(id) {
                AppView { messages: Seq::empty(), current_session_id: None, ..v }
            } else {
                v
            };
            (v2, seq![ActionView::DeleteSession(id)])
        } else {
            (v, Seq::empty())
        }
    } else {
        (v, Seq::empty())
    }
}

/// The model a new message goes to: the selected one, or `llama2:latest`
/// when none is selected.
pub open spec fn chat_model(v: AppView) -> Seq<char> {
    if v.selected_model_index < v.models.len() {
        v.models[v.selected_model_index as int].name@
    } else {
        "llama2:latest"@
    }
}

/// The title of a new session: the first 20 characters of the prompt.
pub open spec fn session_title(prompt: Seq<char>) -> Seq<char> {
    if prompt.len() <= 20 {
        prompt
    } else {
        prompt.take(20)
    }
}

/// The message composer. Sending a non-blank message records it, starts
/// generating, and asks to save and answer it; without a current session a
/// new one is created first, with id `fresh`.
pub open spec fn input_step(v: AppView, key: KeyPress, fresh: Seq<char>) -> (AppView, Seq<ActionView>) {
    if is_char(key, 'n') && key.ctrl {
        (cleared_chat(v), Seq::empty())
    } else if key.code == KeyCode::Enter {
        let text = join_lines(v.input_lines, seq!['\n']);
        if trim(text).len() > 0 {
            let model = chat_model(v);
            let v2 = AppView {
                messages: v.messages.push(("user"@, text)),
                input_lines: empty_editor(),
                editor: EditorEffect::ResetInput,
                is_generating: true,
                ..v
            };
            match v.current_session_id {
                Some(id) => (
                    v2,
                    seq![
                        ActionView::SaveMessage(id, "user"@, text),
                        ActionView::Generate(text, model),
                    ],
                ),
                None => (
                    AppView { current_session_id: Some(fresh), ..v2 },
                    seq![
                        ActionView::CreateSession(fresh, session_title(text), model),
                        ActionView::SaveMessage(fresh, "user"@, text),
                        ActionView::Generate(text, model),
                    ],
                ),
            }
        } else {
            (v, Seq::empty())
        }
    } else {
        (AppView { editor: EditorEffect::InputKey, ..v }, Seq::empty())
    }
}

/// The chat tab: scrolling and pane switching, then (unless a reply is
/// being generated) the focused pane.
pub open spec fn chat_step(v: AppView, key: KeyPress, fresh: Seq<char>) -> (AppView, Seq<ActionView>) {
    if key.code == KeyCode::PageUp {
        (AppView { chat_scroll: sat_sub(v.chat_scroll, 15), ..v }, Seq::empty())
    } else if key.code == KeyCode::PageDown {
        (AppView { chat_scroll: sat_add(v.chat_scroll, 15), ..v }, Seq::empty())
    } else if key.code == KeyCode::Up && v.chat_focus != ChatFocus::Sessions {
        (AppView { chat_scroll: sat_sub(v.chat_scroll, 3), ..v }, Seq::empty())
    } else if key.code == KeyCode::Down && v.chat_focus != ChatFocus::Sessions {
        (AppView { chat_scroll: sat_add(v.chat_scroll, 3), ..v }, Seq::empty())
    } else if key.code == KeyCode::Left && key.ctrl {
        (AppView { chat_focus: ChatFocus::Sessions, ..v }, Seq::empty())
    } else if key.code == KeyCode::Right && key.ctrl {
        (AppView { chat_focus: ChatFocus::Input, ..v }, Seq::empty())
    } else if v.is_generating {
        (v, Seq::empty())
    } else {
        match v.chat_focus {
            ChatFocus::Sessions => sessions_step(v, key),
            ChatFocus::Input => input_step(v, key, fresh),
        }
    }
}

pub open spec fn next_sort_column(c: SortColumn) -> SortColumn {
    match c {
        SortColumn::Name => SortColumn::Size,
        SortColumn::Size => SortColumn::Modified,
        SortColumn::Modified => SortColumn::Name,
    }
}

/// The model list (after the inspect pane had its say).
pub open spec fn model_list_step(v: AppView, key: KeyPress) -> (AppView, Seq<ActionView>) {
    let sel = v.selected_model_index;
    let n = v.models.len();
    if is_char(key, 'j') || key.code == KeyCode::Down {
        if n > 0 && sel < n - 1 {
            let v2 = AppView { selected_model_index: (sel + 1) as usize, ..v };
            if v.show_info {
                (v2, seq![ActionView::ShowModelInfo(v.models[sel + 1].name@)])
            } else {
                (v2, Seq::empty())
            }
        } else {
            (v, Seq::empty())
        }
    } else if is_char(key, 'k') || key.code == KeyCode::Up {
        if sel > 0 {
            let v2 = AppView { selected_model_index: (sel - 1) as usize, ..v };
            if v.show_info && sel - 1 < n {
                (v2, seq![ActionView::ShowModelInfo(v.models[sel - 1].name@)])
            } else {
                (v2, Seq::empty())
            }
        } else {
            (v, Seq::empty())
        }
    } else if is_char(key, 'd') {
        if sel < n {
            (v, seq![ActionView::DeleteModel(v.models[sel as int].name@)])
        } else {
            (v, Seq::empty())
        }
    } else if is_char(key, 'p') {
        (AppView { show_popup: true, ..v }, Seq::empty())
    } else if is_char(key, 'i') {
        if sel < n {
            (
                AppView { show_info: true, info_scroll: 0, models_focus: ModelsFocus::Info, ..v },
                seq![ActionView::ShowModelInfo(v.models[sel as int].name@)],
            )
        } else {
            (v, Seq::empty())
        }
    } else if is_char(key, 's') {
        let col = next_sort_column(v.sort_column);
        (AppView { sort_column: col, models: sorted_by(v.models, col), ..v }, Seq::empty())
    } else if key.code == KeyCode::Enter {
        (
            AppView { current_tab: CurrentTab::Chat, models_focus: ModelsFocus::List, ..cleared_chat(v) },
            Seq::empty(),
        )
    } else {
        (v, Seq::empty())
    }
}

/// The models tab: with the inspect pane open, `i`/`Esc` close it and the
/// paging keys scroll it; everything else goes to the list.
pub open spec fn models_step(v: AppView, key: KeyPress) -> (AppView, Seq<ActionView>) {
    if v.show_info && (is_char(key, 'i') || key.code == KeyCode::Esc) {
        (AppView { show_info: false, models_focus: ModelsFocus::List, ..v }, Seq::empty())
    } else if v.show_info && key.code == KeyCode::PageUp {
        (AppView { info_scroll: sat_sub(v.info_scroll, 15), ..v }, Seq::empty())
    } else if v.show_info && key.code == KeyCode::PageDown {
        (AppView { info_scroll: sat_add(v.info_scroll, 15), ..v }, Seq::empty())
    } else if v.show_info && key.code == KeyCode::Up && v.models_focus == ModelsFocus::Info {
        (AppView { info_scroll: sat_sub(v.info_scroll, 3), ..v }, Seq::empty())
    } else if v.show_info && key.code == KeyCode::Down && v.models_focus == ModelsFocus::Info {
        (AppView { info_scroll: sat_add(v.info_scroll, 3), ..v }, Seq::empty())
    } else {
        model_list_step(v, key)
    }
}

/// A key press: the prompt takes every key while open; `Ctrl+Q` (and `q` on
/// the model list) quits; `Ctrl+A`/`Ctrl+D` switch tabs; `Tab` cycles the
/// panes; everything else goes to the tab on screen. `fresh` is the id a new
/// session gets.
pub open spec fn key_step(v0: AppView, key: KeyPress, fresh: Seq<char>) -> (AppView, Seq<ActionView>) {
    let v = AppView { editor: EditorEffect::Keep, ..v0 };
    if v.show_popup {
        popup_step(v, key)
    } else if is_char(key, 'q') && key.ctrl {
        (AppView { should_quit: true, ..v }, seq![ActionView::Quit])
    } else if is_char(key, 'q') {
        match v.current_tab {
            CurrentTab::Models => if v.show_info {
                models_step(v, key)
            } else {
                (AppView { should_quit: true, ..v }, seq![ActionView::Quit])
            },
            CurrentTab::Chat => chat_step(v, key, fresh),
        }
    } else if is_char(key, 'a') && key.ctrl {
        (AppView { current_tab: CurrentTab::Models, ..v }, Seq::empty())
    } else if is_char(key, 'd') && key.ctrl {
        (AppView { current_tab: CurrentTab::Chat, ..v }, Seq::empty())
    } else if key.code == KeyCode::Tab {
        match v.current_tab {
            CurrentTab::Models => if v.show_info {
                (
                    AppView {
                        models_focus: match v.models_focus {
                            ModelsFocus::List => ModelsFocus::Info,
                            ModelsFocus::Info => ModelsFocus::List,
                        },
                        ..v
                    },
                    Seq::empty(),
                )
            } else {
                (v, Seq::empty())
            },
            CurrentTab::Chat => (
                AppView {
                    chat_focus: match v.chat_focus {
                        ChatFocus::Input => ChatFocus::Sessions,
                        ChatFocus::Sessions => ChatFocus::Input,
                    },
                    ..v
                },
                Seq::empty(),
            ),
        }
    } else {
        match v.current_tab {
            CurrentTab::Models => models_step(v, key),
            CurrentTab::Chat => chat_step(v, key, fresh),
        }
    }
}

/// The id recorded as the current session (empty when there is none).
pub open spec fn session_of(v: AppView) -> Seq<char> {
    match v.current_session_id {
        Some(s) => s,
        None => Seq::empty(),
    }
}

// ---------------------------------------------------------------------------
// Notifications

/// Notifications after one tick: each loses a tick, and those with none
/// left are dropped.
pub open spec fn tick_toasts(t: Seq<(Seq<char>, usize, ToastColor)>) -> Seq<(Seq<char>, usize, ToastColor)>
    decreases t.len(),
{
    if t.len() == 0 {
        Seq::empty()
    } else {
        let rest = tick_toasts(t.drop_last());
        let x = t.last();
        if x.1 > 0 {
            rest.push((x.0, (x.1 - 1) as usize, x.2))
        } else {
            rest
        }
    }
}

// ---------------------------------------------------------------------------
// Events

/// The messages after a piece of a streamed reply arrived: it extends the
/// last message when that is the assistant's, and starts one otherwise.
pub open spec fn append_token(msgs: Seq<(Seq<char>, Seq<char>)>, tok: Seq<char>) -> Seq<(Seq<char>, Seq<char>)> {
    if msgs.len() > 0 && msgs.last().0 == "assistant"@ {
        msgs.drop_last().push((msgs.last().0, msgs.last().1 + tok))
    } else {
        msgs.push(("assistant"@, tok))
    }
}

/// When a reply is complete: in a session whose last message is the
/// assistant's, that message is saved.
pub open spec fn finished_reply(v: AppView) -> Seq<ActionView> {
    match v.current_session_id {
        Some(id) => if v.messages.len() > 0 && v.messages.last().0 == "assistant"@ {
            seq![ActionView::SaveMessage(id, "assistant"@, v.messages.last().1)]
        } else {
            Seq::empty()
        },
        None => Seq::empty(),
    }
}

/// What an event does to the state, and the work it hands the backend.
/// `fresh` is the id a new session gets (see `key_step`).
pub open spec fn event_step(v: AppView, e: Event, fresh: Seq<char>) -> (AppView, Seq<ActionView>) {
    match e {
        Event::Input(key) => key_step(v, key, fresh),
        Event::Tick => (AppView { toasts: tick_toasts(v.toasts), ..v }, Seq::empty()),
        Event::ModelsFetched(ms) => (
            AppView { models: sorted_by(ms@, SortColumn::Name), sort_column: SortColumn::Name, ..v },
            Seq::empty(),
        ),
        Event::SessionsFetched(ss) => (AppView { sessions: ss@, ..v }, Seq::empty()),
        Event::MessagesLoaded(ms) => (AppView { messages: messages_view(ms@), ..v }, Seq::empty()),
        Event::ModelInfoFetched(info) => (
            AppView {
                model_info: Some(info),
                models_focus: if v.show_info {
                    ModelsFocus::Info
                } else {
                    v.models_focus
                },
                ..v
            },
            Seq::empty(),
        ),
        Event::TokenReceived(t) => (AppView { messages: append_token(v.messages, t@), ..v }, Seq::empty()),
        Event::GenerationDone => (AppView { is_generating: false, ..v }, finished_reply(v)),
        Event::Error(m) => (
            AppView { toasts: v.toasts.push((m@, TOAST_TICKS, ToastColor::Red)), ..v },
            Seq::empty(),
        ),
    }
}

// ---------------------------------------------------------------------------
// Laws

/// The selected model and the selected session each lie inside their list
/// (or are 0).
pub open spec fn selections_in_bounds(v: AppView) -> bool {
    &&& (v.selected_model_index == 0 || v.selected_model_index < v.models.len())
    &&& (v.selected_session_index == 0 || v.selected_session_index < v.sessions.len())
}

pub open spec fn ctrl(c: char) -> KeyPress {
    KeyPress { code: KeyCode::Char(c), ctrl: true }
}

pub open spec fn plain(code: KeyCode) -> KeyPress {
    KeyPress { code: code, ctrl: false }
}

/// Outside the pull prompt, `Ctrl+A` shows the models tab and `Ctrl+D` the
/// chat tab; neither asks the backend for anything.
pub proof fn lemma_tab_keys(v: AppView, fresh: Seq<char>)
    requires
        !v.show_popup,
    ensures
        key_step(v, ctrl('a'), fresh).0 == (AppView { current_tab: CurrentTab::Models, editor: EditorEffect::Keep, ..v }),
        key_step(v, ctrl('a'), fresh).1.len() == 0,
        key_step(v, ctrl('d'), fresh).0 == (AppView { current_tab: CurrentTab::Chat, editor: EditorEffect::Keep, ..v }),
        key_step(v, ctrl('d'), fresh).1.len() == 0,
{
}

/// Outside the pull prompt, `Ctrl+Q` quits: the state says so and the
/// backend is told to stop.
pub proof fn lemma_ctrl_q_quits(v: AppView, fresh: Seq<char>)
    requires
        !v.show_popup,
    ensures
        key_step(v, ctrl('q'), fresh) == (
            AppView { should_quit: true, editor: EditorEffect::Keep, ..v },
            seq![ActionView::Quit],
        ),
{
}

/// Outside the pull prompt, pressing `Tab` twice gives the focus back to
/// the pane that had it, and changes nothing else.
pub proof fn lemma_tab_twice(v: AppView, fresh: Seq<char>)
    requires
        !v.show_popup,
    ensures
        ({
            let first = key_step(v, plain(KeyCode::Tab), fresh);
            let second = key_step(first.0, plain(KeyCode::Tab), fresh);
            &&& second.0 == (AppView { editor: EditorEffect::Keep, ..v })
            &&& first.1.len() == 0
            &&& second.1.len() == 0
        }),
{
    let first = key_step(v, plain(KeyCode::Tab), fresh);
    let second = key_step(first.0, plain(KeyCode::Tab), fresh);
    assert(second.0 =~= (AppView { editor: EditorEffect::Keep, ..v }));
}

/// Key presses keep the selections inside their lists.
#[verifier::spinoff_prover]
#[verifier::rlimit(40)]
pub proof fn lemma_key_keeps_selection(v: AppView, key: KeyPress, fresh: Seq<char>)
    requires
        selections_in_bounds(v),
    ensures
        selections_in_bounds(key_step(v, key, fresh).0),
{
    let col = next_sort_column(v.sort_column);
    vstd::seq_lib::to_multiset_len(v.models);
    vstd::seq_lib::to_multiset_len(sorted_by(v.models, col));
    crate::sorting::lemma_sorted_by_permutes(v.models, col);
    let idx = v.selected_session_index;
    if idx < v.sessions.len() {
        let s = v.sessions[idx as int];
        match model_position(v.models, s.model.0@) {
            Some(p) => {
                let q = choose|p: int|
                    0 <= p < v.models.len() && v.models[p].name@ == s.model.0@ && forall|q: int|
                        0 <= q < p ==> #[trigger] v.models[q].name@ != s.model.0@;
                assert(p == q);
            },
            None => {},
        }
    }
}

/// Sending a non-blank message from the composer records it, saves it in
/// the current session (a new one when there is none) before asking for a
/// reply from the chat's model, and starts generating.
pub proof fn lemma_send_saves_then_generates(v: AppView, fresh: Seq<char>)
    requires
        !v.show_popup,
        v.current_tab == CurrentTab::Chat,
        v.chat_focus == ChatFocus::Input,
        !v.is_generating,
        trim(join_lines(v.input_lines, seq!['\n'])).len() > 0,
    ensures
        ({
            let text = join_lines(v.input_lines, seq!['\n']);
            let (w, acts) = key_step(v, plain(KeyCode::Enter), fresh);
            &&& w.is_generating
            &&& w.messages == v.messages.push(("user"@, text))
            &&& w.input_lines == empty_editor()
            &&& w.current_session_id is Some
            &&& acts.len() >= 2
            &&& acts[acts.len() - 2] == ActionView::SaveMessage(w.current_session_id->0, "user"@, text)
            &&& acts[acts.len() - 1] == ActionView::Generate(text, chat_model(v))
        }),
{
}

/// On the model list, `s` moves to the next sort column (name, size,
/// modified, and round again) and leaves the models sorted by it, the same
/// models as before.
pub proof fn lemma_sort_key_sorts(v: AppView, fresh: Seq<char>)
    requires
        !v.show_popup,
        v.current_tab == CurrentTab::Models,
    ensures
        ({
            let w = key_step(v, plain(KeyCode::Char('s')), fresh).0;
            &&& w.sort_column == next_sort_column(v.sort_column)
            &&& crate::sorting::is_sorted(w.models, w.sort_column)
            &&& w.models.to_multiset() == v.models.to_multiset()
        }),
        next_sort_column(next_sort_column(next_sort_column(v.sort_column))) == v.sort_column,
{
    let col = next_sort_column(v.sort_column);
    crate::sorting::lemma_sorted_by_is_sorted(v.models, col);
    crate::sorting::lemma_sorted_by_permutes(v.models, col);
}

/// Key presses never add or lose models (at most they reorder them) and
/// never change the session list; only the backend's answers do.
pub proof fn lemma_key_keeps_lists(v: AppView, key: KeyPress, fresh: Seq<char>)
    ensures
        key_step(v, key, fresh).0.models.to_multiset() == v.models.to_multiset(),
        key_step(v, key, fresh).0.sessions == v.sessions,
{
    crate::sorting::lemma_sorted_by_permutes(v.models, next_sort_column(v.sort_column));
}

/// Two pieces of a streamed reply leave the same conversation as the two
/// pieces joined.
pub proof fn lemma_tokens_concatenate(msgs: Seq<(Seq<char>, Seq<char>)>, a: Seq<char>, b: Seq<char>)
    ensures
        append_token(append_token(msgs, a), b) == append_token(msgs, a + b),
{
    let once = append_token(msgs, a);
    assert(once.last().0 == "assistant"@);
    if msgs.len() > 0 && msgs.last().0 == "assistant"@ {
        assert(once.drop_last() =~= msgs.drop_last());
        assert(msgs.last().1 + a + b =~= msgs.last().1 + (a + b));
    } else {
        assert(once.drop_last() =~= msgs);
    }
}

/// In a session, a reply that ends right after a piece arrived is saved as
/// the assistant's message holding all that was streamed, and generation
/// stops.
pub proof fn lemma_streamed_reply_saved(v: AppView, token: String, fresh: Seq<char>)
    requires
        v.current_session_id is Some,
    ensures
        ({
            let streamed = event_step(v, Event::TokenReceived(token), fresh).0;
            let done = event_step(streamed, Event::GenerationDone, fresh);
            &&& !done.0.is_generating
            &&& done.0.messages == append_token(v.messages, token@)
            &&& done.1 == seq![
                ActionView::SaveMessage(
                    v.current_session_id->0,
                    "assistant"@,
                    append_token(v.messages, token@).last().1,
                ),
            ]
        }),
{
    let m = append_token(v.messages, token@);
    assert(m.last().0 == "assistant"@);
}

/// The pull prompt takes every key while it is open: `Esc` closes it;
/// `Enter` with a non-blank name closes it, empties it and asks to pull the
/// name (trimmed); `Enter` on a blank name leaves it open; any other key is
/// typed into it and changes nothing else.
pub proof fn lemma_pull_prompt(v: AppView, key: KeyPress, fresh: Seq<char>)
    requires
        v.show_popup,
    ensures
        ({
            let name = trim(join_lines(v.popup_lines, Seq::empty()));
            let (w, acts) = key_step(v, key, fresh);
            &&& key.code == KeyCode::Esc ==> w == (AppView { show_popup: false, editor: EditorEffect::Keep, ..v })
                && acts.len() == 0
            &&& key.code == KeyCode::Enter && name.len() > 0 ==> w == (AppView {
                show_popup: false,
                popup_lines: empty_editor(),
                editor: EditorEffect::ResetPopup,
                ..v
            }) && acts == seq![ActionView::PullModel(name)]
            &&& key.code == KeyCode::Enter && name.len() == 0 ==> w == (AppView { editor: EditorEffect::Keep, ..v })
                && acts.len() == 0
            &&& key.code != KeyCode::Esc && key.code != KeyCode::Enter ==> w == (AppView {
                editor: EditorEffect::PopupKey,
                ..v
            }) && acts.len() == 0
        }),
{
}

/// Moving the selection on the model list (`j`/`Down` one down, `k`/`Up`
/// one up, staying put at either end) changes nothing else; when the
/// inspect pane is open and the selection moved, the only action asks for
/// the information of the model now selected.
pub proof fn lemma_model_list_moves(v: AppView, key: KeyPress, fresh: Seq<char>)
    requires
        !v.show_popup,
        v.current_tab == CurrentTab::Models,
        v.selected_model_index < v.models.len(),
        v.models.len() <= usize::MAX,
        key == plain(KeyCode::Char('j')) || key == plain(KeyCode::Char('k')) || (!(v.show_info
            && v.models_focus == ModelsFocus::Info) && (key == plain(KeyCode::Down) || key == plain(
            KeyCode::Up,
        ))),
    ensures
        ({
            let sel = v.selected_model_index;
            let down = key == plain(KeyCode::Char('j')) || key == plain(KeyCode::Down);
            let (w, acts) = key_step(v, key, fresh);
            &&& w.selected_model_index == if down {
                if sel + 1 < v.models.len() { sel + 1 } else { sel as int }
            } else {
                if sel > 0 { sel - 1 } else { sel as int }
            }
            &&& w == (AppView { selected_model_index: w.selected_model_index, editor: EditorEffect::Keep, ..v })
            &&& acts == if v.show_info && w.selected_model_index != sel {
                seq![ActionView::ShowModelInfo(w.models[w.selected_model_index as int].name@)]
            } else {
                Seq::<ActionView>::empty()
            }
        }),
{
}

/// On the model list, `i` opens the inspect pane on the selected model:
/// the pane shows, has the focus, starts at its top, and the only action
/// asks for the selected model's information; with no model selected it
/// does nothing.
pub proof fn lemma_model_list_inspect(v: AppView, fresh: Seq<char>)
    requires
        !v.show_popup,
        v.current_tab == CurrentTab::Models,
        !v.show_info,
    ensures
        ({
            let sel = v.selected_model_index;
            let (w, acts) = key_step(v, plain(KeyCode::Char('i')), fresh);
            &&& sel < v.models.len() ==> w == (AppView {
                show_info: true,
                info_scroll: 0,
                models_focus: ModelsFocus::Info,
                editor: EditorEffect::Keep,
                ..v
            }) && acts == seq![ActionView::ShowModelInfo(v.models[sel as int].name@)]
            &&& sel >= v.models.len() ==> w == (AppView { editor: EditorEffect::Keep, ..v }) && acts.len() == 0
        }),
{
}

/// On the model list, `d` asks to delete the selected model (nothing when
/// no model is selected) and changes no state; `p` opens the pull prompt.
pub proof fn lemma_model_list_delete_and_pull(v: AppView, fresh: Seq<char>)
    requires
        !v.show_popup,
        v.current_tab == CurrentTab::Models,
    ensures
        ({
            let (w, acts) = key_step(v, plain(KeyCode::Char('d')), fresh);
            &&& w == (AppView { editor: EditorEffect::Keep, ..v })
            &&& acts == if v.selected_model_index < v.models.len() {
                seq![ActionView::DeleteModel(v.models[v.selected_model_index as int].name@)]
            } else {
                Seq::<ActionView>::empty()
            }
        }),
        key_step(v, plain(KeyCode::Char('p')), fresh) == (
            AppView { show_popup: true, editor: EditorEffect::Keep, ..v },
            Seq::<ActionView>::empty(),
        ),
{
}

/// In the session list (no reply being generated), `Enter` on a listed
/// session asks to load it, makes it the current session, moves the focus
/// to the composer and selects the first model of the session's name (the
/// selection stays when no model has it); past the end of the list `Enter`
/// does nothing.
pub proof fn lemma_open_session(v: AppView, fresh: Seq<char>)
    requires
        !v.show_popup,
        v.current_tab == CurrentTab::Chat,
        v.chat_focus == ChatFocus::Sessions,
        !v.is_generating,
        v.models.len() <= usize::MAX,
    ensures
        ({
            let i = v.selected_session_index;
            let (w, acts) = key_step(v, plain(KeyCode::Enter), fresh);
            &&& i < v.sessions.len() ==> {
                let s = v.sessions[i as int];
                &&& acts == seq![ActionView::LoadSession(s.id.0@)]
                &&& w.current_session_id == Some(s.id.0@)
                &&& w.chat_focus == ChatFocus::Input
                &&& w == (AppView {
                    selected_model_index: w.selected_model_index,
                    current_session_id: Some(s.id.0@),
                    chat_focus: ChatFocus::Input,
                    editor: EditorEffect::Keep,
                    ..v
                })
                &&& if exists|p: int| 0 <= p < v.models.len() && #[trigger] v.models[p].name@ == s.model.0@ {
                    &&& w.selected_model_index < v.models.len()
                    &&& v.models[w.selected_model_index as int].name@ == s.model.0@
                    &&& forall|q: int| 0 <= q < w.selected_model_index ==> #[trigger] v.models[q].name@ != s.model.0@
                } else {
                    w.selected_model_index == v.selected_model_index
                }
            }
            &&& i >= v.sessions.len() ==> w == (AppView { editor: EditorEffect::Keep, ..v }) && acts.len() == 0
        }),
{
    let i = v.selected_session_index;
    if i < v.sessions.len() {
        let s = v.sessions[i as int];
        let name = s.model.0@;
        if exists|p: int| 0 <= p < v.models.len() && #[trigger] v.models[p].name@ == name {
            lemma_first_model_named(v.models, name);
            let q = choose|p: int|
                0 <= p < v.models.len() && v.models[p].name@ == name && forall|q: int|
                    0 <= q < p ==> #[trigger] v.models[q].name@ != name;
            assert(model_position(v.models, name) == Some(q));
        } else {
            assert(model_position(v.models, name) is None);
        }
    }
}

/// When some model has the name, `model_position` is the first such.
proof fn lemma_first_model_named(models: Seq<Model>, name: Seq<char>)
    requires
        exists|p: int| 0 <= p < models.len() && #[trigger] models[p].name@ == name,
    ensures
        model_position(models, name) is Some,
    decreases models.len(),
{
    let p0 = choose|p: int| 0 <= p < models.len() && #[trigger] models[p].name@ == name;
    if models[0].name@ == name {
        assert(0 <= 0 < models.len() && models[0].name@ == name && forall|q: int|
            0 <= q < 0 ==> #[trigger] models[q].name@ != name);
    } else {
        let rest = models.drop_first();
        assert(rest[p0 - 1].name@ == name);
        lemma_first_model_named(rest, name);
        let r = choose|p: int|
            0 <= p < rest.len() && rest[p].name@ == name && forall|q: int|
                0 <= q < p ==> #[trigger] rest[q].name@ != name;
        assert(0 <= r + 1 < models.len() && models[r + 1].name@ == name);
        assert forall|q: int| 0 <= q < r + 1 implies #[trigger] models[q].name@ != name by {
            if q > 0 {
                assert(models[q] == rest[q - 1]);
            }
        }
    }
}

/// In the composer (no reply being generated), `Enter` on blank text does
/// nothing; on other text without a current session it creates a session
/// with a new id, titled by the text's first 20 characters, for the chat's
/// model, then saves the text as the user's message and asks for a reply.
pub proof fn lemma_send_from_composer(v: AppView, fresh: Seq<char>)
    requires
        !v.show_popup,
        v.current_tab == CurrentTab::Chat,
        v.chat_focus == ChatFocus::Input,
        !v.is_generating,
    ensures
        ({
            let text = join_lines(v.input_lines, seq!['\n']);
            let model = chat_model(v);
            let (w, acts) = key_step(v, plain(KeyCode::Enter), fresh);
            &&& trim(text).len() == 0 ==> w == (AppView { editor: EditorEffect::Keep, ..v }) && acts.len() == 0
            &&& trim(text).len() > 0 && v.current_session_id is None ==> {
                &&& acts == seq![
                    ActionView::CreateSession(fresh, session_title(text), model),
                    ActionView::SaveMessage(fresh, "user"@, text),
                    ActionView::Generate(text, model),
                ]
                &&& w == (AppView {
                    messages: v.messages.push(("user"@, text)),
                    input_lines: empty_editor(),
                    editor: EditorEffect::ResetInput,
                    is_generating: true,
                    current_session_id: Some(fresh),
                    ..v
                })
            }
        }),
{
}

/// A tick never adds notifications.
pub proof fn lemma_tick_never_grows(t: Seq<(Seq<char>, usize, ToastColor)>)
    ensures
        tick_toasts(t).len() <= t.len(),
    decreases t.len(),
{
    if t.len() > 0 {
        lemma_tick_never_grows(t.drop_last());
    }
}

// ---------------------------------------------------------------------------
// Executable

/// The actions ask to create a session.
pub open spec fn creates_session(acts: Seq<ActionView>) -> bool {
    exists|j: int| 0 <= j < acts.len() && #[trigger] acts[j] is CreateSession
}

/// A lower-case hexadecimal digit.
pub open spec fn is_lower_hex(c: char) -> bool {
    ('0' <= c <= '9') || ('a' <= c <= 'f')
}

/// The hyphenated lower-case text of a version-4 UUID: 36 characters, `-`
/// at positions 8, 13, 18 and 23, hexadecimal digits elsewhere, and the
/// version digit `4` at position 14.
pub open spec fn is_v4_uuid_text(s: Seq<char>) -> bool {
    &&& s.len() == 36
    &&& forall|k: int|
        0 <= k < 36 ==> if k == 8 || k == 13 || k == 18 || k == 23 {
            s[k] == '-'
        } else {
            is_lower_hex(#[trigger] s[k])
        }
    &&& s[14] == '4'
}

/// A new random session id: `uuid::Uuid::new_v4` written with `to_string`.
/// Which id comes back is random; the contract states only its shape, which
/// the uuid source fixes: `Display` writes the hyphenated lower-case hex
/// form, and `new_v4` sets the version digit to 4.
#[verifier::external_body]
fn new_session_id() -> (r: String)
    ensures
        is_v4_uuid_text(r@),
{
    uuid::Uuid::new_v4().to_string()
}

pub(crate) fn join_editor_lines(lines: &Vec<String>, sep: &[char]) -> (r: Vec<char>)
    ensures
        r@ == join_lines(strings_view(lines@), sep@),
{
    let ghost all = strings_view(lines@);
    let mut out: Vec<char> = Vec::new();
    if lines.len() == 0 {
        return out;
    }
    out = chars_of(lines[0].as_str());
    let mut i: usize = 1;
    assert(all.take(1) =~= seq![all[0]]);
    while i < lines.len()
        invariant
            1 <= i <= lines@.len(),
            all == strings_view(lines@),
            out@ == join_lines(all.take(i as int), sep@),
        decreases lines@.len() - i,
    {
        extend_chars(&mut out, sep);
        extend_str(&mut out, lines[i].as_str());
        assert(all.take(i + 1).drop_last() =~= all.take(i as int));
        i += 1;
    }
    assert(all.take(lines@.len() as int) =~= all);
    out
}

fn empty_lines() -> (r: Vec<String>)
    ensures
        strings_view(r@) == empty_editor(),
{
    let mut r: Vec<String> = Vec::new();
    r.push(String::new());
    assert(strings_view(r@) =~= empty_editor());
    r
}

fn find_model(models: &Vec<Model>, name: &String) -> (r: Option<usize>)
    ensures
        r matches Some(p) ==> model_position(models@, name@) == Some(p as int) && p < models@.len(),
        r is None ==> model_position(models@, name@) is None,
{
    let mut p: usize = 0;
    while p < models.len()
        invariant
            p <= models@.len(),
            forall|q: int| 0 <= q < p ==> #[trigger] models@[q].name@ != name@,
        decreases models@.len() - p,
    {
        if str_equal(models[p].name.as_str(), name.as_str()) {
            proof {
                let k = choose|k: int|
                    0 <= k < models@.len() && models@[k].name@ == name@ && forall|q: int|
                        0 <= q < k ==> #[trigger] models@[q].name@ != name@;
                if k < p {
                    assert(models@[k].name@ != name@);
                }
                if p < k {
                    assert(models@[p as int].name@ != name@);
                }
            }
            return Some(p);
        }
        p += 1;
    }
    None
}

fn one_action(a: Action) -> (r: Vec<Action>)
    ensures
        actions_view(r@) == seq![a@],
{
    let mut r: Vec<Action> = Vec::new();
    r.push(a);
    assert(actions_view(r@) =~= seq![a@]);
    r
}

fn no_actions() -> (r: Vec<Action>)
    ensures
        actions_view(r@) == Seq::<ActionView>::empty(),
{
    let r: Vec<Action> = Vec::new();
    assert(actions_view(r@) =~= Seq::<ActionView>::empty());
    r
}

impl App {
    /// A fresh state: the models tab, nothing loaded, empty editors.
    pub fn new(config: Config) -> (r: Self)
        ensures
            r@ == (AppView {
                config: config,
                current_tab: CurrentTab::Models,
                chat_focus: ChatFocus::Input,
                models_focus: ModelsFocus::List,
                should_quit: false,
                models: Seq::empty(),
                selected_model_index: 0,
                sort_column: SortColumn::Name,
                show_info: false,
                model_info: None,
                info_scroll: 0,
                input_lines: empty_editor(),
                messages: Seq::empty(),
                is_generating: false,
                toasts: Seq::empty(),
                sessions: Seq::empty(),
                selected_session_index: 0,
                current_session_id: None,
                chat_scroll: 0,
                show_popup: false,
                popup_lines: empty_editor(),
                editor: EditorEffect::Keep,
            }),
    {
        let r = App {
            _config: config,
            current_tab: CurrentTab::Models,
            chat_focus: ChatFocus::Input,
            models_focus: ModelsFocus::List,
            should_quit: false,
            models: Vec::new(),
            selected_model_index: 0,
            sort_column: SortColumn::Name,
            show_info: false,
            model_info: None,
            info_scroll: 0,
            input_lines: empty_lines(),
            messages: Vec::new(),
            is_generating: false,
            toasts: Vec::new(),
            sessions: Vec::new(),
            selected_session_index: 0,
            current_session_id: None,
            chat_scroll: 0,
            show_popup: false,
            popup_lines: empty_lines(),
            editor: EditorEffect::Keep,
        };
        assert(r@.messages =~= Seq::<(Seq<char>, Seq<char>)>::empty());
        assert(r@.toasts =~= Seq::<(Seq<char>, usize, ToastColor)>::empty());
        assert(r@ =~= (AppView {
            config: config,
            current_tab: CurrentTab::Models,
            chat_focus: ChatFocus::Input,
            models_focus: ModelsFocus::List,
            should_quit: false,
            models: Seq::empty(),
            selected_model_index: 0,
            sort_column: SortColumn::Name,
            show_info: false,
            model_info: None,
            info_scroll: 0,
            input_lines: empty_editor(),
            messages: Seq::empty(),
            is_generating: false,
            toasts: Seq::empty(),
            sessions: Seq::empty(),
            selected_session_index: 0,
            current_session_id: None,
            chat_scroll: 0,
            show_popup: false,
            popup_lines: empty_editor(),
            editor: EditorEffect::Keep,
        }));
        r
    }

    /// Sorts the model list by the current sort column (stably).
    pub fn sort_models(&mut self)
        ensures
            final(self)@ == (AppView { models: sorted_by(old(self)@.models, old(self).sort_column), ..old(self)@ }),
    {
        let mut tmp: Vec<Model> = Vec::new();
        std::mem::swap(&mut tmp, &mut self.models);
        self.models = sort_models_by(tmp, self.sort_column);
        assert(self@ =~= (AppView { models: sorted_by(old(self)@.models, old(self).sort_column), ..old(self)@ }));
    }

    /// One tick: every notification loses a tick; expired ones are dropped.
    pub fn on_tick(&mut self)
        ensures
            final(self)@ == (AppView { toasts: tick_toasts(old(self)@.toasts), ..old(self)@ }),
    {
        let mut old_toasts: Vec<Toast> = Vec::new();
        std::mem::swap(&mut old_toasts, &mut self.toasts);
        let ghost all = toasts_view(old_toasts@);
        let mut kept: Vec<Toast> = Vec::new();
        let mut i: usize = 0;
        while i < old_toasts.len()
            invariant
                i <= old_toasts@.len(),
                all == toasts_view(old_toasts@),
                toasts_view(kept@) == tick_toasts(all.take(i as int)),
            decreases old_toasts@.len() - i,
        {
            let t = &old_toasts[i];
            assert(all.take(i + 1).drop_last() =~= all.take(i as int));
            if t.duration > 0 {
                let nt = Toast { message: copy_string(&t.message), duration: t.duration - 1, color: t.color };
                let ghost before = kept@;
                kept.push(nt);
                assert(toasts_view(kept@) =~= toasts_view(before).push((t.message@, (t.duration - 1) as usize, t.color)));
            }
            i += 1;
        }
        assert(all.take(old_toasts@.len() as int) =~= all);
        self.toasts = kept;
        assert(self@ =~= (AppView { toasts: tick_toasts(old(self)@.toasts), ..old(self)@ }));
    }

    /// Shows an error notification.
    pub fn show_error(&mut self, msg: &str)
        ensures
            final(self)@ == (AppView {
                toasts: old(self)@.toasts.push((msg@, TOAST_TICKS, ToastColor::Red)),
                ..old(self)@
            }),
    {
        let ghost before = self.toasts@;
        self.toasts.push(Toast { message: String::from_str(msg), duration: TOAST_TICKS, color: ToastColor::Red });
        assert(toasts_view(self.toasts@) =~= toasts_view(before).push((msg@, TOAST_TICKS, ToastColor::Red)));
        assert(self@ =~= (AppView {
            toasts: old(self)@.toasts.push((msg@, TOAST_TICKS, ToastColor::Red)),
            ..old(self)@
        }));
    }

    fn on_key_popup(&mut self, key: KeyPress) -> (r: Vec<Action>)
        ensures
            (final(self)@, actions_view(r@)) == popup_step(old(self)@, key),
    {
        if key.code == KeyCode::Esc {
            self.show_popup = false;
            assert(self@ =~= popup_step(old(self)@, key).0);
            return no_actions();
        }
        if key.code == KeyCode::Enter {
            let sep: Vec<char> = Vec::new();
            let joined = join_editor_lines(&self.popup_lines, sep.as_slice());
            assert(sep@ =~= Seq::<char>::empty());
            let name = trimmed(joined.as_slice());
            if name.len() > 0 {
                self.show_popup = false;
                self.popup_lines = empty_lines();
                self.editor = EditorEffect::ResetPopup;
                assert(self@ =~= popup_step(old(self)@, key).0);
                return one_action(Action::PullModel(ModelName(string_of(name.as_slice()))));
            }
            return no_actions();
        }
        self.editor = EditorEffect::PopupKey;
        assert(self@ =~= popup_step(old(self)@, key).0);
        no_actions()
    }

    fn clear_chat(&mut self)
        ensures
            final(self)@ == cleared_chat(old(self)@),
    {
        self.messages.clear();
        self.current_session_id = None;
        self.chat_scroll = 0;
        assert(self@ =~= cleared_chat(old(self)@));
    }

    fn on_key_sessions(&mut self, key: KeyPress) -> (r: Vec<Action>)
        ensures
            (final(self)@, actions_view(r@)) == sessions_step(old(self)@, key),
    {
        let idx = self.selected_session_index;
        let n = self.sessions.len();
        if key.code == KeyCode::Char('j') || key.code == KeyCode::Down {
            if n > 0 && idx < n - 1 {
                self.selected_session_index = idx + 1;
            }
            assert(self@ =~= sessions_step(old(self)@, key).0);
            return no_actions();
        }
        if key.code == KeyCode::Char('k') || key.code == KeyCode::Up {
            if idx > 0 {
                self.selected_session_index = idx - 1;
            }
            assert(self@ =~= sessions_step(old(self)@, key).0);
            return no_actions();
        }
        if key.code == KeyCode::Enter {
            if idx < n {
                let id = copy_string(&self.sessions[idx].id.0);
                let model_name = copy_string(&self.sessions[idx].model.0);
                match find_model(&self.models, &model_name) {
                    Some(p) => {
                        self.selected_model_index = p;
                    },
                    None => {},
                }
                self.current_session_id = Some(copy_string(&id));
                self.chat_focus = ChatFocus::Input;
                assert(self@ =~= sessions_step(old(self)@, key).0);
                return one_action(Action::LoadSession(SessionId(id)));
            }
            return no_actions();
        }
        if key.code == KeyCode::Char('n') && key.ctrl {
            self.clear_chat();
            self.chat_focus = ChatFocus::Input;
            assert(self@ =~= sessions_step(old(self)@, key).0);
            return no_actions();
        }
        if key.code == KeyCode::Char('d') {
            if idx < n {
                let id = copy_string(&self.sessions[idx].id.0);
                let is_current = match &self.current_session_id {
                    Some(current) => str_equal(current.as_str(), id.as_str()),
                    None => false,
                };
                if is_current {
                    self.messages.clear();
                    self.current_session_id = None;
                }
                assert(self@ =~= sessions_step(old(self)@, key).0);
                return one_action(Action::DeleteSession(SessionId(id)));
            }
            return no_actions();
        }
        no_actions()
    }

    fn on_key_input(&mut self, key: KeyPress) -> (r: Vec<Action>)
        ensures
            (final(self)@, actions_view(r@)) == input_step(old(self)@, key, session_of(final(self)@)),
            creates_session(actions_view(r@)) ==> is_v4_uuid_text(session_of(final(self)@)),
    {
        if key.code == KeyCode::Char('n') && key.ctrl {
            self.clear_chat();
            return no_actions();
        }
        if key.code == KeyCode::Enter {
            let nl = vec!['\n'];
            let text = join_editor_lines(&self.input_lines, nl.as_slice());
            assert(nl@ =~= seq!['\n']);
            let t = trimmed(text.as_slice());
            if t.len() == 0 {
                return no_actions();
            }
            let prompt = string_of(text.as_slice());
            let model_name: String = if self.selected_model_index < self.models.len() {
                copy_string(&self.models[self.selected_model_index].name)
            } else {
                String::from_str("llama2:latest")
            };
            let ghost v = old(self)@;
            let ghost msgs = self.messages@;
            self.messages.push(Message { role: String::from_str("user"), content: copy_string(&prompt) });
            assert(messages_view(self.messages@) =~= messages_view(msgs).push(("user"@, text@)));
            self.input_lines = empty_lines();
            self.editor = EditorEffect::ResetInput;
            self.is_generating = true;
            let mut actions: Vec<Action> = Vec::new();
            let session_id: String = match &self.current_session_id {
                Some(id) => copy_string(id),
                None => {
                    let new_id = new_session_id();
                    let cut = if text.len() <= 20 {
                        text.len()
                    } else {
                        20
                    };
                    let head = slice_chars(text.as_slice(), 0, cut);
                    assert(head@ =~= session_title(text@));
                    self.current_session_id = Some(copy_string(&new_id));
                    actions.push(
                        Action::CreateSession(
                            SessionId(copy_string(&new_id)),
                            string_of(head.as_slice()),
                            ModelName(copy_string(&model_name)),
                        ),
                    );
                    new_id
                },
            };
            actions.push(Action::SaveMessage(SessionId(session_id), String::from_str("user"), copy_string(&prompt)));
            actions.push(Action::Generate(prompt, ModelName(model_name)));
            proof {
                let r = input_step(v, key, session_of(self@));
                assert(self@ =~= r.0);
                assert(actions_view(actions@) =~= r.1);
            }
            return actions;
        }
        self.editor = EditorEffect::InputKey;
        assert(self@ =~= input_step(old(self)@, key, session_of(self@)).0);
        no_actions()
    }

    fn on_key_chat(&mut self, key: KeyPress) -> (r: Vec<Action>)
        ensures
            (final(self)@, actions_view(r@)) == chat_step(old(self)@, key, session_of(final(self)@)),
            creates_session(actions_view(r@)) ==> is_v4_uuid_text(session_of(final(self)@)),
    {
        if key.code == KeyCode::PageUp {
            self.chat_scroll = self.chat_scroll.saturating_sub(15);
            assert(self@ =~= chat_step(old(self)@, key, session_of(self@)).0);
            return no_actions();
        }
        if key.code == KeyCode::PageDown {
            self.chat_scroll = self.chat_scroll.saturating_add(15);
            assert(self@ =~= chat_step(old(self)@, key, session_of(self@)).0);
            return no_actions();
        }
        if key.code == KeyCode::Up && self.chat_focus != ChatFocus::Sessions {
            self.chat_scroll = self.chat_scroll.saturating_sub(3);
            assert(self@ =~= chat_step(old(self)@, key, session_of(self@)).0);
            return no_actions();
        }
        if key.code == KeyCode::Down && self.chat_focus != ChatFocus::Sessions {
            self.chat_scroll = self.chat_scroll.saturating_add(3);
            assert(self@ =~= chat_step(old(self)@, key, session_of(self@)).0);
            return no_actions();
        }
        if key.code == KeyCode::Left && key.ctrl {
            self.chat_focus = ChatFocus::Sessions;
            assert(self@ =~= chat_step(old(self)@, key, session_of(self@)).0);
            return no_actions();
        }
        if key.code == KeyCode::Right && key.ctrl {
            self.chat_focus = ChatFocus::Input;
            assert(self@ =~= chat_step(old(self)@, key, session_of(self@)).0);
            return no_actions();
        }
        if self.is_generating {
            return no_actions();
        }
        match self.chat_focus {
            ChatFocus::Sessions => self.on_key_sessions(key),
            ChatFocus::Input => self.on_key_input(key),
        }
    }

    fn on_key_model_list(&mut self, key: KeyPress) -> (r: Vec<Action>)
        ensures
            (final(self)@, actions_view(r@)) == model_list_step(old(self)@, key),
    {
        let sel = self.selected_model_index;
        let n = self.models.len();
        if key.code == KeyCode::Char('j') || key.code == KeyCode::Down {
            if n > 0 && sel < n - 1 {
                self.selected_model_index = sel + 1;
                assert(self@ =~= model_list_step(old(self)@, key).0);
                if self.show_info {
                    return one_action(Action::ShowModelInfo(ModelName(copy_string(&self.models[sel + 1].name))));
                }
                return no_actions();
            }
            return no_actions();
        }
        if key.code == KeyCode::Char('k') || key.code == KeyCode::Up {
            if sel > 0 {
                self.selected_model_index = sel - 1;
                assert(self@ =~= model_list_step(old(self)@, key).0);
                if self.show_info && sel - 1 < n {
                    return one_action(Action::ShowModelInfo(ModelName(copy_string(&self.models[sel - 1].name))));
                }
                return no_actions();
            }
            return no_actions();
        }
        if key.code == KeyCode::Char('d') {
            if sel < n {
                return one_action(Action::DeleteModel(ModelName(copy_string(&self.models[sel].name))));
            }
            return no_actions();
        }
        if key.code == KeyCode::Char('p') {
            self.show_popup = true;
            assert(self@ =~= model_list_step(old(self)@, key).0);
            return no_actions();
        }
        if key.code == KeyCode::Char('i') {
            if sel < n {
                let name = copy_string(&self.models[sel].name);
                self.show_info = true;
                self.info_scroll = 0;
                self.models_focus = ModelsFocus::Info;
                assert(self@ =~= model_list_step(old(self)@, key).0);
                return one_action(Action::ShowModelInfo(ModelName(name)));
            }
            return no_actions();
        }
        if key.code == KeyCode::Char('s') {
            self.sort_column = match self.sort_column {
                SortColumn::Name => SortColumn::Size,
                SortColumn::Size => SortColumn::Modified,
                SortColumn::Modified => SortColumn::Name,
            };
            self.sort_models();
            assert(self@ =~= model_list_step(old(self)@, key).0);
            return no_actions();
        }
        if key.code == KeyCode::Enter {
            self.current_tab = CurrentTab::Chat;
            self.clear_chat();
            self.models_focus = ModelsFocus::List;
            assert(self@ =~= model_list_step(old(self)@, key).0);
            return no_actions();
        }
        no_actions()
    }

    fn on_key_models(&mut self, key: KeyPress) -> (r: Vec<Action>)
        ensures
            (final(self)@, actions_view(r@)) == models_step(old(self)@, key),
    {
        if self.show_info {
            if key.code == KeyCode::Char('i') || key.code == KeyCode::Esc {
                self.show_info = false;
                self.models_focus = ModelsFocus::List;
                assert(self@ =~= models_step(old(self)@, key).0);
                return no_actions();
            }
            if key.code == KeyCode::PageUp {
                self.info_scroll = self.info_scroll.saturating_sub(15);
                assert(self@ =~= models_step(old(self)@, key).0);
                return no_actions();
            }
            if key.code == KeyCode::PageDown {
                self.info_scroll = self.info_scroll.saturating_add(15);
                assert(self@ =~= models_step(old(self)@, key).0);
                return no_actions();
            }
            if key.code == KeyCode::Up && self.models_focus == ModelsFocus::Info {
                self.info_scroll = self.info_scroll.saturating_sub(3);
                assert(self@ =~= models_step(old(self)@, key).0);
                return no_actions();
            }
            if key.code == KeyCode::Down && self.models_focus == ModelsFocus::Info {
                self.info_scroll = self.info_scroll.saturating_add(3);
                assert(self@ =~= models_step(old(self)@, key).0);
                return no_actions();
            }
        }
        self.on_key_model_list(key)
    }

    /// Answers a key press: updates the state and returns the work for the
    /// backend (see `key_step`; a new session gets a random version-4 UUID
    /// as its id, the one now current). `editor` tells the caller what to do
    /// with its text editors. The laws `lemma_pull_prompt`,
    /// `lemma_model_list_delete_and_pull`, `lemma_open_session` and
    /// `lemma_send_from_composer` spell out what `key_step`, and so this
    /// method, does in the prompt, the model list, the session list and the
    /// composer.
    pub fn on_key(&mut self, key: KeyPress) -> (r: Vec<Action>)
        ensures
            (final(self)@, actions_view(r@)) == key_step(old(self)@, key, session_of(final(self)@)),
            creates_session(actions_view(r@)) ==> is_v4_uuid_text(session_of(final(self)@)),
    {
        self.editor = EditorEffect::Keep;
        if self.show_popup {
            return self.on_key_popup(key);
        }
        if key.code == KeyCode::Char('q') && key.ctrl {
            self.should_quit = true;
            return one_action(Action::Quit);
        }
        if key.code == KeyCode::Char('q') {
            match self.current_tab {
                CurrentTab::Models => {
                    if self.show_info {
                        return self.on_key_models(key);
                    } else {
                        self.should_quit = true;
                        return one_action(Action::Quit);
                    }
                },
                CurrentTab::Chat => {
                    return self.on_key_chat(key);
                },
            }
        }
        if key.code == KeyCode::Char('a') && key.ctrl {
            self.current_tab = CurrentTab::Models;
            return no_actions();
        }
        if key.code == KeyCode::Char('d') && key.ctrl {
            self.current_tab = CurrentTab::Chat;
            return no_actions();
        }
        if key.code == KeyCode::Tab {
            match self.current_tab {
                CurrentTab::Models => {
                    if self.show_info {
                        self.models_focus = match self.models_focus {
                            ModelsFocus::List => ModelsFocus::Info,
                            ModelsFocus::Info => ModelsFocus::List,
                        };
                    }
                },
                CurrentTab::Chat => {
                    self.chat_focus = match self.chat_focus {
                        ChatFocus::Input => ChatFocus::Sessions,
                        ChatFocus::Sessions => ChatFocus::Input,
                    };
                },
            }
            return no_actions();
        }
        match self.current_tab {
            CurrentTab::Models => self.on_key_models(key),
            CurrentTab::Chat => self.on_key_chat(key),
        }
    }
    /// Appends a piece of a streamed reply (see `append_token`).
    fn receive_token(&mut self, token: String)
        ensures
            final(self)@ == (AppView { messages: append_token(old(self)@.messages, token@), ..old(self)@ }),
    {
        let ghost msgs = self.messages@;
        let n = self.messages.len();
        if n > 0 && str_equal(self.messages[n - 1].role.as_str(), "assistant") {
            proof {
                reveal_strlit("assistant");
            }
            let mut last = self.messages.pop().unwrap();
            assert(msgs.drop_last() =~= self.messages@);
            last.content.append(token.as_str());
            self.messages.push(last);
            assert(messages_view(self.messages@) =~= messages_view(msgs).drop_last().push(
                (messages_view(msgs).last().0, messages_view(msgs).last().1 + token@),
            ));
        } else {
            self.messages.push(Message { role: String::from_str("assistant"), content: token });
            assert(messages_view(self.messages@) =~= messages_view(msgs).push(("assistant"@, token@)));
        }
        assert(self@ =~= (AppView { messages: append_token(old(self)@.messages, token@), ..old(self)@ }));
    }

    /// Ends a streamed reply (see `finished_reply`).
    fn finish_reply(&mut self) -> (r: Vec<Action>)
        ensures
            final(self)@ == (AppView { is_generating: false, ..old(self)@ }),
            actions_view(r@) == finished_reply(old(self)@),
    {
        self.is_generating = false;
        let n = self.messages.len();
        match &self.current_session_id {
            Some(id) => {
                if n > 0 && str_equal(self.messages[n - 1].role.as_str(), "assistant") {
                    let content = copy_string(&self.messages[n - 1].content);
                    let r = one_action(
                        Action::SaveMessage(SessionId(copy_string(id)), String::from_str("assistant"), content),
                    );
                    return r;
                }
                no_actions()
            },
            None => no_actions(),
        }
    }

    /// Answers an event: updates the state and returns the work for the
    /// backend (see `event_step`).
    pub fn on_event(&mut self, event: Event) -> (r: Vec<Action>)
        ensures
            (final(self)@, actions_view(r@)) == event_step(old(self)@, event, session_of(final(self)@)),
            creates_session(actions_view(r@)) ==> is_v4_uuid_text(session_of(final(self)@)),
    {
        match event {
            Event::Input(key) => self.on_key(key),
            Event::Tick => {
                self.on_tick();
                no_actions()
            },
            Event::ModelsFetched(ms) => {
                self.models = ms;
                self.sort_column = SortColumn::Name;
                self.sort_models();
                no_actions()
            },
            Event::SessionsFetched(ss) => {
                self.sessions = ss;
                assert(self@ =~= event_step(old(self)@, event, session_of(self@)).0);
                no_actions()
            },
            Event::MessagesLoaded(ms) => {
                self.messages = ms;
                assert(self@ =~= event_step(old(self)@, event, session_of(self@)).0);
                no_actions()
            },
            Event::ModelInfoFetched(info) => {
                self.model_info = Some(info);
                if self.show_info {
                    self.models_focus = ModelsFocus::Info;
                }
                assert(self@ =~= event_step(old(self)@, event, session_of(self@)).0);
                no_actions()
            },
            Event::TokenReceived(t) => {
                self.receive_token(t);
                no_actions()
            },
            Event::GenerationDone => self.finish_reply(),
            Event::Error(m) => {
                self.show_error(m.as_str());
                no_actions()
            },
        }
    }
}

} // verus!
