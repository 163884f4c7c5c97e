use vicuna::app::{
    Action, App, ChatFocus, CurrentTab, EditorEffect, KeyCode, KeyPress, ModelsFocus, ToastColor,
    TOAST_TICKS,
};
use vicuna::config::Config;
use vicuna::events::Event;
use vicuna::sorting::SortColumn;
use vicuna::types::{Message, Model, ModelName, Session, SessionId, ShowModelResponse};

fn mock_key(code: KeyCode) -> KeyPress {
    KeyPress { code, ctrl: false }
}

fn mock_key_ctrl(code: KeyCode) -> KeyPress {
    KeyPress { code, ctrl: true }
}

fn test_config() -> Config {
    Config {
        _config_dir: "/tmp".into(),
        _data_dir: "/tmp".into(),
        log_dir: "/tmp".into(),
        db_path: "/tmp/test.db".into(),
        ollama_url: "http://localhost:11434".into(),
    }
}

fn model(name: &str) -> Model {
    Model {
        name: name.into(),
        modified_at: "".into(),
        size: 0,
        digest: "".into(),
        details: None,
    }
}

fn session(id: &str, title: &str, model: &str) -> Session {
    Session {
        id: SessionId(id.into()),
        title: title.into(),
        model: ModelName(model.into()),
        created_at: "".into(),
    }
}

#[test]
fn test_app_tab_switching() {
    let config = test_config();
    let mut app = App::new(config);
    assert_eq!(app.current_tab, CurrentTab::Models);

    app.on_key(mock_key_ctrl(KeyCode::Char('d')));
    assert_eq!(app.current_tab, CurrentTab::Chat);

    app.on_key(mock_key_ctrl(KeyCode::Char('a')));
    assert_eq!(app.current_tab, CurrentTab::Models);
}

#[test]
fn test_app_pane_switching() {
    let config = test_config();
    let mut app = App::new(config);

    app.current_tab = CurrentTab::Models;
    app.show_info = false;
    app.on_key(mock_key(KeyCode::Tab));
    assert_eq!(app.models_focus, ModelsFocus::List);

    app.show_info = true;
    app.models_focus = ModelsFocus::List;
    app.on_key(mock_key(KeyCode::Tab));
    assert_eq!(app.models_focus, ModelsFocus::Info);
    app.on_key(mock_key(KeyCode::Tab));
    assert_eq!(app.models_focus, ModelsFocus::List);

    app.show_info = true;
    app.models_focus = ModelsFocus::Info;
    app.on_key(mock_key(KeyCode::Enter));
    assert_eq!(app.current_tab, CurrentTab::Chat);
    assert_eq!(app.models_focus, ModelsFocus::List);

    app.current_tab = CurrentTab::Chat;
    app.chat_focus = ChatFocus::Input;
    app.on_key(mock_key(KeyCode::Tab));
    assert_eq!(app.chat_focus, ChatFocus::Sessions);
    app.on_key(mock_key(KeyCode::Tab));
    assert_eq!(app.chat_focus, ChatFocus::Input);
}

#[test]
fn test_chat_focus_switching() {
    let config = test_config();
    let mut app = App::new(config);
    app.current_tab = CurrentTab::Chat;
    assert_eq!(app.chat_focus, ChatFocus::Input);

    app.on_key(mock_key_ctrl(KeyCode::Left));
    assert_eq!(app.chat_focus, ChatFocus::Sessions);

    app.on_key(mock_key_ctrl(KeyCode::Right));
    assert_eq!(app.chat_focus, ChatFocus::Input);
}

#[test]
fn test_quit_handling() {
    let config = test_config();
    let mut app = App::new(config);
    assert!(!app.should_quit);

    app.on_key(mock_key_ctrl(KeyCode::Char('q')));
    assert!(app.should_quit);
}

#[test]
fn test_sanitized_name_sorting() {
    let config = test_config();
    let mut app = App::new(config);

    app.models = vec![model("z-org/alpha:latest"), model("a-org/zebra:latest")];

    app.sort_column = SortColumn::Name;
    app.sort_models();

    assert_eq!(app.models[0].name, "z-org/alpha:latest");
    assert_eq!(app.models[1].name, "a-org/zebra:latest");
}

#[test]
fn quit_key_returns_quit_action() {
    let mut app = App::new(test_config());
    let actions = app.on_key(mock_key_ctrl(KeyCode::Char('q')));
    assert_eq!(actions, vec![Action::Quit]);
    let mut app = App::new(test_config());
    let actions = app.on_key(mock_key(KeyCode::Char('q')));
    assert_eq!(actions, vec![Action::Quit]);
}

#[test]
fn tab_twice_restores_focus() {
    let mut app = App::new(test_config());
    app.current_tab = CurrentTab::Chat;
    app.chat_focus = ChatFocus::Sessions;
    assert!(app.on_key(mock_key(KeyCode::Tab)).is_empty());
    assert!(app.on_key(mock_key(KeyCode::Tab)).is_empty());
    assert_eq!(app.chat_focus, ChatFocus::Sessions);
    assert_eq!(app.current_tab, CurrentTab::Chat);
}

#[test]
fn model_list_navigation_stays_in_bounds() {
    let mut app = App::new(test_config());
    app.models = vec![model("a"), model("b")];
    app.on_key(mock_key(KeyCode::Char('j')));
    assert_eq!(app.selected_model_index, 1);
    app.on_key(mock_key(KeyCode::Down));
    assert_eq!(app.selected_model_index, 1);
    app.on_key(mock_key(KeyCode::Char('k')));
    assert_eq!(app.selected_model_index, 0);
    app.on_key(mock_key(KeyCode::Up));
    assert_eq!(app.selected_model_index, 0);
}

#[test]
fn model_list_keys_ask_for_work() {
    let mut app = App::new(test_config());
    app.models = vec![model("a:1"), model("b:2")];
    assert_eq!(
        app.on_key(mock_key(KeyCode::Char('d'))),
        vec![Action::DeleteModel(ModelName("a:1".into()))]
    );
    assert_eq!(
        app.on_key(mock_key(KeyCode::Char('i'))),
        vec![Action::ShowModelInfo(ModelName("a:1".into()))]
    );
    assert!(app.show_info);
    assert_eq!(app.models_focus, ModelsFocus::Info);
    assert_eq!(
        app.on_key(mock_key(KeyCode::Char('j'))),
        vec![Action::ShowModelInfo(ModelName("b:2".into()))]
    );
    assert!(app.on_key(mock_key(KeyCode::Esc)).is_empty());
    assert!(!app.show_info);
    assert!(app.on_key(mock_key(KeyCode::Char('p'))).is_empty());
    assert!(app.show_popup);
}

#[test]
fn sort_key_cycles_columns() {
    let mut app = App::new(test_config());
    let mut big = model("big");
    big.size = 10;
    let mut small = model("small");
    small.size = 1;
    app.models = vec![big, small];
    app.on_key(mock_key(KeyCode::Char('s')));
    assert_eq!(app.sort_column, SortColumn::Size);
    assert_eq!(app.models[0].name, "small");
    app.on_key(mock_key(KeyCode::Char('s')));
    assert_eq!(app.sort_column, SortColumn::Modified);
    app.on_key(mock_key(KeyCode::Char('s')));
    assert_eq!(app.sort_column, SortColumn::Name);
    assert_eq!(app.models[0].name, "big");
}

#[test]
fn enter_sends_message_in_new_session() {
    let mut app = App::new(test_config());
    app.current_tab = CurrentTab::Chat;
    app.input_lines = vec!["hello".into(), "world".into()];
    let actions = app.on_key(mock_key(KeyCode::Enter));
    let id = app.current_session_id.clone().expect("a session is started");
    assert_eq!(
        actions,
        vec![
            Action::CreateSession(
                SessionId(id.clone()),
                "hello\nworld".into(),
                ModelName("llama2:latest".into())
            ),
            Action::SaveMessage(SessionId(id.clone()), "user".into(), "hello\nworld".into()),
            Action::Generate("hello\nworld".into(), ModelName("llama2:latest".into())),
        ]
    );
    assert!(app.is_generating);
    assert_eq!(app.editor, EditorEffect::ResetInput);
    assert_eq!(app.input_lines, vec![String::new()]);
    assert_eq!(
        app.messages,
        vec![Message { role: "user".into(), content: "hello\nworld".into() }]
    );
}

#[test]
fn enter_in_existing_session_uses_selected_model() {
    let mut app = App::new(test_config());
    app.current_tab = CurrentTab::Chat;
    app.models = vec![model("mistral:7b")];
    app.current_session_id = Some("s1".into());
    app.input_lines = vec!["a prompt that is longer than twenty characters".into()];
    let actions = app.on_key(mock_key(KeyCode::Enter));
    assert_eq!(
        actions,
        vec![
            Action::SaveMessage(
                SessionId("s1".into()),
                "user".into(),
                "a prompt that is longer than twenty characters".into()
            ),
            Action::Generate(
                "a prompt that is longer than twenty characters".into(),
                ModelName("mistral:7b".into())
            ),
        ]
    );
}

#[test]
fn new_session_title_is_cut_to_twenty_chars() {
    let mut app = App::new(test_config());
    app.current_tab = CurrentTab::Chat;
    app.input_lines = vec!["abcdefghijklmnopqrstuvwxyz".into()];
    let actions = app.on_key(mock_key(KeyCode::Enter));
    match &actions[0] {
        Action::CreateSession(_, title, _) => assert_eq!(title, "abcdefghijklmnopqrst"),
        other => panic!("unexpected {other:?}"),
    }
}

#[test]
fn blank_message_is_not_sent() {
    let mut app = App::new(test_config());
    app.current_tab = CurrentTab::Chat;
    app.input_lines = vec!["   ".into(), "\t".into()];
    assert!(app.on_key(mock_key(KeyCode::Enter)).is_empty());
    assert!(!app.is_generating);
    assert!(app.messages.is_empty());
}

#[test]
fn typing_goes_to_the_composer() {
    let mut app = App::new(test_config());
    app.current_tab = CurrentTab::Chat;
    assert!(app.on_key(mock_key(KeyCode::Char('x'))).is_empty());
    assert_eq!(app.editor, EditorEffect::InputKey);
    app.on_key(mock_key_ctrl(KeyCode::Char('a')));
    assert_eq!(app.editor, EditorEffect::Keep);
}

#[test]
fn keys_are_ignored_while_generating() {
    let mut app = App::new(test_config());
    app.current_tab = CurrentTab::Chat;
    app.is_generating = true;
    app.input_lines = vec!["hi".into()];
    assert!(app.on_key(mock_key(KeyCode::Enter)).is_empty());
    app.on_key(mock_key(KeyCode::PageDown));
    assert_eq!(app.chat_scroll, 15);
    app.on_key(mock_key(KeyCode::PageUp));
    app.on_key(mock_key(KeyCode::PageUp));
    assert_eq!(app.chat_scroll, 0);
}

#[test]
fn popup_enter_pulls_trimmed_name() {
    let mut app = App::new(test_config());
    app.show_popup = true;
    app.popup_lines = vec!["  llama3 ".into()];
    let actions = app.on_key(mock_key(KeyCode::Enter));
    assert_eq!(actions, vec![Action::PullModel(ModelName("llama3".into()))]);
    assert!(!app.show_popup);
    assert_eq!(app.editor, EditorEffect::ResetPopup);
    assert_eq!(app.popup_lines, vec![String::new()]);
}

#[test]
fn popup_blank_enter_and_escape() {
    let mut app = App::new(test_config());
    app.show_popup = true;
    app.popup_lines = vec!["  ".into()];
    assert!(app.on_key(mock_key(KeyCode::Enter)).is_empty());
    assert!(app.show_popup);
    assert!(app.on_key(mock_key_ctrl(KeyCode::Char('q'))).is_empty());
    assert_eq!(app.editor, EditorEffect::PopupKey);
    assert!(!app.should_quit);
    assert!(app.on_key(mock_key(KeyCode::Esc)).is_empty());
    assert!(!app.show_popup);
}

#[test]
fn session_keys() {
    let mut app = App::new(test_config());
    app.current_tab = CurrentTab::Chat;
    app.chat_focus = ChatFocus::Sessions;
    app.models = vec![model("a:1"), model("b:2")];
    app.sessions = vec![session("s1", "one", "a:1"), session("s2", "two", "b:2")];
    app.on_key(mock_key(KeyCode::Char('j')));
    assert_eq!(app.selected_session_index, 1);
    let actions = app.on_key(mock_key(KeyCode::Enter));
    assert_eq!(actions, vec![Action::LoadSession(SessionId("s2".into()))]);
    assert_eq!(app.selected_model_index, 1);
    assert_eq!(app.current_session_id, Some("s2".into()));
    assert_eq!(app.chat_focus, ChatFocus::Input);

    app.chat_focus = ChatFocus::Sessions;
    app.messages = vec![Message { role: "user".into(), content: "x".into() }];
    let actions = app.on_key(mock_key(KeyCode::Char('d')));
    assert_eq!(actions, vec![Action::DeleteSession(SessionId("s2".into()))]);
    assert_eq!(app.current_session_id, None);
    assert!(app.messages.is_empty());
}

#[test]
fn ctrl_n_starts_a_new_chat() {
    let mut app = App::new(test_config());
    app.current_tab = CurrentTab::Chat;
    app.current_session_id = Some("s1".into());
    app.messages = vec![Message { role: "user".into(), content: "x".into() }];
    app.chat_scroll = 7;
    assert!(app.on_key(mock_key_ctrl(KeyCode::Char('n'))).is_empty());
    assert_eq!(app.current_session_id, None);
    assert!(app.messages.is_empty());
    assert_eq!(app.chat_scroll, 0);
}

#[test]
fn tokens_stream_into_one_reply_and_are_saved() {
    let mut app = App::new(test_config());
    app.current_session_id = Some("s1".into());
    app.is_generating = true;
    app.messages = vec![Message { role: "user".into(), content: "hi".into() }];
    assert!(app.on_event(Event::TokenReceived("Hel".into())).is_empty());
    assert!(app.on_event(Event::TokenReceived("lo".into())).is_empty());
    assert_eq!(app.messages.len(), 2);
    assert_eq!(app.messages[1].role, "assistant");
    assert_eq!(app.messages[1].content, "Hello");
    let actions = app.on_event(Event::GenerationDone);
    assert!(!app.is_generating);
    assert_eq!(
        actions,
        vec![Action::SaveMessage(SessionId("s1".into()), "assistant".into(), "Hello".into())]
    );
}

#[test]
fn reply_without_session_is_not_saved() {
    let mut app = App::new(test_config());
    app.is_generating = true;
    app.on_event(Event::TokenReceived("x".into()));
    assert!(app.on_event(Event::GenerationDone).is_empty());
    assert!(!app.is_generating);
}

#[test]
fn fetched_models_are_sorted_by_name() {
    let mut app = App::new(test_config());
    app.sort_column = SortColumn::Size;
    app.on_event(Event::ModelsFetched(vec![model("z-org/alpha:latest"), model("a-org/zebra:latest"), model("Beta")]));
    assert_eq!(app.sort_column, SortColumn::Name);
    let names: Vec<&str> = app.models.iter().map(|m| m.name.as_str()).collect();
    assert_eq!(names, vec!["z-org/alpha:latest", "Beta", "a-org/zebra:latest"]);
}

#[test]
fn fetched_sessions_and_messages_replace_the_lists() {
    let mut app = App::new(test_config());
    app.on_event(Event::SessionsFetched(vec![session("s1", "t", "m")]));
    assert_eq!(app.sessions.len(), 1);
    app.on_event(Event::MessagesLoaded(vec![Message { role: "user".into(), content: "c".into() }]));
    assert_eq!(app.messages.len(), 1);
}

#[test]
fn model_info_focuses_open_inspect_pane() {
    let info = ShowModelResponse {
        modelfile: None,
        parameters: None,
        template: None,
        details: None,
        license: None,
    };
    let mut app = App::new(test_config());
    app.on_event(Event::ModelInfoFetched(info.clone()));
    assert_eq!(app.models_focus, ModelsFocus::List);
    assert_eq!(app.model_info, Some(info.clone()));
    app.show_info = true;
    app.on_event(Event::ModelInfoFetched(info));
    assert_eq!(app.models_focus, ModelsFocus::Info);
}

#[test]
fn error_notification_lasts_its_ticks() {
    let mut app = App::new(test_config());
    app.on_event(Event::Error("boom".into()));
    assert_eq!(app.toasts.len(), 1);
    assert_eq!(app.toasts[0].message, "boom");
    assert_eq!(app.toasts[0].duration, TOAST_TICKS);
    assert_eq!(app.toasts[0].color, ToastColor::Red);
    for _ in 0..TOAST_TICKS {
        app.on_event(Event::Tick);
    }
    assert_eq!(app.toasts.len(), 1);
    assert_eq!(app.toasts[0].duration, 0);
    app.on_tick();
    assert!(app.toasts.is_empty());
}

#[test]
fn input_event_is_a_key_press() {
    let mut app = App::new(test_config());
    let actions = app.on_event(Event::Input(mock_key_ctrl(KeyCode::Char('q'))));
    assert_eq!(actions, vec![Action::Quit]);
    assert!(app.should_quit);
}

#[test]
fn test_config_new() {
    let config = Config::new(Some(("/tmp/vicuna".into(), "/tmp/vicuna-data".into())), None);
    assert!(config.is_ok());
    let cfg = config.unwrap();
    assert!(cfg.db_path.contains("vicuna.db"));
}

#[test]
fn config_paths_and_server() {
    let cfg = Config::new(Some(("/home/u/.config/vicuna".into(), "/d".into())), Some("http://gpu:11434".into()))
        .unwrap();
    assert_eq!(cfg.db_path, "/home/u/.config/vicuna/vicuna.db");
    assert_eq!(cfg.log_dir, "/home/u/.config/vicuna/logs");
    assert_eq!(cfg.ollama_url, "http://gpu:11434");
    let cfg = Config::new(Some(("/c/".into(), "/d".into())), None).unwrap();
    assert_eq!(cfg.db_path, "/c/vicuna.db");
    assert_eq!(cfg.ollama_url, "http://localhost:11434");
    let err = Config::new(None, None).unwrap_err();
    assert_eq!(err.message(), "Could not determine config directory");
}

#[test]
fn keys_keep_model_and_session_lists() {
    let mut app = App::new(test_config());
    let mut big = model("b");
    big.size = 9;
    app.models = vec![big, model("a")];
    app.sessions = vec![session("s1", "t", "a")];
    for key in [
        mock_key(KeyCode::Char('s')),
        mock_key(KeyCode::Char('j')),
        mock_key(KeyCode::Char('d')),
        mock_key_ctrl(KeyCode::Char('d')),
        mock_key(KeyCode::Tab),
        mock_key(KeyCode::Char('d')),
    ] {
        app.on_key(key);
    }
    let mut names: Vec<&str> = app.models.iter().map(|m| m.name.as_str()).collect();
    names.sort();
    assert_eq!(names, vec!["a", "b"]);
    assert_eq!(app.sessions.len(), 1);
}

#[test]
fn sorting_keeps_the_order_of_equal_keys() {
    let mut app = App::new(test_config());
    let mut m1 = model("b:1");
    m1.size = 5;
    let mut m2 = model("a:1");
    m2.size = 3;
    let mut m3 = model("c:1");
    m3.size = 5;
    let mut m4 = model("d:1");
    m4.size = 3;
    app.models = vec![m1, m2, m3, m4];
    app.sort_column = SortColumn::Size;
    app.sort_models();
    let names: Vec<String> = app.models.iter().map(|m| m.name.clone()).collect();
    assert_eq!(names, vec!["a:1", "d:1", "b:1", "c:1"]);

    app.models = vec![model("x/same:1"), model("y/same:2"), model("z/other:1")];
    app.sort_column = SortColumn::Name;
    app.sort_models();
    let names: Vec<String> = app.models.iter().map(|m| m.name.clone()).collect();
    assert_eq!(names, vec!["z/other:1", "x/same:1", "y/same:2"]);
}

#[test]
fn session_enter_past_the_end_or_unknown_model() {
    let mut app = App::new(test_config());
    app.current_tab = CurrentTab::Chat;
    app.chat_focus = ChatFocus::Sessions;
    app.models = vec![model("a:1"), model("b:2")];
    app.selected_model_index = 1;
    assert!(app.on_key(mock_key(KeyCode::Enter)).is_empty());
    assert_eq!(app.current_session_id, None);
    assert_eq!(app.chat_focus, ChatFocus::Sessions);

    app.sessions = vec![session("s1", "one", "gone:1")];
    let actions = app.on_key(mock_key(KeyCode::Enter));
    assert_eq!(actions, vec![Action::LoadSession(SessionId("s1".into()))]);
    assert_eq!(app.selected_model_index, 1);
    assert_eq!(app.current_session_id, Some("s1".into()));
    assert_eq!(app.chat_focus, ChatFocus::Input);
}

#[test]
fn delete_without_models_and_typing_in_the_prompt() {
    let mut app = App::new(test_config());
    assert!(app.on_key(mock_key(KeyCode::Char('d'))).is_empty());
    assert!(app.on_key(mock_key(KeyCode::Char('p'))).is_empty());
    assert!(app.show_popup);
    assert!(app.on_key(mock_key(KeyCode::Char('x'))).is_empty());
    assert!(app.show_popup);
    assert_eq!(app.editor, EditorEffect::PopupKey);
}

#[test]
fn new_session_ids_are_v4_uuids() {
    let mut app = App::new(test_config());
    app.current_tab = CurrentTab::Chat;
    app.input_lines = vec!["hi".into()];
    app.on_key(mock_key(KeyCode::Enter));
    let id = app.current_session_id.clone().expect("a session is started");
    let chars: Vec<char> = id.chars().collect();
    assert_eq!(chars.len(), 36);
    for (k, c) in chars.iter().enumerate() {
        if k == 8 || k == 13 || k == 18 || k == 23 {
            assert_eq!(*c, '-');
        } else {
            assert!(c.is_ascii_digit() || ('a'..='f').contains(c));
        }
    }
    assert_eq!(chars[14], '4');
}
