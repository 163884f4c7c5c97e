use vicuna::app::{App, ChatFocus, CurrentTab, ModelsFocus};
use vicuna::chat_view::{
    composer_height, composer_title, conversation_title, empty_chat_titles, session_item, sessions_title,
};
use vicuna::chrome::{help_keys, key_hints, keys_budget, keys_zone_width, mode_badge, session_caption, ModeBadge};
use vicuna::config::Config;
use vicuna::confirm::{ConfirmAction, ConfirmPrompt};
use vicuna::inspect::{format_inspect, inspect_title, modified_label};
use vicuna::markdown::markdown_max_scroll;
use vicuna::modelfile::SizeUnit;
use vicuna::picker::{count_text, picker_item, ModelPicker};
use vicuna::sorting::SortColumn;
use vicuna::styles::{help_line, role_kind, scroll_window, toast_area, Rect, RoleKind};
use vicuna::table::{header_label, model_row, quant_column, table_title};
use vicuna::types::{Model, ModelDetails, ModelName, Session, SessionId, ShowModelResponse};

fn app() -> App {
    App::new(Config {
        _config_dir: "/tmp".into(),
        _data_dir: "/tmp".into(),
        log_dir: "/tmp".into(),
        db_path: "/tmp/test.db".into(),
        ollama_url: "http://localhost:11434".into(),
    })
}

fn model(name: &str) -> Model {
    Model {
        name: name.into(),
        modified_at: "".into(),
        size: 0,
        digest: "".into(),
        details: None,
    }
}

fn details(quant: &str) -> ModelDetails {
    ModelDetails {
        format: "gguf".into(),
        family: "llama".into(),
        families: Some(vec!["llama".into(), "clip".into()]),
        parameter_size: "8.0B".into(),
        quantization_level: quant.into(),
    }
}

fn no_info() -> ShowModelResponse {
    ShowModelResponse { modelfile: None, parameters: None, template: None, details: None, license: None }
}

#[test]
fn help_keys_follow_the_mode() {
    let mut a = app();
    assert_eq!(
        help_keys(&a),
        vec![
            ("f3", "inspect"),
            ("esc", "chat"),
            ("j/k", "nav"),
            ("enter", "use"),
            ("p", "pull"),
            ("d", "delete"),
            ("s", "sort"),
        ]
    );
    a.show_info = true;
    a.models_focus = ModelsFocus::Info;
    assert_eq!(help_keys(&a)[2], ("tab", "list"));
    a.show_popup = true;
    assert_eq!(help_keys(&a), vec![("enter", "pull"), ("esc", "cancel")]);
    a.show_popup = false;
    a.current_tab = CurrentTab::Chat;
    a.is_generating = true;
    assert_eq!(help_keys(&a), vec![("^c", "cancel"), ("tab", "focus"), ("esc", "back")]);
    a.chat_focus = ChatFocus::Sessions;
    assert_eq!(help_keys(&a), vec![("c", "cancel"), ("tab", "focus"), ("j/k", "sessions")]);
}

#[test]
fn keys_budget_shares_the_row() {
    assert_eq!(keys_budget(100), 55);
    assert_eq!(keys_budget(30), 20);
    assert_eq!(keys_budget(10), 10);
    assert_eq!(keys_budget(0), 0);
}

#[test]
fn keys_zone_adds_separator_and_caps() {
    let spans = help_line(&[("enter", "pull"), ("esc", "cancel")], 80);
    // "<enter> pull" (12) + gap (2) + "<esc> cancel" (12)
    assert_eq!(keys_zone_width(&spans, 80), 28);
    assert_eq!(keys_zone_width(&spans, 20), 20);
}

#[test]
fn mode_badges() {
    let mut a = app();
    assert_eq!(mode_badge(&a), None);
    a.current_tab = CurrentTab::Chat;
    assert_eq!(mode_badge(&a), Some(ModeBadge::Insert));
    assert_eq!(ModeBadge::Insert.label(), " INS ");
    a.chat_focus = ChatFocus::Sessions;
    assert_eq!(mode_badge(&a), Some(ModeBadge::List));
    assert_eq!(ModeBadge::List.label(), " LIST ");
    a.show_popup = true;
    assert_eq!(mode_badge(&a), Some(ModeBadge::Pull));
    assert_eq!(ModeBadge::Pull.label(), " PULL ");
}

#[test]
fn session_caption_names_the_current_session() {
    let mut a = app();
    assert_eq!(session_caption(&a, 80), None);
    a.sessions = vec![
        Session { id: SessionId("s1".into()), title: "".into(), model: ModelName("m".into()), created_at: "".into() },
        Session { id: SessionId("s2".into()), title: "plans".into(), model: ModelName("m".into()), created_at: "".into() },
    ];
    a.current_session_id = Some("s2".into());
    assert_eq!(session_caption(&a, 80).as_deref(), Some("plans"));
    a.current_session_id = Some("s1".into());
    assert_eq!(session_caption(&a, 80).as_deref(), Some("untitled"));
    a.current_session_id = Some("gone".into());
    assert_eq!(session_caption(&a, 80).as_deref(), Some("chat"));
    a.sessions[1].title = "a rather long session title".into();
    a.current_session_id = Some("s2".into());
    assert_eq!(session_caption(&a, 40).as_deref(), Some("a rathe…"));
}

#[test]
fn modified_dates_are_shortened() {
    assert_eq!(modified_label("2024-05-01T12:34:56Z"), "2024-05-01 12:34");
    assert_eq!(modified_label("2024-05-01T12:34:56.123456789+02:00"), "2024-05-01 12:34");
    assert_eq!(modified_label("yesterday"), "yesterday");
    assert_eq!(modified_label(""), "");
}

#[test]
fn inspect_without_model_or_details() {
    assert_eq!(format_inspect(None, &no_info()), "## summary\n\n");
}

#[test]
fn inspect_lists_model_and_sections() {
    let mut m = model("llama3:8b");
    m.size = 2048;
    m.modified_at = "2024-05-01T12:34:56Z".into();
    m.details = Some(details("Q4_0"));
    let info = ShowModelResponse {
        modelfile: Some("FROM x\n".into()),
        parameters: Some("  stop \"<|eot|>\"  ".into()),
        template: Some("   ".into()),
        details: Some(details("Q4_0")),
        license: Some("MIT".into()),
    };
    let text = format_inspect(Some(&m), &info);
    let expected = "## summary\n\n\
**name**  llama3:8b\n\
**size**  2048 B\n\
**modified**  2024-05-01 12:34\n\
**family**  llama\n\
**params**  8.0B\n\
**quant**  Q4_0\n\
**format**  gguf\n\
\n## ollama details\n\n\
**family**  llama\n\
**params**  8.0B\n\
**quant**  Q4_0\n\
**format**  gguf\n\
**families**  llama, clip\n\
\n## parameters\n\nstop \"<|eot|>\"\n\
\n## modelfile\n\n```\nFROM x\n```\n\
\n## license\n\nMIT\n";
    assert_eq!(text, expected);
}

#[test]
fn inspect_truncates_long_licenses() {
    let info = ShowModelResponse { license: Some("x".repeat(4001)), ..no_info() };
    let text = format_inspect(None, &info);
    let expected = format!("## summary\n\n\n## license\n\n{}\n\n… (truncated)\n", "x".repeat(4000));
    assert_eq!(text, expected);
    let info = ShowModelResponse { license: Some("y".repeat(4000)), ..no_info() };
    let text = format_inspect(None, &info);
    assert_eq!(text, format!("## summary\n\n\n## license\n\n{}\n", "y".repeat(4000)));
}

#[test]
fn quant_column_prefers_reported_label() {
    assert_eq!(quant_column("llama3:latest", Some("Q4_0")), Some(("Q4_0".to_string(), Some(450))));
    assert_eq!(quant_column("phi3:mini", None), Some(("—".to_string(), None)));
}

#[test]
fn quant_column_reads_the_name_when_unknown() {
    assert_eq!(
        quant_column("hf.co/x/Model-GGUF:Q4_K_M", Some("unknown")),
        Some(("Q4_K_M".to_string(), Some(450)))
    );
    assert_eq!(quant_column("mymodel-q4:v2", None), Some(("q4:v2".to_string(), Some(450))));
    assert_eq!(quant_column("org/model-Q4_K_M", None), Some(("Q4_K_M".to_string(), Some(450))));
}

#[test]
fn quant_column_refuses_a_name_whose_slice_would_panic() {
    // Upper-casing `ı` gives the one-byte `I`, so the byte offset found in
    // the upper-cased name falls inside a character of the name.
    assert_eq!(quant_column("ıı-q4:v", None), None);
}

#[test]
fn model_rows() {
    let mut m = model("hf.co/org/Cool-Model-GGUF:Q4_K_M");
    m.size = 3 * 1024 * 1024;
    m.modified_at = "2024-05-01T12:34:56Z".into();
    let row = model_row(0, &m, false).unwrap();
    assert_eq!(row.number, "1");
    assert_eq!(row.name, "cool-model");
    assert_eq!(row.family, "—");
    assert_eq!(row.size, "3.00 MB");
    assert_eq!(row.quant, "Q4_K_M");
    assert_eq!(row.quant_bits, Some(450));
    assert_eq!(row.params, "—");
    assert_eq!(row.param_parts, None);
    assert_eq!(row.modified.as_deref(), Some("2024-05-01 12:34"));
    m.details = Some(details("Q8_0"));
    let row = model_row(9, &m, true).unwrap();
    assert_eq!(row.number, "10");
    assert_eq!(row.family, "llama");
    assert_eq!(row.quant, "Q8_0");
    assert_eq!(row.quant_bits, Some(850));
    assert_eq!(row.param_parts, Some(("8.0".to_string(), SizeUnit::Billion)));
    assert_eq!(row.modified, None);
}

#[test]
fn table_headings_and_title() {
    assert_eq!(header_label("name", SortColumn::Name, SortColumn::Name), "name▾");
    assert_eq!(header_label("size", SortColumn::Size, SortColumn::Name), "size ");
    assert_eq!(table_title(0, false), "models");
    assert_eq!(table_title(3, false), "models · 3 · f3 inspect");
    assert_eq!(table_title(2, true), "models · 2 · f3/esc close inspect");
}

#[test]
fn composer_grows_with_text() {
    assert_eq!(composer_height(&vec![], 20), Some((0, 4)));
    assert_eq!(composer_height(&vec!["hello".into()], 20), Some((1, 4)));
    assert_eq!(composer_height(&vec!["x".repeat(30)], 20), Some((3, 6)));
    assert_eq!(composer_height(&vec![String::new(), "ab".into()], 4), Some((3, 6)));
    let many: Vec<String> = (0..20).map(|_| "line".to_string()).collect();
    assert_eq!(composer_height(&many, 80), Some((20, 12)));
}

#[test]
fn session_items_and_titles() {
    let s = Session {
        id: SessionId("s".into()),
        title: "".into(),
        model: ModelName("a-very-long-model-name:latest".into()),
        created_at: "".into(),
    };
    assert_eq!(session_item(&s), ("untitled  ".to_string(), "a-very-long-m…".to_string()));
    assert_eq!(sessions_title(0), "sessions");
    assert_eq!(sessions_title(3), "sessions · 3");
}

#[test]
fn chat_pane_titles() {
    let mut a = app();
    assert_eq!(conversation_title(&a, "*"), "conversation · ?");
    assert_eq!(empty_chat_titles(&a), ("conversation · no model selected".to_string(), "no model selected".to_string()));
    a.models = vec![model("llama3:8b")];
    a.is_generating = true;
    assert_eq!(conversation_title(&a, "*"), "conversation · llama3:8b · * streaming");
    assert_eq!(composer_title(&a, "*"), "composer · * generating · ^c cancel");
    a.is_generating = false;
    assert_eq!(composer_title(&a, "*"), "composer · enter send · tab cycle · esc back");
    a.chat_focus = ChatFocus::Sessions;
    assert_eq!(composer_title(&a, "*"), "composer · i / tab to focus");
}

#[test]
fn picker_entries() {
    let m = model("hf.co/org/Mistral-7B-GGUF:Q4_K_M");
    assert_eq!(picker_item(&m), ("mistral-7b  ".to_string(), "hf.co/org/Mistral-7B-GGUF:Q4_K_M".to_string()));
    assert_eq!(count_text(2), "2 models");
    let p = ModelPicker::new(5);
    assert_eq!(p.shown_selection(0), None);
    assert_eq!(p.shown_selection(3), Some(2));
    assert_eq!(p.shown_selection(9), Some(5));
}

#[test]
fn picker_filters_case_insensitively() {
    let models = vec![model("llama3:8b"), model("hf.co/x/Mistral-GGUF:Q4_K_M"), model("phi3")];
    let mut p = ModelPicker::new(0);
    p.query = "MIST".into();
    let f = p.filtered(&models);
    assert_eq!(f.len(), 1);
    assert_eq!(f[0].0, 1);
    p.query = String::new();
    assert_eq!(p.filtered(&models).len(), 3);
    p.selected = 7;
    p.clamp_selection(3);
    assert_eq!(p.selected, 2);
    p.clamp_selection(0);
    assert_eq!(p.selected, 0);
}

#[test]
fn confirm_prompts() {
    let c = ConfirmPrompt::delete_model(ModelName("llama3".into()));
    assert!(matches!(c.action, ConfirmAction::DeleteModel(ref n) if n.0 == "llama3"));
    let c = ConfirmPrompt::delete_session(SessionId("s1".into()), "");
    assert!(matches!(c.action, ConfirmAction::DeleteSession(ref s) if s.0 == "s1"));
}

#[test]
fn toast_geometry() {
    let area = Rect { x: 0, y: 0, width: 100, height: 40 };
    assert_eq!(toast_area("hi", area), Rect { x: 38, y: 1, width: 24, height: 3 });
    let long = "m".repeat(90);
    assert_eq!(toast_area(&long, area), Rect { x: 2, y: 1, width: 96, height: 3 });
    let msg = "m".repeat(30);
    assert_eq!(toast_area(&msg, area), Rect { x: 32, y: 1, width: 36, height: 3 });
}

#[test]
fn scroll_window_limits() {
    assert_eq!(scroll_window(50, 10, 5, false), (40, 5));
    assert_eq!(scroll_window(50, 10, 45, false), (40, 40));
    assert_eq!(scroll_window(50, 10, 5, true), (40, 40));
    assert_eq!(scroll_window(5, 10, 3, false), (0, 0));
    assert_eq!(scroll_window(5, 0, 3, false), (4, 3));
}

#[test]
fn role_kinds() {
    assert_eq!(role_kind("User"), RoleKind::User);
    assert_eq!(role_kind("you"), RoleKind::User);
    assert_eq!(role_kind("ASSISTANT"), RoleKind::Assistant);
    assert_eq!(role_kind("model"), RoleKind::Assistant);
    assert_eq!(role_kind("system"), RoleKind::System);
    assert_eq!(role_kind("tool"), RoleKind::Other);
}

#[test]
fn inspect_titles() {
    assert_eq!(inspect_title(None, false), "inspect · — · tab focus · f3 close");
    assert_eq!(
        inspect_title(Some("hf.co/org/llama3:8b"), true),
        "inspect · llama3:8b · ↑↓ scroll · f3/esc close"
    );
}

#[test]
fn markdown_scroll_limit() {
    assert_eq!(markdown_max_scroll("x", 10), 0);
    assert!(markdown_max_scroll("one\n\ntwo\n\nthree", 1) >= 2);
    assert_eq!(markdown_max_scroll("one\n\ntwo\n\nthree", 0), markdown_max_scroll("one\n\ntwo\n\nthree", 1));
}

#[test]
fn key_hints_fit_the_row() {
    let a = app();
    let (pieces, zone) = key_hints(&a, 100);
    let text: String = pieces.iter().map(|p| p.text.as_str()).collect();
    // 55 cells for the hints: the first four bindings fit.
    assert_eq!(text, "<f3> inspect  <esc> chat  <j/k> nav  <enter> use");
    assert_eq!(zone, 50);
    let (pieces, zone) = key_hints(&a, 0);
    assert_eq!(pieces.len(), 1);
    assert_eq!(pieces[0].text, "…");
    assert_eq!(zone, 0);
}
