use vicuna::styles::{
    ellipsize, help_line, outer_area, role_label, short_model, sort_mark, HelpStyle, Rect,
};
use vicuna::transcript::{format_transcript, normalize_md_body, truncate_model};
use vicuna::types::Message;

#[test]
fn short_model_keeps_tag() {
    let long = "hf.co/HauhauCS/Gemma4-26B-A4B-QAT-Uncensored-HauhauCS-Balanced-MTP:Q4_K_M";
    let s = short_model(long, 28);
    assert!(s.ends_with(":Q4_K_M"), "{s}");
    assert!(s.chars().count() <= 28, "{s}");
    assert!(!s.contains("hf.co/"));
}

#[test]
fn short_model_short_names_unchanged() {
    assert_eq!(short_model("llama3.2:latest", 40), "llama3.2:latest");
}

#[test]
fn short_model_edge_cases() {
    assert_eq!(short_model("anything", 0), "");
    assert_eq!(short_model("a/b/verylongname", 5), "very…");
    assert_eq!(short_model("name:averyveryverylongtag", 8), "name:av…");
    assert_eq!(short_model("abcdefghij:q4", 8), "abc…:q4");
    assert_eq!(short_model("x", 1), "x");
    assert_eq!(short_model("xy", 1), "…");
}

#[test]
fn ellipsize_and_truncate() {
    assert_eq!(ellipsize("hello", 5), "hello");
    assert_eq!(ellipsize("hello", 4), "hel…");
    assert_eq!(ellipsize("hello", 1), "…");
    assert_eq!(ellipsize("hello", 0), "…");
    assert_eq!(truncate_model("llama3.1:8b-instruct", 14), "llama3.1:8b-i…");
    assert_eq!(truncate_model("phi3", 14), "phi3");
}

#[test]
fn role_labels() {
    assert_eq!(role_label("user"), "you");
    assert_eq!(role_label("USER"), "you");
    assert_eq!(role_label("Assistant"), "assistant");
    assert_eq!(role_label("system"), "system");
    assert_eq!(role_label("tool"), "message");
    assert_eq!(sort_mark(true, true), "▾");
    assert_eq!(sort_mark(false, true), " ");
}

fn flat(spans: &[vicuna::styles::HelpSpan]) -> String {
    spans.iter().map(|s| s.text.clone()).collect()
}

#[test]
fn help_line_fits_width() {
    let keys = [("enter", "send"), ("tab", "focus"), ("esc", "back")];
    let all = help_line(&keys, 80);
    assert_eq!(flat(&all), "<enter> send  <tab> focus  <esc> back");
    assert_eq!(all[0].style, HelpStyle::Key);
    assert_eq!(all[1].style, HelpStyle::Desc);
    assert_eq!(all[2].style, HelpStyle::Gap);
    let two = help_line(&keys, 30);
    assert_eq!(flat(&two), "<enter> send  <tab> focus");
    let cut = help_line(&keys, 6);
    assert_eq!(flat(&cut), "<ente…");
    assert_eq!(cut.len(), 1);
    for w in 1..60u16 {
        let spans = help_line(&keys, w);
        assert!(flat(&spans).chars().count() <= w as usize);
    }
    assert_eq!(flat(&help_line(&keys, 0)), "…");
}

#[test]
fn help_line_shows_the_longest_fitting_prefix() {
    let keys = [("a", "x"), ("bb", "y"), ("c", "z")];
    assert_eq!(flat(&help_line(&keys, 13)), "<a> x  <bb> y");
    assert_eq!(flat(&help_line(&keys, 12)), "<a> x");
    assert_eq!(flat(&help_line(&keys, 19)), "<a> x  <bb> y");
    assert_eq!(flat(&help_line(&keys, 20)), "<a> x  <bb> y  <c> z");
    assert_eq!(flat(&help_line(&keys, 4)), "<a>…");
    assert!(help_line(&[], 10).is_empty());
}

#[test]
fn outer_area_insets() {
    let a = Rect { x: 0, y: 0, width: 80, height: 24 };
    assert_eq!(outer_area(a), Rect { x: 1, y: 1, width: 78, height: 23 });
    let small = Rect { x: 3, y: 4, width: 2, height: 10 };
    assert_eq!(outer_area(small), small);
}

#[test]
fn normalize_collapses_blank_runs() {
    assert_eq!(normalize_md_body("a\n\n\n\n\nb"), "a\n\n\nb\n");
    assert_eq!(normalize_md_body("a\r\nb"), "a\nb\n");
    assert_eq!(normalize_md_body(""), "");
    assert_eq!(normalize_md_body("x\n"), "x\n");
    assert_eq!(normalize_md_body("  \n\t\nq"), "\n\nq\n");
    let long_run = normalize_md_body("a\n \n\n \n\n\nb\n\n");
    assert_eq!(long_run, "a\n\n\nb\n\n");
    assert!(!long_run.contains("\n\n\n\n"));
}

#[test]
fn transcript_layout() {
    let msgs = vec![
        Message { role: "user".into(), content: "hi  ".into() },
        Message { role: "assistant".into(), content: "hello".into() },
    ];
    assert_eq!(
        format_transcript(&msgs, false),
        "### you\n\nhi\n\n\n---\n\n### assistant\n\nhello\n"
    );
    assert_eq!(
        format_transcript(&msgs, true),
        "### you\n\nhi\n\n\n---\n\n### assistant\n\nhello\n ▍"
    );
    assert_eq!(format_transcript(&[], true), "");
}
