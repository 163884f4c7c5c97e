use vicuna::app::Action;
use vicuna::backend::{
    generation_events, messages_loaded, model_deleted, model_record, model_shown, models_listed, plan,
    pull_step, session_created, session_deleted, sessions_listed, stored_session, Job,
};
use vicuna::events::Event;
use vicuna::modelfile::SizeUnit;
use vicuna::types::{
    GenerateResponse, ListModelsResponse, Model, ModelDetails, ModelName, PullResponse, SessionId,
};

fn error_text(e: &Event) -> String {
    match e {
        Event::Error(m) => m.clone(),
        _ => panic!("not an error notification"),
    }
}

#[test]
fn generate_builds_a_streaming_request() {
    match plan(Action::Generate("hi".into(), ModelName("llama3".into()))) {
        Job::Generate(req) => {
            assert_eq!(req.model, "llama3");
            assert_eq!(req.prompt, "hi");
            assert_eq!(req.stream, Some(true));
            assert_eq!(req.system, None);
            assert_eq!(req.template, None);
            assert_eq!(req.context, None);
        }
        _ => panic!("expected a generation"),
    }
}

#[test]
fn pull_builds_a_streaming_request() {
    match plan(Action::PullModel(ModelName("mistral".into()))) {
        Job::Pull(req) => {
            assert_eq!(req.name, "mistral");
            assert_eq!(req.stream, Some(true));
        }
        _ => panic!("expected a pull"),
    }
}

#[test]
fn other_actions_map_to_their_jobs() {
    assert!(matches!(plan(Action::Quit), Job::Stop));
    assert!(matches!(plan(Action::FetchModels), Job::ListModels));
    assert!(matches!(plan(Action::FetchSessions), Job::ListSessions));
    assert!(matches!(plan(Action::InitImage(3, 4)), Job::LoadLogo(3, 4)));
    match plan(Action::SaveMessage(SessionId("s".into()), "user".into(), "c".into())) {
        Job::SaveMessage(s, r, c) => {
            assert_eq!(s.0, "s");
            assert_eq!(r, "user");
            assert_eq!(c, "c");
        }
        _ => panic!("expected a save"),
    }
    match plan(Action::LoadSession(SessionId("s9".into()))) {
        Job::LoadMessages(s) => assert_eq!(s.0, "s9"),
        _ => panic!("expected a load"),
    }
}

#[test]
fn deleting_a_model_cleans_up_only_on_success() {
    let (cascade, e) = model_deleted(Ok(true));
    assert!(cascade);
    assert_eq!(error_text(&e), "Model deleted");
    let (cascade, e) = model_deleted(Ok(false));
    assert!(!cascade);
    assert_eq!(error_text(&e), "Failed to delete model");
    let (cascade, e) = model_deleted(Err("timeout".into()));
    assert!(!cascade);
    assert_eq!(error_text(&e), "Failed to delete model: timeout");
}

#[test]
fn pull_progress_and_end() {
    let item = PullResponse { status: "pulling".into(), digest: None, total: None, completed: None };
    let (go_on, e) = pull_step(Some(Ok(item)));
    assert!(go_on);
    assert!(e.is_none());
    let (go_on, e) = pull_step(Some(Err("bad name".into())));
    assert!(!go_on);
    assert_eq!(error_text(&e.unwrap()), "Pull error: bad name");
    let (go_on, e) = pull_step(None);
    assert!(!go_on);
    assert_eq!(error_text(&e.unwrap()), "Model pulled successfully");
}

#[test]
fn generation_items_become_events() {
    let resp = GenerateResponse {
        model: "m".into(),
        created_at: "".into(),
        response: "tok".into(),
        done: false,
        context: None,
    };
    let evs = generation_events(Ok(resp.clone()));
    assert_eq!(evs.len(), 1);
    assert!(matches!(&evs[0], Event::TokenReceived(t) if t == "tok"));
    let mut last = resp;
    last.done = true;
    let evs = generation_events(Ok(last));
    assert_eq!(evs.len(), 2);
    assert!(matches!(&evs[0], Event::TokenReceived(t) if t == "tok"));
    assert!(matches!(evs[1], Event::GenerationDone));
    let evs = generation_events(Err("reset".into()));
    assert_eq!(evs.len(), 2);
    assert_eq!(error_text(&evs[0]), "Generation error: reset");
    assert!(matches!(evs[1], Event::GenerationDone));
}

#[test]
fn failed_answers_become_notifications() {
    assert_eq!(error_text(&models_listed(Err("x".into()))), "Failed to fetch models: x");
    assert_eq!(error_text(&model_shown(Err("x".into()))), "Failed to fetch model info: x");
    assert_eq!(error_text(&sessions_listed(Err("x".into()))), "Failed to fetch sessions: x");
    assert_eq!(error_text(&messages_loaded(Err("x".into()))), "Failed to load messages: x");
    assert_eq!(error_text(&session_created(Err("x".into())).unwrap()), "Failed to create session: x");
    assert_eq!(error_text(&session_deleted(Err("x".into())).unwrap()), "Failed to delete session: x");
    assert!(session_created(Ok(())).is_none());
    assert!(session_deleted(Ok(())).is_none());
}

#[test]
fn successful_answers_carry_their_data() {
    let ev = models_listed(Ok(ListModelsResponse { models: vec![] }));
    assert!(matches!(ev, Event::ModelsFetched(ms) if ms.is_empty()));
    let ev = sessions_listed(Ok(vec![]));
    assert!(matches!(ev, Event::SessionsFetched(ss) if ss.is_empty()));
}

#[test]
fn model_record_reads_labels() {
    let m = Model {
        name: "llama3:8b".into(),
        modified_at: "2024-01-01T00:00:00Z".into(),
        size: 42,
        digest: "d".into(),
        details: Some(ModelDetails {
            format: "gguf".into(),
            family: "llama".into(),
            families: None,
            parameter_size: "8.0B".into(),
            quantization_level: "Q4_0".into(),
        }),
    };
    let r = model_record(&m);
    assert_eq!(r.name, "llama3:8b");
    assert_eq!(r.family.as_deref(), Some("llama"));
    assert_eq!(r.size, 42);
    assert_eq!(r.quantization.as_deref(), Some("Q4_0"));
    assert_eq!(r.params.as_deref(), Some("8.0B"));
    assert_eq!(r.param_parts, Some(("8.0".to_string(), SizeUnit::Billion)));
    assert_eq!(r.quant_bits, Some(450));
    let bare = Model { details: None, ..m };
    let r = model_record(&bare);
    assert_eq!(r.family, None);
    assert_eq!(r.param_parts, None);
    assert_eq!(r.quant_bits, None);
}

#[test]
fn stored_sessions_default_their_model() {
    let s = stored_session("s1".into(), "t".into(), None, "2024".into());
    assert_eq!(s.model.0, "unknown");
    assert_eq!(s.id.0, "s1");
    let s = stored_session("s2".into(), "t".into(), Some("llama3".into()), "2024".into());
    assert_eq!(s.model.0, "llama3");
}
