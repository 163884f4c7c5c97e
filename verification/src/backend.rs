//! The backend's decisions: which outside work an action asks for, what is
//! sent to Ollama, and which events its answers become. The work itself
//! (HTTP, database) is done by the caller.
use vstd::prelude::*;

use crate::app::{opt_view, Action};
use crate::events::Event;
use crate::modelfile::{label, parameter_size_parts, parse_quantization_bits, parts_view, quant_bits, size_parts, SizeUnit};
use crate::text::copy_string;
use crate::types::{
    GenerateRequest, GenerateResponse, ListModelsResponse, Message, Model, ModelName, PullRequest,
    PullResponse, Session, SessionId, ShowModelResponse,
};

verus! {

// ---------------------------------------------------------------------------
// Jobs

/// Outside work that an action asks for.
pub enum Job {
    /// Leave the action loop.
    Stop,
    /// List the installed models (and record them in the database).
    ListModels,
    /// Ask Ollama for a model's details.
    ShowModel(ModelName),
    /// Delete a model from Ollama (and its sessions from the database).
    DeleteModel(ModelName),
    /// Pull a model, streaming progress.
    Pull(PullRequest),
    /// Generate a reply, streaming it; a generation still running is
    /// aborted first.
    Generate(GenerateRequest),
    /// Read the stored sessions.
    ListSessions,
    /// Read the messages of a session.
    LoadMessages(SessionId),
    /// Store a new session: id, title, model.
    CreateSession(SessionId, String, ModelName),
    /// Delete a stored session.
    DeleteSession(SessionId),
    /// Store a message: session, role, content.
    SaveMessage(SessionId, String, String),
    /// Load the logo at the given width and height.
    LoadLogo(u16, u16),
}

/// The request that generates a streamed reply to `prompt` with `model`.
pub open spec fn generation_request(prompt: String, model: ModelName) -> GenerateRequest {
    GenerateRequest {
        model: model.0,
        prompt: prompt,
        system: None,
        template: None,
        context: None,
        stream: Some(true),
    }
}

/// The request that pulls `name`, streaming progress.
pub open spec fn pull_request(name: ModelName) -> PullRequest {
    PullRequest { name: name.0, stream: Some(true) }
}

/// The work for each action.
pub open spec fn job_for(a: Action) -> Job {
    match a {
        Action::Quit => Job::Stop,
        Action::FetchModels => Job::ListModels,
        Action::ShowModelInfo(n) => Job::ShowModel(n),
        Action::DeleteModel(n) => Job::DeleteModel(n),
        Action::PullModel(n) => Job::Pull(pull_request(n)),
        Action::Generate(p, n) => Job::Generate(generation_request(p, n)),
        Action::FetchSessions => Job::ListSessions,
        Action::LoadSession(s) => Job::LoadMessages(s),
        Action::CreateSession(s, t, n) => Job::CreateSession(s, t, n),
        Action::DeleteSession(s) => Job::DeleteSession(s),
        Action::SaveMessage(s, r, c) => Job::SaveMessage(s, r, c),
        Action::InitImage(w, h) => Job::LoadLogo(w, h),
    }
}

/// The work that an action asks for.
pub fn plan(action: Action) -> (j: Job)
    ensures
        j == job_for(action),
{
    match action {
        Action::Quit => Job::Stop,
        Action::FetchModels => Job::ListModels,
        Action::ShowModelInfo(n) => Job::ShowModel(n),
        Action::DeleteModel(n) => Job::DeleteModel(n),
        Action::PullModel(n) => Job::Pull(PullRequest { name: n.0, stream: Some(true) }),
        Action::Generate(p, n) => Job::Generate(
            GenerateRequest { model: n.0, prompt: p, system: None, template: None, context: None, stream: Some(true) },
        ),
        Action::FetchSessions => Job::ListSessions,
        Action::LoadSession(s) => Job::LoadMessages(s),
        Action::CreateSession(s, t, n) => Job::CreateSession(s, t, n),
        Action::DeleteSession(s) => Job::DeleteSession(s),
        Action::SaveMessage(s, r, c) => Job::SaveMessage(s, r, c),
        Action::InitImage(w, h) => Job::LoadLogo(w, h),
    }
}

// ---------------------------------------------------------------------------
// Answers

/// `prefix` followed by `detail`.
fn joined(prefix: &str, detail: &str) -> (r: String)
    ensures
        r@ == prefix@ + detail@,
{
    let mut s = String::from_str(prefix);
    s.append(detail);
    s
}

/// Is `e` an error notification with exactly the text `t`?
pub open spec fn is_error_text(e: Event, t: Seq<char>) -> bool {
    e matches Event::Error(m) && m@ == t
}

/// The event for the answer to a model listing: the models, or an error.
pub fn models_listed(answer: Result<ListModelsResponse, String>) -> (e: Event)
    ensures
        match answer {
            Ok(res) => e == Event::ModelsFetched(res.models),
            Err(m) => is_error_text(e, "Failed to fetch models: "@ + m@),
        },
{
    match answer {
        Ok(res) => Event::ModelsFetched(res.models),
        Err(m) => Event::Error(joined("Failed to fetch models: ", m.as_str())),
    }
}

/// The event for the answer to a request for a model's details.
pub fn model_shown(answer: Result<ShowModelResponse, String>) -> (e: Event)
    ensures
        match answer {
            Ok(info) => e == Event::ModelInfoFetched(info),
            Err(m) => is_error_text(e, "Failed to fetch model info: "@ + m@),
        },
{
    match answer {
        Ok(info) => Event::ModelInfoFetched(info),
        Err(m) => Event::Error(joined("Failed to fetch model info: ", m.as_str())),
    }
}

/// The answer to a deletion (`Ok(true)` when Ollama reported success):
/// whether the model's sessions and record leave the database, and the
/// notification to show.
pub fn model_deleted(answer: Result<bool, String>) -> (r: (bool, Event))
    ensures
        r.0 == (answer == Ok::<bool, String>(true)),
        match answer {
            Ok(true) => is_error_text(r.1, "Model deleted"@),
            Ok(false) => is_error_text(r.1, "Failed to delete model"@),
            Err(m) => is_error_text(r.1, "Failed to delete model: "@ + m@),
        },
{
    match answer {
        Ok(true) => (true, Event::Error(String::from_str("Model deleted"))),
        Ok(false) => (false, Event::Error(String::from_str("Failed to delete model"))),
        Err(m) => (false, Event::Error(joined("Failed to delete model: ", m.as_str()))),
    }
}

/// One step of a pull: `None` when the progress stream has ended, else its
/// next item. Says whether to keep reading, and what to show.
pub fn pull_step(item: Option<Result<PullResponse, String>>) -> (r: (bool, Option<Event>))
    ensures
        match item {
            None => !r.0 && (r.1 matches Some(e) && is_error_text(e, "Model pulled successfully"@)),
            Some(Ok(_)) => r.0 && r.1 is None,
            Some(Err(m)) => !r.0 && (r.1 matches Some(e) && is_error_text(e, "Pull error: "@ + m@)),
        },
{
    match item {
        None => (false, Some(Event::Error(String::from_str("Model pulled successfully")))),
        Some(Ok(_)) => (true, None),
        Some(Err(m)) => (false, Some(Event::Error(joined("Pull error: ", m.as_str())))),
    }
}

/// The events for one item of a streamed reply: its text, then
/// `GenerationDone` when it is the last; an error ends the reply too.
pub fn generation_events(item: Result<GenerateResponse, String>) -> (r: Vec<Event>)
    ensures
        match item {
            Ok(resp) => if resp.done {
                r@.len() == 2 && r@[0] == Event::TokenReceived(resp.response) && r@[1] is GenerationDone
            } else {
                r@.len() == 1 && r@[0] == Event::TokenReceived(resp.response)
            },
            Err(m) => r@.len() == 2 && is_error_text(r@[0], "Generation error: "@ + m@)
                && r@[1] is GenerationDone,
        },
{
    let mut r: Vec<Event> = Vec::new();
    match item {
        Ok(resp) => {
            let done = resp.done;
            r.push(Event::TokenReceived(resp.response));
            if done {
                r.push(Event::GenerationDone);
            }
        },
        Err(m) => {
            r.push(Event::Error(joined("Generation error: ", m.as_str())));
            r.push(Event::GenerationDone);
        },
    }
    r
}

/// The event for the answer to a session listing.
pub fn sessions_listed(answer: Result<Vec<Session>, String>) -> (e: Event)
    ensures
        match answer {
            Ok(ss) => e == Event::SessionsFetched(ss),
            Err(m) => is_error_text(e, "Failed to fetch sessions: "@ + m@),
        },
{
    match answer {
        Ok(ss) => Event::SessionsFetched(ss),
        Err(m) => Event::Error(joined("Failed to fetch sessions: ", m.as_str())),
    }
}

/// The event for the answer to loading a session's messages.
pub fn messages_loaded(answer: Result<Vec<Message>, String>) -> (e: Event)
    ensures
        match answer {
            Ok(ms) => e == Event::MessagesLoaded(ms),
            Err(m) => is_error_text(e, "Failed to load messages: "@ + m@),
        },
{
    match answer {
        Ok(ms) => Event::MessagesLoaded(ms),
        Err(m) => Event::Error(joined("Failed to load messages: ", m.as_str())),
    }
}

/// The notification for a failed store of a new session (none on success).
pub fn session_created(answer: Result<(), String>) -> (e: Option<Event>)
    ensures
        match answer {
            Ok(_) => e is None,
            Err(m) => e matches Some(x) && is_error_text(x, "Failed to create session: "@ + m@),
        },
{
    match answer {
        Ok(_) => None,
        Err(m) => Some(Event::Error(joined("Failed to create session: ", m.as_str()))),
    }
}

/// The notification for a failed deletion of a session (none on success).
pub fn session_deleted(answer: Result<(), String>) -> (e: Option<Event>)
    ensures
        match answer {
            Ok(_) => e is None,
            Err(m) => e matches Some(x) && is_error_text(x, "Failed to delete session: "@ + m@),
        },
{
    match answer {
        Ok(_) => None,
        Err(m) => Some(Event::Error(joined("Failed to delete session: ", m.as_str()))),
    }
}

/// A stored session read back from the database; a session stored without
/// a model is shown with the model `unknown`.
pub fn stored_session(id: String, title: String, model: Option<String>, created_at: String) -> (r: Session)
    ensures
        r.id.0@ == id@,
        r.title@ == title@,
        r.model.0@ == match model {
            Some(m) => m@,
            None => "unknown"@,
        },
        r.created_at@ == created_at@,
{
    let name = match model {
        Some(m) => m,
        None => String::from_str("unknown"),
    };
    Session { id: SessionId(id), title, model: ModelName(name), created_at }
}

// ---------------------------------------------------------------------------
// Model records

/// What the database keeps of a model. `param_parts` (the number and unit
/// of the parameter label) and `quant_bits` (in hundredths of a bit) are
/// read from the details' labels; the memory estimate is made from them
/// when both are known.
pub struct ModelRecord {
    pub name: String,
    pub family: Option<String>,
    pub size: u64,
    pub quantization: Option<String>,
    pub params: Option<String>,
    pub modified_at: String,
    pub param_parts: Option<(String, SizeUnit)>,
    pub quant_bits: Option<u32>,
}

/// The record that the database keeps of a model.
pub fn model_record(m: &Model) -> (r: ModelRecord)
    ensures
        r.name@ == m.name@,
        r.size == m.size,
        r.modified_at@ == m.modified_at@,
        match m.details {
            Some(d) => {
                &&& opt_view(r.family) == Some(d.family@)
                &&& opt_view(r.quantization) == Some(d.quantization_level@)
                &&& opt_view(r.params) == Some(d.parameter_size@)
                &&& parts_view(r.param_parts) == size_parts(label(d.parameter_size@))
                &&& r.quant_bits == quant_bits(label(d.quantization_level@))
            },
            None => {
                &&& r.family is None
                &&& r.quantization is None
                &&& r.params is None
                &&& r.param_parts is None
                &&& r.quant_bits is None
            },
        },
{
    match &m.details {
        Some(d) => ModelRecord {
            name: copy_string(&m.name),
            family: Some(copy_string(&d.family)),
            size: m.size,
            quantization: Some(copy_string(&d.quantization_level)),
            params: Some(copy_string(&d.parameter_size)),
            modified_at: copy_string(&m.modified_at),
            param_parts: parameter_size_parts(d.parameter_size.as_str()),
            quant_bits: parse_quantization_bits(d.quantization_level.as_str()),
        },
        None => ModelRecord {
            name: copy_string(&m.name),
            family: None,
            size: m.size,
            quantization: None,
            params: None,
            modified_at: copy_string(&m.modified_at),
            param_parts: None,
            quant_bits: None,
        },
    }
}

} // verus!
