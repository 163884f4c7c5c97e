//! Data exchanged with Ollama and kept for chat sessions.
use vstd::prelude::*;

verus! {

/// The name of a model, such as `llama3:latest`.
#[derive(Clone, Debug, PartialEq, Eq)]
pub struct ModelName(pub String);

/// The id of a chat session.
#[derive(Clone, Debug, PartialEq, Eq)]
pub struct SessionId(pub String);

/// Details that Ollama reports for a model.
#[derive(Clone, Debug, PartialEq)]
pub struct ModelDetails {
    pub format: String,
    pub family: String,
    pub families: Option<Vec<String>>,
    pub parameter_size: String,
    pub quantization_level: String,
}

/// A model installed in Ollama.
#[derive(Clone, Debug, PartialEq)]
pub struct Model {
    pub name: String,
    pub modified_at: String,
    pub size: u64,
    pub digest: String,
    pub details: Option<ModelDetails>,
}

/// Answer to `GET /api/tags`.
#[derive(Clone, Debug, PartialEq)]
pub struct ListModelsResponse {
    pub models: Vec<Model>,
}

/// Body of `POST /api/show`.
#[derive(Clone, Debug, PartialEq)]
pub struct ShowModelRequest {
    pub name: String,
}

/// Answer to `POST /api/show`.
#[derive(Clone, Debug, PartialEq)]
pub struct ShowModelResponse {
    pub modelfile: Option<String>,
    pub parameters: Option<String>,
    pub template: Option<String>,
    pub details: Option<ModelDetails>,
    pub license: Option<String>,
}

/// Body of `POST /api/generate`.
#[derive(Clone, Debug, PartialEq)]
pub struct GenerateRequest {
    pub model: String,
    pub prompt: String,
    pub system: Option<String>,
    pub template: Option<String>,
    pub context: Option<Vec<i64>>,
    pub stream: Option<bool>,
}

/// One line of the streamed answer to `POST /api/generate`.
#[derive(Clone, Debug, PartialEq)]
pub struct GenerateResponse {
    pub model: String,
    pub created_at: String,
    pub response: String,
    pub done: bool,
    pub context: Option<Vec<i64>>,
}

/// Body of `POST /api/pull`.
#[derive(Clone, Debug, PartialEq)]
pub struct PullRequest {
    pub name: String,
    pub stream: Option<bool>,
}

/// One line of the streamed answer to `POST /api/pull`.
#[derive(Clone, Debug, PartialEq)]
pub struct PullResponse {
    pub status: String,
    pub digest: Option<String>,
    pub total: Option<u64>,
    pub completed: Option<u64>,
}

/// A stored chat session.
#[derive(Clone, Debug, PartialEq)]
pub struct Session {
    pub id: SessionId,
    pub title: String,
    pub model: ModelName,
    pub created_at: String,
}

/// One message of a chat.
#[derive(Clone, Debug, PartialEq)]
pub struct Message {
    pub role: String,
    pub content: String,
}

} // verus!
