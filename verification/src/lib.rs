//! Vicuna's verified core: a terminal client for Ollama, less the terminal.
//!
//! The application state and how it answers keys and events (`app`,
//! `events`), what the backend is asked to do and how its answers are
//! reported (`backend`), how model names and labels are read (`modelfile`,
//! `decimal`), sorting and filtering the model list (`sorting`, `picker`),
//! and the text the screens show (`chrome`, `chat_view`, `inspect`, `table`,
//! `transcript`, `styles`, `vram`, `markdown`). Drawing, the network and
//! the database are left to the program around it.

pub mod app;
pub mod backend;
pub mod chat_view;
pub mod chrome;
pub mod config;
pub mod confirm;
pub mod decimal;
pub mod events;
pub mod inspect;
pub mod markdown;
pub mod modelfile;
pub mod picker;
pub mod sorting;
pub mod styles;
pub mod table;
pub mod text;
pub mod transcript;
pub mod types;
pub mod vram;
