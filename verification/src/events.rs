//! What reaches the application from outside: key presses, ticks, and the
//! backend's replies.
use vstd::prelude::*;

use crate::app::KeyPress;
use crate::types::{Message, Model, Session, ShowModelResponse};

verus! {

/// An event for the application.
pub enum Event {
    /// A key press.
    Input(KeyPress),
    /// A clock tick (notifications age by one tick).
    Tick,
    /// The installed models.
    ModelsFetched(Vec<Model>),
    /// The stored chat sessions.
    SessionsFetched(Vec<Session>),
    /// The messages of the session that was opened.
    MessagesLoaded(Vec<Message>),
    /// Details of the inspected model.
    ModelInfoFetched(ShowModelResponse),
    /// The next piece of a streamed reply.
    TokenReceived(String),
    /// The streamed reply is complete.
    GenerationDone,
    /// A message to show as an error notification.
    Error(String),
}

} // verus!
