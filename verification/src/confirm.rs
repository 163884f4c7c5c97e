//! Confirmation prompts for destructive actions.
use vstd::prelude::*;

use crate::text::copy_string;
use crate::types::{ModelName, SessionId};

verus! {

/// What a confirmation prompt is about to do.
#[derive(Clone, Debug, PartialEq)]
pub enum ConfirmAction {
    DeleteSession(SessionId),
    DeleteModel(ModelName),
}

/// A yes/no question shown before a destructive action.
#[derive(Clone, Debug, PartialEq)]
pub struct ConfirmPrompt {
    pub title: String,
    pub detail: String,
    pub action: ConfirmAction,
}

impl ConfirmPrompt {
    /// Asks before deleting a session; an empty title is shown as `untitled`.
    pub fn delete_session(id: SessionId, title: &str) -> (r: Self)
        ensures
            r.title@ == "delete session"@,
            r.detail@ == "“"@ + (if title@.len() == 0 {
                "untitled"@
            } else {
                title@
            }) + "” will be removed permanently."@,
            r.action == ConfirmAction::DeleteSession(id),
    {
        let label = if title.is_empty() {
            "untitled"
        } else {
            title
        };
        let mut detail = String::from_str("“");
        detail.append(label);
        detail.append("” will be removed permanently.");
        ConfirmPrompt {
            title: String::from_str("delete session"),
            detail,
            action: ConfirmAction::DeleteSession(id),
        }
    }

    /// Asks before deleting a model (and, with it, its chats).
    pub fn delete_model(name: ModelName) -> (r: Self)
        ensures
            r.title@ == "delete model"@,
            r.detail@ == "“"@ + name.0@ + "” and its chats will be removed."@,
            r.action == ConfirmAction::DeleteModel(name),
    {
        let label = copy_string(&name.0);
        let mut detail = String::from_str("“");
        detail.append(label.as_str());
        detail.append("” and its chats will be removed.");
        ConfirmPrompt {
            title: String::from_str("delete model"),
            detail,
            action: ConfirmAction::DeleteModel(name),
        }
    }
}

} // verus!
