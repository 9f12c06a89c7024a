//! What the assistant decides to do with a command.
use vstd::prelude::*;

use crate::command_parser::{parse_command, parsed_action};

verus! {

/// The action chosen for a text command.
#[derive(Debug)]
pub enum AssistantAction {
    /// Answer the user with this text.
    Respond(String),
    /// Open the application with this internal name.
    OpenApplication(String),
    /// Open the working environment.
    OpenWorkspace,
    /// The command was not understood; it carries the (cleaned) command.
    Unknown(String),
}

/// The model of an `AssistantAction`: the same variants, over character
/// sequences.
pub enum ActionView {
    Respond(Seq<char>),
    OpenApplication(Seq<char>),
    OpenWorkspace,
    Unknown(Seq<char>),
}

impl View for AssistantAction {
    type V = ActionView;

    open spec fn view(&self) -> ActionView {
        match self {
            AssistantAction::Respond(s) => ActionView::Respond(s@),
            AssistantAction::OpenApplication(s) => ActionView::OpenApplication(s@),
            AssistantAction::OpenWorkspace => ActionView::OpenWorkspace,
            AssistantAction::Unknown(s) => ActionView::Unknown(s@),
        }
    }
}

/// Turns a text command into an action (the command parser's verdict).
pub fn process_command(text: &str) -> (r: AssistantAction)
    ensures
        r@ == parsed_action(text@),
{
    parse_command(text)
}

} // verus!
