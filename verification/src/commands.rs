//! What the user is told after a command.
use vstd::prelude::*;

use crate::assistant::{ActionView, AssistantAction};
use crate::text::{concat_all, concat_views};

verus! {

/// The outcome of starting the programs of an action, as text.
pub open spec fn outcome_view(outcome: Result<(), String>) -> Result<(), Seq<char>> {
    match outcome {
        Ok(()) => Ok(()),
        Err(e) => Err(e@),
    }
}

/// The reply to an action: the answer itself; for an application, that it
/// opens or why it did not; for the working environment, that the shields
/// are up or why not; for anything else, that the command is unknown. The
/// outcome matters only for the actions that start programs.
pub open spec fn reply_for(action: ActionView, outcome: Result<(), Seq<char>>) -> Seq<char> {
    match action {
        ActionView::Respond(response) => response,
        ActionView::OpenApplication(application) => match outcome {
            Ok(()) => "Открываю: "@ + application,
            Err(error) => "Ошибка открытия "@ + application + ": "@ + error,
        },
        ActionView::OpenWorkspace => match outcome {
            Ok(()) => "Щиты подняты"@,
            Err(error) => "Ошибка workspace: "@ + error,
        },
        ActionView::Unknown(command) => "Я пока не знаю такую команду: "@ + command,
    }
}

/// The reply to a voice or text command, given the action the parser chose
/// and the outcome of starting its programs.
pub fn command_reply(action: &AssistantAction, outcome: &Result<(), String>) -> (r: String)
    ensures
        r@ == reply_for(action@, outcome_view(*outcome)),
{
    proof {
        reveal_with_fuel(concat_views, 5);
    }
    match action {
        AssistantAction::Respond(response) => concat_all(&[response.as_str()]),
        AssistantAction::OpenApplication(application) => match outcome {
            Ok(()) => concat_all(&["Открываю: ", application.as_str()]),
            Err(error) => concat_all(
                &["Ошибка открытия ", application.as_str(), ": ", error.as_str()],
            ),
        },
        AssistantAction::OpenWorkspace => match outcome {
            Ok(()) => concat_all(&["Щиты подняты"]),
            Err(error) => concat_all(&["Ошибка workspace: ", error.as_str()]),
        },
        AssistantAction::Unknown(command) => concat_all(
            &["Я пока не знаю такую команду: ", command.as_str()],
        ),
    }
}

} // verus!
