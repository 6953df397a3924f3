//! What can go wrong while the vault is used.

use vstd::prelude::*;

verus! {

/// Why an operation on the vault failed.
#[derive(Debug, PartialEq, Eq)]
pub enum WardenCommandError {
    WardenCommandError(String),
    SessionExpired(String),
    Locked(String),
    InvalidCredentials(String),
    IO(String),
    Other(String),
}

/// What an error says.
pub enum CommandErrorView {
    WardenCommandError(Seq<char>),
    SessionExpired(Seq<char>),
    Locked(Seq<char>),
    InvalidCredentials(Seq<char>),
    IO(Seq<char>),
    Other(Seq<char>),
}

impl View for WardenCommandError {
    type V = CommandErrorView;

    open spec fn view(&self) -> CommandErrorView {
        match self {
            WardenCommandError::WardenCommandError(m) => CommandErrorView::WardenCommandError(m@),
            WardenCommandError::SessionExpired(m) => CommandErrorView::SessionExpired(m@),
            WardenCommandError::Locked(m) => CommandErrorView::Locked(m@),
            WardenCommandError::InvalidCredentials(m) => CommandErrorView::InvalidCredentials(m@),
            WardenCommandError::IO(m) => CommandErrorView::IO(m@),
            WardenCommandError::Other(m) => CommandErrorView::Other(m@),
        }
    }
}

impl CommandErrorView {
    /// The message of an error.
    pub open spec fn text(self) -> Seq<char> {
        match self {
            CommandErrorView::WardenCommandError(m) => "Bitwarden CLI error "@ + m,
            CommandErrorView::SessionExpired(m) => "Session expired: "@ + m,
            CommandErrorView::Locked(m) => "Locked: "@ + m,
            CommandErrorView::InvalidCredentials(m) => "InvalidCredentials: "@ + m,
            CommandErrorView::IO(m) => "IO error: "@ + m,
            CommandErrorView::Other(m) => "Other error: "@ + m,
        }
    }
}

impl WardenCommandError {
    /// The message of the error.
    pub fn to_text(&self) -> (text: String)
        ensures
            text@ == self@.text(),
    {
        match self {
            WardenCommandError::WardenCommandError(m) => "Bitwarden CLI error ".to_owned().concat(
                m.as_str(),
            ),
            WardenCommandError::SessionExpired(m) => "Session expired: ".to_owned().concat(
                m.as_str(),
            ),
            WardenCommandError::Locked(m) => "Locked: ".to_owned().concat(m.as_str()),
            WardenCommandError::InvalidCredentials(m) => "InvalidCredentials: ".to_owned().concat(
                m.as_str(),
            ),
            WardenCommandError::IO(m) => "IO error: ".to_owned().concat(m.as_str()),
            WardenCommandError::Other(m) => "Other error: ".to_owned().concat(m.as_str()),
        }
    }
}

/// The message of an error says what kind it is and ends in what it was made with.
pub proof fn law_error_messages(message: Seq<char>)
    ensures
        CommandErrorView::WardenCommandError(message).text() == "Bitwarden CLI error "@ + message,
        CommandErrorView::SessionExpired(message).text() == "Session expired: "@ + message,
        CommandErrorView::Locked(message).text() == "Locked: "@ + message,
        CommandErrorView::InvalidCredentials(message).text() == "InvalidCredentials: "@ + message,
        CommandErrorView::IO(message).text() == "IO error: "@ + message,
        CommandErrorView::Other(message).text() == "Other error: "@ + message,
{
}

/// An error keeps its kind and what it was made with.
pub proof fn law_error(error: WardenCommandError)
    ensures
        error matches WardenCommandError::WardenCommandError(m) ==> error@
            == CommandErrorView::WardenCommandError(m@),
        error matches WardenCommandError::SessionExpired(m) ==> error@
            == CommandErrorView::SessionExpired(m@),
        error matches WardenCommandError::Locked(m) ==> error@ == CommandErrorView::Locked(m@),
        error matches WardenCommandError::InvalidCredentials(m) ==> error@
            == CommandErrorView::InvalidCredentials(m@),
        error matches WardenCommandError::IO(m) ==> error@ == CommandErrorView::IO(m@),
        error matches WardenCommandError::Other(m) ==> error@ == CommandErrorView::Other(m@),
{
}

} // verus!
