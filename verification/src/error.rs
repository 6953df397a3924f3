//! What can go wrong while a resource is reconciled.

use vstd::prelude::*;

verus! {

/// Why a reconciliation failed.
#[derive(Debug, PartialEq, Eq)]
pub enum Error {
    /// The Kubernetes API reported an error.
    KubeError { source: String },
    /// A document could not be read or written.
    SerdeError { source: String },
    /// The custom resource is not valid.
    UserInputError(String),
}

/// What an error says.
pub enum ErrorView {
    KubeError { source: Seq<char> },
    SerdeError { source: Seq<char> },
    UserInputError(Seq<char>),
}

impl View for Error {
    type V = ErrorView;

    open spec fn view(&self) -> ErrorView {
        match self {
            Error::KubeError { source } => ErrorView::KubeError { source: source@ },
            Error::SerdeError { source } => ErrorView::SerdeError { source: source@ },
            Error::UserInputError(message) => ErrorView::UserInputError(message@),
        }
    }
}

impl ErrorView {
    /// The message of an error.
    pub open spec fn text(self) -> Seq<char> {
        match self {
            ErrorView::KubeError { source } => "Kubernetes reported error: "@ + source,
            ErrorView::SerdeError { source } => "Serde error: "@ + source,
            ErrorView::UserInputError(message) => "Invalid BitwardenSecret CRD: "@ + message,
        }
    }
}

impl Error {
    /// The message of the error.
    pub fn to_text(&self) -> (text: String)
        ensures
            text@ == self@.text(),
    {
        match self {
            Error::KubeError { source } => "Kubernetes reported error: ".to_owned().concat(
                source.as_str(),
            ),
            Error::SerdeError { source } => "Serde error: ".to_owned().concat(source.as_str()),
            Error::UserInputError(message) => "Invalid BitwardenSecret CRD: ".to_owned().concat(
                message.as_str(),
            ),
        }
    }
}

/// The message of an error says what kind it is and ends in what it was made with.
pub proof fn law_error_messages(message: Seq<char>)
    ensures
        (ErrorView::KubeError { source: message }).text() == "Kubernetes reported error: "@
            + message,
        (ErrorView::SerdeError { source: message }).text() == "Serde error: "@ + message,
        ErrorView::UserInputError(message).text() == "Invalid BitwardenSecret CRD: "@ + message,
{
}

/// An error keeps what it was made with.
pub proof fn law_error(error: Error)
    ensures
        error matches Error::KubeError { source } ==> error@ == (ErrorView::KubeError {
            source: source@,
        }),
        error matches Error::SerdeError { source } ==> error@ == (ErrorView::SerdeError {
            source: source@,
        }),
        error matches Error::UserInputError(message) ==> error@ == ErrorView::UserInputError(
            message@,
        ),
{
}

} // verus!
