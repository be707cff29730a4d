//! What can go wrong.

use vstd::prelude::*;
use vstd::string::StringExecFns;

verus! {

/// An error of the runtime.
#[derive(Debug)]
pub enum Error {
    /// The journal refused an operation, or its storage failed.
    Journal(String),
    /// A value could not be turned into JSON, or back.
    Serde(String),
    /// Input or output failed.
    Io(String),
    /// A tool or a language model failed.
    Tool(String),
    /// The named cap (tokens, usd or wallclock) is exceeded.
    BudgetExceeded(&'static str),
    /// The workflow was cancelled.
    Cancelled,
}

/// Shorthand for results of the runtime.
pub type Result<T> = std::result::Result<T, Error>;

/// What an [`Error`] holds.
pub enum ErrorView {
    Journal(Seq<char>),
    Serde(Seq<char>),
    Io(Seq<char>),
    Tool(Seq<char>),
    BudgetExceeded(Seq<char>),
    Cancelled,
}

impl View for Error {
    type V = ErrorView;

    open spec fn view(&self) -> ErrorView {
        match self {
            Error::Journal(text) => ErrorView::Journal(text@),
            Error::Serde(text) => ErrorView::Serde(text@),
            Error::Io(text) => ErrorView::Io(text@),
            Error::Tool(text) => ErrorView::Tool(text@),
            Error::BudgetExceeded(field) => ErrorView::BudgetExceeded(field@),
            Error::Cancelled => ErrorView::Cancelled,
        }
    }
}

/// What a result holds.
pub open spec fn viewed<T: View>(outcome: Result<T>) -> std::result::Result<T::V, ErrorView> {
    match outcome {
        Ok(value) => Ok(value@),
        Err(error) => Err(error@),
    }
}

impl ErrorView {
    /// The message that is shown and journaled for an error.
    pub open spec fn message(self) -> Seq<char> {
        match self {
            ErrorView::Journal(text) => "journal error: "@ + text,
            ErrorView::Serde(text) => "serialization error: "@ + text,
            ErrorView::Io(text) => "io error: "@ + text,
            ErrorView::Tool(text) => "tool failed: "@ + text,
            ErrorView::BudgetExceeded(field) => "budget exceeded: "@ + field,
            ErrorView::Cancelled => "cancelled"@,
        }
    }
}

impl Error {
    /// The message that is shown and journaled for this error.
    pub fn message(&self) -> (text: String)
        ensures
            text@ == self@.message(),
    {
        match self {
            Error::Journal(text) => labelled("journal error: ", text),
            Error::Serde(text) => labelled("serialization error: ", text),
            Error::Io(text) => labelled("io error: ", text),
            Error::Tool(text) => labelled("tool failed: ", text),
            Error::BudgetExceeded(field) => labelled("budget exceeded: ", field),
            Error::Cancelled => "cancelled".to_owned(),
        }
    }
}

/// `label` followed by `text`.
pub(crate) fn labelled(label: &str, text: &str) -> (out: String)
    ensures
        out@ == label@ + text@,
{
    let mut out = label.to_owned();
    out.append(text);
    out
}

/// The message of an error says what kind it is, and what it holds.
pub proof fn law_message_tells_the_kind(text: Seq<char>)
    ensures
        ErrorView::Journal(text).message() == "journal error: "@ + text,
        ErrorView::Serde(text).message() == "serialization error: "@ + text,
        ErrorView::Io(text).message() == "io error: "@ + text,
        ErrorView::Tool(text).message() == "tool failed: "@ + text,
        ErrorView::BudgetExceeded(text).message() == "budget exceeded: "@ + text,
        ErrorView::Cancelled.message() == "cancelled"@,
{
}

/// What an error is taken for is its kind and its text, and both are kept.
pub proof fn law_error_view_keeps_kind_and_text(error: Error)
    ensures
        match error {
            Error::Journal(text) => error@ == ErrorView::Journal(text@),
            Error::Serde(text) => error@ == ErrorView::Serde(text@),
            Error::Io(text) => error@ == ErrorView::Io(text@),
            Error::Tool(text) => error@ == ErrorView::Tool(text@),
            Error::BudgetExceeded(field) => error@ == ErrorView::BudgetExceeded(field@),
            Error::Cancelled => error@ == ErrorView::Cancelled,
        },
{
}

/// What a result is taken for is its value or its error, as they are taken.
pub proof fn law_result_view_keeps_the_result<T: View>(outcome: Result<T>)
    ensures
        match outcome {
            Ok(value) => viewed(outcome) == Ok::<T::V, ErrorView>(value@),
            Err(error) => viewed(outcome) == Err::<T::V, ErrorView>(error@),
        },
{
}

} // verus!
