use vstd::prelude::*;
use vstd::string::StringExecFns;

verus! {

/// Why an extraction stopped.
#[derive(Debug, PartialEq, Eq)]
pub enum Error {
    /// No token was left where one was required.
    EOF,
    /// A token was there but had the wrong shape or content; the field
    /// describes what was found or what was wanted.
    Expected(String),
}

/// An [`Error`] as contracts speak of it.
pub enum ErrorView {
    EOF,
    Expected(Seq<char>),
}

impl View for Error {
    type V = ErrorView;

    open spec fn view(&self) -> ErrorView {
        match self {
            Error::EOF => ErrorView::EOF,
            Error::Expected(description) => ErrorView::Expected(description@),
        }
    }
}

impl Error {
    /// The one-line message of this error.
    pub fn message(&self) -> (text: String)
        ensures
            self is EOF ==> text@ == "End of stream reached"@,
            self is Expected ==> text@ == "Expected token"@,
    {
        match self {
            Error::EOF => String::from_str("End of stream reached"),
            Error::Expected(_) => String::from_str("Expected token"),
        }
    }
}

} // verus!
