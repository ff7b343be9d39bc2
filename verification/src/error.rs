//! What can go wrong between reading the configuration and posting the
//! payload.

use vstd::prelude::*;

verus! {

/// A failure of resolving the channel or of sending to it.
#[derive(Clone, Debug, PartialEq, Eq)]
pub enum EmissaryError {
    /// The configuration file is missing or cannot be read.
    ConfigNotFound,
    /// The configuration text is malformed.
    ConfigParseError,
    /// The configuration has no section of this name.
    MissingSection(String),
    /// A section lacks the required key of this name.
    MissingKey(String),
    /// The channel's `data` value is not JSON.
    DataParseError,
    /// The request did not complete; the detail is the transport's message.
    TransportError(String),
}

/// The mathematical value of an [`EmissaryError`].
pub enum ErrorView {
    ConfigNotFound,
    ConfigParseError,
    MissingSection(Seq<char>),
    MissingKey(Seq<char>),
    DataParseError,
    TransportError(Seq<char>),
}

impl View for EmissaryError {
    type V = ErrorView;

    open spec fn view(&self) -> ErrorView {
        match self {
            EmissaryError::ConfigNotFound => ErrorView::ConfigNotFound,
            EmissaryError::ConfigParseError => ErrorView::ConfigParseError,
            EmissaryError::MissingSection(name) => ErrorView::MissingSection(name@),
            EmissaryError::MissingKey(name) => ErrorView::MissingKey(name@),
            EmissaryError::DataParseError => ErrorView::DataParseError,
            EmissaryError::TransportError(detail) => ErrorView::TransportError(detail@),
        }
    }
}

/// The text shown for an error.
pub open spec fn error_text(e: ErrorView) -> Seq<char> {
    match e {
        ErrorView::ConfigNotFound => "configuration file not found"@,
        ErrorView::ConfigParseError => "configuration file is malformed"@,
        ErrorView::MissingSection(name) => "section not found: "@ + name,
        ErrorView::MissingKey(name) => "key not found: "@ + name,
        ErrorView::DataParseError => "could not parse data"@,
        ErrorView::TransportError(detail) => detail,
    }
}

impl EmissaryError {
    /// The text shown for the error. A transport error shows the
    /// transport's own message.
    pub fn message(&self) -> (r: String)
        ensures
            r@ == error_text(self@),
    {
        match self {
            EmissaryError::ConfigNotFound => "configuration file not found".to_owned(),
            EmissaryError::ConfigParseError => "configuration file is malformed".to_owned(),
            EmissaryError::MissingSection(name) => {
                "section not found: ".to_owned().concat(name.as_str())
            },
            EmissaryError::MissingKey(name) => "key not found: ".to_owned().concat(name.as_str()),
            EmissaryError::DataParseError => "could not parse data".to_owned(),
            EmissaryError::TransportError(detail) => detail.clone(),
        }
    }
}

} // verus!
