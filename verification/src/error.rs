//! Why a request cannot be built or a load test cannot be run.
use crate::i18n::{t, wording, I18nKey, Language};
use crate::text::{labelled, labelled_text};
use vstd::prelude::*;

verus! {

/// What is wrong with a request or with the settings of a load test.
#[derive(Debug)]
pub enum RequestError {
    /// The fault that `key` names.
    Fault { language: Language, key: I18nKey },
    /// The fault that `key` names, found in the header called `name`.
    HeaderFault { language: Language, key: I18nKey, name: String },
    /// The host of the URL cannot stand in a header.
    HostHeader,
    /// There are more headers than a request can hold.
    TooManyHeaders,
}

/// A `RequestError` with its texts as character sequences.
pub enum ErrorView {
    Fault(Language, I18nKey),
    HeaderFault(Language, I18nKey, Seq<char>),
    HostHeader,
    TooManyHeaders,
}

impl View for RequestError {
    type V = ErrorView;

    open spec fn view(&self) -> ErrorView {
        match *self {
            RequestError::Fault { language, key } => ErrorView::Fault(language, key),
            RequestError::HeaderFault { language, key, name } => ErrorView::HeaderFault(
                language,
                key,
                name@,
            ),
            RequestError::HostHeader => ErrorView::HostHeader,
            RequestError::TooManyHeaders => ErrorView::TooManyHeaders,
        }
    }
}

/// The same error, worded in `language`.
pub open spec fn in_language(error: ErrorView, language: Language) -> ErrorView {
    match error {
        ErrorView::Fault(_, key) => ErrorView::Fault(language, key),
        ErrorView::HeaderFault(_, key, name) => ErrorView::HeaderFault(language, key, name),
        _ => error,
    }
}

/// What the user reads of an error.
pub open spec fn error_text(error: ErrorView) -> Seq<char> {
    match error {
        ErrorView::Fault(language, key) => wording(language, key),
        ErrorView::HeaderFault(language, key, name) => labelled_text(wording(language, key), name),
        ErrorView::HostHeader => "failed to parse header value"@,
        ErrorView::TooManyHeaders => "max size reached"@,
    }
}

impl RequestError {
    /// The text that the user reads.
    pub fn message(&self) -> (r: String)
        ensures
            r@ == error_text(self@),
    {
        match self {
            RequestError::Fault { language, key } => t(*language, *key).to_owned(),
            RequestError::HeaderFault { language, key, name } => labelled(
                t(*language, *key),
                name.as_str(),
            ),
            RequestError::HostHeader => "failed to parse header value".to_owned(),
            RequestError::TooManyHeaders => "max size reached".to_owned(),
        }
    }
}

} // verus!
