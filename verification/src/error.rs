//! Errors as the application reports them.

use vstd::prelude::*;
use crate::text::{opt_chars, push_text};

verus! {

/// The kind of an error.
#[derive(Debug, Clone, Copy, PartialEq, Eq, Structural)]
pub enum ErrorCategory {
    Settings,
    Audio,
    Model,
    Transcription,
    Network,
    Validation,
    State,
    Filesystem,
    Permission,
    Unknown,
}

/// An error with what the user is told about it.
#[derive(Debug, Clone)]
pub struct HandyError {
    pub category: ErrorCategory,
    pub message: String,
    pub details: Option<String>,
    /// Whether the user can go on after the error.
    pub recoverable: bool,
    /// What the user can do about the error.
    pub suggestion: Option<String>,
}

/// An error as plain values.
pub struct ErrorView {
    pub category: ErrorCategory,
    pub message: Seq<char>,
    pub details: Option<Seq<char>>,
    pub recoverable: bool,
    pub suggestion: Option<Seq<char>>,
}

impl View for HandyError {
    type V = ErrorView;

    open spec fn view(&self) -> ErrorView {
        ErrorView {
            category: self.category,
            message: self.message@,
            details: opt_chars(self.details),
            recoverable: self.recoverable,
            suggestion: opt_chars(self.suggestion),
        }
    }
}

/// A bare error: no details, no suggestion, not recoverable.
pub open spec fn bare_error(category: ErrorCategory, message: Seq<char>) -> ErrorView {
    ErrorView { category, message, details: None, recoverable: false, suggestion: None }
}

/// The line shown for an error: the message, and after a colon the details if there
/// are any.
pub open spec fn error_text(e: ErrorView) -> Seq<char> {
    match e.details {
        Some(d) => e.message + ": "@ + d,
        None => e.message,
    }
}

impl HandyError {
    /// A bare error of the given kind.
    pub fn new(category: ErrorCategory, message: &str) -> (e: HandyError)
        ensures
            e@ == bare_error(category, message@),
    {
        HandyError {
            category,
            message: message.to_owned(),
            details: None,
            recoverable: false,
            suggestion: None,
        }
    }

    pub fn settings(message: &str) -> (e: HandyError)
        ensures
            e@ == bare_error(ErrorCategory::Settings, message@),
    {
        Self::new(ErrorCategory::Settings, message)
    }

    pub fn audio(message: &str) -> (e: HandyError)
        ensures
            e@ == bare_error(ErrorCategory::Audio, message@),
    {
        Self::new(ErrorCategory::Audio, message)
    }

    pub fn model(message: &str) -> (e: HandyError)
        ensures
            e@ == bare_error(ErrorCategory::Model, message@),
    {
        Self::new(ErrorCategory::Model, message)
    }

    pub fn transcription(message: &str) -> (e: HandyError)
        ensures
            e@ == bare_error(ErrorCategory::Transcription, message@),
    {
        Self::new(ErrorCategory::Transcription, message)
    }

    pub fn network(message: &str) -> (e: HandyError)
        ensures
            e@ == bare_error(ErrorCategory::Network, message@),
    {
        Self::new(ErrorCategory::Network, message)
    }

    pub fn validation(message: &str) -> (e: HandyError)
        ensures
            e@ == bare_error(ErrorCategory::Validation, message@),
    {
        Self::new(ErrorCategory::Validation, message)
    }

    pub fn state(message: &str) -> (e: HandyError)
        ensures
            e@ == bare_error(ErrorCategory::State, message@),
    {
        Self::new(ErrorCategory::State, message)
    }

    pub fn filesystem(message: &str) -> (e: HandyError)
        ensures
            e@ == bare_error(ErrorCategory::Filesystem, message@),
    {
        Self::new(ErrorCategory::Filesystem, message)
    }

    pub fn permission(message: &str) -> (e: HandyError)
        ensures
            e@ == bare_error(ErrorCategory::Permission, message@),
    {
        Self::new(ErrorCategory::Permission, message)
    }

    pub fn unknown(message: &str) -> (e: HandyError)
        ensures
            e@ == bare_error(ErrorCategory::Unknown, message@),
    {
        Self::new(ErrorCategory::Unknown, message)
    }

    /// The error with `details` in place of any it had.
    pub fn with_details(self, details: &str) -> (e: HandyError)
        ensures
            e@ == (ErrorView { details: Some(details@), ..self@ }),
    {
        let mut e = self;
        e.details = Some(details.to_owned());
        e
    }

    /// The error, marked as one the user can go on after.
    pub fn recoverable(self) -> (e: HandyError)
        ensures
            e@ == (ErrorView { recoverable: true, ..self@ }),
    {
        let mut e = self;
        e.recoverable = true;
        e
    }

    /// The error with `suggestion` in place of any it had.
    pub fn with_suggestion(self, suggestion: &str) -> (e: HandyError)
        ensures
            e@ == (ErrorView { suggestion: Some(suggestion@), ..self@ }),
    {
        let mut e = self;
        e.suggestion = Some(suggestion.to_owned());
        e
    }

    /// The line shown for the error.
    pub fn to_string(&self) -> (s: String)
        ensures
            s@ == error_text(self@),
    {
        let mut s = self.message.clone();
        match &self.details {
            Some(d) => {
                push_text(&mut s, ": ");
                push_text(&mut s, d.as_str());
            },
            None => {},
        }
        s
    }

    /// The error that stands for a failed lock: of the kind `State`, with `what` as its
    /// message and the cause as its details.
    pub fn lock_failed(what: &str, cause: &str) -> (e: HandyError)
        ensures
            e@ == (ErrorView { details: Some(cause@), ..bare_error(ErrorCategory::State, what@) }),
    {
        Self::state(what).with_details(cause)
    }
}

impl vstd::std_specs::convert::FromSpecImpl<&str> for HandyError {
    open spec fn obeys_from_spec() -> bool {
        false
    }

    open spec fn from_spec(message: &str) -> Self {
        arbitrary()
    }
}

impl vstd::std_specs::convert::FromSpecImpl<String> for HandyError {
    open spec fn obeys_from_spec() -> bool {
        true
    }

    open spec fn from_spec(message: String) -> Self {
        HandyError {
            category: ErrorCategory::Unknown,
            message,
            details: None,
            recoverable: false,
            suggestion: None,
        }
    }
}

impl From<&str> for HandyError {
    fn from(message: &str) -> (e: Self)
        ensures
            e@ == bare_error(ErrorCategory::Unknown, message@),
    {
        HandyError::unknown(message)
    }
}

impl From<String> for HandyError {
    fn from(message: String) -> (e: Self)
        ensures
            e@ == bare_error(ErrorCategory::Unknown, message@),
    {
        HandyError {
            category: ErrorCategory::Unknown,
            message,
            details: None,
            recoverable: false,
            suggestion: None,
        }
    }
}

} // verus!
