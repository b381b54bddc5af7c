//! What the transcription engine reports and when its model is unloaded.

use vstd::prelude::*;
use crate::settings::ModelUnloadTimeout;
use crate::text::push_text;

verus! {

/// Why a transcription failed.
#[derive(Debug, Clone, PartialEq, Eq)]
pub enum TranscriptionError {
    /// No model is loaded.
    ModelNotLoaded,
    /// The model could not decode the audio.
    DecodeFailed(String),
    /// The transcription was cancelled. This is no failure to report.
    Cancelled,
}

/// The words in which a failure is reported.
pub open spec fn transcription_error_text(e: TranscriptionError) -> Seq<char> {
    match e {
        TranscriptionError::ModelNotLoaded => "Model not loaded"@,
        TranscriptionError::DecodeFailed(msg) => "Decode failed: "@ + msg@,
        TranscriptionError::Cancelled => "Cancelled"@,
    }
}

impl TranscriptionError {
    /// The words in which the failure is reported.
    pub fn to_string(&self) -> (s: String)
        ensures
            s@ == transcription_error_text(*self),
    {
        match self {
            TranscriptionError::ModelNotLoaded => "Model not loaded".to_owned(),
            TranscriptionError::DecodeFailed(msg) => {
                let mut s = "Decode failed: ".to_owned();
                push_text(&mut s, msg.as_str());
                s
            },
            TranscriptionError::Cancelled => "Cancelled".to_owned(),
        }
    }

    /// Whether the failure is passed over in silence.
    pub fn is_cancelled(&self) -> (b: bool)
        ensures
            b == (*self is Cancelled),
    {
        match self {
            TranscriptionError::Cancelled => true,
            _ => false,
        }
    }
}

/// Whether a model that has been idle for `idle_seconds` is unloaded: never under
/// `Never`, after every call under `Immediately`, and otherwise once it has been idle
/// for the time set.
pub open spec fn unload_due(timeout: ModelUnloadTimeout, idle_seconds: u64) -> bool {
    match timeout.seconds() {
        None => false,
        Some(limit) => timeout == ModelUnloadTimeout::Immediately || idle_seconds >= limit,
    }
}

/// Whether a model that has been idle for `idle_seconds` is unloaded.
pub fn should_unload(timeout: ModelUnloadTimeout, idle_seconds: u64) -> (due: bool)
    ensures
        due == unload_due(timeout, idle_seconds),
{
    match timeout.to_seconds() {
        None => false,
        Some(limit) => idle_seconds >= limit,
    }
}

/// Under `Never` the model stays loaded however long it is idle; under `Immediately`
/// it is unloaded at once.
pub proof fn lemma_unload_extremes(idle_seconds: u64)
    ensures
        !unload_due(ModelUnloadTimeout::Never, idle_seconds),
        unload_due(ModelUnloadTimeout::Immediately, idle_seconds),
{
}

/// A model that is due to be unloaded stays due while it stays idle.
pub proof fn lemma_unload_is_monotone(timeout: ModelUnloadTimeout, earlier: u64, later: u64)
    requires
        earlier <= later,
        unload_due(timeout, earlier),
    ensures
        unload_due(timeout, later),
{
}

} // verus!
