//! Speech capture and reasoning engine: the verified core.

pub mod active_listening;
pub mod ask_ai;
pub mod chunker;
pub mod clock;
pub mod decoder;
pub mod devices;
pub mod diarization;
pub mod error;
pub mod export;
pub mod history;
pub mod json;
pub mod listening_settings;
pub mod mixer;
pub mod post_process;
pub mod recorder;
pub mod recording;
pub mod resample;
pub mod settings;
pub mod shortcuts;
pub mod stream;
pub mod suggestions;
pub mod summary;
pub mod tasks;
pub mod template;
pub mod text;
pub mod transcription;
pub mod vad;
pub mod vector_store;
