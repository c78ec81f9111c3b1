//! Transcription of audio.

use vstd::prelude::*;

verus! {

/// A request for a transcription. Only the model is read; all of it goes to
/// the upstream.
#[derive(Debug)]
pub struct TranscriptionEnvelope {
    /// The service that transcribes.
    pub model: String,
    /// The audio.
    pub file: String,
    /// How the answer is written.
    pub response_format: Option<String>,
}

} // verus!
