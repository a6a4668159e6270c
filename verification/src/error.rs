use vstd::prelude::*;
use crate::text::contains_text;
use crate::text::has_part;

verus! {

/// Everything that can end a load or a generation step early.
#[derive(Clone, Copy, Debug, PartialEq, Eq, Structural)]
pub enum EngineError {
    /// The weight stream ended before a declared tensor was fully read.
    IoTruncated,
    /// A tensor is stored in an element type the engine does not know.
    UnsupportedDtype,
    /// A tensor's shape disagrees with the hyperparameters of the header.
    ArchitectureMismatch,
    /// The numeric backend failed inside a forward pass or while sampling.
    NumericBackendError,
    /// The tokenizer failed to encode or decode.
    TokenizerError,
    /// No model family is registered under the identifier.
    ModelNotFound,
    /// The tokens of a forward pass do not fit in the model's context window.
    ContextOverflow,
}

/// The kind of a failure to read a weight container, told from whether the
/// stream ended early and from the reader's words: a stream that ended
/// early is truncated, an element type that the reader does not know is
/// unsupported, and every other failure is the backend's.
pub open spec fn load_failure_of(ended_early: bool, words: Seq<char>) -> EngineError {
    if ended_early {
        EngineError::IoTruncated
    } else if has_part(words, "unknown dtype"@) {
        EngineError::UnsupportedDtype
    } else {
        EngineError::NumericBackendError
    }
}

/// Sorts a failure to read a weight container into the engine's kinds.
pub fn load_failure_kind(ended_early: bool, words: &str) -> (e: EngineError)
    ensures
        e == load_failure_of(ended_early, words@),
{
    if ended_early {
        EngineError::IoTruncated
    } else if contains_text(words, "unknown dtype") {
        EngineError::UnsupportedDtype
    } else {
        EngineError::NumericBackendError
    }
}

impl EngineError {
    /// A short human-readable description of the error.
    pub fn describe(&self) -> (text: String)
        ensures
            text@ == self.message(),
    {
        match self {
            EngineError::IoTruncated => "weight stream ended early".to_string(),
            EngineError::UnsupportedDtype => "unsupported tensor element type".to_string(),
            EngineError::ArchitectureMismatch => "tensor shape does not match the configuration".to_string(),
            EngineError::NumericBackendError => "numeric backend failure".to_string(),
            EngineError::TokenizerError => "tokenizer failure".to_string(),
            EngineError::ModelNotFound => "model not found".to_string(),
            EngineError::ContextOverflow => "context window exceeded".to_string(),
        }
    }

    /// The text that [`EngineError::describe`] returns.
    pub open spec fn message(&self) -> Seq<char> {
        match self {
            EngineError::IoTruncated => "weight stream ended early"@,
            EngineError::UnsupportedDtype => "unsupported tensor element type"@,
            EngineError::ArchitectureMismatch => "tensor shape does not match the configuration"@,
            EngineError::NumericBackendError => "numeric backend failure"@,
            EngineError::TokenizerError => "tokenizer failure"@,
            EngineError::ModelNotFound => "model not found"@,
            EngineError::ContextOverflow => "context window exceeded"@,
        }
    }
}

} // verus!
