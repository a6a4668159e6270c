//! The registry of model identifiers: which family serves an identifier, and
//! where its files are kept.

use vstd::prelude::*;
use crate::error::EngineError;
use crate::text::has_prefix;
use crate::text::same_text;
use crate::text::starts_with;
use crate::pipeline::Family;

verus! {

/// Where a request for a model goes.
#[derive(Clone, Copy, Debug, PartialEq, Eq, Structural)]
pub enum Route {
    /// To the hosted interface at the address that the identifier gives.
    Remote,
    /// To a model of the given family, run here.
    Local(Family),
}

/// The route of an identifier: an address of the hosted interface, one of the
/// three registered models, or none.
pub open spec fn route_of(model_id: Seq<char>) -> Option<Route> {
    if has_prefix(model_id, "https://"@) {
        Some(Route::Remote)
    } else if model_id == "karpathy/tinyllamas"@ {
        Some(Route::Local(Family::LlamaC))
    } else if model_id == "meta-llama/Llama-2-7b-chat-hf"@ {
        Some(Route::Local(Family::QuantizedLlama))
    } else if model_id == "microsoft/phi-1_5"@ {
        Some(Route::Local(Family::QuantizedPhi))
    } else {
        None
    }
}

/// Selects the route of a model identifier; an identifier that the registry
/// does not know is not found.
pub fn dispatch(model_id: &str) -> (r: Result<Route, EngineError>)
    ensures
        match route_of(model_id@) {
            Some(route) => r == Ok::<Route, EngineError>(route),
            None => r == Err::<Route, EngineError>(EngineError::ModelNotFound),
        },
{
    if starts_with(model_id, "https://") {
        Ok(Route::Remote)
    } else if same_text(model_id, "karpathy/tinyllamas") {
        Ok(Route::Local(Family::LlamaC))
    } else if same_text(model_id, "meta-llama/Llama-2-7b-chat-hf") {
        Ok(Route::Local(Family::QuantizedLlama))
    } else if same_text(model_id, "microsoft/phi-1_5") {
        Ok(Route::Local(Family::QuantizedPhi))
    } else {
        Err(EngineError::ModelNotFound)
    }
}

/// A file of a repository of the model hub.
pub struct HubFile {
    /// The repository.
    pub repo: String,
    /// The revision, where it is not the default one.
    pub revision: Option<String>,
    /// The file.
    pub filename: String,
}

impl Family {
    /// The file that holds the weights of the family's model.
    pub fn weights_file(self) -> (f: HubFile)
        ensures
            f.revision is None,
            self == Family::LlamaC ==> f.repo@ == "karpathy/tinyllamas"@ && f.filename@
                == "stories15M.bin"@,
            self == Family::QuantizedLlama ==> f.repo@ == "TheBloke/Llama-2-7B-Chat-GGML"@
                && f.filename@ == "llama-2-7b-chat.ggmlv3.q4_0.bin"@,
            self == Family::QuantizedPhi ==> f.repo@ == "lmz/candle-quantized-phi"@ && f.filename@
                == "model-q4k.gguf"@,
    {
        match self {
            Family::LlamaC => HubFile {
                repo: "karpathy/tinyllamas".to_string(),
                revision: None,
                filename: "stories15M.bin".to_string(),
            },
            Family::QuantizedLlama => HubFile {
                repo: "TheBloke/Llama-2-7B-Chat-GGML".to_string(),
                revision: None,
                filename: "llama-2-7b-chat.ggmlv3.q4_0.bin".to_string(),
            },
            Family::QuantizedPhi => HubFile {
                repo: "lmz/candle-quantized-phi".to_string(),
                revision: None,
                filename: "model-q4k.gguf".to_string(),
            },
        }
    }

    /// The file that holds the tokenizer of the family's model.
    pub fn tokenizer_file(self) -> (f: HubFile)
        ensures
            f.filename@ == "tokenizer.json"@,
            self == Family::QuantizedPhi ==> f.repo@ == "microsoft/phi-1_5"@ && (
            f.revision matches Some(r) && r@ == "refs/pr/18"@),
            self != Family::QuantizedPhi ==> f.repo@ == "hf-internal-testing/llama-tokenizer"@
                && f.revision is None,
    {
        match self {
            Family::QuantizedPhi => HubFile {
                repo: "microsoft/phi-1_5".to_string(),
                revision: Some("refs/pr/18".to_string()),
                filename: "tokenizer.json".to_string(),
            },
            _ => HubFile {
                repo: "hf-internal-testing/llama-tokenizer".to_string(),
                revision: None,
                filename: "tokenizer.json".to_string(),
            },
        }
    }
}

} // verus!
