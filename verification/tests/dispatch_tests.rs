use chat_inference::dispatch::{dispatch, Route};
use chat_inference::error::{load_failure_kind, EngineError};
use chat_inference::text::contains_text;
use chat_inference::pipeline::Family;

#[test]
fn registered_identifiers_select_their_family() {
    assert_eq!(dispatch("karpathy/tinyllamas"), Ok(Route::Local(Family::LlamaC)));
    assert_eq!(dispatch("meta-llama/Llama-2-7b-chat-hf"), Ok(Route::Local(Family::QuantizedLlama)));
    assert_eq!(dispatch("microsoft/phi-1_5"), Ok(Route::Local(Family::QuantizedPhi)));
}

#[test]
fn addresses_go_to_the_hosted_interface() {
    assert_eq!(
        dispatch("https://api-inference.huggingface.co/models/tiiuae/falcon-180B-chat"),
        Ok(Route::Remote)
    );
    assert_eq!(dispatch("https://"), Ok(Route::Remote));
    assert_eq!(dispatch("https://karpathy/tinyllamas"), Ok(Route::Remote));
}

#[test]
fn unknown_identifiers_are_not_found() {
    for id in [
        "",
        "karpathy/tinyllamas ",
        "karpathy/tinyllama",
        "Karpathy/tinyllamas",
        "microsoft/phi-2",
        "http://example.org",
        "https:/",
        "tiiuae/falcon-180B-chat",
    ] {
        assert_eq!(dispatch(id), Err(EngineError::ModelNotFound), "{id}");
    }
}

#[test]
fn families_name_their_files() {
    let w = Family::LlamaC.weights_file();
    assert_eq!((w.repo.as_str(), w.filename.as_str()), ("karpathy/tinyllamas", "stories15M.bin"));
    assert_eq!(w.revision, None);
    let w = Family::QuantizedLlama.weights_file();
    assert_eq!(
        (w.repo.as_str(), w.filename.as_str()),
        ("TheBloke/Llama-2-7B-Chat-GGML", "llama-2-7b-chat.ggmlv3.q4_0.bin")
    );
    let w = Family::QuantizedPhi.weights_file();
    assert_eq!((w.repo.as_str(), w.filename.as_str()), ("lmz/candle-quantized-phi", "model-q4k.gguf"));
    let t = Family::QuantizedPhi.tokenizer_file();
    assert_eq!((t.repo.as_str(), t.filename.as_str()), ("microsoft/phi-1_5", "tokenizer.json"));
    assert_eq!(t.revision, Some("refs/pr/18".to_string()));
    for f in [Family::LlamaC, Family::QuantizedLlama] {
        let t = f.tokenizer_file();
        assert_eq!(t.repo, "hf-internal-testing/llama-tokenizer");
        assert_eq!(t.filename, "tokenizer.json");
        assert_eq!(t.revision, None);
    }
}

#[test]
fn errors_describe_themselves() {
    assert_eq!(EngineError::ModelNotFound.describe(), "model not found");
    assert_eq!(EngineError::IoTruncated.describe(), "weight stream ended early");
    assert_eq!(EngineError::UnsupportedDtype.describe(), "unsupported tensor element type");
    assert_eq!(
        EngineError::ArchitectureMismatch.describe(),
        "tensor shape does not match the configuration"
    );
    assert_eq!(EngineError::NumericBackendError.describe(), "numeric backend failure");
    assert_eq!(EngineError::TokenizerError.describe(), "tokenizer failure");
    assert_eq!(EngineError::ContextOverflow.describe(), "context window exceeded");
}

#[test]
fn load_failures_are_sorted_by_their_cause() {
    assert_eq!(load_failure_kind(true, "failed to fill whole buffer"), EngineError::IoTruncated);
    assert_eq!(load_failure_kind(true, "unknown dtype for tensor 99"), EngineError::IoTruncated);
    assert_eq!(
        load_failure_kind(false, "unknown dtype for tensor 99"),
        EngineError::UnsupportedDtype
    );
    assert_eq!(load_failure_kind(false, "unknown dtype"), EngineError::UnsupportedDtype);
    assert_eq!(load_failure_kind(false, "unknown dtyp"), EngineError::NumericBackendError);
    assert_eq!(load_failure_kind(false, ""), EngineError::NumericBackendError);
    assert!(contains_text("abc", ""));
    assert!(contains_text("", ""));
    assert!(contains_text("abcabd", "abd"));
    assert!(contains_text("\u{e9}t\u{e9}", "t\u{e9}"));
    assert!(!contains_text("abcabd", "abe"));
    assert!(!contains_text("ab", "abc"));
}
