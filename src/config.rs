use vstd::prelude::*;

verus! {

/// Trailing silence that ends an utterance, in milliseconds.
pub const DEFAULT_MIN_SILENCE_MS: u32 = 1000;

/// Speech needed before an utterance can end, in milliseconds.
pub const DEFAULT_MIN_SPEECH_MS: u32 = 500;

/// Directory of the recognition model files when none is configured.
pub fn default_model_dir() -> (r: String)
    ensures
        r@ == "./models"@,
{
    String::from_str("./models")
}

/// Name of the dictation hotkey when none is configured.
pub fn default_hotkey() -> (r: String)
    ensures
        r@ == "F3"@,
{
    String::from_str("F3")
}

} // verus!
