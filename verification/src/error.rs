use vstd::prelude::*;

verus! {

/// What can go wrong between text and audio. Each kind can be told from the
/// others by the caller.
#[derive(Debug)]
pub enum KokoroError {
    /// The external phonemizer program is not installed.
    EspeakNotFound,
    /// Phonemization ran and failed; the text says how.
    Phonemize(String),
    /// The text gave no token the model knows.
    EmptyTokenization,
    /// No voice of this name is in the store.
    UnknownVoice(String),
    /// A style row was asked for a token count the voice has no row for.
    VoiceIndexOutOfRange(usize),
    /// Voice data could not be loaded: malformed or of the wrong size.
    Voice(String),
    /// The model could not be loaded.
    ModelLoad(String),
    /// The model failed while it ran.
    Model(String),
    /// An audio, model or voice file could not be read or written.
    Audio(String),
}

} // verus!
