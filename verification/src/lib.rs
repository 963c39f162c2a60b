//! Text to speech with a small neural model: phonemes, tokens, voices and the
//! chunking of long text, together with the rules of the story application
//! around them.

pub mod archive;
pub mod audio;
pub mod commands;
pub mod engine;
pub mod error;
pub mod espeak;
pub mod health;
pub mod lex;
pub mod mixer;
pub mod models;
pub mod music;
pub mod ollama;
pub mod paths;
pub mod phonemize;
pub mod pipeline;
pub mod prompts;
pub mod segments;
pub mod sentences;
pub mod store;
pub mod synth;
pub mod text;
pub mod tokenize;
pub mod tts;
pub mod voices;

pub use error::KokoroError;
pub use sentences::split_sentences;
