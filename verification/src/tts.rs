use vstd::prelude::*;
use vstd::string::StringExecFns;
use std::path::PathBuf;

verus! {

/// The voice that is used when none is asked for.
pub const DEFAULT_VOICE: &'static str = "af_nova";

/// The language in which stories are spoken.
pub const SPEECH_LANGUAGE: &'static str = "en-us";

/// Turns text into speech with the model under the models directory.
pub struct TtsService {
    pub models_dir: PathBuf,
}

/// The directory of the speech model, under the models directory.
pub const MODEL_DIR: &'static str = "kokoro";

/// The file of the speech model, in its directory.
pub const MODEL_FILE: &'static str = "model_quantized.onnx";

/// The directory of the voices, in the directory of the speech model.
pub const VOICES_DIR: &'static str = "voices";

impl TtsService {
    /// A service that finds its model under `models_dir`.
    pub fn new(models_dir: PathBuf) -> (service: TtsService)
        ensures
            service.models_dir == models_dir,
    {
        TtsService { models_dir }
    }

    /// The voice to speak in: the one asked for, or `DEFAULT_VOICE`.
    pub fn voice_or_default(voice: Option<&str>) -> (name: String)
        ensures
            name@ == (match voice {
                Some(v) => v@,
                None => DEFAULT_VOICE@,
            }),
    {
        match voice {
            Some(v) => String::from_str(v),
            None => String::from_str(DEFAULT_VOICE),
        }
    }
}

} // verus!
