use kokoro_tts::audio::{boost_peak, TARGET_PEAK};
use kokoro_tts::store::VoiceStore;
use kokoro_tts::synth::{create, synthesize, Action, Stage, Synthesis};
use kokoro_tts::tokenize::tokenize;
use kokoro_tts::voices::{Voice, EXPECTED_FLOATS};
use kokoro_tts::KokoroError;
use std::cell::RefCell;

fn store() -> VoiceStore {
    let data: Vec<u32> = (0..EXPECTED_FLOATS).map(|i| (i as f32).to_bits()).collect();
    let mut store = VoiceStore::new();
    store.insert("af_nova", Voice::new(data).unwrap());
    store
}

fn spoken(text: &str) -> Result<String, KokoroError> {
    Ok(text.to_string())
}

fn two_sentences_of_520_tokens() -> String {
    let text = format!("{}. {}.", "a".repeat(259), "b".repeat(258));
    assert_eq!(text.chars().count(), 520);
    text
}

#[test]
fn a_long_text_of_two_sentences_is_synthesized_in_two_chunks() {
    let voices = store();
    let text = two_sentences_of_520_tokens();
    assert_eq!(tokenize(&text).len(), 510);
    let calls: RefCell<Vec<(usize, f32, usize)>> = RefCell::new(Vec::new());
    let model = |ids: &[i64], style: &[u32]| -> Result<Vec<f32>, KokoroError> {
        let samples = vec![0.01 * (calls.borrow().len() + 1) as f32; ids.len() * 3];
        calls.borrow_mut().push((ids.len(), f32::from_bits(style[0]), samples.len()));
        Ok(samples)
    };
    let mut samples = synthesize(&text, "af_nova", &voices, &spoken, &model).unwrap();
    let calls = calls.into_inner();
    assert_eq!(calls.len(), 2);
    assert_eq!(calls[0].0, 262);
    assert_eq!(calls[0].1, (260 * 256) as f32);
    assert_eq!(calls[1].0, 261);
    assert_eq!(calls[1].1, (259 * 256) as f32);
    assert_eq!(samples.len(), calls[0].2 + calls[1].2);
    assert!(samples[..calls[0].2].iter().all(|s| *s == 0.01));
    assert!(samples[calls[0].2..].iter().all(|s| *s == 0.02));
    let bits: Vec<u32> = samples.iter().map(|s| s.to_bits()).collect();
    let peak = boost_peak(&bits, 0.95f32.to_bits()).map(f32::from_bits).unwrap();
    assert_eq!(peak, 0.02);
    for s in samples.iter_mut() {
        *s *= 0.95 / peak;
    }
    assert_eq!(samples.len(), calls[0].2 + calls[1].2);
    assert!((samples.iter().fold(0.0f32, |m, s| m.max(s.abs())) - 0.95).abs() < 0.001);
}

#[test]
fn the_steps_of_a_long_text_are_probe_flush_and_chunk() {
    let voices = store();
    let text = two_sentences_of_520_tokens();
    let first = format!("{}.", "a".repeat(259));
    let second = format!("{}.", "b".repeat(258));
    let (mut synthesis, action) = Synthesis::start(&text, "af_nova");
    assert_eq!(synthesis.current_stage(), Stage::Whole);
    assert!(matches!(&action, Action::Phonemize(t) if *t == text));
    let action = synthesis.phonemes(&text, &voices).unwrap();
    assert_eq!(synthesis.current_stage(), Stage::Probe);
    assert!(matches!(&action, Action::Phonemize(t) if *t == first));
    let action = synthesis.phonemes(&first, &voices).unwrap();
    assert_eq!(synthesis.current_stage(), Stage::Probe);
    assert!(matches!(&action, Action::Phonemize(t) if *t == text));
    let action = synthesis.phonemes(&text, &voices).unwrap();
    assert_eq!(synthesis.current_stage(), Stage::Flush);
    assert!(matches!(&action, Action::Phonemize(t) if *t == first));
    let action = synthesis.phonemes(&first, &voices).unwrap();
    assert_eq!(synthesis.current_stage(), Stage::Chunk);
    match &action {
        Action::Infer { input_ids, style } => {
            assert_eq!(input_ids.len(), 262);
            assert_eq!(input_ids[0], 0);
            assert_eq!(input_ids[1], 43);
            assert_eq!(input_ids[260], 4);
            assert_eq!(input_ids[261], 0);
            assert_eq!(style.len(), 256);
        }
        other => panic!("unexpected action {:?}", other),
    }
    let action = synthesis.audio();
    assert_eq!(synthesis.current_stage(), Stage::LastFlush);
    assert!(matches!(&action, Action::Phonemize(t) if *t == second));
    let action = synthesis.phonemes(&second, &voices).unwrap();
    assert_eq!(synthesis.current_stage(), Stage::LastChunk);
    assert!(matches!(&action, Action::Infer { input_ids, .. } if input_ids.len() == 261));
    let action = synthesis.audio();
    assert_eq!(synthesis.current_stage(), Stage::Done);
    assert!(matches!(action, Action::Finish));
}

#[test]
fn a_short_text_is_one_pass() {
    let voices = store();
    let model = |ids: &[i64], style: &[u32]| -> Result<Vec<u32>, KokoroError> {
        assert_eq!(ids, &[0, 50, 51, 0]);
        assert_eq!(f32::from_bits(style[0]), 512.0);
        Ok(vec![1, 2, 3])
    };
    assert_eq!(synthesize("hi", "af_nova", &voices, &spoken, &model).unwrap(), vec![1, 2, 3]);
    let (mut synthesis, _) = Synthesis::start("hi", "af_nova");
    let action = synthesis.phonemes("hi", &voices).unwrap();
    assert_eq!(synthesis.current_stage(), Stage::Single);
    assert!(matches!(action, Action::Infer { .. }));
    assert!(matches!(synthesis.audio(), Action::Finish));
    assert_eq!(synthesis.current_stage(), Stage::Done);
}

#[test]
fn a_text_without_tokens_is_an_error() {
    let voices = store();
    let model = |_: &[i64], _: &[u32]| -> Result<Vec<u32>, KokoroError> { Ok(vec![1]) };
    let r = synthesize("\u{20ac}\u{20ac}", "af_nova", &voices, &spoken, &model);
    assert!(matches!(r, Err(KokoroError::EmptyTokenization)));
    let r = synthesize("", "af_nova", &voices, &spoken, &model);
    assert!(matches!(r, Err(KokoroError::EmptyTokenization)));
}

#[test]
fn an_unknown_voice_is_an_error() {
    let voices = store();
    let model = |_: &[i64], _: &[u32]| -> Result<Vec<u32>, KokoroError> { Ok(vec![1]) };
    match synthesize("hi", "nobody", &voices, &spoken, &model) {
        Err(KokoroError::UnknownVoice(name)) => assert_eq!(name, "nobody"),
        _ => panic!("the voice should be unknown"),
    }
}

#[test]
fn a_sentence_that_fills_the_window_alone_has_no_style_row() {
    let voices = store();
    let text = format!("{}. Short.", "a".repeat(600));
    let model = |_: &[i64], _: &[u32]| -> Result<Vec<u32>, KokoroError> { Ok(vec![1]) };
    let r = synthesize(&text, "af_nova", &voices, &spoken, &model);
    assert!(matches!(r, Err(KokoroError::VoiceIndexOutOfRange(510))));
}

#[test]
fn the_errors_of_phonemizer_and_model_end_the_synthesis() {
    let voices = store();
    let model = |_: &[i64], _: &[u32]| -> Result<Vec<u32>, KokoroError> {
        Err(KokoroError::Model("ONNX inference failed".to_string()))
    };
    let r = synthesize("hi", "af_nova", &voices, &spoken, &model);
    assert!(matches!(r, Err(KokoroError::Model(m)) if m == "ONNX inference failed"));
    let silent = |_: &str| -> Result<String, KokoroError> { Err(KokoroError::EspeakNotFound) };
    let fine = |_: &[i64], _: &[u32]| -> Result<Vec<u32>, KokoroError> { Ok(vec![1]) };
    let r = synthesize("hi", "af_nova", &voices, &silent, &fine);
    assert!(matches!(r, Err(KokoroError::EspeakNotFound)));
}

#[test]
fn a_batch_without_tokens_is_passed_over() {
    let voices = store();
    let long = format!("{}.", "a".repeat(520));
    let text = format!("\u{20ac}\u{20ac}. {} \u{20ac}!", long);
    let calls = RefCell::new(0usize);
    let phonemizer = |t: &str| -> Result<String, KokoroError> {
        if t == "\u{20ac}\u{20ac}." {
            Ok(String::new())
        } else {
            Ok(t.replace('\u{20ac}', "").replace(' ', ""))
        }
    };
    let model = |ids: &[i64], _: &[u32]| -> Result<Vec<u32>, KokoroError> {
        *calls.borrow_mut() += 1;
        Ok(vec![ids.len() as u32])
    };
    let r = synthesize(&text, "af_nova", &voices, &phonemizer, &model);
    assert!(matches!(r, Err(KokoroError::VoiceIndexOutOfRange(510))));
    assert_eq!(*calls.borrow(), 0);

    let text = "\u{20ac}\u{20ac}. Hello there.";
    let (mut synthesis, _) = Synthesis::start(text, "af_nova");
    let whole = "a".repeat(600);
    let action = synthesis.phonemes(&whole, &voices).unwrap();
    assert!(matches!(&action, Action::Phonemize(t) if t == "\u{20ac}\u{20ac}."));
    let action = synthesis.phonemes("", &voices).unwrap();
    assert!(matches!(&action, Action::Phonemize(t) if t == "\u{20ac}\u{20ac}. Hello there."));
    let action = synthesis.phonemes(&whole, &voices).unwrap();
    assert_eq!(synthesis.current_stage(), Stage::Flush);
    assert!(matches!(&action, Action::Phonemize(t) if t == "\u{20ac}\u{20ac}."));
    let action = synthesis.phonemes("", &voices).unwrap();
    assert_eq!(synthesis.current_stage(), Stage::LastFlush);
    assert!(matches!(&action, Action::Phonemize(t) if t == "Hello there."));
    let action = synthesis.phonemes("hello", &voices).unwrap();
    assert_eq!(synthesis.current_stage(), Stage::LastChunk);
    assert!(matches!(&action, Action::Infer { input_ids, .. } if input_ids.len() == 7));
    assert!(matches!(synthesis.audio(), Action::Finish));
}

#[test]
fn a_synthesis_leaves_the_voice_store_as_it_was() {
    let voices = store();
    let names = voices.names();
    let row: Vec<u32> = voices.get("af_nova").unwrap().embedding(2).unwrap().to_vec();
    let model = |ids: &[i64], _: &[u32]| -> Result<Vec<u32>, KokoroError> { Ok(vec![ids.len() as u32]) };
    let first = synthesize("hi", "af_nova", &voices, &spoken, &model).unwrap();
    let second = synthesize("hi", "af_nova", &voices, &spoken, &model).unwrap();
    assert_eq!(first, second);
    assert_eq!(voices.names(), names);
    assert_eq!(voices.get("af_nova").unwrap().embedding(2).unwrap(), &row[..]);
    assert_eq!(tokenize("hi"), vec![50, 51]);
}

fn scale(sample: u32, peak: u32, target: u32) -> u32 {
    let gain = f32::from_bits(target) / f32::from_bits(peak);
    (f32::from_bits(sample) * gain).to_bits()
}

#[test]
fn speech_is_normalized_once_when_all_of_it_is_there() {
    assert_eq!(TARGET_PEAK, 0.95f32.to_bits());
    let voices = store();
    let text = two_sentences_of_520_tokens();
    let calls = RefCell::new(0usize);
    let model = |ids: &[i64], _: &[u32]| -> Result<Vec<u32>, KokoroError> {
        *calls.borrow_mut() += 1;
        let level = if *calls.borrow() == 1 { 0.1f32 } else { 0.2f32 };
        Ok(vec![level.to_bits(); ids.len()])
    };
    let audio = create(&text, "af_nova", &voices, &spoken, &model, &scale).unwrap();
    assert_eq!(*calls.borrow(), 2);
    assert_eq!(audio.len(), 262 + 261);
    let gain = 0.95f32 / 0.2;
    assert!(audio[..262].iter().all(|s| *s == (0.1f32 * gain).to_bits()));
    assert!(audio[262..].iter().all(|s| *s == (0.2f32 * gain).to_bits()));
    let loud = |ids: &[i64], _: &[u32]| -> Result<Vec<u32>, KokoroError> {
        Ok(vec![0.99f32.to_bits(); ids.len()])
    };
    let audio = create("hi", "af_nova", &voices, &spoken, &loud, &scale).unwrap();
    assert_eq!(audio, vec![0.99f32.to_bits(); 4]);
    let r = create("", "af_nova", &voices, &spoken, &loud, &scale);
    assert!(matches!(r, Err(KokoroError::EmptyTokenization)));
}

#[test]
fn a_chunk_that_fails_fails_the_whole_and_no_audio_is_returned() {
    let voices = store();
    let text = two_sentences_of_520_tokens();
    let calls = RefCell::new(0usize);
    let model = |ids: &[i64], _: &[u32]| -> Result<Vec<u32>, KokoroError> {
        *calls.borrow_mut() += 1;
        if *calls.borrow() == 2 {
            Err(KokoroError::Model("ONNX inference failed".to_string()))
        } else {
            Ok(vec![1; ids.len()])
        }
    };
    let r = synthesize(&text, "af_nova", &voices, &spoken, &model);
    assert!(matches!(r, Err(KokoroError::Model(m)) if m == "ONNX inference failed"));
    assert_eq!(*calls.borrow(), 2);

    let asked = RefCell::new(0usize);
    let tired = |t: &str| -> Result<String, KokoroError> {
        *asked.borrow_mut() += 1;
        if *asked.borrow() == 5 {
            Err(KokoroError::Phonemize("espeak-ng failed: x".to_string()))
        } else {
            Ok(t.to_string())
        }
    };
    let fine = |ids: &[i64], _: &[u32]| -> Result<Vec<u32>, KokoroError> { Ok(vec![1; ids.len()]) };
    let r = synthesize(&text, "af_nova", &voices, &tired, &fine);
    assert!(matches!(r, Err(KokoroError::Phonemize(_))));

    let long = format!("{}. {}.", "a".repeat(100), "b".repeat(600));
    let r = synthesize(&long, "af_nova", &voices, &spoken, &fine);
    assert!(matches!(r, Err(KokoroError::VoiceIndexOutOfRange(510))));
    let r = synthesize(&long, "nobody", &voices, &spoken, &fine);
    assert!(matches!(r, Err(KokoroError::UnknownVoice(name)) if name == "nobody"));
}

#[test]
fn sentences_behind_a_line_break_are_batched_apart() {
    let voices = store();
    let text = format!("{}.\n{}.", "a".repeat(259), "b".repeat(258));
    let inputs = RefCell::new(Vec::new());
    let model = |ids: &[i64], _: &[u32]| -> Result<Vec<u32>, KokoroError> {
        inputs.borrow_mut().push(ids.len());
        Ok(vec![0; ids.len()])
    };
    let keep = |t: &str| -> Result<String, KokoroError> { Ok(t.replace('\n', " ")) };
    let samples = synthesize(&text, "af_nova", &voices, &keep, &model).unwrap();
    assert_eq!(inputs.into_inner(), vec![262, 261]);
    assert_eq!(samples.len(), 262 + 261);
}
