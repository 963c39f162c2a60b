use kokoro_tts::audio::{boost_peak, concat_samples, peak_bits, SAMPLE_RATE};

fn bits(samples: &[f32]) -> Vec<u32> {
    samples.iter().map(|s| s.to_bits()).collect()
}

fn scale(sample: u32, peak: u32, target: u32) -> u32 {
    let gain = f32::from_bits(target) / f32::from_bits(peak);
    (f32::from_bits(sample) * gain).to_bits()
}

fn normalize(samples: &mut Vec<f32>, target_peak: f32) {
    let mut raw = bits(samples);
    kokoro_tts::audio::normalize(&mut raw, target_peak.to_bits(), &scale);
    *samples = raw.into_iter().map(f32::from_bits).collect();
}

fn reference_peak(samples: &[f32]) -> f32 {
    samples.iter().map(|s| s.abs()).fold(0.0f32, f32::max)
}

#[test]
fn test_concat_samples() {
    let chunks = vec![vec![1.0, 2.0], vec![3.0, 4.0, 5.0]];
    let result = concat_samples(&chunks);
    assert_eq!(result, vec![1.0, 2.0, 3.0, 4.0, 5.0]);
}

#[test]
fn test_concat_empty() {
    let chunks: Vec<Vec<f32>> = vec![];
    let result = concat_samples(&chunks);
    assert!(result.is_empty());
}

#[test]
fn test_normalize_boosts_quiet_audio() {
    let mut samples = vec![0.1, -0.2, 0.15, -0.05];
    normalize(&mut samples, 0.95);
    let peak = samples.iter().map(|s| s.abs()).fold(0.0f32, f32::max);
    assert!((peak - 0.95).abs() < 0.001);
}

#[test]
fn test_normalize_no_clipping_loud_audio() {
    let mut samples = vec![0.5, -0.98, 0.3];
    let original = samples.clone();
    normalize(&mut samples, 0.95);
    assert_eq!(samples, original);
}

#[test]
fn test_normalize_silence() {
    let mut samples = vec![0.0, 0.0, 0.0];
    normalize(&mut samples, 0.95);
    assert_eq!(samples, vec![0.0, 0.0, 0.0]);
}

#[test]
fn concat_keeps_every_sample_and_passes_over_empty_chunks() {
    let chunks: Vec<Vec<u32>> = vec![vec![], vec![7], vec![], vec![8, 9], vec![]];
    let joined = concat_samples(&chunks);
    assert_eq!(joined, vec![7, 8, 9]);
    assert_eq!(joined.len(), chunks.iter().map(|c| c.len()).sum::<usize>());
    assert_eq!(concat_samples(&[vec![1u8, 2]]), vec![1, 2]);
}

#[test]
fn the_peak_is_the_largest_magnitude_among_the_numbers() {
    let cases: Vec<Vec<f32>> = vec![
        vec![],
        vec![0.0, -0.0],
        vec![0.1, -0.2, 0.15],
        vec![-1.5, 1.0],
        vec![f32::NAN, 0.25, -f32::NAN],
        vec![f32::NAN],
        vec![f32::INFINITY, 1.0],
        vec![f32::NEG_INFINITY],
        vec![f32::MIN_POSITIVE, 1e-45],
        vec![f32::MAX, f32::MIN],
    ];
    for samples in cases {
        let expected = reference_peak(&samples);
        assert_eq!(f32::from_bits(peak_bits(&bits(&samples))), expected, "{:?}", samples);
    }
}

#[test]
fn the_decision_to_boost_is_that_of_the_comparison_of_floats() {
    let buffers: Vec<Vec<f32>> = vec![
        vec![],
        vec![0.0, -0.0],
        vec![0.1, -0.2],
        vec![0.95],
        vec![-0.95],
        vec![0.98, 0.1],
        vec![f32::NAN, 0.5],
        vec![f32::INFINITY],
        vec![1e-45],
    ];
    let targets = [0.95f32, 0.0, -0.0, -1.0, f32::NAN, -f32::NAN, f32::INFINITY, 1e-45, 0.2, 0.5];
    for samples in &buffers {
        let peak = reference_peak(samples);
        for target in targets {
            let expected = peak > 0.0 && peak < target;
            let decided = boost_peak(&bits(samples), target.to_bits());
            assert_eq!(decided.is_some(), expected, "{:?} to {}", samples, target);
            if let Some(p) = decided {
                assert_eq!(f32::from_bits(p), peak);
            }
        }
    }
}

#[test]
fn audio_at_the_target_is_left_alone() {
    let mut samples = vec![0.95, -0.5];
    normalize(&mut samples, 0.95);
    assert_eq!(samples, vec![0.95, -0.5]);
    let mut exact = vec![0.25f32, -0.5];
    normalize(&mut exact, 1.0);
    assert_eq!(exact, vec![0.5, -1.0]);
}

#[test]
fn a_buffer_that_is_left_alone_keeps_its_bits() {
    let odd = vec![f32::NAN.to_bits() | 1, (-0.0f32).to_bits(), 0.99f32.to_bits(), 0x7fc0_1234];
    let mut raw = odd.clone();
    kokoro_tts::audio::normalize(&mut raw, 0.95f32.to_bits(), &scale);
    assert_eq!(raw, odd);
    let mut silent = vec![0u32, 0x8000_0000, 0];
    kokoro_tts::audio::normalize(&mut silent, 0.95f32.to_bits(), &scale);
    assert_eq!(silent, vec![0u32, 0x8000_0000, 0]);
    let mut quiet = vec![0.25f32.to_bits(), (-0.125f32).to_bits()];
    kokoro_tts::audio::normalize(&mut quiet, 0.5f32.to_bits(), &scale);
    assert_eq!(quiet, vec![0.5f32.to_bits(), (-0.25f32).to_bits()]);
}

#[test]
fn the_model_speaks_at_24_khz() {
    assert_eq!(SAMPLE_RATE, 24000);
}
