use cinnabar::vad::{EndpointDetector, VadDetector};

/// Full-scale float sample to 16-bit PCM.
fn pcm(x: f32) -> i16 {
    (x * 32767.0).round() as i16
}

/// Float energy threshold to squared 16-bit sample units.
fn energy_units(t: f32) -> u64 {
    (t as f64 * 32767.0 * 32767.0) as u64
}

fn sine(n: usize) -> Vec<i16> {
    (0..n).map(|i| pcm((i as f32 * 0.1).sin())).collect()
}

#[test]
fn test_vad_silence() {
    let vad = VadDetector::new(energy_units(0.01));
    let silence = vec![pcm(0.0); 100];
    assert!(!vad.is_speech(&silence));
}

#[test]
fn test_vad_speech() {
    let vad = VadDetector::new(energy_units(0.01));
    let speech = sine(100);
    assert!(vad.is_speech(&speech));
}

#[test]
fn test_vad_threshold() {
    let vad = VadDetector::new(energy_units(0.5));
    let low_energy = vec![pcm(0.1); 100];
    assert!(!vad.is_speech(&low_energy));
}

#[test]
fn test_endpoint_detector() {
    let mut detector = EndpointDetector::new(energy_units(0.01), 16000, 1000, 500);

    let speech = sine(8000);
    assert!(!detector.accept_waveform(&speech));

    let silence = vec![0i16; 16000];
    assert!(detector.accept_waveform(&silence));
}

#[test]
fn test_endpoint_reset() {
    let mut detector = EndpointDetector::new(energy_units(0.01), 16000, 1000, 500);
    let speech = sine(8000);
    detector.accept_waveform(&speech);
    detector.reset();
    assert!(!detector.is_endpoint());
}

#[test]
fn zero_chunk_is_never_speech() {
    let zeros = vec![0i16; 480];
    for t in [1u64, 2, 1000, 10_737_418, u64::MAX] {
        assert!(!VadDetector::new(t).is_speech(&zeros));
    }
}

#[test]
fn sine_is_speech_below_its_mean_energy() {
    let amplitude = 10000.0f64;
    let chunk: Vec<i16> = (0..1600)
        .map(|i| (amplitude * (i as f64 * 2.0 * std::f64::consts::PI / 32.0).sin()).round() as i16)
        .collect();
    let total: u128 = chunk.iter().map(|&s| (s as i64 * s as i64) as u128).sum();
    let mean = (total / chunk.len() as u128) as u64;
    assert!(VadDetector::new(mean - 1).is_speech(&chunk));
    assert!(!VadDetector::new(mean + 1).is_speech(&chunk));
}

#[test]
fn mean_energy_must_be_strictly_above_threshold() {
    // Every sample is 2, so the mean squared energy is exactly 4.
    let chunk = vec![2i16; 10];
    assert!(VadDetector::new(3).is_speech(&chunk));
    assert!(!VadDetector::new(4).is_speech(&chunk));
    assert!(!VadDetector::new(0).is_speech(&[]));
}

#[test]
fn short_silence_never_ends_utterance() {
    let mut detector = EndpointDetector::new(1000, 16000, 1000, 500);
    let speech = vec![5000i16; 8000];
    assert!(!detector.accept_waveform(&speech));
    for _ in 0..9 {
        assert!(!detector.accept_waveform(&vec![0i16; 1600]));
    }
    assert!(!detector.accept_waveform(&vec![0i16; 1599]));
}

#[test]
fn endpoint_fires_once_per_utterance_cycle() {
    let mut detector = EndpointDetector::new(1000, 16000, 1000, 500);
    assert!(!detector.accept_waveform(&vec![5000i16; 8000]));
    assert!(detector.accept_waveform(&vec![0i16; 16000]));
    detector.reset();
    assert!(!detector.is_endpoint());
    assert!(!detector.accept_waveform(&vec![0i16; 16000]));
}

#[test]
fn speech_clears_the_silence_count() {
    let mut detector = EndpointDetector::new(1000, 16000, 1000, 500);
    assert!(!detector.accept_waveform(&vec![5000i16; 8000]));
    assert!(!detector.accept_waveform(&vec![0i16; 15999]));
    assert!(!detector.accept_waveform(&vec![5000i16; 160]));
    assert!(!detector.accept_waveform(&vec![0i16; 15999]));
    assert!(detector.accept_waveform(&vec![0i16; 1]));
}

#[test]
fn one_second_speech_then_silence_fires_at_the_crossing_chunk() {
    let mut detector = EndpointDetector::new(energy_units(0.01), 16000, 1000, 500);
    // 100 ms chunks at 16 kHz.
    for k in 0..10 {
        let chunk: Vec<i16> = (0..1600).map(|i| pcm(((k * 1600 + i) as f32 * 0.1).sin())).collect();
        assert!(!detector.accept_waveform(&chunk), "speech chunk {}", k);
    }
    let silence = vec![0i16; 1600];
    for k in 1..=12 {
        let fired = detector.accept_waveform(&silence);
        if k < 10 {
            assert!(!fired, "silence chunk {}", k);
        } else {
            assert!(fired, "silence chunk {}", k);
        }
    }
}
