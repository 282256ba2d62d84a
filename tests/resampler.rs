use cinnabar::resampler::LinearResampler;

#[test]
fn equal_rates_give_the_chunk_back() {
    for rate in [8000u32, 16000, 44100, 48000] {
        let mut r = LinearResampler::new(rate, rate);
        let chunk: Vec<i16> = vec![1, -2, 3, i16::MIN, i16::MAX, 0, 7];
        assert_eq!(r.resample(&chunk), chunk);
        assert_eq!(r.resample(&chunk[..1]), vec![1]);
    }
}

#[test]
fn third_rate_gives_a_third_of_the_samples() {
    let mut r = LinearResampler::new(48000, 16000);
    let chunk: Vec<i16> = (0..300).collect();
    let out = r.resample(&chunk);
    assert_eq!(out.len(), 100);
    let expected: Vec<i16> = (0..100).map(|i| 3 * i).collect();
    assert_eq!(out, expected);
}

#[test]
fn third_rate_lengths_follow_the_floor_formula() {
    for n in 2..40usize {
        let mut r = LinearResampler::new(48000, 16000);
        let out = r.resample(&vec![100i16; n]);
        assert_eq!(out.len(), n / 3, "n = {}", n);
    }
}

#[test]
fn two_buffered_samples_are_too_few_at_a_third_of_the_rate() {
    let mut r = LinearResampler::new(48000, 16000);
    assert!(r.resample(&[5]).is_empty());
    assert!(r.resample(&[6]).is_empty());
    // Three buffered samples now: one output.
    assert_eq!(r.resample(&[7]), vec![5]);
}

#[test]
fn empty_chunk_gives_nothing_and_changes_nothing() {
    let mut a = LinearResampler::new(16000, 48000);
    let mut b = LinearResampler::new(16000, 48000);
    assert_eq!(a.resample(&[0, 300]), b.resample(&[0, 300]));
    assert!(a.resample(&[]).is_empty());
    assert_eq!(a.resample(&[600, 900]), b.resample(&[600, 900]));
}

#[test]
fn upsampling_interpolates_and_continues_across_chunks() {
    let mut r = LinearResampler::new(16000, 48000);
    assert_eq!(r.resample(&[0, 300, 600]), vec![0, 100, 200, 300, 400, 500]);
    // The carried-over sample 600 continues the ramp, with nothing repeated.
    assert_eq!(r.resample(&[900]), vec![600, 700, 800]);
    assert_eq!(r.resample(&[1200, 1500]), vec![900, 1000, 1100, 1200, 1300, 1400]);
}

#[test]
fn interpolation_rounds_down() {
    let mut r = LinearResampler::new(16000, 32000);
    assert_eq!(r.resample(&[-1, 0]), vec![-1, -1]);
    let mut r = LinearResampler::new(16000, 32000);
    assert_eq!(r.resample(&[1, 2]), vec![1, 1]);
}

#[test]
fn extreme_samples_stay_in_range() {
    let mut r = LinearResampler::new(16000, 48000);
    assert_eq!(
        r.resample(&[i16::MIN, i16::MAX]),
        vec![i16::MIN, -10923, 10922]
    );
}

#[test]
fn samples_are_kept_until_an_output_needs_them() {
    // At 202 Hz to 1 Hz, 101 samples give no output and all of them stay
    // buffered; the first output is the very first sample.
    let mut r = LinearResampler::new(202, 1);
    let first: Vec<i16> = (1..=101).collect();
    assert!(r.resample(&first).is_empty());
    let second: Vec<i16> = (102..=202).collect();
    assert_eq!(r.resample(&second), vec![1]);
}

#[test]
fn downsampling_across_chunks() {
    let mut r = LinearResampler::new(48000, 16000);
    let first: Vec<i16> = (0..30).collect();
    assert_eq!(r.resample(&first), (0..10).map(|i| 3 * i).collect::<Vec<i16>>());
    // The whole chunk was covered; only its last sample is carried over.
    let second: Vec<i16> = (30..60).collect();
    let out = r.resample(&second);
    assert_eq!(out.len(), 10);
    assert_eq!(out[0], 29);
    assert_eq!(out[1], 32);
}
