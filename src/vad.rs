use vstd::prelude::*;

verus! {

/// Sum of the squared samples of a chunk.
pub open spec fn energy(s: Seq<i16>) -> int
    decreases s.len(),
{
    if s.len() == 0 {
        0
    } else {
        energy(s.drop_last()) + (s.last() as int) * (s.last() as int)
    }
}

/// The chunk's mean squared energy lies strictly above `threshold`. An empty
/// chunk has no energy and is never speech.
pub open spec fn is_speech_chunk(s: Seq<i16>, threshold: int) -> bool {
    energy(s) > threshold * s.len()
}

/// `a + b`, held at the largest `u64`.
pub open spec fn saturating_sum(a: int, b: int) -> int {
    if a + b > u64::MAX {
        u64::MAX as int
    } else {
        a + b
    }
}

/// Speech and silence counters after one chunk of `n` samples: speech adds to
/// the speech counter and clears the silence counter; silence adds to the
/// silence counter only.
pub open spec fn counters_after(speech: int, silence: int, chunk_is_speech: bool, n: int) -> (
    int,
    int,
) {
    if chunk_is_speech {
        (saturating_sum(speech, n), 0)
    } else {
        (speech, saturating_sum(silence, n))
    }
}

/// At least `min_speech_ms` of speech and at least `min_silence_ms` of
/// trailing silence have been counted, at `rate` samples per second.
pub open spec fn endpoint_reached(
    speech: int,
    silence: int,
    rate: int,
    min_speech_ms: int,
    min_silence_ms: int,
) -> bool {
    speech * 1000 >= min_speech_ms * rate && silence * 1000 >= min_silence_ms * rate
}

proof fn lemma_sample_square(x: i16)
    ensures
        0 <= (x as int) * (x as int) <= 0x4000_0000,
{
    assert(0 <= (x as int) * (x as int) <= 0x4000_0000) by (nonlinear_arith)
        requires
            -32768 <= x <= 32767,
    ;
}

proof fn lemma_product_fits(a: int, b: int)
    requires
        0 <= a <= u64::MAX,
        0 <= b <= u64::MAX,
    ensures
        0 <= a * b <= u128::MAX,
{
    assert(0 <= a * b <= u64::MAX * u64::MAX) by (nonlinear_arith)
        requires
            0 <= a <= u64::MAX,
            0 <= b <= u64::MAX,
    ;
}

/// Energy-based speech/silence classifier for single chunks.
pub struct VadDetector {
    threshold: u64,
}

impl VadDetector {
    /// Threshold on the mean squared sample value.
    pub closed spec fn threshold_spec(&self) -> int {
        self.threshold as int
    }

    /// A classifier with the given threshold, in squared sample units.
    pub fn new(threshold: u64) -> (r: Self)
        ensures
            r.threshold_spec() == threshold,
    {
        VadDetector { threshold }
    }

    /// Whether the chunk's mean squared energy is strictly above the threshold.
    pub fn is_speech(&self, samples: &[i16]) -> (r: bool)
        ensures
            r == is_speech_chunk(samples@, self.threshold_spec()),
    {
        let mut acc: u128 = 0;
        let mut i: usize = 0;
        while i < samples.len()
            invariant
                i <= samples@.len(),
                acc == energy(samples@.subrange(0, i as int)),
                acc <= (i as int) * 0x4000_0000,
            decreases samples@.len() - i,
        {
            let x = samples[i];
            proof {
                lemma_sample_square(x);
                let t = samples@.subrange(0, i as int + 1);
                assert(t.drop_last() =~= samples@.subrange(0, i as int));
            }
            let sq = (x as i32) * (x as i32);
            acc = acc + sq as u128;
            i = i + 1;
        }
        assert(samples@.subrange(0, i as int) =~= samples@);
        proof {
            lemma_product_fits(self.threshold as int, samples@.len() as int);
        }
        let limit = (self.threshold as u128) * (samples.len() as u128);
        acc > limit
    }
}

/// Decides the end of an utterance from speech and trailing-silence
/// durations, with chunks classified by a [`VadDetector`].
pub struct EndpointDetector {
    vad: VadDetector,
    sample_rate: u32,
    min_silence_ms: u32,
    min_speech_ms: u32,
    silence_samples: u64,
    speech_samples: u64,
}

impl EndpointDetector {
    /// Threshold of the chunk classifier.
    pub closed spec fn threshold_spec(&self) -> int {
        self.vad.threshold_spec()
    }

    /// Samples per second.
    pub closed spec fn rate_spec(&self) -> int {
        self.sample_rate as int
    }

    /// Trailing silence needed, in milliseconds.
    pub closed spec fn min_silence_spec(&self) -> int {
        self.min_silence_ms as int
    }

    /// Speech needed, in milliseconds.
    pub closed spec fn min_speech_spec(&self) -> int {
        self.min_speech_ms as int
    }

    /// Samples of speech counted in the current utterance.
    pub closed spec fn speech_count(&self) -> int {
        self.speech_samples as int
    }

    /// Samples of silence counted since the last speech.
    pub closed spec fn silence_count(&self) -> int {
        self.silence_samples as int
    }

    /// The settings of `self` and `other` agree.
    pub open spec fn same_settings(&self, other: &Self) -> bool {
        &&& self.threshold_spec() == other.threshold_spec()
        &&& self.rate_spec() == other.rate_spec()
        &&& self.min_silence_spec() == other.min_silence_spec()
        &&& self.min_speech_spec() == other.min_speech_spec()
    }

    /// The sample rate is positive, so durations are defined.
    pub open spec fn wf(&self) -> bool {
        self.rate_spec() > 0
    }

    /// Whether the counters mark the end of an utterance.
    pub open spec fn reached(&self) -> bool {
        endpoint_reached(
            self.speech_count(),
            self.silence_count(),
            self.rate_spec(),
            self.min_speech_spec(),
            self.min_silence_spec(),
        )
    }

    /// A detector with zero counters.
    pub fn new(vad_threshold: u64, sample_rate: u32, min_silence_ms: u32, min_speech_ms: u32) -> (r:
        Self)
        requires
            sample_rate > 0,
        ensures
            r.wf(),
            r.threshold_spec() == vad_threshold,
            r.rate_spec() == sample_rate,
            r.min_silence_spec() == min_silence_ms,
            r.min_speech_spec() == min_speech_ms,
            r.speech_count() == 0,
            r.silence_count() == 0,
    {
        EndpointDetector {
            vad: VadDetector::new(vad_threshold),
            sample_rate,
            min_silence_ms,
            min_speech_ms,
            silence_samples: 0,
            speech_samples: 0,
        }
    }

    /// Counts one chunk as speech or silence and tells whether the utterance
    /// has ended.
    pub fn accept_waveform(&mut self, samples: &[i16]) -> (r: bool)
        ensures
            final(self).same_settings(old(self)),
            (final(self).speech_count(), final(self).silence_count()) == counters_after(
                old(self).speech_count(),
                old(self).silence_count(),
                is_speech_chunk(samples@, old(self).threshold_spec()),
                samples@.len() as int,
            ),
            r == final(self).reached(),
    {
        let speech = self.vad.is_speech(samples);
        let n = samples.len() as u64;
        if speech {
            self.speech_samples = self.speech_samples.saturating_add(n);
            self.silence_samples = 0;
        } else {
            self.silence_samples = self.silence_samples.saturating_add(n);
        }
        self.is_endpoint()
    }

    /// Whether at least the minimum speech and the minimum trailing silence
    /// have been counted.
    pub fn is_endpoint(&self) -> (r: bool)
        ensures
            r == self.reached(),
    {
        let rate = self.sample_rate as u128;
        proof {
            lemma_product_fits(self.min_speech_ms as int, rate as int);
            lemma_product_fits(self.min_silence_ms as int, rate as int);
        }
        let speech_ok = (self.speech_samples as u128) * 1000 >= (self.min_speech_ms as u128) * rate;
        let silence_ok = (self.silence_samples as u128) * 1000 >= (self.min_silence_ms as u128)
            * rate;
        speech_ok && silence_ok
    }

    /// Clears both counters, so that the next utterance starts clean.
    pub fn reset(&mut self)
        ensures
            final(self).same_settings(old(self)),
            final(self).speech_count() == 0,
            final(self).silence_count() == 0,
    {
        self.silence_samples = 0;
        self.speech_samples = 0;
    }
}

/// Total length of a run of chunks.
pub open spec fn total(lens: Seq<nat>) -> int
    decreases lens.len(),
{
    if lens.len() == 0 {
        0
    } else {
        total(lens.drop_last()) + lens.last()
    }
}

/// `x`, held at the largest `u64`.
pub open spec fn clamp_u64(x: int) -> int {
    if x > u64::MAX {
        u64::MAX as int
    } else {
        x
    }
}

/// Counters after a run of silent chunks of the given lengths.
pub open spec fn after_silence(speech: int, silence: int, lens: Seq<nat>) -> (int, int)
    decreases lens.len(),
{
    if lens.len() == 0 {
        (speech, silence)
    } else {
        let p = after_silence(speech, silence, lens.drop_last());
        counters_after(p.0, p.1, false, lens.last() as int)
    }
}

proof fn lemma_after_silence_counts(speech: int, lens: Seq<nat>)
    ensures
        after_silence(speech, 0, lens) == (speech, clamp_u64(total(lens))),
    decreases lens.len(),
{
    if lens.len() > 0 {
        lemma_after_silence_counts(speech, lens.drop_last());
    }
}

proof fn lemma_total_of_prefix(lens: Seq<nat>, k: int)
    requires
        0 <= k <= lens.len(),
    ensures
        0 <= total(lens.take(k)) <= total(lens),
    decreases lens.len(),
{
    if k == lens.len() {
        assert(lens.take(k) =~= lens);
        lemma_total_nonneg(lens);
    } else {
        assert(lens.take(k) =~= lens.drop_last().take(k));
        lemma_total_of_prefix(lens.drop_last(), k);
    }
}

proof fn lemma_total_nonneg(lens: Seq<nat>)
    ensures
        total(lens) >= 0,
    decreases lens.len(),
{
    if lens.len() > 0 {
        lemma_total_nonneg(lens.drop_last());
    }
}

/// A chunk whose samples are all zero is never speech, whatever the positive
/// threshold.
pub proof fn lemma_zero_chunk_is_silence(s: Seq<i16>, threshold: int)
    requires
        threshold > 0,
        forall|i: int| 0 <= i < s.len() ==> s[i] == 0,
    ensures
        !is_speech_chunk(s, threshold),
{
    lemma_zero_chunk_energy(s);
    assert(threshold * s.len() >= 0) by (nonlinear_arith)
        requires
            threshold > 0,
    ;
}

proof fn lemma_zero_chunk_energy(s: Seq<i16>)
    requires
        forall|i: int| 0 <= i < s.len() ==> s[i] == 0,
    ensures
        energy(s) == 0,
    decreases s.len(),
{
    if s.len() > 0 {
        lemma_zero_chunk_energy(s.drop_last());
        assert(s.last() == s[s.len() - 1]);
    }
}

/// Once the minimum speech has been counted, a following run of silent
/// chunks reaches the endpoint exactly after the chunk at which the silence
/// first adds up to the minimum: never before it, and always from it on.
/// So a run shorter than the minimum never reaches it.
pub proof fn lemma_endpoint_after_silence(
    speech: int,
    lens: Seq<nat>,
    rate: u32,
    min_speech_ms: u32,
    min_silence_ms: u32,
)
    requires
        0 <= speech <= u64::MAX,
        speech * 1000 >= min_speech_ms * rate,
    ensures
        forall|k: int|
            0 <= k <= lens.len() ==> {
                let c = #[trigger] after_silence(speech, 0, lens.take(k));
                endpoint_reached(c.0, c.1, rate as int, min_speech_ms as int, min_silence_ms as int)
                    <==> total(lens.take(k)) * 1000 >= min_silence_ms * rate
            },
        total(lens) * 1000 < min_silence_ms * rate ==> forall|k: int|
            0 <= k <= lens.len() ==> {
                let c = #[trigger] after_silence(speech, 0, lens.take(k));
                !endpoint_reached(c.0, c.1, rate as int, min_speech_ms as int, min_silence_ms as int)
            },
{
    assert((min_silence_ms as int) * (rate as int) < u64::MAX) by (nonlinear_arith)
        requires
            min_silence_ms <= u32::MAX,
            rate <= u32::MAX,
    ;
    assert forall|k: int| 0 <= k <= lens.len() implies {
        let c = #[trigger] after_silence(speech, 0, lens.take(k));
        endpoint_reached(c.0, c.1, rate as int, min_speech_ms as int, min_silence_ms as int)
            <==> total(lens.take(k)) * 1000 >= min_silence_ms * rate
    } by {
        lemma_after_silence_counts(speech, lens.take(k));
        lemma_total_nonneg(lens.take(k));
    }
    if total(lens) * 1000 < min_silence_ms * rate {
        assert forall|k: int| 0 <= k <= lens.len() implies {
            let c = #[trigger] after_silence(speech, 0, lens.take(k));
            !endpoint_reached(c.0, c.1, rate as int, min_speech_ms as int, min_silence_ms as int)
        } by {
            lemma_after_silence_counts(speech, lens.take(k));
            lemma_total_of_prefix(lens, k);
        }
    }
}

/// A well-formed detector whose counters were just cleared, as `reset`
/// leaves them, does not report an endpoint when a minimum duration is
/// positive.
pub proof fn lemma_reset_detector_no_endpoint(d: EndpointDetector)
    requires
        d.wf(),
        d.min_speech_spec() > 0 || d.min_silence_spec() > 0,
        d.speech_count() == 0,
        d.silence_count() == 0,
    ensures
        !d.reached(),
{
    assert(d.min_speech_spec() * d.rate_spec() > 0 || d.min_silence_spec() * d.rate_spec() > 0)
        by (nonlinear_arith)
        requires
            d.rate_spec() > 0,
            d.min_speech_spec() > 0 || d.min_silence_spec() > 0,
    ;
}

/// Lengths of a run of chunks.
pub open spec fn chunk_lens(chunks: Seq<Seq<i16>>) -> Seq<nat> {
    chunks.map_values(|c: Seq<i16>| c.len())
}

/// Counters after feeding `chunks` one `accept_waveform` call at a time,
/// starting from `start`.
pub open spec fn after_chunks(start: (int, int), chunks: Seq<Seq<i16>>, threshold: int) -> (
    int,
    int,
)
    decreases chunks.len(),
{
    if chunks.len() == 0 {
        start
    } else {
        let p = after_chunks(start, chunks.drop_last(), threshold);
        counters_after(
            p.0,
            p.1,
            is_speech_chunk(chunks.last(), threshold),
            chunks.last().len() as int,
        )
    }
}

proof fn lemma_after_chunks_append(
    start: (int, int),
    a: Seq<Seq<i16>>,
    b: Seq<Seq<i16>>,
    threshold: int,
)
    ensures
        after_chunks(start, a + b, threshold) == after_chunks(
            after_chunks(start, a, threshold),
            b,
            threshold,
        ),
    decreases b.len(),
{
    if b.len() == 0 {
        assert(a + b =~= a);
    } else {
        assert((a + b).drop_last() =~= a + b.drop_last());
        assert((a + b).last() == b.last());
        lemma_after_chunks_append(start, a, b.drop_last(), threshold);
    }
}

proof fn lemma_silent_chunks(start: (int, int), chunks: Seq<Seq<i16>>, threshold: int)
    requires
        forall|i: int| 0 <= i < chunks.len() ==> !is_speech_chunk(#[trigger] chunks[i], threshold),
    ensures
        after_chunks(start, chunks, threshold) == after_silence(
            start.0,
            start.1,
            chunk_lens(chunks),
        ),
    decreases chunks.len(),
{
    if chunks.len() > 0 {
        assert(chunk_lens(chunks).drop_last() =~= chunk_lens(chunks.drop_last()));
        assert(!is_speech_chunk(chunks[chunks.len() - 1], threshold));
        lemma_silent_chunks(start, chunks.drop_last(), threshold);
    }
}

proof fn lemma_speech_chunks(chunks: Seq<Seq<i16>>, threshold: int)
    requires
        forall|i: int| 0 <= i < chunks.len() ==> is_speech_chunk(#[trigger] chunks[i], threshold),
    ensures
        after_chunks((0, 0), chunks, threshold) == (clamp_u64(total(chunk_lens(chunks))), 0int),
    decreases chunks.len(),
{
    if chunks.len() > 0 {
        assert(chunk_lens(chunks).drop_last() =~= chunk_lens(chunks.drop_last()));
        assert(is_speech_chunk(chunks[chunks.len() - 1], threshold));
        lemma_speech_chunks(chunks.drop_last(), threshold);
        lemma_total_nonneg(chunk_lens(chunks.drop_last()));
    }
}

/// One utterance cycle fed call by call from cleared counters: speech chunks
/// adding up to at least the minimum speech, then silent chunks.
///
/// No call during the speech reports an endpoint (when the minimum silence
/// is positive). During the silence a call reports one exactly when the
/// silence so far adds up to the minimum: never before that chunk, and from
/// it on. A silence shorter than the minimum never reports one. Once it has
/// fired, `reset` clears the counters (see [`lemma_reset_detector_no_endpoint`]).
pub proof fn lemma_utterance_cycle(
    speech: Seq<Seq<i16>>,
    silence: Seq<Seq<i16>>,
    threshold: int,
    rate: u32,
    min_speech_ms: u32,
    min_silence_ms: u32,
)
    requires
        forall|i: int| 0 <= i < speech.len() ==> is_speech_chunk(#[trigger] speech[i], threshold),
        forall|i: int| 0 <= i < silence.len() ==> !is_speech_chunk(#[trigger] silence[i], threshold),
        total(chunk_lens(speech)) * 1000 >= min_speech_ms * rate,
    ensures
        min_silence_ms * rate > 0 ==> forall|k: int|
            0 <= k <= speech.len() ==> {
                let c = #[trigger] after_chunks((0, 0), speech.take(k), threshold);
                !endpoint_reached(c.0, c.1, rate as int, min_speech_ms as int, min_silence_ms as int)
            },
        forall|k: int|
            0 <= k <= silence.len() ==> {
                let c = #[trigger] after_chunks((0, 0), speech + silence.take(k), threshold);
                endpoint_reached(c.0, c.1, rate as int, min_speech_ms as int, min_silence_ms as int)
                    <==> total(chunk_lens(silence.take(k))) * 1000 >= min_silence_ms * rate
            },
        total(chunk_lens(silence)) * 1000 < min_silence_ms * rate ==> forall|k: int|
            0 <= k <= silence.len() ==> {
                let c = #[trigger] after_chunks((0, 0), speech + silence.take(k), threshold);
                !endpoint_reached(c.0, c.1, rate as int, min_speech_ms as int, min_silence_ms as int)
            },
{
    if min_silence_ms * rate > 0 {
        assert forall|k: int| 0 <= k <= speech.len() implies {
            let c = #[trigger] after_chunks((0, 0), speech.take(k), threshold);
            !endpoint_reached(c.0, c.1, rate as int, min_speech_ms as int, min_silence_ms as int)
        } by {
            lemma_speech_chunks(speech.take(k), threshold);
        }
    }
    lemma_speech_chunks(speech, threshold);
    let sp = clamp_u64(total(chunk_lens(speech)));
    assert((min_speech_ms as int) * (rate as int) < u64::MAX) by (nonlinear_arith)
        requires
            min_speech_ms <= u32::MAX,
            rate <= u32::MAX,
    ;
    assert(sp * 1000 >= min_speech_ms * rate);
    lemma_endpoint_after_silence(sp, chunk_lens(silence), rate, min_speech_ms, min_silence_ms);
    assert forall|k: int| 0 <= k <= silence.len() implies #[trigger] after_chunks(
        (0, 0),
        speech + silence.take(k),
        threshold,
    ) == after_silence(sp, 0, chunk_lens(silence).take(k)) by {
        lemma_after_chunks_append((0, 0), speech, silence.take(k), threshold);
        lemma_silent_chunks((sp, 0), silence.take(k), threshold);
        assert(chunk_lens(silence.take(k)) =~= chunk_lens(silence).take(k));
    }
    assert forall|k: int| 0 <= k <= silence.len() implies total(chunk_lens(silence.take(k)))
        == #[trigger] total(chunk_lens(silence).take(k)) by {
        assert(chunk_lens(silence.take(k)) =~= chunk_lens(silence).take(k));
    }
}

} // verus!
