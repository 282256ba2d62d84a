use vstd::prelude::*;
use crate::resampler::LinearResampler;
use crate::state::{is_active, toggled, AppState, StateManager};
use crate::vad::{counters_after, is_speech_chunk, EndpointDetector};

verus! {

/// Characters that close a sentence, East Asian and Latin.
pub open spec fn is_terminator(c: char) -> bool {
    c == '。' || c == '？' || c == '！' || c == '.' || c == '?' || c == '!'
}

/// The text is non-empty and its last character closes a sentence.
pub open spec fn ends_sentence(t: Seq<char>) -> bool {
    t.len() > 0 && is_terminator(t.last())
}

/// Unicode `White_Space` characters, which `str::trim` removes.
pub open spec fn is_white_space(c: char) -> bool {
    let u = c as u32;
    (0x9 <= u <= 0xd) || u == 0x20 || u == 0x85 || u == 0xa0 || u == 0x1680 || (0x2000 <= u
        <= 0x200a) || u == 0x2028 || u == 0x2029 || u == 0x202f || u == 0x205f || u == 0x3000
}

/// The text without its leading white space.
pub open spec fn trim_start(s: Seq<char>) -> Seq<char>
    decreases s.len(),
{
    if s.len() > 0 && is_white_space(s[0]) {
        trim_start(s.drop_first())
    } else {
        s
    }
}

/// The text without its trailing white space.
pub open spec fn trim_end(s: Seq<char>) -> Seq<char>
    decreases s.len(),
{
    if s.len() > 0 && is_white_space(s.last()) {
        trim_end(s.drop_last())
    } else {
        s
    }
}

/// The text without leading and trailing white space.
pub open spec fn trimmed(s: Seq<char>) -> Seq<char> {
    trim_end(trim_start(s))
}

/// Relies on `str::trim`, which removes leading and trailing characters with
/// the Unicode `White_Space` property.
#[verifier::external_body]
fn trim_text(s: &str) -> (r: String)
    ensures
        r@ == trimmed(s@),
{
    s.trim().to_string()
}

/// Whether the text ends with a sentence-closing character.
pub fn ends_with_terminator(text: &str) -> (r: bool)
    ensures
        r == ends_sentence(text@),
{
    let n = text.unicode_len();
    if n == 0 {
        return false;
    }
    let c = text.get_char(n - 1);
    c == '。' || c == '？' || c == '！' || c == '.' || c == '?' || c == '!'
}

/// Whether two texts hold the same characters.
pub fn same_text(a: &str, b: &str) -> (r: bool)
    ensures
        r == (a@ == b@),
{
    let n = a.unicode_len();
    let m = b.unicode_len();
    if n != m {
        return false;
    }
    let mut i: usize = 0;
    while i < n
        invariant
            n == a@.len(),
            m == b@.len(),
            n == m,
            i <= n,
            forall|j: int| 0 <= j < i ==> a@[j] == b@[j],
        decreases n - i,
    {
        if a.get_char(i) != b.get_char(i) {
            return false;
        }
        i = i + 1;
    }
    assert(a@ =~= b@);
    true
}

/// What the caller has to do after the coordinator has seen new text.
#[derive(Debug)]
pub enum Action {
    /// Nothing to do.
    Nothing,
    /// Paste this text, reset the recognition stream, then call
    /// [`PipelineCoordinator::finish_injection`].
    Inject(String),
    /// The utterance ended without text: reset the recognition stream.
    ResetStream,
}

/// Ties resampling, endpoint detection and the session state together.
///
/// Audio is processed only while listening or recognizing. A partial text
/// that ends a sentence, or an endpoint from the silence detector, finalizes
/// the utterance: whichever comes first.
pub struct PipelineCoordinator {
    states: StateManager,
    resampler: LinearResampler,
    endpoint: EndpointDetector,
}

impl PipelineCoordinator {
    /// Current session state.
    pub closed spec fn state_spec(&self) -> AppState {
        self.states.state_spec()
    }

    /// The latest partial text.
    pub closed spec fn pending_spec(&self) -> Seq<char> {
        self.states.text_spec()
    }

    /// Resampler from the capture rate to the engine rate.
    pub closed spec fn resampler_spec(&self) -> LinearResampler {
        self.resampler
    }

    /// Endpoint detector over the resampled audio.
    pub closed spec fn endpoint_spec(&self) -> EndpointDetector {
        self.endpoint
    }

    /// Resampler and endpoint detector are well formed.
    pub open spec fn wf(&self) -> bool {
        self.resampler_spec().wf() && self.endpoint_spec().wf()
    }

    /// Endpoint counters cleared, settings kept.
    pub open spec fn endpoint_cleared(pre: Self, post: Self) -> bool {
        &&& post.endpoint_spec().same_settings(&pre.endpoint_spec())
        &&& post.endpoint_spec().speech_count() == 0
        &&& post.endpoint_spec().silence_count() == 0
    }

    /// `act` and `post` are what observing the extracted `text` gives from
    /// `pre`.
    ///
    /// Outside listening and recognizing nothing happens. A non-empty text
    /// that differs from the pending one replaces it and moves to
    /// `Recognizing`. If the text ends a sentence or the endpoint has been
    /// reached, the pending text goes to injection; with no pending text the
    /// endpoint counters are cleared and the stream is to be reset.
    pub open spec fn observe_step(pre: Self, text: Seq<char>, act: Action, post: Self) -> bool {
        let s = pre.state_spec();
        let updates = text.len() > 0 && text != pre.pending_spec();
        let pending = if updates {
            text
        } else {
            pre.pending_spec()
        };
        let next = if updates {
            AppState::Recognizing
        } else {
            s
        };
        let fires = ends_sentence(text) || pre.endpoint_spec().reached();
        &&& post.wf() == pre.wf()
        &&& post.resampler_spec() == pre.resampler_spec()
        &&& post.pending_spec() == if is_active(s) {
            pending
        } else {
            pre.pending_spec()
        }
        &&& !is_active(s) ==> act is Nothing && post.state_spec() == s && post.endpoint_spec()
            == pre.endpoint_spec()
        &&& is_active(s) && !fires ==> act is Nothing && post.state_spec() == next
            && post.endpoint_spec() == pre.endpoint_spec()
        &&& is_active(s) && fires && pending.len() > 0 ==> (act matches Action::Inject(t) && t@
            == pending) && post.state_spec() == AppState::Injecting && post.endpoint_spec()
            == pre.endpoint_spec()
        &&& is_active(s) && fires && pending.len() == 0 ==> act is ResetStream
            && post.state_spec() == next && Self::endpoint_cleared(pre, post)
    }

    /// An idle coordinator for audio captured at `capture_rate` and fed to
    /// an engine at `engine_rate`; durations in milliseconds, threshold in
    /// squared sample units.
    pub fn new(
        capture_rate: u32,
        engine_rate: u32,
        vad_threshold: u64,
        min_silence_ms: u32,
        min_speech_ms: u32,
    ) -> (r: Self)
        requires
            capture_rate > 0,
            engine_rate > 0,
        ensures
            r.wf(),
            r.state_spec() == AppState::Idle,
            r.pending_spec() == Seq::<char>::empty(),
            r.resampler_spec().from_rate_spec() == capture_rate,
            r.resampler_spec().to_rate_spec() == engine_rate,
            r.resampler_spec().buffered() == Seq::<i16>::empty(),
            r.endpoint_spec().threshold_spec() == vad_threshold,
            r.endpoint_spec().rate_spec() == engine_rate,
            r.endpoint_spec().min_silence_spec() == min_silence_ms,
            r.endpoint_spec().min_speech_spec() == min_speech_ms,
            r.endpoint_spec().speech_count() == 0,
            r.endpoint_spec().silence_count() == 0,
    {
        PipelineCoordinator {
            states: StateManager::new(),
            resampler: LinearResampler::new(capture_rate, engine_rate),
            endpoint: EndpointDetector::new(vad_threshold, engine_rate, min_silence_ms, min_speech_ms),
        }
    }

    pub fn state(&self) -> (r: AppState)
        ensures
            r == self.state_spec(),
    {
        self.states.get_state()
    }

    /// The latest partial text.
    pub fn pending_text(&self) -> (r: String)
        ensures
            r@ == self.pending_spec(),
    {
        self.states.get_text()
    }

    /// The session state, for display.
    pub fn state_manager(&self) -> (r: &StateManager)
        ensures
            r.state_spec() == self.state_spec(),
            r.text_spec() == self.pending_spec(),
    {
        &self.states
    }

    /// Hotkey press: `Idle` starts listening, `Listening` and `Recognizing`
    /// abort to `Idle` and drop the pending text, `Injecting` ignores it.
    pub fn toggle(&mut self)
        ensures
            final(self).wf() == old(self).wf(),
            final(self).state_spec() == toggled(old(self).state_spec()),
            is_active(old(self).state_spec()) ==> final(self).pending_spec() == Seq::<char>::empty(),
            !is_active(old(self).state_spec()) ==> final(self).pending_spec()
                == old(self).pending_spec(),
            final(self).resampler_spec() == old(self).resampler_spec(),
            final(self).endpoint_spec() == old(self).endpoint_spec(),
    {
        self.states.toggle();
    }

    /// Takes one captured chunk. While listening or recognizing, a non-empty
    /// chunk is resampled; a non-empty result is counted by the endpoint
    /// detector and returned, to be fed to the recognition engine.
    pub fn accept_chunk(&mut self, samples: &[i16]) -> (r: Option<Vec<i16>>)
        requires
            old(self).wf(),
        ensures
            final(self).wf(),
            final(self).state_spec() == old(self).state_spec(),
            final(self).pending_spec() == old(self).pending_spec(),
            !is_active(old(self).state_spec()) || samples@.len() == 0 ==> r is None && *final(self)
                == *old(self),
            is_active(old(self).state_spec()) && samples@.len() > 0 ==> match r {
                Some(out) => {
                    &&& out@.len() > 0
                    &&& LinearResampler::resample_step(
                        old(self).resampler_spec(),
                        samples@,
                        out@,
                        final(self).resampler_spec(),
                    )
                    &&& final(self).endpoint_spec().same_settings(&old(self).endpoint_spec())
                    &&& (
                        final(self).endpoint_spec().speech_count(),
                        final(self).endpoint_spec().silence_count(),
                    ) == counters_after(
                        old(self).endpoint_spec().speech_count(),
                        old(self).endpoint_spec().silence_count(),
                        is_speech_chunk(out@, old(self).endpoint_spec().threshold_spec()),
                        out@.len() as int,
                    )
                },
                None => {
                    &&& LinearResampler::resample_step(
                        old(self).resampler_spec(),
                        samples@,
                        Seq::<i16>::empty(),
                        final(self).resampler_spec(),
                    )
                    &&& final(self).endpoint_spec() == old(self).endpoint_spec()
                },
            },
    {
        let s = self.states.get_state();
        if !(s == AppState::Listening || s == AppState::Recognizing) {
            return None;
        }
        if samples.len() == 0 {
            return None;
        }
        let out = self.resampler.resample(samples);
        if out.len() == 0 {
            assert(out@ =~= Seq::<i16>::empty());
            return None;
        }
        let _ = self.endpoint.accept_waveform(out.as_slice());
        Some(out)
    }

    /// Observes the text extracted from the engine, trimmed first (see
    /// [`Self::observe_text`]).
    pub fn accept_text(&mut self, raw: &str) -> (r: Action)
        ensures
            Self::observe_step(*old(self), trimmed(raw@), r, *final(self)),
    {
        let text = trim_text(raw);
        self.observe_text(text)
    }

    /// Observes an extracted, trimmed text (see [`Self::observe_step`]).
    pub fn observe_text(&mut self, text: String) -> (r: Action)
        ensures
            Self::observe_step(*old(self), text@, r, *final(self)),
    {
        let s = self.states.get_state();
        if !(s == AppState::Listening || s == AppState::Recognizing) {
            return Action::Nothing;
        }
        let punctuated = ends_with_terminator(text.as_str());
        let silent = self.endpoint.is_endpoint();
        if text.unicode_len() > 0 {
            let pending = self.states.get_text();
            if !same_text(text.as_str(), pending.as_str()) {
                self.states.set_text(text);
                self.states.set_state(AppState::Recognizing);
            }
        }
        if !(punctuated || silent) {
            return Action::Nothing;
        }
        let pending = self.states.get_text();
        if pending.unicode_len() > 0 {
            self.states.set_state(AppState::Injecting);
            Action::Inject(pending)
        } else {
            self.endpoint.reset();
            Action::ResetStream
        }
    }

    /// After the pending text has been delivered: clears the endpoint
    /// counters and the pending text and returns to `Idle`. Outside
    /// `Injecting` nothing happens.
    pub fn finish_injection(&mut self)
        ensures
            final(self).wf() == old(self).wf(),
            final(self).resampler_spec() == old(self).resampler_spec(),
            old(self).state_spec() == AppState::Injecting ==> {
                &&& final(self).state_spec() == AppState::Idle
                &&& final(self).pending_spec() == Seq::<char>::empty()
                &&& Self::endpoint_cleared(*old(self), *final(self))
            },
            old(self).state_spec() != AppState::Injecting ==> *final(self) == *old(self),
    {
        if self.states.get_state() == AppState::Injecting {
            self.endpoint.reset();
            self.states.clear_text();
            self.states.set_state(AppState::Idle);
        }
    }
}

} // verus!
