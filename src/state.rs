use vstd::prelude::*;

verus! {

/// Stage of a dictation session.
#[derive(Debug, Clone, Copy, PartialEq, Eq, Structural)]
pub enum AppState {
    /// Waiting for the hotkey.
    Idle,
    /// Capturing audio, no text yet.
    Listening,
    /// Capturing audio, partial text available.
    Recognizing,
    /// Delivering the final text.
    Injecting,
}

/// Audio is processed in this state.
pub open spec fn is_active(s: AppState) -> bool {
    s == AppState::Listening || s == AppState::Recognizing
}

/// State after a hotkey press: `Idle` starts listening, `Listening` and
/// `Recognizing` abort to `Idle`, and `Injecting` ignores the key.
pub open spec fn toggled(s: AppState) -> AppState {
    match s {
        AppState::Idle => AppState::Listening,
        AppState::Listening => AppState::Idle,
        AppState::Recognizing => AppState::Idle,
        AppState::Injecting => AppState::Injecting,
    }
}

/// Short label of a state, for display.
pub open spec fn description(s: AppState) -> Seq<char> {
    match s {
        AppState::Idle => "待机"@,
        AppState::Listening => "监听中..."@,
        AppState::Recognizing => "识别中"@,
        AppState::Injecting => "注入文本"@,
    }
}

/// Icon of a state, for display.
pub open spec fn icon(s: AppState) -> Seq<char> {
    match s {
        AppState::Idle => "🎤"@,
        AppState::Listening => "🔴"@,
        AppState::Recognizing => "🟢"@,
        AppState::Injecting => "✅"@,
    }
}

/// Current session state together with the latest partial text.
pub struct StateManager {
    state: AppState,
    recognized_text: String,
}

impl StateManager {
    /// Current state.
    pub closed spec fn state_spec(&self) -> AppState {
        self.state
    }

    /// Latest partial text.
    pub closed spec fn text_spec(&self) -> Seq<char> {
        self.recognized_text@
    }

    /// An idle session with no text.
    pub fn new() -> (r: Self)
        ensures
            r.state_spec() == AppState::Idle,
            r.text_spec() == Seq::<char>::empty(),
    {
        StateManager { state: AppState::Idle, recognized_text: String::new() }
    }

    pub fn get_state(&self) -> (r: AppState)
        ensures
            r == self.state_spec(),
    {
        self.state
    }

    pub fn set_state(&mut self, state: AppState)
        ensures
            final(self).state_spec() == state,
            final(self).text_spec() == old(self).text_spec(),
    {
        self.state = state;
    }

    pub fn get_text(&self) -> (r: String)
        ensures
            r@ == self.text_spec(),
    {
        self.recognized_text.clone()
    }

    pub fn set_text(&mut self, text: String)
        ensures
            final(self).state_spec() == old(self).state_spec(),
            final(self).text_spec() == text@,
    {
        self.recognized_text = text;
    }

    pub fn clear_text(&mut self)
        ensures
            final(self).state_spec() == old(self).state_spec(),
            final(self).text_spec() == Seq::<char>::empty(),
    {
        self.recognized_text = String::new();
    }

    /// Reacts to a hotkey press; an abort also drops the partial text.
    pub fn toggle(&mut self)
        ensures
            final(self).state_spec() == toggled(old(self).state_spec()),
            is_active(old(self).state_spec()) ==> final(self).text_spec() == Seq::<char>::empty(),
            !is_active(old(self).state_spec()) ==> final(self).text_spec()
                == old(self).text_spec(),
    {
        match self.state {
            AppState::Idle => {
                self.set_state(AppState::Listening);
            },
            AppState::Listening | AppState::Recognizing => {
                self.set_state(AppState::Idle);
                self.clear_text();
            },
            AppState::Injecting => {},
        }
    }

    pub fn get_state_description(&self) -> (r: &'static str)
        ensures
            r@ == description(self.state_spec()),
    {
        match self.state {
            AppState::Idle => "待机",
            AppState::Listening => "监听中...",
            AppState::Recognizing => "识别中",
            AppState::Injecting => "注入文本",
        }
    }

    pub fn get_state_icon(&self) -> (r: &'static str)
        ensures
            r@ == icon(self.state_spec()),
    {
        match self.state {
            AppState::Idle => "🎤",
            AppState::Listening => "🔴",
            AppState::Recognizing => "🟢",
            AppState::Injecting => "✅",
        }
    }
}

impl Default for StateManager {
    fn default() -> (r: Self)
        ensures
            r.state_spec() == AppState::Idle,
            r.text_spec() == Seq::<char>::empty(),
    {
        StateManager::new()
    }
}

} // verus!
