use cinnabar::pipeline::{ends_with_terminator, same_text, Action, PipelineCoordinator};
use cinnabar::state::AppState;

fn coordinator() -> PipelineCoordinator {
    PipelineCoordinator::new(16000, 16000, 1000, 1000, 500)
}

fn injected(action: Action) -> String {
    match action {
        Action::Inject(text) => text,
        other => panic!("expected an injection, got {:?}", other),
    }
}

#[test]
fn hotkey_starts_listening_from_idle() {
    let mut c = coordinator();
    assert_eq!(c.state(), AppState::Idle);
    c.toggle();
    assert_eq!(c.state(), AppState::Listening);
}

#[test]
fn hotkey_aborts_listening_and_recognizing() {
    let mut c = coordinator();
    c.toggle();
    c.toggle();
    assert_eq!(c.state(), AppState::Idle);
    assert_eq!(c.pending_text(), "");

    let mut c = coordinator();
    c.toggle();
    assert!(matches!(c.observe_text("你好".to_string()), Action::Nothing));
    assert_eq!(c.state(), AppState::Recognizing);
    assert_eq!(c.pending_text(), "你好");
    c.toggle();
    assert_eq!(c.state(), AppState::Idle);
    assert_eq!(c.pending_text(), "");
}

#[test]
fn hotkey_is_ignored_while_injecting() {
    let mut c = coordinator();
    c.toggle();
    let text = injected(c.observe_text("Hello.".to_string()));
    assert_eq!(text, "Hello.");
    assert_eq!(c.state(), AppState::Injecting);
    c.toggle();
    assert_eq!(c.state(), AppState::Injecting);
    assert_eq!(c.pending_text(), "Hello.");
}

#[test]
fn terminated_sentence_is_injected_then_idle() {
    let mut c = coordinator();
    c.toggle();
    assert!(matches!(c.observe_text("你好".to_string()), Action::Nothing));
    assert_eq!(c.state(), AppState::Recognizing);
    let text = injected(c.observe_text("你好世界。".to_string()));
    assert_eq!(text, "你好世界。");
    assert_eq!(c.state(), AppState::Injecting);
    c.finish_injection();
    assert_eq!(c.state(), AppState::Idle);
    assert_eq!(c.pending_text(), "");
}

#[test]
fn raw_text_is_trimmed_before_it_is_observed() {
    let mut c = coordinator();
    c.toggle();
    let text = injected(c.accept_text("  你好世界。 \n"));
    assert_eq!(text, "你好世界。");
}

#[test]
fn blank_text_changes_nothing() {
    let mut c = coordinator();
    c.toggle();
    assert!(matches!(c.accept_text("   "), Action::Nothing));
    assert_eq!(c.state(), AppState::Listening);
    assert_eq!(c.pending_text(), "");
}

#[test]
fn text_is_ignored_when_idle() {
    let mut c = coordinator();
    assert!(matches!(c.observe_text("好。".to_string()), Action::Nothing));
    assert_eq!(c.state(), AppState::Idle);
    assert_eq!(c.pending_text(), "");
}

#[test]
fn audio_is_ignored_when_idle() {
    let mut c = coordinator();
    assert!(c.accept_chunk(&vec![5000i16; 1600]).is_none());
    c.toggle();
    assert_eq!(c.accept_chunk(&vec![5000i16; 4]), Some(vec![5000i16; 4]));
    assert!(c.accept_chunk(&[]).is_none());
}

#[test]
fn silence_endpoint_injects_unpunctuated_text() {
    let mut c = coordinator();
    c.toggle();
    assert!(c.accept_chunk(&vec![5000i16; 8000]).is_some());
    assert!(matches!(c.observe_text("hello world".to_string()), Action::Nothing));
    assert!(c.accept_chunk(&vec![0i16; 16000]).is_some());
    let text = injected(c.observe_text("hello world".to_string()));
    assert_eq!(text, "hello world");
    c.finish_injection();
    assert_eq!(c.state(), AppState::Idle);
    // The endpoint counters were cleared: a new session does not fire at once.
    c.toggle();
    assert!(matches!(c.observe_text("again".to_string()), Action::Nothing));
}

#[test]
fn silence_endpoint_without_text_resets_the_stream() {
    let mut c = coordinator();
    c.toggle();
    assert!(c.accept_chunk(&vec![5000i16; 8000]).is_some());
    assert!(c.accept_chunk(&vec![0i16; 16000]).is_some());
    assert!(matches!(c.observe_text(String::new()), Action::ResetStream));
    assert_eq!(c.state(), AppState::Listening);
    assert!(matches!(c.observe_text(String::new()), Action::Nothing));
}

#[test]
fn chunks_are_resampled_for_the_engine() {
    let mut c = PipelineCoordinator::new(48000, 16000, 1000, 1000, 500);
    c.toggle();
    let chunk: Vec<i16> = (0..30).collect();
    assert_eq!(c.accept_chunk(&chunk), Some((0..10).map(|i| 3 * i).collect()));
    // Only 29 was carried over; two samples are too few for an output.
    assert!(c.accept_chunk(&[1]).is_none());
    assert_eq!(c.accept_chunk(&[2]), Some(vec![29]));
}

#[test]
fn repeated_partial_keeps_the_state() {
    let mut c = coordinator();
    c.toggle();
    assert!(matches!(c.observe_text("abc".to_string()), Action::Nothing));
    assert!(matches!(c.observe_text("abc".to_string()), Action::Nothing));
    assert_eq!(c.state(), AppState::Recognizing);
    assert_eq!(c.pending_text(), "abc");
}

#[test]
fn sentence_terminators() {
    for t in ["好。", "好？", "好！", "ok.", "ok?", "ok!"] {
        assert!(ends_with_terminator(t), "{}", t);
    }
    for t in ["", "好", "ok,", "。好", "ok. "] {
        assert!(!ends_with_terminator(t), "{}", t);
    }
}

#[test]
fn text_comparison() {
    assert!(same_text("你好", "你好"));
    assert!(same_text("", ""));
    assert!(!same_text("你好", "你"));
    assert!(!same_text("abc", "abd"));
}
