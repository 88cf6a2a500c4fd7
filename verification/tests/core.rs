use otoa_input::connection::Endpoint;
use otoa_input::gate::{GateEvent, SpeechGate};
use otoa_input::preroll::PreRoll;
use otoa_input::session::{Session, SessionInput, SessionState};
use otoa_input::transcript::Transcript;

#[test]
fn endpoint_debug_redacts_header_values_and_api_key() {
    let endpoint = Endpoint {
        url: "wss://asr.example/asr/v1".to_string(),
        headers: vec![
            (
                "Authorization".to_string(),
                "Bearer handshake-secret".to_string(),
            ),
            ("X-Api-Key".to_string(), "header-secret".to_string()),
        ],
        api_key: Some("config-secret".to_string()),
    };

    let debug = endpoint.redacted_debug();

    assert!(debug.contains("Authorization"));
    assert!(debug.contains("X-Api-Key"));
    assert!(debug.contains("***"));
    assert!(!debug.contains("handshake-secret"));
    assert!(!debug.contains("header-secret"));
    assert!(!debug.contains("config-secret"));
}

#[test]
fn endpoint_debug_has_the_derived_shape() {
    let endpoint = Endpoint {
        url: "ws://h/\"q\"".to_string(),
        headers: vec![("A".to_string(), "b".to_string())],
        api_key: None,
    };
    assert_eq!(
        endpoint.redacted_debug(),
        "Endpoint { url: \"ws://h/\\\"q\\\"\", headers: [(\"A\", \"***\")], api_key: None }"
    );
}

#[test]
fn keeps_only_capacity() {
    let mut preroll = PreRoll::new(3);
    preroll.push(&[1, 2]);
    preroll.push(&[3, 4]);
    assert_eq!(preroll.len(), 3);
    assert_eq!(preroll.take(), vec![2, 3, 4]);
}

#[test]
fn take_empties() {
    let mut preroll = PreRoll::new(3);
    preroll.push(&[1, 2]);
    let _ = preroll.take();
    assert_eq!(preroll.len(), 0);
}

#[test]
fn take_preserves_order() {
    let mut preroll = PreRoll::new(5);
    preroll.push(&[1, 2, 3, 4]);
    assert_eq!(preroll.take(), vec![1, 2, 3, 4]);
}

#[test]
fn preroll_pushed_in_parts_equals_pushed_at_once() {
    let mut parts = PreRoll::new(4);
    parts.push(&[1, 2, 3]);
    parts.push(&[4, 5]);
    let mut whole = PreRoll::new(4);
    whole.push(&[1, 2, 3, 4, 5]);
    assert_eq!(parts.take(), whole.take());
    assert!(parts.is_empty());
}

#[test]
fn transcript_partial_is_replaced_not_appended() {
    let mut transcript = Transcript::new();
    transcript.replace_partial("こんにちは");
    transcript.replace_partial("こんばんは");
    assert_eq!(transcript.display(), "こんばんは");
}

#[test]
fn final_is_appended() {
    let mut transcript = Transcript::new();
    transcript.push_final("こん");
    transcript.push_final("にちは");
    assert_eq!(transcript.display(), "こんにちは");
}

#[test]
fn take_segment_clears_partial() {
    let mut transcript = Transcript::new();
    transcript.push_final("確定");
    transcript.replace_partial("未確定");
    assert_eq!(transcript.take_segment(), Some("確定".to_string()));
    assert!(transcript.display().is_empty());
}

#[test]
fn take_segment_returns_none_for_blank() {
    let mut transcript = Transcript::new();
    transcript.push_final("  \n\t");
    assert_eq!(transcript.take_segment(), None);
    assert!(transcript.is_empty());
}

/// A speech gate sees whether each frame's speech probability reaches the
/// threshold; these tests use a threshold of 0.5.
fn over(probability: f32) -> bool {
    probability >= 0.5
}

#[test]
fn no_event_below_min_speech() {
    let mut gate = SpeechGate::new(3, 3);
    assert_eq!(gate.push(over(0.5)), None);
    assert_eq!(gate.push(over(0.6)), None);
    assert!(!gate.is_speaking());
}

#[test]
fn emits_started_at_min_speech() {
    let mut gate = SpeechGate::new(3, 3);
    assert_eq!(gate.push(over(0.5)), None);
    assert_eq!(gate.push(over(0.7)), None);
    assert_eq!(gate.push(over(0.9)), Some(GateEvent::SpeechStarted));
}

#[test]
fn run_resets_on_gap() {
    let mut gate = SpeechGate::new(3, 3);
    assert_eq!(gate.push(over(0.8)), None);
    assert_eq!(gate.push(over(0.8)), None);
    assert_eq!(gate.push(over(0.2)), None);
    assert_eq!(gate.push(over(0.8)), None);
    assert!(!gate.is_speaking());
}

#[test]
fn silence_does_not_emit_end() {
    let mut gate = SpeechGate::new(1, 3);
    assert_eq!(gate.push(over(0.8)), Some(GateEvent::SpeechStarted));
    assert_eq!(gate.push(over(0.2)), None);
    assert_eq!(gate.push(over(0.2)), None);
    assert!(gate.is_speaking());
}

#[test]
fn threshold_is_inclusive() {
    let mut gate = SpeechGate::new(1, 3);
    assert_eq!(gate.push(over(0.5)), Some(GateEvent::SpeechStarted));
}

#[test]
fn no_duplicate_started() {
    let mut gate = SpeechGate::new(1, 3);
    assert_eq!(gate.push(over(0.8)), Some(GateEvent::SpeechStarted));
    assert_eq!(gate.push(over(0.8)), None);
    assert_eq!(gate.push(over(0.8)), None);
}

#[test]
fn rearms_after_silence_so_second_utterance_is_detected() {
    let mut gate = SpeechGate::new(2, 3);
    assert_eq!(gate.push(over(0.9)), None);
    assert_eq!(gate.push(over(0.9)), Some(GateEvent::SpeechStarted));
    assert!(gate.is_speaking());

    assert_eq!(gate.push(over(0.0)), None);
    assert_eq!(gate.push(over(0.0)), None);
    assert_eq!(gate.push(over(0.0)), Some(GateEvent::SpeechEnded));
    assert!(!gate.is_speaking());

    assert_eq!(gate.push(over(0.9)), None);
    assert_eq!(gate.push(over(0.9)), Some(GateEvent::SpeechStarted));
}

#[test]
fn brief_dip_does_not_end_speech() {
    let mut gate = SpeechGate::new(1, 3);
    assert_eq!(gate.push(over(0.9)), Some(GateEvent::SpeechStarted));
    assert_eq!(gate.push(over(0.0)), None);
    assert_eq!(gate.push(over(0.9)), None);
    assert_eq!(gate.push(over(0.0)), None);
    assert_eq!(gate.push(over(0.0)), None);
    assert_eq!(gate.push(over(0.0)), Some(GateEvent::SpeechEnded));
}

#[test]
fn a_zero_silence_length_still_needs_one_quiet_frame() {
    let mut gate = SpeechGate::new(1, 0);
    assert_eq!(gate.push(true), Some(GateEvent::SpeechStarted));
    assert_eq!(gate.push(false), Some(GateEvent::SpeechEnded));
}

fn session_closing_after_idle() -> Session {
    let mut session = Session::new();
    assert!(session.apply(SessionInput::Enable));
    assert!(session.apply(SessionInput::SpeechStarted));
    assert!(session.apply(SessionInput::Connected));
    assert!(session.apply(SessionInput::IdleTimeout));
    assert_eq!(session.state(), SessionState::Closing);
    session
}

#[test]
fn listening_to_streaming_path() {
    let mut session = Session::new();
    assert!(session.apply(SessionInput::Enable));
    assert!(session.apply(SessionInput::SpeechStarted));
    assert!(session.apply(SessionInput::Connected));
    assert_eq!(session.state(), SessionState::Streaming);
}

#[test]
fn streaming_idle_timeout_closes() {
    let mut session = Session::new();
    assert!(session.apply(SessionInput::Enable));
    assert!(session.apply(SessionInput::SpeechStarted));
    assert!(session.apply(SessionInput::Connected));
    assert!(session.apply(SessionInput::IdleTimeout));
    assert_eq!(session.state(), SessionState::Closing);
    assert!(!session.accepts_audio());
}

#[test]
fn disabled_stops_listening() {
    let session = Session::new();
    assert_eq!(session.state(), SessionState::Disabled);
    assert!(!session.is_listening());
}

#[test]
fn invalid_transition_is_rejected() {
    let mut session = Session::new();
    assert!(!session.apply(SessionInput::Finished));
    assert_eq!(session.state(), SessionState::Disabled);
}

#[test]
fn listening_can_fail() {
    let mut session = Session::new();
    assert!(session.apply(SessionInput::Enable));
    assert!(session.apply(SessionInput::Failed));
    assert_eq!(session.state(), SessionState::Failed);
}

#[test]
fn disabling_a_streaming_session_ends_disabled() {
    let mut session = Session::new();
    assert!(session.apply(SessionInput::Enable));
    assert!(session.apply(SessionInput::SpeechStarted));
    assert!(session.apply(SessionInput::Connected));
    assert!(session.apply(SessionInput::Disable));
    assert_eq!(session.state(), SessionState::Stopping);
    assert!(session.apply(SessionInput::Finished));
    assert_eq!(session.state(), SessionState::Disabled);
}

#[test]
fn idle_close_returns_listening() {
    let mut session = session_closing_after_idle();
    assert!(session.apply(SessionInput::Finished));
    assert_eq!(session.state(), SessionState::Listening);
}

#[test]
fn enabling_while_stopping_returns_listening() {
    let mut session = Session::new();
    assert!(session.apply(SessionInput::Enable));
    assert!(session.apply(SessionInput::SpeechStarted));
    assert!(session.apply(SessionInput::Connected));
    assert!(session.apply(SessionInput::Disable));
    assert_eq!(session.state(), SessionState::Stopping);
    assert!(session.apply(SessionInput::Enable));
    assert_eq!(session.state(), SessionState::Closing);
    assert!(session.apply(SessionInput::Finished));
    assert_eq!(session.state(), SessionState::Listening);
}

#[test]
fn closing_timeout_returns_to_listening_and_accepts_new_speech() {
    let mut session = session_closing_after_idle();
    assert!(session.apply(SessionInput::Timeout));
    assert_eq!(session.state(), SessionState::Listening);
    assert!(session.apply(SessionInput::SpeechStarted));
    assert_eq!(session.state(), SessionState::Connecting);
}

#[test]
fn aborted_asr_session_returns_to_listening() {
    for state in [
        SessionState::Connecting,
        SessionState::Streaming,
        SessionState::Closing,
    ] {
        let mut session = Session::new();
        assert!(session.apply(SessionInput::Enable));
        assert!(session.apply(SessionInput::SpeechStarted));
        if state == SessionState::Streaming || state == SessionState::Closing {
            assert!(session.apply(SessionInput::Connected));
        }
        if state == SessionState::Closing {
            assert!(session.apply(SessionInput::IdleTimeout));
        }

        assert!(session.apply(SessionInput::Aborted));
        assert_eq!(session.state(), SessionState::Listening);
    }
}

#[test]
fn stopping_completion_failures_stay_disabled() {
    for end in [
        SessionInput::Timeout,
        SessionInput::Aborted,
        SessionInput::Failed,
    ] {
        let mut session = Session::new();
        assert!(session.apply(SessionInput::Enable));
        assert!(session.apply(SessionInput::SpeechStarted));
        assert!(session.apply(SessionInput::Connected));
        assert!(session.apply(SessionInput::Disable));
        assert_eq!(session.state(), SessionState::Stopping);
        assert!(session.apply(end));
        assert_eq!(session.state(), SessionState::Disabled);
    }
}

#[test]
fn disable_is_honored_from_every_state() {
    for setup in [
        vec![],
        vec![SessionInput::Enable],
        vec![SessionInput::Enable, SessionInput::SpeechStarted],
        vec![
            SessionInput::Enable,
            SessionInput::SpeechStarted,
            SessionInput::Connected,
        ],
        vec![SessionInput::Enable, SessionInput::Failed],
    ] {
        let mut session = Session::new();
        for input in setup {
            assert!(session.apply(input));
        }
        session.apply(SessionInput::Disable);
        assert!(!session.state().listening_enabled());
    }
}
