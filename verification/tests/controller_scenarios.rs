use otoa_input::check::{AsrError, AsrEvent};
use otoa_input::client::{
    ControllerCore, CoreSettings, DelayedTurn, Effect, EndpointMode, WarmupOutcome,
};
use otoa_input::client::SettingsChange;
use otoa_input::controller::{milliseconds_to_frames, OverlayKind, OverlayView, PENDING_AUDIO_MAX_BYTES};
use otoa_input::gate::{GateEvent, SpeechGate};
use otoa_input::session::{SessionInput, SessionState};

const WARMUP_IDLE_THRESHOLD_MS: u64 = 60_000;

fn default_settings() -> CoreSettings {
    CoreSettings {
        endpoint_mode: EndpointMode::Client,
        auto_paste: true,
        paste_per_endpoint: true,
        commit_hold_ms: 1500,
        route_backend: None,
        enrollment_eligible: false,
        idle_close_sec: 30,
        splash_ms: 2500,
    }
}

fn settings_with(update: impl FnOnce(&mut CoreSettings)) -> CoreSettings {
    let mut settings = default_settings();
    update(&mut settings);
    settings
}

/// A client whose connection can enroll the voice, and so be warmed.
fn warmup_core(settings: CoreSettings) -> ControllerCore {
    let mut settings = settings;
    settings.enrollment_eligible = true;
    ControllerCore::new(settings, 8000, 0)
}

fn test_core(settings: CoreSettings) -> ControllerCore {
    ControllerCore::new(settings, 8000, 0)
}

fn names(effects: &[Effect]) -> Vec<String> {
    effects.iter().map(|e| format!("{:?}", e)).collect()
}

fn strings(list: &[&str]) -> Vec<String> {
    list.iter().map(|s| s.to_string()).collect()
}

fn kind_of(view: &OverlayView) -> Option<OverlayKind> {
    match view {
        OverlayView::Shown { kind, .. } => Some(*kind),
        _ => None,
    }
}

/// A client streaming with a connection, whose speech just started at
/// `now`.
fn streaming_core(settings: CoreSettings, now: u64) -> ControllerCore {
    let mut core = test_core(settings);
    assert!(core.session.apply(SessionInput::Enable));
    assert!(core.session.apply(SessionInput::SpeechStarted));
    core.flags.has_transport = true;
    assert!(core.session.apply(SessionInput::Connected));
    let effects = core.speech_started(now);
    assert_eq!(names(&effects), strings(&["SendSpeechStart"]));
    core
}

#[test]
fn the_warming_overlay_stays_until_the_warmup_finishes() {
    let mut core = warmup_core(default_settings());
    assert!(core.session.apply(SessionInput::Enable));

    let effects = core.speech_started(1000);
    assert_eq!(names(&effects), strings(&["StartWarmup(BeforeSpeech)"]));
    assert!(core.warmup.started_at_ms.is_some());
    assert_eq!(kind_of(&core.overlay(1000)), Some(OverlayKind::WarmingUp));

    core.speech_ended(1100);
    core.deferred = None;
    core.warmup_finished(WarmupOutcome::Ready, 1200);
    assert_eq!(core.times.last_response_ms, Some(1200));
    assert!(matches!(core.overlay(1200), OverlayView::Hidden));
}

#[test]
fn a_delayed_turn_keeps_the_warming_overlay_until_the_turn_finishes() {
    let mut core = warmup_core(default_settings());
    // A state reached long after start-up: the splash is down.
    core.splash_started_ms = None;
    core.delayed_turn = Some(DelayedTurn { began_at_ms: 0, speech_ended: false });
    core.transcript.replace_partial("途中結果");

    assert_eq!(kind_of(&core.overlay(10)), Some(OverlayKind::WarmingUp));
    assert_eq!(kind_of(&core.overlay(20)), Some(OverlayKind::WarmingUp));
    assert!(core.delayed_turn.is_some());
}

#[test]
fn every_segment_of_a_delayed_turn_stays_delayed_until_the_session_finishes() {
    let settings = settings_with(|settings| {
        settings.auto_paste = false;
        settings.paste_per_endpoint = true;
        settings.endpoint_mode = EndpointMode::Server;
    });
    let mut core = warmup_core(settings);
    assert!(core.session.apply(SessionInput::Enable));
    assert!(core.session.apply(SessionInput::SpeechStarted));
    core.delayed_turn = Some(DelayedTurn { began_at_ms: 0, speech_ended: true });

    core.handle_asr_event(AsrEvent::Connected, 100);
    assert!(core.delayed_turn.is_some_and(|turn| turn.speech_ended));

    core.transcript.push_final("本文");
    core.handle_asr_event(AsrEvent::Endpoint, 200);
    assert_eq!(core.session.state(), SessionState::Closing);
    assert!(core.delayed_turn.is_some());
    assert_eq!(kind_of(&core.overlay(200)), Some(OverlayKind::WarmingUp));

    core.transcript.push_final("語尾");
    core.handle_asr_event(AsrEvent::Endpoint, 300);
    assert!(core.delayed_turn.is_some());

    core.handle_asr_event(AsrEvent::Finished, 400);
    assert!(core.delayed_turn.is_none());
}

#[test]
fn an_empty_delayed_turn_finishes_its_warming_state_with_the_session() {
    let mut core = warmup_core(default_settings());
    assert!(core.session.apply(SessionInput::Enable));
    assert!(core.session.apply(SessionInput::SpeechStarted));
    assert!(core.session.apply(SessionInput::Connected));
    core.delayed_turn = Some(DelayedTurn { began_at_ms: 0, speech_ended: true });

    core.handle_asr_event(AsrEvent::Endpoint, 100);
    assert_eq!(core.session.state(), SessionState::Closing);
    assert!(core.delayed_turn.is_some());

    core.handle_asr_event(AsrEvent::Finished, 200);
    assert!(core.delayed_turn.is_none());
}

#[test]
fn speech_after_sixty_seconds_warms_before_opening_a_session() {
    let mut core = warmup_core(default_settings());
    assert!(core.session.apply(SessionInput::Enable));
    core.times.last_response_ms = Some(0);

    let effects = core.speech_started(WARMUP_IDLE_THRESHOLD_MS);

    assert_eq!(names(&effects), strings(&["StartWarmup(BeforeSpeech)"]));
    assert!(core.warmup.started_at_ms.is_some());
    assert!(core.deferred.is_some());
    assert_eq!(core.session.state(), SessionState::Listening);
    assert!(!core.flags.has_transport);
    assert_eq!(kind_of(&core.overlay(WARMUP_IDLE_THRESHOLD_MS)), Some(OverlayKind::WarmingUp));
}

#[test]
fn a_successful_warmup_sends_the_speech_it_held() {
    let mut core = warmup_core(default_settings());
    assert!(core.session.apply(SessionInput::Enable));
    core.times.last_response_ms = Some(0);
    core.handle_vad_samples(&[2_i16; 160], 59_000);

    core.speech_started(WARMUP_IDLE_THRESHOLD_MS);
    assert!(core.warmup.started_at_ms.is_some());
    let deferred = core.deferred.as_ref().expect("the speech is held");
    assert!(!deferred.preroll.is_empty());

    core.handle_vad_samples(&[1_i16; 160], 60_010);
    assert_eq!(core.deferred.as_ref().map(|d| d.audio.len()), Some(1));

    let effects = core.warmup_finished(WarmupOutcome::Ready, 60_500);
    assert_eq!(effects.len(), 1);
    assert!(matches!(&effects[0], Effect::StartAsr { preroll, deferred_audio }
        if preroll.len() == 160 && deferred_audio.len() == 1));
    assert!(core.deferred.is_none());
    assert_ne!(core.session.state(), SessionState::Listening);
    assert!(core.delayed_turn.is_some_and(|turn| !turn.speech_ended));

    core.asr_started(None, vec![2_i16; 160], vec![vec![1_i16; 160]]);
    core.handle_asr_event(AsrEvent::Connected, 60_600);
    assert!(core.delayed_turn.is_none());
}

#[test]
fn a_warmup_that_outlasts_speech_keeps_that_turn_delayed() {
    let mut core = warmup_core(default_settings());
    assert!(core.session.apply(SessionInput::Enable));
    core.times.last_response_ms = Some(0);

    core.speech_started(WARMUP_IDLE_THRESHOLD_MS);
    assert!(core.warmup.started_at_ms.is_some());
    core.speech_ended(60_500);
    assert!(core.deferred.as_ref().is_some_and(|speech| speech.ended));

    core.warmup_finished(WarmupOutcome::Ready, 61_000);
    assert!(core.delayed_turn.is_some_and(|turn| turn.speech_ended));
}

#[test]
fn a_delayed_turn_does_not_leak_into_the_next_speech() {
    let mut core = warmup_core(default_settings());
    assert!(core.session.apply(SessionInput::Enable));
    core.delayed_turn = Some(DelayedTurn { began_at_ms: 0, speech_ended: false });

    let notice = AsrEvent::Notice { code: "gate_blocked".to_string(), message: "一致しません".to_string() };
    core.handle_asr_event(notice, 100);
    assert!(core.delayed_turn.is_none());

    core.delayed_turn = Some(DelayedTurn { began_at_ms: 0, speech_ended: false });
    core.flags.has_transport = true;
    core.handle_asr_event(AsrEvent::Failed(AsrError::ClosedEarly), 200);
    assert!(core.delayed_turn.is_none());
}

#[test]
fn a_fresh_enrollment_is_not_sent_again_before_connecting() {
    let mut core = test_core(default_settings());
    assert!(core.session.apply(SessionInput::Enable));
    core.times.last_response_ms = Some(10_000);

    let effects = core.speech_started(10_000);
    assert_eq!(names(&effects), strings(&["OpenSession { check_enrollment: false }"]));
}

#[test]
fn a_stale_enrollment_is_sent_before_connecting() {
    let mut core = test_core(default_settings());
    assert!(core.session.apply(SessionInput::Enable));
    core.times.last_response_ms = Some(0);

    let effects = core.speech_started(WARMUP_IDLE_THRESHOLD_MS);
    assert_eq!(names(&effects), strings(&["OpenSession { check_enrollment: true }"]));
}

#[test]
fn a_partial_result_ends_the_wait_for_the_server() {
    let settings = settings_with(|settings| settings.endpoint_mode = EndpointMode::Server);
    let mut core = streaming_core(settings, 0);
    core.speech_ended(100);
    assert_eq!(core.waits.pending_since_ms, Some(100));
    assert_eq!(kind_of(&core.overlay(10_100)), Some(OverlayKind::StartingServer));

    core.handle_asr_event(AsrEvent::PartialText("とちゅう".to_string()), 10_100);

    assert!(core.waits.pending_since_ms.is_none());
    assert_ne!(kind_of(&core.overlay(10_100)), Some(OverlayKind::StartingServer));
}

#[test]
fn a_server_endpoint_before_the_gate_does_not_open_a_new_wait() {
    let settings = settings_with(|settings| settings.endpoint_mode = EndpointMode::Server);
    let mut core = streaming_core(settings, 0);

    core.handle_asr_event(AsrEvent::Endpoint, 100);
    core.speech_ended(200);

    assert!(core.waits.pending_since_ms.is_none());
}

#[test]
fn listening_does_not_wake_the_recognizer_on_its_own() {
    let mut core = warmup_core(default_settings());

    let effects = core.enable_listening();

    assert!(core.warmup.started_at_ms.is_none());
    assert!(!names(&effects).iter().any(|e| e.starts_with("StartWarmup")));
}

#[test]
fn the_first_speech_enrolls_and_is_held_until_it_finishes() {
    let mut core = warmup_core(default_settings());
    assert!(core.session.apply(SessionInput::Enable));

    let effects = core.speech_started(1000);

    assert_eq!(names(&effects), strings(&["StartWarmup(BeforeSpeech)"]));
    assert!(core.deferred.is_some());
}

#[test]
fn speech_stays_held_while_the_warmup_is_running() {
    let mut core = warmup_core(default_settings());
    assert!(core.session.apply(SessionInput::Enable));
    core.warmup.started_at_ms = Some(0);

    core.speech_started(60_000);

    assert!(core.deferred.is_some());
    assert_eq!(core.session.state(), SessionState::Listening);
}

#[test]
fn the_clock_does_not_release_speech_before_the_warmup_finishes() {
    let mut core = warmup_core(default_settings());
    assert!(core.session.apply(SessionInput::Enable));
    core.warmup.started_at_ms = Some(0);

    core.speech_started(60_000);
    assert!(core.deferred.is_some());

    core.periodic(60_100);
    core.periodic(120_000);
    assert!(core.deferred.is_some());
}

#[test]
fn a_second_speech_during_the_warmup_does_not_replace_the_first() {
    let mut core = warmup_core(default_settings());
    assert!(core.session.apply(SessionInput::Enable));
    core.warmup.started_at_ms = Some(0);
    core.handle_vad_samples(&[2_i16; 160], 0);

    core.speech_started(10);
    core.handle_vad_samples(&[1_i16; 160], 20);
    core.speech_ended(30);
    let after_first = core.deferred.as_ref().expect("the first hold").audio.len();

    core.speech_started(40);
    core.handle_vad_samples(&[1_i16; 160], 50);
    let after_second = core.deferred.as_ref().expect("still held").audio.len();

    assert!(after_second > after_first);
}

#[test]
fn the_server_decides_how_long_to_wait_before_warming_up_again() {
    let mut core = warmup_core(default_settings());
    assert!(core.session.apply(SessionInput::Enable));
    core.times.last_response_ms = Some(0);

    core.handle_asr_event(AsrEvent::WarmupAfter(600_000), 0);
    assert_eq!(core.times.warmup_after_ms, Some(600_000));

    // Due after the default minute, but the server asked for ten.
    let effects = core.speech_started(WARMUP_IDLE_THRESHOLD_MS);
    assert!(!names(&effects).iter().any(|e| e.starts_with("StartWarmup")));
}

#[test]
fn retryable_warmup_failure_does_not_retry_again_after_one_hundred_ms() {
    let mut core = warmup_core(default_settings());
    assert!(core.session.apply(SessionInput::Enable));

    let started = core.speech_started(1000);
    assert_eq!(names(&started), strings(&["StartWarmup(BeforeSpeech)"]));
    let effects = core.warmup_finished(WarmupOutcome::RetryableRemote, 1000);

    let retry_at = core.warmup.retry_at_ms.expect("a retry is scheduled");
    assert!(retry_at >= 1000 + 5000);
    assert!(core.shown.error.is_none());
    assert!(names(&effects)[0].starts_with("StartAsr"));
    assert_ne!(core.session.state(), SessionState::Listening);

    // Speech 110 ms later starts no second enrollment.
    let again = core.speech_started(1110);
    assert!(!names(&again).iter().any(|e| e.starts_with("StartWarmup")));
}

#[test]
fn missing_enrollment_is_the_only_persistent_enrollment_error() {
    let mut core = test_core(default_settings());
    assert!(core.session.apply(SessionInput::Enable));

    core.speech_started(1000);
    core.open_session(Some("声の登録がありません".to_string()), 1000);

    assert_eq!(core.session.state(), SessionState::Failed);
    assert_eq!(kind_of(&core.overlay(1000)), Some(OverlayKind::Error));
    core.periodic(100_000);
    assert_eq!(kind_of(&core.overlay(100_000)), Some(OverlayKind::Error));
}

#[test]
fn pending_audio_holds_a_whole_utterance_while_the_connection_opens() {
    let mut core = test_core(default_settings());
    assert!(core.session.apply(SessionInput::Enable));
    assert!(core.session.apply(SessionInput::SpeechStarted));
    let frame = vec![0_i16; 512];
    let frames_for_20s = (16_000 * 2 * 20) / (frame.len() * 2);
    for i in 0..frames_for_20s {
        core.handle_vad_samples(&frame, i as u64);
    }

    assert_eq!(core.pending_audio_dropped_frames, 0);
    assert_eq!(core.pending_audio.len(), frames_for_20s);
}

#[test]
fn pending_audio_keeps_the_newest_audio_and_records_the_drop() {
    let mut core = test_core(default_settings());
    assert!(core.session.apply(SessionInput::Enable));
    assert!(core.session.apply(SessionInput::SpeechStarted));
    let frame = vec![0_i16; PENDING_AUDIO_MAX_BYTES / 8];
    for i in 0..4 {
        core.handle_vad_samples(&frame, i);
    }
    assert_eq!(core.pending_audio_dropped_frames, 0);

    core.handle_vad_samples(&vec![7_i16; frame.len()], 5);
    assert_eq!(core.pending_audio_dropped_frames, 1);
    assert_eq!(core.pending_audio.len(), 4);
    assert_eq!(core.pending_audio.last().map(|f| f[0]), Some(7));
}

#[test]
fn a_twenty_five_second_gateway_handshake_keeps_the_first_speech_buffered() {
    let mut core = test_core(default_settings());
    assert!(core.session.apply(SessionInput::Enable));
    core.speech_started(0);
    core.open_session(None, 0);
    core.asr_started(None, Vec::new(), Vec::new());
    core.pending_audio.push(vec![1, 2, 3, 4]);

    core.periodic(25_000);

    assert_eq!(core.session.state(), SessionState::Connecting);
    assert_eq!(core.pending_audio, vec![vec![1, 2, 3, 4]]);
}

#[test]
fn speech_that_ends_during_handshake_is_queued_as_one_complete_turn() {
    let settings = settings_with(|settings| settings.endpoint_mode = EndpointMode::Both);
    let mut core = test_core(settings);
    assert!(core.session.apply(SessionInput::Enable));
    assert!(core.session.apply(SessionInput::SpeechStarted));
    core.flags.has_transport = true;
    core.pending_audio.push(vec![1, 2, 3, 4]);

    let ended = core.speech_ended(100);

    assert_eq!(names(&ended), strings(&["SendAudio([1, 2, 3, 4])", "SendFinalize"]));
    assert!(core.flags.client_finalize_sent);
    assert!(core.flags.finalize_pending);

    let connected = core.handle_asr_event(AsrEvent::Connected, 200);
    assert_eq!(core.session.state(), SessionState::Streaming);
    assert_eq!(names(&connected), strings(&["UiState(Streaming)"]));
}

#[test]
fn two_speeches_during_handshake_keep_their_server_turn_boundary() {
    let settings = settings_with(|settings| settings.endpoint_mode = EndpointMode::Both);
    let mut core = test_core(settings);
    assert!(core.session.apply(SessionInput::Enable));
    assert!(core.session.apply(SessionInput::SpeechStarted));
    core.flags.has_transport = true;
    core.pending_audio.push(vec![1, 2]);
    let mut sent = names(&core.speech_ended(100));
    sent.extend(names(&core.handle_vad_samples(&[3], 110)));
    sent.extend(names(&core.speech_started(120)));
    sent.extend(names(&core.handle_vad_samples(&[4], 130)));
    sent.extend(names(&core.handle_asr_event(AsrEvent::Connected, 140)));

    assert_eq!(
        sent,
        strings(&[
            "SendAudio([1, 2])",
            "SendFinalize",
            "SendSpeechStart",
            "SendAudio([3, 0])",
            "SendAudio([4, 0])",
            "UiState(Streaming)",
        ])
    );
}

/// Commits a segment as the answer to `finalize` does.
fn commit_segment(core: &mut ControllerCore, text: &str, now: u64) {
    core.transcript.push_final(text);
    core.handle_asr_event(AsrEvent::FinalizeDone, now);
}

#[test]
fn user_action_failure_stays_failed_without_automatic_recovery() {
    let mut core = test_core(default_settings());
    let mut effects = Vec::new();

    core.fail_runtime(otoa_input::controller::GATEWAY_URL_MISSING_MESSAGE, false, 100, &mut effects);

    assert_eq!(core.session.state(), SessionState::Failed);
    assert!(!core.failure.recovery_enabled);
    assert!(core.failure.failed_at_ms.is_some());
    assert!(matches!(core.shown.error, Some(otoa_input::controller::UserError::Persistent { .. })));
}

#[test]
fn connected_resets_failed_retry_backoff() {
    let mut core = test_core(default_settings());
    assert!(core.session.apply(SessionInput::Enable));
    assert!(core.session.apply(SessionInput::SpeechStarted));
    core.failure.failed_at_ms = Some(0);
    core.failure.recovery_enabled = true;
    core.failure.retry_delay_ms = 20_000;

    core.handle_asr_event(AsrEvent::Connected, 100);

    assert!(core.failure.failed_at_ms.is_none());
    assert!(!core.failure.recovery_enabled);
    assert_eq!(core.failure.retry_delay_ms, 5000);
}

#[test]
fn committed_overlay_hides_after_hold_time() {
    let settings = settings_with(|settings| {
        settings.auto_paste = false;
        settings.commit_hold_ms = 800;
    });
    let mut core = test_core(settings);

    commit_segment(&mut core, "貼り付けテキスト", 1000);
    match core.overlay(1000) {
        OverlayView::Shown { kind, committed, partial, .. } => {
            assert_eq!(kind, OverlayKind::Committed);
            assert_eq!(committed, "貼り付けテキスト");
            assert!(partial.is_empty());
        }
        other => panic!("unexpected overlay {:?}", other),
    }

    core.periodic(1800);
    assert!(matches!(core.overlay(1800), OverlayView::Hidden));
}

#[test]
fn identical_text_from_two_turns_is_committed_twice() {
    let settings = settings_with(|settings| {
        settings.auto_paste = false;
        settings.commit_hold_ms = 800;
    });
    let mut core = test_core(settings);

    commit_segment(&mut core, "同じ発話", 1000);
    core.shown.commit = None;
    commit_segment(&mut core, "同じ発話", 1100);

    assert!(matches!(&core.shown.commit, Some((text, _)) if text == "同じ発話"));
}

#[test]
fn notice_is_temporary_and_does_not_change_the_session_or_transcript() {
    let mut core = test_core(default_settings());
    assert!(core.session.apply(SessionInput::Enable));
    assert!(core.session.apply(SessionInput::SpeechStarted));
    assert!(core.session.apply(SessionInput::Connected));

    let notice = AsrEvent::Notice {
        code: "gate_blocked".to_string(),
        message: "登録した声と一致しませんでした。".to_string(),
    };
    core.handle_asr_event(notice, 1000);

    assert_eq!(core.session.state(), SessionState::Streaming);
    assert!(core.transcript.is_empty());
    assert!(core.pending_commit.is_empty());
    assert!(matches!(&core.overlay(1000), OverlayView::Shown { kind: OverlayKind::Notice, error, .. }
        if error == "登録した声と一致しませんでした。"));
    assert!(core.shown.notice.is_some());

    core.periodic(4000);

    assert!(matches!(core.overlay(4000), OverlayView::Hidden));
    assert_eq!(core.session.state(), SessionState::Streaming);
}

#[test]
fn next_speech_started_clears_committed_overlay_immediately() {
    let settings = settings_with(|settings| {
        settings.auto_paste = false;
        settings.commit_hold_ms = 800;
    });
    let mut core = test_core(settings);
    commit_segment(&mut core, "前の発話", 1000);
    assert!(core.shown.commit.is_some());

    assert!(core.session.apply(SessionInput::Enable));
    assert!(core.session.apply(SessionInput::SpeechStarted));
    core.flags.has_transport = true;
    assert!(core.session.apply(SessionInput::Connected));
    let effects = core.speech_started(1100);

    assert_eq!(names(&effects), strings(&["SendSpeechStart"]));
    assert!(core.shown.commit.is_none());
    assert!(matches!(&core.overlay(1100), OverlayView::Shown { kind: OverlayKind::Recognizing, committed, partial, error }
        if committed.is_empty() && partial.is_empty() && error.is_empty()));
}

#[test]
fn next_partial_result_replaces_committed_overlay_immediately() {
    let settings = settings_with(|settings| {
        settings.auto_paste = false;
        settings.commit_hold_ms = 800;
    });
    let mut core = test_core(settings);
    commit_segment(&mut core, "前の発話", 1000);
    assert!(core.session.apply(SessionInput::Enable));
    assert!(core.session.apply(SessionInput::SpeechStarted));
    assert!(core.session.apply(SessionInput::Connected));

    core.handle_asr_event(AsrEvent::PartialText("次の発話".to_string()), 1100);

    assert!(core.shown.commit.is_none());
    assert!(matches!(&core.overlay(1100), OverlayView::Shown { kind: OverlayKind::Recognizing, committed, partial, .. }
        if committed.is_empty() && partial == "次の発話"));
}

#[test]
fn streaming_while_speaking_shows_empty_recognizing_overlay() {
    let mut core = test_core(default_settings());
    // A state reached long after start-up: the splash is down.
    core.splash_started_ms = None;
    assert!(core.session.apply(SessionInput::Enable));
    assert!(core.session.apply(SessionInput::SpeechStarted));
    assert!(core.session.apply(SessionInput::Connected));
    core.flags.gate_speaking = true;

    assert!(matches!(&core.overlay(0), OverlayView::Shown { kind: OverlayKind::Recognizing, committed, partial, error }
        if committed.is_empty() && partial.is_empty() && error.is_empty()));
}

#[test]
fn streaming_without_speech_or_transcript_hides_overlay() {
    let mut core = test_core(default_settings());
    // A state reached long after start-up: the splash is down.
    core.splash_started_ms = None;
    assert!(core.session.apply(SessionInput::Enable));
    assert!(core.session.apply(SessionInput::SpeechStarted));
    assert!(core.session.apply(SessionInput::Connected));

    assert!(matches!(core.overlay(0), OverlayView::Hidden));
}

#[test]
fn streaming_without_speech_shows_nonempty_transcript() {
    let mut core = test_core(default_settings());
    // A state reached long after start-up: the splash is down.
    core.splash_started_ms = None;
    assert!(core.session.apply(SessionInput::Enable));
    assert!(core.session.apply(SessionInput::SpeechStarted));
    assert!(core.session.apply(SessionInput::Connected));
    core.transcript.replace_partial("途中の文字");

    assert!(matches!(&core.overlay(0), OverlayView::Shown { kind: OverlayKind::Recognizing, partial, .. }
        if partial == "途中の文字"));
}

#[test]
fn server_mode_hides_empty_streaming_overlay_after_vad() {
    let settings = settings_with(|settings| settings.endpoint_mode = EndpointMode::Server);
    let mut core = streaming_core(settings, 0);
    assert!(matches!(core.overlay(0), OverlayView::Shown { .. }));

    core.speech_ended(100);

    assert_eq!(core.session.state(), SessionState::Streaming);
    assert!(matches!(core.overlay(100), OverlayView::Hidden));
}

#[test]
fn server_mode_sends_nothing_when_local_vad_thinks_speech_ended() {
    let settings = settings_with(|settings| settings.endpoint_mode = EndpointMode::Server);
    let mut core = streaming_core(settings, 0);

    assert!(core.speech_ended(100).is_empty());
    assert!(core.speech_ended(200).is_empty());
}

#[test]
fn ordinary_two_point_five_eight_second_response_never_shows_waiting() {
    let settings = settings_with(|settings| settings.endpoint_mode = EndpointMode::Server);
    let mut core = streaming_core(settings, 0);

    core.speech_ended(100);
    core.periodic(100 + 2_580);

    assert!(matches!(core.overlay(100 + 2_580), OverlayView::Hidden));
}

#[test]
fn pending_wait_changes_at_four_and_ten_seconds() {
    let settings = settings_with(|settings| settings.endpoint_mode = EndpointMode::Server);
    let mut core = streaming_core(settings, 0);

    core.speech_ended(100);
    assert_eq!(kind_of(&core.overlay(4_100)), Some(OverlayKind::WaitingForResponse));
    assert_eq!(kind_of(&core.overlay(10_100)), Some(OverlayKind::StartingServer));
}

#[test]
fn pending_wait_is_not_rewound_when_the_next_speech_starts() {
    let settings = settings_with(|settings| settings.endpoint_mode = EndpointMode::Server);
    let mut core = streaming_core(settings, 0);

    core.speech_ended(100);
    let first_started_at = core.waits.pending_since_ms.expect("first wait");

    core.speech_started(4_100);
    assert_eq!(core.waits.pending_since_ms, Some(first_started_at));
    assert_eq!(kind_of(&core.overlay(4_100)), Some(OverlayKind::WaitingForResponse));

    core.speech_ended(4_200);
    assert_eq!(core.waits.pending_since_ms, Some(first_started_at));
}

#[test]
fn old_response_cannot_pop_the_newer_speech_wait_or_hide_its_overlay() {
    let settings = settings_with(|settings| {
        settings.endpoint_mode = EndpointMode::Server;
        settings.auto_paste = false;
        settings.commit_hold_ms = 0;
    });
    let mut core = streaming_core(settings, 0);

    core.speech_ended(100);
    let first_since = core.waits.pending_since_ms.expect("first wait");
    core.speech_started(200);
    core.speech_ended(300);
    let second_since = core.waits.pending_since_ms.expect("second wait");

    core.speech_started(400);
    core.handle_asr_event(AsrEvent::FinalText("古い結果".to_string()), 500);
    core.handle_asr_event(AsrEvent::Endpoint, 600);

    assert_eq!(first_since, second_since);
    assert!(core.waits.pending_since_ms.is_none());
    assert_eq!(kind_of(&core.overlay(600)), Some(OverlayKind::Recognizing));
}

#[test]
fn server_wait_shows_recognizing_after_one_and_a_half_seconds() {
    let settings = settings_with(|settings| settings.endpoint_mode = EndpointMode::Server);
    let mut core = streaming_core(settings, 0);

    core.speech_ended(100);

    assert!(matches!(&core.overlay(4_100), OverlayView::Shown { kind: OverlayKind::WaitingForResponse, committed, partial, error }
        if committed.is_empty() && partial.is_empty() && error.is_empty()));
}

#[test]
fn server_wait_changes_to_starting_server_after_six_and_a_half_seconds() {
    let settings = settings_with(|settings| settings.endpoint_mode = EndpointMode::Server);
    let mut core = streaming_core(settings, 0);

    core.speech_ended(100);
    assert_eq!(kind_of(&core.overlay(4_100)), Some(OverlayKind::WaitingForResponse));
    assert_eq!(kind_of(&core.overlay(10_100)), Some(OverlayKind::StartingServer));
}

#[test]
fn server_wait_stays_visible_and_keeps_its_start_time_during_the_next_speech() {
    let settings = settings_with(|settings| settings.endpoint_mode = EndpointMode::Server);
    let mut core = streaming_core(settings, 0);

    core.speech_ended(100);
    core.speech_started(4_100);

    assert_eq!(core.waits.pending_since_ms, Some(100));
    assert!(matches!(&core.overlay(4_100), OverlayView::Shown { kind: OverlayKind::WaitingForResponse, committed, partial, error }
        if committed.is_empty() && partial.is_empty() && error.is_empty()));

    core.speech_ended(4_200);
    assert_eq!(core.waits.pending_since_ms, Some(100));
}

#[test]
fn server_starting_wait_never_reverts_to_recognizing_for_a_new_speech() {
    let settings = settings_with(|settings| settings.endpoint_mode = EndpointMode::Server);
    let mut core = streaming_core(settings, 0);

    core.speech_ended(100);
    core.speech_started(10_100);
    core.speech_ended(10_200);

    assert_eq!(core.waits.pending_since_ms, Some(100));
    assert_eq!(kind_of(&core.overlay(10_200)), Some(OverlayKind::StartingServer));
}

#[test]
fn confirmed_server_transcript_clears_the_waiting_overlay() {
    let settings = settings_with(|settings| settings.endpoint_mode = EndpointMode::Server);
    let mut core = streaming_core(settings, 0);

    core.speech_ended(100);
    core.handle_asr_event(AsrEvent::FinalText("確定結果".to_string()), 4_100);

    assert!(core.waits.pending_since_ms.is_none());
    let kind = kind_of(&core.overlay(4_100));
    assert_ne!(kind, Some(OverlayKind::WaitingForResponse));
    assert_ne!(kind, Some(OverlayKind::StartingServer));
}

#[test]
fn server_response_before_wait_delay_never_shows_a_waiting_overlay() {
    let settings = settings_with(|settings| settings.endpoint_mode = EndpointMode::Server);
    let mut core = streaming_core(settings, 0);

    core.speech_ended(100);
    core.handle_asr_event(AsrEvent::Endpoint, 200);

    assert!(core.waits.pending_since_ms.is_none());
    assert!(matches!(core.overlay(200), OverlayView::Hidden));
}

#[test]
fn server_response_hides_waiting_overlay_after_transcript_commits() {
    let settings = settings_with(|settings| {
        settings.endpoint_mode = EndpointMode::Server;
        settings.auto_paste = false;
        settings.commit_hold_ms = 0;
    });
    let mut core = streaming_core(settings, 0);

    core.speech_ended(100);
    core.handle_asr_event(AsrEvent::FinalText("確定結果".to_string()), 4_100);
    core.handle_asr_event(AsrEvent::Endpoint, 4_200);

    assert!(core.waits.pending_since_ms.is_none());
    assert!(matches!(core.overlay(4_200), OverlayView::Hidden));
    assert!(core.transcript.is_empty());
    assert!(core.pending_commit.is_empty());
}

#[test]
fn fast_server_response_never_shows_a_waiting_overlay() {
    let settings = settings_with(|settings| settings.endpoint_mode = EndpointMode::Server);
    let mut core = streaming_core(settings, 0);

    core.speech_ended(100);

    assert!(matches!(core.overlay(100 + 3_900), OverlayView::Hidden));
}

#[test]
fn server_response_notice_replaces_the_waiting_overlay() {
    let settings = settings_with(|settings| settings.endpoint_mode = EndpointMode::Server);
    let mut core = streaming_core(settings, 0);

    core.speech_ended(100);
    let notice = AsrEvent::Notice {
        code: "gate_blocked".to_string(),
        message: "登録した声と一致しませんでした。".to_string(),
    };
    core.handle_asr_event(notice, 4_100);

    assert!(core.waits.pending_since_ms.is_none());
    assert_eq!(kind_of(&core.overlay(4_100)), Some(OverlayKind::Notice));
}

#[test]
fn server_response_error_replaces_the_waiting_overlay() {
    let settings = settings_with(|settings| settings.endpoint_mode = EndpointMode::Server);
    let mut core = streaming_core(settings, 0);

    core.speech_ended(100);
    let error = AsrError::Server { code: 503, error_type: "unavailable".to_string(), request_id: None };
    core.handle_asr_event(AsrEvent::Failed(error), 4_100);

    assert!(core.waits.pending_since_ms.is_none());
    assert_eq!(kind_of(&core.overlay(4_100)), Some(OverlayKind::Error));
}

#[test]
fn policy_close_shows_the_server_reason_in_the_overlay() {
    let settings = settings_with(|settings| settings.endpoint_mode = EndpointMode::Server);
    let mut core = streaming_core(settings, 0);

    let close = AsrEvent::Closed { code: Some(1008), reason: "not allowed".to_string() };
    core.handle_asr_event(close, 100);

    assert_eq!(core.session.state(), SessionState::Failed);
    assert!(matches!(&core.overlay(100), OverlayView::Shown { kind: OverlayKind::Error, committed, partial, error }
        if committed.is_empty() && partial.is_empty() && error == "not allowed"));
}

#[test]
fn server_mode_pauses_audio_after_endpoint_and_replays_preroll_on_next_speech() {
    let settings = settings_with(|settings| settings.endpoint_mode = EndpointMode::Server);
    let mut core = streaming_core(settings, 0);

    core.speech_ended(100);
    core.handle_asr_event(AsrEvent::Endpoint, 200);
    assert!(core.flags.server_audio_paused);

    assert!(core.handle_vad_samples(&[101, -202], 300).is_empty());

    let effects = core.speech_started(400);
    assert!(!core.flags.server_audio_paused);
    assert_eq!(names(&effects), strings(&["SendSpeechStart", "SendAudio([101, 0, 54, 255])"]));
}

#[test]
fn late_endpoint_keeps_the_next_speech_preroll_before_start_confirmation() {
    let settings = settings_with(|settings| settings.endpoint_mode = EndpointMode::Both);
    let mut core = streaming_core(settings, 0);

    assert_eq!(names(&core.speech_ended(100)), strings(&["SendFinalize"]));
    assert!(core.handle_vad_samples(&[101, -202], 200).is_empty());
    core.handle_asr_event(AsrEvent::Endpoint, 300);

    let effects = core.speech_started(400);
    assert_eq!(names(&effects), strings(&["SendSpeechStart", "SendAudio([101, 0, 54, 255])"]));
}

#[test]
fn server_endpoint_received_during_new_speech_does_not_pause_audio() {
    let settings = settings_with(|settings| settings.endpoint_mode = EndpointMode::Server);
    let mut core = streaming_core(settings, 0);
    assert!(core.flags.gate_speaking);

    core.handle_asr_event(AsrEvent::Endpoint, 100);

    assert!(!core.flags.server_audio_paused);
}

#[test]
fn delayed_endpoint_received_during_new_speech_does_not_close_the_session() {
    let settings = settings_with(|settings| {
        settings.auto_paste = false;
        settings.endpoint_mode = EndpointMode::Server;
    });
    let mut core = streaming_core(settings, 0);
    core.delayed_turn = Some(DelayedTurn { began_at_ms: 0, speech_ended: true });
    assert!(core.flags.gate_speaking);

    core.handle_asr_event(AsrEvent::Endpoint, 100);

    assert_eq!(core.session.state(), SessionState::Streaming);
    assert!(core.delayed_turn.is_some());

    core.speech_ended(200);
    core.handle_asr_event(AsrEvent::Endpoint, 300);

    assert_eq!(core.session.state(), SessionState::Closing);
}

#[test]
fn server_endpoint_during_speech_pauses_audio_once_the_gate_goes_quiet() {
    let settings = settings_with(|settings| settings.endpoint_mode = EndpointMode::Server);
    let mut core = streaming_core(settings, 0);
    assert!(core.flags.gate_speaking);

    core.handle_asr_event(AsrEvent::Endpoint, 100);
    assert!(!core.flags.server_audio_paused);

    core.speech_ended(200);
    assert!(core.flags.server_audio_paused);

    assert!(core.handle_vad_samples(&[101, -202], 300).is_empty());
}

#[test]
fn periodic_does_not_idle_close_while_finalize_response_is_pending() {
    let settings = settings_with(|settings| {
        settings.endpoint_mode = EndpointMode::Both;
        settings.idle_close_sec = 0;
    });
    let mut core = streaming_core(settings, 0);
    assert_eq!(names(&core.speech_ended(100)), strings(&["SendFinalize"]));

    let effects = core.periodic(1_100);

    assert_eq!(core.session.state(), SessionState::Streaming);
    assert!(core.flags.finalize_pending);
    assert!(effects.is_empty());
}

#[test]
fn client_mode_shows_finalizing_after_speech_until_the_result_arrives() {
    let mut core = test_core(default_settings());
    assert!(core.session.apply(SessionInput::Enable));
    assert!(core.session.apply(SessionInput::SpeechStarted));
    core.flags.has_transport = true;
    assert!(core.session.apply(SessionInput::Connected));
    let mut sent = names(&core.speech_started(0));
    sent.extend(names(&core.speech_ended(100)));

    assert_eq!(sent, strings(&["SendSpeechStart", "SendFinalize"]));
    assert_eq!(core.session.state(), SessionState::Streaming);
    assert_eq!(kind_of(&core.overlay(100)), Some(OverlayKind::Finalizing));

    core.handle_asr_event(AsrEvent::FinalizeDone, 200);
    assert!(!core.flags.finalize_pending);
}

#[test]
fn both_mode_finalizes_the_unclosed_server_segment_at_local_speech_end() {
    let settings = settings_with(|settings| settings.endpoint_mode = EndpointMode::Both);
    let mut core = streaming_core(settings, 0);

    assert_eq!(names(&core.speech_ended(100)), strings(&["SendFinalize"]));
    assert!(core.flags.finalize_pending);
    assert!(core.flags.server_audio_paused);

    assert!(core.handle_vad_samples(&[101, -202], 200).is_empty());

    let effects = core.speech_started(300);
    assert!(!core.flags.server_audio_paused);
    let sent = names(&effects);
    assert_eq!(sent[0], "SendSpeechStart");
    assert!(sent[1].starts_with("SendAudio"));
}

#[test]
fn speech_ending_frame_is_sent_before_finalize() {
    let settings = settings_with(|settings| settings.endpoint_mode = EndpointMode::Both);
    let mut core = streaming_core(settings, 0);

    let effects = core.handle_vad_frame(&[11, 22], &[GateEvent::SpeechEnded], 100);

    assert_eq!(names(&effects), strings(&["SendAudio([11, 0, 22, 0])", "SendFinalize"]));
}

#[test]
fn partial_after_finalize_is_ignored_until_next_speech() {
    let settings = settings_with(|settings| {
        settings.auto_paste = false;
        settings.commit_hold_ms = 0;
    });
    let mut core = streaming_core(settings, 0);
    assert_eq!(names(&core.speech_ended(100)), strings(&["SendFinalize"]));

    core.handle_asr_event(AsrEvent::FinalText("確定".to_string()), 200);
    core.handle_asr_event(AsrEvent::FinalizeDone, 300);

    assert!(core.transcript.is_empty());
    assert!(matches!(core.overlay(300), OverlayView::Hidden));
    assert!(core.pending_commit.is_empty());

    core.handle_asr_event(AsrEvent::PartialText("あ".to_string()), 400);
    assert!(core.transcript.is_empty());
    assert!(matches!(core.overlay(400), OverlayView::Hidden));

    core.handle_asr_event(AsrEvent::FinalText("遅延".to_string()), 500);
    assert!(core.transcript.is_empty());
    assert!(matches!(core.overlay(500), OverlayView::Hidden));
}

#[test]
fn partial_after_next_speech_started_is_shown() {
    let settings = settings_with(|settings| {
        settings.auto_paste = false;
        settings.commit_hold_ms = 0;
    });
    let mut core = streaming_core(settings, 0);
    core.speech_ended(100);
    core.handle_asr_event(AsrEvent::FinalizeDone, 200);
    assert!(matches!(core.overlay(200), OverlayView::Hidden));

    core.speech_started(300);
    core.handle_asr_event(AsrEvent::PartialText("次の".to_string()), 400);

    assert_eq!(core.transcript.partial(), "次の");
    assert!(matches!(&core.overlay(400), OverlayView::Shown { kind: OverlayKind::Recognizing, committed, partial, error }
        if committed.is_empty() && partial == "次の" && error.is_empty()));
}

#[test]
fn server_endpoint_mode_keeps_showing_partials() {
    let settings = settings_with(|settings| {
        settings.endpoint_mode = EndpointMode::Server;
        settings.auto_paste = false;
        settings.commit_hold_ms = 0;
    });
    let mut core = streaming_core(settings, 0);
    core.speech_ended(100);

    assert!(!core.flags.client_finalize_sent);
    core.handle_asr_event(AsrEvent::PartialText("サーバー".to_string()), 200);

    assert_eq!(core.transcript.partial(), "サーバー");
    assert!(matches!(&core.overlay(200), OverlayView::Shown { kind: OverlayKind::Recognizing, partial, .. }
        if partial == "サーバー"));
}

#[test]
fn speech_endpoint_hides_overlay_when_commit_hold_is_zero() {
    let settings = settings_with(|settings| {
        settings.auto_paste = false;
        settings.commit_hold_ms = 0;
    });
    let mut core = test_core(settings);
    assert!(core.session.apply(SessionInput::Enable));
    assert!(core.session.apply(SessionInput::SpeechStarted));
    assert!(core.session.apply(SessionInput::Connected));
    core.transcript.push_final("貼り付けテキスト");

    core.handle_asr_event(AsrEvent::Endpoint, 100);

    assert!(matches!(core.overlay(100), OverlayView::Hidden));
}

#[test]
fn zero_commit_hold_hides_overlay_immediately() {
    let settings = settings_with(|settings| {
        settings.auto_paste = false;
        settings.commit_hold_ms = 0;
    });
    let mut core = test_core(settings);

    commit_segment(&mut core, "即時非表示", 100);

    assert!(matches!(core.overlay(100), OverlayView::Hidden));
    assert!(core.shown.commit.is_none());
}

#[test]
fn asr_io_failure_uses_nonfatal_listening_recovery() {
    let mut session = otoa_input::session::Session::new();
    assert!(session.apply(SessionInput::Enable));
    assert!(session.apply(SessionInput::SpeechStarted));
    assert!(session.apply(SessionInput::Connected));

    let error = AsrError::Io("peer closed without close_notify".to_string());
    assert!(otoa_input::client::is_nonfatal_asr_error(&error));
    assert!(session.apply(SessionInput::Aborted));
    assert_eq!(session.state(), SessionState::Listening);
}

#[test]
fn failed_state_retries_after_its_delay() {
    let now = 100_000;
    let failed_at = now - otoa_input::controller::FAILED_RETRY_INITIAL_MS;
    assert!(otoa_input::controller::failed_retry_is_due(
        failed_at,
        otoa_input::controller::FAILED_RETRY_INITIAL_MS,
        now
    ));

    let mut session = otoa_input::session::Session::new();
    assert!(session.apply(SessionInput::Enable));
    assert!(session.apply(SessionInput::Failed));
    assert!(session.apply(SessionInput::Retry));
    assert_eq!(session.state(), SessionState::Listening);
}

#[test]
fn idle_close_never_fires_while_the_gate_is_speaking() {
    let now = 100_000;
    let old_endpoint = Some(now - 16_000);

    assert!(!otoa_input::controller::idle_close_is_due(
        SessionState::Streaming,
        true,
        false,
        old_endpoint,
        15,
        now
    ));
    assert!(otoa_input::controller::idle_close_is_due(
        SessionState::Streaming,
        false,
        false,
        old_endpoint,
        15,
        now
    ));
}

#[test]
fn idle_close_never_fires_while_a_response_is_still_pending() {
    let now = 100_000;
    let old_endpoint = Some(now - 16_000);

    assert!(!otoa_input::controller::idle_close_is_due(
        SessionState::Streaming,
        false,
        true,
        old_endpoint,
        15,
        now
    ));
}

#[test]
fn bundled_server_failure_uses_existing_error_overlay_path() {
    let message = "認識モデル kodama-ja-streaming-small が見つかりません";
    let mut core = test_core(default_settings());
    let readiness = otoa_input::connection::combine_readiness(
        otoa_input::connection::Readiness::Ready,
        Some(message),
    );

    core.require_connection(readiness);

    assert!(matches!(&core.overlay(0), OverlayView::Shown { kind: OverlayKind::Error, committed, partial, error }
        if committed.is_empty() && partial.is_empty() && error == message));
}

#[test]
fn server_endpoint_mode_uses_the_configured_min_silence() {
    // The probabilities 1.0 and 0.0 are over and under any threshold.
    let mut gate = SpeechGate::new(milliseconds_to_frames(0), milliseconds_to_frames(300));

    assert_eq!(gate.push(true), Some(GateEvent::SpeechStarted));
    for _ in 0..9 {
        assert_eq!(gate.push(false), None);
    }
    assert_eq!(gate.push(false), Some(GateEvent::SpeechEnded));
}

#[test]
fn a_re_recorded_voice_is_enrolled_through_the_same_warmup() {
    let mut core = warmup_core(default_settings());

    let (started, effects) = core.request_warmup(otoa_input::controller::WarmupReason::VoiceChanged, 1000);

    assert!(started);
    assert_eq!(names(&effects), strings(&["StartWarmup(VoiceChanged)"]));
    assert!(core.warmup.started_at_ms.is_some());
    assert_eq!(kind_of(&core.overlay(1000)), Some(OverlayKind::WarmingUp));
}

#[test]
fn changing_the_method_while_listening_takes_effect_now() {
    let settings = settings_with(|settings| {
        settings.endpoint_mode = EndpointMode::Server;
        settings.enrollment_eligible = true;
    });
    let mut core = streaming_core(settings, 0);
    assert!(!matches!(core.session.state(), SessionState::Disabled | SessionState::Failed));

    let next = settings_with(|settings| {
        settings.endpoint_mode = EndpointMode::Server;
        settings.enrollment_eligible = true;
        settings.route_backend = Some("my_voice_fast".to_string());
    });
    let change = SettingsChange {
        route_changed: true,
        microphone_changed: false,
        listening_turned_on: false,
        listening_turned_off: false,
    };
    let effects = core.settings_saved(
        next,
        8000,
        change,
        otoa_input::connection::Readiness::Ready,
        100,
    );

    assert_eq!(
        names(&effects),
        strings(&["ApplySettings", "CleanupAsr", "StartWarmup(SettingsChanged)"])
    );
    assert_eq!(core.settings.route_backend.as_deref(), Some("my_voice_fast"));
    assert!(!core.flags.has_transport);
}
