use otoa_input::check::{AsrError, AsrEvent};
use otoa_input::client::{str_contains, ControllerCore, CoreSettings, Effect, EndpointMode, LoginOutcome, WarmupOutcome};
use otoa_input::controller::{OverlayKind, OverlayView};
use otoa_input::connection::Readiness;
use otoa_input::session::SessionState;

fn settings(mode: EndpointMode) -> CoreSettings {
    CoreSettings {
        endpoint_mode: mode,
        auto_paste: true,
        paste_per_endpoint: true,
        commit_hold_ms: 1500,
        route_backend: None,
        enrollment_eligible: false,
        idle_close_sec: 30,
        splash_ms: 2500,
    }
}

fn names(effects: &[Effect]) -> Vec<String> {
    effects.iter().map(|e| format!("{:?}", e)).collect()
}

fn strings(list: &[&str]) -> Vec<String> {
    list.iter().map(|s| s.to_string()).collect()
}

/// A client streaming one utterance: listening, the pre-roll [1, 2] heard,
/// speech started at 1000 ms and the connection up.
fn streaming(mode: EndpointMode) -> ControllerCore {
    let mut core = ControllerCore::new(settings(mode), 16, 0);
    core.enable_listening();
    core.handle_vad_samples(&[1, 2], 900);
    core.speech_started(1000);
    let opened = core.open_session(None, 1000);
    assert_eq!(names(&opened), strings(&["StartAsr { preroll: [1, 2], deferred_audio: [] }"]));
    core.asr_started(None, vec![1, 2], Vec::new());
    let connected = core.handle_asr_event(AsrEvent::Connected, 1100);
    assert_eq!(names(&connected), strings(&["SendAudio([1, 0, 2, 0])", "UiState(Streaming)"]));
    core
}

#[test]
fn a_new_client_is_disabled_and_enabling_starts_listening() {
    let mut core = ControllerCore::new(settings(EndpointMode::Client), 16, 0);
    assert_eq!(core.session.state(), SessionState::Disabled);
    let effects = core.enable_listening();
    assert_eq!(names(&effects), strings(&["ResumeListening", "UiState(Listening)"]));
    assert_eq!(core.session.state(), SessionState::Listening);
}

#[test]
fn speech_while_listening_opens_a_session_after_enrollment() {
    let mut core = ControllerCore::new(settings(EndpointMode::Client), 16, 0);
    core.enable_listening();
    let effects = core.speech_started(1000);
    assert_eq!(names(&effects), strings(&["OpenSession { check_enrollment: true }"]));
    let opened = core.open_session(None, 1000);
    assert_eq!(names(&opened), strings(&["StartAsr { preroll: [], deferred_audio: [] }"]));
    assert_eq!(core.session.state(), SessionState::Connecting);
    let started = core.asr_started(None, Vec::new(), Vec::new());
    assert_eq!(names(&started), strings(&["UiState(Connecting)"]));
}

#[test]
fn an_enrollment_only_the_user_can_fix_fails_the_session() {
    let mut core = ControllerCore::new(settings(EndpointMode::Client), 16, 0);
    core.enable_listening();
    core.speech_started(1000);
    let effects = core.open_session(Some("声を登録してください".to_string()), 1000);
    assert_eq!(names(&effects), strings(&["UiState(Failed)"]));
    assert_eq!(core.session.state(), SessionState::Failed);
    match core.overlay(1000) {
        OverlayView::Shown { kind, error, .. } => {
            assert_eq!(kind, OverlayKind::Error);
            assert_eq!(error, "声を登録してください\nクリックで再試行");
        }
        other => panic!("unexpected overlay {:?}", other),
    }
}

#[test]
fn audio_while_connecting_waits_and_goes_out_on_connect() {
    let mut core = ControllerCore::new(settings(EndpointMode::Client), 16, 0);
    core.enable_listening();
    core.speech_started(1000);
    core.open_session(None, 1000);
    core.asr_started(None, Vec::new(), Vec::new());
    assert!(core.handle_vad_samples(&[3, -1], 1010).is_empty());
    assert!(core.handle_vad_samples(&[256], 1020).is_empty());
    let effects = core.handle_asr_event(AsrEvent::Connected, 1100);
    assert_eq!(
        names(&effects),
        strings(&["SendAudio([3, 0, 255, 255])", "SendAudio([0, 1])", "UiState(Streaming)"])
    );
}

#[test]
fn audio_while_streaming_is_sent_at_once() {
    let mut core = streaming(EndpointMode::Client);
    let effects = core.handle_vad_samples(&[7], 1200);
    assert_eq!(names(&effects), strings(&["SendAudio([7, 0])"]));
}

#[test]
fn client_endpointing_finalizes_and_pastes_the_answer() {
    let mut core = streaming(EndpointMode::Client);
    let ended = core.speech_ended(1500);
    assert_eq!(names(&ended), strings(&["SendFinalize"]));
    assert!(core.handle_asr_event(AsrEvent::FinalText("こんにちは".to_string()), 1600).is_empty());
    let done = core.handle_asr_event(AsrEvent::FinalizeDone, 1700);
    assert_eq!(names(&done), strings(&["Emit { text: \"こんにちは\", clipboard_only: false }"]));
    match core.overlay(1800) {
        OverlayView::Shown { kind, committed, .. } => {
            assert_eq!(kind, OverlayKind::Committed);
            assert_eq!(committed, "こんにちは");
        }
        other => panic!("unexpected overlay {:?}", other),
    }
}

#[test]
fn finalize_is_sent_once_per_utterance() {
    let mut core = streaming(EndpointMode::Client);
    assert_eq!(names(&core.speech_ended(1500)), strings(&["SendFinalize"]));
    assert!(core.speech_ended(1600).is_empty());
}

#[test]
fn text_after_the_answer_to_finalize_is_dropped() {
    let mut core = streaming(EndpointMode::Client);
    core.speech_ended(1500);
    core.handle_asr_event(AsrEvent::FinalizeDone, 1600);
    assert!(core.handle_asr_event(AsrEvent::FinalText("遅れた".to_string()), 1700).is_empty());
    assert_eq!(core.transcript.committed(), "");
}

#[test]
fn server_endpointing_sends_nothing_at_speech_end_and_commits_at_end() {
    let mut core = streaming(EndpointMode::Server);
    assert!(core.speech_ended(1500).is_empty());
    core.handle_asr_event(AsrEvent::FinalText("abc".to_string()), 1600);
    let effects = core.handle_asr_event(AsrEvent::Endpoint, 1700);
    assert_eq!(names(&effects), strings(&["Emit { text: \"abc\", clipboard_only: false }"]));
    // Audio pauses after `<end>` until the next speech: it goes to the pre-roll.
    assert!(core.handle_vad_samples(&[5], 1800).is_empty());
    let next = core.speech_started(1900);
    assert_eq!(names(&next), strings(&["SendSpeechStart", "SendAudio([5, 0])"]));
}

#[test]
fn a_blank_segment_is_not_handed_out() {
    let mut core = streaming(EndpointMode::Server);
    core.handle_asr_event(AsrEvent::FinalText("  ".to_string()), 1600);
    assert!(core.handle_asr_event(AsrEvent::Endpoint, 1700).is_empty());
}

#[test]
fn whole_session_pasting_waits_for_the_session_to_close() {
    let mut s = settings(EndpointMode::Server);
    s.paste_per_endpoint = false;
    let mut core = ControllerCore::new(s, 16, 0);
    core.enable_listening();
    core.speech_started(1000);
    core.open_session(None, 1000);
    core.asr_started(None, Vec::new(), Vec::new());
    core.handle_asr_event(AsrEvent::Connected, 1100);
    core.handle_asr_event(AsrEvent::FinalText("一".to_string()), 1200);
    assert!(core.handle_asr_event(AsrEvent::Endpoint, 1300).is_empty());
    core.handle_asr_event(AsrEvent::FinalText("二".to_string()), 1400);
    assert!(core.handle_asr_event(AsrEvent::Endpoint, 1500).is_empty());
    assert_eq!(core.pending_commit, "一二");
}

#[test]
fn text_before_the_expected_backend_fails_the_session() {
    let mut s = settings(EndpointMode::Client);
    s.route_backend = Some("kotoba".to_string());
    let mut core = ControllerCore::new(s, 16, 0);
    core.enable_listening();
    core.speech_started(1000);
    core.open_session(None, 1000);
    core.asr_started(None, Vec::new(), Vec::new());
    core.handle_asr_event(AsrEvent::Connected, 1100);
    let effects = core.handle_asr_event(AsrEvent::FinalText("x".to_string()), 1200);
    assert_eq!(names(&effects), strings(&["UiState(Failed)", "SendStop", "CleanupAsr"]));
    assert_eq!(core.transcript.committed(), "");
    assert_eq!(core.session.state(), SessionState::Failed);
}

#[test]
fn the_expected_backend_confirms_and_text_is_taken() {
    let mut s = settings(EndpointMode::Client);
    s.route_backend = Some("kotoba".to_string());
    let mut core = ControllerCore::new(s, 16, 0);
    core.enable_listening();
    core.speech_started(1000);
    core.open_session(None, 1000);
    core.asr_started(None, Vec::new(), Vec::new());
    core.handle_asr_event(AsrEvent::Connected, 1100);
    assert!(core.handle_asr_event(AsrEvent::Backend("kotoba".to_string()), 1150).is_empty());
    assert!(core.handle_asr_event(AsrEvent::FinalText("x".to_string()), 1200).is_empty());
    assert_eq!(core.transcript.committed(), "x");
}

#[test]
fn another_backend_fails_for_the_user() {
    let mut s = settings(EndpointMode::Client);
    s.route_backend = Some("kotoba".to_string());
    let mut core = ControllerCore::new(s, 16, 0);
    core.enable_listening();
    core.speech_started(1000);
    core.open_session(None, 1000);
    core.asr_started(None, Vec::new(), Vec::new());
    core.handle_asr_event(AsrEvent::Connected, 1100);
    let effects = core.handle_asr_event(AsrEvent::Backend("other".to_string()), 1150);
    assert_eq!(names(&effects), strings(&["UiState(Failed)", "SendStop", "CleanupAsr"]));
    // Only the user can fix it: no retry comes by itself.
    assert!(core.periodic(100_000).is_empty());
    assert_eq!(core.session.state(), SessionState::Failed);
}

#[test]
fn a_server_failure_is_retried_after_five_seconds() {
    let mut core = streaming(EndpointMode::Client);
    let failure = AsrError::Server { code: 500, error_type: "internal".to_string(), request_id: None };
    let effects = core.handle_asr_event(AsrEvent::Failed(failure), 2000);
    assert_eq!(names(&effects), strings(&["UiState(Failed)", "SendStop", "CleanupAsr"]));
    assert!(core.periodic(6999).is_empty());
    let retried = core.periodic(7000);
    assert_eq!(
        names(&retried),
        strings(&["UiState(Listening)", "ResumeListening", "ApplyPendingSettings"])
    );
    assert_eq!(core.failure.retry_delay_ms, 10_000);
}

#[test]
fn a_dropped_connection_goes_back_to_listening() {
    let mut core = streaming(EndpointMode::Client);
    let effects = core.handle_asr_event(AsrEvent::Failed(AsrError::ClosedEarly), 2000);
    assert_eq!(
        names(&effects),
        strings(&[
            "SendStop",
            "CleanupAsr",
            "UiState(Listening)",
            "ResumeListening",
            "ApplyPendingSettings",
        ])
    );
    assert_eq!(core.session.state(), SessionState::Listening);
}

#[test]
fn a_policy_close_fails_with_the_servers_reason() {
    let mut core = streaming(EndpointMode::Client);
    let event = AsrEvent::Closed { code: Some(1008), reason: "quota exceeded".to_string() };
    let effects = core.handle_asr_event(event, 2000);
    assert_eq!(names(&effects), strings(&["UiState(Failed)", "SendStop", "CleanupAsr"]));
    match core.overlay(2001) {
        OverlayView::Shown { kind, error, .. } => {
            assert_eq!(kind, OverlayKind::Error);
            assert_eq!(error, "quota exceeded");
        }
        other => panic!("unexpected overlay {:?}", other),
    }
}

#[test]
fn the_api_key_never_reaches_the_overlay() {
    let mut core = ControllerCore::new(settings(EndpointMode::Client), 16, 0);
    core.enable_listening();
    core.speech_started(1000);
    core.open_session(None, 1000);
    core.asr_started(Some("s3cr3t".to_string()), Vec::new(), Vec::new());
    core.handle_asr_event(AsrEvent::Connected, 1100);
    let event = AsrEvent::Closed { code: None, reason: "bad key s3cr3t".to_string() };
    core.handle_asr_event(event, 1200);
    match core.overlay(1201) {
        OverlayView::Shown { error, .. } => assert_eq!(error, "bad key [redacted]"),
        other => panic!("unexpected overlay {:?}", other),
    }
}

#[test]
fn disabling_while_streaming_finalizes_and_stops() {
    let mut core = streaming(EndpointMode::Client);
    let effects = core.disable_listening(2000);
    assert_eq!(
        names(&effects),
        strings(&["SuspendListening", "UiState(Closing)", "SendFinalize", "SendStop"])
    );
    assert_eq!(core.session.state(), SessionState::Stopping);
    assert!(!core.session.state().listening_enabled());
}

#[test]
fn disabling_while_listening_is_immediate() {
    let mut core = ControllerCore::new(settings(EndpointMode::Client), 16, 0);
    core.enable_listening();
    let effects = core.disable_listening(100);
    assert_eq!(names(&effects), strings(&["SuspendListening", "UiState(Disabled)"]));
    assert_eq!(core.session.state(), SessionState::Disabled);
}

#[test]
fn a_silent_connection_closes_after_the_idle_time() {
    let mut core = streaming(EndpointMode::Server);
    core.speech_ended(1500);
    core.handle_asr_event(AsrEvent::Endpoint, 1600);
    assert!(core.periodic(31_600).is_empty());
    let effects = core.periodic(31_601);
    assert_eq!(names(&effects), strings(&["SendFinalize", "SendStop", "UiState(Closing)"]));
    assert_eq!(core.session.state(), SessionState::Closing);
}

#[test]
fn closing_gives_up_after_eight_seconds() {
    let mut core = streaming(EndpointMode::Server);
    core.speech_ended(1500);
    core.handle_asr_event(AsrEvent::Endpoint, 1600);
    core.periodic(31_601);
    assert_eq!(core.session.state(), SessionState::Closing);
    assert!(core.periodic(39_600).is_empty());
    let effects = core.periodic(39_601);
    assert_eq!(
        names(&effects),
        strings(&[
            "SendStop",
            "CleanupAsr",
            "UiState(Listening)",
            "ResumeListening",
            "ApplyPendingSettings",
        ])
    );
    assert_eq!(core.session.state(), SessionState::Listening);
}

#[test]
fn connecting_gives_up_after_a_minute() {
    let mut core = ControllerCore::new(settings(EndpointMode::Client), 16, 0);
    core.enable_listening();
    core.speech_started(1000);
    core.open_session(None, 1000);
    core.asr_started(None, Vec::new(), Vec::new());
    assert!(core.periodic(60_999).is_empty());
    let effects = core.periodic(61_000);
    assert_eq!(
        names(&effects),
        strings(&[
            "SendStop",
            "CleanupAsr",
            "UiState(Listening)",
            "ResumeListening",
            "ApplyPendingSettings",
        ])
    );
    assert_eq!(core.session.state(), SessionState::Listening);
}

#[test]
fn waiting_audio_drops_the_oldest_frames_first() {
    let mut core = ControllerCore::new(settings(EndpointMode::Client), 16, 0);
    core.enable_listening();
    core.speech_started(1000);
    core.open_session(None, 1000);
    core.asr_started(None, Vec::new(), Vec::new());
    let frame = vec![0i16; 400_000];
    core.handle_vad_samples(&frame, 1010);
    core.handle_vad_samples(&frame, 1020);
    assert_eq!(core.pending_audio.len(), 2);
    assert_eq!(core.pending_audio_dropped_frames, 0);
    core.handle_vad_samples(&[9], 1030);
    assert_eq!(core.pending_audio.len(), 3);
    core.handle_vad_samples(&frame, 1040);
    assert_eq!(core.pending_audio_dropped_frames, 1);
    assert_eq!(core.pending_audio.len(), 3);
    assert_eq!(core.pending_audio[0].len(), 800_000);
    assert_eq!(core.pending_audio[1], vec![9, 0]);
}

#[test]
fn speech_after_a_long_silence_waits_for_a_warm_up_and_is_only_copied() {
    let mut s = settings(EndpointMode::Client);
    s.enrollment_eligible = true;
    let mut core = ControllerCore::new(s, 16, 0);
    core.enable_listening();
    core.handle_vad_samples(&[1], 900);
    let started = core.speech_started(1000);
    assert_eq!(names(&started), strings(&["StartWarmup(BeforeSpeech)"]));
    assert!(core.handle_vad_samples(&[2], 1010).is_empty());
    assert!(core.speech_ended(1500).is_empty());
    match core.overlay(1600) {
        OverlayView::Shown { kind, .. } => assert_eq!(kind, OverlayKind::WarmingUp),
        other => panic!("unexpected overlay {:?}", other),
    }
    let ready = core.warmup_finished(WarmupOutcome::Ready, 2000);
    assert_eq!(names(&ready), strings(&["StartAsr { preroll: [1], deferred_audio: [[2]] }"]));
    core.asr_started(None, vec![1], vec![vec![2]]);
    let connected = core.handle_asr_event(AsrEvent::Connected, 2100);
    assert_eq!(
        names(&connected),
        strings(&["SendAudio([1, 0])", "SendAudio([2, 0])", "UiState(Streaming)", "SendFinalize"])
    );
    core.handle_asr_event(AsrEvent::FinalText("遅延".to_string()), 2200);
    let done = core.handle_asr_event(AsrEvent::FinalizeDone, 2300);
    assert_eq!(names(&done), strings(&["Emit { text: \"遅延\", clipboard_only: true }"]));
}

#[test]
fn a_warm_up_the_user_must_fix_drops_held_back_speech() {
    let mut s = settings(EndpointMode::Client);
    s.enrollment_eligible = true;
    let mut core = ControllerCore::new(s, 16, 0);
    core.enable_listening();
    core.speech_started(1000);
    let effects = core.warmup_finished(WarmupOutcome::NeedsUserAction("登録が必要です".to_string()), 2000);
    assert_eq!(names(&effects), strings(&["UiState(Failed)"]));
    assert!(core.deferred.is_none());
    assert_eq!(core.session.state(), SessionState::Failed);
}

#[test]
fn a_remote_warm_up_failure_backs_off() {
    let mut s = settings(EndpointMode::Client);
    s.enrollment_eligible = true;
    let mut core = ControllerCore::new(s, 16, 0);
    core.enable_listening();
    core.speech_started(1000);
    core.warmup_finished(WarmupOutcome::RetryableRemote, 2000);
    assert_eq!(core.warmup.retry_at_ms, Some(7000));
    assert_eq!(core.warmup.retry_delay_ms, 10_000);
}

#[test]
fn tentative_text_is_shown_while_recognizing() {
    let mut core = streaming(EndpointMode::Server);
    core.handle_asr_event(AsrEvent::PartialText("こん".to_string()), 1200);
    match core.overlay(1201) {
        OverlayView::Shown { kind, partial, .. } => {
            assert_eq!(kind, OverlayKind::Recognizing);
            assert_eq!(partial, "こん");
        }
        other => panic!("unexpected overlay {:?}", other),
    }
}

#[test]
fn a_long_wait_for_the_server_is_shown() {
    let mut core = streaming(EndpointMode::Server);
    core.speech_ended(1500);
    match core.overlay(5500) {
        OverlayView::Shown { kind, .. } => assert_eq!(kind, OverlayKind::WaitingForResponse),
        other => panic!("unexpected overlay {:?}", other),
    }
    match core.overlay(11_500) {
        OverlayView::Shown { kind, .. } => assert_eq!(kind, OverlayKind::StartingServer),
        other => panic!("unexpected overlay {:?}", other),
    }
    core.handle_asr_event(AsrEvent::PartialText(String::new()), 11_600);
    assert!(core.waits.pending_since_ms.is_none());
}

#[test]
fn a_notice_is_shown_for_three_seconds() {
    let mut core = streaming(EndpointMode::Server);
    let event = AsrEvent::Notice { code: "busy".to_string(), message: "混雑しています".to_string() };
    core.handle_asr_event(event, 2000);
    match core.overlay(4999) {
        OverlayView::Shown { kind, error, .. } => {
            assert_eq!(kind, OverlayKind::Notice);
            assert_eq!(error, "混雑しています");
        }
        other => panic!("unexpected overlay {:?}", other),
    }
    core.periodic(5000);
    assert!(core.shown.notice.is_none());
}

#[test]
fn toggling_from_disabled_starts_listening_when_ready() {
    let mut core = ControllerCore::new(settings(EndpointMode::Client), 16, 0);
    let effects = core.toggle_listening(Readiness::Ready, 0);
    assert_eq!(names(&effects), strings(&["ResumeListening", "UiState(Listening)"]));
    let off = core.toggle_listening(Readiness::Ready, 10);
    assert_eq!(names(&off), strings(&["SuspendListening", "UiState(Disabled)"]));
}

#[test]
fn toggling_without_a_login_starts_the_login() {
    let mut core = ControllerCore::new(settings(EndpointMode::Client), 16, 0);
    let effects = core.toggle_listening(Readiness::NeedsLogin { message: "ログインしてください".to_string() }, 0);
    assert_eq!(names(&effects), strings(&["StartLogin"]));
    assert_eq!(core.session.state(), SessionState::Disabled);
}

#[test]
fn toggling_with_a_setup_missing_shows_what_to_set_up() {
    let mut core = ControllerCore::new(settings(EndpointMode::Client), 16, 0);
    let effects = core.toggle_listening(Readiness::NeedsSetup { message: "モデルがありません".to_string() }, 0);
    assert_eq!(names(&effects), strings(&["UiState(Disabled)"]));
    match core.overlay(0) {
        OverlayView::Shown { kind, error, .. } => {
            assert_eq!(kind, OverlayKind::Error);
            assert_eq!(error, "モデルがありません");
        }
        other => panic!("unexpected overlay {:?}", other),
    }
}

#[test]
fn a_lost_login_stops_a_running_session() {
    let mut core = streaming(EndpointMode::Client);
    let effects = core.require_connection(Readiness::NeedsLogin { message: "再ログイン".to_string() });
    assert_eq!(
        names(&effects),
        strings(&["SuspendListening", "SendStop", "CleanupAsr", "UiState(Disabled)"])
    );
    assert_eq!(core.session.state(), SessionState::Disabled);
    match core.overlay(5000) {
        OverlayView::Shown { kind, error, .. } => {
            assert_eq!(kind, OverlayKind::LoginNeeded);
            assert_eq!(error, "再ログイン");
        }
        other => panic!("unexpected overlay {:?}", other),
    }
}

#[test]
fn a_ready_connection_requires_nothing() {
    let mut core = streaming(EndpointMode::Client);
    assert!(core.require_connection(Readiness::Ready).is_empty());
    assert_eq!(core.session.state(), SessionState::Streaming);
}

fn change(route: bool, microphone: bool, on: bool, off: bool) -> otoa_input::client::SettingsChange {
    otoa_input::client::SettingsChange {
        route_changed: route,
        microphone_changed: microphone,
        listening_turned_on: on,
        listening_turned_off: off,
    }
}

#[test]
fn settings_saved_during_a_session_wait_for_its_end() {
    let mut core = streaming(EndpointMode::Client);
    let mut next = settings(EndpointMode::Client);
    next.commit_hold_ms = 0;
    let effects = core.settings_saved(next, 32, change(false, false, false, false), Readiness::Ready, 2000);
    assert_eq!(names(&effects), strings(&["HoldSettings"]));
    assert_eq!(core.settings.commit_hold_ms, 1500);
}

#[test]
fn another_microphone_is_switched_to_at_once() {
    let mut core = streaming(EndpointMode::Client);
    let effects = core.settings_saved(
        settings(EndpointMode::Client),
        32,
        change(false, true, false, false),
        Readiness::Ready,
        2000,
    );
    assert_eq!(names(&effects), strings(&["RestartMicrophone", "HoldSettings"]));
}

#[test]
fn settings_saved_while_disabled_apply_and_may_start_listening() {
    let mut core = ControllerCore::new(settings(EndpointMode::Client), 16, 0);
    let mut next = settings(EndpointMode::Server);
    next.idle_close_sec = 5;
    let effects = core.settings_saved(next, 32, change(false, false, true, false), Readiness::Ready, 0);
    assert_eq!(
        names(&effects),
        strings(&["ApplySettings", "ResumeListening", "UiState(Listening)"])
    );
    assert_eq!(core.settings.endpoint_mode, EndpointMode::Server);
    assert_eq!(core.settings.idle_close_sec, 5);
    core.preroll.push(&[0; 40]);
    assert_eq!(core.preroll.len(), 32);
}

#[test]
fn held_settings_that_turn_listening_off_stop_listening() {
    let mut core = ControllerCore::new(settings(EndpointMode::Client), 16, 0);
    core.enable_listening();
    let effects = core.apply_held_settings(settings(EndpointMode::Server), 16, true, 100);
    assert_eq!(names(&effects), strings(&["SuspendListening", "UiState(Disabled)"]));
    assert_eq!(core.settings.endpoint_mode, EndpointMode::Server);
    let quiet = core.apply_held_settings(settings(EndpointMode::Client), 16, false, 200);
    assert!(quiet.is_empty());
}

fn shown_error(core: &ControllerCore, now_ms: u64) -> String {
    match core.overlay(now_ms) {
        OverlayView::Shown { error, .. } => error,
        other => panic!("unexpected overlay {:?}", other),
    }
}

#[test]
fn asking_to_log_in_starts_the_worker() {
    let mut core = ControllerCore::new(settings(EndpointMode::Client), 16, 0);
    let effects = core.login_requested(false, true, 0);
    assert_eq!(names(&effects), strings(&["StartLoginWorker"]));
}

#[test]
fn asking_to_log_in_while_a_login_runs_shows_progress() {
    let mut core = ControllerCore::new(settings(EndpointMode::Client), 16, 0);
    let effects = core.login_requested(true, true, 0);
    assert_eq!(names(&effects), strings(&["LoginProgress(InProgress)"]));
    assert_eq!(shown_error(&core, 0), "ログイン処理中…ブラウザで操作してください");
}

#[test]
fn asking_to_log_in_where_none_is_needed_says_so() {
    let mut core = ControllerCore::new(settings(EndpointMode::Client), 16, 0);
    let effects = core.login_requested(false, false, 0);
    assert_eq!(names(&effects), strings(&["RefreshLoginState"]));
    assert_eq!(shown_error(&core, 0), "この接続ではログインは不要です");
}

#[test]
fn a_started_login_shows_progress() {
    let mut core = ControllerCore::new(settings(EndpointMode::Client), 16, 0);
    let effects = core.login_started(0);
    assert_eq!(names(&effects), strings(&["LoginProgress(InProgress)"]));
}

#[test]
fn a_login_that_went_through_starts_listening_when_wanted() {
    let mut core = ControllerCore::new(settings(EndpointMode::Client), 16, 0);
    let effects = core.login_finished(LoginOutcome::Succeeded, true, Readiness::Ready, 0);
    assert_eq!(
        names(&effects),
        strings(&["RefreshAccount", "RefreshLoginState", "ResumeListening", "UiState(Listening)"])
    );
    assert_eq!(core.session.state(), SessionState::Listening);
}

#[test]
fn a_login_that_went_through_leaves_listening_off_when_not_wanted() {
    let mut core = ControllerCore::new(settings(EndpointMode::Client), 16, 0);
    let effects = core.login_finished(LoginOutcome::Succeeded, false, Readiness::Ready, 0);
    assert_eq!(names(&effects), strings(&["RefreshAccount", "RefreshLoginState"]));
    assert_eq!(core.session.state(), SessionState::Disabled);
}

#[test]
fn a_login_that_timed_out_says_so() {
    let mut core = ControllerCore::new(settings(EndpointMode::Client), 16, 0);
    let effects = core.login_finished(
        LoginOutcome::Failed("login timed out after 300s".to_string()),
        true,
        Readiness::Ready,
        0,
    );
    assert_eq!(names(&effects), strings(&["RefreshAccount", "RefreshLoginState"]));
    assert_eq!(shown_error(&core, 0), "ログインがタイムアウトしました");
}

#[test]
fn a_failed_login_shows_the_first_line_of_its_error() {
    let mut core = ControllerCore::new(settings(EndpointMode::Client), 16, 0);
    let effects = core.login_finished(
        LoginOutcome::Failed("denied\nmore detail".to_string()),
        true,
        Readiness::Ready,
        0,
    );
    assert_eq!(names(&effects), strings(&["LoginProgress(Failed { reason: \"denied\" })"]));
    assert_eq!(shown_error(&core, 0), "ログイン失敗: denied");
    assert_eq!(core.session.state(), SessionState::Disabled);
}

#[test]
fn contains_finds_a_piece_anywhere() {
    assert!(str_contains("login timed out", "timed out"));
    assert!(str_contains("abc", ""));
    assert!(str_contains("abc", "abc"));
    assert!(!str_contains("ab", "abc"));
    assert!(!str_contains("time out", "timed out"));
}

#[test]
fn a_new_client_shows_the_splash_until_it_times_out() {
    let mut core = ControllerCore::new(settings(EndpointMode::Client), 16, 1000);
    assert!(matches!(core.overlay(1000), OverlayView::Splash));
    core.enable_listening();
    assert!(matches!(core.overlay(1100), OverlayView::Splash));
    assert!(core.periodic(3499).is_empty());
    assert!(matches!(core.overlay(3499), OverlayView::Splash));
    let effects = core.periodic(3500);
    assert_eq!(names(&effects), strings(&["CheckConnection"]));
    assert!(matches!(core.overlay(3500), OverlayView::Hidden));
    assert!(core.periodic(3600).is_empty());
}

#[test]
fn anything_drawn_ends_the_splash() {
    let mut core = ControllerCore::new(settings(EndpointMode::Client), 16, 0);
    core.require_connection(Readiness::NeedsSetup { message: "モデルがありません".to_string() });
    assert_eq!(shown_error(&core, 10), "モデルがありません");
    assert!(core.periodic(5000).is_empty());
}

#[test]
fn a_ready_connection_leaves_the_splash_up() {
    let mut core = ControllerCore::new(settings(EndpointMode::Client), 16, 0);
    assert!(core.require_connection(Readiness::Ready).is_empty());
    assert!(matches!(core.overlay(10), OverlayView::Splash));
}
