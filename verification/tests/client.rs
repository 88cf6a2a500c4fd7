use otoa_input::check::{
    probe_commands, ProbeCommand,
    config_key, connect_failed_line, not_ready_line, on_disconnected, redact_secret, AsrError, AsrEvent, CheckStep, EventKind, ProbeCheck,
    POLICY_REJECTION_EXIT_CODE, POLICY_VIOLATION_CLOSE_CODE,
};
use otoa_input::cli::{
    partial_path,
    launch_mode, model_details, plan, preview_update, resolve_url, server_arguments,
    startup_error, AsrEngine, LaunchMode, PreviewScenario,
};
use otoa_input::connection::{
    resolve_auth_token, SelfHostedProvider,
    combine_readiness, endpoint_with_auth_token, enrollment_outcome, EnrollOutcome, Readiness,
};
use otoa_input::controller::{
    effective_preroll_ms, is_user_action_failure_message, level_status, milliseconds_to_samples,
    next_enroll_retry_delay, next_failed_retry_delay, LevelStatus, OverlayKind, OverlayView,
    WarmupReason, ENROLL_RETRY_INITIAL_MS, ENROLL_RETRY_MAX_MS, FAILED_RETRY_INITIAL_MS,
    FAILED_RETRY_MAX_MS,
};
use otoa_input::display::{
    display_error, display_text, overlay_status_text, toggle_label, tooltip, OverlayMode,
    STARTING_SERVER_SUBTITLE, STARTING_SERVER_TITLE, WAITING_FOR_RESPONSE_TITLE, WARMUP_SUBTITLE,
    WARMUP_TITLE,
};
use otoa_input::preroll::PreRoll;
use otoa_input::route::{
    is_loopback_host, local_port, loopback_host, route_host, route_is_local, LoopbackHost,
};
use otoa_input::session::SessionState;
use otoa_input::settings::{resolve_paste_shortcut, PasteShortcut, PasteShortcutSetting};

#[test]
fn enrollment_retry_backoff_is_capped_at_sixty_seconds() {
    assert_eq!(next_enroll_retry_delay(ENROLL_RETRY_INITIAL_MS), 10_000);
    assert_eq!(next_enroll_retry_delay(40_000), ENROLL_RETRY_MAX_MS);
    assert_eq!(next_enroll_retry_delay(ENROLL_RETRY_MAX_MS), ENROLL_RETRY_MAX_MS);
}

#[test]
fn missing_voice_setup_is_a_user_action_failure() {
    assert!(is_user_action_failure_message(
        "声の登録が必要です。設定の「声」で参照音声を録音してから、もう一度話してください。"
    ));
    assert!(is_user_action_failure_message(
        "参照音声が見つかりません。設定の「声」で声を登録し直してから、もう一度話してください。"
    ));
}

#[test]
fn ordinary_failures_are_not_user_action_failures() {
    assert!(!is_user_action_failure_message("音声認識サービスへの接続に失敗しました"));
    assert!(is_user_action_failure_message("サーバー URL を設定してください"));
}

#[test]
fn auto_paste_shortcut_resolves_to_shift_insert() {
    assert_eq!(
        resolve_paste_shortcut(PasteShortcutSetting::Auto),
        PasteShortcut::ShiftInsert
    );
}

#[test]
fn bundled_server_failure_becomes_setup_readiness_when_provider_is_ready() {
    assert_eq!(
        combine_readiness(Readiness::Ready, Some("モデルが見つかりません")),
        Readiness::NeedsSetup {
            message: "モデルが見つかりません".to_string()
        }
    );
}

#[test]
fn provider_readiness_takes_priority_over_bundled_server_failure() {
    let provider_readiness = Readiness::NeedsLogin {
        message: "ログインしてください".to_string(),
    };
    assert_eq!(
        combine_readiness(provider_readiness.clone(), Some("ローカルモデルエラー")),
        provider_readiness
    );
}

#[test]
fn a_failed_warmup_is_a_retryable_remote_failure() {
    assert_eq!(enrollment_outcome(None), EnrollOutcome::Ready);
    assert_eq!(enrollment_outcome(Some(Ok(()))), EnrollOutcome::Ready);
    assert_eq!(
        enrollment_outcome(Some(Err("timeout".to_string()))),
        EnrollOutcome::RetryableRemote("timeout".to_string())
    );
}

#[test]
fn preroll_covers_gate_confirmation_and_one_silence_gap() {
    let preroll_ms = effective_preroll_ms(500, 200, 800);
    let mut preroll = PreRoll::new(milliseconds_to_samples(preroll_ms));
    preroll.push(&vec![1; milliseconds_to_samples(1_100)]);

    assert_eq!(preroll.take().len(), milliseconds_to_samples(1_032));
}

#[test]
fn clip_warning_requires_more_than_point_one_percent() {
    assert_eq!(level_status(20_000, 2, 1_000), LevelStatus::Clipped);
    assert_eq!(level_status(20_000, 1, 1_000), LevelStatus::Normal);
}

#[test]
fn normal_level_is_not_warning() {
    assert_eq!(level_status(16_384, 0, 1_000), LevelStatus::Normal);
}

#[test]
fn quiet_level_is_warning_below_three_percent() {
    assert_eq!(level_status(983, 0, 1_000), LevelStatus::TooQuiet);
}

#[test]
fn failed_retry_delay_backoff_is_capped() {
    let mut delay = FAILED_RETRY_INITIAL_MS;
    let mut delays = Vec::new();
    for _ in 0..4 {
        delays.push(delay);
        delay = next_failed_retry_delay(delay);
    }
    assert_eq!(delays, [5_000, 10_000, 20_000, FAILED_RETRY_MAX_MS]);
    assert_eq!(next_failed_retry_delay(FAILED_RETRY_MAX_MS), FAILED_RETRY_MAX_MS);
}

#[test]
fn the_reason_has_its_own_name() {
    assert_eq!(WarmupReason::SettingsChanged.as_str(), "settings_changed");
    assert_ne!(
        WarmupReason::SettingsChanged.as_str(),
        WarmupReason::BeforeSpeech.as_str()
    );
    assert_ne!(
        WarmupReason::SettingsChanged.as_str(),
        WarmupReason::VoiceChanged.as_str()
    );
}

#[test]
fn serve_flag_is_removed_before_forwarding_server_options() {
    let arguments = vec![
        "--port=9000".to_string(),
        "--serve".to_string(),
        "--asr-model-dir".to_string(),
        "/tmp/model".to_string(),
    ];

    assert_eq!(
        server_arguments(&arguments),
        Some(vec![
            "--port=9000".to_string(),
            "--asr-model-dir".to_string(),
            "/tmp/model".to_string(),
        ])
    );
}

#[test]
fn arguments_without_serve_flag_remain_in_client_mode() {
    let arguments = vec!["--check-connection".to_string()];
    assert_eq!(server_arguments(&arguments), None);
}

fn arguments(list: &[&str]) -> Vec<String> {
    list.iter().map(|argument| argument.to_string()).collect()
}

#[test]
fn launch_mode_follows_the_documented_order() {
    assert!(matches!(
        launch_mode(&arguments(&["--help", "--serve"])),
        LaunchMode::Serve(rest) if rest == vec!["--help".to_string()]
    ));
    assert!(matches!(launch_mode(&arguments(&["-V", "-h"])), LaunchMode::Help));
    assert!(matches!(launch_mode(&arguments(&["--version"])), LaunchMode::Version));
    assert!(matches!(
        launch_mode(&arguments(&["--preview-overlay=listening"])),
        LaunchMode::PreviewOverlay(PreviewScenario::Listening)
    ));
    assert!(matches!(
        launch_mode(&arguments(&["--preview-overlay"])),
        LaunchMode::Invalid(message) if message == "--preview-overlay は =状態 で指定してください"
    ));
    assert!(matches!(
        launch_mode(&arguments(&["--preview-overlay=bogus"])),
        LaunchMode::Invalid(message) if message.starts_with("未知の preview 状態です: bogus（")
    ));
    assert!(matches!(
        launch_mode(&arguments(&["--preview-settings"])),
        LaunchMode::PreviewSettings(page) if page == "general"
    ));
    assert!(matches!(
        launch_mode(&arguments(&["--preview-settings=mic"])),
        LaunchMode::PreviewSettings(page) if page == "mic"
    ));
    assert!(matches!(
        launch_mode(&arguments(&["--paste-test", "テキスト"])),
        LaunchMode::PasteTest(text) if text == "テキスト"
    ));
    assert!(matches!(
        launch_mode(&arguments(&["--paste-test", "--check-connection"])),
        LaunchMode::PasteTest(text) if text == "Otoa Input 貼り付けテスト"
    ));
    assert!(matches!(
        launch_mode(&arguments(&["--check-connection"])),
        LaunchMode::Client { check_connection: true }
    ));
    assert!(matches!(
        launch_mode(&arguments(&[])),
        LaunchMode::Client { check_connection: false }
    ));
}

#[test]
fn preview_scenarios_parse_by_name() {
    assert_eq!(PreviewScenario::parse("splash"), Some(PreviewScenario::Splash));
    assert_eq!(PreviewScenario::parse("login"), Some(PreviewScenario::Login));
    assert_eq!(PreviewScenario::parse("warming-up"), Some(PreviewScenario::WarmingUp));
    assert_eq!(PreviewScenario::parse("Splash"), None);
}

#[test]
fn the_listening_preview_shows_the_recognizing_overlay_at_half_level() {
    let update = preview_update(PreviewScenario::Listening);
    assert!(matches!(
        update.overlay,
        OverlayView::Shown { kind: OverlayKind::Recognizing, ref committed, .. } if committed.is_empty()
    ));
    assert_eq!(update.peak, (0.5 * f64::from(i16::MAX)) as i16);
    let login = preview_update(PreviewScenario::Login);
    assert_eq!(login.peak, 0);
}

#[test]
fn the_warming_up_preview_shows_the_warming_up_overlay() {
    let update = preview_update(PreviewScenario::WarmingUp);
    assert!(matches!(
        update.overlay,
        OverlayView::Shown { kind: OverlayKind::WarmingUp, ref error, .. } if error.is_empty()
    ));
    assert_eq!(update.peak, 0);
}

#[test]
fn resolve_url_points_at_the_repository_main_revision() {
    assert_eq!(
        resolve_url("a/b", "onnx/x.onnx"),
        "https://huggingface.co/a/b/resolve/main/onnx/x.onnx"
    );
}

#[test]
fn k2_plan_lists_the_transducer_files() {
    let plan = plan(AsrEngine::K2);
    assert_eq!(plan.dir_name, "reazonspeech-k2-v2");
    assert_eq!(plan.files.len(), 4);
    assert!(plan.files.iter().any(|(_, local)| *local == "tokens.txt"));
    assert!(!plan.files.iter().any(|(remote, _)| remote.contains("int8")));
}

#[test]
fn kodama_plan_flattens_the_onnx_subdirectory() {
    let plan = plan(AsrEngine::Kodama);
    assert_eq!(plan.dir_name, "kodama-ja-streaming-small");
    assert_eq!(plan.files.len(), 6);
    assert!(plan
        .files
        .iter()
        .any(|(remote, local)| *remote == "onnx/encoder.onnx" && *local == "encoder.onnx"));
    assert!(plan.files.iter().any(|(_, local)| *local == "tokenizer.json"));
}

#[test]
fn model_details_name_the_directory_the_plan_fills() {
    for engine in [AsrEngine::K2, AsrEngine::Kodama] {
        assert_eq!(model_details(engine).0, plan(engine).dir_name);
    }
}

#[test]
fn unknown_engine_error_says_nothing_was_searched() {
    let error = startup_error("misspelled-engine", &[], "未知のエンジン");
    assert!(error.contains("選択中の認識エンジン: misspelled-engine"));
    assert!(error.contains("モデルディレクトリは探索していません"));
    assert!(error.contains("設定画面から reazonspeech または kodama を選べます"));
}

#[test]
fn startup_error_lists_every_searched_place() {
    let error = startup_error(
        "kodama",
        &["/a/models".to_string(), "/b/models".to_string()],
        "なし",
    );
    assert_eq!(
        error,
        "同梱の ASR サーバーを起動できません: なし\n選択中の認識エンジン: kodama\nモデルの探索先:\n- /a/models\n- /b/models\nアプリはこのまま起動します。設定画面から reazonspeech または kodama を選べます。"
    );
}

#[test]
fn warming_overlay_uses_the_required_title_and_instruction() {
    assert_eq!(WARMUP_TITLE, "起動中");
    assert_eq!(WARMUP_SUBTITLE, "まだ話さないでください");
    assert_eq!(
        overlay_status_text(OverlayMode::Shown(OverlayKind::WarmingUp), true),
        WARMUP_TITLE
    );
}

#[test]
fn waiting_overlays_use_the_required_text() {
    assert_eq!(WAITING_FOR_RESPONSE_TITLE, "認識中");
    assert_eq!(STARTING_SERVER_TITLE, "サーバーを起動しています");
    assert_eq!(STARTING_SERVER_SUBTITLE, "しばらくお待ちください");
    assert_eq!(
        overlay_status_text(OverlayMode::Shown(OverlayKind::WaitingForResponse), true),
        WAITING_FOR_RESPONSE_TITLE
    );
    assert_eq!(
        overlay_status_text(OverlayMode::Shown(OverlayKind::StartingServer), true),
        STARTING_SERVER_TITLE
    );
}

#[test]
fn committed_overlay_says_whether_it_pasted() {
    let committed = OverlayMode::Shown(OverlayKind::Committed);
    assert_eq!(overlay_status_text(committed, true), "貼り付けました");
    assert_eq!(overlay_status_text(committed, false), "コピーしました");
    assert_eq!(overlay_status_text(OverlayMode::Hidden, true), "");
}

#[test]
fn display_text_keeps_exactly_fifty_two_characters() {
    let text = "a".repeat(52);
    assert_eq!(
        display_text(&text),
        format!("{}\n{}", "a".repeat(26), "a".repeat(26))
    );
}

#[test]
fn display_text_keeps_the_tail_after_fifty_two_characters() {
    let text = format!("discard{}", "z".repeat(51));
    let displayed = display_text(&text);

    assert_eq!(
        displayed,
        format!("…{}\n{}", "z".repeat(25), "z".repeat(26))
    );
    assert!(!displayed.contains("discard"));
}

#[test]
fn display_text_truncates_japanese_at_character_boundaries() {
    let text = format!("捨てる{}末尾", "語".repeat(52));
    let displayed = display_text(&text);

    assert!(displayed.starts_with('…'));
    assert!(displayed.ends_with("末尾"));
    assert_eq!(
        displayed
            .chars()
            .filter(|character| *character != '\n')
            .count(),
        52
    );
}

#[test]
fn display_text_keeps_an_existing_line_break() {
    let text = format!("a\n{}", "b".repeat(40));
    assert_eq!(display_text(&text), text);
}

#[test]
fn long_error_wraps_instead_of_overflowing_one_line() {
    let text = "認識モデル kodama-ja-streaming-small が見つかりません。設定から認識エンジンを選び直すか、README の手順でモデルを置いてください";
    let displayed = display_error(text);
    assert!(displayed.contains('\n'), "not wrapped: {displayed}");
    for line in displayed.lines() {
        assert!(line.chars().count() <= 34, "line too long: {line}");
    }
    assert!(displayed.starts_with("認識モデル"), "beginning lost");
}

#[test]
fn short_error_is_unchanged() {
    assert_eq!(display_error("接続できません"), "接続できません");
}

#[test]
fn an_overlong_error_ends_with_an_ellipsis() {
    let text = "e".repeat(120);
    let displayed = display_error(&text);
    assert_eq!(
        displayed,
        format!("{}\n{}\n{}…", "e".repeat(34), "e".repeat(34), "e".repeat(33))
    );
}

#[test]
fn toggle_label_follows_session_state() {
    assert_eq!(toggle_label(SessionState::Disabled), "待受を始める");
    assert_eq!(toggle_label(SessionState::Stopping), "待受を始める");
    assert_eq!(toggle_label(SessionState::Listening), "待受を止める");
    assert_eq!(toggle_label(SessionState::Failed), "待受を止める");
}

#[test]
fn tooltip_follows_session_state() {
    assert_eq!(tooltip(SessionState::Disabled), "Otoa Input ・ 停止中");
    assert_eq!(tooltip(SessionState::Stopping), "Otoa Input ・ 停止中");
    assert_eq!(tooltip(SessionState::Listening), "Otoa Input ・ 待受中");
}

fn run_check(events: Vec<AsrEvent>) -> (i32, String) {
    let mut check = ProbeCheck::new();
    let mut output = String::new();
    for event in events {
        match check.on_event(&event, "") {
            CheckStep::Exit { code, lines } => {
                for line in lines {
                    output.push_str(&line);
                    output.push('\n');
                }
                return (code, output);
            }
            CheckStep::SendProbe | CheckStep::Wait => {}
        }
    }
    match on_disconnected() {
        CheckStep::Exit { code, lines } => {
            for line in lines {
                output.push_str(&line);
                output.push('\n');
            }
            (code, output)
        }
        _ => unreachable!(),
    }
}

#[test]
fn finished_after_a_probe_response_is_reported_as_success() {
    let (result, output) = run_check(vec![
        AsrEvent::Connected,
        AsrEvent::PartialText(String::new()),
        AsrEvent::FinalizeDone,
        AsrEvent::Finished,
    ]);

    assert_eq!(result, 0);
    assert!(output.starts_with("OK: connected, authenticated, finished\n"));
    assert!(output.ends_with(
        "events: Connected=1, FinalText=0, PartialText=1, SpeechEndpoint=0, FinalizeDone=1, Finished=1, Notice=0, Failed=0,\n"
    ));
}

#[test]
fn close_without_a_probe_response_is_not_reported_as_success() {
    let (result, output) = run_check(vec![
        AsrEvent::Connected,
        AsrEvent::Closed {
            code: Some(1000),
            reason: String::new(),
        },
        AsrEvent::Finished,
    ]);

    assert_eq!(result, 4);
    assert_eq!(
        output,
        "NG: connect failed: connection closed before receiving a response\n"
    );
}

#[test]
fn policy_close_reason_is_reported_as_rejection() {
    let (result, output) = run_check(vec![
        AsrEvent::Connected,
        AsrEvent::Closed {
            code: Some(POLICY_VIOLATION_CLOSE_CODE),
            reason: "not allowed".to_string(),
        },
    ]);
    assert_eq!(result, POLICY_REJECTION_EXIT_CODE);
    assert_eq!(output, "NG: not allowed\n");
}

#[test]
fn a_probe_is_sent_once_on_connect() {
    let mut check = ProbeCheck::new();
    assert!(matches!(check.on_event(&AsrEvent::Connected, ""), CheckStep::SendProbe));
    assert!(matches!(check.on_event(&AsrEvent::Connected, ""), CheckStep::Wait));
}

#[test]
fn finished_before_connecting_is_a_failure() {
    let (result, output) = run_check(vec![AsrEvent::Finished]);
    assert_eq!(result, 4);
    assert_eq!(output, "NG: connect failed: finished before connected\n");
}

#[test]
fn server_errors_hide_the_api_key() {
    let mut check = ProbeCheck::new();
    let step = check.on_event(
        &AsrEvent::Failed(AsrError::Server {
            code: 401,
            error_type: "bad key secret-key".to_string(),
            request_id: Some("req-secret-key".to_string()),
        }),
        "secret-key",
    );
    match step {
        CheckStep::Exit { code, lines } => {
            assert_eq!(code, 3);
            assert_eq!(
                lines,
                vec![
                    "NG: サーバーエラー bad key [redacted] (401)".to_string(),
                    "request_id: req-[redacted]".to_string(),
                ]
            );
        }
        _ => panic!("a server error ends the check"),
    }
}

#[test]
fn connection_failures_report_their_reason() {
    let (result, output) = run_check(vec![AsrEvent::Failed(AsrError::ClosedEarly)]);
    assert_eq!(result, 4);
    assert_eq!(
        output,
        "NG: connect failed: connection closed by server before finished\n"
    );
}

#[test]
fn timeout_names_the_last_event() {
    let mut check = ProbeCheck::new();
    check.on_event(&AsrEvent::Connected, "");
    check.on_event(&AsrEvent::Notice { code: "busy".to_string(), message: "m".to_string() }, "");
    match check.on_timeout() {
        CheckStep::Exit { code, lines } => {
            assert_eq!(code, 5);
            assert_eq!(
                lines,
                vec![
                    "NG: timeout waiting for finished".to_string(),
                    "last event: Notice".to_string(),
                ]
            );
        }
        _ => panic!("a timeout ends the check"),
    }
    assert_eq!(EventKind::SpeechEndpoint.label(), "SpeechEndpoint");
}

#[test]
fn redaction_replaces_every_occurrence() {
    assert_eq!(redact_secret("abcabc", "bc"), "a[redacted]a[redacted]");
    assert_eq!(redact_secret("aaa", "aa"), "[redacted]a");
    assert_eq!(redact_secret("keep", ""), "keep");
}

#[test]
fn auth_token_becomes_bearer_header_and_remains_available_for_redaction() {
    let endpoint = endpoint_with_auth_token(
        "ws://127.0.0.1:8770/asr/v1".to_string(),
        Some("local-regression-token".to_string()),
    );

    assert_eq!(
        endpoint.headers,
        vec![(
            "Authorization".to_string(),
            "Bearer local-regression-token".to_string()
        )]
    );
    assert_eq!(endpoint.api_key.as_deref(), Some("local-regression-token"));

    let config_key = if endpoint.headers.is_empty() {
        endpoint.api_key.clone()
    } else {
        None
    };
    assert_eq!(config_key, None);
}

#[test]
fn missing_auth_token_keeps_the_unauthenticated_handshake() {
    let endpoint = endpoint_with_auth_token("ws://127.0.0.1:8770/asr/v1".to_string(), None);

    assert!(endpoint.headers.is_empty());
    assert_eq!(endpoint.api_key, None);
}

#[test]
fn loopback_hosts_are_read_from_the_url() {
    assert!(matches!(
        route_host("ws://localhost:8770/"),
        Some(LoopbackHost::Localhost)
    ));
    assert!(matches!(
        route_host("ws://127.0.0.1:8770/asr/v1"),
        Some(LoopbackHost::Address(address)) if address == "127.0.0.1"
    ));
    assert!(matches!(
        route_host("ws://[::1]:8770/"),
        Some(LoopbackHost::Address(address)) if address == "::1"
    ));
    assert!(matches!(
        route_host("wss://asr.example.com/ws/asr"),
        Some(LoopbackHost::Address(address)) if address == "asr.example.com"
    ));
    assert!(route_host("not a url").is_none());
    assert!(matches!(loopback_host("[localhost]"), LoopbackHost::Localhost));
}

#[test]
fn local_port_is_found_only_for_this_machine() {
    assert_eq!(local_port("ws://127.0.0.1:8770/asr/v1"), Some(8770));
    assert_eq!(local_port("wss://localhost:9000"), Some(9000));
    assert_eq!(local_port("ws://[::1]:8770/"), Some(8770));
    assert_eq!(local_port("ws://example.com:8770/"), None);
    assert_eq!(local_port("http://127.0.0.1:8770/"), None);
    assert_eq!(local_port("ws://127.0.0.1/asr"), None);
    assert_eq!(local_port("ws://127.0.0.1:70000/"), None);
    assert_eq!(local_port("ws://127.0.0.1:+80/"), None);
}

#[test]
fn a_connection_that_is_not_ready_is_reported_and_not_tried() {
    assert_eq!(not_ready_line(&Readiness::Ready), None);
    assert_eq!(
        not_ready_line(&Readiness::NeedsLogin { message: "ログインしてください".to_string() }),
        Some("NG: ログインしてください".to_string())
    );
    assert_eq!(
        not_ready_line(&Readiness::NeedsSetup { message: "no model".to_string() }),
        Some("NG: no model".to_string())
    );
    assert_eq!(connect_failed_line("refused"), "NG: connect failed: refused");
    assert_eq!(config_key(true, Some("k".to_string())), Some("k".to_string()));
    assert_eq!(config_key(false, Some("k".to_string())), None);
}

#[test]
fn the_probe_is_nine_silent_frames_then_finalize_and_stop() {
    let commands = probe_commands();
    assert_eq!(commands.len(), 11);
    for command in &commands[..9] {
        match command {
            ProbeCommand::Audio(bytes) => {
                assert_eq!(bytes.len(), 512 * 2);
                assert!(bytes.iter().all(|b| *b == 0));
            }
            _ => panic!("expected audio"),
        }
    }
    assert!(matches!(commands[9], ProbeCommand::Finalize));
    assert!(matches!(commands[10], ProbeCommand::Stop));
}

#[test]
fn partial_path_appends_without_dropping_extensions() {
    assert_eq!(partial_path("/tmp/encoder.onnx.data"), "/tmp/encoder.onnx.data.part");
    assert_eq!(partial_path("/tmp/tokens.txt"), "/tmp/tokens.txt.part");
}

fn std_partial_path(dest: &str) -> String {
    let path = std::path::Path::new(dest);
    let mut name = path.file_name().unwrap_or_default().to_os_string();
    name.push(".part");
    path.with_file_name(name).to_str().unwrap().to_string()
}

#[test]
fn partial_path_reads_paths_as_std_does() {
    let cases = [
        "", "/", "//", ".", "..", "./", "a", "a/", "a//", "a/.", "a/./", "/a", "//a", "./a",
        "a/b", "a//b/", "a/./b", "/tmp/..", "a/../", "/tmp/foo/.", ".hidden", "a/.hidden",
        "...", "a/...", "/./", "x/./.",
    ];
    for case in cases {
        assert_eq!(partial_path(case), std_partial_path(case), "path {:?}", case);
    }
}

#[test]
fn an_empty_auth_token_counts_as_none() {
    assert_eq!(resolve_auth_token(Some(String::new()), None), None);
    assert_eq!(resolve_auth_token(Some(String::new()), Some(String::new())), None);
    assert_eq!(resolve_auth_token(Some(String::new()), Some("d".to_string())), Some("d".to_string()));
    assert_eq!(resolve_auth_token(Some("e".to_string()), Some("d".to_string())), Some("e".to_string()));
    assert_eq!(resolve_auth_token(None, Some("d".to_string())), Some("d".to_string()));
}

#[test]
fn the_default_endpoint_without_a_token_sends_no_header() {
    let endpoint = SelfHostedProvider.endpoint(None, Some(String::new()), None);
    assert_eq!(endpoint.url, "ws://127.0.0.1:8770/asr/v1");
    assert!(endpoint.headers.is_empty());
    assert_eq!(endpoint.api_key, None);
    let with_token = SelfHostedProvider.endpoint(None, None, Some("t".to_string()));
    assert_eq!(with_token.headers, vec![("Authorization".to_string(), "Bearer t".to_string())]);
    assert_eq!(with_token.api_key, Some("t".to_string()));
}

#[test]
fn loopback_route_detection_accepts_local_urls() {
    for url in ["ws://127.0.0.1:8770/asr/v1", "ws://localhost:8770/", "ws://[::1]:8770/"] {
        let parsed = url::Url::parse(url).expect("test URL should parse");
        assert!(is_loopback_host(parsed.host_str().unwrap()), "{url}");
        assert_eq!(route_is_local(url), Some(true), "{url}");
    }
}

#[test]
fn loopback_route_detection_rejects_remote_urls() {
    let parsed = url::Url::parse("wss://asr.example.com/ws/asr").expect("test URL should parse");
    assert!(!is_loopback_host(parsed.host_str().unwrap()));
    assert_eq!(route_is_local("wss://asr.example.com/ws/asr"), Some(false));
    assert_eq!(route_is_local("not a url"), None);
}

#[test]
fn loopback_hosts_are_read_as_ip_addresses() {
    let cases = [
        ("localhost", true), ("[localhost]", true), ("127.0.0.1", true), ("127.1.2.3", true),
        ("127.255.255.255", true), ("128.0.0.1", false), ("127.0.0.01", false),
        ("127.0.0.256", false), ("127.0.0", false), ("127.0.0.1.", false),
        ("127.0.0.1:80", false), ("0127.0.0.1", false), ("127.00.0.1", false),
        ("1.2.3.4", false), ("::1", true), ("[::1]", true), ("[[::1]]", true),
        ("0:0:0:0:0:0:0:1", true), ("::0:1", true), ("0::1", true), ("::", false),
        ("::2", false), ("1::", false), ("::ffff:127.0.0.1", false), ("::127.0.0.1", false),
        ("::0.0.0.1", true), ("0:0:0:0:0:0:0.0.0.1", true), ("0:0:0:0:0:0:0:0:1", false),
        ("0000:0000::0001", true), ("00000::1", false), ("::1:", false), (":::1", false),
        ("::1::", false), ("::01", true), ("::001", true), ("::0001", true),
        ("::00001", false), ("0:0:0:0:0:0:0::1", false), ("0:0:0:0:0:0::1", true),
        ("1:2:3:4:5:6:7::", false), ("::Ffff:1", false), ("::1%lo", false), ("", false),
        ("[", false), ("]", false), ("example.com", false), ("\u{ff10}.0.0.1", false),
        ("127.0.0.1 ", false), (" 127.0.0.1", false), ("0:0:0:0:0:0:1.2.3.4", false),
        ("0:0:0:0:0:0:0:1.2.3.4", false), ("::0.0.0.1.2", false), ("0::0.0.0.1", true),
        ("::0:0.0.0.1", true), ("::A:1", false), ("::0:0:0:0:0:0:1", true),
    ];
    for (host, local) in cases {
        assert_eq!(is_loopback_host(host), local, "host {:?}", host);
    }
}
