use otoa_input::agreement::Agreement;
use otoa_input::asr_session::{
    authorization_is_valid, constant_time_equal, DECODING_METHOD, FEATURE_DIM, SAMPLE_RATE,
};
use otoa_input::config::Config;

#[test]
fn measured_hypotheses_never_confirm_the_bad_cursor_text() {
    let hypotheses = [
        "おん",
        "ニュー",
        "入力のデモ",
        "入力のデモです",
        "入力のデモです",
        "入力のデモです",
        "入力のデモです",
        "入力のデモです",
        "話した内容がそのまま",
        "話した内容がそのままカーソル・イン・アン・アン・アン",
        "話した内容がそのままカーソル位置に貼り込みます",
        "話した内容がそのままカーソル位置に貼り付けられます",
        "話した内容がそのままカーソル位置に貼り付けられます",
        "話した内容がそのままカーソル位置に貼り付けられます",
    ];
    let mut agreement = Agreement::new(8);
    let mut previous_length = 0;

    for hypothesis in hypotheses {
        let confirmed = agreement.observe(hypothesis);
        assert!(!confirmed.contains("カーソル・イン・アン・アン・アン"));
        assert!(confirmed.chars().count() >= previous_length);
        previous_length = confirmed.chars().count();
    }
}

#[test]
fn unicode_inputs_do_not_split_characters() {
    let mut agreement = Agreement::new(1);
    assert_eq!(agreement.observe("▁日本語🙂末尾"), "");
    assert_eq!(agreement.observe("▁日本語🙂末端"), "▁日本語🙂");
}

#[test]
fn corrected_prefix_recovers_and_then_keeps_growing() {
    let mut agreement = Agreement::new(0);
    assert_eq!(agreement.observe("確定する接頭辞"), "");
    assert_eq!(agreement.observe("確定する接頭辞です"), "確定する接頭辞");
    assert_eq!(
        agreement.observe("訂正した内容に書き換えます"),
        "確定する接頭辞"
    );
    assert_eq!(
        agreement.observe("訂正した内容に書き換えます"),
        "訂正した内容に書き換えます"
    );
    assert_eq!(
        agreement.observe("訂正した内容に書き換えます。その後も伸びます"),
        "訂正した内容に書き換えます"
    );
}

#[test]
fn reset_removes_the_previous_utterance() {
    let mut agreement = Agreement::new(0);
    agreement.observe("最初の発話");
    assert_eq!(agreement.observe("最初の発話です"), "最初の発話");

    agreement.reset();

    assert_eq!(agreement.observe("次の発話"), "");
    assert_eq!(agreement.observe("次の発話です"), "次の発話");
}

#[test]
fn first_hypothesis_confirms_nothing_and_a_repeat_confirms_it() {
    let mut agreement = Agreement::new(0);
    assert_eq!(agreement.observe("同じ文"), "");
    assert_eq!(agreement.observe("同じ文"), "同じ文");
    assert_eq!(agreement.observe("同じ文"), "同じ文");
}

#[test]
fn recognizer_settings_are_fixed_by_design() {
    assert_eq!(SAMPLE_RATE, 16_000);
    assert_eq!(FEATURE_DIM, 80);
    assert_eq!(DECODING_METHOD, "greedy_search");
}

#[test]
fn defaults_keep_design_values() {
    let config = Config::default();
    assert_eq!(config.host, "127.0.0.1");
    assert_eq!(config.port, 8770);
    assert_eq!(config.path, "/asr/v1");
    assert_eq!(config.asr_threads, 2);
    assert_eq!(config.max_utterance_ms, 25_000);
    assert_eq!(config.partial_interval_ms, 500);
    assert!(!config.pseudo_stream);
}

fn pairs(entries: &[(&str, &str)]) -> Vec<(String, String)> {
    entries
        .iter()
        .map(|(name, value)| (name.to_string(), value.to_string()))
        .collect()
}

#[test]
fn arguments_override_environment() {
    let environment = pairs(&[
        ("OTOA_ASR_PORT", "9000"),
        ("OTOA_ASR_MAX_UTTERANCE_MS", "20000"),
        ("OTOA_ASR_ASR_THREADS", "4"),
        ("OTOA_ASR_PSEUDO_STREAM", "true"),
    ]);
    let environment_config =
        Config::from_sources(&[], &environment).ok().expect("config should parse");
    assert_eq!(environment_config.port, 9000);
    assert_eq!(environment_config.max_utterance_ms, 20_000);
    assert_eq!(environment_config.asr_threads, 4);

    let args = vec![
        "--port".to_string(),
        "9001".to_string(),
        "--max-utterance-ms".to_string(),
        "18000".to_string(),
        "--asr-threads=3".to_string(),
    ];
    let config = Config::from_sources(&args, &environment).ok().expect("config should parse");
    assert_eq!(config.port, 9001);
    assert_eq!(config.max_utterance_ms, 18_000);
    assert_eq!(config.asr_threads, 3);
    assert!(config.pseudo_stream);
}

#[test]
fn authorization_comparison_checks_length_and_content() {
    assert!(constant_time_equal(b"Bearer token", b"Bearer token"));
    assert!(!constant_time_equal(b"Bearer token", b"Bearer other"));
    assert!(!constant_time_equal(b"Bearer token", b"Bearer token-longer"));
}

#[test]
fn authorization_requires_the_bearer_token_when_one_is_configured() {
    assert!(authorization_is_valid(None, None));
    assert!(authorization_is_valid(Some(b"anything"), None));
    assert!(authorization_is_valid(Some(b"Bearer secret"), Some("secret")));
    assert!(!authorization_is_valid(Some(b"Bearer other"), Some("secret")));
    assert!(!authorization_is_valid(None, Some("secret")));
}

#[test]
fn unknown_option_is_rejected_with_its_name() {
    let args = vec!["--no-such-option".to_string()];
    let error = Config::from_sources(&args, &[]).err().expect("unknown option");
    assert!(error.message().contains("--no-such-option"));
}

#[test]
fn help_is_detected_anywhere_in_the_arguments() {
    assert!(Config::help_requested(&["--port".to_string(), "-h".to_string()]));
    assert!(Config::help_requested(&["--help".to_string()]));
    assert!(!Config::help_requested(&["--port=1".to_string()]));
}

#[test]
fn config_debug_hides_the_auth_token() {
    let mut config = Config::default();
    config.auth_token = Some("very-secret".to_string());
    let debug = config.redacted_debug();
    assert!(!debug.contains("very-secret"));
    assert_eq!(
        debug,
        "Config { host: \"127.0.0.1\", port: 8770, path: \"/asr/v1\", asr_model_dir: \"models/reazonspeech-k2-v2\", asr_threads: 2, max_utterance_ms: 25000, pseudo_stream: false, partial_interval_ms: 500, auth_token: Some(\"***\"), dump_dir: None }"
    );
}
