use otoa_input::cli::{serve_usage, server_arguments, usage, version_line};
use otoa_input::config::Config;

const PROGRAM: &str = "otoa-input-console";

#[test]
fn console_help_names_the_console_entrypoint_without_renaming_the_settings_directory() {
    let stdout = usage(PROGRAM);

    assert!(stdout.contains("otoa-input-console — 話した内容をカーソル位置へ貼り付ける音声入力"));
    assert!(stdout.contains("otoa-input-console [オプション]"));
    assert!(stdout.contains("~/.config/otoa-input-oss/settings.json"));
    assert!(!stdout.contains("otoa-input-console-oss"));
}

#[test]
fn console_version_names_the_console_entrypoint() {
    let stdout = version_line(PROGRAM, "0.1.0");

    assert_eq!(stdout.trim(), format!("otoa-input-console {}", "0.1.0"));
}

#[test]
fn serve_help_uses_the_embedded_server_command_name() {
    let arguments = vec!["--serve".to_string(), "--help".to_string()];
    let server = server_arguments(&arguments).expect("server mode");
    assert!(Config::help_requested(&server));
    let stdout = serve_usage(PROGRAM);

    assert!(stdout.contains("otoa-input-console --serve — Otoa ASR Protocol v1"));
    assert!(stdout.contains("otoa-input-console --serve --asr-model-dir=<dir>"));
    assert!(stdout.contains("--auth-token=<token>"));
    assert!(!stdout.contains("カーソル位置へ貼り付ける音声入力"));
}

#[test]
fn serve_rejects_unknown_server_options_with_a_failure_exit_code() {
    let arguments = vec!["--serve".to_string(), "--unknown-server-option".to_string()];
    let server = server_arguments(&arguments).expect("server mode");
    let error = Config::from_sources(&server, &[]).err().expect("unknown option");

    assert!(error.message().contains("unknown option: --unknown-server-option"));
}

#[test]
fn serve_propagates_server_config_validation_errors() {
    let arguments = vec!["--serve".to_string(), "--port=0".to_string()];
    let server = server_arguments(&arguments).expect("server mode");
    let error = Config::from_sources(&server, &[]).err().expect("port 0 is refused");

    assert!(error.message().contains("port must be between 1 and 65535"));
}
