use otoa_input::controller::{LevelStatus, LoginState, OverlayKind};
use otoa_input::settings::{overlay_is_transparent, OverlayTransparency};
use otoa_input::display::{
    has_two_transcript_lines, login_menu, motion_needs_ticker, transcript_lines, tray_icon, OverlayMode,
    TextPiece, TrayIcon,
};
use otoa_input::session::SessionState;
use otoa_input::settings_view::{
    asr_engine_choices, language_hints, language_label, level_message, login_state_text,
    microphone_choices_from_devices, microphone_label, number_caption, overlay_position_label,
    overlay_position_value, overlay_transparent_label, overlay_transparent_value,
    parse_u32_or, route_description, AudioDevice,
};

fn audio_device(id: &str, is_default: bool) -> AudioDevice {
    AudioDevice {
        id: id.to_string(),
        name: id.to_string(),
        is_default,
        card_name: None,
    }
}

#[test]
fn default_microphone_is_not_listed_twice() {
    let choices = microphone_choices_from_devices(
        vec![audio_device("default", true), audio_device("other", false)],
        "",
    );

    assert_eq!(
        choices.iter().filter(|choice| choice.id.is_empty()).count(),
        1
    );
    assert_eq!(choices[0].label, "既定のデバイス（default）");
    assert_eq!(
        choices
            .iter()
            .map(|choice| choice.id.as_str())
            .collect::<Vec<_>>(),
        ["", "other"]
    );
}

#[test]
fn microphone_labels_are_human_readable() {
    assert_eq!(
        microphone_label("default", "default", None),
        "既定のデバイス"
    );
    assert_eq!(microphone_label("pipewire", "pipewire", None), "PipeWire");
    assert_eq!(microphone_label("pulse", "pulse", None), "PulseAudio");
    assert_eq!(
        microphone_label(
            "hw:CARD=Device,DEV=0",
            "hw:CARD=Device,DEV=0",
            Some("USB PnP Audio Device"),
        ),
        "USB PnP Audio Device (hw:CARD=Device,DEV=0)"
    );
    assert_eq!(
        microphone_label("raw-device", "raw-device", None),
        "raw-device"
    );
}

#[test]
fn overlay_position_labels_round_trip() {
    for value in ["bottom", "top", "center"] {
        assert_eq!(overlay_position_value(overlay_position_label(value)), value);
    }
    assert_eq!(overlay_position_value("unknown"), "center");
}

#[test]
fn overlay_transparency_labels_round_trip() {
    for value in ["auto", "on", "off"] {
        assert_eq!(
            overlay_transparent_value(overlay_transparent_label(value)),
            value
        );
    }
    assert_eq!(overlay_transparent_value("unknown"), "auto");
}

#[test]
fn an_unknown_stored_position_shows_as_the_center() {
    assert_eq!(overlay_position_label("left"), "中央");
    assert_eq!(overlay_transparent_label("maybe"), "自動");
}

#[test]
fn without_a_default_device_the_default_choice_has_a_plain_label() {
    let choices = microphone_choices_from_devices(vec![audio_device("hw:0", false)], "");
    assert_eq!(choices[0].label, "既定のデバイス");
    assert_eq!(choices[1].id, "hw:0");
    assert_eq!(choices.len(), 2);
}

#[test]
fn a_stored_microphone_that_is_gone_is_still_offered() {
    let choices = microphone_choices_from_devices(vec![audio_device("other", false)], "pulse");
    assert_eq!(choices.len(), 3);
    assert_eq!(choices[2].id, "pulse");
    assert_eq!(choices[2].label, "PulseAudio");
    let again = microphone_choices_from_devices(vec![audio_device("other", false)], "other");
    assert_eq!(again.len(), 2);
}

#[test]
fn an_empty_card_name_is_ignored() {
    assert_eq!(microphone_label("hw:1", "Mic", Some("")), "Mic");
}

#[test]
fn route_description_names_the_place_and_the_server() {
    assert_eq!(route_description(Some(true), "ws://x"), "この PC で認識しています");
    assert_eq!(
        route_description(Some(false), "wss://asr.example"),
        "サーバーで認識しています\n接続先: wss://asr.example"
    );
    assert_eq!(
        route_description(None, "  "),
        "認識場所は接続後に表示します\n接続先: 既定の接続先"
    );
}

#[test]
fn login_lines_follow_the_login_state() {
    assert_eq!(login_state_text(&LoginState::LoggedOut), "未ログイン");
    assert_eq!(
        login_state_text(&LoginState::LoggedIn { email: "a@b.c".to_string() }),
        "a@b.c"
    );
    assert_eq!(
        login_state_text(&LoginState::Failed { reason: "timeout".to_string() }),
        "失敗: timeout"
    );
    assert_eq!(login_state_text(&LoginState::NotRequired), "不要");
}

#[test]
fn level_advice_follows_the_status() {
    assert_eq!(level_message(LevelStatus::Normal), "ちょうどいい大きさです");
    assert_eq!(
        level_message(LevelStatus::Clipped),
        "大きすぎます。ゲインを下げてください"
    );
}

#[test]
fn languages_round_trip_through_their_hints() {
    for label in ["日本語", "英語", "自動"] {
        assert_eq!(language_label(&language_hints(label)), label);
    }
    assert!(language_hints("自動").is_empty());
    assert_eq!(language_label(&["fr".to_string()]), "自動");
}

#[test]
fn both_engines_are_offered_in_order() {
    let choices = asr_engine_choices();
    assert_eq!(choices.len(), 2);
    assert_eq!(choices[0].id, "reazonspeech");
    assert_eq!(choices[0].to_text(), "ReazonSpeech k2-v2");
    assert_eq!(choices[1].id, "kodama");
    assert_eq!(choices[1].label, "kodama-ja-streaming-small");
}

fn piece(text: &str, partial: bool) -> TextPiece {
    TextPiece { text: text.to_string(), partial }
}

#[test]
fn a_short_transcript_is_one_line_of_runs() {
    let lines = transcript_lines("こんに", "ちは");
    assert_eq!(lines, vec![vec![piece("こんに", false), piece("ちは", true)]]);
    assert!(!has_two_transcript_lines("こんに", "ちは"));
}

#[test]
fn a_long_transcript_breaks_after_twenty_six_characters() {
    let committed = "a".repeat(20);
    let partial = "b".repeat(10);
    let lines = transcript_lines(&committed, &partial);
    assert_eq!(
        lines,
        vec![
            vec![piece(&"a".repeat(20), false), piece(&"b".repeat(6), true)],
            vec![piece(&"b".repeat(4), true)],
        ]
    );
    assert!(has_two_transcript_lines(&committed, &partial));
}

#[test]
fn an_overlong_transcript_keeps_its_end_after_an_ellipsis() {
    let committed = format!("x{}", "c".repeat(60));
    let lines = transcript_lines(&committed, "");
    assert_eq!(
        lines,
        vec![
            vec![piece(&format!("…{}", "c".repeat(25)), false)],
            vec![piece(&"c".repeat(26), false)],
        ]
    );
}

#[test]
fn an_existing_line_break_is_kept_and_a_third_line_dropped() {
    let lines = transcript_lines("上\n中\n下", "");
    assert_eq!(lines, vec![vec![piece("上", false)], vec![piece("中", false)]]);
}

#[test]
fn an_empty_transcript_is_one_empty_line() {
    let lines = transcript_lines("", "");
    assert_eq!(lines, vec![Vec::<TextPiece>::new()]);
}

#[test]
fn the_overlay_is_transparent_as_asked_or_with_a_compositor() {
    assert!(overlay_is_transparent(OverlayTransparency::On, false));
    assert!(!overlay_is_transparent(OverlayTransparency::Off, true));
    assert!(overlay_is_transparent(OverlayTransparency::Auto, true));
    assert!(!overlay_is_transparent(OverlayTransparency::Auto, false));
}

#[test]
fn the_overlay_animates_while_it_moves() {
    assert!(motion_needs_ticker(OverlayMode::Shown(OverlayKind::Recognizing), true, false));
    assert!(motion_needs_ticker(OverlayMode::Shown(OverlayKind::Connecting), false, false));
    assert!(!motion_needs_ticker(OverlayMode::Shown(OverlayKind::Connecting), true, false));
    assert!(!motion_needs_ticker(OverlayMode::Shown(OverlayKind::Committed), false, false));
    assert!(motion_needs_ticker(OverlayMode::Hidden, true, true));
}

#[test]
fn the_tray_icon_shows_attention_first() {
    assert_eq!(tray_icon(SessionState::Listening, true), TrayIcon::Attention);
    assert_eq!(tray_icon(SessionState::Disabled, false), TrayIcon::Stopped);
    assert_eq!(tray_icon(SessionState::Stopping, false), TrayIcon::Stopped);
    assert_eq!(tray_icon(SessionState::Streaming, false), TrayIcon::Normal);
}

#[test]
fn the_login_menu_follows_the_login() {
    let out = login_menu(&LoginState::LoggedOut);
    assert_eq!((out.login_text, out.login_enabled, out.logout_enabled), ("ログイン", true, false));
    let busy = login_menu(&LoginState::InProgress);
    assert_eq!((busy.login_text, busy.login_enabled, busy.logout_enabled), ("ログイン処理中…", false, false));
    let inside = login_menu(&LoginState::LoggedIn { email: "a@b".to_string() });
    assert_eq!((inside.login_enabled, inside.logout_enabled), (false, true));
}

#[test]
fn typed_numbers_are_read_after_trimming() {
    assert_eq!(parse_u32_or(" 800 ", 5), 800);
    assert_eq!(parse_u32_or("+12", 5), 12);
    assert_eq!(parse_u32_or("abc", 5), 5);
    assert_eq!(parse_u32_or("4294967296", 5), 5);
    assert_eq!(parse_u32_or("", 7), 7);
    assert_eq!(number_caption("12", "ミリ秒"), "ミリ秒");
    assert_eq!(number_caption("1.5", "ミリ秒"), "数字を入れてください");
}
