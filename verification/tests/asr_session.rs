use otoa_input::asr_session::{
    response_with_marker, validate_client_settings, ClientSettings, Marker, Session,
    SessionError, SessionState, Step, TOKEN_END, TOKEN_FIN,
};
use otoa_input::config::Config;
use otoa_input::pcm::{samples_to_bytes, Pcm16Buffer};

fn client_settings(endpoint_mode: Option<&str>) -> ClientSettings {
    ClientSettings {
        model: "stt-rt-v5".to_string(),
        audio_format: "pcm_s16le".to_string(),
        sample_rate: 16_000,
        num_channels: 1,
        enable_endpoint_detection: true,
        endpoint_mode: endpoint_mode.map(str::to_string),
    }
}

fn configured_session(config: &Config) -> Session {
    let mut session = Session::new(config);
    assert!(matches!(
        session.handle_text(r#"{"model":"stt-rt-v5"}"#),
        Ok(Step::ParseSettings)
    ));
    session
        .configure(Some(client_settings(None)))
        .expect("settings should be accepted");
    assert_eq!(session.state, SessionState::Ready);
    session
}

#[test]
fn end_token_is_final_and_separate() {
    let response = response_with_marker(Marker::End, "こんにちは");
    assert_eq!(response.tokens.len(), 2);
    assert_eq!(response.tokens[0].text, "こんにちは");
    assert!(response.tokens[0].is_final);
    assert_eq!(response.tokens[1].text, TOKEN_END);
    assert!(response.tokens[1].is_final);
    assert!(!response.tokens[0].text.contains(TOKEN_END));
}

#[test]
fn an_empty_final_text_sends_only_the_marker() {
    let response = response_with_marker(Marker::Fin, "");
    assert_eq!(response.tokens.len(), 1);
    assert_eq!(response.tokens[0].text, TOKEN_FIN);
}

#[test]
fn server_side_endpointing_is_rejected_rather_than_silently_ignored() {
    let error = validate_client_settings(&client_settings(Some("server")))
        .expect_err("server-side endpointing should be rejected");
    assert!(error.message().contains("finalize"));

    let error = validate_client_settings(&client_settings(Some("both")))
        .expect_err("unknown endpoint_mode should be rejected");
    assert!(error.message().contains("endpoint_mode"));

    assert!(validate_client_settings(&client_settings(Some("client"))).is_ok());
    assert!(validate_client_settings(&client_settings(None)).is_ok());
}

#[test]
fn invalid_settings_close_the_connection_as_a_protocol_error() {
    let mut settings = client_settings(None);
    settings.sample_rate = 8_000;
    let error = validate_client_settings(&settings).expect_err("8 kHz is not accepted");
    assert_eq!(error.close_code(), 1008);
    assert!(matches!(error, SessionError::Protocol { code: 400, .. }));
}

#[test]
fn unaligned_chunks_keep_frame_boundary() {
    let source = (0..1_920_i16)
        .flat_map(i16::to_le_bytes)
        .collect::<Vec<_>>();
    let mut buffer = Pcm16Buffer::new();
    let mut samples = Vec::new();
    for chunk in [&source[..1], &source[1..18], &source[18..21], &source[21..]] {
        samples.extend(
            buffer
                .feed(chunk)
                .into_iter()
                .map(|sample| f32::from(sample) / 32_768.0),
        );
    }
    assert_eq!(samples.len(), 1_920);
    assert_eq!(samples[0], 0.0);
    assert_eq!(samples[1], 1.0 / 32_768.0);
    assert_eq!(samples[1_919], 1_919.0 / 32_768.0);
    assert!(!buffer.has_pending());
}

#[test]
fn samples_round_trip_through_bytes() {
    let samples = vec![0_i16, 1, -1, i16::MAX, i16::MIN, 1234];
    let bytes = samples_to_bytes(&samples);
    assert_eq!(bytes.len(), 12);
    let mut buffer = Pcm16Buffer::new();
    assert_eq!(buffer.feed(&bytes), samples);
}

#[test]
fn empty_frame_triggers_finished_then_close() {
    let config = Config::default();
    let mut session = configured_session(&config);
    match session.handle_binary(&[]) {
        Ok(Step::Respond(action)) => {
            assert_eq!(action.responses.len(), 1);
            assert!(action.responses[0].finished);
            assert_eq!(action.close_code, Some(1000));
            assert_eq!(action.responses[0].tokens.len(), 0);
        }
        _ => panic!("an empty frame should finish the connection"),
    }
    assert_eq!(session.state, SessionState::Closing);
}

#[test]
fn audio_before_settings_is_refused() {
    let config = Config::default();
    let mut session = Session::new(&config);
    let error = session
        .handle_binary(&[0, 0])
        .err()
        .expect("audio before settings is refused");
    assert!(error.message().contains("設定 JSON を先に送信してください"));
}

#[test]
fn finalize_decodes_the_held_audio_and_answers_with_fin() {
    let config = Config::default();
    let mut session = configured_session(&config);
    let audio = samples_to_bytes(&[5, 6, 7]);
    assert!(matches!(session.handle_binary(&audio), Ok(Step::Respond(_))));
    assert_eq!(session.state, SessionState::Streaming);
    assert_eq!(session.utterance_samples(), &[5, 6, 7]);
    match session.handle_text(r#"{"type":"finalize"}"#) {
        Ok(Step::Decode(marker)) => assert_eq!(marker, Marker::Fin),
        _ => panic!("finalize with audio should ask for a decode"),
    }
    let action = session.finish_utterance("こんにちは");
    assert_eq!(action.responses.len(), 1);
    let tokens = &action.responses[0].tokens;
    assert_eq!(tokens.last().map(|token| token.text.as_str()), Some(TOKEN_FIN));
    assert_eq!(tokens[0].text, "こんにちは");
    assert!(!session.has_audio());
}

#[test]
fn finalize_without_audio_answers_at_once() {
    let config = Config::default();
    let mut session = configured_session(&config);
    match session.handle_text(r#"{"type":"finalize"}"#) {
        Ok(Step::Respond(action)) => {
            assert_eq!(action.responses.len(), 1);
            assert_eq!(action.responses[0].tokens[0].text, TOKEN_FIN);
        }
        _ => panic!("finalize without audio should answer"),
    }
}

#[test]
fn other_text_messages_are_ignored() {
    let config = Config::default();
    let mut session = configured_session(&config);
    match session.handle_text(r#"{"type":"keepalive"}"#) {
        Ok(Step::Respond(action)) => assert!(action.responses.is_empty()),
        _ => panic!("an unknown message is ignored"),
    }
    match session.handle_text("not json") {
        Ok(Step::Respond(action)) => assert!(action.responses.is_empty()),
        _ => panic!("text that is not JSON is ignored"),
    }
}

#[test]
fn a_byte_is_held_exactly_when_an_odd_number_went_in() {
    let stream: Vec<u8> = (1..=11).collect();
    let cuts: [&[usize]; 3] = [&[3, 0, 4, 1, 3], &[1, 1, 1, 8], &[11]];
    let mut whole = Pcm16Buffer::new();
    let expected = whole.feed(&stream);
    for cut in cuts {
        let mut buffer = Pcm16Buffer::new();
        let mut samples = Vec::new();
        let mut offset = 0;
        for &len in cut {
            samples.extend(buffer.feed(&stream[offset..offset + len]));
            offset += len;
            assert_eq!(buffer.has_pending(), offset % 2 == 1);
        }
        assert_eq!(samples, expected);
    }
}
