# otoa_input

Speech input for the desktop: the client listens to the microphone, finds
where speech starts and ends, streams the audio to a recognition server over
WebSocket and pastes the text it gets back at the cursor. A small server that
speaks the same protocol runs a local recognizer.

This crate holds the logic of both sides as a library verified with Verus,
and a thin program around it.

## Layout

- `src/` — the verified library.
  - `session.rs`, `client.rs`, `controller.rs` — the client's session state
    machine and its decisions: for each event (speech start or end, audio, a
    message from the server, the clock, the user's toggle, saved settings) the
    next state and the effects to carry out, in order.
  - `gate.rs`, `preroll.rs`, `level.rs`, `transcript.rs` — speech detection
    over VAD frames, the audio kept from before speech, the level meter, and
    the committed and tentative text.
  - `asr_session.rs`, `agreement.rs`, `pcm.rs`, `config.rs`, `wav.rs` — the
    server: its per-connection protocol machine, how partial results settle,
    PCM framing, its configuration and the WAV dump.
  - `check.rs`, `connection.rs`, `route.rs` — the connection check, endpoints
    and where a URL points.
  - `cli.rs`, `display.rs`, `settings.rs`, `settings_view.rs`, `text.rs`,
    `number.rs` — launch modes and texts, what the overlay, tray and settings
    window show, and string helpers.
- `tests/` — tests of the library's behaviour.
- `app/` — the program: argument dispatch and the server's network side.
