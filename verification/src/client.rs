//! The decisions of the speech-input client about one recognition session:
//! what to do with each event from the recognizer, with each start and end
//! of speech, and with each frame of audio. The program runs the loop, the
//! connection, the microphone and the paste; it hands every event to
//! `ControllerCore` and performs the effects that come back, in order.

use crate::check::{replace_all, replaced, AsrError, AsrEvent};
use crate::controller::{
    overlay_for, shown, spec_short_login_error, short_login_error, Facts, LoginState, LoginStateView,
    OverlayShape, OverlayView, doubled_capped, elapsed, next_enroll_retry_delay, spec_is_user_action_failure, OverlayKind,
    UserError, WarmupReason, ENROLL_RETRY_INITIAL_MS, ENROLL_RETRY_MAX_MS, PENDING_AUDIO_MAX_BYTES,
};
use crate::connection::Readiness;
use crate::gate::GateEvent;
use crate::pcm::{pcm_bytes, samples_to_bytes};
use crate::preroll::newest;
use crate::preroll::PreRoll;
use crate::session::{transition, Session, SessionInput, SessionState};
use crate::text::{chars_of, is_blank, owned, push_str, str_is_blank, string_of};
use crate::transcript::Transcript;
use vstd::prelude::*;

verus! {

/// How long a temporary error stays up, in milliseconds.
pub const OVERLAY_ERROR_DURATION_MS: u64 = 8000;

/// How long a notice stays up, in milliseconds.
pub const OVERLAY_NOTICE_DURATION_MS: u64 = 3000;

/// The first delay before a failed session is retried, in milliseconds.
pub const FAILED_RETRY_INITIAL_DELAY_MS: u64 = 5000;

/// The message of a send that found no recognition session.
pub open spec fn no_session_message() -> Seq<char> {
    "音声認識セッションが利用できません"@
}

/// The latest time the client's clock may show, in milliseconds: far beyond
/// any real uptime, it keeps every deadline within `u64`.
pub open spec fn clock_ok(now: u64) -> bool {
    now <= 0xFFFF_FFFF_FFFF
}

/// Who decides that an utterance ended.
#[derive(Debug, Clone, Copy, PartialEq, Eq, Structural)]
pub enum EndpointMode {
    /// The client sends `finalize` when its VAD hears the end.
    Client,
    /// The server sends `<end>`.
    Server,
    /// Both.
    Both,
    /// A mode this client does not know; speech ends are ignored.
    Other,
}

/// The endpoint mode a setting names.
pub open spec fn spec_endpoint_mode(name: Seq<char>) -> EndpointMode {
    if name == "client"@ {
        EndpointMode::Client
    } else if name == "server"@ {
        EndpointMode::Server
    } else if name == "both"@ {
        EndpointMode::Both
    } else {
        EndpointMode::Other
    }
}

pub fn endpoint_mode(name: &str) -> (r: EndpointMode)
    ensures
        r == spec_endpoint_mode(name@),
{
    let n = chars_of(name);
    if crate::text::chars_eq(n.as_slice(), chars_of("client").as_slice()) {
        EndpointMode::Client
    } else if crate::text::chars_eq(n.as_slice(), chars_of("server").as_slice()) {
        EndpointMode::Server
    } else if crate::text::chars_eq(n.as_slice(), chars_of("both").as_slice()) {
        EndpointMode::Both
    } else {
        EndpointMode::Other
    }
}

/// An utterance that began while the recognizer was being warmed.
#[derive(Clone, Copy, Debug, PartialEq, Eq, Structural)]
pub struct DelayedTurn {
    /// When the warm-up began; the preparing overlay runs on from there.
    pub began_at_ms: u64,
    /// The local VAD heard the speech end.
    pub speech_ended: bool,
}

/// What the program must do, in order.
#[derive(Debug)]
pub enum Effect {
    /// Send these PCM bytes to the recognizer.
    SendAudio(Vec<u8>),
    /// Send `finalize`.
    SendFinalize,
    /// Send the stop.
    SendStop,
    /// Send the start of an utterance.
    SendSpeechStart,
    /// Close the connection and drop it.
    CleanupAsr,
    /// Tell the interface the session's state.
    UiState(SessionState),
    /// Hand the text to the clipboard, and paste it unless `clipboard_only`.
    Emit { text: String, clipboard_only: bool },
    /// Listening again: re-arm the VAD and make sure the microphone runs.
    ResumeListening,
    /// Settings saved during the session take effect now.
    ApplyPendingSettings,
    /// Speech started while listening: enroll the voice first unless
    /// `check_enrollment` is false (an enrollment just went through), then
    /// hand the outcome to `ControllerCore::open_session`.
    OpenSession { check_enrollment: bool },
    /// Open the connection (the endpoint, then the session with these
    /// samples waiting), then report to `asr_started` or `asr_start_failed`.
    StartAsr { preroll: Vec<i16>, deferred_audio: Vec<Vec<i16>> },
    /// Start warming the recognizer, then report to `warmup_finished`.
    StartWarmup(WarmupReason),
    /// Listening stops: suspend the VAD and release the microphone.
    SuspendListening,
    /// Start the login the connection asks for.
    StartLogin,
    /// The saved settings take effect now: rebuild what is made from them
    /// (the speech gate, the text output).
    ApplySettings,
    /// Keep the saved settings until the session ends.
    HoldSettings,
    /// The microphone changed: restart the capture if it runs.
    RestartMicrophone,
    /// Start the login worker, then report to `login_started` or
    /// `login_finished`.
    StartLoginWorker,
    /// Tell the interface how the login stands.
    LoginProgress(LoginState),
    /// Ask the connection how the login stands and tell the interface.
    RefreshLoginState,
    /// Tell the interface which account is logged in.
    RefreshAccount,
    /// The startup splash is over: hand the connection's readiness to
    /// `require_connection`.
    CheckConnection,
}

/// An effect by its content.
pub enum EffectView {
    SendAudio(Seq<u8>),
    SendFinalize,
    SendStop,
    SendSpeechStart,
    CleanupAsr,
    UiState(SessionState),
    Emit { text: Seq<char>, clipboard_only: bool },
    ResumeListening,
    ApplyPendingSettings,
    OpenSession { check_enrollment: bool },
    StartAsr { preroll: Seq<i16>, deferred_audio: Seq<Seq<i16>> },
    StartWarmup(WarmupReason),
    SuspendListening,
    StartLogin,
    ApplySettings,
    HoldSettings,
    RestartMicrophone,
    StartLoginWorker,
    LoginProgress(LoginStateView),
    RefreshLoginState,
    RefreshAccount,
    CheckConnection,
}

/// Held-back utterances by their samples.
pub open spec fn frames_view(v: Seq<Vec<i16>>) -> Seq<Seq<i16>> {
    v.map_values(|f: Vec<i16>| f@)
}

impl View for Effect {
    type V = EffectView;

    open spec fn view(&self) -> EffectView {
        match self {
            Effect::SendAudio(b) => EffectView::SendAudio(b@),
            Effect::SendFinalize => EffectView::SendFinalize,
            Effect::SendStop => EffectView::SendStop,
            Effect::SendSpeechStart => EffectView::SendSpeechStart,
            Effect::CleanupAsr => EffectView::CleanupAsr,
            Effect::UiState(s) => EffectView::UiState(*s),
            Effect::Emit { text, clipboard_only } => EffectView::Emit {
                text: text@,
                clipboard_only: *clipboard_only,
            },
            Effect::ResumeListening => EffectView::ResumeListening,
            Effect::ApplyPendingSettings => EffectView::ApplyPendingSettings,
            Effect::OpenSession { check_enrollment } => EffectView::OpenSession {
                check_enrollment: *check_enrollment,
            },
            Effect::StartAsr { preroll, deferred_audio } => EffectView::StartAsr {
                preroll: preroll@,
                deferred_audio: frames_view(deferred_audio@),
            },
            Effect::StartWarmup(r) => EffectView::StartWarmup(*r),
            Effect::SuspendListening => EffectView::SuspendListening,
            Effect::StartLogin => EffectView::StartLogin,
            Effect::ApplySettings => EffectView::ApplySettings,
            Effect::HoldSettings => EffectView::HoldSettings,
            Effect::RestartMicrophone => EffectView::RestartMicrophone,
            Effect::StartLoginWorker => EffectView::StartLoginWorker,
            Effect::LoginProgress(l) => EffectView::LoginProgress(l@),
            Effect::RefreshLoginState => EffectView::RefreshLoginState,
            Effect::RefreshAccount => EffectView::RefreshAccount,
            Effect::CheckConnection => EffectView::CheckConnection,
        }
    }
}

/// A list of effects by their content.
#[verifier::opaque]
pub open spec fn effects_view(v: Seq<Effect>) -> Seq<EffectView> {
    v.map_values(|e: Effect| e@)
}

/// An error on the overlay, by its content.
pub enum ErrorView {
    Temporary { message: Seq<char>, until: nat },
    Persistent { kind: OverlayKind, message: Seq<char> },
}

/// The flags of the current utterance and connection.
#[derive(Clone, Copy, Debug, PartialEq, Eq, Structural)]
pub struct TurnFlags {
    /// The VAD hears speech.
    pub gate_speaking: bool,
    /// The server named the expected backend (or none was expected).
    pub backend_confirmed: bool,
    /// `finalize` was sent for the current utterance.
    pub client_finalize_sent: bool,
    /// `finalize` was sent and its result is awaited.
    pub finalize_pending: bool,
    /// After `<end>`, audio is held back until the next speech starts.
    pub server_audio_paused: bool,
    /// An `<end>` came while speech went on: pause once it stops.
    pub pause_when_gate_stops: bool,
    /// The stop was sent or `finished` received.
    pub asr_closing: bool,
    /// A connection to the recognizer exists.
    pub has_transport: bool,
}

/// The wait for the server's answer.
#[derive(Clone, Copy, Debug, PartialEq, Eq, Structural)]
pub struct Waits {
    /// Since when a response has been awaited with nothing received yet.
    pub pending_since_ms: Option<u64>,
    /// A final text already answered the wait that its `<end>` would answer.
    pub completed_by_final_text: bool,
    /// An `<end>` answered the wait; a notice right after it belongs to it.
    pub completed_by_endpoint: bool,
}

/// Points in time the client keeps.
#[derive(Clone, Copy, Debug, PartialEq, Eq, Structural)]
pub struct Times {
    pub last_response_ms: Option<u64>,
    pub last_endpoint_ms: Option<u64>,
    /// When the session began connecting.
    pub connecting_since_ms: Option<u64>,
    /// When the session began closing.
    pub closing_since_ms: Option<u64>,
    /// The idle time after which the server says the recognizer sleeps.
    pub warmup_after_ms: Option<u64>,
}

/// Where a failure stands.
#[derive(Clone, Copy, Debug, PartialEq, Eq, Structural)]
pub struct FailureState {
    pub failed_at_ms: Option<u64>,
    /// The client leaves `Failed` by itself after the delay.
    pub recovery_enabled: bool,
    pub retry_delay_ms: u64,
}

/// The warm-up of the recognizer.
#[derive(Clone, Copy, Debug, PartialEq, Eq, Structural)]
pub struct WarmupState {
    /// When the running warm-up began; `None` when none runs.
    pub started_at_ms: Option<u64>,
    /// No warm-up before this time, after a remote failure.
    pub retry_at_ms: Option<u64>,
    /// The wait after the next remote failure.
    pub retry_delay_ms: u64,
}

/// Speech held back while the recognizer warms: the pre-roll from before
/// it began, the audio since, and whether it ended.
pub struct DeferredSpeech {
    pub preroll: Vec<i16>,
    pub audio: Vec<Vec<i16>>,
    pub ended: bool,
}

/// `DeferredSpeech` by its samples.
pub struct DeferredView {
    pub preroll: Seq<i16>,
    pub audio: Seq<Seq<i16>>,
    pub ended: bool,
}

#[verifier::opaque]
pub open spec fn deferred_view(o: Option<DeferredSpeech>) -> Option<DeferredView> {
    match o {
        Some(d) => Some(DeferredView { preroll: d.preroll@, audio: frames_view(d.audio@), ended: d.ended }),
        None => None,
    }
}

/// The settings the decisions read.
pub struct CoreSettings {
    pub endpoint_mode: EndpointMode,
    pub auto_paste: bool,
    pub paste_per_endpoint: bool,
    pub commit_hold_ms: u32,
    /// The backend the current route must name itself as, if any.
    pub route_backend: Option<String>,
    /// The connection can enroll the user's voice (and so be warmed).
    pub enrollment_eligible: bool,
    /// Seconds without speech after which an open connection closes.
    pub idle_close_sec: u32,
    /// How long the startup splash stays up when nothing else is shown.
    pub splash_ms: u32,
}

/// What the overlay shows for a while: an error, a notice, committed text.
pub struct Shown {
    pub commit: Option<(String, u64)>,
    pub notice: Option<(String, u64)>,
    pub error: Option<UserError>,
}

/// `Shown` by its content.
pub struct ShownView {
    pub commit: Option<(Seq<char>, nat)>,
    pub notice: Option<(Seq<char>, nat)>,
    pub error: Option<ErrorView>,
}

/// The text of the utterance: committed, tentative, and not yet handed out.
pub struct TextView {
    pub committed: Seq<char>,
    pub partial: Seq<char>,
    pub pending_commit: Seq<char>,
}

/// The audio the client holds.
pub struct AudioView {
    pub preroll: Seq<i16>,
    pub preroll_capacity: nat,
    pub pending: Seq<Seq<u8>>,
    pub dropped_frames: nat,
}

/// The client's state, by its content.
pub struct CoreView {
    pub state: SessionState,
    pub text: TextView,
    pub audio: AudioView,
    pub flags: TurnFlags,
    pub waits: Waits,
    pub shown: ShownView,
    pub times: Times,
    pub failure: FailureState,
    pub delayed_turn: Option<DelayedTurn>,
    pub warmup: WarmupState,
    pub deferred: Option<DeferredView>,
    pub expected_backend: Option<Seq<char>>,
    pub api_key: Option<Seq<char>>,
    pub settings: CoreSettings,
}

pub open spec fn opt_str(o: Option<String>) -> Option<Seq<char>> {
    match o {
        Some(s) => Some(s@),
        None => None,
    }
}

#[verifier::opaque]
pub open spec fn error_view(e: Option<UserError>) -> Option<ErrorView> {
    match e {
        Some(UserError::Temporary { message, until_ms }) => Some(
            ErrorView::Temporary { message: message@, until: until_ms as nat },
        ),
        Some(UserError::Persistent { kind, message }) => Some(
            ErrorView::Persistent { kind, message: message@ },
        ),
        None => None,
    }
}

#[verifier::opaque]
pub open spec fn timed_text(o: Option<(String, u64)>) -> Option<(Seq<char>, nat)> {
    match o {
        Some((s, t)) => Some((s@, t as nat)),
        None => None,
    }
}

impl View for Shown {
    type V = ShownView;

    open spec fn view(&self) -> ShownView {
        ShownView {
            commit: timed_text(self.commit),
            notice: timed_text(self.notice),
            error: error_view(self.error),
        }
    }
}

/// Waiting audio by its bytes.
pub open spec fn pending_audio_view(v: Seq<Vec<u8>>) -> Seq<Seq<u8>> {
    v.map_values(|b: Vec<u8>| b@)
}

/// The client's state.
pub struct ControllerCore {
    pub session: Session,
    pub transcript: Transcript,
    /// Committed text not yet handed out.
    pub pending_commit: String,
    pub preroll: PreRoll,
    /// Audio waiting for the connection, oldest first.
    pub pending_audio: Vec<Vec<u8>>,
    /// Frames dropped from the waiting audio because it was full.
    pub pending_audio_dropped_frames: u64,
    pub flags: TurnFlags,
    pub waits: Waits,
    pub shown: Shown,
    pub times: Times,
    pub failure: FailureState,
    pub delayed_turn: Option<DelayedTurn>,
    pub warmup: WarmupState,
    pub deferred: Option<DeferredSpeech>,
    /// The backend this session must name itself as, if any.
    pub expected_backend: Option<String>,
    /// The secret of the current connection, hidden in every message.
    pub api_key: Option<String>,
    pub settings: CoreSettings,
    /// When the startup splash went up; `None` once anything else was drawn.
    pub splash_started_ms: Option<u64>,
}

impl View for ControllerCore {
    type V = CoreView;

    open spec fn view(&self) -> CoreView {
        CoreView {
            state: self.session@,
            text: TextView {
                committed: self.transcript.spec_committed(),
                partial: self.transcript.spec_partial(),
                pending_commit: self.pending_commit@,
            },
            audio: AudioView {
                preroll: self.preroll@,
                preroll_capacity: self.preroll.spec_capacity(),
                pending: pending_audio_view(self.pending_audio@),
                dropped_frames: self.pending_audio_dropped_frames as nat,
            },
            flags: self.flags,
            waits: self.waits,
            shown: self.shown@,
            times: self.times,
            failure: self.failure,
            delayed_turn: self.delayed_turn,
            warmup: self.warmup,
            deferred: deferred_view(self.deferred),
            expected_backend: opt_str(self.expected_backend),
            api_key: opt_str(self.api_key),
            settings: self.settings,
        }
    }
}

/// `s` with `pat` replaced by `rep` as `str::replace` does: leftmost
/// occurrences first, none overlapping; an empty pattern matches before
/// every character and at the end.
pub open spec fn std_replaced(s: Seq<char>, pat: Seq<char>, rep: Seq<char>) -> Seq<char>
    decreases s.len(),
{
    if pat.len() > 0 {
        replaced(s, pat, rep)
    } else if s.len() == 0 {
        rep
    } else {
        rep + seq![s[0]] + std_replaced(s.skip(1), pat, rep)
    }
}

/// A message with the connection's secret, if any, replaced by
/// `[redacted]`.
pub open spec fn sanitized(message: Seq<char>, key: Option<Seq<char>>) -> Seq<char> {
    match key {
        Some(k) => std_replaced(message, k, "[redacted]"@),
        None => message,
    }
}

fn replace_everywhere(s: &[char], rep: &[char]) -> (r: Vec<char>)
    ensures
        r@ == std_replaced(s@, Seq::empty(), rep@),
    decreases s.len(),
{
    let mut out: Vec<char> = Vec::new();
    let mut i: usize = 0;
    assert(s@.skip(0) =~= s@);
    while i < s.len()
        invariant
            0 <= i <= s@.len(),
            out@ + std_replaced(s@.skip(i as int), Seq::empty(), rep@) == std_replaced(
                s@,
                Seq::empty(),
                rep@,
            ),
        decreases s.len() - i,
    {
        let ghost before = out@;
        let ghost rest = s@.skip(i as int);
        assert(rest.skip(1) =~= s@.skip(i + 1));
        let mut k: usize = 0;
        while k < rep.len()
            invariant
                0 <= k <= rep@.len(),
                out@ == before + rep@.take(k as int),
            decreases rep.len() - k,
        {
            out.push(rep[k]);
            assert(rep@.take(k + 1) =~= rep@.take(k as int).push(rep@[k as int]));
            k = k + 1;
        }
        assert(rep@.take(rep@.len() as int) =~= rep@);
        out.push(s[i]);
        assert(before + (rep@ + seq![rest[0]] + std_replaced(rest.skip(1), Seq::empty(), rep@))
            =~= out@ + std_replaced(s@.skip(i + 1), Seq::empty(), rep@));
        i = i + 1;
    }
    assert(s@.skip(i as int) =~= Seq::<char>::empty());
    let ghost before = out@;
    let mut k: usize = 0;
    while k < rep.len()
        invariant
            0 <= k <= rep@.len(),
            out@ == before + rep@.take(k as int),
        decreases rep.len() - k,
    {
        out.push(rep[k]);
        assert(rep@.take(k + 1) =~= rep@.take(k as int).push(rep@[k as int]));
        k = k + 1;
    }
    assert(rep@.take(rep@.len() as int) =~= rep@);
    out
}

/// The message with the connection's secret hidden.
pub fn sanitize_message(message: &str, api_key: &Option<String>) -> (r: String)
    ensures
        r@ == sanitized(message@, opt_str(*api_key)),
{
    match api_key {
        None => owned(message),
        Some(k) => {
            let kc = chars_of(k.as_str());
            let mc = chars_of(message);
            let rep = chars_of("[redacted]");
            if kc.len() == 0 {
                assert(kc@ =~= Seq::<char>::empty());
                string_of(replace_everywhere(mc.as_slice(), rep.as_slice()).as_slice())
            } else {
                string_of(replace_all(mc.as_slice(), kc.as_slice(), rep.as_slice()).as_slice())
            }
        },
    }
}

/// Whether the session accepts the input.
#[verifier::opaque]
pub open spec fn accepts(s: SessionState, input: SessionInput) -> bool {
    transition(s, input) is Some
}

/// The session's state after the input (unchanged when not accepted).
#[verifier::opaque]
pub open spec fn next_state(s: SessionState, input: SessionInput) -> SessionState {
    match transition(s, input) {
        Some(n) => n,
        None => s,
    }
}

/// An input the session does not accept leaves it where it was.
pub proof fn lemma_refused_input_keeps_state(s: SessionState, input: SessionInput)
    ensures
        !accepts(s, input) ==> next_state(s, input) == s,
{
    reveal(accepts);
    reveal(next_state);
}

/// Any response ends the wait for the server; says whether one was running.
pub open spec fn completed_wait(c: CoreView) -> (CoreView, bool) {
    (CoreView { waits: Waits { pending_since_ms: None, ..c.waits }, ..c }, c.waits.pending_since_ms is Some)
}

/// The session ended or was cut: no wait can be answered any more.
pub open spec fn cleared_waits(c: CoreView) -> CoreView {
    CoreView {
        waits: Waits {
            pending_since_ms: None,
            completed_by_final_text: false,
            completed_by_endpoint: false,
        },
        ..c
    }
}

/// Errors, notices and committed text leave the overlay.
pub open spec fn cleared_overlay_facts(c: CoreView) -> CoreView {
    CoreView { shown: ShownView { error: None, notice: None, commit: None }, ..c }
}

/// Sends the stop when there is a connection.
pub open spec fn stop_step(c: CoreView) -> (CoreView, Seq<EffectView>) {
    if c.flags.has_transport {
        (CoreView { flags: TurnFlags { asr_closing: true, ..c.flags }, ..c }, seq![EffectView::SendStop])
    } else {
        (c, Seq::empty())
    }
}

/// Drops the connection and everything that belonged to it.
pub open spec fn cleanup_step(c: CoreView) -> (CoreView, Seq<EffectView>) {
    (
        CoreView {
            delayed_turn: None,
            waits: Waits {
                pending_since_ms: None,
                completed_by_final_text: false,
                completed_by_endpoint: false,
            },
            flags: TurnFlags {
                finalize_pending: false,
                client_finalize_sent: false,
                server_audio_paused: false,
                pause_when_gate_stops: false,
                has_transport: false,
                asr_closing: false,
                ..c.flags
            },
            audio: AudioView { pending: Seq::empty(), dropped_frames: 0, ..c.audio },
            api_key: None,
            times: Times {
                last_endpoint_ms: None,
                connecting_since_ms: None,
                closing_since_ms: None,
                ..c.times
            },
            ..c
        },
        if c.flags.has_transport {
            seq![EffectView::CleanupAsr]
        } else {
            Seq::empty()
        },
    )
}

/// The error shown for a failure: temporary when the client will retry by
/// itself, persistent (until clicked) otherwise.
pub open spec fn shown_failure(c: CoreView, message: Seq<char>, auto_recover: bool, now: u64) -> CoreView {
    if auto_recover {
        CoreView {
            shown: ShownView {
                notice: None,
                error: Some(
                    ErrorView::Temporary {
                        message,
                        until: (now + OVERLAY_ERROR_DURATION_MS) as nat,
                    },
                ),
                ..c.shown
            },
            ..c
        }
    } else {
        let w = cleared_waits(c);
        CoreView {
            shown: ShownView {
                notice: None,
                error: Some(
                    ErrorView::Persistent {
                        kind: OverlayKind::Error,
                        message: message + "\nクリックで再試行"@,
                    },
                ),
                ..c.shown
            },
            ..w
        }
    }
}

/// The session fails with a message (the secret hidden): it enters
/// `Failed` where it can, is retried later only with `auto_recover`, shows
/// the error, stops and drops the connection.
pub open spec fn fail_step(c: CoreView, message: Seq<char>, auto_recover: bool, now: u64) -> (
    CoreView,
    Seq<EffectView>,
) {
    let m = sanitized(message, c.api_key);
    let (s2, e2) = failed_entry(c, auto_recover, now);
    let s3 = shown_failure(s2, m, auto_recover, now);
    let (s4, e4) = stop_step(s3);
    let (s5, e5) = cleanup_step(s4);
    (s5, e2 + e4 + e5)
}

/// The session enters `Failed` where it can; when it is (or already was)
/// failed, it records since when and whether to retry by itself, and tells
/// the interface.
pub open spec fn failed_entry(c: CoreView, auto_recover: bool, now: u64) -> (CoreView, Seq<EffectView>) {
    if accepts(c.state, SessionInput::Failed) {
        (
            CoreView {
                state: next_state(c.state, SessionInput::Failed),
                failure: FailureState {
                    failed_at_ms: Some(now),
                    recovery_enabled: auto_recover,
                    ..c.failure
                },
                ..c
            },
            seq![EffectView::UiState(SessionState::Failed)],
        )
    } else if c.state == SessionState::Failed {
        (
            CoreView { failure: FailureState { recovery_enabled: auto_recover, ..c.failure }, ..c },
            seq![EffectView::UiState(SessionState::Failed)],
        )
    } else {
        (c, Seq::empty())
    }
}

/// The committed text on the overlay: held for `commit_hold_ms`, or not
/// shown at all when that is zero.
pub open spec fn committed_shown(c: CoreView, text: Seq<char>, now: u64) -> CoreView {
    if c.settings.commit_hold_ms == 0 {
        CoreView { shown: ShownView { commit: None, ..c.shown }, ..c }
    } else {
        CoreView {
            shown: ShownView {
                error: None,
                notice: None,
                commit: Some((text, (now + c.settings.commit_hold_ms) as nat)),
            },
            ..c
        }
    }
}

/// A finished segment joins the text not yet handed out. With automatic
/// pasting of whole sessions, it waits there until the session closes;
/// otherwise all of it (unless blank) is shown and handed out: pasted, or
/// only copied when the utterance had to wait for a warm-up.
pub open spec fn commit_step(c: CoreView, segment: Option<Seq<char>>, now: u64) -> (
    CoreView,
    Seq<EffectView>,
) {
    let pc = c.text.pending_commit + match segment {
        Some(s) => s,
        None => Seq::empty(),
    };
    if c.settings.auto_paste && !c.settings.paste_per_endpoint && c.state != SessionState::Closing {
        (CoreView { text: TextView { pending_commit: pc, ..c.text }, ..c }, Seq::empty())
    } else if is_blank(pc) {
        (CoreView { text: TextView { pending_commit: Seq::empty(), ..c.text }, ..c }, Seq::empty())
    } else {
        let c2 = CoreView { text: TextView { pending_commit: Seq::empty(), ..c.text }, ..c };
        (
            committed_shown(c2, pc, now),
            if c.settings.auto_paste {
                seq![EffectView::Emit { text: pc, clipboard_only: c.delayed_turn is Some }]
            } else {
                Seq::empty()
            },
        )
    }
}

/// The segment the transcript gives up at the end of an utterance (none
/// when blank); both its parts are emptied.
pub open spec fn taken_segment(c: CoreView) -> (CoreView, Option<Seq<char>>) {
    (
        CoreView {
            text: TextView { committed: Seq::empty(), partial: Seq::empty(), ..c.text },
            ..c
        },
        if is_blank(c.text.committed) {
            None
        } else {
            Some(c.text.committed)
        },
    )
}

/// A session opened for an utterance that waited for a warm-up closes as
/// soon as that utterance is answered (or at once for a notice, `force`),
/// unless speech goes on: its answers must not mix with the next ones.
pub open spec fn close_delayed_step(c: CoreView, force: bool, now: u64) -> (CoreView, Seq<EffectView>) {
    let should = c.delayed_turn matches Some(t) && (force || t.speech_ended) && c.state
        == SessionState::Streaming && !c.flags.gate_speaking;
    if !should {
        (c, Seq::empty())
    } else {
        let (c1, e1) = stop_step(c);
        if accepts(c1.state, SessionInput::IdleTimeout) {
            let c2 = CoreView {
                state: next_state(c1.state, SessionInput::IdleTimeout),
                times: Times { last_endpoint_ms: None, closing_since_ms: Some(now), ..c1.times },
                ..c1
            };
            (cleared_overlay_facts(c2), e1.push(EffectView::UiState(SessionState::Closing)))
        } else {
            (c1, e1)
        }
    }
}

/// Back to listening: the VAD starts afresh and the microphone runs.
pub open spec fn resume_step(c: CoreView) -> (CoreView, Seq<EffectView>) {
    if c.state != SessionState::Listening {
        (c, Seq::empty())
    } else {
        (
            CoreView { flags: TurnFlags { gate_speaking: false, ..c.flags }, ..c },
            seq![EffectView::ResumeListening],
        )
    }
}

/// After a session ended or was cut: overlay facts cleared, the interface
/// told, listening resumed, saved settings applied.
pub open spec fn after_session_step(c: CoreView) -> (CoreView, Seq<EffectView>) {
    let c1 = cleared_overlay_facts(c);
    let (c2, e2) = resume_step(c1);
    (c2, seq![EffectView::UiState(c1.state)] + e2.push(EffectView::ApplyPendingSettings))
}

/// The connection ended as expected: dropped, the transcript emptied, the
/// session finished (or aborted).
pub open spec fn finish_shutdown_step(c: CoreView) -> (CoreView, Seq<EffectView>) {
    let (c1, e1) = cleanup_step(c);
    let (c2, _) = taken_segment(c1);
    if accepts(c2.state, SessionInput::Finished) {
        let c3 = CoreView { state: next_state(c2.state, SessionInput::Finished), ..c2 };
        let (c4, e4) = after_session_step(c3);
        (c4, e1 + e4)
    } else if accepts(c2.state, SessionInput::Aborted) {
        let c3 = CoreView { state: next_state(c2.state, SessionInput::Aborted), ..c2 };
        let (c4, e4) = after_session_step(c3);
        (c4, e1 + e4)
    } else {
        (c2, e1)
    }
}

/// The connection broke without a fault worth failing for: stopped,
/// dropped, the transcript emptied, and back to listening.
pub open spec fn abort_step(c: CoreView) -> (CoreView, Seq<EffectView>) {
    let (c1, e1) = stop_step(c);
    let (c2, e2) = cleanup_step(c1);
    let (c3, _) = taken_segment(c2);
    if accepts(c3.state, SessionInput::Aborted) {
        let c4 = CoreView { state: next_state(c3.state, SessionInput::Aborted), ..c3 };
        let (c5, e5) = after_session_step(c4);
        (c5, e1 + e2 + e5)
    } else {
        (c3, e1 + e2)
    }
}

/// The message when the server does not name the backend that was chosen.
pub open spec fn backend_mismatch_message() -> Seq<char> {
    "選んだ文字にする方法が使われていません。接続先を確認してください。"@
}

/// The message of a connection the server refused without a reason.
pub open spec fn connection_refused_message() -> Seq<char> {
    "音声認識サービスへの接続が拒否されました"@
}

/// A failure of the recognition session that is no fault: the connection
/// dropped, and listening goes on.
pub open spec fn spec_is_nonfatal(e: AsrError) -> bool {
    e is Io || e is ClosedEarly
}

pub fn is_nonfatal_asr_error(error: &AsrError) -> (r: bool)
    ensures
        r == spec_is_nonfatal(*error),
{
    matches!(error, AsrError::Io(_) | AsrError::ClosedEarly)
}

/// What the user is told of a failed recognition session.
pub open spec fn asr_error_text(e: AsrError) -> Seq<char> {
    match e {
        AsrError::Connect(_) | AsrError::Io(_) => "音声認識サービスへの接続に失敗しました"@,
        AsrError::Decode(_) => "音声認識サービスからの応答を処理できませんでした"@,
        AsrError::ClosedEarly => "音声認識セッションが予期せず終了しました"@,
        AsrError::Server { .. } => "音声認識サーバーでエラーが発生しました"@,
    }
}

pub fn asr_user_error_message(error: &AsrError) -> (r: &'static str)
    ensures
        r@ == asr_error_text(*error),
{
    match error {
        AsrError::Connect(_) | AsrError::Io(_) => "音声認識サービスへの接続に失敗しました",
        AsrError::Decode(_) => "音声認識サービスからの応答を処理できませんでした",
        AsrError::ClosedEarly => "音声認識セッションが予期せず終了しました",
        AsrError::Server { .. } => "音声認識サーバーでエラーが発生しました",
    }
}

/// One audio send for each frame, in order.
pub open spec fn sends(frames: Seq<Seq<u8>>) -> Seq<EffectView>
    decreases frames.len(),
{
    if frames.len() == 0 {
        Seq::empty()
    } else {
        sends(frames.drop_last()).push(EffectView::SendAudio(frames.last()))
    }
}

/// The waiting audio goes to the recognizer, oldest first; without a
/// connection the session fails instead. Says whether the sends were made.
pub open spec fn flush_step(c: CoreView, now: u64) -> (CoreView, Seq<EffectView>, bool) {
    let frames = c.audio.pending;
    let c1 = CoreView { audio: AudioView { pending: Seq::empty(), ..c.audio }, ..c };
    if frames.len() > 0 && !c1.flags.has_transport {
        let (c2, e2) = fail_step(c1, no_session_message(), true, now);
        (c2, e2, false)
    } else {
        (c1, sends(frames), true)
    }
}

/// The end of speech heard by the local VAD. With client endpointing, the
/// utterance's audio goes out (when still connecting) and `finalize` is
/// sent, once per utterance; in `both` mode audio pauses until the next
/// speech. With server endpointing, nothing is sent: the server decides
/// that speech ended; a pause left over from an early `<end>` takes effect,
/// and the wait for the server's answer starts unless `<end>` already came.
#[verifier::opaque]
pub open spec fn finish_speech_step(c: CoreView, now: u64) -> (CoreView, Seq<EffectView>) {
    let client_can = c.settings.endpoint_mode == EndpointMode::Client || c.settings.endpoint_mode
        == EndpointMode::Both;
    if client_can && (c.state == SessionState::Connecting || c.state == SessionState::Streaming)
        && !c.flags.client_finalize_sent {
        client_end_step(c, now)
    } else if c.settings.endpoint_mode == EndpointMode::Server && c.state == SessionState::Streaming {
        (server_end_step(c, now), Seq::empty())
    } else {
        (c, Seq::empty())
    }
}

/// In `both` mode, audio pauses until the next speech and the pre-roll is
/// dropped.
pub open spec fn paused_for_both(c: CoreView) -> CoreView {
    if c.settings.endpoint_mode == EndpointMode::Both {
        CoreView {
            flags: TurnFlags { server_audio_paused: true, pause_when_gate_stops: false, ..c.flags },
            audio: AudioView { preroll: Seq::empty(), ..c.audio },
            ..c
        }
    } else {
        c
    }
}

/// `finalize` goes out (marked sent either way); without a connection the
/// session fails instead.
pub open spec fn finalize_send_step(c: CoreView, now: u64) -> (CoreView, Seq<EffectView>) {
    let c3 = CoreView { flags: TurnFlags { client_finalize_sent: true, ..c.flags }, ..c };
    if c3.flags.has_transport {
        (
            CoreView { flags: TurnFlags { finalize_pending: true, ..c3.flags }, ..c3 },
            seq![EffectView::SendFinalize],
        )
    } else {
        fail_step(c3, no_session_message(), true, now)
    }
}

/// The client ends the utterance: the audio still waiting goes out first
/// (when connecting), then `finalize`.
pub open spec fn client_end_step(c: CoreView, now: u64) -> (CoreView, Seq<EffectView>) {
    let c1 = paused_for_both(c);
    if c1.state == SessionState::Connecting {
        let (c2, e2, ok) = flush_step(c1, now);
        if !ok {
            (c2, e2)
        } else {
            let (c3, e3) = finalize_send_step(c2, now);
            (c3, e2 + e3)
        }
    } else {
        finalize_send_step(c1, now)
    }
}

/// The server ends utterances: a pause left over from an early `<end>`
/// takes effect, and the wait for its answer starts unless `<end>` already
/// came or a wait runs.
pub open spec fn server_end_step(c: CoreView, now: u64) -> CoreView {
    let c1 = if c.flags.pause_when_gate_stops {
        CoreView {
            flags: TurnFlags { pause_when_gate_stops: false, server_audio_paused: true, ..c.flags },
            audio: AudioView { preroll: Seq::empty(), ..c.audio },
            ..c
        }
    } else {
        c
    };
    if !c1.waits.completed_by_endpoint && c1.waits.pending_since_ms is None {
        CoreView { waits: Waits { pending_since_ms: Some(now), ..c1.waits }, ..c1 }
    } else {
        c1
    }
}

/// The connection is up: streaming starts, the backend to expect is fixed,
/// failures are forgotten, the waiting audio goes out, and an utterance
/// that already ended while waiting is finalized.
pub open spec fn connected_step(c: CoreView, now: u64) -> (CoreView, Seq<EffectView>) {
    if !accepts(c.state, SessionInput::Connected) {
        (c, Seq::empty())
    } else {
        let (c2, e2, ok) = flush_step(
            connected_state(CoreView { state: next_state(c.state, SessionInput::Connected), ..c }),
            now,
        );
        if !ok {
            (c2, e2)
        } else {
            let (c4, e4) = streaming_started_step(c2, now);
            (c4, e2 + e4)
        }
    }
}

/// On connecting: the backend to expect is fixed and failures are
/// forgotten.
pub open spec fn connected_state(c: CoreView) -> CoreView {
    CoreView {
        expected_backend: opt_str(c.settings.route_backend),
        flags: TurnFlags { backend_confirmed: c.settings.route_backend is None, ..c.flags },
        failure: FailureState {
            failed_at_ms: None,
            recovery_enabled: false,
            retry_delay_ms: FAILED_RETRY_INITIAL_DELAY_MS,
        },
        times: Times { connecting_since_ms: None, ..c.times },
        ..c
    }
}

/// Streaming: the interface is told; an utterance that waited for a
/// warm-up and already ended is finalized now, otherwise it is an ordinary
/// utterance again.
pub open spec fn streaming_started_step(c: CoreView, now: u64) -> (CoreView, Seq<EffectView>) {
    if c.delayed_turn matches Some(t) && t.speech_ended {
        let (c4, e4) = finish_speech_step(c, now);
        (c4, seq![EffectView::UiState(SessionState::Streaming)] + e4)
    } else {
        (CoreView { delayed_turn: None, ..c }, seq![EffectView::UiState(SessionState::Streaming)])
    }
}

/// Committed text. Text that comes after the client finalized, while no
/// speech goes on and no finalize is awaited, belongs to no utterance and
/// is dropped; otherwise it answers the wait and is appended.
pub open spec fn final_text_step(c: CoreView, text: Seq<char>) -> (CoreView, Seq<EffectView>) {
    if c.flags.client_finalize_sent && !c.flags.gate_speaking && !c.flags.finalize_pending {
        (c, Seq::empty())
    } else {
        let c1 = CoreView { waits: Waits { completed_by_endpoint: false, ..c.waits }, ..c };
        let (c2, was) = completed_wait(c1);
        (
            CoreView {
                waits: Waits { completed_by_final_text: was, ..c2.waits },
                text: TextView { committed: c2.text.committed + text, ..c2.text },
                ..c2
            },
            Seq::empty(),
        )
    }
}

/// A response ends the wait, and a notice after it no longer belongs to an
/// `<end>`.
pub open spec fn answered(c: CoreView) -> CoreView {
    CoreView {
        waits: Waits { completed_by_endpoint: false, pending_since_ms: None, ..c.waits },
        ..c
    }
}

/// New tentative text; non-empty text takes the committed text off the
/// overlay.
pub open spec fn partial_shown(c: CoreView, text: Seq<char>) -> CoreView {
    CoreView {
        text: TextView { partial: text, ..c.text },
        shown: ShownView {
            commit: if text.len() > 0 {
                None
            } else {
                c.shown.commit
            },
            ..c.shown
        },
        ..c
    }
}

/// Tentative text: it answers the wait; after the client finalized and
/// while no speech goes on, it is dropped; otherwise it replaces the
/// tentative text, and non-empty text takes the committed text off the
/// overlay.
pub open spec fn partial_text_step(c: CoreView, text: Seq<char>) -> (CoreView, Seq<EffectView>) {
    let c2 = answered(c);
    if c2.flags.client_finalize_sent && !c2.flags.gate_speaking {
        (c2, Seq::empty())
    } else {
        (partial_shown(c2, text), Seq::empty())
    }
}

/// `<end>` answers the wait (unless the final text already did), no
/// finalize is awaited any more, and it is the last speech end.
pub open spec fn endpoint_received(c: CoreView, now: u64) -> CoreView {
    let w = if c.waits.completed_by_final_text {
        Waits { completed_by_final_text: false, completed_by_endpoint: true, ..c.waits }
    } else {
        Waits { pending_since_ms: None, completed_by_endpoint: true, ..c.waits }
    };
    CoreView {
        waits: w,
        flags: TurnFlags { finalize_pending: false, ..c.flags },
        times: Times { last_endpoint_ms: Some(now), ..c.times },
        ..c
    }
}

/// When the server endpoints, audio pauses until the next speech; if
/// speech goes on, once it stops.
pub open spec fn endpoint_paused(c: CoreView) -> CoreView {
    let server_can = c.settings.endpoint_mode == EndpointMode::Server || c.settings.endpoint_mode
        == EndpointMode::Both;
    if server_can && c.flags.gate_speaking {
        CoreView { flags: TurnFlags { pause_when_gate_stops: true, ..c.flags }, ..c }
    } else if server_can {
        CoreView { flags: TurnFlags { server_audio_paused: true, ..c.flags }, ..c }
    } else {
        c
    }
}

/// The segment of the transcript is committed.
pub open spec fn segment_committed(c: CoreView, now: u64) -> (CoreView, Seq<EffectView>) {
    commit_step(taken_segment(c).0, taken_segment(c).1, now)
}

/// `<end>`: the wait is answered (unless the final text already did), no
/// finalize is awaited, audio pauses until the next speech when the server
/// endpoints (later, if speech goes on), the segment is committed, and a
/// delayed utterance's session closes; with nothing to show, the overlay
/// facts are cleared.
pub open spec fn endpoint_step(c: CoreView, now: u64) -> (CoreView, Seq<EffectView>) {
    let c3 = endpoint_paused(endpoint_received(c, now));
    let (c5, e5) = segment_committed(c3, now);
    let (c6, e6) = close_delayed_step(c5, false, now);
    (quiet_overlay_cleared(c6), e5 + e6)
}

/// With no committed text or error up, the overlay facts are cleared.
pub open spec fn quiet_overlay_cleared(c: CoreView) -> CoreView {
    if c.shown.commit is None && c.shown.error is None {
        cleared_overlay_facts(c)
    } else {
        c
    }
}

/// The answer to `finalize`: the wait is answered (unless the final text
/// already did), no finalize is awaited, the segment is committed.
pub open spec fn finalize_done_step(c: CoreView, now: u64) -> (CoreView, Seq<EffectView>) {
    let c1 = if c.waits.completed_by_final_text {
        CoreView { waits: Waits { completed_by_final_text: false, ..c.waits }, ..c }
    } else {
        completed_wait(c).0
    };
    let c2 = CoreView {
        flags: TurnFlags { finalize_pending: false, ..c1.flags },
        times: Times { last_endpoint_ms: Some(now), ..c1.times },
        ..c1
    };
    let (c3, segment) = taken_segment(c2);
    commit_step(c3, segment, now)
}

/// `finished` arrived: no wait remains, no finalize is awaited, and the
/// connection counts as closing.
pub open spec fn finished_received(c: CoreView) -> CoreView {
    let c1 = cleared_waits(c);
    CoreView { flags: TurnFlags { finalize_pending: false, asr_closing: true, ..c1.flags }, ..c1 }
}

/// The session accepted its end: the interface is told, the connection
/// dropped, listening resumed, saved settings applied.
pub open spec fn session_ended_step(c: CoreView) -> (CoreView, Seq<EffectView>) {
    let (c6, e6) = cleanup_step(c);
    let (c7, e7) = resume_step(c6);
    (c7, seq![EffectView::UiState(c.state)] + e6 + e7.push(EffectView::ApplyPendingSettings))
}

/// `finished`: no wait remains, the segment is committed, and when the
/// session accepts the end it moves on, drops the connection and resumes.
pub open spec fn finished_step(c: CoreView, now: u64) -> (CoreView, Seq<EffectView>) {
    let (c4, e4) = segment_committed(finished_received(c), now);
    if accepts(c4.state, SessionInput::Finished) {
        let (c6, e6) = session_ended_step(
            CoreView { state: next_state(c4.state, SessionInput::Finished), ..c4 },
        );
        (c6, e4 + e6)
    } else {
        (c4, e4)
    }
}

/// The server names its backend: the expected one confirms it, another one
/// fails the session for the user to look at.
pub open spec fn backend_step(c: CoreView, actual: Seq<char>, now: u64) -> (CoreView, Seq<EffectView>) {
    match c.expected_backend {
        Some(expected) => if expected == actual {
            (CoreView { flags: TurnFlags { backend_confirmed: true, ..c.flags }, ..c }, Seq::empty())
        } else {
            fail_step(c, backend_mismatch_message(), false, now)
        },
        None => (c, Seq::empty()),
    }
}

/// The connection closed: refused by policy, it fails with the server's
/// reason; while closing, the session ends normally; with a reason, it
/// fails; otherwise it was cut and listening goes on.
pub open spec fn closed_step(c: CoreView, code: Option<u16>, reason: Seq<char>, now: u64) -> (
    CoreView,
    Seq<EffectView>,
) {
    let c1 = completed_wait(c).0;
    if code == Some(1008u16) {
        fail_step(
            c1,
            if reason.len() == 0 {
                connection_refused_message()
            } else {
                reason
            },
            true,
            now,
        )
    } else if c1.flags.asr_closing || c1.state == SessionState::Closing {
        finish_shutdown_step(c1)
    } else if reason.len() > 0 {
        fail_step(c1, reason, true, now)
    } else {
        abort_step(c1)
    }
}

/// A notice shown for a while in place of errors and committed text.
pub open spec fn notice_shown(c: CoreView, message: Seq<char>, now: u64) -> CoreView {
    CoreView {
        shown: ShownView {
            error: None,
            commit: None,
            notice: Some((sanitized(message, c.api_key), (now + OVERLAY_NOTICE_DURATION_MS) as nat)),
        },
        ..c
    }
}

/// A notice: it is the answer to the utterance (right after `<end>` it
/// belongs to that answer), and a delayed utterance's session closes.
pub open spec fn notice_step(c: CoreView, message: Seq<char>, now: u64) -> (CoreView, Seq<EffectView>) {
    let c2 = if c.waits.completed_by_endpoint {
        notice_shown(
            CoreView { waits: Waits { completed_by_endpoint: false, ..c.waits }, ..c },
            message,
            now,
        )
    } else {
        let c1 = if !(c.state == SessionState::Streaming || c.state == SessionState::Closing) {
            CoreView { delayed_turn: None, ..c }
        } else {
            c
        };
        notice_shown(completed_wait(c1).0, message, now)
    };
    close_delayed_step(c2, true, now)
}

/// The session reports a failure: the wait is answered; a dropped
/// connection ends the session (normally when closing) and listening goes
/// on; any other failure fails the session, to be retried.
pub open spec fn failed_event_step(c: CoreView, error: AsrError, now: u64) -> (CoreView, Seq<EffectView>) {
    let c1 = completed_wait(c).0;
    if spec_is_nonfatal(error) {
        if c1.flags.asr_closing || c1.state == SessionState::Closing {
            finish_shutdown_step(c1)
        } else {
            abort_step(c1)
        }
    } else {
        fail_step(c1, asr_error_text(error), true, now)
    }
}

/// What an event of the recognition session does. Every event but a
/// failure or a close shows that the service answered.
pub open spec fn asr_step(c: CoreView, event: AsrEvent, now: u64) -> (CoreView, Seq<EffectView>) {
    let c0 = if event is Failed || event is Closed {
        c
    } else {
        CoreView { times: Times { last_response_ms: Some(now), ..c.times }, ..c }
    };
    match event {
        AsrEvent::Connected => connected_step(c0, now),
        AsrEvent::FinalText(t) => if !c0.flags.backend_confirmed {
            fail_step(c0, backend_mismatch_message(), false, now)
        } else {
            final_text_step(c0, t@)
        },
        AsrEvent::PartialText(t) => if !c0.flags.backend_confirmed {
            fail_step(c0, backend_mismatch_message(), false, now)
        } else {
            partial_text_step(c0, t@)
        },
        AsrEvent::Endpoint => endpoint_step(c0, now),
        AsrEvent::FinalizeDone => finalize_done_step(c0, now),
        AsrEvent::Finished => finished_step(c0, now),
        AsrEvent::Backend(actual) => backend_step(c0, actual@, now),
        AsrEvent::Closed { code, reason } => closed_step(c0, code, reason@, now),
        AsrEvent::WarmupAfter(ms) => (
            CoreView { times: Times { warmup_after_ms: Some(ms), ..c0.times }, ..c0 },
            Seq::empty(),
        ),
        AsrEvent::Notice { code, message } => notice_step(c0, message@, now),
        AsrEvent::Failed(error) => failed_event_step(c0, error, now),
    }
}

/// The idle time after which the recognizer sleeps: the server's word, or
/// a minute.
pub open spec fn warmup_threshold(c: CoreView) -> nat {
    match c.times.warmup_after_ms {
        Some(ms) => ms as nat,
        None => 60000,
    }
}

/// An error that waits for the user.
pub open spec fn persistent_error(c: CoreView) -> bool {
    c.shown.error matches Some(ErrorView::Persistent { .. })
}

/// The recognizer may have slept: warm it before the next speech. Not when
/// the connection cannot enroll, an error waits for the user, a retry is
/// not due, or the service answered within the idle time.
pub open spec fn warmup_is_due(c: CoreView, now: u64) -> bool {
    &&& c.settings.enrollment_eligible
    &&& !persistent_error(c)
    &&& (c.warmup.retry_at_ms matches Some(r) ==> now >= r)
    &&& (c.times.last_response_ms matches Some(t) ==> elapsed(t as nat, now as nat) >= warmup_threshold(c))
}

/// An enrollment went through within the idle time: no need to send it
/// again before connecting.
pub open spec fn enrollment_fresh(c: CoreView, now: u64) -> bool {
    c.times.last_response_ms matches Some(t) && elapsed(t as nat, now as nat) < warmup_threshold(c)
}

/// Starts a warm-up unless one runs (which counts as started); refused
/// when the connection cannot enroll, a retry is not due, or an error
/// waits for the user. Says whether one runs.
pub open spec fn start_warmup_step(c: CoreView, reason: WarmupReason, now: u64) -> (
    CoreView,
    Seq<EffectView>,
    bool,
) {
    if c.warmup.started_at_ms is Some {
        (c, Seq::empty(), true)
    } else if !c.settings.enrollment_eligible || (c.warmup.retry_at_ms matches Some(r) && now < r)
        || persistent_error(c) {
        (c, Seq::empty(), false)
    } else {
        (
            CoreView { warmup: WarmupState { started_at_ms: Some(now), ..c.warmup }, ..c },
            seq![EffectView::StartWarmup(reason)],
            true,
        )
    }
}

/// The frames dropped from the front of `frames` so that `incoming` fits
/// under the limit (or until none is left).
pub open spec fn drop_count(frames: Seq<Seq<u8>>, incoming: nat) -> nat
    decreases frames.len(),
{
    if frames.len() > 0 && total_len(frames) + incoming > PENDING_AUDIO_MAX_BYTES {
        1 + drop_count(frames.drop_first(), incoming)
    } else {
        0
    }
}

/// The bytes of all frames.
pub open spec fn total_len(frames: Seq<Seq<u8>>) -> nat
    decreases frames.len(),
{
    if frames.len() == 0 {
        0
    } else {
        total_len(frames.drop_last()) + frames.last().len()
    }
}

/// Audio waits for the connection; when it would pass the limit, the
/// oldest frames are dropped (and counted) first, never the new one.
pub open spec fn queue_step(c: CoreView, bytes: Seq<u8>) -> CoreView {
    let k = drop_count(c.audio.pending, bytes.len());
    CoreView {
        audio: AudioView {
            pending: c.audio.pending.skip(k as int).push(bytes),
            dropped_frames: if c.audio.dropped_frames + k <= u64::MAX {
                c.audio.dropped_frames + k
            } else {
                u64::MAX as nat
            },
            ..c.audio
        },
        ..c
    }
}

/// Samples enter the pre-roll, which keeps only the newest.
pub open spec fn preroll_pushed(c: CoreView, samples: Seq<i16>) -> CoreView {
    CoreView {
        audio: AudioView {
            preroll: newest(c.audio.preroll + samples, c.audio.preroll_capacity),
            ..c.audio
        },
        ..c
    }
}

/// Audio goes to the recognizer; without a connection the session fails.
pub open spec fn send_audio_step(c: CoreView, bytes: Seq<u8>, now: u64) -> (CoreView, Seq<EffectView>) {
    if c.flags.has_transport {
        (c, seq![EffectView::SendAudio(bytes)])
    } else {
        fail_step(c, no_session_message(), true, now)
    }
}

/// Where a frame of audio goes. Held with speech deferred for a warm-up;
/// dropped during another warm-up; kept as pre-roll while listening,
/// failed or closing; waiting for the connection while connecting (as
/// pre-roll once the utterance was finalized); sent while streaming (as
/// pre-roll while paused after `<end>`); dropped when the microphone is off.
pub open spec fn samples_step(c: CoreView, samples: Seq<i16>, now: u64) -> (CoreView, Seq<EffectView>) {
    match c.deferred {
        Some(d) => (
            CoreView {
                deferred: Some(DeferredView { audio: d.audio.push(samples), ..d }),
                ..c
            },
            Seq::empty(),
        ),
        None => if c.warmup.started_at_ms is Some {
            (c, Seq::empty())
        } else {
            match c.state {
                SessionState::Listening | SessionState::Failed | SessionState::Closing => (
                    preroll_pushed(c, samples),
                    Seq::empty(),
                ),
                SessionState::Connecting => if c.flags.client_finalize_sent {
                    (preroll_pushed(c, samples), Seq::empty())
                } else {
                    (queue_step(c, pcm_bytes(samples)), Seq::empty())
                },
                SessionState::Streaming => if c.flags.server_audio_paused {
                    (preroll_pushed(c, samples), Seq::empty())
                } else {
                    send_audio_step(c, pcm_bytes(samples), now)
                },
                _ => (c, Seq::empty()),
            }
        },
    }
}

/// Speech started during a warm-up: it joins the held-back speech (the
/// first pre-roll is kept), and is not over yet.
pub open spec fn deferred_joined(c: CoreView) -> CoreView {
    let p = c.audio.preroll;
    CoreView {
        audio: AudioView { preroll: Seq::empty(), ..c.audio },
        deferred: match c.deferred {
            None => Some(DeferredView { preroll: p, audio: Seq::empty(), ended: false }),
            Some(d) => Some(
                DeferredView {
                    preroll: if d.preroll.len() == 0 {
                        p
                    } else {
                        d.preroll
                    },
                    audio: d.audio,
                    ended: false,
                },
            ),
        },
        ..c
    }
}

/// Speech while streaming: the utterance boundary goes out, and after an
/// `<end>` pause, audio resumes with the pre-roll.
pub open spec fn streaming_speech_step(c: CoreView, now: u64) -> (CoreView, Seq<EffectView>) {
    let c1 = CoreView { times: Times { last_endpoint_ms: Some(now), ..c.times }, ..c };
    if !c1.flags.has_transport {
        fail_step(c1, no_session_message(), true, now)
    } else if c1.flags.server_audio_paused {
        let p = c1.audio.preroll;
        (
            CoreView {
                flags: TurnFlags { server_audio_paused: false, pause_when_gate_stops: false, ..c1.flags },
                audio: AudioView { preroll: Seq::empty(), ..c1.audio },
                ..c1
            },
            if p.len() > 0 {
                seq![EffectView::SendSpeechStart, EffectView::SendAudio(pcm_bytes(p))]
            } else {
                seq![EffectView::SendSpeechStart]
            },
        )
    } else {
        (c1, seq![EffectView::SendSpeechStart])
    }
}

/// Speech while still connecting, after the previous utterance was
/// finalized: the boundary is queued, and the pre-roll waits behind it.
pub open spec fn connecting_speech_step(c: CoreView, now: u64) -> (CoreView, Seq<EffectView>) {
    if !c.flags.has_transport {
        fail_step(c, no_session_message(), true, now)
    } else {
        let p = c.audio.preroll;
        let c1 = CoreView {
            flags: TurnFlags { server_audio_paused: false, pause_when_gate_stops: false, ..c.flags },
            audio: AudioView { preroll: Seq::empty(), ..c.audio },
            ..c
        };
        (
            if p.len() > 0 {
                queue_step(c1, pcm_bytes(p))
            } else {
                c1
            },
            seq![EffectView::SendSpeechStart],
        )
    }
}

/// Speech started: the overlay drops committed text and notices, and the
/// utterance is not finalized yet. During a warm-up it is held back;
/// when the recognizer may have slept, a warm-up starts and holds it;
/// otherwise, listening, the session opens; streaming, the next utterance
/// starts; connecting after a finalized utterance, the boundary is queued.
pub open spec fn speech_started_step(c: CoreView, now: u64) -> (CoreView, Seq<EffectView>) {
    let c1 = CoreView {
        flags: TurnFlags { gate_speaking: true, client_finalize_sent: false, ..c.flags },
        shown: ShownView { commit: None, notice: None, ..c.shown },
        ..c
    };
    if c1.warmup.started_at_ms is Some {
        (deferred_joined(c1), Seq::empty())
    } else if c1.state == SessionState::Listening && warmup_is_due(c1, now) {
        let c1a = CoreView {
            deferred: Some(
                DeferredView { preroll: c1.audio.preroll, audio: Seq::empty(), ended: false },
            ),
            audio: AudioView { preroll: Seq::empty(), ..c1.audio },
            ..c1
        };
        let (c2, e2, started) = start_warmup_step(c1a, WarmupReason::BeforeSpeech, now);
        if started {
            (c2, e2)
        } else {
            let c3 = CoreView { deferred: None, delayed_turn: None, ..c2 };
            (c3, seq![EffectView::OpenSession { check_enrollment: !enrollment_fresh(c3, now) }])
        }
    } else {
        match c1.state {
            SessionState::Listening => (
                c1,
                seq![EffectView::OpenSession { check_enrollment: !enrollment_fresh(c1, now) }],
            ),
            SessionState::Streaming => streaming_speech_step(c1, now),
            SessionState::Connecting => if c.flags.client_finalize_sent {
                connecting_speech_step(c1, now)
            } else {
                (c1, Seq::empty())
            },
            _ => (c1, Seq::empty()),
        }
    }
}

/// Speech ended: an utterance that waited for a warm-up is marked ended;
/// held-back speech is marked ended and waits; otherwise the utterance
/// ends (see `finish_speech_step`).
pub open spec fn speech_ended_step(c: CoreView, now: u64) -> (CoreView, Seq<EffectView>) {
    let c1 = CoreView {
        flags: TurnFlags { gate_speaking: false, ..c.flags },
        delayed_turn: match c.delayed_turn {
            Some(t) => Some(DelayedTurn { speech_ended: true, ..t }),
            None => None,
        },
        ..c
    };
    match c1.deferred {
        Some(d) => (CoreView { deferred: Some(DeferredView { ended: true, ..d }), ..c1 }, Seq::empty()),
        None => finish_speech_step(c1, now),
    }
}

/// A session starts opening for an utterance.
pub open spec fn session_opening(c: CoreView, now: u64) -> CoreView {
    CoreView {
        times: Times {
            last_endpoint_ms: Some(now),
            connecting_since_ms: Some(now),
            closing_since_ms: None,
            ..c.times
        },
        flags: TurnFlags { server_audio_paused: false, pause_when_gate_stops: false, ..c.flags },
        ..c
    }
}

/// The outcome of the enrollment before connecting: one only the user can
/// fix fails the session; otherwise the session starts connecting with
/// the pre-roll.
pub open spec fn open_session_step(c: CoreView, needs_user: Option<Seq<char>>, now: u64) -> (
    CoreView,
    Seq<EffectView>,
) {
    match needs_user {
        Some(m) => fail_step(c, m, false, now),
        None => if !accepts(c.state, SessionInput::SpeechStarted) {
            (c, Seq::empty())
        } else {
            let c1 = session_opening(
                CoreView { state: next_state(c.state, SessionInput::SpeechStarted), ..c },
                now,
            );
            (
                CoreView { audio: AudioView { preroll: Seq::empty(), ..c1.audio }, ..c1 },
                seq![EffectView::StartAsr { preroll: c1.audio.preroll, deferred_audio: Seq::empty() }],
            )
        },
    }
}

/// The waiting audio of a new connection: the pre-roll (if any), then the
/// held-back frames.
pub open spec fn initial_pending(preroll: Seq<i16>, deferred: Seq<Seq<i16>>) -> Seq<Seq<u8>> {
    (if preroll.len() > 0 {
        seq![pcm_bytes(preroll)]
    } else {
        Seq::<Seq<u8>>::empty()
    }) + deferred.map_values(|f: Seq<i16>| pcm_bytes(f))
}

/// The connection exists: its secret is kept for hiding, audio waits for
/// it, and errors and notices leave the overlay.
pub open spec fn asr_started_step(
    c: CoreView,
    api_key: Option<Seq<char>>,
    preroll: Seq<i16>,
    deferred: Seq<Seq<i16>>,
) -> (CoreView, Seq<EffectView>) {
    (
        CoreView {
            api_key,
            flags: TurnFlags { asr_closing: false, has_transport: true, ..c.flags },
            audio: AudioView { pending: initial_pending(preroll, deferred), dropped_frames: 0, ..c.audio },
            shown: ShownView { error: None, notice: None, ..c.shown },
            ..c
        },
        seq![EffectView::UiState(SessionState::Connecting)],
    )
}

/// The connection could not be opened: unless listening was turned off
/// meanwhile, the session fails (for the user when only they can fix it).
pub open spec fn asr_start_failed_step(c: CoreView, message: Seq<char>, now: u64) -> (
    CoreView,
    Seq<EffectView>,
) {
    if c.state == SessionState::Disabled {
        (c, Seq::empty())
    } else {
        fail_step(c, message, !spec_is_user_action_failure(message), now)
    }
}

/// Held-back speech goes on after the warm-up: listening, the session
/// starts connecting, marked as an utterance that waited (so its text is
/// only copied), with the held-back audio.
#[verifier::opaque]
pub open spec fn resume_deferred_step(c: CoreView, began_at: u64, now: u64) -> (CoreView, Seq<EffectView>) {
    match c.deferred {
        None => (c, Seq::empty()),
        Some(d) => {
            let c1 = CoreView { deferred: None, ..c };
            if c1.state != SessionState::Listening || !accepts(c1.state, SessionInput::SpeechStarted) {
                (c1, Seq::empty())
            } else {
                let c2 = session_opening(
                    CoreView {
                        state: next_state(c1.state, SessionInput::SpeechStarted),
                        delayed_turn: Some(DelayedTurn { began_at_ms: began_at, speech_ended: d.ended }),
                        ..c1
                    },
                    now,
                );
                (c2, seq![EffectView::StartAsr { preroll: d.preroll, deferred_audio: d.audio }])
            }
        },
    }
}

/// How a warm-up ended.
pub enum WarmupOutcome {
    Ready,
    RetryableRemote,
    NeedsUserAction(String),
}

/// The warm-up ended. Ready: the service answered, retries reset. A remote
/// failure: the next try waits, the wait doubling up to a minute. Either
/// way held-back speech goes on. One only the user can fix: held-back
/// speech is dropped and the session fails for the user.
pub open spec fn warmup_finished_step(c: CoreView, outcome: WarmupOutcome, now: u64) -> (
    CoreView,
    Seq<EffectView>,
) {
    let began = match c.warmup.started_at_ms {
        Some(t) => t,
        None => now,
    };
    let c1 = CoreView { warmup: WarmupState { started_at_ms: None, ..c.warmup }, ..c };
    match outcome {
        WarmupOutcome::Ready => resume_deferred_step(warmup_ready_state(c1, now), began, now),
        WarmupOutcome::RetryableRemote => resume_deferred_step(warmup_retry_state(c1, now), began, now),
        WarmupOutcome::NeedsUserAction(m) => fail_step(
            CoreView {
                warmup: WarmupState { retry_at_ms: None, ..c1.warmup },
                deferred: None,
                delayed_turn: None,
                ..c1
            },
            m@,
            false,
            now,
        ),
    }
}

/// A warm-up went through: the service answered now, retries reset.
pub open spec fn warmup_ready_state(c: CoreView, now: u64) -> CoreView {
    CoreView {
        times: Times { last_response_ms: Some(now), ..c.times },
        warmup: WarmupState { retry_at_ms: None, retry_delay_ms: ENROLL_RETRY_INITIAL_MS, ..c.warmup },
        ..c
    }
}

/// A warm-up failed remotely: the next waits for the current delay, and
/// the delay doubles up to a minute.
pub open spec fn warmup_retry_state(c: CoreView, now: u64) -> CoreView {
    CoreView {
        warmup: WarmupState {
            retry_at_ms: Some((now + c.warmup.retry_delay_ms) as u64),
            retry_delay_ms: doubled_capped(c.warmup.retry_delay_ms as nat, ENROLL_RETRY_MAX_MS as nat) as u64,
            ..c.warmup
        },
        ..c
    }
}

proof fn lemma_total_len_prefix(v: Seq<Seq<u8>>, i: int)
    requires
        0 <= i <= v.len(),
    ensures
        total_len(v.take(i)) <= total_len(v),
    decreases v.len() - i,
{
    if i < v.len() {
        lemma_total_len_prefix(v, i + 1);
        assert(v.take(i + 1).drop_last() =~= v.take(i));
    } else {
        assert(v.take(i) =~= v);
    }
}

/// The bytes of all frames, or one more than the limit when they pass it.
fn capped_total(frames: &Vec<Vec<u8>>) -> (r: usize)
    ensures
        r == if total_len(pending_audio_view(frames@)) > PENDING_AUDIO_MAX_BYTES {
            (PENDING_AUDIO_MAX_BYTES + 1) as nat
        } else {
            total_len(pending_audio_view(frames@))
        },
{
    let ghost v = pending_audio_view(frames@);
    let mut acc: usize = 0;
    let mut i: usize = 0;
    assert(v.take(0) =~= Seq::<Seq<u8>>::empty());
    while i < frames.len()
        invariant
            0 <= i <= frames@.len(),
            v == pending_audio_view(frames@),
            acc == total_len(v.take(i as int)),
            acc <= PENDING_AUDIO_MAX_BYTES,
        decreases frames.len() - i,
    {
        assert(v.take(i + 1).drop_last() =~= v.take(i as int));
        assert(v.take(i + 1).last() == frames@[i as int]@);
        let n = frames[i].len();
        if n > PENDING_AUDIO_MAX_BYTES - acc {
            proof {
                lemma_total_len_prefix(v, i + 1);
            }
            return PENDING_AUDIO_MAX_BYTES + 1;
        }
        acc = acc + n;
        i = i + 1;
    }
    assert(v.take(i as int) =~= v);
    acc
}

fn copy_samples(samples: &[i16]) -> (r: Vec<i16>)
    ensures
        r@ == samples@,
{
    let mut r: Vec<i16> = Vec::new();
    let mut i: usize = 0;
    while i < samples.len()
        invariant
            0 <= i <= samples@.len(),
            r@ =~= samples@.take(i as int),
        decreases samples.len() - i,
    {
        r.push(samples[i]);
        i = i + 1;
    }
    r
}

proof fn lemma_fail_keeps_warmup(c: CoreView, m: Seq<char>, auto_recover: bool, now: u64)
    ensures
        fail_step(c, m, auto_recover, now).0.warmup == c.warmup,
{
}

proof fn lemma_resume_keeps_warmup(c: CoreView, began: u64, now: u64)
    ensures
        resume_deferred_step(c, began, now).0.warmup == c.warmup,
{
    reveal(resume_deferred_step);
}

/// How long closing may take before giving up, in milliseconds.
pub const CLOSING_TIMEOUT_MS: u64 = 8000;

/// How long connecting may take before giving up, in milliseconds: as long
/// as the waiting audio can hold.
pub const CONNECTING_TIMEOUT_MS: u64 = 60000;

/// Closing or connecting took too long: stop, drop the connection, and
/// back to listening.
pub open spec fn timed_out_step(c: CoreView) -> (CoreView, Seq<EffectView>) {
    let (c1, e1) = stop_step(c);
    let (c2, e2) = cleanup_step(c1);
    if !accepts(c2.state, SessionInput::Timeout) {
        (c2, e1 + e2)
    } else {
        let c3 = cleared_overlay_facts(CoreView { state: next_state(c2.state, SessionInput::Timeout), ..c2 });
        (
            CoreView { flags: TurnFlags { gate_speaking: false, ..c3.flags }, ..c3 },
            e1 + e2 + seq![
                EffectView::UiState(SessionState::Listening),
                EffectView::ResumeListening,
                EffectView::ApplyPendingSettings,
            ],
        )
    }
}

/// Gives up on closing after 8 seconds and on connecting after a minute.
pub open spec fn session_timeouts_step(c: CoreView, now: u64) -> (CoreView, Seq<EffectView>) {
    if c.state == SessionState::Closing && (c.times.closing_since_ms matches Some(t) && elapsed(
        t as nat,
        now as nat,
    ) >= CLOSING_TIMEOUT_MS) {
        timed_out_step(c)
    } else if c.state == SessionState::Connecting && (c.times.connecting_since_ms matches Some(t)
        && elapsed(t as nat, now as nat) >= CONNECTING_TIMEOUT_MS) {
        timed_out_step(c)
    } else {
        (c, Seq::empty())
    }
}

/// A failure that the client may leave by itself is left once its delay
/// passed; the next delay doubles, up to half a minute.
pub open spec fn failed_recovery_step(c: CoreView, now: u64) -> (CoreView, Seq<EffectView>) {
    if c.failure.recovery_enabled && (c.failure.failed_at_ms matches Some(t) && elapsed(
        t as nat,
        now as nat,
    ) >= c.failure.retry_delay_ms) && accepts(c.state, SessionInput::Retry) {
        let c1 = cleared_overlay_facts(
            CoreView {
                state: next_state(c.state, SessionInput::Retry),
                failure: FailureState {
                    failed_at_ms: None,
                    recovery_enabled: false,
                    retry_delay_ms: doubled_capped(
                        c.failure.retry_delay_ms as nat,
                        crate::controller::FAILED_RETRY_MAX_MS as nat,
                    ) as u64,
                },
                ..c
            },
        );
        let (c2, e2) = resume_step(c1);
        (c2, seq![EffectView::UiState(SessionState::Listening)] + e2.push(EffectView::ApplyPendingSettings))
    } else {
        (c, Seq::empty())
    }
}

/// Errors, notices and committed text whose time is up leave the overlay.
pub open spec fn expired_shown(c: CoreView, now: u64) -> CoreView {
    CoreView {
        shown: ShownView {
            error: match c.shown.error {
                Some(ErrorView::Temporary { until, .. }) if now >= until => None,
                e => e,
            },
            notice: match c.shown.notice {
                Some((_, until)) if now >= until => None,
                n => n,
            },
            commit: match c.shown.commit {
                Some((_, until)) if now >= until => None,
                m => m,
            },
        },
        ..c
    }
}

/// After the idle time without speech (and with no answer awaited), the
/// connection is finalized, stopped and closed.
pub open spec fn idle_close_step(c: CoreView, now: u64) -> (CoreView, Seq<EffectView>) {
    if !crate::controller::spec_idle_close_is_due(
        c.state,
        c.flags.gate_speaking,
        c.waits.pending_since_ms is Some || c.flags.finalize_pending,
        match c.times.last_endpoint_ms {
            Some(t) => Some(t as nat),
            None => None,
        },
        c.settings.idle_close_sec as nat,
        now as nat,
    ) {
        (c, Seq::empty())
    } else if !c.flags.has_transport {
        fail_step(c, no_session_message(), true, now)
    } else {
        let (c1, e1) = stop_step(c);
        if accepts(c1.state, SessionInput::IdleTimeout) {
            let c2 = cleared_overlay_facts(
                CoreView {
                    state: next_state(c1.state, SessionInput::IdleTimeout),
                    times: Times { last_endpoint_ms: None, closing_since_ms: Some(now), ..c1.times },
                    ..c1
                },
            );
            (c2, seq![EffectView::SendFinalize] + e1.push(EffectView::UiState(SessionState::Closing)))
        } else {
            (c1, seq![EffectView::SendFinalize] + e1)
        }
    }
}

/// The tick of the client, every 100 ms: timeouts, recovery, expiry of
/// what the overlay shows, and closing after silence.
pub open spec fn periodic_step(c: CoreView, now: u64) -> (CoreView, Seq<EffectView>) {
    let (c1, e1) = session_timeouts_step(c, now);
    let (c2, e2) = failed_recovery_step(c1, now);
    let c3 = expired_shown(c2, now);
    let (c4, e4) = idle_close_step(c3, now);
    (c4, e1 + e2 + e4)
}

/// Listening starts: failures are forgotten, the pre-roll is emptied, and
/// the VAD and microphone run.
pub open spec fn enable_step(c: CoreView) -> (CoreView, Seq<EffectView>) {
    if !accepts(c.state, SessionInput::Enable) {
        (c, Seq::empty())
    } else {
        (
            CoreView {
                state: next_state(c.state, SessionInput::Enable),
                failure: FailureState {
                    failed_at_ms: None,
                    recovery_enabled: false,
                    retry_delay_ms: FAILED_RETRY_INITIAL_DELAY_MS,
                },
                audio: AudioView { preroll: Seq::empty(), ..c.audio },
                flags: TurnFlags { gate_speaking: false, ..c.flags },
                ..c
            },
            seq![EffectView::ResumeListening, EffectView::UiState(SessionState::Listening)],
        )
    }
}

/// Listening stops: the warm-up and held-back speech are dropped, the VAD
/// and microphone stop, no wait remains; an open connection is finalized
/// and stopped (the session then ends disabled).
pub open spec fn disable_step(c: CoreView, now: u64) -> (CoreView, Seq<EffectView>) {
    let c1 = cleared_waits(
        CoreView {
            warmup: WarmupState { started_at_ms: None, ..c.warmup },
            deferred: None,
            delayed_turn: None,
            flags: TurnFlags { gate_speaking: false, ..c.flags },
            audio: AudioView { preroll: Seq::empty(), ..c.audio },
            ..c
        },
    );
    let e1 = seq![EffectView::SuspendListening];
    let (c2, e2) = if !accepts(c1.state, SessionInput::Disable) {
        (c1, Seq::empty())
    } else if c1.state == SessionState::Listening {
        (
            CoreView { state: next_state(c1.state, SessionInput::Disable), ..c1 },
            seq![EffectView::UiState(SessionState::Disabled)],
        )
    } else if c1.state == SessionState::Connecting || c1.state == SessionState::Streaming {
        let c1a = CoreView {
            state: next_state(c1.state, SessionInput::Disable),
            times: Times { closing_since_ms: Some(now), ..c1.times },
            ..c1
        };
        let (c1b, e1b) = if c1a.flags.has_transport {
            (c1a, seq![EffectView::SendFinalize])
        } else {
            fail_step(c1a, no_session_message(), true, now)
        };
        let (c1c, e1c) = stop_step(c1b);
        (c1c, seq![EffectView::UiState(SessionState::Closing)] + e1b + e1c)
    } else if c1.state == SessionState::Failed {
        (
            CoreView {
                state: next_state(c1.state, SessionInput::Disable),
                failure: FailureState { failed_at_ms: None, recovery_enabled: false, ..c1.failure },
                ..c1
            },
            seq![EffectView::UiState(SessionState::Disabled)],
        )
    } else if c1.state == SessionState::Closing {
        (CoreView { state: next_state(c1.state, SessionInput::Disable), ..c1 }, Seq::empty())
    } else {
        (c1, Seq::empty())
    };
    (cleared_overlay_facts(c2), e1 + e2)
}

/// The connection cannot be used until the user acts: a running session
/// stops and is dropped, listening stops and the session ends disabled, and
/// the overlay keeps the reason until the user acts.
pub open spec fn connection_required_step(c: CoreView, kind: OverlayKind, message: Seq<char>) -> (
    CoreView,
    Seq<EffectView>,
) {
    let (c1, e1) = if c.state != SessionState::Disabled {
        let (s1, es) = stop_step(c);
        let (s2, ec) = cleanup_step(s1);
        let s3 = if s2.state != SessionState::Failed && accepts(s2.state, SessionInput::Failed) {
            CoreView { state: next_state(s2.state, SessionInput::Failed), ..s2 }
        } else {
            s2
        };
        let s4 = if accepts(s3.state, SessionInput::Disable) {
            CoreView { state: next_state(s3.state, SessionInput::Disable), ..s3 }
        } else {
            s3
        };
        (s4, seq![EffectView::SuspendListening] + es + ec)
    } else {
        (c, Seq::empty())
    };
    (
        CoreView {
            shown: ShownView { error: Some(ErrorView::Persistent { kind, message }), ..c1.shown },
            ..c1
        },
        e1.push(EffectView::UiState(SessionState::Disabled)),
    )
}

/// What a connection that is not ready asks for: a login, or a setup.
pub open spec fn require_connection_step(c: CoreView, readiness: Readiness) -> (CoreView, Seq<EffectView>) {
    match readiness {
        Readiness::Ready => (c, Seq::empty()),
        Readiness::NeedsLogin { message } => connection_required_step(c, OverlayKind::LoginNeeded, message@),
        Readiness::NeedsSetup { message } => connection_required_step(c, OverlayKind::Error, message@),
    }
}

/// The tray's toggle: from disabled, listening starts once the connection
/// is ready (a login starts when one is missing; another need is shown);
/// otherwise listening stops.
pub open spec fn toggle_step(c: CoreView, readiness: Readiness, now: u64) -> (CoreView, Seq<EffectView>) {
    if c.state == SessionState::Disabled {
        match readiness {
            Readiness::Ready => enable_step(c),
            Readiness::NeedsLogin { .. } => (c, seq![EffectView::StartLogin]),
            Readiness::NeedsSetup { .. } => require_connection_step(c, readiness),
        }
    } else {
        disable_step(c, now)
    }
}

/// Gate events of one kind in a frame, each handled in order.
pub open spec fn gate_events_step(c: CoreView, events: Seq<GateEvent>, which: GateEvent, now: u64) -> (
    CoreView,
    Seq<EffectView>,
)
    decreases events.len(),
{
    if events.len() == 0 {
        (c, Seq::empty())
    } else {
        let (c1, e1) = gate_events_step(c, events.drop_last(), which, now);
        if events.last() == which {
            let (c2, e2) = if which == GateEvent::SpeechStarted {
                speech_started_step(c1, now)
            } else {
                speech_ended_step(c1, now)
            };
            (c2, e1 + e2)
        } else {
            (c1, e1)
        }
    }
}

/// A frame from the VAD, with its speech-start and speech-end events. Ignored
/// unless listening; otherwise a start is handled before the frame's
/// samples and an end after them, so that both edges of the utterance
/// fall inside it.
pub open spec fn frame_step(c: CoreView, samples: Seq<i16>, events: Seq<GateEvent>, now: u64) -> (
    CoreView,
    Seq<EffectView>,
) {
    if !crate::session::spec_listening_enabled(c.state) {
        (c, Seq::empty())
    } else {
        let (c1, e1) = gate_events_step(c, events, GateEvent::SpeechStarted, now);
        let (c2, e2) = samples_step(c1, samples, now);
        let (c3, e3) = gate_events_step(c2, events, GateEvent::SpeechEnded, now);
        (c3, e1 + e2 + e3)
    }
}

/// What changed in saved settings, as the program compares them.
#[derive(Clone, Copy, Debug, PartialEq, Eq, Structural)]
pub struct SettingsChange {
    /// The server or the way of recognizing changed.
    pub route_changed: bool,
    pub microphone_changed: bool,
    /// Listening was off in the settings and is on now.
    pub listening_turned_on: bool,
    /// Listening was on in the settings and is off now.
    pub listening_turned_off: bool,
}

/// New settings in force: the pre-roll starts empty at its new size.
pub open spec fn reconfigured(c: CoreView, settings: CoreSettings, preroll_capacity: nat) -> CoreView {
    CoreView {
        settings,
        audio: AudioView { preroll: Seq::empty(), preroll_capacity, ..c.audio },
        ..c
    }
}

/// Another route: the connection is dropped and the new one warmed.
pub open spec fn route_switch_step(c: CoreView, now: u64) -> (CoreView, Seq<EffectView>) {
    let (c1, e1) = cleanup_step(c);
    let (c2, e2, _) = start_warmup_step(c1, WarmupReason::SettingsChanged, now);
    (c2, e1 + e2)
}

/// Settings were saved. Without a session (disabled or failed) they take
/// effect now: a changed route drops the connection and warms the new one,
/// and listening turned on starts listening (or asks for what the
/// connection needs). During a session, another microphone is switched to
/// at once, another route takes effect at once as above, and anything else
/// waits for the session to end.
pub open spec fn settings_saved_step(
    c: CoreView,
    settings: CoreSettings,
    preroll_capacity: nat,
    change: SettingsChange,
    readiness: Readiness,
    now: u64,
) -> (CoreView, Seq<EffectView>) {
    if c.state == SessionState::Disabled || c.state == SessionState::Failed {
        let c1 = reconfigured(c, settings, preroll_capacity);
        let (c2, e2) = if change.route_changed {
            route_switch_step(c1, now)
        } else {
            (c1, Seq::empty())
        };
        let (c3, e3) = if c.state == SessionState::Disabled && change.listening_turned_on {
            match readiness {
                Readiness::Ready => enable_step(c2),
                _ => require_connection_step(c2, readiness),
            }
        } else {
            (c2, Seq::empty())
        };
        (c3, seq![EffectView::ApplySettings] + e2 + e3)
    } else {
        let e0 = if change.microphone_changed {
            seq![EffectView::RestartMicrophone]
        } else {
            Seq::empty()
        };
        if change.route_changed {
            let (c2, e2) = route_switch_step(reconfigured(c, settings, preroll_capacity), now);
            (c2, e0 + seq![EffectView::ApplySettings] + e2)
        } else {
            (c, e0.push(EffectView::HoldSettings))
        }
    }
}

/// Settings held during a session take effect once it ended; listening
/// turned off in them stops listening.
pub open spec fn held_settings_step(
    c: CoreView,
    settings: CoreSettings,
    preroll_capacity: nat,
    listening_turned_off: bool,
    now: u64,
) -> (CoreView, Seq<EffectView>) {
    let c1 = reconfigured(c, settings, preroll_capacity);
    if listening_turned_off {
        disable_step(c1, now)
    } else {
        (c1, Seq::empty())
    }
}

/// An error shown for a while, in place of a notice.
pub open spec fn error_shown(c: CoreView, message: Seq<char>, now: u64) -> CoreView {
    CoreView {
        shown: ShownView {
            notice: None,
            error: Some(
                ErrorView::Temporary { message, until: (now + OVERLAY_ERROR_DURATION_MS) as nat },
            ),
            ..c.shown
        },
        ..c
    }
}

/// The user asked to log in: a login already running is shown again; a
/// connection that needs none says so; otherwise the login worker starts.
pub open spec fn login_requested_step(c: CoreView, running: bool, login_available: bool, now: u64) -> (
    CoreView,
    Seq<EffectView>,
) {
    if running {
        (
            error_shown(c, "ログイン処理中…ブラウザで操作してください"@, now),
            seq![EffectView::LoginProgress(LoginStateView::InProgress)],
        )
    } else if !login_available {
        (error_shown(c, "この接続ではログインは不要です"@, now), seq![EffectView::RefreshLoginState])
    } else {
        (c, seq![EffectView::StartLoginWorker])
    }
}

/// The login worker runs: the login is in progress, and the user is sent
/// to the browser.
pub open spec fn login_started_step(c: CoreView, now: u64) -> (CoreView, Seq<EffectView>) {
    (
        error_shown(c, "ログイン処理中…ブラウザで操作してください"@, now),
        seq![EffectView::LoginProgress(LoginStateView::InProgress)],
    )
}

/// `pat` occurs in `s`.
pub open spec fn occurs_in(s: Seq<char>, pat: Seq<char>) -> bool {
    exists|i: int| 0 <= i && i + pat.len() <= s.len() && #[trigger] s.subrange(i, i + pat.len()) == pat
}

/// How a login ended: it went through, or failed with this message.
pub enum LoginOutcome {
    Succeeded,
    Failed(String),
}

/// The login ended. Through: the account and login state are refreshed, the
/// overlay cleared, and listening starts if the settings want it and it is
/// off. Timed out: refreshed, and the timeout shown. Otherwise it failed,
/// with the first line of its message.
pub open spec fn login_finished_step(
    c: CoreView,
    outcome: LoginOutcome,
    listening_wanted: bool,
    readiness: Readiness,
    now: u64,
) -> (CoreView, Seq<EffectView>) {
    match outcome {
        LoginOutcome::Succeeded => {
            let c1 = cleared_overlay_facts(c);
            let (c2, e2) = if listening_wanted && c.state == SessionState::Disabled {
                match readiness {
                    Readiness::Ready => enable_step(c1),
                    _ => require_connection_step(c1, readiness),
                }
            } else {
                (c1, Seq::empty())
            };
            (c2, seq![EffectView::RefreshAccount, EffectView::RefreshLoginState] + e2)
        },
        LoginOutcome::Failed(message) => if occurs_in(message@, "timed out"@) {
            (
                error_shown(c, "ログインがタイムアウトしました"@, now),
                seq![EffectView::RefreshAccount, EffectView::RefreshLoginState],
            )
        } else {
            let reason = spec_short_login_error(message@);
            (
                error_shown(c, "ログイン失敗: "@ + reason, now),
                seq![EffectView::LoginProgress(LoginStateView::Failed(reason))],
            )
        },
    }
}

/// A client that has just started: disabled, holding nothing.
pub open spec fn initial_view(settings: CoreSettings, preroll_capacity: nat) -> CoreView {
    CoreView {
        state: SessionState::Disabled,
        text: TextView { committed: Seq::empty(), partial: Seq::empty(), pending_commit: Seq::empty() },
        audio: AudioView {
            preroll: Seq::empty(),
            preroll_capacity,
            pending: Seq::empty(),
            dropped_frames: 0,
        },
        flags: TurnFlags {
            gate_speaking: false,
            backend_confirmed: true,
            client_finalize_sent: false,
            finalize_pending: false,
            server_audio_paused: false,
            pause_when_gate_stops: false,
            asr_closing: false,
            has_transport: false,
        },
        waits: Waits {
            pending_since_ms: None,
            completed_by_final_text: false,
            completed_by_endpoint: false,
        },
        shown: ShownView { commit: None, notice: None, error: None },
        times: Times {
            last_response_ms: None,
            last_endpoint_ms: None,
            connecting_since_ms: None,
            closing_since_ms: None,
            warmup_after_ms: None,
        },
        failure: FailureState {
            failed_at_ms: None,
            recovery_enabled: false,
            retry_delay_ms: FAILED_RETRY_INITIAL_DELAY_MS,
        },
        delayed_turn: None,
        warmup: WarmupState {
            started_at_ms: None,
            retry_at_ms: None,
            retry_delay_ms: ENROLL_RETRY_INITIAL_MS,
        },
        deferred: None,
        expected_backend: None,
        api_key: None,
        settings,
    }
}

/// Whether a splash put up at `started` has been up for `splash_ms` at
/// `now` (a clock that went back counts as no time passed).
pub open spec fn splash_over(started: Option<u64>, splash_ms: u32, now: u64) -> bool {
    match started {
        Some(t) => (if now >= t { now - t } else { 0 }) >= splash_ms,
        None => false,
    }
}

/// The overlay the client's state calls for at `now`, by priority: an
/// error; the warm-up, or an utterance that waited for it (nothing may
/// look ready while pasting is held back); a notice; committed text; a
/// long wait for the server; the tentative text; the wait for the
/// finalized result; speech being heard; otherwise nothing.
pub open spec fn core_overlay(c: CoreView, now: u64) -> OverlayShape {
    match c.shown.error {
        Some(ErrorView::Temporary { message, until }) if now < until => shown(
            OverlayKind::Error,
            Seq::empty(),
            Seq::empty(),
            message,
        ),
        Some(ErrorView::Persistent { kind, message }) => shown(kind, Seq::empty(), Seq::empty(), message),
        _ => if c.warmup.started_at_ms is Some || c.delayed_turn is Some {
            shown(OverlayKind::WarmingUp, Seq::empty(), Seq::empty(), Seq::empty())
        } else if c.shown.notice matches Some((m, until)) && now < until {
            shown(OverlayKind::Notice, Seq::empty(), Seq::empty(), (c.shown.notice->0).0)
        } else if c.shown.commit matches Some((t, until)) && now < until {
            shown(OverlayKind::Committed, (c.shown.commit->0).0, Seq::empty(), Seq::empty())
        } else if c.waits.pending_since_ms matches Some(since) && elapsed(since as nat, now as nat)
            >= crate::controller::SERVER_RESPONSE_STARTING_OVERLAY_DELAY_MS {
            shown(OverlayKind::StartingServer, Seq::empty(), Seq::empty(), Seq::empty())
        } else if c.waits.pending_since_ms matches Some(since) && elapsed(since as nat, now as nat)
            >= crate::controller::SERVER_RESPONSE_WAITING_OVERLAY_DELAY_MS {
            shown(OverlayKind::WaitingForResponse, Seq::empty(), Seq::empty(), Seq::empty())
        } else if c.text.partial.len() > 0 {
            shown(OverlayKind::Recognizing, Seq::empty(), c.text.partial, Seq::empty())
        } else if c.flags.finalize_pending {
            shown(OverlayKind::Finalizing, Seq::empty(), Seq::empty(), Seq::empty())
        } else if c.flags.gate_speaking {
            shown(OverlayKind::Recognizing, Seq::empty(), Seq::empty(), Seq::empty())
        } else {
            OverlayShape::Hidden
        },
    }
}

/// Text that arrives before the server named the backend that was chosen is
/// never taken into the transcript or handed out.
pub proof fn law_text_needs_the_confirmed_backend(c: CoreView, t: String, final_text: bool, now: u64)
    requires
        !c.flags.backend_confirmed,
    ensures
        ({
            let e = if final_text {
                AsrEvent::FinalText(t)
            } else {
                AsrEvent::PartialText(t)
            };
            let (r, effects) = asr_step(c, e, now);
            &&& r.text.committed == c.text.committed
            &&& r.text.partial == c.text.partial
            &&& forall|i: int| 0 <= i < effects.len() ==> !(effects[i] is Emit)
        }),
{
    reveal(accepts);
    reveal(next_state);
}

/// `finalize` goes out at most once per utterance: once sent, the end of
/// speech sends nothing more.
pub proof fn law_finalize_at_most_once_per_utterance(c: CoreView, now: u64)
    requires
        c.flags.client_finalize_sent,
    ensures
        finish_speech_step(c, now).1 == Seq::<EffectView>::empty(),
{
    reveal(finish_speech_step);
}

/// With server endpointing the client never tells the server that speech
/// ended: the end of speech sends nothing.
pub proof fn law_server_endpointing_sends_nothing_at_speech_end(c: CoreView, now: u64)
    requires
        c.settings.endpoint_mode == EndpointMode::Server,
    ensures
        finish_speech_step(c, now).1 == Seq::<EffectView>::empty(),
{
    reveal(finish_speech_step);
}

/// Tentative text, the end of the session, a close and a failure each end
/// the wait for the server's answer.
pub proof fn law_responses_end_the_wait(c: CoreView, e: AsrEvent, now: u64)
    requires
        c.flags.backend_confirmed,
        e is PartialText || e is Finished || e is Closed || e is Failed,
    ensures
        asr_step(c, e, now).0.waits.pending_since_ms is None,
{
    reveal(accepts);
    reveal(next_state);
}

/// An utterance that waited for a warm-up is never pasted, only copied:
/// the user may have moved to another window meanwhile.
pub proof fn law_delayed_text_is_only_copied(c: CoreView, segment: Option<Seq<char>>, now: u64)
    requires
        c.delayed_turn is Some,
    ensures
        ({
            let effects = commit_step(c, segment, now).1;
            forall|i: int|
                0 <= i < effects.len() ==> (#[trigger] effects[i] matches EffectView::Emit {
                    clipboard_only,
                    ..
                } ==> clipboard_only)
        }),
{
}

proof fn lemma_drop_count_fits(frames: Seq<Seq<u8>>, n: nat)
    ensures
        drop_count(frames, n) <= frames.len(),
        frames.skip(drop_count(frames, n) as int).len() == 0 || total_len(
            frames.skip(drop_count(frames, n) as int),
        ) + n <= PENDING_AUDIO_MAX_BYTES,
    decreases frames.len(),
{
    if frames.len() > 0 && total_len(frames) + n > PENDING_AUDIO_MAX_BYTES {
        lemma_drop_count_fits(frames.drop_first(), n);
        let k = drop_count(frames.drop_first(), n);
        assert(frames.skip(1int + k) =~= frames.drop_first().skip(k as int));
    } else {
        assert(frames.skip(0) =~= frames);
    }
}

proof fn lemma_total_len_push(frames: Seq<Seq<u8>>, b: Seq<u8>)
    ensures
        total_len(frames.push(b)) == total_len(frames) + b.len(),
{
    assert(frames.push(b).drop_last() =~= frames);
}

/// Audio waiting for the connection keeps the newest frame, and stays
/// within its limit unless a single frame alone passes it: the oldest
/// frames are dropped first.
pub proof fn law_waiting_audio_keeps_the_newest(c: CoreView, bytes: Seq<u8>)
    ensures
        queue_step(c, bytes).audio.pending.last() == bytes,
        queue_step(c, bytes).audio.pending.len() == 1 || total_len(queue_step(c, bytes).audio.pending)
            <= PENDING_AUDIO_MAX_BYTES,
{
    let k = drop_count(c.audio.pending, bytes.len());
    lemma_drop_count_fits(c.audio.pending, bytes.len());
    lemma_total_len_push(c.audio.pending.skip(k as int), bytes);
}

/// Turning listening off is always honored: whatever the state, the user's
/// wish afterwards is off.
pub proof fn law_disable_is_honored(c: CoreView, now: u64)
    ensures
        !crate::session::spec_listening_enabled(disable_step(c, now).0.state),
{
    reveal(accepts);
    reveal(next_state);
}

/// Appends an effect.
fn emit(effects: &mut Vec<Effect>, e: Effect)
    ensures
        effects_view(final(effects)@) == effects_view(old(effects)@).push(e@),
{
    effects.push(e);
    proof {
        reveal(effects_view);
    }
    assert(effects_view(effects@) =~= effects_view(old(effects)@).push(e@));
}

/// Whether `pat` occurs in `s`.
pub fn str_contains(s: &str, pat: &str) -> (r: bool)
    ensures
        r == occurs_in(s@, pat@),
{
    let cs = chars_of(s);
    let cp = chars_of(pat);
    if cp.len() > cs.len() {
        return false;
    }
    if cp.len() == 0 {
        assert(s@.subrange(0int, 0int + pat@.len()) =~= pat@);
        return true;
    }
    let last = cs.len() - cp.len();
    let mut i: usize = 0;
    while i <= last
        invariant
            cs@ == s@,
            cp@ == pat@,
            cp@.len() <= cs@.len(),
            cp@.len() > 0,
            last == cs@.len() - cp@.len(),
            last < cs.len(),
            i <= last + 1,
            forall|j: int| 0 <= j < i ==> #[trigger] cs@.subrange(j, j + cp@.len()) != cp@,
        decreases last + 1 - i,
    {
        let mut k: usize = 0;
        let mut same = true;
        while k < cp.len()
            invariant
                i <= last,
                last == cs@.len() - cp@.len(),
                cp@.len() <= cs@.len(),
                cs@.len() == cs.len(),
                cp@.len() == cp.len(),
                0 <= k <= cp@.len(),
                same == (forall|m: int| 0 <= m < k ==> cs@[i + m] == cp@[m]),
            decreases cp.len() - k,
        {
            if cs[i + k] != cp[k] {
                same = false;
            }
            k = k + 1;
        }
        if same {
            assert(cs@.subrange(i as int, i + cp@.len()) =~= cp@);
            return true;
        }
        assert(cs@.subrange(i as int, i + cp@.len()) != cp@) by {
            let m = choose|m: int| 0 <= m < cp@.len() && cs@[i + m] != cp@[m];
            assert(cs@.subrange(i as int, i + cp@.len())[m] != cp@[m]);
        }
        i = i + 1;
    }
    assert forall|j: int| 0 <= j && j + pat@.len() <= s@.len() implies #[trigger] s@.subrange(j, j + pat@.len()) != pat@ by {
        assert(j < i);
    }
    false
}

/// Appends effects, in order.
fn append_effects(effects: &mut Vec<Effect>, more: Vec<Effect>)
    ensures
        effects_view(final(effects)@) == effects_view(old(effects)@) + effects_view(more@),
{
    let ghost start = effects_view(effects@);
    let mut more = more;
    let ghost all = effects_view(more@);
    let mut rest: Vec<Effect> = Vec::new();
    proof {
        reveal(effects_view);
    }
    // Take the effects from the back, then put them on in their order.
    while more.len() > 0
        invariant
            effects_view(effects@) == start,
            effects_view(more@) + effects_view(rest@).reverse() == all,
        decreases more.len(),
    {
        let e = more.pop().unwrap();
        proof {
            reveal(effects_view);
        }
        let ghost r0 = effects_view(rest@);
        rest.push(e);
        assert(effects_view(rest@) =~= r0.push(e@));
        assert(effects_view(more@) + effects_view(rest@).reverse() =~= all);
    }
    proof {
        reveal(effects_view);
    }
    assert(effects_view(rest@).reverse() =~= all);
    while rest.len() > 0
        invariant
            effects_view(effects@) + effects_view(rest@).reverse() == start + all,
        decreases rest.len(),
    {
        let e = rest.pop().unwrap();
        proof {
            reveal(effects_view);
        }
        let ghost before = effects_view(effects@);
        effects.push(e);
        assert(effects_view(effects@) =~= before.push(e@));
        assert(effects_view(effects@) + effects_view(rest@).reverse() =~= start + all);
    }
    assert(effects_view(effects@) =~= start + all);
}

impl ControllerCore {
    pub open spec fn wf(&self) -> bool {
        self.preroll.wf()
    }

    /// Feeds the session an input.
    fn apply_input(&mut self, input: SessionInput) -> (r: bool)
        ensures
            r == accepts(old(self)@.state, input),
            final(self)@ == (CoreView { state: next_state(old(self)@.state, input), ..old(self)@ }),
            final(self).preroll == old(self).preroll,
    {
        let r = self.session.apply(input);
        proof {
            reveal(accepts);
            reveal(next_state);
        }
        r
    }

    fn complete_pending_wait(&mut self) -> (r: bool)
        ensures
            (final(self)@, r) == completed_wait(old(self)@),
            final(self).preroll == old(self).preroll,
    {
        let was = self.waits.pending_since_ms.is_some();
        self.waits.pending_since_ms = None;
        was
    }

    fn clear_pending_waits(&mut self)
        ensures
            final(self)@ == cleared_waits(old(self)@),
            final(self).preroll == old(self).preroll,
    {
        self.waits = Waits {
            pending_since_ms: None,
            completed_by_final_text: false,
            completed_by_endpoint: false,
        };
    }

    fn clear_overlay_facts(&mut self)
        ensures
            final(self)@ == cleared_overlay_facts(old(self)@),
            final(self).preroll == old(self).preroll,
    {
        proof {
            reveal(error_view);
            reveal(timed_text);
        }
        self.shown = Shown { error: None, notice: None, commit: None };
    }

    fn send_stop(&mut self, effects: &mut Vec<Effect>)
        ensures
            final(self)@ == stop_step(old(self)@).0,
            effects_view(final(effects)@) == effects_view(old(effects)@) + stop_step(old(self)@).1,
            final(self).preroll == old(self).preroll,
    {
        if self.flags.has_transport {
            self.flags.asr_closing = true;
            emit(effects, Effect::SendStop);
        } else {
            assert(effects_view(effects@) =~= effects_view(effects@) + Seq::<EffectView>::empty());
        }
    }

    fn cleanup_asr(&mut self, effects: &mut Vec<Effect>)
        ensures
            final(self)@ == cleanup_step(old(self)@).0,
            effects_view(final(effects)@) == effects_view(old(effects)@) + cleanup_step(
                old(self)@,
            ).1,
            final(self).preroll == old(self).preroll,
    {
        if self.flags.has_transport {
            emit(effects, Effect::CleanupAsr);
        } else {
            assert(effects_view(effects@) =~= effects_view(effects@) + Seq::<EffectView>::empty());
        }
        self.delayed_turn = None;
        self.clear_pending_waits();
        self.flags.finalize_pending = false;
        self.flags.client_finalize_sent = false;
        self.flags.server_audio_paused = false;
        self.flags.pause_when_gate_stops = false;
        self.flags.has_transport = false;
        self.flags.asr_closing = false;
        self.pending_audio = Vec::new();
        self.pending_audio_dropped_frames = 0;
        self.api_key = None;
        self.times.last_endpoint_ms = None;
        self.times.connecting_since_ms = None;
        self.times.closing_since_ms = None;
        assert(pending_audio_view(self.pending_audio@) =~= Seq::<Seq<u8>>::empty());
    }

    fn enter_failed(&mut self, auto_recover: bool, now_ms: u64, effects: &mut Vec<Effect>)
        ensures
            final(self)@ == failed_entry(old(self)@, auto_recover, now_ms).0,
            effects_view(final(effects)@) == effects_view(old(effects)@) + failed_entry(
                old(self)@,
                auto_recover,
                now_ms,
            ).1,
            final(self).preroll == old(self).preroll,
    {
        let ghost c = self@;
        let was_failed = self.session.state() == SessionState::Failed;
        let entered = self.apply_input(SessionInput::Failed);
        if entered {
            self.failure.failed_at_ms = Some(now_ms);
            self.failure.recovery_enabled = auto_recover;
            emit(effects, Effect::UiState(SessionState::Failed));
        } else {
            proof {
                lemma_refused_input_keeps_state(c.state, SessionInput::Failed);
            }
            if was_failed {
                self.failure.recovery_enabled = auto_recover;
                emit(effects, Effect::UiState(SessionState::Failed));
            } else {
                assert(effects_view(effects@) =~= effects_view(effects@) + Seq::<EffectView>::empty());
            }
        }
    }

    fn show_failure(&mut self, message: String, auto_recover: bool, now_ms: u64)
        requires
            clock_ok(now_ms),
        ensures
            final(self)@ == shown_failure(old(self)@, message@, auto_recover, now_ms),
            final(self).preroll == old(self).preroll,
    {
        proof {
            reveal(error_view);
            reveal(timed_text);
        }
        if auto_recover {
            self.shown.notice = None;
            self.shown.error = Some(
                UserError::Temporary { message, until_ms: now_ms + OVERLAY_ERROR_DURATION_MS },
            );
        } else {
            self.clear_pending_waits();
            self.shown.notice = None;
            let mut shown = message;
            push_str(&mut shown, "\nクリックで再試行");
            self.shown.error = Some(UserError::Persistent { kind: OverlayKind::Error, message: shown });
        }
    }

    /// Fails the session (see `fail_step`).
    pub fn fail_runtime(&mut self, message: &str, auto_recover: bool, now_ms: u64, effects: &mut Vec<
        Effect,
    >)
        requires
            clock_ok(now_ms),
        ensures
            final(self)@ == fail_step(old(self)@, message@, auto_recover, now_ms).0,
            effects_view(final(effects)@) == effects_view(old(effects)@) + fail_step(
                old(self)@,
                message@,
                auto_recover,
                now_ms,
            ).1,
            final(self).preroll == old(self).preroll,
            final(self).splash_started_ms is None,
    {
        let ghost e0 = effects_view(effects@);
        let m = sanitize_message(message, &self.api_key);
        self.enter_failed(auto_recover, now_ms, effects);
        self.show_failure(m, auto_recover, now_ms);
        self.send_stop(effects);
        self.cleanup_asr(effects);
        proof {
            let c = old(self)@;
            let (s2, x2) = failed_entry(c, auto_recover, now_ms);
            let s3 = shown_failure(s2, sanitized(message@, c.api_key), auto_recover, now_ms);
            let (s4, x4) = stop_step(s3);
            let (s5, x5) = cleanup_step(s4);
            assert(effects_view(effects@) =~= e0 + (x2 + x4 + x5));
        }
        self.splash_started_ms = None;
    }

    fn show_committed_text(&mut self, text: String, now_ms: u64)
        requires
            clock_ok(now_ms),
        ensures
            final(self)@ == committed_shown(old(self)@, text@, now_ms),
            final(self).preroll == old(self).preroll,
    {
        proof {
            reveal(error_view);
            reveal(timed_text);
        }
        if self.settings.commit_hold_ms == 0 {
            self.shown.commit = None;
        } else {
            let until = now_ms + self.settings.commit_hold_ms as u64;
            self.shown = Shown { error: None, notice: None, commit: Some((text, until)) };
        }
    }

    fn commit_segment(&mut self, segment: Option<String>, now_ms: u64, effects: &mut Vec<Effect>)
        requires
            clock_ok(now_ms),
        ensures
            final(self)@ == commit_step(old(self)@, opt_str(segment), now_ms).0,
            effects_view(final(effects)@) == effects_view(old(effects)@) + commit_step(
                old(self)@,
                opt_str(segment),
                now_ms,
            ).1,
            final(self).preroll == old(self).preroll,
    {
        match segment {
            Some(s) => push_str(&mut self.pending_commit, s.as_str()),
            None => {
                assert(self.pending_commit@ =~= self.pending_commit@ + Seq::<char>::empty());
            },
        }
        if self.settings.auto_paste && !self.settings.paste_per_endpoint && self.session.state()
            != SessionState::Closing {
            assert(effects_view(effects@) =~= effects_view(effects@) + Seq::<EffectView>::empty());
            return;
        }
        let was_delayed = self.delayed_turn.is_some();
        let taken = crate::controller::take_pending(&mut self.pending_commit);
        match taken {
            None => {
                assert(effects_view(effects@) =~= effects_view(effects@) + Seq::<EffectView>::empty());
            },
            Some(text) => {
                let copy = owned(text.as_str());
                self.show_committed_text(text, now_ms);
                if self.settings.auto_paste {
                    emit(effects, Effect::Emit { text: copy, clipboard_only: was_delayed });
                } else {
                    assert(effects_view(effects@) =~= effects_view(effects@) + Seq::<EffectView>::empty());
                }
            },
        }
    }

    fn take_segment(&mut self) -> (r: Option<String>)
        ensures
            final(self)@ == taken_segment(old(self)@).0,
            opt_str(r) == taken_segment(old(self)@).1,
            final(self).preroll == old(self).preroll,
    {
        self.transcript.take_segment()
    }

    fn close_delayed_session_after_response(&mut self, force: bool, now_ms: u64, effects: &mut Vec<Effect>)
        ensures
            final(self)@ == close_delayed_step(old(self)@, force, now_ms).0,
            effects_view(final(effects)@) == effects_view(old(effects)@) + close_delayed_step(
                old(self)@,
                force,
                now_ms,
            ).1,
            final(self).preroll == old(self).preroll,
    {
        let should = match self.delayed_turn {
            Some(t) => (force || t.speech_ended) && self.session.state() == SessionState::Streaming
                && !self.flags.gate_speaking,
            None => false,
        };
        if !should {
            assert(effects_view(effects@) =~= effects_view(effects@) + Seq::<EffectView>::empty());
            return;
        }
        let ghost e0 = effects_view(effects@);
        self.send_stop(effects);
        let ghost e1 = effects_view(effects@);
        let ghost c1 = self@;
        proof {
            lemma_refused_input_keeps_state(c1.state, SessionInput::IdleTimeout);
        }
        if self.apply_input(SessionInput::IdleTimeout) {
            self.times.last_endpoint_ms = None;
            self.times.closing_since_ms = Some(now_ms);
            self.clear_overlay_facts();
            emit(effects, Effect::UiState(SessionState::Closing));
            assert(effects_view(effects@) =~= e0 + (e1.subrange(e0.len() as int, e1.len() as int)).push(
                EffectView::UiState(SessionState::Closing),
            ));
        }
    }

    fn resume_after_finished(&mut self, effects: &mut Vec<Effect>)
        ensures
            final(self)@ == resume_step(old(self)@).0,
            effects_view(final(effects)@) == effects_view(old(effects)@) + resume_step(old(self)@).1,
            final(self).preroll == old(self).preroll,
    {
        if self.session.state() != SessionState::Listening {
            assert(effects_view(effects@) =~= effects_view(effects@) + Seq::<EffectView>::empty());
            return;
        }
        self.flags.gate_speaking = false;
        emit(effects, Effect::ResumeListening);
    }

    fn after_session(&mut self, effects: &mut Vec<Effect>)
        ensures
            final(self)@ == after_session_step(old(self)@).0,
            effects_view(final(effects)@) == effects_view(old(effects)@) + after_session_step(
                old(self)@,
            ).1,
            final(self).preroll == old(self).preroll,
    {
        let ghost e0 = effects_view(effects@);
        self.clear_overlay_facts();
        let st = self.session.state();
        emit(effects, Effect::UiState(st));
        let ghost e1 = effects_view(effects@);
        self.resume_after_finished(effects);
        let ghost e2 = effects_view(effects@);
        emit(effects, Effect::ApplyPendingSettings);
        proof {
            let c1 = cleared_overlay_facts(old(self)@);
            let (c2, x2) = resume_step(c1);
            assert(effects_view(effects@) =~= e0 + (seq![EffectView::UiState(c1.state)] + x2.push(
                EffectView::ApplyPendingSettings,
            )));
        }
    }

    fn finish_asr_shutdown(&mut self, effects: &mut Vec<Effect>)
        ensures
            final(self)@ == finish_shutdown_step(old(self)@).0,
            effects_view(final(effects)@) == effects_view(old(effects)@) + finish_shutdown_step(
                old(self)@,
            ).1,
            final(self).preroll == old(self).preroll,
    {
        let ghost e0 = effects_view(effects@);
        self.cleanup_asr(effects);
        let ghost e1 = effects_view(effects@);
        let _ = self.take_segment();
        let ghost c2 = self@;
        proof {
            lemma_refused_input_keeps_state(c2.state, SessionInput::Finished);
            lemma_refused_input_keeps_state(c2.state, SessionInput::Aborted);
        }
        if self.apply_input(SessionInput::Finished) {
            self.after_session(effects);
            assert(effects_view(effects@) =~= e0 + (e1.subrange(e0.len() as int, e1.len() as int)
                + effects_view(effects@).subrange(e1.len() as int, effects_view(effects@).len() as int)));
        } else if self.apply_input(SessionInput::Aborted) {
            self.after_session(effects);
            assert(effects_view(effects@) =~= e0 + (e1.subrange(e0.len() as int, e1.len() as int)
                + effects_view(effects@).subrange(e1.len() as int, effects_view(effects@).len() as int)));
        }
    }

    fn abort_asr_session(&mut self, effects: &mut Vec<Effect>)
        ensures
            final(self)@ == abort_step(old(self)@).0,
            effects_view(final(effects)@) == effects_view(old(effects)@) + abort_step(old(self)@).1,
            final(self).preroll == old(self).preroll,
    {
        let ghost e0 = effects_view(effects@);
        self.send_stop(effects);
        let ghost e1 = effects_view(effects@);
        self.cleanup_asr(effects);
        let ghost e2 = effects_view(effects@);
        let _ = self.take_segment();
        let ghost c3 = self@;
        proof {
            lemma_refused_input_keeps_state(c3.state, SessionInput::Aborted);
        }
        if self.apply_input(SessionInput::Aborted) {
            self.after_session(effects);
            assert(effects_view(effects@) =~= e0 + e1.subrange(e0.len() as int, e1.len() as int)
                + e2.subrange(e1.len() as int, e2.len() as int) + effects_view(effects@).subrange(
                e2.len() as int,
                effects_view(effects@).len() as int,
            ));
        } else {
            assert(effects_view(effects@) =~= e0 + e1.subrange(e0.len() as int, e1.len() as int)
                + e2.subrange(e1.len() as int, e2.len() as int));
        }
    }


    fn flush_pending_audio(&mut self, now_ms: u64, effects: &mut Vec<Effect>) -> (ok: bool)
        requires
            clock_ok(now_ms),
        ensures
            final(self)@ == flush_step(old(self)@, now_ms).0,
            effects_view(final(effects)@) == effects_view(old(effects)@) + flush_step(
                old(self)@,
                now_ms,
            ).1,
            ok == flush_step(old(self)@, now_ms).2,
            final(self).preroll == old(self).preroll,
    {
        let mut frames: Vec<Vec<u8>> = Vec::new();
        std::mem::swap(&mut frames, &mut self.pending_audio);
        assert(pending_audio_view(self.pending_audio@) =~= Seq::<Seq<u8>>::empty());
        if frames.len() > 0 && !self.flags.has_transport {
            self.fail_runtime("音声認識セッションが利用できません", true, now_ms, effects);
            return false;
        }
        let ghost orig = frames@;
        let ghost v = pending_audio_view(orig);
        let ghost e0 = effects_view(effects@);
        let ghost mut k: int = 0;
        assert(v.take(0) =~= Seq::<Seq<u8>>::empty());
        assert(orig.skip(0) =~= orig);
        while frames.len() > 0
            invariant
                0 <= k <= orig.len(),
                frames@ =~= orig.skip(k),
                v == pending_audio_view(orig),
                effects_view(effects@) == e0 + sends(v.take(k)),
            decreases frames.len(),
        {
            let f = frames.remove(0);
            assert(f == orig[k]);
            emit(effects, Effect::SendAudio(f));
            proof {
                assert(v.take(k + 1).drop_last() =~= v.take(k));
                assert(v.take(k + 1).last() == orig[k]@);
                assert(frames@ =~= orig.skip(k + 1));
                k = k + 1;
            }
        }
        assert(v.take(k) =~= v);
        true
    }

    fn send_finalize_for_turn(&mut self, now_ms: u64, effects: &mut Vec<Effect>)
        requires
            clock_ok(now_ms),
        ensures
            final(self)@ == finalize_send_step(old(self)@, now_ms).0,
            effects_view(final(effects)@) == effects_view(old(effects)@) + finalize_send_step(
                old(self)@,
                now_ms,
            ).1,
            final(self).preroll == old(self).preroll,
    {
        self.flags.client_finalize_sent = true;
        if self.flags.has_transport {
            self.flags.finalize_pending = true;
            emit(effects, Effect::SendFinalize);
        } else {
            self.fail_runtime("音声認識セッションが利用できません", true, now_ms, effects);
        }
    }

    fn pause_for_both(&mut self)
        requires
            old(self).wf(),
        ensures
            final(self).wf(),
            final(self)@ == paused_for_both(old(self)@),
    {
        if self.settings.endpoint_mode == EndpointMode::Both {
            self.flags.server_audio_paused = true;
            self.flags.pause_when_gate_stops = false;
            self.preroll.clear();
        }
    }

    fn client_end(&mut self, now_ms: u64, effects: &mut Vec<Effect>)
        requires
            clock_ok(now_ms),
            old(self).wf(),
        ensures
            final(self).wf(),
            final(self)@ == client_end_step(old(self)@, now_ms).0,
            effects_view(final(effects)@) == effects_view(old(effects)@) + client_end_step(
                old(self)@,
                now_ms,
            ).1,
    {
        let ghost e0 = effects_view(effects@);
        self.pause_for_both();
        if self.session.state() == SessionState::Connecting {
            let ok = self.flush_pending_audio(now_ms, effects);
            if !ok {
                return;
            }
            let ghost e2 = effects_view(effects@);
            self.send_finalize_for_turn(now_ms, effects);
            assert(effects_view(effects@) =~= e0 + (e2.subrange(e0.len() as int, e2.len() as int)
                + effects_view(effects@).subrange(e2.len() as int, effects_view(effects@).len() as int)));
        } else {
            self.send_finalize_for_turn(now_ms, effects);
        }
    }

    fn server_end(&mut self, now_ms: u64)
        requires
            old(self).wf(),
        ensures
            final(self).wf(),
            final(self)@ == server_end_step(old(self)@, now_ms),
    {
        if self.flags.pause_when_gate_stops {
            self.flags.pause_when_gate_stops = false;
            self.flags.server_audio_paused = true;
            self.preroll.clear();
        }
        if !self.waits.completed_by_endpoint && self.waits.pending_since_ms.is_none() {
            self.waits.pending_since_ms = Some(now_ms);
        }
    }

    /// The local VAD heard the end of speech (see `finish_speech_step`).
    fn finish_current_speech(&mut self, now_ms: u64, effects: &mut Vec<Effect>)
        requires
            clock_ok(now_ms),
            old(self).wf(),
        ensures
            final(self).wf(),
            final(self)@ == finish_speech_step(old(self)@, now_ms).0,
            effects_view(final(effects)@) == effects_view(old(effects)@) + finish_speech_step(
                old(self)@,
                now_ms,
            ).1,
    {
        proof {
            reveal(finish_speech_step);
        }
        let mode = self.settings.endpoint_mode;
        let client_can = mode == EndpointMode::Client || mode == EndpointMode::Both;
        let state = self.session.state();
        if client_can && (state == SessionState::Connecting || state == SessionState::Streaming)
            && !self.flags.client_finalize_sent {
            self.client_end(now_ms, effects);
        } else if mode == EndpointMode::Server && state == SessionState::Streaming {
            self.server_end(now_ms);
            assert(effects_view(effects@) =~= effects_view(effects@) + Seq::<EffectView>::empty());
        } else {
            assert(effects_view(effects@) =~= effects_view(effects@) + Seq::<EffectView>::empty());
        }
    }

    fn set_connected_state(&mut self)
        ensures
            final(self)@ == connected_state(old(self)@),
            final(self).preroll == old(self).preroll,
    {
        self.expected_backend = match &self.settings.route_backend {
            Some(b) => Some(owned(b.as_str())),
            None => None,
        };
        self.flags.backend_confirmed = self.settings.route_backend.is_none();
        self.failure = FailureState {
            failed_at_ms: None,
            recovery_enabled: false,
            retry_delay_ms: FAILED_RETRY_INITIAL_DELAY_MS,
        };
        self.times.connecting_since_ms = None;
    }

    fn streaming_started(&mut self, now_ms: u64, effects: &mut Vec<Effect>)
        requires
            clock_ok(now_ms),
            old(self).wf(),
        ensures
            final(self).wf(),
            final(self)@ == streaming_started_step(old(self)@, now_ms).0,
            effects_view(final(effects)@) == effects_view(old(effects)@) + streaming_started_step(
                old(self)@,
                now_ms,
            ).1,
    {
        let ghost e0 = effects_view(effects@);
        emit(effects, Effect::UiState(SessionState::Streaming));
        let ended = match self.delayed_turn {
            Some(t) => t.speech_ended,
            None => false,
        };
        if ended {
            let ghost e1 = effects_view(effects@);
            self.finish_current_speech(now_ms, effects);
            assert(effects_view(effects@) =~= e0 + (seq![EffectView::UiState(SessionState::Streaming)]
                + effects_view(effects@).subrange(e1.len() as int, effects_view(effects@).len() as int)));
        } else {
            self.delayed_turn = None;
        }
    }

    fn on_connected(&mut self, now_ms: u64, effects: &mut Vec<Effect>)
        requires
            clock_ok(now_ms),
            old(self).wf(),
        ensures
            final(self).wf(),
            final(self)@ == connected_step(old(self)@, now_ms).0,
            effects_view(final(effects)@) == effects_view(old(effects)@) + connected_step(
                old(self)@,
                now_ms,
            ).1,
    {
        let ghost c = self@;
        let ghost e0 = effects_view(effects@);
        proof {
            lemma_refused_input_keeps_state(c.state, SessionInput::Connected);
        }
        if !self.apply_input(SessionInput::Connected) {
            assert(effects_view(effects@) =~= effects_view(effects@) + Seq::<EffectView>::empty());
            return;
        }
        self.set_connected_state();
        let ok = self.flush_pending_audio(now_ms, effects);
        if !ok {
            return;
        }
        let ghost e2 = effects_view(effects@);
        self.streaming_started(now_ms, effects);
        assert(effects_view(effects@) =~= e0 + (e2.subrange(e0.len() as int, e2.len() as int)
            + effects_view(effects@).subrange(e2.len() as int, effects_view(effects@).len() as int)));
    }

    fn on_final_text(&mut self, text: String)
        ensures
            final(self)@ == final_text_step(old(self)@, text@).0,
            final(self).preroll == old(self).preroll,
    {
        if self.flags.client_finalize_sent && !self.flags.gate_speaking && !self.flags.finalize_pending {
            return;
        }
        self.waits.completed_by_endpoint = false;
        let was = self.complete_pending_wait();
        self.waits.completed_by_final_text = was;
        self.transcript.push_final(text.as_str());
    }

    fn mark_answered(&mut self)
        ensures
            final(self)@ == answered(old(self)@),
            final(self).preroll == old(self).preroll,
    {
        self.waits.completed_by_endpoint = false;
        self.waits.pending_since_ms = None;
    }

    fn show_partial(&mut self, text: String)
        ensures
            final(self)@ == partial_shown(old(self)@, text@),
            final(self).preroll == old(self).preroll,
    {
        proof {
            reveal(timed_text);
        }
        if chars_of(text.as_str()).len() > 0 {
            self.shown.commit = None;
        }
        self.transcript.replace_partial(text.as_str());
    }

    fn on_partial_text(&mut self, text: String)
        ensures
            final(self)@ == partial_text_step(old(self)@, text@).0,
            final(self).preroll == old(self).preroll,
    {
        self.mark_answered();
        if self.flags.client_finalize_sent && !self.flags.gate_speaking {
            return;
        }
        self.show_partial(text);
    }

    fn mark_endpoint_received(&mut self, now_ms: u64)
        ensures
            final(self)@ == endpoint_received(old(self)@, now_ms),
            final(self).preroll == old(self).preroll,
    {
        if self.waits.completed_by_final_text {
            self.waits.completed_by_final_text = false;
            self.waits.completed_by_endpoint = true;
        } else {
            self.waits.pending_since_ms = None;
            self.waits.completed_by_endpoint = true;
        }
        self.flags.finalize_pending = false;
        self.times.last_endpoint_ms = Some(now_ms);
    }

    fn pause_after_endpoint(&mut self)
        ensures
            final(self)@ == endpoint_paused(old(self)@),
            final(self).preroll == old(self).preroll,
    {
        let mode = self.settings.endpoint_mode;
        let server_can = mode == EndpointMode::Server || mode == EndpointMode::Both;
        if server_can && self.flags.gate_speaking {
            self.flags.pause_when_gate_stops = true;
        } else if server_can {
            self.flags.server_audio_paused = true;
        }
    }

    fn commit_transcript_segment(&mut self, now_ms: u64, effects: &mut Vec<Effect>)
        requires
            clock_ok(now_ms),
        ensures
            final(self)@ == segment_committed(old(self)@, now_ms).0,
            effects_view(final(effects)@) == effects_view(old(effects)@) + segment_committed(
                old(self)@,
                now_ms,
            ).1,
            final(self).preroll == old(self).preroll,
    {
        let segment = self.take_segment();
        self.commit_segment(segment, now_ms, effects);
    }

    fn clear_quiet_overlay(&mut self)
        ensures
            final(self)@ == quiet_overlay_cleared(old(self)@),
            final(self).preroll == old(self).preroll,
    {
        proof {
            reveal(error_view);
            reveal(timed_text);
        }
        if self.shown.commit.is_none() && self.shown.error.is_none() {
            self.clear_overlay_facts();
        }
    }

    fn on_endpoint(&mut self, now_ms: u64, effects: &mut Vec<Effect>)
        requires
            clock_ok(now_ms),
        ensures
            final(self)@ == endpoint_step(old(self)@, now_ms).0,
            effects_view(final(effects)@) == effects_view(old(effects)@) + endpoint_step(
                old(self)@,
                now_ms,
            ).1,
            final(self).preroll == old(self).preroll,
    {
        let ghost e0 = effects_view(effects@);
        self.mark_endpoint_received(now_ms);
        self.pause_after_endpoint();
        self.commit_transcript_segment(now_ms, effects);
        let ghost e5 = effects_view(effects@);
        self.close_delayed_session_after_response(false, now_ms, effects);
        self.clear_quiet_overlay();
        assert(effects_view(effects@) =~= e0 + (e5.subrange(e0.len() as int, e5.len() as int)
            + effects_view(effects@).subrange(e5.len() as int, effects_view(effects@).len() as int)));
    }

    fn on_finalize_done(&mut self, now_ms: u64, effects: &mut Vec<Effect>)
        requires
            clock_ok(now_ms),
        ensures
            final(self)@ == finalize_done_step(old(self)@, now_ms).0,
            effects_view(final(effects)@) == effects_view(old(effects)@) + finalize_done_step(
                old(self)@,
                now_ms,
            ).1,
            final(self).preroll == old(self).preroll,
    {
        if self.waits.completed_by_final_text {
            self.waits.completed_by_final_text = false;
        } else {
            let _ = self.complete_pending_wait();
        }
        self.flags.finalize_pending = false;
        self.times.last_endpoint_ms = Some(now_ms);
        let segment = self.take_segment();
        self.commit_segment(segment, now_ms, effects);
    }

    fn mark_finished_received(&mut self)
        ensures
            final(self)@ == finished_received(old(self)@),
            final(self).preroll == old(self).preroll,
    {
        self.clear_pending_waits();
        self.flags.finalize_pending = false;
        self.flags.asr_closing = true;
    }

    fn session_ended(&mut self, effects: &mut Vec<Effect>)
        ensures
            final(self)@ == session_ended_step(old(self)@).0,
            effects_view(final(effects)@) == effects_view(old(effects)@) + session_ended_step(
                old(self)@,
            ).1,
            final(self).preroll == old(self).preroll,
    {
        let ghost e0 = effects_view(effects@);
        let state = self.session.state();
        emit(effects, Effect::UiState(state));
        let ghost e5 = effects_view(effects@);
        self.cleanup_asr(effects);
        let ghost e6 = effects_view(effects@);
        self.resume_after_finished(effects);
        let ghost e7 = effects_view(effects@);
        emit(effects, Effect::ApplyPendingSettings);
        assert(effects_view(effects@) =~= e0 + (seq![EffectView::UiState(state)] + e6.subrange(
            e5.len() as int,
            e6.len() as int,
        ) + e7.subrange(e6.len() as int, e7.len() as int).push(EffectView::ApplyPendingSettings)));
    }

    fn on_finished(&mut self, now_ms: u64, effects: &mut Vec<Effect>)
        requires
            clock_ok(now_ms),
        ensures
            final(self)@ == finished_step(old(self)@, now_ms).0,
            effects_view(final(effects)@) == effects_view(old(effects)@) + finished_step(
                old(self)@,
                now_ms,
            ).1,
            final(self).preroll == old(self).preroll,
    {
        let ghost e0 = effects_view(effects@);
        self.mark_finished_received();
        self.commit_transcript_segment(now_ms, effects);
        let ghost e4 = effects_view(effects@);
        let ghost c4 = self@;
        proof {
            lemma_refused_input_keeps_state(c4.state, SessionInput::Finished);
        }
        if self.apply_input(SessionInput::Finished) {
            self.session_ended(effects);
            assert(effects_view(effects@) =~= e0 + (e4.subrange(e0.len() as int, e4.len() as int)
                + effects_view(effects@).subrange(e4.len() as int, effects_view(effects@).len() as int)));
        }
    }

    fn on_backend(&mut self, actual: String, now_ms: u64, effects: &mut Vec<Effect>)
        requires
            clock_ok(now_ms),
        ensures
            final(self)@ == backend_step(old(self)@, actual@, now_ms).0,
            effects_view(final(effects)@) == effects_view(old(effects)@) + backend_step(
                old(self)@,
                actual@,
                now_ms,
            ).1,
            final(self).preroll == old(self).preroll,
    {
        let matches = match &self.expected_backend {
            Some(expected) => Some(crate::text::str_eq(expected.as_str(), actual.as_str())),
            None => None,
        };
        match matches {
            Some(true) => {
                self.flags.backend_confirmed = true;
                assert(effects_view(effects@) =~= effects_view(effects@) + Seq::<EffectView>::empty());
            },
            Some(false) => {
                self.fail_runtime(
                    "選んだ文字にする方法が使われていません。接続先を確認してください。",
                    false,
                    now_ms,
                    effects,
                );
            },
            None => {
                assert(effects_view(effects@) =~= effects_view(effects@) + Seq::<EffectView>::empty());
            },
        }
    }

    fn on_closed(&mut self, code: Option<u16>, reason: String, now_ms: u64, effects: &mut Vec<Effect>)
        requires
            clock_ok(now_ms),
        ensures
            final(self)@ == closed_step(old(self)@, code, reason@, now_ms).0,
            effects_view(final(effects)@) == effects_view(old(effects)@) + closed_step(
                old(self)@,
                code,
                reason@,
                now_ms,
            ).1,
            final(self).preroll == old(self).preroll,
    {
        let _ = self.complete_pending_wait();
        let empty = chars_of(reason.as_str()).len() == 0;
        if code == Some(1008u16) {
            if empty {
                self.fail_runtime("音声認識サービスへの接続が拒否されました", true, now_ms, effects);
            } else {
                self.fail_runtime(reason.as_str(), true, now_ms, effects);
            }
        } else if self.flags.asr_closing || self.session.state() == SessionState::Closing {
            self.finish_asr_shutdown(effects);
        } else if !empty {
            self.fail_runtime(reason.as_str(), true, now_ms, effects);
        } else {
            self.abort_asr_session(effects);
        }
    }

    fn show_notice(&mut self, message: &str, now_ms: u64)
        requires
            clock_ok(now_ms),
        ensures
            final(self)@ == notice_shown(old(self)@, message@, now_ms),
            final(self).preroll == old(self).preroll,
    {
        proof {
            reveal(error_view);
            reveal(timed_text);
        }
        let m = sanitize_message(message, &self.api_key);
        self.shown = Shown {
            error: None,
            commit: None,
            notice: Some((m, now_ms + OVERLAY_NOTICE_DURATION_MS)),
        };
    }

    fn on_notice(&mut self, message: String, now_ms: u64, effects: &mut Vec<Effect>)
        requires
            clock_ok(now_ms),
        ensures
            final(self)@ == notice_step(old(self)@, message@, now_ms).0,
            effects_view(final(effects)@) == effects_view(old(effects)@) + notice_step(
                old(self)@,
                message@,
                now_ms,
            ).1,
            final(self).preroll == old(self).preroll,
    {
        if self.waits.completed_by_endpoint {
            self.waits.completed_by_endpoint = false;
            self.show_notice(message.as_str(), now_ms);
        } else {
            let state = self.session.state();
            if !(state == SessionState::Streaming || state == SessionState::Closing) {
                self.delayed_turn = None;
            }
            let _ = self.complete_pending_wait();
            self.show_notice(message.as_str(), now_ms);
        }
        self.close_delayed_session_after_response(true, now_ms, effects);
    }

    fn on_failed(&mut self, error: AsrError, now_ms: u64, effects: &mut Vec<Effect>)
        requires
            clock_ok(now_ms),
        ensures
            final(self)@ == failed_event_step(old(self)@, error, now_ms).0,
            effects_view(final(effects)@) == effects_view(old(effects)@) + failed_event_step(
                old(self)@,
                error,
                now_ms,
            ).1,
            final(self).preroll == old(self).preroll,
    {
        let _ = self.complete_pending_wait();
        if is_nonfatal_asr_error(&error) {
            if self.flags.asr_closing || self.session.state() == SessionState::Closing {
                self.finish_asr_shutdown(effects);
            } else {
                self.abort_asr_session(effects);
            }
        } else {
            self.fail_runtime(asr_user_error_message(&error), true, now_ms, effects);
        }
    }

    /// Takes in one event of the recognition session and says what to do
    /// (see `asr_step`).
    pub fn handle_asr_event(&mut self, event: AsrEvent, now_ms: u64) -> (r: Vec<Effect>)
        requires
            clock_ok(now_ms),
            old(self).wf(),
        ensures
            final(self).wf(),
            (final(self)@, effects_view(r@)) == asr_step(old(self)@, event, now_ms),
            final(self).splash_started_ms is None,
    {
        let r = self.handle_asr_event_core(event, now_ms);
        self.splash_started_ms = None;
        r
    }

    /// The work of `handle_asr_event`, apart from the splash.
    fn handle_asr_event_core(&mut self, event: AsrEvent, now_ms: u64) -> (r: Vec<Effect>)
        requires
            clock_ok(now_ms),
            old(self).wf(),
        ensures
            final(self).wf(),
            (final(self)@, effects_view(r@)) == asr_step(old(self)@, event, now_ms),
    {
        let mut effects: Vec<Effect> = Vec::new();
        proof {
            reveal(effects_view);
        }
        assert(effects_view(effects@) =~= Seq::<EffectView>::empty());
        match &event {
            AsrEvent::Failed(_) | AsrEvent::Closed { .. } => {},
            _ => {
                self.times.last_response_ms = Some(now_ms);
            },
        }
        match event {
            AsrEvent::Connected => self.on_connected(now_ms, &mut effects),
            AsrEvent::FinalText(t) => {
                if !self.flags.backend_confirmed {
                    self.fail_runtime(
                        "選んだ文字にする方法が使われていません。接続先を確認してください。",
                        false,
                        now_ms,
                        &mut effects,
                    );
                } else {
                    self.on_final_text(t);
                }
            },
            AsrEvent::PartialText(t) => {
                if !self.flags.backend_confirmed {
                    self.fail_runtime(
                        "選んだ文字にする方法が使われていません。接続先を確認してください。",
                        false,
                        now_ms,
                        &mut effects,
                    );
                } else {
                    self.on_partial_text(t);
                }
            },
            AsrEvent::Endpoint => self.on_endpoint(now_ms, &mut effects),
            AsrEvent::FinalizeDone => self.on_finalize_done(now_ms, &mut effects),
            AsrEvent::Finished => self.on_finished(now_ms, &mut effects),
            AsrEvent::Backend(actual) => self.on_backend(actual, now_ms, &mut effects),
            AsrEvent::Closed { code, reason } => self.on_closed(code, reason, now_ms, &mut effects),
            AsrEvent::WarmupAfter(ms) => {
                self.times.warmup_after_ms = Some(ms);
            },
            AsrEvent::Notice { code: _, message } => self.on_notice(message, now_ms, &mut effects),
            AsrEvent::Failed(error) => self.on_failed(error, now_ms, &mut effects),
        }
        effects
    }


    fn queue_pending_audio(&mut self, bytes: Vec<u8>)
        ensures
            final(self)@ == queue_step(old(self)@, bytes@),
            final(self).preroll == old(self).preroll,
    {
        let ghost orig = pending_audio_view(self.pending_audio@);
        let ghost d0 = self.pending_audio_dropped_frames as nat;
        let ghost before = self@;
        let ghost n = bytes@.len();
        let ghost mut k: int = 0;
        assert(orig.skip(0) =~= orig);
        loop
            invariant
                0 <= k <= orig.len(),
                n == bytes@.len(),
                pending_audio_view(self.pending_audio@) =~= orig.skip(k),
                self.pending_audio_dropped_frames as int == if d0 + k <= u64::MAX {
                    d0 + k
                } else {
                    u64::MAX as int
                },
                drop_count(orig, n) == k + drop_count(orig.skip(k), n),
                self.preroll == old(self).preroll,
                self@ == (CoreView {
                    audio: AudioView {
                        pending: pending_audio_view(self.pending_audio@),
                        dropped_frames: self.pending_audio_dropped_frames as nat,
                        ..before.audio
                    },
                    ..before
                }),
            ensures
                drop_count(orig, n) == k,
                pending_audio_view(self.pending_audio@) =~= orig.skip(k),
                self.pending_audio_dropped_frames as int == if d0 + k <= u64::MAX {
                    d0 + k
                } else {
                    u64::MAX as int
                },
                self.preroll == old(self).preroll,
                self@ == (CoreView {
                    audio: AudioView {
                        pending: pending_audio_view(self.pending_audio@),
                        dropped_frames: self.pending_audio_dropped_frames as nat,
                        ..before.audio
                    },
                    ..before
                }),
            decreases orig.len() - k,
        {
            let capped = capped_total(&self.pending_audio);
            let over = capped > PENDING_AUDIO_MAX_BYTES || bytes.len() > PENDING_AUDIO_MAX_BYTES - capped;
            if !(over && self.pending_audio.len() > 0) {
                break;
            }
            let ghost rest = orig.skip(k);
            let _ = self.pending_audio.remove(0);
            self.pending_audio_dropped_frames = self.pending_audio_dropped_frames.saturating_add(1);
            proof {
                assert(rest.drop_first() =~= orig.skip(k + 1));
                assert(pending_audio_view(self.pending_audio@) =~= orig.skip(k + 1));
                k = k + 1;
            }
        }
        self.pending_audio.push(bytes);
        assert(pending_audio_view(self.pending_audio@) =~= orig.skip(k).push(bytes@));
    }

    fn push_preroll(&mut self, samples: &[i16])
        requires
            old(self).wf(),
        ensures
            final(self).wf(),
            final(self)@ == preroll_pushed(old(self)@, samples@),
    {
        self.preroll.push(samples);
    }

    fn send_audio(&mut self, samples: &[i16], now_ms: u64, effects: &mut Vec<Effect>)
        requires
            clock_ok(now_ms),
        ensures
            final(self)@ == send_audio_step(old(self)@, pcm_bytes(samples@), now_ms).0,
            effects_view(final(effects)@) == effects_view(old(effects)@) + send_audio_step(
                old(self)@,
                pcm_bytes(samples@),
                now_ms,
            ).1,
            final(self).preroll == old(self).preroll,
    {
        if self.flags.has_transport {
            emit(effects, Effect::SendAudio(samples_to_bytes(samples)));
        } else {
            self.fail_runtime("音声認識セッションが利用できません", true, now_ms, effects);
        }
    }

    /// Takes in one frame of audio (see `samples_step`).
    pub fn handle_vad_samples(&mut self, samples: &[i16], now_ms: u64) -> (r: Vec<Effect>)
        requires
            clock_ok(now_ms),
            old(self).wf(),
        ensures
            final(self).wf(),
            (final(self)@, effects_view(r@)) == samples_step(old(self)@, samples@, now_ms),
            final(self).splash_started_ms == old(self).splash_started_ms,
    {
        let splash = self.splash_started_ms;
        let r = self.handle_vad_samples_core(samples, now_ms);
        self.splash_started_ms = splash;
        r
    }

    /// The work of `handle_vad_samples`, apart from the splash.
    fn handle_vad_samples_core(&mut self, samples: &[i16], now_ms: u64) -> (r: Vec<Effect>)
        requires
            clock_ok(now_ms),
            old(self).wf(),
        ensures
            final(self).wf(),
            (final(self)@, effects_view(r@)) == samples_step(old(self)@, samples@, now_ms),
    {
        let mut effects: Vec<Effect> = Vec::new();
        proof {
            reveal(effects_view);
        }
        assert(effects_view(effects@) =~= Seq::<EffectView>::empty());
        proof {
            reveal(deferred_view);
        }
        match self.deferred.take() {
            Some(mut d) => {
                let ghost before = d.audio@;
                d.audio.push(copy_samples(samples));
                assert(frames_view(d.audio@) =~= frames_view(before).push(samples@));
                self.deferred = Some(d);
                return effects;
            },
            None => {},
        }
        if self.warmup.started_at_ms.is_some() {
            return effects;
        }
        match self.session.state() {
            SessionState::Listening | SessionState::Failed | SessionState::Closing => {
                self.push_preroll(samples);
            },
            SessionState::Connecting => {
                if self.flags.client_finalize_sent {
                    self.push_preroll(samples);
                } else {
                    self.queue_pending_audio(samples_to_bytes(samples));
                }
            },
            SessionState::Streaming => {
                if self.flags.server_audio_paused {
                    self.push_preroll(samples);
                } else {
                    self.send_audio(samples, now_ms, &mut effects);
                    assert(effects_view(effects@) =~= Seq::<EffectView>::empty() + send_audio_step(
                        old(self)@,
                        pcm_bytes(samples@),
                        now_ms,
                    ).1);
                }
            },
            _ => {},
        }
        effects
    }


    fn warmup_due(&self, now_ms: u64) -> (r: bool)
        ensures
            r == warmup_is_due(self@, now_ms),
    {
        proof {
            reveal(error_view);
        }
        let threshold: u64 = match self.times.warmup_after_ms {
            Some(ms) => ms,
            None => 60000,
        };
        let persistent = match &self.shown.error {
            Some(UserError::Persistent { .. }) => true,
            _ => false,
        };
        let retry_ok = match self.warmup.retry_at_ms {
            Some(r) => now_ms >= r,
            None => true,
        };
        let idle = match self.times.last_response_ms {
            Some(t) => now_ms.saturating_sub(t) >= threshold,
            None => true,
        };
        self.settings.enrollment_eligible && !persistent && retry_ok && idle
    }

    fn enrollment_is_fresh(&self, now_ms: u64) -> (r: bool)
        ensures
            r == enrollment_fresh(self@, now_ms),
    {
        let threshold: u64 = match self.times.warmup_after_ms {
            Some(ms) => ms,
            None => 60000,
        };
        match self.times.last_response_ms {
            Some(t) => now_ms.saturating_sub(t) < threshold,
            None => false,
        }
    }

    fn start_warmup(&mut self, reason: WarmupReason, now_ms: u64, effects: &mut Vec<Effect>) -> (r: bool)
        ensures
            final(self)@ == start_warmup_step(old(self)@, reason, now_ms).0,
            effects_view(final(effects)@) == effects_view(old(effects)@) + start_warmup_step(
                old(self)@,
                reason,
                now_ms,
            ).1,
            r == start_warmup_step(old(self)@, reason, now_ms).2,
            final(self).preroll == old(self).preroll,
    {
        proof {
            reveal(error_view);
        }
        if self.warmup.started_at_ms.is_some() {
            assert(effects_view(effects@) =~= effects_view(effects@) + Seq::<EffectView>::empty());
            return true;
        }
        let persistent = match &self.shown.error {
            Some(UserError::Persistent { .. }) => true,
            _ => false,
        };
        let retry_pending = match self.warmup.retry_at_ms {
            Some(r) => now_ms < r,
            None => false,
        };
        if !self.settings.enrollment_eligible || retry_pending || persistent {
            assert(effects_view(effects@) =~= effects_view(effects@) + Seq::<EffectView>::empty());
            return false;
        }
        self.warmup.started_at_ms = Some(now_ms);
        emit(effects, Effect::StartWarmup(reason));
        true
    }

    fn speech_begins(&mut self)
        ensures
            final(self)@ == (CoreView {
                flags: TurnFlags {
                    gate_speaking: true,
                    client_finalize_sent: false,
                    ..old(self)@.flags
                },
                shown: ShownView { commit: None, notice: None, ..old(self)@.shown },
                ..old(self)@
            }),
            final(self).preroll == old(self).preroll,
    {
        proof {
            reveal(timed_text);
        }
        self.flags.gate_speaking = true;
        self.flags.client_finalize_sent = false;
        self.shown.commit = None;
        self.shown.notice = None;
    }

    fn join_deferred(&mut self)
        requires
            old(self).wf(),
        ensures
            final(self).wf(),
            final(self)@ == deferred_joined(old(self)@),
    {
        proof {
            reveal(deferred_view);
        }
        let p = self.preroll.take();
        match self.deferred.take() {
            None => {
                let audio: Vec<Vec<i16>> = Vec::new();
                assert(frames_view(audio@) =~= Seq::<Seq<i16>>::empty());
                self.deferred = Some(DeferredSpeech { preroll: p, audio, ended: false });
            },
            Some(d) => {
                let keep = if d.preroll.len() == 0 {
                    p
                } else {
                    d.preroll
                };
                self.deferred = Some(DeferredSpeech { preroll: keep, audio: d.audio, ended: false });
            },
        }
    }

    fn defer_speech(&mut self)
        requires
            old(self).wf(),
        ensures
            final(self).wf(),
            final(self)@ == (CoreView {
                deferred: Some(
                    DeferredView { preroll: old(self)@.audio.preroll, audio: Seq::empty(), ended: false },
                ),
                audio: AudioView { preroll: Seq::empty(), ..old(self)@.audio },
                ..old(self)@
            }),
    {
        proof {
            reveal(deferred_view);
        }
        let p = self.preroll.take();
        let audio: Vec<Vec<i16>> = Vec::new();
        assert(frames_view(audio@) =~= Seq::<Seq<i16>>::empty());
        self.deferred = Some(DeferredSpeech { preroll: p, audio, ended: false });
    }

    fn drop_deferred(&mut self)
        ensures
            final(self)@ == (CoreView { deferred: None, delayed_turn: None, ..old(self)@ }),
            final(self).preroll == old(self).preroll,
    {
        proof {
            reveal(deferred_view);
        }
        self.deferred = None;
        self.delayed_turn = None;
    }

    fn streaming_speech(&mut self, now_ms: u64, effects: &mut Vec<Effect>)
        requires
            clock_ok(now_ms),
            old(self).wf(),
        ensures
            final(self).wf(),
            final(self)@ == streaming_speech_step(old(self)@, now_ms).0,
            effects_view(final(effects)@) == effects_view(old(effects)@) + streaming_speech_step(
                old(self)@,
                now_ms,
            ).1,
    {
        self.times.last_endpoint_ms = Some(now_ms);
        if !self.flags.has_transport {
            self.fail_runtime("音声認識セッションが利用できません", true, now_ms, effects);
            return;
        }
        let ghost e0 = effects_view(effects@);
        emit(effects, Effect::SendSpeechStart);
        if self.flags.server_audio_paused {
            self.flags.server_audio_paused = false;
            self.flags.pause_when_gate_stops = false;
            let p = self.preroll.take();
            if p.len() > 0 {
                emit(effects, Effect::SendAudio(samples_to_bytes(p.as_slice())));
            }
        }
    }

    fn connecting_speech(&mut self, now_ms: u64, effects: &mut Vec<Effect>)
        requires
            clock_ok(now_ms),
            old(self).wf(),
        ensures
            final(self).wf(),
            final(self)@ == connecting_speech_step(old(self)@, now_ms).0,
            effects_view(final(effects)@) == effects_view(old(effects)@) + connecting_speech_step(
                old(self)@,
                now_ms,
            ).1,
    {
        if !self.flags.has_transport {
            self.fail_runtime("音声認識セッションが利用できません", true, now_ms, effects);
            return;
        }
        emit(effects, Effect::SendSpeechStart);
        self.flags.server_audio_paused = false;
        self.flags.pause_when_gate_stops = false;
        let p = self.preroll.take();
        if p.len() > 0 {
            self.queue_pending_audio(samples_to_bytes(p.as_slice()));
        }
    }

    /// The VAD heard speech start (see `speech_started_step`).
    pub fn speech_started(&mut self, now_ms: u64) -> (r: Vec<Effect>)
        requires
            clock_ok(now_ms),
            old(self).wf(),
        ensures
            final(self).wf(),
            (final(self)@, effects_view(r@)) == speech_started_step(old(self)@, now_ms),
            final(self).splash_started_ms is None,
    {
        let r = self.speech_started_core(now_ms);
        self.splash_started_ms = None;
        r
    }

    /// The work of `speech_started`, apart from the splash.
    fn speech_started_core(&mut self, now_ms: u64) -> (r: Vec<Effect>)
        requires
            clock_ok(now_ms),
            old(self).wf(),
        ensures
            final(self).wf(),
            (final(self)@, effects_view(r@)) == speech_started_step(old(self)@, now_ms),
    {
        let mut effects: Vec<Effect> = Vec::new();
        proof {
            reveal(effects_view);
        }
        assert(effects_view(effects@) =~= Seq::<EffectView>::empty());
        let prev = self.flags.client_finalize_sent;
        self.speech_begins();
        if self.warmup.started_at_ms.is_some() {
            self.join_deferred();
            return effects;
        }
        let state = self.session.state();
        if state == SessionState::Listening && self.warmup_due(now_ms) {
            self.defer_speech();
            let started = self.start_warmup(WarmupReason::BeforeSpeech, now_ms, &mut effects);
            if started {
                return effects;
            }
            self.drop_deferred();
            let fresh = self.enrollment_is_fresh(now_ms);
            emit(&mut effects, Effect::OpenSession { check_enrollment: !fresh });
            return effects;
        }
        if state == SessionState::Listening {
            let fresh = self.enrollment_is_fresh(now_ms);
            emit(&mut effects, Effect::OpenSession { check_enrollment: !fresh });
        } else if state == SessionState::Streaming {
            self.streaming_speech(now_ms, &mut effects);
        } else if state == SessionState::Connecting && prev {
            self.connecting_speech(now_ms, &mut effects);
        }
        effects
    }

    /// The VAD heard speech end (see `speech_ended_step`).
    pub fn speech_ended(&mut self, now_ms: u64) -> (r: Vec<Effect>)
        requires
            clock_ok(now_ms),
            old(self).wf(),
        ensures
            final(self).wf(),
            (final(self)@, effects_view(r@)) == speech_ended_step(old(self)@, now_ms),
            final(self).splash_started_ms is None,
    {
        let r = self.speech_ended_core(now_ms);
        self.splash_started_ms = None;
        r
    }

    /// The work of `speech_ended`, apart from the splash.
    fn speech_ended_core(&mut self, now_ms: u64) -> (r: Vec<Effect>)
        requires
            clock_ok(now_ms),
            old(self).wf(),
        ensures
            final(self).wf(),
            (final(self)@, effects_view(r@)) == speech_ended_step(old(self)@, now_ms),
    {
        let mut effects: Vec<Effect> = Vec::new();
        proof {
            reveal(effects_view);
            reveal(deferred_view);
        }
        assert(effects_view(effects@) =~= Seq::<EffectView>::empty());
        self.flags.gate_speaking = false;
        match self.delayed_turn {
            Some(t) => {
                self.delayed_turn = Some(DelayedTurn { speech_ended: true, ..t });
            },
            None => {},
        }
        match self.deferred.take() {
            Some(d) => {
                self.deferred = Some(DeferredSpeech { ended: true, ..d });
                return effects;
            },
            None => {},
        }
        self.finish_current_speech(now_ms, &mut effects);
        effects
    }


    fn begin_opening(&mut self, now_ms: u64)
        ensures
            final(self)@ == session_opening(old(self)@, now_ms),
            final(self).preroll == old(self).preroll,
    {
        self.times.last_endpoint_ms = Some(now_ms);
        self.times.connecting_since_ms = Some(now_ms);
        self.times.closing_since_ms = None;
        self.flags.server_audio_paused = false;
        self.flags.pause_when_gate_stops = false;
    }

    /// The enrollment asked for by `Effect::OpenSession` is done:
    /// `needs_user` holds the message of an outcome only the user can fix
    /// (see `open_session_step`).
    pub fn open_session(&mut self, needs_user: Option<String>, now_ms: u64) -> (r: Vec<Effect>)
        requires
            clock_ok(now_ms),
            old(self).wf(),
        ensures
            final(self).wf(),
            (final(self)@, effects_view(r@)) == open_session_step(old(self)@, opt_str(needs_user), now_ms),
            final(self).splash_started_ms is None,
    {
        let r = self.open_session_core(needs_user, now_ms);
        self.splash_started_ms = None;
        r
    }

    /// The work of `open_session`, apart from the splash.
    fn open_session_core(&mut self, needs_user: Option<String>, now_ms: u64) -> (r: Vec<Effect>)
        requires
            clock_ok(now_ms),
            old(self).wf(),
        ensures
            final(self).wf(),
            (final(self)@, effects_view(r@)) == open_session_step(old(self)@, opt_str(needs_user), now_ms),
    {
        let mut effects: Vec<Effect> = Vec::new();
        proof {
            reveal(effects_view);
        }
        assert(effects_view(effects@) =~= Seq::<EffectView>::empty());
        match needs_user {
            Some(m) => {
                self.fail_runtime(m.as_str(), false, now_ms, &mut effects);
                return effects;
            },
            None => {},
        }
        let ghost c = self@;
        if !self.apply_input(SessionInput::SpeechStarted) {
            proof {
                lemma_refused_input_keeps_state(c.state, SessionInput::SpeechStarted);
            }
            return effects;
        }
        self.begin_opening(now_ms);
        let preroll = self.preroll.take();
        let deferred_audio: Vec<Vec<i16>> = Vec::new();
        assert(frames_view(deferred_audio@) =~= Seq::<Seq<i16>>::empty());
        emit(&mut effects, Effect::StartAsr { preroll, deferred_audio });
        effects
    }

    /// The connection asked for by `Effect::StartAsr` exists, with the
    /// samples that effect carried (see `asr_started_step`).
    pub fn asr_started(
        &mut self,
        api_key: Option<String>,
        preroll: Vec<i16>,
        deferred_audio: Vec<Vec<i16>>,
    ) -> (r: Vec<Effect>)
        ensures
            final(self).preroll == old(self).preroll,
            (final(self)@, effects_view(r@)) == asr_started_step(
                old(self)@,
                opt_str(api_key),
                preroll@,
                frames_view(deferred_audio@),
            ),
            final(self).splash_started_ms is None,
    {
        let r = self.asr_started_core(api_key, preroll, deferred_audio);
        self.splash_started_ms = None;
        r
    }

    /// The work of `asr_started`, apart from the splash.
    fn asr_started_core(
        &mut self,
        api_key: Option<String>,
        preroll: Vec<i16>,
        deferred_audio: Vec<Vec<i16>>,
    ) -> (r: Vec<Effect>)
        ensures
            final(self).preroll == old(self).preroll,
            (final(self)@, effects_view(r@)) == asr_started_step(
                old(self)@,
                opt_str(api_key),
                preroll@,
                frames_view(deferred_audio@),
            ),
    {
        proof {
            reveal(error_view);
            reveal(timed_text);
        }
        let mut effects: Vec<Effect> = Vec::new();
        self.api_key = api_key;
        self.flags.asr_closing = false;
        self.flags.has_transport = true;
        let mut pending: Vec<Vec<u8>> = Vec::new();
        if preroll.len() > 0 {
            pending.push(samples_to_bytes(preroll.as_slice()));
        }
        let ghost first = pending_audio_view(pending@);
        let ghost fv = frames_view(deferred_audio@);
        let mut i: usize = 0;
        while i < deferred_audio.len()
            invariant
                0 <= i <= deferred_audio@.len(),
                fv == frames_view(deferred_audio@),
                pending_audio_view(pending@) =~= first + fv.take(i as int).map_values(
                    |f: Seq<i16>| pcm_bytes(f),
                ),
            decreases deferred_audio.len() - i,
        {
            let b = samples_to_bytes(deferred_audio[i].as_slice());
            let ghost before = pending_audio_view(pending@);
            assert(b@ == pcm_bytes(fv[i as int]));
            pending.push(b);
            assert(pending_audio_view(pending@) =~= before.push(b@));
            assert(fv.take(i + 1).map_values(|f: Seq<i16>| pcm_bytes(f)) =~= fv.take(i as int).map_values(
                |f: Seq<i16>| pcm_bytes(f),
            ).push(pcm_bytes(fv[i as int])));
            i = i + 1;
        }
        assert(fv.take(i as int) =~= fv);
        assert(pending_audio_view(pending@) =~= initial_pending(preroll@, fv));
        self.pending_audio = pending;
        self.pending_audio_dropped_frames = 0;
        self.shown.error = None;
        self.shown.notice = None;
        effects.push(Effect::UiState(SessionState::Connecting));
        proof {
            reveal(effects_view);
        }
        assert(effects_view(effects@) =~= seq![EffectView::UiState(SessionState::Connecting)]);
        effects
    }

    /// The connection asked for by `Effect::StartAsr` could not be opened
    /// (see `asr_start_failed_step`).
    pub fn asr_start_failed(&mut self, message: &str, now_ms: u64) -> (r: Vec<Effect>)
        requires
            clock_ok(now_ms),
        ensures
            final(self).preroll == old(self).preroll,
            (final(self)@, effects_view(r@)) == asr_start_failed_step(old(self)@, message@, now_ms),
            final(self).splash_started_ms is None,
    {
        let r = self.asr_start_failed_core(message, now_ms);
        self.splash_started_ms = None;
        r
    }

    /// The work of `asr_start_failed`, apart from the splash.
    fn asr_start_failed_core(&mut self, message: &str, now_ms: u64) -> (r: Vec<Effect>)
        requires
            clock_ok(now_ms),
        ensures
            final(self).preroll == old(self).preroll,
            (final(self)@, effects_view(r@)) == asr_start_failed_step(old(self)@, message@, now_ms),
    {
        let mut effects: Vec<Effect> = Vec::new();
        proof {
            reveal(effects_view);
        }
        assert(effects_view(effects@) =~= Seq::<EffectView>::empty());
        if self.session.state() == SessionState::Disabled {
            return effects;
        }
        let user = crate::controller::is_user_action_failure_message(message);
        self.fail_runtime(message, !user, now_ms, &mut effects);
        effects
    }

    fn resume_deferred_warmup_speech(&mut self, began_at_ms: u64, now_ms: u64, effects: &mut Vec<Effect>)
        ensures
            final(self)@ == resume_deferred_step(old(self)@, began_at_ms, now_ms).0,
            effects_view(final(effects)@) == effects_view(old(effects)@) + resume_deferred_step(
                old(self)@,
                began_at_ms,
                now_ms,
            ).1,
            final(self).preroll == old(self).preroll,
    {
        proof {
            reveal(deferred_view);
            reveal(resume_deferred_step);
        }
        let d = match self.deferred.take() {
            Some(d) => d,
            None => {
                assert(effects_view(effects@) =~= effects_view(effects@) + Seq::<EffectView>::empty());
                return;
            },
        };
        let ghost c1 = self@;
        proof {
            lemma_refused_input_keeps_state(c1.state, SessionInput::SpeechStarted);
        }
        if self.session.state() != SessionState::Listening || !self.apply_input(SessionInput::SpeechStarted) {
            assert(effects_view(effects@) =~= effects_view(effects@) + Seq::<EffectView>::empty());
            return;
        }
        self.delayed_turn = Some(DelayedTurn { began_at_ms, speech_ended: d.ended });
        self.begin_opening(now_ms);
        emit(effects, Effect::StartAsr { preroll: d.preroll, deferred_audio: d.audio });
    }

    fn set_warmup_ready(&mut self, now_ms: u64)
        ensures
            final(self)@ == warmup_ready_state(old(self)@, now_ms),
            final(self).preroll == old(self).preroll,
            final(self).warmup.retry_delay_ms == ENROLL_RETRY_INITIAL_MS,
    {
        self.times.last_response_ms = Some(now_ms);
        self.warmup.retry_at_ms = None;
        self.warmup.retry_delay_ms = ENROLL_RETRY_INITIAL_MS;
    }

    fn set_warmup_retry(&mut self, now_ms: u64)
        requires
            clock_ok(now_ms),
            old(self).warmup.retry_delay_ms <= ENROLL_RETRY_MAX_MS,
        ensures
            final(self)@ == warmup_retry_state(old(self)@, now_ms),
            final(self).preroll == old(self).preroll,
            final(self).warmup.retry_delay_ms <= ENROLL_RETRY_MAX_MS,
    {
        let delay = self.warmup.retry_delay_ms;
        self.warmup.retry_at_ms = Some(now_ms + delay);
        self.warmup.retry_delay_ms = next_enroll_retry_delay(delay);
    }

    /// The warm-up asked for by `Effect::StartWarmup` ended (see
    /// `warmup_finished_step`).
    pub fn warmup_finished(&mut self, outcome: WarmupOutcome, now_ms: u64) -> (r: Vec<Effect>)
        requires
            clock_ok(now_ms),
            old(self).warmup.retry_delay_ms <= ENROLL_RETRY_MAX_MS,
        ensures
            final(self).preroll == old(self).preroll,
            final(self).warmup.retry_delay_ms <= ENROLL_RETRY_MAX_MS,
            (final(self)@, effects_view(r@)) == warmup_finished_step(old(self)@, outcome, now_ms),
            final(self).splash_started_ms is None,
    {
        let r = self.warmup_finished_core(outcome, now_ms);
        self.splash_started_ms = None;
        r
    }

    /// The work of `warmup_finished`, apart from the splash.
    fn warmup_finished_core(&mut self, outcome: WarmupOutcome, now_ms: u64) -> (r: Vec<Effect>)
        requires
            clock_ok(now_ms),
            old(self).warmup.retry_delay_ms <= ENROLL_RETRY_MAX_MS,
        ensures
            final(self).preroll == old(self).preroll,
            final(self).warmup.retry_delay_ms <= ENROLL_RETRY_MAX_MS,
            (final(self)@, effects_view(r@)) == warmup_finished_step(old(self)@, outcome, now_ms),
    {
        let mut effects: Vec<Effect> = Vec::new();
        proof {
            reveal(effects_view);
        }
        assert(effects_view(effects@) =~= Seq::<EffectView>::empty());
        let began = match self.warmup.started_at_ms {
            Some(t) => t,
            None => now_ms,
        };
        self.warmup.started_at_ms = None;
        match outcome {
            WarmupOutcome::Ready => {
                self.set_warmup_ready(now_ms);
                proof {
                    lemma_resume_keeps_warmup(self@, began, now_ms);
                }
                self.resume_deferred_warmup_speech(began, now_ms, &mut effects);
            },
            WarmupOutcome::RetryableRemote => {
                self.set_warmup_retry(now_ms);
                proof {
                    lemma_resume_keeps_warmup(self@, began, now_ms);
                }
                self.resume_deferred_warmup_speech(began, now_ms, &mut effects);
            },
            WarmupOutcome::NeedsUserAction(m) => {
                self.warmup.retry_at_ms = None;
                self.drop_deferred();
                proof {
                    lemma_fail_keeps_warmup(self@, m@, false, now_ms);
                }
                self.fail_runtime(m.as_str(), false, now_ms, &mut effects);
            },
        }
        effects
    }


    fn timed_out(&mut self, effects: &mut Vec<Effect>)
        requires
            old(self).wf(),
        ensures
            final(self).wf(),
            final(self)@ == timed_out_step(old(self)@).0,
            effects_view(final(effects)@) == effects_view(old(effects)@) + timed_out_step(old(self)@).1,
    {
        let ghost e0 = effects_view(effects@);
        self.send_stop(effects);
        self.cleanup_asr(effects);
        let ghost e2 = effects_view(effects@);
        let ghost c2 = self@;
        proof {
            lemma_refused_input_keeps_state(c2.state, SessionInput::Timeout);
        }
        if !self.apply_input(SessionInput::Timeout) {
            return;
        }
        self.clear_overlay_facts();
        self.flags.gate_speaking = false;
        emit(effects, Effect::UiState(SessionState::Listening));
        emit(effects, Effect::ResumeListening);
        emit(effects, Effect::ApplyPendingSettings);
        assert(effects_view(effects@) =~= e2 + seq![
            EffectView::UiState(SessionState::Listening),
            EffectView::ResumeListening,
            EffectView::ApplyPendingSettings,
        ]);
    }

    fn check_session_timeouts(&mut self, now_ms: u64, effects: &mut Vec<Effect>)
        requires
            old(self).wf(),
        ensures
            final(self).wf(),
            final(self)@ == session_timeouts_step(old(self)@, now_ms).0,
            effects_view(final(effects)@) == effects_view(old(effects)@) + session_timeouts_step(
                old(self)@,
                now_ms,
            ).1,
    {
        let state = self.session.state();
        let closing_due = match self.times.closing_since_ms {
            Some(t) => now_ms.saturating_sub(t) >= CLOSING_TIMEOUT_MS,
            None => false,
        };
        let connecting_due = match self.times.connecting_since_ms {
            Some(t) => now_ms.saturating_sub(t) >= CONNECTING_TIMEOUT_MS,
            None => false,
        };
        if (state == SessionState::Closing && closing_due) || (state == SessionState::Connecting
            && connecting_due) {
            self.timed_out(effects);
        } else {
            assert(effects_view(effects@) =~= effects_view(effects@) + Seq::<EffectView>::empty());
        }
    }

    fn check_failed_recovery(&mut self, now_ms: u64, effects: &mut Vec<Effect>)
        requires
            old(self).wf(),
        ensures
            final(self).wf(),
            final(self)@ == failed_recovery_step(old(self)@, now_ms).0,
            effects_view(final(effects)@) == effects_view(old(effects)@) + failed_recovery_step(
                old(self)@,
                now_ms,
            ).1,
    {
        let due = match self.failure.failed_at_ms {
            Some(t) => crate::controller::failed_retry_is_due(t, self.failure.retry_delay_ms, now_ms),
            None => false,
        };
        if !(self.failure.recovery_enabled && due) {
            assert(effects_view(effects@) =~= effects_view(effects@) + Seq::<EffectView>::empty());
            return;
        }
        let ghost c = self@;
        proof {
            lemma_refused_input_keeps_state(c.state, SessionInput::Retry);
        }
        if !self.apply_input(SessionInput::Retry) {
            assert(effects_view(effects@) =~= effects_view(effects@) + Seq::<EffectView>::empty());
            return;
        }
        let ghost e0 = effects_view(effects@);
        let delay = self.failure.retry_delay_ms;
        self.failure = FailureState {
            failed_at_ms: None,
            recovery_enabled: false,
            retry_delay_ms: crate::controller::next_failed_retry_delay(delay),
        };
        self.clear_overlay_facts();
        emit(effects, Effect::UiState(SessionState::Listening));
        let ghost e1 = effects_view(effects@);
        self.resume_after_finished(effects);
        let ghost e2 = effects_view(effects@);
        emit(effects, Effect::ApplyPendingSettings);
        assert(effects_view(effects@) =~= e0 + (seq![EffectView::UiState(SessionState::Listening)]
            + e2.subrange(e1.len() as int, e2.len() as int).push(EffectView::ApplyPendingSettings)));
    }

    fn expire_shown(&mut self, now_ms: u64)
        ensures
            final(self)@ == expired_shown(old(self)@, now_ms),
            final(self).preroll == old(self).preroll,
    {
        proof {
            reveal(error_view);
            reveal(timed_text);
        }
        let error_expired = match &self.shown.error {
            Some(UserError::Temporary { until_ms, .. }) => now_ms >= *until_ms,
            _ => false,
        };
        if error_expired {
            self.shown.error = None;
        }
        let notice_expired = match &self.shown.notice {
            Some((_, until)) => now_ms >= *until,
            None => false,
        };
        if notice_expired {
            self.shown.notice = None;
        }
        let commit_expired = match &self.shown.commit {
            Some((_, until)) => now_ms >= *until,
            None => false,
        };
        if commit_expired {
            self.shown.commit = None;
        }
    }

    fn check_idle_close(&mut self, now_ms: u64, effects: &mut Vec<Effect>)
        requires
            clock_ok(now_ms),
        ensures
            final(self)@ == idle_close_step(old(self)@, now_ms).0,
            effects_view(final(effects)@) == effects_view(old(effects)@) + idle_close_step(
                old(self)@,
                now_ms,
            ).1,
            final(self).preroll == old(self).preroll,
    {
        let due = crate::controller::idle_close_is_due(
            self.session.state(),
            self.flags.gate_speaking,
            self.waits.pending_since_ms.is_some() || self.flags.finalize_pending,
            self.times.last_endpoint_ms,
            self.settings.idle_close_sec,
            now_ms,
        );
        if !due {
            assert(effects_view(effects@) =~= effects_view(effects@) + Seq::<EffectView>::empty());
            return;
        }
        if !self.flags.has_transport {
            self.fail_runtime("音声認識セッションが利用できません", true, now_ms, effects);
            return;
        }
        let ghost e0 = effects_view(effects@);
        emit(effects, Effect::SendFinalize);
        self.send_stop(effects);
        let ghost e1 = effects_view(effects@);
        let ghost c1 = self@;
        proof {
            lemma_refused_input_keeps_state(c1.state, SessionInput::IdleTimeout);
        }
        if self.apply_input(SessionInput::IdleTimeout) {
            self.times.last_endpoint_ms = None;
            self.times.closing_since_ms = Some(now_ms);
            self.clear_overlay_facts();
            emit(effects, Effect::UiState(SessionState::Closing));
            assert(effects_view(effects@) =~= e0 + (seq![EffectView::SendFinalize] + e1.subrange(
                e0.len() + 1int,
                e1.len() as int,
            ).push(EffectView::UiState(SessionState::Closing))));
        } else {
            assert(effects_view(effects@) =~= e0 + (seq![EffectView::SendFinalize] + e1.subrange(
                e0.len() + 1int,
                e1.len() as int,
            )));
        }
    }

    /// The tick, every 100 ms (see `periodic_step`). A splash that has been
    /// up for `splash_ms` comes down, and the connection is checked.
    pub fn periodic(&mut self, now_ms: u64) -> (r: Vec<Effect>)
        requires
            clock_ok(now_ms),
            old(self).wf(),
        ensures
            final(self).wf(),
            final(self)@ == periodic_step(old(self)@, now_ms).0,
            effects_view(r@) == periodic_step(old(self)@, now_ms).1 + (if splash_over(
                old(self).splash_started_ms,
                old(self).settings.splash_ms,
                now_ms,
            ) {
                seq![EffectView::CheckConnection]
            } else {
                Seq::empty()
            }),
            final(self).splash_started_ms == (if splash_over(
                old(self).splash_started_ms,
                old(self).settings.splash_ms,
                now_ms,
            ) {
                None
            } else {
                old(self).splash_started_ms
            }),
    {
        let splash = self.splash_started_ms;
        let over = match splash {
            Some(t) => (if now_ms >= t { now_ms - t } else { 0 }) >= self.settings.splash_ms as u64,
            None => false,
        };
        let mut effects = self.periodic_checks(now_ms);
        // The checks draw nothing over the splash; only its own time ends it.
        self.splash_started_ms = splash;
        if over {
            self.splash_started_ms = None;
            let ghost before = effects@;
            effects.push(Effect::CheckConnection);
            proof {
                reveal(effects_view);
            }
            assert(effects_view(effects@) =~= effects_view(before).push(EffectView::CheckConnection));
        }
        effects
    }

    fn periodic_checks(&mut self, now_ms: u64) -> (r: Vec<Effect>)
        requires
            clock_ok(now_ms),
            old(self).wf(),
        ensures
            final(self).wf(),
            (final(self)@, effects_view(r@)) == periodic_step(old(self)@, now_ms),
    {
        let mut effects: Vec<Effect> = Vec::new();
        proof {
            reveal(effects_view);
        }
        assert(effects_view(effects@) =~= Seq::<EffectView>::empty());
        self.check_session_timeouts(now_ms, &mut effects);
        let ghost e1 = effects_view(effects@);
        self.check_failed_recovery(now_ms, &mut effects);
        let ghost e2 = effects_view(effects@);
        self.expire_shown(now_ms);
        self.check_idle_close(now_ms, &mut effects);
        assert(effects_view(effects@) =~= e1 + e2.subrange(e1.len() as int, e2.len() as int)
            + effects_view(effects@).subrange(e2.len() as int, effects_view(effects@).len() as int));
        effects
    }

    /// Listening starts (see `enable_step`); the program checks first that
    /// the connection is ready.
    pub fn enable_listening(&mut self) -> (r: Vec<Effect>)
        requires
            old(self).wf(),
        ensures
            final(self).wf(),
            (final(self)@, effects_view(r@)) == enable_step(old(self)@),
            final(self).splash_started_ms == old(self).splash_started_ms,
    {
        let splash = self.splash_started_ms;
        let r = self.enable_listening_core();
        self.splash_started_ms = splash;
        r
    }

    /// The work of `enable_listening`, apart from the splash.
    fn enable_listening_core(&mut self) -> (r: Vec<Effect>)
        requires
            old(self).wf(),
        ensures
            final(self).wf(),
            (final(self)@, effects_view(r@)) == enable_step(old(self)@),
    {
        let mut effects: Vec<Effect> = Vec::new();
        proof {
            reveal(effects_view);
        }
        assert(effects_view(effects@) =~= Seq::<EffectView>::empty());
        let ghost c = self@;
        proof {
            lemma_refused_input_keeps_state(c.state, SessionInput::Enable);
        }
        if !self.apply_input(SessionInput::Enable) {
            return effects;
        }
        self.failure = FailureState {
            failed_at_ms: None,
            recovery_enabled: false,
            retry_delay_ms: FAILED_RETRY_INITIAL_DELAY_MS,
        };
        self.preroll.clear();
        self.flags.gate_speaking = false;
        emit(&mut effects, Effect::ResumeListening);
        emit(&mut effects, Effect::UiState(SessionState::Listening));
        effects
    }

    fn stop_listening_state(&mut self)
        requires
            old(self).wf(),
        ensures
            final(self).wf(),
            final(self)@ == cleared_waits(
                CoreView {
                    warmup: WarmupState { started_at_ms: None, ..old(self)@.warmup },
                    deferred: None,
                    delayed_turn: None,
                    flags: TurnFlags { gate_speaking: false, ..old(self)@.flags },
                    audio: AudioView { preroll: Seq::empty(), ..old(self)@.audio },
                    ..old(self)@
                },
            ),
    {
        proof {
            reveal(deferred_view);
        }
        self.warmup.started_at_ms = None;
        self.deferred = None;
        self.delayed_turn = None;
        self.flags.gate_speaking = false;
        self.preroll.clear();
        self.clear_pending_waits();
    }

    fn close_for_disable(&mut self, now_ms: u64, effects: &mut Vec<Effect>)
        requires
            clock_ok(now_ms),
            old(self).wf(),
            old(self)@.state == SessionState::Connecting || old(self)@.state == SessionState::Streaming,
        ensures
            final(self).wf(),
            ({
                let c1 = old(self)@;
                let c1a = CoreView {
                    state: next_state(c1.state, SessionInput::Disable),
                    times: Times { closing_since_ms: Some(now_ms), ..c1.times },
                    ..c1
                };
                let (c1b, e1b) = if c1a.flags.has_transport {
                    (c1a, seq![EffectView::SendFinalize])
                } else {
                    fail_step(c1a, no_session_message(), true, now_ms)
                };
                let (c1c, e1c) = stop_step(c1b);
                &&& final(self)@ == c1c
                &&& effects_view(final(effects)@) == effects_view(old(effects)@) + (seq![
                    EffectView::UiState(SessionState::Closing),
                ] + e1b + e1c)
            }),
    {
        let ghost e0 = effects_view(effects@);
        let _ = self.apply_input(SessionInput::Disable);
        self.times.closing_since_ms = Some(now_ms);
        emit(effects, Effect::UiState(SessionState::Closing));
        let ghost e1 = effects_view(effects@);
        if self.flags.has_transport {
            emit(effects, Effect::SendFinalize);
        } else {
            self.fail_runtime("音声認識セッションが利用できません", true, now_ms, effects);
        }
        let ghost e2 = effects_view(effects@);
        self.send_stop(effects);
        assert(effects_view(effects@) =~= e0 + (seq![EffectView::UiState(SessionState::Closing)]
            + e2.subrange(e1.len() as int, e2.len() as int) + effects_view(effects@).subrange(
            e2.len() as int,
            effects_view(effects@).len() as int,
        )));
    }

    /// Listening stops (see `disable_step`).
    pub fn disable_listening(&mut self, now_ms: u64) -> (r: Vec<Effect>)
        requires
            clock_ok(now_ms),
            old(self).wf(),
        ensures
            final(self).wf(),
            (final(self)@, effects_view(r@)) == disable_step(old(self)@, now_ms),
            final(self).splash_started_ms is None,
    {
        let r = self.disable_listening_core(now_ms);
        self.splash_started_ms = None;
        r
    }

    /// The work of `disable_listening`, apart from the splash.
    fn disable_listening_core(&mut self, now_ms: u64) -> (r: Vec<Effect>)
        requires
            clock_ok(now_ms),
            old(self).wf(),
        ensures
            final(self).wf(),
            (final(self)@, effects_view(r@)) == disable_step(old(self)@, now_ms),
    {
        let mut effects: Vec<Effect> = Vec::new();
        proof {
            reveal(effects_view);
        }
        assert(effects_view(effects@) =~= Seq::<EffectView>::empty());
        self.stop_listening_state();
        emit(&mut effects, Effect::SuspendListening);
        let ghost e1 = effects_view(effects@);
        let ghost c1 = self@;
        let state = self.session.state();
        proof {
            reveal(accepts);
            reveal(next_state);
        }
        if state == SessionState::Listening {
            let _ = self.apply_input(SessionInput::Disable);
            emit(&mut effects, Effect::UiState(SessionState::Disabled));
        } else if state == SessionState::Connecting || state == SessionState::Streaming {
            self.close_for_disable(now_ms, &mut effects);
        } else if state == SessionState::Failed {
            let _ = self.apply_input(SessionInput::Disable);
            self.failure.failed_at_ms = None;
            self.failure.recovery_enabled = false;
            emit(&mut effects, Effect::UiState(SessionState::Disabled));
        } else if state == SessionState::Closing {
            let _ = self.apply_input(SessionInput::Disable);
        }
        self.clear_overlay_facts();
        assert(effects_view(effects@) =~= e1 + effects_view(effects@).subrange(
            e1.len() as int,
            effects_view(effects@).len() as int,
        ));
        effects
    }

    fn connection_required(&mut self, kind: OverlayKind, message: String) -> (r: Vec<Effect>)
        requires
            old(self).wf(),
        ensures
            final(self).wf(),
            (final(self)@, effects_view(r@)) == connection_required_step(old(self)@, kind, message@),
    {
        proof {
            reveal(effects_view);
            reveal(error_view);
            reveal(accepts);
            reveal(next_state);
        }
        let mut effects: Vec<Effect> = Vec::new();
        assert(effects_view(effects@) =~= Seq::<EffectView>::empty());
        if self.session.state() != SessionState::Disabled {
            emit(&mut effects, Effect::SuspendListening);
            self.send_stop(&mut effects);
            self.cleanup_asr(&mut effects);
            if self.session.state() != SessionState::Failed {
                let _ = self.apply_input(SessionInput::Failed);
            }
            let _ = self.apply_input(SessionInput::Disable);
        }
        emit(&mut effects, Effect::UiState(SessionState::Disabled));
        self.shown.error = Some(UserError::Persistent { kind, message });
        effects
    }

    /// The connection is not ready (see `require_connection_step`).
    pub fn require_connection(&mut self, readiness: Readiness) -> (r: Vec<Effect>)
        requires
            old(self).wf(),
        ensures
            final(self).wf(),
            (final(self)@, effects_view(r@)) == require_connection_step(old(self)@, readiness),
            final(self).splash_started_ms == (if !(readiness is Ready) {
                None
            } else {
                old(self).splash_started_ms
            }),
    {
        let splash = self.splash_started_ms;
        let clears = match &readiness {
            Readiness::Ready => false,
            _ => true,
        };
        let r = self.require_connection_core(readiness);
        self.splash_started_ms = if clears {
            None
        } else {
            splash
        };
        r
    }

    /// The work of `require_connection`, apart from the splash.
    fn require_connection_core(&mut self, readiness: Readiness) -> (r: Vec<Effect>)
        requires
            old(self).wf(),
        ensures
            final(self).wf(),
            (final(self)@, effects_view(r@)) == require_connection_step(old(self)@, readiness),
    {
        match readiness {
            Readiness::Ready => {
                let effects: Vec<Effect> = Vec::new();
                proof {
                    reveal(effects_view);
                }
                assert(effects_view(effects@) =~= Seq::<EffectView>::empty());
                effects
            },
            Readiness::NeedsLogin { message } => self.connection_required(OverlayKind::LoginNeeded, message),
            Readiness::NeedsSetup { message } => self.connection_required(OverlayKind::Error, message),
        }
    }

    /// The tray's toggle (see `toggle_step`), given how ready the
    /// connection is.
    pub fn toggle_listening(&mut self, readiness: Readiness, now_ms: u64) -> (r: Vec<Effect>)
        requires
            clock_ok(now_ms),
            old(self).wf(),
        ensures
            final(self).wf(),
            (final(self)@, effects_view(r@)) == toggle_step(old(self)@, readiness, now_ms),
            final(self).splash_started_ms == (if old(self)@.state != SessionState::Disabled || readiness is NeedsSetup {
                None
            } else {
                old(self).splash_started_ms
            }),
    {
        let splash = self.splash_started_ms;
        let needs_setup = match &readiness {
            Readiness::NeedsSetup { .. } => true,
            _ => false,
        };
        let clears = self.session.state() != SessionState::Disabled || needs_setup;
        let r = self.toggle_listening_core(readiness, now_ms);
        self.splash_started_ms = if clears {
            None
        } else {
            splash
        };
        r
    }

    /// The work of `toggle_listening`, apart from the splash.
    fn toggle_listening_core(&mut self, readiness: Readiness, now_ms: u64) -> (r: Vec<Effect>)
        requires
            clock_ok(now_ms),
            old(self).wf(),
        ensures
            final(self).wf(),
            (final(self)@, effects_view(r@)) == toggle_step(old(self)@, readiness, now_ms),
    {
        if self.session.state() == SessionState::Disabled {
            match readiness {
                Readiness::Ready => self.enable_listening(),
                Readiness::NeedsLogin { .. } => {
                    let mut effects: Vec<Effect> = Vec::new();
                    proof {
                        reveal(effects_view);
                    }
                    assert(effects_view(effects@) =~= Seq::<EffectView>::empty());
                    emit(&mut effects, Effect::StartLogin);
                    effects
                },
                Readiness::NeedsSetup { .. } => self.require_connection(readiness),
            }
        } else {
            self.disable_listening(now_ms)
        }
    }

    fn handle_gate_events(&mut self, events: &[GateEvent], which: GateEvent, now_ms: u64, effects: &mut Vec<Effect>)
        requires
            clock_ok(now_ms),
            old(self).wf(),
        ensures
            final(self).wf(),
            final(self)@ == gate_events_step(old(self)@, events@, which, now_ms).0,
            effects_view(final(effects)@) == effects_view(old(effects)@) + gate_events_step(
                old(self)@,
                events@,
                which,
                now_ms,
            ).1,
    {
        let ghost c0 = self@;
        let ghost start = effects_view(effects@);
        let mut i: usize = 0;
        assert(events@.take(0) =~= Seq::<GateEvent>::empty());
        assert(start + Seq::<EffectView>::empty() =~= start);
        while i < events.len()
            invariant
                0 <= i <= events@.len(),
                clock_ok(now_ms),
                self.wf(),
                self@ == gate_events_step(c0, events@.take(i as int), which, now_ms).0,
                effects_view(effects@) == start + gate_events_step(c0, events@.take(i as int), which, now_ms).1,
            decreases events.len() - i,
        {
            let ghost t = events@.take(i + 1);
            assert(t.drop_last() =~= events@.take(i as int));
            assert(t.last() == events@[i as int]);
            let ghost before = effects_view(effects@);
            let ghost mid = gate_events_step(c0, events@.take(i as int), which, now_ms).1;
            if events[i] == which {
                let more = if which == GateEvent::SpeechStarted {
                    self.speech_started(now_ms)
                } else {
                    self.speech_ended(now_ms)
                };
                let ghost added = effects_view(more@);
                append_effects(effects, more);
                assert(start + (mid + added) =~= before + added);
            }
            i = i + 1;
        }
        assert(events@.take(i as int) =~= events@);
    }

    /// A frame from the VAD and its gate events (see `frame_step`).
    pub fn handle_vad_frame(&mut self, samples: &[i16], events: &[GateEvent], now_ms: u64) -> (r: Vec<Effect>)
        requires
            clock_ok(now_ms),
            old(self).wf(),
        ensures
            final(self).wf(),
            (final(self)@, effects_view(r@)) == frame_step(old(self)@, samples@, events@, now_ms),
            final(self).splash_started_ms == (if events@.len() > 0 {
                None
            } else {
                old(self).splash_started_ms
            }),
    {
        let splash = self.splash_started_ms;
        let clears = events.len() > 0;
        let r = self.handle_vad_frame_core(samples, events, now_ms);
        self.splash_started_ms = if clears {
            None
        } else {
            splash
        };
        r
    }

    /// The work of `handle_vad_frame`, apart from the splash.
    fn handle_vad_frame_core(&mut self, samples: &[i16], events: &[GateEvent], now_ms: u64) -> (r: Vec<Effect>)
        requires
            clock_ok(now_ms),
            old(self).wf(),
        ensures
            final(self).wf(),
            (final(self)@, effects_view(r@)) == frame_step(old(self)@, samples@, events@, now_ms),
    {
        let mut effects: Vec<Effect> = Vec::new();
        proof {
            reveal(effects_view);
        }
        assert(effects_view(effects@) =~= Seq::<EffectView>::empty());
        if !self.session.is_listening() {
            return effects;
        }
        self.handle_gate_events(events, GateEvent::SpeechStarted, now_ms, &mut effects);
        let ghost e1 = effects_view(effects@);
        let more = self.handle_vad_samples(samples, now_ms);
        let ghost e2 = effects_view(more@);
        append_effects(&mut effects, more);
        let ghost e12 = effects_view(effects@);
        self.handle_gate_events(events, GateEvent::SpeechEnded, now_ms, &mut effects);
        assert(effects_view(effects@) =~= e1 + e2 + (effects_view(effects@).subrange(
            e12.len() as int,
            effects_view(effects@).len() as int,
        )));
        effects
    }

    fn reconfigure(&mut self, settings: CoreSettings, preroll_capacity: usize)
        requires
            old(self).wf(),
        ensures
            final(self).wf(),
            final(self)@ == reconfigured(old(self)@, settings, preroll_capacity as nat),
    {
        self.settings = settings;
        self.preroll = PreRoll::new(preroll_capacity);
    }

    fn switch_route(&mut self, now_ms: u64, effects: &mut Vec<Effect>)
        requires
            old(self).wf(),
        ensures
            final(self).wf(),
            final(self)@ == route_switch_step(old(self)@, now_ms).0,
            effects_view(final(effects)@) == effects_view(old(effects)@) + route_switch_step(old(self)@, now_ms).1,
    {
        let ghost e0 = effects_view(effects@);
        self.cleanup_asr(effects);
        let ghost e1 = effects_view(effects@);
        let _ = self.start_warmup(WarmupReason::SettingsChanged, now_ms, effects);
        assert(effects_view(effects@) =~= e0 + (e1.subrange(e0.len() as int, e1.len() as int)
            + effects_view(effects@).subrange(e1.len() as int, effects_view(effects@).len() as int)));
    }

    /// Settings were saved (see `settings_saved_step`).
    pub fn settings_saved(
        &mut self,
        settings: CoreSettings,
        preroll_capacity: usize,
        change: SettingsChange,
        readiness: Readiness,
        now_ms: u64,
    ) -> (r: Vec<Effect>)
        requires
            clock_ok(now_ms),
            old(self).wf(),
        ensures
            final(self).wf(),
            (final(self)@, effects_view(r@)) == settings_saved_step(
                old(self)@,
                settings,
                preroll_capacity as nat,
                change,
                readiness,
                now_ms,
            ),
            final(self).splash_started_ms == (if change.route_changed || (old(self)@.state == SessionState::Disabled && change.listening_turned_on && !(readiness is Ready)) {
                None
            } else {
                old(self).splash_started_ms
            }),
    {
        let splash = self.splash_started_ms;
        let not_ready = match &readiness {
            Readiness::Ready => false,
            _ => true,
        };
        let clears = change.route_changed || (self.session.state() == SessionState::Disabled
            && change.listening_turned_on && not_ready);
        let r = self.settings_saved_core(settings, preroll_capacity, change, readiness, now_ms);
        self.splash_started_ms = if clears {
            None
        } else {
            splash
        };
        r
    }

    /// The work of `settings_saved`, apart from the splash.
    fn settings_saved_core(
        &mut self,
        settings: CoreSettings,
        preroll_capacity: usize,
        change: SettingsChange,
        readiness: Readiness,
        now_ms: u64,
    ) -> (r: Vec<Effect>)
        requires
            clock_ok(now_ms),
            old(self).wf(),
        ensures
            final(self).wf(),
            (final(self)@, effects_view(r@)) == settings_saved_step(
                old(self)@,
                settings,
                preroll_capacity as nat,
                change,
                readiness,
                now_ms,
            ),
    {
        let mut effects: Vec<Effect> = Vec::new();
        proof {
            reveal(effects_view);
        }
        assert(effects_view(effects@) =~= Seq::<EffectView>::empty());
        let state = self.session.state();
        if state == SessionState::Disabled || state == SessionState::Failed {
            self.reconfigure(settings, preroll_capacity);
            emit(&mut effects, Effect::ApplySettings);
            if change.route_changed {
                self.switch_route(now_ms, &mut effects);
            }
            if state == SessionState::Disabled && change.listening_turned_on {
                let ghost before = effects_view(effects@);
                let more = match readiness {
                    Readiness::Ready => self.enable_listening(),
                    _ => self.require_connection(readiness),
                };
                let ghost added = effects_view(more@);
                append_effects(&mut effects, more);
                assert(effects_view(effects@) =~= before + added);
            }
            assert(effects_view(effects@) =~= seq![EffectView::ApplySettings] + effects_view(effects@).skip(1));
        } else {
            if change.microphone_changed {
                emit(&mut effects, Effect::RestartMicrophone);
            }
            if change.route_changed {
                self.reconfigure(settings, preroll_capacity);
                emit(&mut effects, Effect::ApplySettings);
                self.switch_route(now_ms, &mut effects);
            } else {
                emit(&mut effects, Effect::HoldSettings);
            }
        }
        effects
    }

    /// Settings held during the session take effect (see
    /// `held_settings_step`).
    pub fn apply_held_settings(
        &mut self,
        settings: CoreSettings,
        preroll_capacity: usize,
        listening_turned_off: bool,
        now_ms: u64,
    ) -> (r: Vec<Effect>)
        requires
            clock_ok(now_ms),
            old(self).wf(),
        ensures
            final(self).wf(),
            (final(self)@, effects_view(r@)) == held_settings_step(
                old(self)@,
                settings,
                preroll_capacity as nat,
                listening_turned_off,
                now_ms,
            ),
            final(self).splash_started_ms == (if listening_turned_off {
                None
            } else {
                old(self).splash_started_ms
            }),
    {
        let splash = self.splash_started_ms;
        let clears = listening_turned_off;
        let r = self.apply_held_settings_core(settings, preroll_capacity, listening_turned_off, now_ms);
        self.splash_started_ms = if clears {
            None
        } else {
            splash
        };
        r
    }

    /// The work of `apply_held_settings`, apart from the splash.
    fn apply_held_settings_core(
        &mut self,
        settings: CoreSettings,
        preroll_capacity: usize,
        listening_turned_off: bool,
        now_ms: u64,
    ) -> (r: Vec<Effect>)
        requires
            clock_ok(now_ms),
            old(self).wf(),
        ensures
            final(self).wf(),
            (final(self)@, effects_view(r@)) == held_settings_step(
                old(self)@,
                settings,
                preroll_capacity as nat,
                listening_turned_off,
                now_ms,
            ),
    {
        self.reconfigure(settings, preroll_capacity);
        if listening_turned_off {
            self.disable_listening(now_ms)
        } else {
            let effects: Vec<Effect> = Vec::new();
            proof {
                reveal(effects_view);
            }
            assert(effects_view(effects@) =~= Seq::<EffectView>::empty());
            effects
        }
    }

    /// A warm-up is asked for (a re-recorded voice, for one): see
    /// `start_warmup_step`. Says whether one runs.
    pub fn request_warmup(&mut self, reason: WarmupReason, now_ms: u64) -> (r: (bool, Vec<Effect>))
        ensures
            final(self).preroll == old(self).preroll,
            (final(self)@, effects_view(r.1@), r.0) == start_warmup_step(old(self)@, reason, now_ms),
            final(self).splash_started_ms == (if r.0 {
                None
            } else {
                old(self).splash_started_ms
            }),
    {
        let splash = self.splash_started_ms;
        let r = self.request_warmup_core(reason, now_ms);
        self.splash_started_ms = if r.0 {
            None
        } else {
            splash
        };
        r
    }

    /// The work of `request_warmup`, apart from the splash.
    fn request_warmup_core(&mut self, reason: WarmupReason, now_ms: u64) -> (r: (bool, Vec<Effect>))
        ensures
            final(self).preroll == old(self).preroll,
            (final(self)@, effects_view(r.1@), r.0) == start_warmup_step(old(self)@, reason, now_ms),
    {
        let mut effects: Vec<Effect> = Vec::new();
        proof {
            reveal(effects_view);
        }
        assert(effects_view(effects@) =~= Seq::<EffectView>::empty());
        let started = self.start_warmup(reason, now_ms, &mut effects);
        assert(effects_view(effects@) =~= start_warmup_step(old(self)@, reason, now_ms).1);
        (started, effects)
    }

    fn show_error(&mut self, message: String, now_ms: u64)
        requires
            clock_ok(now_ms),
        ensures
            final(self)@ == error_shown(old(self)@, message@, now_ms),
            final(self).preroll == old(self).preroll,
    {
        proof {
            reveal(error_view);
            reveal(timed_text);
        }
        self.shown.notice = None;
        self.shown.error = Some(UserError::Temporary { message, until_ms: now_ms + OVERLAY_ERROR_DURATION_MS });
    }

    /// The user asked to log in (see `login_requested_step`), given whether
    /// a login worker runs and whether the connection has a login.
    pub fn login_requested(&mut self, running: bool, login_available: bool, now_ms: u64) -> (r: Vec<Effect>)
        requires
            clock_ok(now_ms),
        ensures
            final(self).preroll == old(self).preroll,
            (final(self)@, effects_view(r@)) == login_requested_step(old(self)@, running, login_available, now_ms),
            final(self).splash_started_ms == (if running || !login_available {
                None
            } else {
                old(self).splash_started_ms
            }),
    {
        let splash = self.splash_started_ms;
        let clears = running || !login_available;
        let r = self.login_requested_core(running, login_available, now_ms);
        self.splash_started_ms = if clears {
            None
        } else {
            splash
        };
        r
    }

    /// The work of `login_requested`, apart from the splash.
    fn login_requested_core(&mut self, running: bool, login_available: bool, now_ms: u64) -> (r: Vec<Effect>)
        requires
            clock_ok(now_ms),
        ensures
            final(self).preroll == old(self).preroll,
            (final(self)@, effects_view(r@)) == login_requested_step(old(self)@, running, login_available, now_ms),
    {
        let mut effects: Vec<Effect> = Vec::new();
        proof {
            reveal(effects_view);
        }
        assert(effects_view(effects@) =~= Seq::<EffectView>::empty());
        if running {
            self.show_error(owned("ログイン処理中…ブラウザで操作してください"), now_ms);
            emit(&mut effects, Effect::LoginProgress(LoginState::InProgress));
        } else if !login_available {
            self.show_error(owned("この接続ではログインは不要です"), now_ms);
            emit(&mut effects, Effect::RefreshLoginState);
        } else {
            emit(&mut effects, Effect::StartLoginWorker);
        }
        effects
    }

    /// The login worker runs (see `login_started_step`).
    pub fn login_started(&mut self, now_ms: u64) -> (r: Vec<Effect>)
        requires
            clock_ok(now_ms),
        ensures
            final(self).preroll == old(self).preroll,
            (final(self)@, effects_view(r@)) == login_started_step(old(self)@, now_ms),
            final(self).splash_started_ms is None,
    {
        let r = self.login_started_core(now_ms);
        self.splash_started_ms = None;
        r
    }

    /// The work of `login_started`, apart from the splash.
    fn login_started_core(&mut self, now_ms: u64) -> (r: Vec<Effect>)
        requires
            clock_ok(now_ms),
        ensures
            final(self).preroll == old(self).preroll,
            (final(self)@, effects_view(r@)) == login_started_step(old(self)@, now_ms),
    {
        let mut effects: Vec<Effect> = Vec::new();
        proof {
            reveal(effects_view);
        }
        assert(effects_view(effects@) =~= Seq::<EffectView>::empty());
        self.show_error(owned("ログイン処理中…ブラウザで操作してください"), now_ms);
        emit(&mut effects, Effect::LoginProgress(LoginState::InProgress));
        effects
    }

    /// The login ended (see `login_finished_step`), given whether the
    /// settings want listening and how ready the connection is.
    pub fn login_finished(
        &mut self,
        outcome: LoginOutcome,
        listening_wanted: bool,
        readiness: Readiness,
        now_ms: u64,
    ) -> (r: Vec<Effect>)
        requires
            clock_ok(now_ms),
            old(self).wf(),
        ensures
            final(self).wf(),
            (final(self)@, effects_view(r@)) == login_finished_step(
                old(self)@,
                outcome,
                listening_wanted,
                readiness,
                now_ms,
            ),
            final(self).splash_started_ms is None,
    {
        let r = self.login_finished_core(outcome, listening_wanted, readiness, now_ms);
        self.splash_started_ms = None;
        r
    }

    /// The work of `login_finished`, apart from the splash.
    fn login_finished_core(
        &mut self,
        outcome: LoginOutcome,
        listening_wanted: bool,
        readiness: Readiness,
        now_ms: u64,
    ) -> (r: Vec<Effect>)
        requires
            clock_ok(now_ms),
            old(self).wf(),
        ensures
            final(self).wf(),
            (final(self)@, effects_view(r@)) == login_finished_step(
                old(self)@,
                outcome,
                listening_wanted,
                readiness,
                now_ms,
            ),
    {
        let mut effects: Vec<Effect> = Vec::new();
        proof {
            reveal(effects_view);
        }
        assert(effects_view(effects@) =~= Seq::<EffectView>::empty());
        match outcome {
            LoginOutcome::Succeeded => {
                emit(&mut effects, Effect::RefreshAccount);
                emit(&mut effects, Effect::RefreshLoginState);
                let state = self.session.state();
                self.clear_overlay_facts();
                if listening_wanted && state == SessionState::Disabled {
                    let ghost before = effects_view(effects@);
                    let more = match readiness {
                        Readiness::Ready => self.enable_listening(),
                        _ => self.require_connection(readiness),
                    };
                    let ghost added = effects_view(more@);
                    append_effects(&mut effects, more);
                    assert(effects_view(effects@) =~= before + added);
                }
            },
            LoginOutcome::Failed(message) => {
                if str_contains(message.as_str(), "timed out") {
                    self.show_error(owned("ログインがタイムアウトしました"), now_ms);
                    emit(&mut effects, Effect::RefreshAccount);
                    emit(&mut effects, Effect::RefreshLoginState);
                } else {
                    let reason = short_login_error(message.as_str());
                    let mut shown = owned("ログイン失敗: ");
                    push_str(&mut shown, reason.as_str());
                    self.show_error(shown, now_ms);
                    emit(&mut effects, Effect::LoginProgress(LoginState::Failed { reason }));
                }
            },
        }
        effects
    }

    /// A send to the recognizer failed (the channel to the connection is
    /// gone): the session fails with the message, to be retried.
    pub fn send_failed(&mut self, message: &str, now_ms: u64) -> (r: Vec<Effect>)
        requires
            clock_ok(now_ms),
        ensures
            final(self).preroll == old(self).preroll,
            (final(self)@, effects_view(r@)) == fail_step(old(self)@, message@, true, now_ms),
            final(self).splash_started_ms is None,
    {
        let r = self.send_failed_core(message, now_ms);
        self.splash_started_ms = None;
        r
    }

    /// The work of `send_failed`, apart from the splash.
    fn send_failed_core(&mut self, message: &str, now_ms: u64) -> (r: Vec<Effect>)
        requires
            clock_ok(now_ms),
        ensures
            final(self).preroll == old(self).preroll,
            (final(self)@, effects_view(r@)) == fail_step(old(self)@, message@, true, now_ms),
    {
        let mut effects: Vec<Effect> = Vec::new();
        proof {
            reveal(effects_view);
        }
        assert(effects_view(effects@) =~= Seq::<EffectView>::empty());
        self.fail_runtime(message, true, now_ms, &mut effects);
        effects
    }


    /// A client started at `now_ms`, showing the startup splash.
    pub fn new(settings: CoreSettings, preroll_capacity_samples: usize, now_ms: u64) -> (r: Self)
        ensures
            r.wf(),
            r@ == initial_view(settings, preroll_capacity_samples as nat),
            r.splash_started_ms == Some(now_ms),
    {
        proof {
            reveal(error_view);
            reveal(timed_text);
            reveal(deferred_view);
        }
        let r = ControllerCore {
            session: Session::new(),
            transcript: Transcript::new(),
            pending_commit: String::new(),
            preroll: PreRoll::new(preroll_capacity_samples),
            pending_audio: Vec::new(),
            pending_audio_dropped_frames: 0,
            flags: TurnFlags {
                gate_speaking: false,
                backend_confirmed: true,
                client_finalize_sent: false,
                finalize_pending: false,
                server_audio_paused: false,
                pause_when_gate_stops: false,
                asr_closing: false,
                has_transport: false,
            },
            waits: Waits {
                pending_since_ms: None,
                completed_by_final_text: false,
                completed_by_endpoint: false,
            },
            shown: Shown { commit: None, notice: None, error: None },
            times: Times {
                last_response_ms: None,
                last_endpoint_ms: None,
                connecting_since_ms: None,
                closing_since_ms: None,
                warmup_after_ms: None,
            },
            failure: FailureState {
                failed_at_ms: None,
                recovery_enabled: false,
                retry_delay_ms: FAILED_RETRY_INITIAL_DELAY_MS,
            },
            delayed_turn: None,
            warmup: WarmupState {
                started_at_ms: None,
                retry_at_ms: None,
                retry_delay_ms: ENROLL_RETRY_INITIAL_MS,
            },
            deferred: None,
            expected_backend: None,
            api_key: None,
            settings,
            splash_started_ms: Some(now_ms),
        };
        assert(pending_audio_view(r.pending_audio@) =~= Seq::<Seq<u8>>::empty());
        r
    }

    /// The overlay for now: the startup splash while it is up, else what
    /// the state calls for (see `core_overlay`).
    pub fn overlay(&self, now_ms: u64) -> (r: OverlayView)
        ensures
            r@ == (if self.splash_started_ms is Some {
                OverlayShape::Splash
            } else {
                core_overlay(self@, now_ms)
            }),
    {
        proof {
            reveal(error_view);
            reveal(timed_text);
        }
        if self.splash_started_ms.is_some() {
            return OverlayView::Splash;
        }
        let error = match &self.shown.error {
            Some(UserError::Temporary { message, until_ms }) => Some(
                UserError::Temporary { message: owned(message.as_str()), until_ms: *until_ms },
            ),
            Some(UserError::Persistent { kind, message }) => Some(
                UserError::Persistent { kind: *kind, message: owned(message.as_str()) },
            ),
            None => None,
        };
        let commit = match &self.shown.commit {
            Some((t, u)) => Some((owned(t.as_str()), *u)),
            None => None,
        };
        let notice = match &self.shown.notice {
            Some((t, u)) => Some((owned(t.as_str()), *u)),
            None => None,
        };
        let partial_text = self.transcript.partial();
        let partial = if chars_of(partial_text).len() > 0 {
            Some(owned(partial_text))
        } else {
            None
        };
        let facts = Facts {
            gate_speaking: self.flags.gate_speaking,
            warmup: self.warmup.started_at_ms.is_some() || self.delayed_turn.is_some(),
            pending_since_ms: self.waits.pending_since_ms,
            commit,
            notice,
            error,
            partial,
            finalizing: self.flags.finalize_pending,
        };
        crate::controller::view(&facts, now_ms)
    }

}

} // verus!
