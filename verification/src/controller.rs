//! The client's pure decisions: retry timing, audio levels, which overlay to
//! show, and how errors read. Times are milliseconds on one monotonic clock.

use crate::asr_session::AsrToken;
use crate::session::SessionState;
use crate::text::{
    chars_of, has_prefix, is_blank, owned, push_char, push_chars, str_eq, str_is_blank,
    str_starts_with, string_of,
};
use vstd::prelude::*;

verus! {

/// Audio held while the connection opens, at most: 60 seconds of 16 kHz
/// 16-bit audio. It is a length, not a number of frames, so that a whole
/// utterance fits even when connecting is slow.
pub const PENDING_AUDIO_MAX_BYTES: usize = 1_920_000;

/// The first wait before retrying from the failed state, and the most.
pub const FAILED_RETRY_INITIAL_MS: u64 = 5_000;
pub const FAILED_RETRY_MAX_MS: u64 = 30_000;

/// The first wait before retrying an enrollment, and the most.
pub const ENROLL_RETRY_INITIAL_MS: u64 = 5_000;
pub const ENROLL_RETRY_MAX_MS: u64 = 60_000;

/// How long one VAD frame lasts, and the VAD's sample rate.
pub const VAD_FRAME_MS: u32 = 32;
pub const VAD_SAMPLE_RATE: u32 = 16_000;

/// After this long without a response, the overlay says it is waiting; after
/// the longer one, that the server is starting.
pub const SERVER_RESPONSE_WAITING_OVERLAY_DELAY_MS: u64 = 4_000;
pub const SERVER_RESPONSE_STARTING_OVERLAY_DELAY_MS: u64 = 10_000;

pub open spec fn doubled_capped(current: nat, max: nat) -> nat {
    if current * 2 <= max {
        current * 2
    } else {
        max
    }
}

/// The next wait before retrying from the failed state: doubled, at most
/// the cap.
pub fn next_failed_retry_delay(current_ms: u64) -> (r: u64)
    ensures
        r == doubled_capped(current_ms as nat, FAILED_RETRY_MAX_MS as nat),
{
    match current_ms.checked_mul(2) {
        Some(d) => if d < FAILED_RETRY_MAX_MS {
            d
        } else {
            FAILED_RETRY_MAX_MS
        },
        None => FAILED_RETRY_MAX_MS,
    }
}

/// The next wait before retrying an enrollment: doubled, at most the cap.
pub fn next_enroll_retry_delay(current_ms: u64) -> (r: u64)
    ensures
        r == doubled_capped(current_ms as nat, ENROLL_RETRY_MAX_MS as nat),
{
    match current_ms.checked_mul(2) {
        Some(d) => if d < ENROLL_RETRY_MAX_MS {
            d
        } else {
            ENROLL_RETRY_MAX_MS
        },
        None => ENROLL_RETRY_MAX_MS,
    }
}

/// Time from `since` to `now`, zero if `now` is earlier.
pub open spec fn elapsed(since: nat, now: nat) -> nat {
    if now >= since {
        (now - since) as nat
    } else {
        0
    }
}

/// The retry from the failed state is due once its wait has passed.
pub fn failed_retry_is_due(failed_at_ms: u64, retry_delay_ms: u64, now_ms: u64) -> (r: bool)
    ensures
        r == (elapsed(failed_at_ms as nat, now_ms as nat) >= retry_delay_ms),
{
    now_ms.saturating_sub(failed_at_ms) >= retry_delay_ms
}

/// Closing the connection after silence is due only while streaming, with
/// no speech going on, no response still awaited, and more than the idle
/// time since the last end of speech. A response still awaited keeps the
/// connection whatever the time: a recognizer starting cold can take a
/// minute.
pub open spec fn spec_idle_close_is_due(
    state: SessionState,
    gate_is_speaking: bool,
    has_pending_response: bool,
    last_speech_endpoint_ms: Option<nat>,
    idle_close_sec: nat,
    now_ms: nat,
) -> bool {
    &&& state == SessionState::Streaming
    &&& !gate_is_speaking
    &&& !has_pending_response
    &&& last_speech_endpoint_ms matches Some(t) && elapsed(t, now_ms) > idle_close_sec * 1000
}

pub fn idle_close_is_due(
    state: SessionState,
    gate_is_speaking: bool,
    has_pending_response: bool,
    last_speech_endpoint_ms: Option<u64>,
    idle_close_sec: u32,
    now_ms: u64,
) -> (r: bool)
    ensures
        r == spec_idle_close_is_due(
            state,
            gate_is_speaking,
            has_pending_response,
            match last_speech_endpoint_ms {
                Some(t) => Some(t as nat),
                None => None,
            },
            idle_close_sec as nat,
            now_ms as nat,
        ),
{
    state == SessionState::Streaming && !gate_is_speaking && !has_pending_response && match last_speech_endpoint_ms {
        Some(t) => (now_ms.saturating_sub(t) as u128) > (idle_close_sec as u128) * 1000,
        None => false,
    }
}

/// Shown when no gateway URL is configured.
pub const GATEWAY_URL_MISSING_MESSAGE: &'static str =
    "ゲートウェイURLが設定されていません。設定画面の「詳細」で指定してください。";

/// Failures that only the user can fix, so no automatic retry follows them:
/// missing server settings or credentials, and a missing or broken voice
/// enrollment.
pub open spec fn spec_is_user_action_failure(message: Seq<char>) -> bool {
    ||| message == GATEWAY_URL_MISSING_MESSAGE@
    ||| message == "サーバー URL を設定してください"@
    ||| message == "音声認識の認証情報が設定されていません"@
    ||| has_prefix(message, "声の登録が必要です。"@)
    ||| has_prefix(message, "参照音声が見つかりません。"@)
    ||| has_prefix(message, "声の登録の準備に失敗しました。"@)
}

pub fn is_user_action_failure_message(message: &str) -> (r: bool)
    ensures
        r == spec_is_user_action_failure(message@),
{
    str_eq(message, GATEWAY_URL_MISSING_MESSAGE) || str_eq(
        message,
        "サーバー URL を設定してください",
    ) || str_eq(message, "音声認識の認証情報が設定されていません") || str_starts_with(
        message,
        "声の登録が必要です。",
    ) || str_starts_with(message, "参照音声が見つかりません。") || str_starts_with(
        message,
        "声の登録の準備に失敗しました。",
    )
}

pub open spec fn min_nat(a: nat, b: nat) -> nat {
    if a <= b {
        a
    } else {
        b
    }
}

/// Audio kept from before speech is confirmed: at least the confirmation
/// window, one silence window and one VAD frame, so that a brief dip in
/// speech probability while starting does not lose the first sounds.
pub open spec fn spec_effective_preroll_ms(preroll: nat, min_speech: nat, min_silence: nat) -> nat {
    let cover = min_nat(min_speech + min_silence + (VAD_FRAME_MS as nat), u32::MAX as nat);
    if preroll >= cover {
        preroll
    } else {
        cover
    }
}

pub fn effective_preroll_ms(preroll_ms: u32, vad_min_speech_ms: u32, vad_min_silence_ms: u32) -> (r:
    u32)
    ensures
        r == spec_effective_preroll_ms(
            preroll_ms as nat,
            vad_min_speech_ms as nat,
            vad_min_silence_ms as nat,
        ),
{
    let cover = vad_min_speech_ms.saturating_add(vad_min_silence_ms).saturating_add(VAD_FRAME_MS);
    if preroll_ms >= cover {
        preroll_ms
    } else {
        cover
    }
}

/// VAD frames covering `ms` milliseconds, rounded up, and at least one.
pub open spec fn spec_ms_to_frames(ms: nat) -> nat {
    let f: nat = ((ms + 31) / 32) as nat;
    if f >= 1 {
        f
    } else {
        1
    }
}

pub fn milliseconds_to_frames(milliseconds: u32) -> (r: usize)
    ensures
        r == spec_ms_to_frames(milliseconds as nat),
{
    let f: u64 = (milliseconds as u64 + 31) / 32;
    if f >= 1 {
        f as usize
    } else {
        1
    }
}

/// VAD samples in `ms` milliseconds.
pub fn milliseconds_to_samples(milliseconds: u32) -> (r: usize)
    requires
        milliseconds as nat * (VAD_SAMPLE_RATE as nat) / 1000 <= usize::MAX,
    ensures
        r == milliseconds as nat * (VAD_SAMPLE_RATE as nat) / 1000,
{
    ((milliseconds as u64 * 16_000) / 1000) as usize
}

/// The first line of `s` as `str::lines` gives it: up to the first line
/// feed, without a carriage return before it; none for empty text.
pub open spec fn first_line(s: Seq<char>) -> Option<Seq<char>> {
    if s.len() == 0 {
        None
    } else {
        match crate::config::first_index_from(s, '\n', 0) {
            Some(i) => Some(
                if i > 0 && s[i - 1] == '\r' {
                    s.take(i - 1)
                } else {
                    s.take(i as int)
                },
            ),
            None => Some(s),
        }
    }
}

/// A login error for display: its first line (or a generic message), cut
/// to 120 characters with an ellipsis when longer.
pub open spec fn spec_short_login_error(message: Seq<char>) -> Seq<char> {
    let line = match first_line(message) {
        Some(l) => l,
        None => "ログインに失敗しました"@,
    };
    if line.len() > 120 {
        line.take(120).push('…')
    } else {
        line
    }
}

pub fn short_login_error(message: &str) -> (r: String)
    ensures
        r@ == spec_short_login_error(message@),
{
    let cs = chars_of(message);
    let line: Vec<char> = if cs.len() == 0 {
        chars_of("ログインに失敗しました")
    } else {
        let mut i: usize = 0;
        while i < cs.len() && cs[i] != '\n'
            invariant
                0 <= i <= cs@.len(),
                crate::config::first_index_from(cs@, '\n', 0) == crate::config::first_index_from(
                    cs@,
                    '\n',
                    i as nat,
                ),
            decreases cs.len() - i,
        {
            i = i + 1;
        }
        let end = if i < cs.len() && i > 0 && cs[i - 1] == '\r' {
            i - 1
        } else {
            i
        };
        let mut l: Vec<char> = Vec::new();
        let mut k: usize = 0;
        while k < end
            invariant
                end <= cs@.len(),
                0 <= k <= end,
                l@ =~= cs@.take(k as int),
            decreases end - k,
        {
            l.push(cs[k]);
            k = k + 1;
        }
        assert(i == cs@.len() ==> cs@.take(i as int) =~= cs@);
        l
    };
    if line.len() > 120 {
        let mut short: Vec<char> = Vec::new();
        let mut k: usize = 0;
        while k < 120
            invariant
                line@.len() > 120,
                0 <= k <= 120,
                short@ =~= line@.take(k as int),
            decreases 120 - k,
        {
            short.push(line[k]);
            k = k + 1;
        }
        short.push('…');
        string_of(short.as_slice())
    } else {
        string_of(line.as_slice())
    }
}

/// How loud a sample is: its magnitude, with `i16::MIN` counted as `i16::MAX`.
pub open spec fn spec_sample_level(s: i16) -> i16 {
    if s >= 0 {
        s
    } else if s == i16::MIN {
        i16::MAX
    } else {
        -s as i16
    }
}

pub fn sample_level(sample: i16) -> (r: i16)
    ensures
        r == spec_sample_level(sample),
{
    if sample >= 0 {
        sample
    } else if sample == i16::MIN {
        i16::MAX
    } else {
        -sample
    }
}

#[derive(Debug, Clone, Copy, PartialEq, Eq, Structural)]
pub enum LevelStatus {
    Normal,
    TooQuiet,
    Clipped,
}

/// Microphone level advice: clipped when more than one sample in a thousand
/// clipped; too quiet when the peak stays under 3% of full scale (a peak of
/// at most 983); otherwise normal.
pub open spec fn spec_level_status(peak: i16, clipped: nat, total: nat) -> LevelStatus {
    if total > 0 && min_nat(clipped * 1000, u64::MAX as nat) > total {
        LevelStatus::Clipped
    } else if (if peak >= 0 {
        peak as int
    } else {
        -(peak as int)
    }) <= 983 {
        LevelStatus::TooQuiet
    } else {
        LevelStatus::Normal
    }
}

pub fn level_status(peak: i16, clipped_samples: u64, total_samples: u64) -> (r: LevelStatus)
    ensures
        r == spec_level_status(peak, clipped_samples as nat, total_samples as nat),
{
    let scaled: u64 = if clipped_samples > u64::MAX / 1000 {
        u64::MAX
    } else {
        clipped_samples * 1000
    };
    if total_samples > 0 && scaled > total_samples {
        return LevelStatus::Clipped;
    }
    let magnitude: i32 = if peak >= 0 {
        peak as i32
    } else {
        -(peak as i32)
    };
    if magnitude <= 983 {
        LevelStatus::TooQuiet
    } else {
        LevelStatus::Normal
    }
}

/// The text of a run of tokens, joined.
pub open spec fn tokens_text(tokens: Seq<AsrToken>) -> Seq<char>
    decreases tokens.len(),
{
    if tokens.len() == 0 {
        Seq::empty()
    } else {
        tokens_text(tokens.drop_last()) + tokens.last().text@
    }
}

pub fn tokens_to_text(tokens: &[AsrToken]) -> (r: String)
    ensures
        r@ == tokens_text(tokens@),
{
    let mut r = String::new();
    let mut i: usize = 0;
    while i < tokens.len()
        invariant
            0 <= i <= tokens@.len(),
            r@ == tokens_text(tokens@.take(i as int)),
        decreases tokens.len() - i,
    {
        push_chars(&mut r, chars_of(tokens[i].text.as_str()).as_slice());
        proof {
            let t = tokens@.take(i + 1);
            assert(t.drop_last() == tokens@.take(i as int));
        }
        i = i + 1;
    }
    assert(tokens@.take(tokens@.len() as int) == tokens@);
    r
}

/// Takes the text waiting to be pasted, leaving it empty; blank text gives
/// `None`.
pub fn take_pending(pending: &mut String) -> (r: Option<String>)
    ensures
        final(pending)@ == Seq::<char>::empty(),
        is_blank(old(pending)@) ==> r is None,
        !is_blank(old(pending)@) ==> (r matches Some(s) && s@ == old(pending)@),
{
    let mut text = String::new();
    std::mem::swap(&mut text, pending);
    if str_is_blank(text.as_str()) {
        None
    } else {
        Some(text)
    }
}

/// Why a warm-up ran.
#[derive(Debug, Clone, Copy, PartialEq, Eq, Structural)]
pub enum WarmupReason {
    /// Just before the first speech: the enrollment is stale.
    BeforeSpeech,
    /// The connection target changed in the settings: warm the new one now.
    SettingsChanged,
    /// The reference voice was recorded again: enroll it now.
    VoiceChanged,
}

pub open spec fn spec_warmup_reason_name(r: WarmupReason) -> Seq<char> {
    match r {
        WarmupReason::BeforeSpeech => "before_speech"@,
        WarmupReason::SettingsChanged => "settings_changed"@,
        WarmupReason::VoiceChanged => "voice_changed"@,
    }
}

impl WarmupReason {
    /// The reason's name in logs.
    pub fn as_str(self) -> (r: &'static str)
        ensures
            r@ == spec_warmup_reason_name(self),
    {
        match self {
            WarmupReason::BeforeSpeech => "before_speech",
            WarmupReason::SettingsChanged => "settings_changed",
            WarmupReason::VoiceChanged => "voice_changed",
        }
    }
}

#[derive(Debug, Clone, PartialEq, Eq)]
pub enum LoginState {
    NotRequired,
    LoggedOut,
    InProgress,
    LoggedIn { email: String },
    Failed { reason: String },
}

/// A login state by its content.
pub enum LoginStateView {
    NotRequired,
    LoggedOut,
    InProgress,
    LoggedIn(Seq<char>),
    Failed(Seq<char>),
}

impl View for LoginState {
    type V = LoginStateView;

    open spec fn view(&self) -> LoginStateView {
        match self {
            LoginState::NotRequired => LoginStateView::NotRequired,
            LoginState::LoggedOut => LoginStateView::LoggedOut,
            LoginState::InProgress => LoginStateView::InProgress,
            LoginState::LoggedIn { email } => LoginStateView::LoggedIn(email@),
            LoginState::Failed { reason } => LoginStateView::Failed(reason@),
        }
    }
}

/// A login that needs the user's attention: logged out, or failed.
pub fn login_needs_attention(state: &LoginState) -> (r: bool)
    ensures
        r == (state is LoggedOut || state is Failed),
{
    matches!(state, LoginState::LoggedOut | LoginState::Failed { .. })
}

/// Commands to the VAD thread.
#[derive(Debug, Clone, Copy, PartialEq, Eq, Structural)]
pub enum VadControl {
    Resume,
    Suspend,
    Shutdown,
}

/// What the VAD thread receives next: a command (none once the sender is
/// gone), or a frame of audio (none once the microphone's sender is gone).
/// While suspended the thread waits for commands only.
#[derive(Debug, Clone, Copy, PartialEq, Eq, Structural)]
pub enum VadInput {
    Control(Option<VadControl>),
    Audio { closed: bool },
}

/// What the VAD thread does, in order.
#[derive(Debug, Clone, Copy, PartialEq, Eq, Structural)]
pub enum VadAction {
    /// Forget the model's state.
    ResetModel,
    /// Throw away the audio that waits.
    DrainAudio,
    /// Run the model on the frame and report its probabilities.
    RunModel,
    /// Stop the thread.
    Exit,
}

/// The VAD thread's decisions: it runs only after `Resume`; `Suspend`
/// stops it and drops the audio heard meanwhile; `Resume` while running
/// starts the model afresh; `Shutdown`, or a sender gone, ends the thread.
pub open spec fn spec_vad_step(running: bool, input: VadInput) -> (bool, Seq<VadAction>) {
    match input {
        VadInput::Control(Some(VadControl::Resume)) => (true, seq![VadAction::ResetModel]),
        VadInput::Control(Some(VadControl::Suspend)) => (
            false,
            seq![VadAction::ResetModel, VadAction::DrainAudio],
        ),
        VadInput::Control(Some(VadControl::Shutdown)) | VadInput::Control(None) => (
            running,
            seq![VadAction::Exit],
        ),
        VadInput::Audio { closed } => if !running {
            (running, Seq::empty())
        } else if closed {
            (running, seq![VadAction::Exit])
        } else {
            (running, seq![VadAction::RunModel])
        },
    }
}

pub fn vad_step(running: bool, input: VadInput) -> (r: (bool, Vec<VadAction>))
    ensures
        (r.0, r.1@) == spec_vad_step(running, input),
{
    let mut actions: Vec<VadAction> = Vec::new();
    let next = match input {
        VadInput::Control(Some(VadControl::Resume)) => {
            actions.push(VadAction::ResetModel);
            true
        },
        VadInput::Control(Some(VadControl::Suspend)) => {
            actions.push(VadAction::ResetModel);
            actions.push(VadAction::DrainAudio);
            false
        },
        VadInput::Control(_) => {
            actions.push(VadAction::Exit);
            running
        },
        VadInput::Audio { closed } => {
            if running {
                if closed {
                    actions.push(VadAction::Exit);
                } else {
                    actions.push(VadAction::RunModel);
                }
            }
            running
        },
    };
    assert(actions@ =~= spec_vad_step(running, input).1);
    (next, actions)
}

#[derive(Debug, Clone, Copy, PartialEq, Eq, Structural)]
pub enum OverlayKind {
    /// The recognition model is being downloaded.
    Preparing,
    /// Waking the recognizer and enrolling the voice; do not speak yet.
    WarmingUp,
    Connecting,
    /// The microphone is picking up the current speech.
    Recognizing,
    /// Speech ended; waiting for the finalized result.
    Finalizing,
    /// Waiting for the server's response after local speech end.
    WaitingForResponse,
    /// That wait is long; the server is starting.
    StartingServer,
    Committed,
    /// A short notice while the session continues.
    Notice,
    Error,
    LoginNeeded,
}

#[derive(Debug, Clone)]
pub enum OverlayView {
    Hidden,
    Splash,
    Shown { kind: OverlayKind, committed: String, partial: String, error: String },
}

/// An overlay, by its content.
pub enum OverlayShape {
    Hidden,
    Splash,
    Shown { kind: OverlayKind, committed: Seq<char>, partial: Seq<char>, error: Seq<char> },
}

impl View for OverlayView {
    type V = OverlayShape;

    open spec fn view(&self) -> OverlayShape {
        match self {
            OverlayView::Hidden => OverlayShape::Hidden,
            OverlayView::Splash => OverlayShape::Splash,
            OverlayView::Shown { kind, committed, partial, error } => OverlayShape::Shown {
                kind: *kind,
                committed: committed@,
                partial: partial@,
                error: error@,
            },
        }
    }
}

pub open spec fn shown(kind: OverlayKind, committed: Seq<char>, partial: Seq<char>, error: Seq<char>) -> OverlayShape {
    OverlayShape::Shown { kind, committed, partial, error }
}

/// An overlay of `kind` with no text.
pub fn blank_overlay(kind: OverlayKind) -> (r: OverlayView)
    ensures
        r@ == shown(kind, Seq::empty(), Seq::empty(), Seq::empty()),
{
    OverlayView::Shown { kind, committed: String::new(), partial: String::new(), error: String::new() }
}

/// An error the user sees.
pub enum UserError {
    /// Shown until `until_ms`.
    Temporary { message: String, until_ms: u64 },
    /// Shown until cleared, as `kind`.
    Persistent { kind: OverlayKind, message: String },
}

/// What the overlay is derived from.
pub struct Facts {
    pub gate_speaking: bool,
    /// A warm-up is running.
    pub warmup: bool,
    /// Since when a response has been awaited with nothing received yet.
    pub pending_since_ms: Option<u64>,
    /// Committed text, shown until the time given.
    pub commit: Option<(String, u64)>,
    /// A notice, shown until the time given.
    pub notice: Option<(String, u64)>,
    pub error: Option<UserError>,
    /// The partial result, which can arrive after speech detection went quiet.
    pub partial: Option<String>,
    /// `finalize` was sent and its result is awaited.
    pub finalizing: bool,
}

/// The overlay the facts call for at `now`, by priority: an error; the
/// warm-up (nothing may look ready while pasting is held back); a notice;
/// committed text; a long wait for the server; the partial text; the wait
/// for a finalized result; speech being heard; otherwise hidden.
pub open spec fn overlay_for(f: Facts, now: nat) -> OverlayShape {
    match f.error {
        Some(UserError::Temporary { message, until_ms }) if now < until_ms => shown(
            OverlayKind::Error,
            Seq::empty(),
            Seq::empty(),
            message@,
        ),
        Some(UserError::Persistent { kind, message }) => shown(kind, Seq::empty(), Seq::empty(), message@),
        _ => if f.warmup {
            shown(OverlayKind::WarmingUp, Seq::empty(), Seq::empty(), Seq::empty())
        } else if f.notice matches Some((m, until)) && now < until {
            shown(OverlayKind::Notice, Seq::empty(), Seq::empty(), (f.notice->0).0@)
        } else if f.commit matches Some((c, until)) && now < until {
            shown(OverlayKind::Committed, (f.commit->0).0@, Seq::empty(), Seq::empty())
        } else if f.pending_since_ms matches Some(since) && elapsed(since as nat, now)
            >= SERVER_RESPONSE_STARTING_OVERLAY_DELAY_MS {
            shown(OverlayKind::StartingServer, Seq::empty(), Seq::empty(), Seq::empty())
        } else if f.pending_since_ms matches Some(since) && elapsed(since as nat, now)
            >= SERVER_RESPONSE_WAITING_OVERLAY_DELAY_MS {
            shown(OverlayKind::WaitingForResponse, Seq::empty(), Seq::empty(), Seq::empty())
        } else if f.partial matches Some(p) && p@.len() > 0 {
            shown(OverlayKind::Recognizing, Seq::empty(), f.partial->0@, Seq::empty())
        } else if f.finalizing {
            shown(OverlayKind::Finalizing, Seq::empty(), Seq::empty(), Seq::empty())
        } else if f.gate_speaking {
            shown(OverlayKind::Recognizing, Seq::empty(), Seq::empty(), Seq::empty())
        } else {
            OverlayShape::Hidden
        },
    }
}

/// Derives the overlay from the facts alone; nothing else decides it.
pub fn view(facts: &Facts, now_ms: u64) -> (r: OverlayView)
    ensures
        r@ == overlay_for(*facts, now_ms as nat),
{
    match &facts.error {
        Some(UserError::Temporary { message, until_ms }) => {
            if now_ms < *until_ms {
                return OverlayView::Shown {
                    kind: OverlayKind::Error,
                    committed: String::new(),
                    partial: String::new(),
                    error: owned(message.as_str()),
                };
            }
        },
        Some(UserError::Persistent { kind, message }) => {
            return OverlayView::Shown {
                kind: *kind,
                committed: String::new(),
                partial: String::new(),
                error: owned(message.as_str()),
            };
        },
        None => {},
    }
    if facts.warmup {
        return blank_overlay(OverlayKind::WarmingUp);
    }
    match &facts.notice {
        Some((message, until)) => {
            if now_ms < *until {
                return OverlayView::Shown {
                    kind: OverlayKind::Notice,
                    committed: String::new(),
                    partial: String::new(),
                    error: owned(message.as_str()),
                };
            }
        },
        None => {},
    }
    match &facts.commit {
        Some((committed, until)) => {
            if now_ms < *until {
                return OverlayView::Shown {
                    kind: OverlayKind::Committed,
                    committed: owned(committed.as_str()),
                    partial: String::new(),
                    error: String::new(),
                };
            }
        },
        None => {},
    }
    match facts.pending_since_ms {
        Some(since) => {
            let waited = now_ms.saturating_sub(since);
            if waited >= SERVER_RESPONSE_STARTING_OVERLAY_DELAY_MS {
                return blank_overlay(OverlayKind::StartingServer);
            }
            if waited >= SERVER_RESPONSE_WAITING_OVERLAY_DELAY_MS {
                return blank_overlay(OverlayKind::WaitingForResponse);
            }
        },
        None => {},
    }
    match &facts.partial {
        Some(partial) => {
            if chars_of(partial.as_str()).len() > 0 {
                return OverlayView::Shown {
                    kind: OverlayKind::Recognizing,
                    committed: String::new(),
                    partial: owned(partial.as_str()),
                    error: String::new(),
                };
            }
        },
        None => {},
    }
    if facts.finalizing {
        return blank_overlay(OverlayKind::Finalizing);
    }
    if facts.gate_speaking {
        return blank_overlay(OverlayKind::Recognizing);
    }
    OverlayView::Hidden
}

/// While a warm-up runs, the overlay always says so, unless an error is up:
/// no committed text or notice may make it look ready.
pub proof fn law_warmup_overlay_wins_over_text(f: Facts, now: nat)
    requires
        f.warmup,
        !(f.error matches Some(UserError::Persistent { .. })),
        !(f.error matches Some(UserError::Temporary { until_ms, .. }) && now < until_ms),
    ensures
        overlay_for(f, now) == shown(OverlayKind::WarmingUp, Seq::empty(), Seq::empty(), Seq::empty()),
{
}

/// With no error up, a response wait under four seconds never shows a
/// waiting overlay; from ten seconds on, with no warm-up, notice or
/// committed text, the overlay says the server is starting.
pub proof fn law_waiting_overlay_thresholds(f: Facts, now: nat)
    requires
        f.pending_since_ms is Some,
        f.error is None,
    ensures
        elapsed(f.pending_since_ms->0 as nat, now) < 4000 ==> !(overlay_for(f, now) matches OverlayShape::Shown {
            kind: OverlayKind::WaitingForResponse,
            ..
        }) && !(overlay_for(f, now) matches OverlayShape::Shown {
            kind: OverlayKind::StartingServer,
            ..
        }),
        (elapsed(f.pending_since_ms->0 as nat, now) >= 10000 && !f.warmup
            && f.notice is None && f.commit is None) ==> overlay_for(f, now) == shown(
            OverlayKind::StartingServer,
            Seq::empty(),
            Seq::empty(),
            Seq::empty(),
        ),
{
}

/// The retry delays never exceed their caps, and once at the cap they stay.
pub proof fn law_retry_delays_are_capped(current: nat)
    ensures
        doubled_capped(current, FAILED_RETRY_MAX_MS as nat) <= FAILED_RETRY_MAX_MS,
        doubled_capped(FAILED_RETRY_MAX_MS as nat, FAILED_RETRY_MAX_MS as nat) == FAILED_RETRY_MAX_MS,
        doubled_capped(current, ENROLL_RETRY_MAX_MS as nat) <= ENROLL_RETRY_MAX_MS,
        doubled_capped(ENROLL_RETRY_MAX_MS as nat, ENROLL_RETRY_MAX_MS as nat) == ENROLL_RETRY_MAX_MS,
        current <= FAILED_RETRY_MAX_MS / 2 ==> doubled_capped(current, FAILED_RETRY_MAX_MS as nat) == 2 * current,
{
}

/// The connection is never closed for silence while a response is awaited
/// or speech is going on.
pub proof fn law_no_idle_close_while_waiting_or_speaking(
    state: SessionState,
    speaking: bool,
    pending: bool,
    last: Option<nat>,
    idle: nat,
    now: nat,
)
    requires
        speaking || pending,
    ensures
        !spec_idle_close_is_due(state, speaking, pending, last, idle, now),
{
}

} // verus!
