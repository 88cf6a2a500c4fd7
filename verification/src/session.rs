//! The client's listening session: whether the microphone runs, and where the
//! connection to the recognizer stands.

use vstd::prelude::*;

verus! {

#[derive(Debug, Clone, Copy, PartialEq, Eq, Structural)]
pub enum SessionState {
    /// Listening is off; neither the microphone nor the VAD runs.
    Disabled,
    /// Microphone and VAD run; no connection to the recognizer.
    Listening,
    /// Speech was detected and the connection is being opened; audio is buffered.
    Connecting,
    /// Audio is being sent to the recognizer.
    Streaming,
    /// A stop was requested; waiting for `finished`, then back to listening.
    Closing,
    /// The user turned listening off; waiting for `finished`, then disabled.
    Stopping,
    /// Failed; left by a user action or a retry.
    Failed,
}

/// The user wants listening on in this state (`Stopping` waits for the
/// connection to end, but the wish is off).
pub open spec fn spec_listening_enabled(s: SessionState) -> bool {
    !(s is Disabled || s is Stopping)
}

/// The state is waiting for the recognizer connection to end.
pub open spec fn spec_is_closing(s: SessionState) -> bool {
    s is Closing || s is Stopping
}

impl SessionState {
    pub fn listening_enabled(self) -> (r: bool)
        ensures
            r == spec_listening_enabled(self),
    {
        !matches!(self, SessionState::Disabled | SessionState::Stopping)
    }

    pub fn is_closing(self) -> (r: bool)
        ensures
            r == spec_is_closing(self),
    {
        matches!(self, SessionState::Closing | SessionState::Stopping)
    }
}

#[derive(Debug, Clone, Copy, PartialEq, Eq, Structural)]
pub enum SessionInput {
    Enable,
    Disable,
    SpeechStarted,
    Connected,
    /// Long after the last speech end: close the connection.
    IdleTimeout,
    Finished,
    /// Give up connecting or waiting for the end, and go back to listening.
    Timeout,
    /// The recognizer session was cut; back to listening without failing.
    Aborted,
    Failed,
    /// Leave `Failed`.
    Retry,
}

/// The transition table; `None` for an input the state does not accept.
pub open spec fn transition(s: SessionState, input: SessionInput) -> Option<SessionState> {
    match (s, input) {
        (SessionState::Disabled, SessionInput::Enable) => Some(SessionState::Listening),
        (SessionState::Listening, SessionInput::SpeechStarted) => Some(SessionState::Connecting),
        (SessionState::Listening, SessionInput::Failed) => Some(SessionState::Failed),
        (SessionState::Listening, SessionInput::Disable) => Some(SessionState::Disabled),
        (SessionState::Disabled, SessionInput::Failed) => Some(SessionState::Failed),
        (SessionState::Connecting, SessionInput::Connected) => Some(SessionState::Streaming),
        (SessionState::Connecting, SessionInput::Disable) => Some(SessionState::Stopping),
        (SessionState::Connecting, SessionInput::Failed) => Some(SessionState::Failed),
        (SessionState::Streaming, SessionInput::IdleTimeout) => Some(SessionState::Closing),
        (SessionState::Streaming, SessionInput::Disable) => Some(SessionState::Stopping),
        (SessionState::Streaming, SessionInput::Failed) => Some(SessionState::Failed),
        (SessionState::Closing, SessionInput::Disable) => Some(SessionState::Stopping),
        (SessionState::Closing, SessionInput::Enable) => Some(SessionState::Closing),
        (SessionState::Stopping, SessionInput::Disable) => Some(SessionState::Stopping),
        (SessionState::Stopping, SessionInput::Enable) => Some(SessionState::Closing),
        (SessionState::Closing, SessionInput::Finished) => Some(SessionState::Listening),
        (SessionState::Stopping, SessionInput::Finished) => Some(SessionState::Disabled),
        (SessionState::Closing, SessionInput::Failed) => Some(SessionState::Failed),
        (SessionState::Stopping, SessionInput::Failed) => Some(SessionState::Disabled),
        (SessionState::Connecting, SessionInput::Timeout) => Some(SessionState::Listening),
        (SessionState::Closing, SessionInput::Timeout) => Some(SessionState::Listening),
        (SessionState::Stopping, SessionInput::Timeout) => Some(SessionState::Disabled),
        (SessionState::Connecting, SessionInput::Aborted) => Some(SessionState::Listening),
        (SessionState::Streaming, SessionInput::Aborted) => Some(SessionState::Listening),
        (SessionState::Closing, SessionInput::Aborted) => Some(SessionState::Listening),
        (SessionState::Stopping, SessionInput::Aborted) => Some(SessionState::Disabled),
        (SessionState::Failed, SessionInput::Retry) => Some(SessionState::Listening),
        (SessionState::Failed, SessionInput::Disable) => Some(SessionState::Disabled),
        _ => None,
    }
}

/// Audio may be sent to the recognizer in this state.
pub open spec fn spec_accepts_audio(s: SessionState) -> bool {
    s is Connecting || s is Streaming
}

#[derive(Debug)]
pub struct Session {
    state: SessionState,
}

impl View for Session {
    type V = SessionState;

    closed spec fn view(&self) -> SessionState {
        self.state
    }
}

impl Session {
    pub fn new() -> (r: Self)
        ensures
            r@ == SessionState::Disabled,
    {
        Session { state: SessionState::Disabled }
    }

    pub fn state(&self) -> (r: SessionState)
        ensures
            r == self@,
    {
        self.state
    }

    /// Moves by the table. An input the state does not accept changes nothing
    /// and gives `false`.
    pub fn apply(&mut self, input: SessionInput) -> (r: bool)
        ensures
            r == transition(old(self)@, input) is Some,
            final(self)@ == match transition(old(self)@, input) {
                Some(next) => next,
                None => old(self)@,
            },
    {
        let next = match (self.state, input) {
            (SessionState::Disabled, SessionInput::Enable) => SessionState::Listening,
            (SessionState::Listening, SessionInput::SpeechStarted) => SessionState::Connecting,
            (SessionState::Listening, SessionInput::Failed) => SessionState::Failed,
            (SessionState::Listening, SessionInput::Disable) => SessionState::Disabled,
            (SessionState::Disabled, SessionInput::Failed) => SessionState::Failed,
            (SessionState::Connecting, SessionInput::Connected) => SessionState::Streaming,
            (SessionState::Connecting, SessionInput::Disable) => SessionState::Stopping,
            (SessionState::Connecting, SessionInput::Failed) => SessionState::Failed,
            (SessionState::Streaming, SessionInput::IdleTimeout) => SessionState::Closing,
            (SessionState::Streaming, SessionInput::Disable) => SessionState::Stopping,
            (SessionState::Streaming, SessionInput::Failed) => SessionState::Failed,
            (SessionState::Closing, SessionInput::Disable) => SessionState::Stopping,
            (SessionState::Closing, SessionInput::Enable) => SessionState::Closing,
            (SessionState::Stopping, SessionInput::Disable) => SessionState::Stopping,
            (SessionState::Stopping, SessionInput::Enable) => SessionState::Closing,
            (SessionState::Closing, SessionInput::Finished) => SessionState::Listening,
            (SessionState::Stopping, SessionInput::Finished) => SessionState::Disabled,
            (SessionState::Closing, SessionInput::Failed) => SessionState::Failed,
            (SessionState::Stopping, SessionInput::Failed) => SessionState::Disabled,
            (SessionState::Connecting, SessionInput::Timeout)
            | (SessionState::Closing, SessionInput::Timeout) => SessionState::Listening,
            (SessionState::Stopping, SessionInput::Timeout) => SessionState::Disabled,
            (SessionState::Connecting, SessionInput::Aborted)
            | (SessionState::Streaming, SessionInput::Aborted)
            | (SessionState::Closing, SessionInput::Aborted) => SessionState::Listening,
            (SessionState::Stopping, SessionInput::Aborted) => SessionState::Disabled,
            (SessionState::Failed, SessionInput::Retry) => SessionState::Listening,
            (SessionState::Failed, SessionInput::Disable) => SessionState::Disabled,
            _ => {
                return false;
            },
        };
        self.state = next;
        true
    }

    /// Audio may be sent to the recognizer now.
    pub fn accepts_audio(&self) -> (r: bool)
        ensures
            r == spec_accepts_audio(self@),
    {
        matches!(self.state, SessionState::Connecting | SessionState::Streaming)
    }

    /// The microphone and VAD should run now.
    pub fn is_listening(&self) -> (r: bool)
        ensures
            r == spec_listening_enabled(self@),
    {
        self.state.listening_enabled()
    }
}

/// Turning listening off is accepted from every state but `Disabled`, and
/// afterwards the user's wish is off.
pub proof fn law_disable_is_always_honored(s: SessionState)
    requires
        !(s is Disabled),
    ensures
        transition(s, SessionInput::Disable) is Some,
        !spec_listening_enabled(transition(s, SessionInput::Disable)->0),
{
}

/// Turning listening on is accepted whenever the wish is off, and afterwards
/// the wish is on.
pub proof fn law_enable_is_always_honored(s: SessionState)
    requires
        !spec_listening_enabled(s),
    ensures
        transition(s, SessionInput::Enable) is Some,
        spec_listening_enabled(transition(s, SessionInput::Enable)->0),
{
}

/// However the wait for the end of a connection ends (finished, timed out or
/// aborted), the session stops waiting and keeps the user's wish.
pub proof fn law_closing_ends_with_the_users_wish(s: SessionState, input: SessionInput)
    requires
        spec_is_closing(s),
        input is Finished || input is Timeout || input is Aborted,
    ensures
        transition(s, input) is Some,
        !spec_is_closing(transition(s, input)->0),
        spec_listening_enabled(transition(s, input)->0) == spec_listening_enabled(s),
        !spec_accepts_audio(transition(s, input)->0),
{
}

/// `Failed` is left only by a retry (back to listening) or by turning
/// listening off.
pub proof fn law_failed_is_left_only_by_retry_or_disable(input: SessionInput)
    ensures
        transition(SessionState::Failed, input) is Some <==> (input is Retry || input is Disable),
        input is Retry ==> transition(SessionState::Failed, input) == Some(SessionState::Listening),
        input is Disable ==> transition(SessionState::Failed, input) == Some(
            SessionState::Disabled,
        ),
{
}

/// A connection is only ever opened from `Listening`, on detected speech.
pub proof fn law_connecting_starts_only_on_speech(s: SessionState, input: SessionInput)
    requires
        transition(s, input) == Some(SessionState::Connecting),
    ensures
        s is Listening,
        input is SpeechStarted,
{
}

/// Turning listening off, then waiting for the connection to finish, always
/// arrives at `Disabled`.
pub proof fn law_disable_then_finish_reaches_disabled(s: SessionState)
    requires
        !(s is Disabled),
    ensures
        ({
            let t = transition(s, SessionInput::Disable)->0;
            t is Disabled || (t is Stopping && transition(t, SessionInput::Finished) == Some(
                SessionState::Disabled,
            ))
        }),
{
}

} // verus!
