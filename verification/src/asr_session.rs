//! One connection of the ASR server, as decisions: which responses to send,
//! when to decode, when to close. The recognizer itself runs outside; the
//! session says when a decode is due and takes its text back.
//!
//! Utterances are cut by the client's `finalize`; this server never decides
//! that speech ended by itself (deciding it on both sides makes one side stop
//! collecting audio while the other still waits for it).

use crate::agreement::{observe_step, Agreement, AgreementView};
use crate::config::{option_view, Config};
use crate::pcm::{leftover, pcm_samples, pending_seq, Pcm16Buffer};
use crate::text::{chars_eq, chars_of, concat, has_prefix, owned, push_chars, str_eq};
use vstd::prelude::*;
use vstd::utf8::encode_utf8;

verus! {

/// Marks the end of an utterance the server decided or the client ended.
pub const TOKEN_END: &'static str = "<end>";

/// Marks the end of an utterance the client finalized.
pub const TOKEN_FIN: &'static str = "<fin>";

/// Audio samples per second.
pub const SAMPLE_RATE: u32 = 16_000;

/// Mel filter banks of the recognizer's features.
pub const FEATURE_DIM: i32 = 80;

/// How the recognizer decodes.
pub const DECODING_METHOD: &'static str = "greedy_search";

/// One token of a response.
#[derive(Debug, Clone)]
pub struct AsrToken {
    pub text: String,
    pub is_final: bool,
}

/// One response frame. Fields the server never fills are left out.
#[derive(Debug, Clone)]
pub struct AsrResponse {
    pub tokens: Vec<AsrToken>,
    pub finished: bool,
    pub error_code: Option<u32>,
    pub error_type: Option<String>,
    pub error_message: Option<String>,
}

/// A response by its content.
pub struct ResponseView {
    pub tokens: Seq<(Seq<char>, bool)>,
    pub finished: bool,
    pub error_code: Option<u32>,
    pub error_type: Option<Seq<char>>,
    pub error_message: Option<Seq<char>>,
}

impl View for AsrResponse {
    type V = ResponseView;

    open spec fn view(&self) -> ResponseView {
        ResponseView {
            tokens: self.tokens@.map_values(|t: AsrToken| (t.text@, t.is_final)),
            finished: self.finished,
            error_code: self.error_code,
            error_type: option_view(self.error_type),
            error_message: option_view(self.error_message),
        }
    }
}

/// The view of a list of responses.
pub open spec fn responses_view(v: Seq<AsrResponse>) -> Seq<ResponseView> {
    v.map_values(|r: AsrResponse| r@)
}

/// Why a session ended in error.
#[derive(Debug)]
pub enum SessionError {
    /// The client broke the protocol.
    Protocol { code: u32, error_type: String, message: String },
    /// The recognizer failed; holds its message.
    Recognition(String),
}

impl SessionError {
    pub fn protocol(code: u32, error_type: &str, message: &str) -> (r: Self)
        ensures
            r matches SessionError::Protocol { code: c, error_type: t, message: m } && c == code
                && t@ == error_type@ && m@ == message@,
    {
        SessionError::Protocol { code, error_type: owned(error_type), message: owned(message) }
    }

    /// The WebSocket close code: policy violation for the client's errors,
    /// internal error for the recognizer's.
    pub fn close_code(&self) -> (r: u16)
        ensures
            r == (match self {
                SessionError::Protocol { .. } => 1008u16,
                SessionError::Recognition(_) => 1011u16,
            }),
    {
        match self {
            SessionError::Protocol { .. } => 1008,
            SessionError::Recognition(_) => 1011,
        }
    }

    /// The error frame sent to the client before closing.
    pub fn error_response(&self) -> (r: AsrResponse)
        ensures
            r@ == (match self {
                SessionError::Protocol { code, error_type, message } => error_frame(
                    *code,
                    error_type@,
                    message@,
                ),
                SessionError::Recognition(m) => error_frame(500, "asr_failed"@, m@),
            }),
    {
        match self {
            SessionError::Protocol { code, error_type, message } => error_response(
                *code,
                error_type.as_str(),
                message.as_str(),
            ),
            SessionError::Recognition(message) => error_response(
                500,
                "asr_failed",
                message.as_str(),
            ),
        }
    }

    /// The error as text.
    pub fn message(&self) -> (r: String)
        ensures
            r@ == (match self {
                SessionError::Protocol { code, error_type, message } => "protocol error "@
                    + crate::text::decimal(*code as nat) + " "@ + error_type@ + ": "@ + message@,
                SessionError::Recognition(m) => "ASR recognition failed: "@ + m@,
            }),
    {
        match self {
            SessionError::Protocol { code, error_type, message } => {
                let mut r = owned("protocol error ");
                crate::text::push_decimal(&mut r, *code as u64);
                push_chars(&mut r, chars_of(" ").as_slice());
                push_chars(&mut r, chars_of(error_type.as_str()).as_slice());
                push_chars(&mut r, chars_of(": ").as_slice());
                push_chars(&mut r, chars_of(message.as_str()).as_slice());
                r
            },
            SessionError::Recognition(m) => concat("ASR recognition failed: ", m.as_str()),
        }
    }
}

/// An error frame.
pub open spec fn error_frame(code: u32, error_type: Seq<char>, message: Seq<char>) -> ResponseView {
    ResponseView {
        tokens: Seq::empty(),
        finished: false,
        error_code: Some(code),
        error_type: Some(error_type),
        error_message: Some(message),
    }
}

fn error_response(code: u32, error_type: &str, message: &str) -> (r: AsrResponse)
    ensures
        r@ == error_frame(code, error_type@, message@),
{
    let r = AsrResponse {
        tokens: Vec::new(),
        finished: false,
        error_code: Some(code),
        error_type: Some(owned(error_type)),
        error_message: Some(owned(message)),
    };
    assert(r@.tokens =~= Seq::<(Seq<char>, bool)>::empty());
    r
}

/// What ended an utterance.
#[derive(Debug, Clone, Copy, PartialEq, Eq, Structural)]
pub enum Marker {
    /// The client closed the stream while audio was held.
    End,
    /// The utterance reached the length limit without a `finalize`.
    MaxUtterance,
    /// The client sent `finalize`.
    Fin,
}

pub open spec fn marker_token(m: Marker) -> Seq<char> {
    match m {
        Marker::End => TOKEN_END@,
        Marker::MaxUtterance => TOKEN_END@,
        Marker::Fin => TOKEN_FIN@,
    }
}

pub open spec fn marker_reason(m: Marker) -> Seq<char> {
    match m {
        Marker::End => "endpoint"@,
        Marker::MaxUtterance => "max_utterance"@,
        Marker::Fin => "finalize"@,
    }
}

impl Marker {
    /// The token that closes the utterance's final response.
    pub fn token(self) -> (r: &'static str)
        ensures
            r@ == marker_token(self),
    {
        match self {
            Marker::End => TOKEN_END,
            Marker::MaxUtterance => TOKEN_END,
            Marker::Fin => TOKEN_FIN,
        }
    }

    /// The name logged for this way of ending.
    pub fn reason(self) -> (r: &'static str)
        ensures
            r@ == marker_reason(self),
    {
        match self {
            Marker::End => "endpoint",
            Marker::MaxUtterance => "max_utterance",
            Marker::Fin => "finalize",
        }
    }
}

/// A plain frame holding `tokens`.
pub open spec fn token_frame(tokens: Seq<(Seq<char>, bool)>, finished: bool) -> ResponseView {
    ResponseView {
        tokens,
        finished,
        error_code: None,
        error_type: None,
        error_message: None,
    }
}

/// The final response of an utterance: its text (when not empty) as a final
/// token, then the marker's token.
pub open spec fn marker_frame(m: Marker, text: Seq<char>) -> ResponseView {
    token_frame(
        if text.len() == 0 {
            seq![(marker_token(m), true)]
        } else {
            seq![(text, true), (marker_token(m), true)]
        },
        false,
    )
}

/// The response that ends the connection.
pub open spec fn finished_frame() -> ResponseView {
    token_frame(Seq::empty(), true)
}

/// A partial result: the whole current text in one tentative token.
pub open spec fn partial_frame(text: Seq<char>) -> ResponseView {
    token_frame(seq![(text, false)], false)
}

fn make_token(text: &str, is_final: bool) -> (r: AsrToken)
    ensures
        r.text@ == text@,
        r.is_final == is_final,
{
    AsrToken { text: owned(text), is_final }
}

/// The final response of an utterance ended by `marker`.
pub fn response_with_marker(marker: Marker, text: &str) -> (r: AsrResponse)
    ensures
        r@ == marker_frame(marker, text@),
{
    let mut tokens: Vec<AsrToken> = Vec::new();
    let nonempty = chars_of(text).len() > 0;
    if nonempty {
        tokens.push(make_token(text, true));
    }
    tokens.push(make_token(marker.token(), true));
    let r = AsrResponse {
        tokens,
        finished: false,
        error_code: None,
        error_type: None,
        error_message: None,
    };
    assert(r@.tokens =~= marker_frame(marker, text@).tokens);
    r
}

fn finished_response() -> (r: AsrResponse)
    ensures
        r@ == finished_frame(),
{
    let r = AsrResponse {
        tokens: Vec::new(),
        finished: true,
        error_code: None,
        error_type: None,
        error_message: None,
    };
    assert(r@.tokens =~= Seq::<(Seq<char>, bool)>::empty());
    r
}

fn partial_response(text: &str) -> (r: AsrResponse)
    ensures
        r@ == partial_frame(text@),
{
    let mut tokens: Vec<AsrToken> = Vec::new();
    tokens.push(make_token(text, false));
    let r = AsrResponse {
        tokens,
        finished: false,
        error_code: None,
        error_type: None,
        error_message: None,
    };
    assert(r@.tokens =~= seq![(text@, false)]);
    r
}

/// The constant-time comparison the server uses for credentials: it looks
/// at every byte of the longer input whatever it finds.
pub fn constant_time_equal(left: &[u8], right: &[u8]) -> (r: bool)
    ensures
        r == (left@ == right@),
{
    let ll = left.len();
    let rl = right.len();
    let mut difference: usize = ll ^ rl;
    assert((ll ^ rl) == 0usize <==> ll == rl) by (bit_vector);
    let n = if left.len() > right.len() {
        left.len()
    } else {
        right.len()
    };
    let mut index: usize = 0;
    while index < n
        invariant
            n == if left@.len() > right@.len() {
                left@.len()
            } else {
                right@.len()
            },
            0 <= index <= n,
            difference == 0 <==> (left@.len() == right@.len() && forall|j: int|
                0 <= j < index ==> left@[j] == right@[j]),
        decreases n - index,
    {
        let a: u8 = if index < left.len() {
            left[index]
        } else {
            0
        };
        let b: u8 = if index < right.len() {
            right[index]
        } else {
            0
        };
        let x: u8 = a ^ b;
        assert((a ^ b) == 0u8 <==> a == b) by (bit_vector);
        let d = difference;
        let e: usize = x as usize;
        assert((d | e) == 0usize <==> (d == 0usize && e == 0usize)) by (bit_vector);
        difference = d | e;
        index = index + 1;
    }
    proof {
        if difference == 0 {
            assert(left@ =~= right@);
        }
    }
    difference == 0
}

/// A header byte that `HeaderValue::to_str` accepts: visible ASCII or tab.
pub open spec fn is_visible_header_byte(b: u8) -> bool {
    b == 9 || (32 <= b && b < 127)
}

/// Whether the `Authorization` header admits the client: always when no
/// token is configured; otherwise the header must be present, readable as
/// text, and exactly `Bearer ` followed by the token.
pub open spec fn authorized(header: Option<Seq<u8>>, token: Option<Seq<char>>) -> bool {
    match token {
        None => true,
        Some(t) => match header {
            None => false,
            Some(h) => (forall|i: int| 0 <= i < h.len() ==> is_visible_header_byte(#[trigger] h[i]))
                && h == encode_utf8("Bearer "@ + t),
        },
    }
}

/// Checks the `Authorization` header (its raw bytes, if present) against the
/// configured token, in constant time.
pub fn authorization_is_valid(header: Option<&[u8]>, expected_token: Option<&str>) -> (r: bool)
    ensures
        r == authorized(
            match header {
                Some(h) => Some(h@),
                None => None,
            },
            match expected_token {
                Some(t) => Some(t@),
                None => None,
            },
        ),
{
    let token = match expected_token {
        None => {
            return true;
        },
        Some(t) => t,
    };
    let value = match header {
        None => {
            return false;
        },
        Some(v) => v,
    };
    let mut i: usize = 0;
    while i < value.len()
        invariant
            header == Some(value),
            expected_token == Some(token),
            0 <= i <= value@.len(),
            forall|j: int| 0 <= j < i ==> is_visible_header_byte(#[trigger] value@[j]),
        decreases value.len() - i,
    {
        let b = value[i];
        if !(b == 9 || (32 <= b && b < 127)) {
            assert(!is_visible_header_byte(value@[i as int]));
            assert(!(forall|j: int|
                0 <= j < value@.len() ==> is_visible_header_byte(#[trigger] value@[j])));
            return false;
        }
        i = i + 1;
    }
    let expected = concat("Bearer ", token);
    let bytes = expected.as_str().as_bytes();
    constant_time_equal(value, bytes)
}

/// The settings a client sends in its first frame.
#[derive(Debug, Clone)]
pub struct ClientSettings {
    pub model: String,
    pub audio_format: String,
    pub sample_rate: u32,
    pub num_channels: u32,
    pub enable_endpoint_detection: bool,
    pub endpoint_mode: Option<String>,
}

/// The first rule the client settings break, if any, as (error type, message).
pub open spec fn settings_error(s: ClientSettings) -> Option<Seq<char>> {
    if s.model@.len() == 0 {
        Some("model は必須です"@)
    } else if s.audio_format@ != "pcm_s16le"@ {
        Some("audio_format は pcm_s16le のみ対応しています"@)
    } else if s.sample_rate != SAMPLE_RATE {
        Some("sample_rate は 16000 のみ対応しています"@)
    } else if s.num_channels != 1 {
        Some("num_channels は 1 のみ対応しています"@)
    } else if s.endpoint_mode matches Some(m) && m@ == "server"@ {
        Some(
            "このサーバーは終話判定を行いません。endpoint_mode=client を指定し、区切りは finalize で送ってください"@,
        )
    } else if s.endpoint_mode matches Some(m) && m@ != "client"@ {
        Some("endpoint_mode は client のみ対応しています"@)
    } else if !s.enable_endpoint_detection {
        Some("enable_endpoint_detection は true にしてください"@)
    } else {
        None
    }
}

/// Checks the client's settings. This server only accepts 16 kHz mono
/// 16-bit PCM, and utterances cut by the client (`endpoint_mode` client or
/// absent): it never decides by itself that speech ended, and accepting
/// `server` silently would leave the client waiting for an `<end>` that
/// never comes.
pub fn validate_client_settings(settings: &ClientSettings) -> (r: Result<(), SessionError>)
    ensures
        match settings_error(*settings) {
            None => r is Ok,
            Some(m) => r matches Err(SessionError::Protocol { code, error_type, message })
                && code == 400 && error_type@ == "invalid_config"@ && message@ == m,
        },
{
    if chars_of(settings.model.as_str()).len() == 0 {
        return Err(SessionError::protocol(400, "invalid_config", "model は必須です"));
    }
    if !str_eq(settings.audio_format.as_str(), "pcm_s16le") {
        return Err(
            SessionError::protocol(
                400,
                "invalid_config",
                "audio_format は pcm_s16le のみ対応しています",
            ),
        );
    }
    if settings.sample_rate != SAMPLE_RATE {
        return Err(
            SessionError::protocol(
                400,
                "invalid_config",
                "sample_rate は 16000 のみ対応しています",
            ),
        );
    }
    if settings.num_channels != 1 {
        return Err(
            SessionError::protocol(400, "invalid_config", "num_channels は 1 のみ対応しています"),
        );
    }
    match &settings.endpoint_mode {
        None => {},
        Some(mode) => {
            if str_eq(mode.as_str(), "server") {
                return Err(
                    SessionError::protocol(
                        400,
                        "invalid_config",
                        "このサーバーは終話判定を行いません。endpoint_mode=client を指定し、区切りは finalize で送ってください",
                    ),
                );
            }
            if !str_eq(mode.as_str(), "client") {
                return Err(
                    SessionError::protocol(
                        400,
                        "invalid_config",
                        "endpoint_mode は client のみ対応しています",
                    ),
                );
            }
        },
    }
    if !settings.enable_endpoint_detection {
        return Err(
            SessionError::protocol(
                400,
                "invalid_config",
                "enable_endpoint_detection は true にしてください",
            ),
        );
    }
    Ok(())
}

/// Name for what `serde_json` makes of a text message: `None` when it is not
/// JSON; otherwise the string value of its top-level `type` field, if any.
pub uninterp spec fn json_message_type(message: Seq<char>) -> Option<Option<Seq<char>>>;

pub open spec fn nested_option_view(o: Option<Option<String>>) -> Option<Option<Seq<char>>> {
    match o {
        None => None,
        Some(None) => Some(None),
        Some(Some(s)) => Some(Some(s@)),
    }
}

/// `serde_json::from_str::<serde_json::Value>` on a text message, then its
/// `type` field read as a string. The contract claims only that the result
/// is a function of the message text.
#[verifier::external_body]
fn message_type(message: &str) -> (r: Option<Option<String>>)
    ensures
        nested_option_view(r) == json_message_type(message@),
{
    match serde_json::from_str::<serde_json::Value>(message) {
        Ok(value) => Some(value.get("type").and_then(serde_json::Value::as_str).map(String::from)),
        Err(_) => None,
    }
}

#[derive(Debug, Clone, Copy, PartialEq, Eq, Structural)]
pub enum SessionState {
    Connecting,
    Ready,
    Streaming,
    Closing,
    Closed,
}

/// What to send, and whether to close.
pub struct SessionAction {
    pub responses: Vec<AsrResponse>,
    pub close_code: Option<u16>,
    /// Start decoding a snapshot of the held audio for a partial result, and
    /// hand its text to `partial_decoded`.
    pub decode_partial: bool,
}

/// What the connection must do after a message.
pub enum Step {
    Respond(SessionAction),
    /// The first frame arrived: read it as `ClientSettings` and pass the
    /// result (`None` when it is not valid settings JSON) to `configure`.
    ParseSettings,
    /// Decode the held utterance (`utterance_samples`) and pass the text to
    /// `finish_utterance`, or the failure to `fail_utterance`.
    Decode(Marker),
}

/// `samples` audio samples reach `ms` milliseconds.
pub open spec fn reaches(samples: nat, ms: nat) -> bool {
    samples * 1000 >= ms * (SAMPLE_RATE as nat)
}

/// Moves the next partial-result point past the held audio, in steps of `interval`.
pub open spec fn next_partial_after(samples: nat, next: nat, interval: nat) -> nat
    decreases (if samples * 1000 + 16000 >= next * 16000 {
        samples * 1000 + 16000 - next * 16000
    } else {
        0
    }),
{
    if interval > 0 && reaches(samples, next) {
        next_partial_after(samples, next + interval, interval)
    } else {
        next
    }
}

/// A session, by its content.
pub struct AsrSessionView {
    pub state: SessionState,
    pub configured: bool,
    pub max_utterance_ms: nat,
    pub partial_interval_ms: nat,
    pub pseudo_stream: bool,
    pub audio: Seq<i16>,
    pub next_partial_ms: nat,
    pub partial_in_flight: bool,
    pub decoding: Option<(Marker, bool)>,
    pub agreement: AgreementView,
    pub pending_byte: Option<u8>,
}

/// One WebSocket connection.
pub struct Session {
    pub state: SessionState,
    configured: bool,
    max_utterance_ms: u32,
    partial_interval_ms: u32,
    pseudo_stream: bool,
    audio: Vec<i16>,
    next_partial_ms: u64,
    partial_in_flight: bool,
    decoding: Option<(Marker, bool)>,
    agreement: Agreement,
    pcm_input: Pcm16Buffer,
}

impl View for Session {
    type V = AsrSessionView;

    closed spec fn view(&self) -> AsrSessionView {
        AsrSessionView {
            state: self.state,
            configured: self.configured,
            max_utterance_ms: self.max_utterance_ms as nat,
            partial_interval_ms: self.partial_interval_ms as nat,
            pseudo_stream: self.pseudo_stream,
            audio: self.audio@,
            next_partial_ms: self.next_partial_ms as nat,
            partial_in_flight: self.partial_in_flight,
            decoding: self.decoding,
            agreement: self.agreement@,
            pending_byte: self.pcm_input@,
        }
    }
}

/// The view after an utterance is done with: no audio, partial results
/// start over.
pub open spec fn cleared(v: AsrSessionView) -> AsrSessionView {
    AsrSessionView {
        audio: Seq::empty(),
        next_partial_ms: v.partial_interval_ms,
        partial_in_flight: false,
        decoding: None,
        agreement: AgreementView {
            tail_margin_chars: v.agreement.tail_margin_chars,
            previous: Seq::empty(),
            confirmed: Seq::empty(),
        },
        ..v
    }
}

/// What the connection does when the client ends the stream (an empty
/// frame): refuse a stream that stopped inside a sample, decode what is held,
/// or report `finished` and close normally.
pub open spec fn finish_connection_step(v: AsrSessionView) -> (AsrSessionView, Result<
    StepView,
    SessionErrorView,
>) {
    if v.pending_byte is Some {
        (
            v,
            Err(
                SessionErrorView::Protocol(
                    400,
                    "invalid_audio"@,
                    "PCM フレームが 16 bit 境界で終わっていません"@,
                ),
            ),
        )
    } else if v.audio.len() > 0 {
        (AsrSessionView { decoding: Some((Marker::End, true)), ..v }, Ok(StepView::Decode(Marker::End)))
    } else {
        (
            AsrSessionView { state: SessionState::Closing, ..v },
            Ok(StepView::Respond(seq![finished_frame()], Some(1000u16), false)),
        )
    }
}

/// What taking the text of an utterance's decode does: the utterance's final
/// response, then, when the client had ended the stream, `finished` and a
/// normal close; the session starts over. Gives the new view, the responses
/// and the close code.
pub open spec fn utterance_finished(v: AsrSessionView, text: Seq<char>) -> (
    AsrSessionView,
    Seq<ResponseView>,
    Option<u16>,
) {
    let (marker, closing) = v.decoding->0;
    if closing {
        (
            AsrSessionView { state: SessionState::Closing, ..cleared(v) },
            seq![marker_frame(marker, text), finished_frame()],
            Some(1000u16),
        )
    } else {
        (cleared(v), seq![marker_frame(marker, text)], None)
    }
}

/// What `finalize` does: decode the held utterance, or answer an empty one
/// at once.
pub open spec fn finalize_step(v: AsrSessionView) -> (AsrSessionView, Result<StepView, SessionErrorView>) {
    if v.audio.len() > 0 {
        (AsrSessionView { decoding: Some((Marker::Fin, false)), ..v }, Ok(StepView::Decode(Marker::Fin)))
    } else {
        (v, Ok(StepView::Respond(seq![marker_frame(Marker::Fin, Seq::empty())], None, false)))
    }
}

/// A step, by its content.
pub enum StepView {
    Respond(Seq<ResponseView>, Option<u16>, bool),
    ParseSettings,
    Decode(Marker),
}

/// An error, by its content.
pub enum SessionErrorView {
    Protocol(u32, Seq<char>, Seq<char>),
    Recognition(Seq<char>),
}

pub open spec fn error_view(e: SessionError) -> SessionErrorView {
    match e {
        SessionError::Protocol { code, error_type, message } => SessionErrorView::Protocol(
            code,
            error_type@,
            message@,
        ),
        SessionError::Recognition(m) => SessionErrorView::Recognition(m@),
    }
}

pub open spec fn step_view(s: Step) -> StepView {
    match s {
        Step::Respond(a) => StepView::Respond(
            responses_view(a.responses@),
            a.close_code,
            a.decode_partial,
        ),
        Step::ParseSettings => StepView::ParseSettings,
        Step::Decode(m) => StepView::Decode(m),
    }
}

pub open spec fn result_view(r: Result<Step, SessionError>) -> Result<StepView, SessionErrorView> {
    match r {
        Ok(s) => Ok(step_view(s)),
        Err(e) => Err(error_view(e)),
    }
}

/// What a text frame does.
pub open spec fn text_step(v: AsrSessionView, message: Seq<char>) -> (AsrSessionView, Result<
    StepView,
    SessionErrorView,
>) {
    if !v.configured {
        if message.len() == 0 {
            (
                v,
                Err(
                    SessionErrorView::Protocol(
                        400,
                        "invalid_config"@,
                        "最初のフレームは設定 JSON でなければなりません"@,
                    ),
                ),
            )
        } else {
            (v, Ok(StepView::ParseSettings))
        }
    } else if message.len() == 0 {
        finish_connection_step(v)
    } else if json_message_type(message) == Some(Some("finalize"@)) {
        finalize_step(v)
    } else {
        (v, Ok(StepView::Respond(Seq::empty(), None, false)))
    }
}

/// What a binary frame does: it carries PCM audio, which is held until the
/// client finalizes; an utterance that reaches the length limit is cut, and
/// with pseudo-streaming a partial decode is asked for at every interval of
/// audio (while none is running).
pub open spec fn binary_step(v: AsrSessionView, bytes: Seq<u8>) -> (AsrSessionView, Result<
    StepView,
    SessionErrorView,
>) {
    if !v.configured {
        (
            v,
            Err(
                SessionErrorView::Protocol(
                    400,
                    "invalid_config"@,
                    "設定 JSON を先に送信してください"@,
                ),
            ),
        )
    } else if bytes.len() == 0 {
        finish_connection_step(v)
    } else {
        let all = pending_seq(v.pending_byte) + bytes;
        let samples = pcm_samples(all);
        let state = if v.state == SessionState::Ready {
            SessionState::Streaming
        } else {
            v.state
        };
        let w = AsrSessionView { state, pending_byte: leftover(all), audio: v.audio + samples, ..v };
        if samples.len() == 0 {
            (w, Ok(StepView::Respond(Seq::empty(), None, false)))
        } else if reaches(w.audio.len(), w.max_utterance_ms) {
            (
                AsrSessionView { decoding: Some((Marker::MaxUtterance, false)), ..w },
                Ok(StepView::Decode(Marker::MaxUtterance)),
            )
        } else if w.pseudo_stream && reaches(w.audio.len(), w.next_partial_ms) {
            (
                AsrSessionView {
                    next_partial_ms: next_partial_after(
                        w.audio.len(),
                        w.next_partial_ms,
                        w.partial_interval_ms,
                    ),
                    partial_in_flight: true,
                    ..w
                },
                Ok(StepView::Respond(Seq::empty(), None, !w.partial_in_flight)),
            )
        } else {
            (w, Ok(StepView::Respond(Seq::empty(), None, false)))
        }
    }
}

fn empty_action() -> (r: SessionAction)
    ensures
        r.responses@.len() == 0,
        r.close_code is None,
        !r.decode_partial,
{
    SessionAction { responses: Vec::new(), close_code: None, decode_partial: false }
}

impl Session {
    /// Well-formed: the next partial-result point lies at most one interval
    /// past the held audio, and the interval is positive.
    pub closed spec fn wf(self) -> bool {
        &&& self.partial_interval_ms > 0
        &&& self.next_partial_ms as int * 16000 <= self.audio@.len() as int * 1000
            + self.partial_interval_ms as int * 16000
        &&& self.next_partial_ms >= 1
    }

    pub fn new(config: &Config) -> (r: Self)
        requires
            config.partial_interval_ms > 0,
        ensures
            r.wf(),
            r@ == (AsrSessionView {
                state: SessionState::Connecting,
                configured: false,
                max_utterance_ms: config.max_utterance_ms as nat,
                partial_interval_ms: config.partial_interval_ms as nat,
                pseudo_stream: config.pseudo_stream,
                audio: Seq::empty(),
                next_partial_ms: config.partial_interval_ms as nat,
                partial_in_flight: false,
                decoding: None,
                agreement: AgreementView {
                    tail_margin_chars: config.partial_tail_margin_chars as nat,
                    previous: Seq::empty(),
                    confirmed: Seq::empty(),
                },
                pending_byte: None,
            }),
    {
        Session {
            state: SessionState::Connecting,
            configured: false,
            max_utterance_ms: config.max_utterance_ms,
            partial_interval_ms: config.partial_interval_ms,
            pseudo_stream: config.pseudo_stream,
            audio: Vec::new(),
            next_partial_ms: config.partial_interval_ms as u64,
            partial_in_flight: false,
            decoding: None,
            agreement: Agreement::new(config.partial_tail_margin_chars),
            pcm_input: Pcm16Buffer::new(),
        }
    }

    /// The audio of the utterance in progress.
    pub fn utterance_samples(&self) -> (r: &[i16])
        ensures
            r@ == self@.audio,
    {
        self.audio.as_slice()
    }

    /// An utterance is in progress: audio is held.
    pub fn has_audio(&self) -> (r: bool)
        ensures
            r == (self@.audio.len() > 0),
    {
        self.audio.len() > 0
    }

    fn finish_connection(&mut self) -> (r: Result<Step, SessionError>)
        requires
            old(self).wf(),
        ensures
            final(self).wf(),
            (final(self)@, result_view(r)) == finish_connection_step(old(self)@),
    {
        if self.pcm_input.has_pending() {
            return Err(
                SessionError::protocol(
                    400,
                    "invalid_audio",
                    "PCM フレームが 16 bit 境界で終わっていません",
                ),
            );
        }
        if self.audio.len() > 0 {
            self.decoding = Some((Marker::End, true));
            return Ok(Step::Decode(Marker::End));
        }
        self.state = SessionState::Closing;
        let mut action = empty_action();
        action.responses.push(finished_response());
        action.close_code = Some(1000);
        assert(responses_view(action.responses@) =~= seq![finished_frame()]);
        Ok(Step::Respond(action))
    }

    fn finalize(&mut self) -> (r: Result<Step, SessionError>)
        requires
            old(self).wf(),
        ensures
            final(self).wf(),
            (final(self)@, result_view(r)) == finalize_step(old(self)@),
    {
        if self.audio.len() > 0 {
            self.decoding = Some((Marker::Fin, false));
            return Ok(Step::Decode(Marker::Fin));
        }
        let mut action = empty_action();
        action.responses.push(response_with_marker(Marker::Fin, ""));
        proof {
            reveal_strlit("");
        }
        assert(responses_view(action.responses@) =~= seq![marker_frame(Marker::Fin, Seq::empty())]);
        Ok(Step::Respond(action))
    }

    /// Handles a text frame.
    pub fn handle_text(&mut self, message: &str) -> (r: Result<Step, SessionError>)
        requires
            old(self).wf(),
        ensures
            final(self).wf(),
            (final(self)@, result_view(r)) == text_step(old(self)@, message@),
    {
        let empty = chars_of(message).len() == 0;
        if !self.configured {
            if empty {
                return Err(
                    SessionError::protocol(
                        400,
                        "invalid_config",
                        "最初のフレームは設定 JSON でなければなりません",
                    ),
                );
            }
            return Ok(Step::ParseSettings);
        }
        if empty {
            return self.finish_connection();
        }
        let is_finalize = match message_type(message) {
            Some(Some(t)) => str_eq(t.as_str(), "finalize"),
            _ => false,
        };
        if is_finalize {
            return self.finalize();
        }
        let action = empty_action();
        assert(responses_view(action.responses@) =~= Seq::<ResponseView>::empty());
        Ok(Step::Respond(action))
    }

    /// Takes the first frame read as settings (`None` when it was not valid
    /// settings JSON). Valid settings make the session ready for audio.
    pub fn configure(&mut self, settings: Option<ClientSettings>) -> (r: Result<(), SessionError>)
        requires
            old(self).wf(),
        ensures
            final(self).wf(),
            match settings {
                None => r matches Err(e) && error_view(e) == SessionErrorView::Protocol(
                    400,
                    "invalid_config"@,
                    "設定 JSON が不正です"@,
                ) && final(self)@ == old(self)@,
                Some(s) => match settings_error(s) {
                    Some(m) => r matches Err(e) && error_view(e) == SessionErrorView::Protocol(
                        400,
                        "invalid_config"@,
                        m,
                    ) && final(self)@ == old(self)@,
                    None => r is Ok && final(self)@ == (AsrSessionView {
                        configured: true,
                        state: SessionState::Ready,
                        ..old(self)@
                    }),
                },
            },
    {
        match settings {
            None => Err(SessionError::protocol(400, "invalid_config", "設定 JSON が不正です")),
            Some(s) => {
                match validate_client_settings(&s) {
                    Err(e) => Err(e),
                    Ok(()) => {
                        self.configured = true;
                        self.state = SessionState::Ready;
                        Ok(())
                    },
                }
            },
        }
    }

    /// Handles a binary frame.
    pub fn handle_binary(&mut self, bytes: &[u8]) -> (r: Result<Step, SessionError>)
        requires
            old(self).wf(),
        ensures
            final(self).wf(),
            (final(self)@, result_view(r)) == binary_step(old(self)@, bytes@),
    {
        if !self.configured {
            return Err(
                SessionError::protocol(400, "invalid_config", "設定 JSON を先に送信してください"),
            );
        }
        if bytes.len() == 0 {
            return self.finish_connection();
        }
        if self.state == SessionState::Ready {
            self.state = SessionState::Streaming;
        }
        let samples = self.pcm_input.feed(bytes);
        let ghost before = self.audio@;
        let ghost mid = self@;
        let mut i: usize = 0;
        while i < samples.len()
            invariant
                0 <= i <= samples@.len(),
                self.audio@ == before + samples@.take(i as int),
                self@ == (AsrSessionView { audio: self@.audio, ..mid }),
                self.wf(),
                before == mid.audio,
            decreases samples.len() - i,
        {
            self.audio.push(samples[i]);
            proof {
                assert(samples@.take(i + 1) == samples@.take(i as int).push(samples@[i as int]));
            }
            i = i + 1;
        }
        assert(samples@.take(samples@.len() as int) == samples@);
        let action = empty_action();
        assert(responses_view(action.responses@) =~= Seq::<ResponseView>::empty());
        if samples.len() == 0 {
            return Ok(Step::Respond(action));
        }
        let held = self.audio.len() as u128;
        if held * 1000 >= (self.max_utterance_ms as u128) * 16000 {
            self.decoding = Some((Marker::MaxUtterance, false));
            return Ok(Step::Decode(Marker::MaxUtterance));
        }
        let mut action = action;
        if self.pseudo_stream && held * 1000 >= (self.next_partial_ms as u128) * 16000 {
            let interval = self.partial_interval_ms as u64;
            let ghost n = self.audio@.len();
            let ghost mid2 = self@;
            while held * 1000 >= (self.next_partial_ms as u128) * 16000
                invariant
                    self@ == (AsrSessionView { next_partial_ms: self@.next_partial_ms, ..mid2 }),
                    self.next_partial_ms >= 1,
                    n == self.audio@.len(),
                    held == n,
                    n <= usize::MAX,
                    interval == self.partial_interval_ms,
                    interval > 0,
                    self.next_partial_ms as int * 16000 <= n as int * 1000 + interval as int * 16000,
                    next_partial_after(n, self.next_partial_ms as nat, interval as nat)
                        == next_partial_after(n, old(self).next_partial_ms as nat, interval as nat),
                decreases (if n * 1000 + 16000 >= self.next_partial_ms * 16000 {
                    n * 1000 + 16000 - self.next_partial_ms * 16000
                } else {
                    0
                }),
            {
                self.next_partial_ms = self.next_partial_ms + interval;
            }
            assert(next_partial_after(n, self.next_partial_ms as nat, interval as nat)
                == self.next_partial_ms);
            if !self.partial_in_flight {
                action.decode_partial = true;
            }
            self.partial_in_flight = true;
        }
        Ok(Step::Respond(action))
    }

    /// Takes the text of a partial decode. Returns the partial result to send,
    /// if the agreed text is not empty. A decode that was overtaken by the end
    /// of its utterance changes nothing.
    pub fn partial_decoded(&mut self, text: &str) -> (r: SessionAction)
        requires
            old(self).wf(),
        ensures
            final(self).wf(),
            r.close_code is None,
            !r.decode_partial,
            !old(self)@.partial_in_flight ==> final(self)@ == old(self)@ && r.responses@.len()
                == 0,
            old(self)@.partial_in_flight ==> {
                let a = observe_step(old(self)@.agreement, text@);
                &&& final(self)@ == (AsrSessionView {
                    partial_in_flight: false,
                    agreement: a,
                    ..old(self)@
                })
                &&& responses_view(r.responses@) == if a.confirmed.len() == 0 {
                    Seq::<ResponseView>::empty()
                } else {
                    seq![partial_frame(a.confirmed)]
                }
            },
    {
        let mut action = empty_action();
        if !self.partial_in_flight {
            return action;
        }
        self.partial_in_flight = false;
        let shown = self.agreement.observe(text);
        if chars_of(shown.as_str()).len() > 0 {
            action.responses.push(partial_response(shown.as_str()));
        }
        assert(responses_view(action.responses@) =~= if self.agreement@.confirmed.len() == 0 {
            Seq::<ResponseView>::empty()
        } else {
            seq![partial_frame(self.agreement@.confirmed)]
        });
        action
    }

    fn clear_utterance(&mut self)
        requires
            old(self).wf(),
        ensures
            final(self).wf(),
            final(self)@ == cleared(old(self)@),
    {
        self.audio = Vec::new();
        self.next_partial_ms = self.partial_interval_ms as u64;
        self.partial_in_flight = false;
        self.decoding = None;
        self.agreement.reset();
    }

    /// Takes the text of the utterance decode asked for by `Step::Decode`:
    /// answers with the utterance's final response and starts over; when the
    /// client had ended the stream, also reports `finished` and closes.
    pub fn finish_utterance(&mut self, text: &str) -> (r: SessionAction)
        requires
            old(self).wf(),
            old(self)@.decoding is Some,
        ensures
            final(self).wf(),
            !r.decode_partial,
            (final(self)@, responses_view(r.responses@), r.close_code) == utterance_finished(
                old(self)@,
                text@,
            ),
            ({
                let (marker, closing) = old(self)@.decoding->0;
                if closing {
                    &&& final(self)@ == (AsrSessionView {
                        state: SessionState::Closing,
                        ..cleared(old(self)@)
                    })
                    &&& responses_view(r.responses@) == seq![
                        marker_frame(marker, text@),
                        finished_frame(),
                    ]
                    &&& r.close_code == Some(1000u16)
                } else {
                    &&& final(self)@ == cleared(old(self)@)
                    &&& responses_view(r.responses@) == seq![marker_frame(marker, text@)]
                    &&& r.close_code is None
                }
            }),
    {
        let (marker, closing) = match self.decoding {
            Some(d) => d,
            None => (Marker::Fin, false),
        };
        self.clear_utterance();
        let mut action = empty_action();
        action.responses.push(response_with_marker(marker, text));
        if closing {
            action.responses.push(finished_response());
            self.state = SessionState::Closing;
            action.close_code = Some(1000);
            assert(responses_view(action.responses@) =~= seq![
                marker_frame(marker, text@),
                finished_frame(),
            ]);
        } else {
            assert(responses_view(action.responses@) =~= seq![marker_frame(marker, text@)]);
        }
        action
    }

    /// The decode asked for by `Step::Decode` failed: the utterance is
    /// dropped, and the connection ends with a recognition error.
    pub fn fail_utterance(&mut self, message: &str) -> (r: SessionError)
        requires
            old(self).wf(),
        ensures
            final(self).wf(),
            final(self)@ == cleared(old(self)@),
            error_view(r) == SessionErrorView::Recognition(message@),
    {
        self.clear_utterance();
        SessionError::Recognition(owned(message))
    }

    /// The connection is gone; any running decode is abandoned.
    pub fn shutdown(&mut self)
        requires
            old(self).wf(),
        ensures
            final(self).wf(),
            final(self)@ == (AsrSessionView {
                state: SessionState::Closed,
                partial_in_flight: false,
                ..old(self)@
            }),
    {
        self.partial_in_flight = false;
        self.state = SessionState::Closed;
    }
}

/// Audio is never dropped while an utterance lasts: a frame that neither
/// ends the stream nor is refused adds its samples to the held audio, in
/// order.
pub proof fn law_audio_is_kept_in_order(v: AsrSessionView, bytes: Seq<u8>)
    requires
        v.configured,
        bytes.len() > 0,
    ensures
        binary_step(v, bytes).0.audio == v.audio + pcm_samples(pending_seq(v.pending_byte) + bytes),
        binary_step(v, bytes).1 is Ok,
{
}

/// Every finalize is answered: with a decode when audio is held, else at
/// once with a response that carries the finalize marker.
pub proof fn law_every_finalize_is_answered(v: AsrSessionView)
    ensures
        finalize_step(v).1 == if v.audio.len() > 0 {
            Ok::<StepView, SessionErrorView>(StepView::Decode(Marker::Fin))
        } else {
            Ok(StepView::Respond(seq![marker_frame(Marker::Fin, Seq::empty())], None, false))
        },
{
}

/// Ending the stream on a sample boundary with no audio held answers exactly
/// one `finished` frame and closes normally.
pub proof fn law_empty_frame_finishes_and_closes(v: AsrSessionView)
    requires
        v.configured,
        v.pending_byte is None,
        v.audio.len() == 0,
    ensures
        binary_step(v, Seq::empty()).1 == Ok::<StepView, SessionErrorView>(
            StepView::Respond(seq![finished_frame()], Some(1000u16), false),
        ),
        binary_step(v, Seq::empty()).0.state == SessionState::Closing,
{
}

/// Before the settings arrive, no audio is accepted and nothing is held.
pub proof fn law_audio_needs_settings_first(v: AsrSessionView, bytes: Seq<u8>)
    requires
        !v.configured,
    ensures
        binary_step(v, bytes).1 is Err,
        binary_step(v, bytes).0 == v,
{
}

/// Ending the stream while audio is held decodes it, and the answer to that
/// decode is the utterance's text with the `<end>` marker, then `finished`,
/// and a normal close: the same end as a stream ended with no audio held.
pub proof fn law_end_of_stream_with_audio_finishes_after_the_decode(v: AsrSessionView, text: Seq<char>)
    requires
        v.configured,
        v.pending_byte is None,
        v.audio.len() > 0,
    ensures
        binary_step(v, Seq::empty()).1 == Ok::<StepView, SessionErrorView>(StepView::Decode(Marker::End)),
        utterance_finished(binary_step(v, Seq::empty()).0, text).1 == seq![
            marker_frame(Marker::End, text),
            finished_frame(),
        ],
        utterance_finished(binary_step(v, Seq::empty()).0, text).2 == Some(1000u16),
        utterance_finished(binary_step(v, Seq::empty()).0, text).0.state == SessionState::Closing,
        utterance_finished(binary_step(v, Seq::empty()).0, text).0.audio.len() == 0,
{
}

/// An utterance is cut at the length limit: a frame that brings the held
/// audio to `max_utterance_ms` (16 samples per millisecond) asks for a
/// decode with the length-limit marker, whatever else is going on; a frame
/// that stays below the limit asks for none.
pub proof fn law_the_length_limit_cuts_the_utterance(v: AsrSessionView, bytes: Seq<u8>)
    requires
        v.configured,
        bytes.len() > 0,
        pcm_samples(pending_seq(v.pending_byte) + bytes).len() > 0,
    ensures
        (v.audio.len() + pcm_samples(pending_seq(v.pending_byte) + bytes).len()) * 1000
            >= v.max_utterance_ms * 16000 ==> {
            &&& binary_step(v, bytes).1 == Ok::<StepView, SessionErrorView>(
                StepView::Decode(Marker::MaxUtterance),
            )
            &&& binary_step(v, bytes).0.decoding == Some((Marker::MaxUtterance, false))
            &&& binary_step(v, bytes).0.audio == v.audio + pcm_samples(
                pending_seq(v.pending_byte) + bytes,
            )
        },
        (v.audio.len() + pcm_samples(pending_seq(v.pending_byte) + bytes).len()) * 1000
            < v.max_utterance_ms * 16000 ==> !(binary_step(v, bytes).1 is Ok && binary_step(
            v,
            bytes,
        ).1->Ok_0 is Decode),
{
}

} // verus!
