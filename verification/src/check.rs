//! The connection check: connect, send a short silence probe, and judge the
//! server by the events that come back. The loop that waits for events and
//! prints the report lives with the program; every decision is made here.

use crate::config::strings_view;
use crate::connection::Readiness;
use crate::text::{chars_eq, chars_of, decimal, owned, push_chars, push_decimal, push_str, string_of};
use vstd::prelude::*;

verus! {

/// How long the check waits for the session to finish, in milliseconds.
pub const FINISHED_TIMEOUT_MS: u64 = 15000;

/// Frames of silence sent as the probe, each one VAD frame long.
pub const SILENCE_FRAMES: usize = 9;

/// Samples in one VAD frame (32 ms at 16 kHz).
pub const FRAME_SAMPLES: usize = 512;

/// The WebSocket close code a server uses to refuse a client.
pub const POLICY_VIOLATION_CLOSE_CODE: u16 = 1008;

/// Exit code of a check the server refused by policy.
pub const POLICY_REJECTION_EXIT_CODE: i32 = 6;

/// The kinds of events the check counts, in report order.
#[derive(Clone, Copy, PartialEq, Eq, Structural, Debug)]
pub enum EventKind {
    Connected,
    FinalText,
    PartialText,
    SpeechEndpoint,
    FinalizeDone,
    Finished,
    Notice,
    Failed,
}

/// The label of a kind in the report.
pub open spec fn kind_label(k: EventKind) -> Seq<char> {
    match k {
        EventKind::Connected => "Connected"@,
        EventKind::FinalText => "FinalText"@,
        EventKind::PartialText => "PartialText"@,
        EventKind::SpeechEndpoint => "SpeechEndpoint"@,
        EventKind::FinalizeDone => "FinalizeDone"@,
        EventKind::Finished => "Finished"@,
        EventKind::Notice => "Notice"@,
        EventKind::Failed => "Failed"@,
    }
}

/// The place of a kind in the report order.
pub open spec fn kind_index(k: EventKind) -> nat {
    match k {
        EventKind::Connected => 0,
        EventKind::FinalText => 1,
        EventKind::PartialText => 2,
        EventKind::SpeechEndpoint => 3,
        EventKind::FinalizeDone => 4,
        EventKind::Finished => 5,
        EventKind::Notice => 6,
        EventKind::Failed => 7,
    }
}

/// The kind at a place of the report order.
pub open spec fn kind_at(i: nat) -> EventKind {
    if i == 0 {
        EventKind::Connected
    } else if i == 1 {
        EventKind::FinalText
    } else if i == 2 {
        EventKind::PartialText
    } else if i == 3 {
        EventKind::SpeechEndpoint
    } else if i == 4 {
        EventKind::FinalizeDone
    } else if i == 5 {
        EventKind::Finished
    } else if i == 6 {
        EventKind::Notice
    } else {
        EventKind::Failed
    }
}

impl EventKind {
    pub fn label(self) -> (r: &'static str)
        ensures
            r@ == kind_label(self),
    {
        match self {
            EventKind::Connected => "Connected",
            EventKind::FinalText => "FinalText",
            EventKind::PartialText => "PartialText",
            EventKind::SpeechEndpoint => "SpeechEndpoint",
            EventKind::FinalizeDone => "FinalizeDone",
            EventKind::Finished => "Finished",
            EventKind::Notice => "Notice",
            EventKind::Failed => "Failed",
        }
    }

    fn index(self) -> (r: usize)
        ensures
            r == kind_index(self),
    {
        match self {
            EventKind::Connected => 0,
            EventKind::FinalText => 1,
            EventKind::PartialText => 2,
            EventKind::SpeechEndpoint => 3,
            EventKind::FinalizeDone => 4,
            EventKind::Finished => 5,
            EventKind::Notice => 6,
            EventKind::Failed => 7,
        }
    }

    fn at(i: usize) -> (r: EventKind)
        ensures
            r == kind_at(i as nat),
    {
        if i == 0 {
            EventKind::Connected
        } else if i == 1 {
            EventKind::FinalText
        } else if i == 2 {
            EventKind::PartialText
        } else if i == 3 {
            EventKind::SpeechEndpoint
        } else if i == 4 {
            EventKind::FinalizeDone
        } else if i == 5 {
            EventKind::Finished
        } else if i == 6 {
            EventKind::Notice
        } else {
            EventKind::Failed
        }
    }
}

/// Why a recognition session failed, as the session reports it.
pub enum AsrError {
    Connect(String),
    Io(String),
    Decode(String),
    ClosedEarly,
    Server { code: u32, error_type: String, request_id: Option<String> },
}

/// What a recognition session reports.
pub enum AsrEvent {
    Connected,
    /// Committed text (the tokens joined).
    FinalText(String),
    /// Tentative text (the tokens joined); it replaces the previous one.
    PartialText(String),
    /// The server decided that the utterance ended (`<end>`).
    Endpoint,
    /// The answer to `finalize` (`<fin>`).
    FinalizeDone,
    Finished,
    Closed { code: Option<u16>, reason: String },
    Notice { code: String, message: String },
    /// The backend the server names itself as.
    Backend(String),
    /// After how long without use the server lets the recognizer sleep, in
    /// milliseconds.
    WarmupAfter(u64),
    Failed(AsrError),
}

/// The kind under which an event is counted; a close is not counted.
pub open spec fn kind_of(e: AsrEvent) -> Option<EventKind> {
    match e {
        AsrEvent::Connected => Some(EventKind::Connected),
        AsrEvent::FinalText(_) => Some(EventKind::FinalText),
        AsrEvent::PartialText(_) => Some(EventKind::PartialText),
        AsrEvent::Endpoint => Some(EventKind::SpeechEndpoint),
        AsrEvent::FinalizeDone => Some(EventKind::FinalizeDone),
        AsrEvent::Finished => Some(EventKind::Finished),
        AsrEvent::Closed { .. } => None,
        AsrEvent::Notice { .. } | AsrEvent::Backend(_) | AsrEvent::WarmupAfter(_) => Some(
            EventKind::Notice,
        ),
        AsrEvent::Failed(_) => Some(EventKind::Failed),
    }
}

/// `s` with every non-overlapping occurrence of `pat`, leftmost first,
/// replaced by `rep`.
pub open spec fn replaced(s: Seq<char>, pat: Seq<char>, rep: Seq<char>) -> Seq<char>
    decreases s.len(),
{
    if pat.len() == 0 || s.len() < pat.len() {
        s
    } else if s.take(pat.len() as int) == pat {
        rep + replaced(s.skip(pat.len() as int), pat, rep)
    } else {
        seq![s[0]] + replaced(s.skip(1), pat, rep)
    }
}

/// `value` with the secret hidden; an empty secret hides nothing.
pub open spec fn redacted(value: Seq<char>, secret: Seq<char>) -> Seq<char> {
    if secret.len() == 0 {
        value
    } else {
        replaced(value, secret, "[redacted]"@)
    }
}

fn matches_at(s: &[char], i: usize, pat: &[char]) -> (r: bool)
    requires
        i + pat@.len() <= s@.len(),
    ensures
        r == (s@.subrange(i as int, i + pat@.len()) == pat@),
{
    let mut k: usize = 0;
    while k < pat.len()
        invariant
            i + pat@.len() <= s@.len(),
            s@.len() == s.len(),
            0 <= k <= pat@.len(),
            forall|j: int| 0 <= j < k ==> s@[i + j] == pat@[j],
        decreases pat.len() - k,
    {
        assert(i + k < s.len());
        if s[i + k] != pat[k] {
            assert(s@.subrange(i as int, i + pat@.len())[k as int] != pat@[k as int]);
            return false;
        }
        k = k + 1;
    }
    assert(s@.subrange(i as int, i + pat@.len()) =~= pat@);
    true
}

pub fn replace_all(s: &[char], pat: &[char], rep: &[char]) -> (r: Vec<char>)
    requires
        pat@.len() > 0,
    ensures
        r@ == replaced(s@, pat@, rep@),
{
    let mut out: Vec<char> = Vec::new();
    let mut i: usize = 0;
    assert(s@.skip(0) =~= s@);
    while i < s.len()
        invariant
            pat@.len() > 0,
            0 <= i <= s@.len(),
            out@ + replaced(s@.skip(i as int), pat@, rep@) == replaced(s@, pat@, rep@),
        decreases s.len() - i,
    {
        let ghost rest = s@.skip(i as int);
        if s.len() - i >= pat.len() && matches_at(s, i, pat) {
            assert(rest.take(pat@.len() as int) =~= s@.subrange(i as int, i + pat@.len()));
            assert(rest.skip(pat@.len() as int) =~= s@.skip(i + pat@.len()));
            let ghost before = out@;
            let mut k: usize = 0;
            while k < rep.len()
                invariant
                    0 <= k <= rep@.len(),
                    out@ == before + rep@.take(k as int),
                decreases rep.len() - k,
            {
                out.push(rep[k]);
                assert(rep@.take(k + 1) =~= rep@.take(k as int).push(rep@[k as int]));
                k = k + 1;
            }
            assert(rep@.take(rep@.len() as int) =~= rep@);
            assert(before + (rep@ + replaced(s@.skip(i + pat@.len()), pat@, rep@)) =~= (before
                + rep@) + replaced(s@.skip(i + pat@.len()), pat@, rep@));
            i = i + pat.len();
        } else {
            if s.len() - i >= pat.len() {
                assert(rest.take(pat@.len() as int) =~= s@.subrange(i as int, i + pat@.len()));
            }
            assert(rest.skip(1) =~= s@.skip(i + 1));
            assert(rest[0] == s@[i as int]);
            proof {
                if rest.len() < pat@.len() {
                    assert(s@.skip(i + 1).len() < pat@.len());
                    assert(rest =~= seq![s@[i as int]] + s@.skip(i + 1));
                }
            }
            let ghost before = out@;
            out.push(s[i]);
            assert(before + (seq![s@[i as int]] + replaced(s@.skip(i + 1), pat@, rep@)) =~= before.push(
                s@[i as int],
            ) + replaced(s@.skip(i + 1), pat@, rep@));
            i = i + 1;
        }
    }
    assert(s@.skip(i as int) =~= Seq::<char>::empty());
    assert(out@ + Seq::<char>::empty() =~= out@);
    out
}

/// `value` with every occurrence of a non-empty `secret` replaced by
/// `[redacted]`.
pub fn redact_secret(value: &str, secret: &str) -> (r: String)
    ensures
        r@ == redacted(value@, secret@),
{
    let s = chars_of(secret);
    if s.len() == 0 {
        return owned(value);
    }
    let v = chars_of(value);
    let rep = chars_of("[redacted]");
    let out = replace_all(v.as_slice(), s.as_slice(), rep.as_slice());
    string_of(out.as_slice())
}

/// The reason a failed session gives for a failed connection.
pub open spec fn error_reason(e: AsrError) -> Seq<char> {
    match e {
        AsrError::Connect(r) => r@,
        AsrError::Io(r) => r@,
        AsrError::Decode(r) => r@,
        AsrError::ClosedEarly => "connection closed by server before finished"@,
        AsrError::Server { .. } => "server error"@,
    }
}

pub fn connection_error_reason(error: &AsrError) -> (r: String)
    ensures
        r@ == error_reason(*error),
{
    match error {
        AsrError::Connect(reason) => reason.clone(),
        AsrError::Io(reason) => reason.clone(),
        AsrError::Decode(reason) => reason.clone(),
        AsrError::ClosedEarly => owned("connection closed by server before finished"),
        AsrError::Server { .. } => owned("server error"),
    }
}

/// The line reporting a connection refused by policy.
pub open spec fn policy_rejection_line(reason: Seq<char>) -> Seq<char> {
    if reason.len() == 0 {
        "NG: connection rejected by server (WebSocket close code 1008)"@
    } else {
        "NG: "@ + reason
    }
}

/// The line printed when the server closes the connection by policy.
pub fn print_policy_rejection(reason: &str) -> (r: String)
    ensures
        r@ == policy_rejection_line(reason@),
{
    if chars_of(reason).len() == 0 {
        owned("NG: connection rejected by server (WebSocket close code 1008)")
    } else {
        let mut line = owned("NG: ");
        push_str(&mut line, reason);
        line
    }
}

/// The lines reporting an error the server answered with.
pub open spec fn server_error_lines(
    error_type: Seq<char>,
    code: u32,
    request_id: Option<Seq<char>>,
    key: Seq<char>,
) -> Seq<Seq<char>> {
    seq![
        "NG: サーバーエラー "@ + redacted(error_type, key) + " ("@ + decimal(code as nat) + ")"@,
        "request_id: "@ + match request_id {
            Some(id) => redacted(id, key),
            None => "none"@,
        },
    ]
}

/// The lines printed when the server answers with an error.
pub fn print_server_error(error_type: &str, code: u32, request_id: Option<&str>, api_key: &str) -> (r:
    Vec<String>)
    ensures
        strings_view(r@) == server_error_lines(
            error_type@,
            code,
            match request_id {
                Some(id) => Some(id@),
                None => None,
            },
            api_key@,
        ),
{
    let mut first = owned("NG: サーバーエラー ");
    let t = redact_secret(error_type, api_key);
    push_str(&mut first, t.as_str());
    push_str(&mut first, " (");
    push_decimal(&mut first, code as u64);
    push_str(&mut first, ")");
    let mut second = owned("request_id: ");
    match request_id {
        Some(id) => {
            let red = redact_secret(id, api_key);
            push_str(&mut second, red.as_str());
        },
        None => push_str(&mut second, "none"),
    }
    let mut lines: Vec<String> = Vec::new();
    lines.push(first);
    lines.push(second);
    assert(strings_view(lines@) =~= seq![lines@[0]@, lines@[1]@]);
    lines
}

/// The lines reporting a check that ran out of time.
pub open spec fn timeout_lines(last_event: Option<EventKind>) -> Seq<Seq<char>> {
    seq![
        "NG: timeout waiting for finished"@,
        "last event: "@ + match last_event {
            Some(k) => kind_label(k),
            None => "none"@,
        },
    ]
}

/// The lines printed when no finish came in time.
pub fn print_timeout(last_event: Option<EventKind>) -> (r: Vec<String>)
    ensures
        strings_view(r@) == timeout_lines(last_event),
{
    let first = owned("NG: timeout waiting for finished");
    let mut second = owned("last event: ");
    match last_event {
        Some(k) => push_str(&mut second, k.label()),
        None => push_str(&mut second, "none"),
    }
    let mut lines: Vec<String> = Vec::new();
    lines.push(first);
    lines.push(second);
    assert(strings_view(lines@) =~= seq![lines@[0]@, lines@[1]@]);
    lines
}

/// The report entries of the first `n` kinds.
pub open spec fn count_entries(counts: Seq<u64>, n: nat) -> Seq<char>
    decreases n,
{
    if n == 0 {
        Seq::empty()
    } else {
        count_entries(counts, (n - 1) as nat) + " "@ + kind_label(kind_at((n - 1) as nat)) + "="@
            + decimal(counts[n - 1] as nat) + ","@
    }
}

/// How many events of each kind the check saw, in report order.
pub struct EventCounts {
    counts: Vec<u64>,
}

impl View for EventCounts {
    type V = Seq<u64>;

    closed spec fn view(&self) -> Seq<u64> {
        self.counts@
    }
}

/// The one-line summary of the counts.
pub open spec fn counts_text(counts: Seq<u64>) -> Seq<char> {
    "events:"@ + count_entries(counts, 8)
}

impl EventCounts {
    pub open spec fn wf(&self) -> bool {
        self@.len() == 8
    }

    /// Whether one more event of any kind can be counted.
    pub open spec fn has_room(&self) -> bool {
        forall|i: int| 0 <= i < self@.len() ==> self@[i] < u64::MAX
    }

    pub fn new() -> (r: Self)
        ensures
            r.wf(),
            forall|i: int| 0 <= i < 8 ==> r@[i] == 0,
    {
        let mut counts: Vec<u64> = Vec::new();
        let mut i: usize = 0;
        while i < 8
            invariant
                0 <= i <= 8,
                counts@.len() == i,
                forall|j: int| 0 <= j < i ==> counts@[j] == 0,
            decreases 8 - i,
        {
            counts.push(0);
            i = i + 1;
        }
        EventCounts { counts }
    }

    /// How many events of `kind` were counted.
    pub fn count(&self, kind: EventKind) -> (r: u64)
        requires
            self.wf(),
        ensures
            r == self@[kind_index(kind) as int],
    {
        self.counts[kind.index()]
    }

    /// Counts `event` and says under which kind; a close is not counted.
    pub fn record(&mut self, event: &AsrEvent) -> (r: Option<EventKind>)
        requires
            old(self).wf(),
            old(self).has_room(),
        ensures
            final(self).wf(),
            r == kind_of(*event),
            match r {
                Some(k) => final(self)@ == old(self)@.update(
                    kind_index(k) as int,
                    (old(self)@[kind_index(k) as int] + 1) as u64,
                ),
                None => final(self)@ == old(self)@,
            },
    {
        let kind = match event {
            AsrEvent::Connected => EventKind::Connected,
            AsrEvent::FinalText(_) => EventKind::FinalText,
            AsrEvent::PartialText(_) => EventKind::PartialText,
            AsrEvent::Endpoint => EventKind::SpeechEndpoint,
            AsrEvent::FinalizeDone => EventKind::FinalizeDone,
            AsrEvent::Finished => EventKind::Finished,
            AsrEvent::Closed { .. } => {
                return None;
            },
            AsrEvent::Notice { .. } | AsrEvent::Backend(_) | AsrEvent::WarmupAfter(_) => EventKind::Notice,
            AsrEvent::Failed(_) => EventKind::Failed,
        };
        let i = kind.index();
        let n = self.counts[i];
        self.counts.set(i, n + 1);
        Some(kind)
    }

    /// The summary line: `events:` then ` Label=count,` for each kind.
    pub fn to_text(&self) -> (r: String)
        requires
            self.wf(),
        ensures
            r@ == counts_text(self@),
    {
        let mut text = owned("events:");
        let mut i: usize = 0;
        while i < 8
            invariant
                self.wf(),
                0 <= i <= 8,
                text@ == "events:"@ + count_entries(self@, i as nat),
            decreases 8 - i,
        {
            let ghost before = text@;
            push_str(&mut text, " ");
            push_str(&mut text, EventKind::at(i).label());
            push_str(&mut text, "=");
            push_decimal(&mut text, self.counts[i]);
            push_str(&mut text, ",");
            assert(text@ =~= "events:"@ + count_entries(self@, (i + 1) as nat));
            i = i + 1;
        }
        text
    }
}

/// What the check does next.
pub enum CheckStep {
    /// Wait for the next event.
    Wait,
    /// Send the silence probe (`probe_commands`), and wait.
    SendProbe,
    /// Print the lines and exit with the code.
    Exit { code: i32, lines: Vec<String> },
}

/// What the check sends to the session.
pub enum ProbeCommand {
    /// PCM bytes.
    Audio(Vec<u8>),
    Finalize,
    Stop,
}

/// A command, by its content.
pub enum ProbeCommandView {
    Audio(Seq<u8>),
    Finalize,
    Stop,
}

impl View for ProbeCommand {
    type V = ProbeCommandView;

    open spec fn view(&self) -> ProbeCommandView {
        match self {
            ProbeCommand::Audio(bytes) => ProbeCommandView::Audio(bytes@),
            ProbeCommand::Finalize => ProbeCommandView::Finalize,
            ProbeCommand::Stop => ProbeCommandView::Stop,
        }
    }
}

/// The commands in their order, by their content.
pub open spec fn probe_commands_view(v: Seq<ProbeCommand>) -> Seq<ProbeCommandView> {
    v.map_values(|c: ProbeCommand| c@)
}

/// One frame of silence: `FRAME_SAMPLES` zero samples, two zero bytes each.
pub open spec fn silent_frame() -> Seq<u8> {
    Seq::new((FRAME_SAMPLES * 2) as nat, |i: int| 0u8)
}

/// The probe: `SILENCE_FRAMES` frames of silence, then a finalize, then a stop.
pub open spec fn spec_probe_commands() -> Seq<ProbeCommandView> {
    Seq::new(SILENCE_FRAMES as nat, |i: int| ProbeCommandView::Audio(silent_frame())).push(
        ProbeCommandView::Finalize,
    ).push(ProbeCommandView::Stop)
}

fn silent_frame_bytes() -> (r: Vec<u8>)
    ensures
        r@ == silent_frame(),
{
    let mut r: Vec<u8> = Vec::new();
    let mut i: usize = 0;
    while i < FRAME_SAMPLES * 2
        invariant
            0 <= i <= FRAME_SAMPLES * 2,
            r@.len() == i,
            forall|j: int| 0 <= j < i ==> r@[j] == 0u8,
        decreases FRAME_SAMPLES * 2 - i,
    {
        r.push(0);
        i = i + 1;
    }
    assert(r@ =~= silent_frame());
    r
}

/// What the check sends once the session is connected.
pub fn probe_commands() -> (r: Vec<ProbeCommand>)
    ensures
        probe_commands_view(r@) == spec_probe_commands(),
{
    let mut r: Vec<ProbeCommand> = Vec::new();
    let mut i: usize = 0;
    while i < SILENCE_FRAMES
        invariant
            0 <= i <= SILENCE_FRAMES,
            r@.len() == i,
            forall|k: int| 0 <= k < i ==> #[trigger] r@[k]@ == ProbeCommandView::Audio(silent_frame()),
        decreases SILENCE_FRAMES - i,
    {
        r.push(ProbeCommand::Audio(silent_frame_bytes()));
        i = i + 1;
    }
    r.push(ProbeCommand::Finalize);
    r.push(ProbeCommand::Stop);
    assert(probe_commands_view(r@) =~= spec_probe_commands());
    r
}

/// The view of a step: the lines of an exit by their text.
pub enum StepView {
    Wait,
    SendProbe,
    Exit { code: i32, lines: Seq<Seq<char>> },
}

impl View for CheckStep {
    type V = StepView;

    open spec fn view(&self) -> StepView {
        match self {
            CheckStep::Wait => StepView::Wait,
            CheckStep::SendProbe => StepView::SendProbe,
            CheckStep::Exit { code, lines } => StepView::Exit {
                code: *code,
                lines: strings_view(lines@),
            },
        }
    }
}

/// What the check has seen so far.
pub struct ProbeCheck {
    pub counts: EventCounts,
    pub last_event: Option<EventKind>,
    pub probe_sent: bool,
    pub probe_response_received: bool,
}

/// The abstract state of the check.
pub struct ProbeCheckView {
    pub counts: Seq<u64>,
    pub last_event: Option<EventKind>,
    pub probe_sent: bool,
    pub probe_response_received: bool,
}

impl View for ProbeCheck {
    type V = ProbeCheckView;

    open spec fn view(&self) -> ProbeCheckView {
        ProbeCheckView {
            counts: self.counts@,
            last_event: self.last_event,
            probe_sent: self.probe_sent,
            probe_response_received: self.probe_response_received,
        }
    }
}

/// Whether an event answers the probe.
pub open spec fn answers_probe(e: AsrEvent) -> bool {
    e is FinalText || e is PartialText || e is Endpoint || e is FinalizeDone
}

/// The state after an event is counted.
pub open spec fn counted(s: ProbeCheckView, e: AsrEvent) -> ProbeCheckView {
    match kind_of(e) {
        Some(k) => ProbeCheckView {
            counts: s.counts.update(kind_index(k) as int, (s.counts[kind_index(k) as int] + 1) as u64),
            last_event: Some(k),
            ..s
        },
        None => s,
    }
}

/// One step of the check: the next state and what to do, for an event.
pub open spec fn probe_step(s0: ProbeCheckView, e: AsrEvent, key: Seq<char>) -> (
    ProbeCheckView,
    StepView,
) {
    let s = counted(s0, e);
    if e is Connected && !s.probe_sent {
        (ProbeCheckView { probe_sent: true, ..s }, StepView::SendProbe)
    } else if answers_probe(e) && s.probe_sent {
        (ProbeCheckView { probe_response_received: true, ..s }, StepView::Wait)
    } else {
        match e {
            AsrEvent::Closed { code: Some(c), reason } if c == POLICY_VIOLATION_CLOSE_CODE => (
                s,
                StepView::Exit {
                    code: POLICY_REJECTION_EXIT_CODE,
                    lines: seq![policy_rejection_line(reason@)],
                },
            ),
            AsrEvent::Finished => if s.probe_sent && s.probe_response_received {
                (
                    s,
                    StepView::Exit {
                        code: 0,
                        lines: seq!["OK: connected, authenticated, finished"@, counts_text(s.counts)],
                    },
                )
            } else if s.probe_sent {
                (
                    s,
                    StepView::Exit {
                        code: 4,
                        lines: seq![
                            "NG: connect failed: connection closed before receiving a response"@,
                        ],
                    },
                )
            } else {
                (
                    s,
                    StepView::Exit {
                        code: 4,
                        lines: seq!["NG: connect failed: finished before connected"@],
                    },
                )
            },
            AsrEvent::Failed(AsrError::Server { code, error_type, request_id }) => (
                s,
                StepView::Exit {
                    code: 3,
                    lines: server_error_lines(
                        error_type@,
                        code,
                        match request_id {
                            Some(id) => Some(id@),
                            None => None,
                        },
                        key,
                    ),
                },
            ),
            AsrEvent::Failed(error) => (
                s,
                StepView::Exit {
                    code: 4,
                    lines: seq!["NG: connect failed: "@ + redacted(error_reason(error), key)],
                },
            ),
            _ => (s, StepView::Wait),
        }
    }
}

fn one_line(line: String) -> (r: Vec<String>)
    ensures
        strings_view(r@) == seq![line@],
{
    let mut lines: Vec<String> = Vec::new();
    lines.push(line);
    assert(strings_view(lines@) =~= seq![line@]);
    lines
}

impl ProbeCheck {
    pub open spec fn wf(&self) -> bool {
        self.counts.wf()
    }

    /// Whether one more event can be counted.
    pub open spec fn has_room(&self) -> bool {
        self.counts.has_room()
    }

    pub fn new() -> (r: Self)
        ensures
            r.wf(),
            forall|i: int| 0 <= i < 8 ==> r@.counts[i] == 0,
            r.last_event is None,
            !r.probe_sent,
            !r.probe_response_received,
    {
        ProbeCheck {
            counts: EventCounts::new(),
            last_event: None,
            probe_sent: false,
            probe_response_received: false,
        }
    }

    /// Takes in one event from the session; `api_key` is the secret hidden
    /// in whatever is printed.
    pub fn on_event(&mut self, event: &AsrEvent, api_key: &str) -> (r: CheckStep)
        requires
            old(self).wf(),
            old(self).has_room(),
        ensures
            final(self).wf(),
            (final(self)@, r@) == probe_step(old(self)@, *event, api_key@),
    {
        if let Some(kind) = self.counts.record(event) {
            self.last_event = Some(kind);
        }
        match event {
            AsrEvent::Connected => {
                if !self.probe_sent {
                    self.probe_sent = true;
                    return CheckStep::SendProbe;
                }
                return CheckStep::Wait;
            },
            AsrEvent::FinalText(_) | AsrEvent::PartialText(_) | AsrEvent::Endpoint
            | AsrEvent::FinalizeDone => {
                if self.probe_sent {
                    self.probe_response_received = true;
                }
                return CheckStep::Wait;
            },
            AsrEvent::Closed { code, reason } => {
                if let Some(c) = code {
                    if *c == POLICY_VIOLATION_CLOSE_CODE {
                        let line = print_policy_rejection(reason.as_str());
                        return CheckStep::Exit {
                            code: POLICY_REJECTION_EXIT_CODE,
                            lines: one_line(line),
                        };
                    }
                }
                return CheckStep::Wait;
            },
            AsrEvent::Finished => {
                if self.probe_sent && self.probe_response_received {
                    let mut lines: Vec<String> = Vec::new();
                    lines.push(owned("OK: connected, authenticated, finished"));
                    lines.push(self.counts.to_text());
                    assert(strings_view(lines@) =~= seq![lines@[0]@, lines@[1]@]);
                    return CheckStep::Exit { code: 0, lines };
                } else if self.probe_sent {
                    return CheckStep::Exit {
                        code: 4,
                        lines: one_line(
                            owned(
                                "NG: connect failed: connection closed before receiving a response",
                            ),
                        ),
                    };
                } else {
                    return CheckStep::Exit {
                        code: 4,
                        lines: one_line(owned("NG: connect failed: finished before connected")),
                    };
                }
            },
            AsrEvent::Failed(error) => {
                match error {
                    AsrError::Server { code, error_type, request_id } => {
                        let id: Option<&str> = match request_id {
                            Some(s) => Some(s.as_str()),
                            None => None,
                        };
                        let lines = print_server_error(error_type.as_str(), *code, id, api_key);
                        return CheckStep::Exit { code: 3, lines };
                    },
                    _ => {
                        let reason = connection_error_reason(error);
                        let mut line = owned("NG: connect failed: ");
                        let red = redact_secret(reason.as_str(), api_key);
                        push_str(&mut line, red.as_str());
                        return CheckStep::Exit { code: 4, lines: one_line(line) };
                    },
                }
            },
            _ => {
                return CheckStep::Wait;
            },
        }
    }

    /// No finish came before the deadline.
    pub fn on_timeout(&self) -> (r: CheckStep)
        ensures
            r@ == (StepView::Exit { code: 5, lines: timeout_lines(self.last_event) }),
    {
        CheckStep::Exit { code: 5, lines: print_timeout(self.last_event) }
    }
}

/// The session hung up without a finish.
pub fn on_disconnected() -> (r: CheckStep)
    ensures
        r@ == (StepView::Exit { code: 4, lines: seq!["NG: connect failed: event channel closed"@] }),
{
    CheckStep::Exit { code: 4, lines: one_line(owned("NG: connect failed: event channel closed")) }
}

/// The probe could not be handed to the session.
pub fn on_probe_failed(error: &str) -> (r: CheckStep)
    ensures
        r@ == (StepView::Exit { code: 4, lines: seq!["NG: connect failed: "@ + error@] }),
{
    let mut line = owned("NG: connect failed: ");
    push_str(&mut line, error);
    CheckStep::Exit { code: 4, lines: one_line(line) }
}

/// The check reports success only on a finish that comes after the probe was
/// sent and answered.
pub proof fn law_success_needs_an_answered_probe(s: ProbeCheckView, e: AsrEvent, key: Seq<char>)
    ensures
        ({
            let (t, step) = probe_step(s, e, key);
            (step matches StepView::Exit { code, .. } && code == 0) ==> (e is Finished
                && t.probe_sent && t.probe_response_received)
        }),
{
}

/// An answer that comes before the probe was sent is not taken as an answer
/// to it.
pub proof fn law_answers_before_the_probe_do_not_count(
    s: ProbeCheckView,
    e: AsrEvent,
    key: Seq<char>,
)
    requires
        !s.probe_sent,
        !s.probe_response_received,
    ensures
        !probe_step(s, e, key).0.probe_response_received,
{
}

/// A close by policy ends the check as a rejection, whatever came before.
pub proof fn law_policy_close_is_a_rejection(s: ProbeCheckView, reason: String, key: Seq<char>)
    ensures
        probe_step(s, AsrEvent::Closed { code: Some(POLICY_VIOLATION_CLOSE_CODE), reason }, key).1
            == (StepView::Exit {
            code: POLICY_REJECTION_EXIT_CODE,
            lines: seq![policy_rejection_line(reason@)],
        }),
{
}

/// A redacted text never shows a non-empty secret that it did not already
/// hold around a replacement: with no occurrence of the secret, nothing
/// changes.
pub proof fn law_redaction_keeps_text_without_the_secret(value: Seq<char>, secret: Seq<char>)
    requires
        forall|i: int| 0 <= i <= value.len() - secret.len() ==> #[trigger] value.subrange(
            i,
            i + secret.len(),
        ) != secret,
    ensures
        redacted(value, secret) == value,
    decreases value.len(),
{
    if secret.len() > 0 && value.len() >= secret.len() {
        assert(value.take(secret.len() as int) == value.subrange(0, secret.len() as int));
        assert(value.subrange(0, 0int + secret.len()) != secret);
        let rest = value.skip(1);
        assert forall|i: int| 0 <= i <= rest.len() - secret.len() implies #[trigger] rest.subrange(
            i,
            i + secret.len(),
        ) != secret by {
            assert(rest.subrange(i, i + secret.len()) =~= value.subrange(i + 1, i + 1 + secret.len()));
        }
        law_redaction_keeps_text_without_the_secret(rest, secret);
        assert(value =~= seq![value[0]] + rest);
    }
}

/// The exit code when the connection is not ready to be checked.
pub const NOT_READY_EXIT_CODE: i32 = 2;

/// The exit code when no connection could be opened.
pub const CONNECT_FAILED_EXIT_CODE: i32 = 4;

/// Before checking: a connection that is not ready is reported by its
/// message (exit code 2) and not tried.
pub fn not_ready_line(readiness: &Readiness) -> (r: Option<String>)
    ensures
        match readiness {
            Readiness::Ready => r is None,
            Readiness::NeedsLogin { message } | Readiness::NeedsSetup { message } => r matches Some(
                l,
            ) && l@ == "NG: "@ + message@,
        },
{
    match readiness {
        Readiness::Ready => None,
        Readiness::NeedsLogin { message } | Readiness::NeedsSetup { message } => {
            let mut line = owned("NG: ");
            push_str(&mut line, message.as_str());
            Some(line)
        },
    }
}

/// The line when no connection could be opened (exit code 4).
pub fn connect_failed_line(error: &str) -> (r: String)
    ensures
        r@ == "NG: connect failed: "@ + error@,
{
    let mut line = owned("NG: connect failed: ");
    push_str(&mut line, error);
    line
}

/// The key the session's settings carry: only when the endpoint sends no
/// headers of its own (which then carry it).
pub fn config_key(headers_empty: bool, api_key: Option<String>) -> (r: Option<String>)
    ensures
        r == (if headers_empty {
            api_key
        } else {
            None
        }),
{
    if headers_empty {
        api_key
    } else {
        None
    }
}

/// Every answer a server gives to the probe counts as one: once the probe
/// was sent, tentative or final text, a speech endpoint or the answer to
/// `finalize` marks it answered, and a finish after that is reported as
/// success (exit code 0, the OK line first).
pub proof fn law_every_answer_to_the_probe_counts(s: ProbeCheckView, e: AsrEvent, key: Seq<char>)
    requires
        s.probe_sent,
        s.counts.len() == 8,
        e is FinalText || e is PartialText || e is Endpoint || e is FinalizeDone,
    ensures
        probe_step(s, e, key).0.probe_response_received,
        probe_step(s, e, key).1 == StepView::Wait,
        probe_step(probe_step(s, e, key).0, AsrEvent::Finished, key).1 matches StepView::Exit {
            code,
            lines,
        } && code == 0 && lines.len() == 2 && lines[0] == "OK: connected, authenticated, finished"@,
{
}

/// A fresh check that connects, has its probe answered (by any answer) and
/// sees the session finish exits with code 0: first the probe is sent, the
/// answer is waited past, and the finish is reported as success.
pub proof fn law_an_answered_check_succeeds(e: AsrEvent, key: Seq<char>)
    requires
        e is FinalText || e is PartialText || e is Endpoint || e is FinalizeDone,
    ensures
        ({
            let s0 = ProbeCheckView {
                counts: Seq::new(8, |i: int| 0u64),
                last_event: None,
                probe_sent: false,
                probe_response_received: false,
            };
            let (s1, a1) = probe_step(s0, AsrEvent::Connected, key);
            let (s2, a2) = probe_step(s1, e, key);
            let (s3, a3) = probe_step(s2, AsrEvent::Finished, key);
            &&& a1 == StepView::SendProbe
            &&& a2 == StepView::Wait
            &&& a3 matches StepView::Exit { code, lines } && code == 0 && lines.len() == 2
                && lines[0] == "OK: connected, authenticated, finished"@
        }),
{
    let s0 = ProbeCheckView {
        counts: Seq::new(8, |i: int| 0u64),
        last_event: None,
        probe_sent: false,
        probe_response_received: false,
    };
    let s1 = probe_step(s0, AsrEvent::Connected, key).0;
    law_every_answer_to_the_probe_counts(s1, e, key);
}

} // verus!
