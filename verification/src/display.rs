//! What the overlay and the tray say: titles, summaries and how long texts are
//! cut and wrapped to fit.

use crate::controller::{LoginState, OverlayKind};
use crate::session::{spec_listening_enabled, SessionState};
use crate::text::{chars_of, owned, push_chars, push_str, string_of};
use vstd::prelude::*;

verus! {

/// Characters on one line of the transcript.
pub const TRANSCRIPT_LINE_LIMIT: usize = 26;

/// Characters the transcript shows at most, over its two lines.
pub const TRANSCRIPT_MAX_CHARS: usize = 52;

/// Characters on one line of an error.
pub const ERROR_LINE_LIMIT: usize = 34;

/// Lines an error takes at most.
pub const ERROR_MAX_LINES: usize = 3;

pub const WARMUP_TITLE: &'static str = "起動中";

pub const WARMUP_SUBTITLE: &'static str = "まだ話さないでください";

pub const WAITING_FOR_RESPONSE_TITLE: &'static str = "認識中";

pub const STARTING_SERVER_TITLE: &'static str = "サーバーを起動しています";

pub const STARTING_SERVER_SUBTITLE: &'static str = "しばらくお待ちください";

/// What the overlay shows.
#[derive(Clone, Copy, PartialEq, Eq, Structural, Debug)]
pub enum OverlayMode {
    Splash,
    Hidden,
    Shown(OverlayKind),
}

/// The actions of the tray menu.
#[derive(Debug, Clone, Copy, PartialEq, Eq, Structural)]
pub enum TrayAction {
    OpenSettings,
    Quit,
}

/// The status line of the overlay for each mode.
pub open spec fn status_text(mode: OverlayMode, auto_paste: bool) -> Seq<char> {
    match mode {
        OverlayMode::Shown(kind) => match kind {
            OverlayKind::Preparing => "準備しています"@,
            OverlayKind::WarmingUp => "起動中"@,
            OverlayKind::Connecting => "つないでいます"@,
            OverlayKind::Recognizing => "聞いています"@,
            OverlayKind::Finalizing => "文字にしています"@,
            OverlayKind::WaitingForResponse => "認識中"@,
            OverlayKind::StartingServer => "サーバーを起動しています"@,
            OverlayKind::Committed => if auto_paste {
                "貼り付けました"@
            } else {
                "コピーしました"@
            },
            OverlayKind::Notice => "お知らせ"@,
            OverlayKind::Error => "うまくいきませんでした"@,
            OverlayKind::LoginNeeded => "ログインが必要です"@,
        },
        _ => Seq::empty(),
    }
}

pub fn overlay_status_text(mode: OverlayMode, auto_paste: bool) -> (r: &'static str)
    ensures
        r@ == status_text(mode, auto_paste),
{
    proof {
        reveal_strlit("");
    }
    match mode {
        OverlayMode::Shown(kind) => match kind {
            OverlayKind::Preparing => "準備しています",
            OverlayKind::WarmingUp => WARMUP_TITLE,
            OverlayKind::Connecting => "つないでいます",
            OverlayKind::Recognizing => "聞いています",
            OverlayKind::Finalizing => "文字にしています",
            OverlayKind::WaitingForResponse => WAITING_FOR_RESPONSE_TITLE,
            OverlayKind::StartingServer => STARTING_SERVER_TITLE,
            OverlayKind::Committed => if auto_paste {
                "貼り付けました"
            } else {
                "コピーしました"
            },
            OverlayKind::Notice => "お知らせ",
            OverlayKind::Error => "うまくいきませんでした",
            OverlayKind::LoginNeeded => "ログインが必要です",
        },
        _ => "",
    }
}

/// A short name of each mode, for logs.
pub open spec fn summary(mode: OverlayMode) -> Seq<char> {
    match mode {
        OverlayMode::Hidden => "hidden"@,
        OverlayMode::Splash => "splash"@,
        OverlayMode::Shown(kind) => match kind {
            OverlayKind::Preparing => "preparing"@,
            OverlayKind::WarmingUp => "warming-up"@,
            OverlayKind::Connecting => "connecting"@,
            OverlayKind::Recognizing => "recognizing"@,
            OverlayKind::Finalizing => "finalizing"@,
            OverlayKind::WaitingForResponse => "waiting-for-response"@,
            OverlayKind::StartingServer => "starting-server"@,
            OverlayKind::Committed => "committed"@,
            OverlayKind::Notice => "notice"@,
            OverlayKind::Error => "error"@,
            OverlayKind::LoginNeeded => "login-needed"@,
        },
    }
}

pub fn overlay_summary(mode: OverlayMode) -> (r: &'static str)
    ensures
        r@ == summary(mode),
{
    match mode {
        OverlayMode::Hidden => "hidden",
        OverlayMode::Splash => "splash",
        OverlayMode::Shown(kind) => match kind {
            OverlayKind::Preparing => "preparing",
            OverlayKind::WarmingUp => "warming-up",
            OverlayKind::Connecting => "connecting",
            OverlayKind::Recognizing => "recognizing",
            OverlayKind::Finalizing => "finalizing",
            OverlayKind::WaitingForResponse => "waiting-for-response",
            OverlayKind::StartingServer => "starting-server",
            OverlayKind::Committed => "committed",
            OverlayKind::Notice => "notice",
            OverlayKind::Error => "error",
            OverlayKind::LoginNeeded => "login-needed",
        },
    }
}

/// The line under the splash, by where the login stands.
pub open spec fn splash_text(login: LoginState) -> Seq<char> {
    match login {
        LoginState::LoggedIn { .. } | LoginState::NotRequired => "話すと、カーソル位置に貼り付きます"@,
        LoginState::LoggedOut | LoginState::Failed { .. } => "クリックしてログインしてください"@,
        LoginState::InProgress => "ブラウザでログインを続けてください"@,
    }
}

pub fn splash_status(login_state: &LoginState) -> (r: &'static str)
    ensures
        r@ == splash_text(*login_state),
{
    match login_state {
        LoginState::LoggedIn { .. } | LoginState::NotRequired => "話すと、カーソル位置に貼り付きます",
        LoginState::LoggedOut | LoginState::Failed { .. } => "クリックしてログインしてください",
        LoginState::InProgress => "ブラウザでログインを続けてください",
    }
}

/// Whether the tray icon asks for attention: listening failed, the overlay
/// shows an error or asks for a login, or the login needs the user.
pub open spec fn spec_tray_needs_attention(
    session: SessionState,
    mode: OverlayMode,
    login: LoginState,
) -> bool {
    session is Failed || mode == OverlayMode::Shown(OverlayKind::Error) || mode
        == OverlayMode::Shown(OverlayKind::LoginNeeded) || login is LoggedOut || login is Failed
}

pub fn tray_needs_attention(session: SessionState, mode: OverlayMode, login: &LoginState) -> (r:
    bool)
    ensures
        r == spec_tray_needs_attention(session, mode, *login),
{
    session == SessionState::Failed || mode == OverlayMode::Shown(OverlayKind::Error) || mode
        == OverlayMode::Shown(OverlayKind::LoginNeeded) || crate::controller::login_needs_attention(
        login,
    )
}

/// The tray menu entry that turns listening on or off.
pub fn toggle_label(state: SessionState) -> (r: &'static str)
    ensures
        r@ == if spec_listening_enabled(state) {
            "待受を止める"@
        } else {
            "待受を始める"@
        },
{
    if !state.listening_enabled() {
        "待受を始める"
    } else {
        "待受を止める"
    }
}

/// The tray tooltip: the product name and whether it listens.
pub fn tooltip(state: SessionState) -> (r: String)
    ensures
        r@ == "Otoa Input ・ "@ + if spec_listening_enabled(state) {
            "待受中"@
        } else {
            "停止中"@
        },
{
    let mut r = owned("Otoa Input ・ ");
    if !state.listening_enabled() {
        push_str(&mut r, "停止中");
    } else {
        push_str(&mut r, "待受中");
    }
    r
}

/// The systems the interface picks a font for.
#[derive(Clone, Copy, PartialEq, Eq, Structural, Debug)]
pub enum TargetOs {
    MacOs,
    Windows,
    Other,
}

/// The font families of the interface, the best one that exists on the
/// system first.
pub open spec fn font_families(os: TargetOs) -> Seq<char> {
    match os {
        TargetOs::MacOs => "Hiragino Sans, Hiragino Kaku Gothic ProN, Noto Sans CJK JP, sans-serif"@,
        TargetOs::Windows => "Yu Gothic UI, Meiryo, Noto Sans CJK JP, sans-serif"@,
        TargetOs::Other => "Noto Sans CJK JP, Noto Sans JP, IPAexGothic, sans-serif"@,
    }
}

pub fn font_family(os: TargetOs) -> (r: &'static str)
    ensures
        r@ == font_families(os),
{
    match os {
        TargetOs::MacOs => "Hiragino Sans, Hiragino Kaku Gothic ProN, Noto Sans CJK JP, sans-serif",
        TargetOs::Windows => "Yu Gothic UI, Meiryo, Noto Sans CJK JP, sans-serif",
        TargetOs::Other => "Noto Sans CJK JP, Noto Sans JP, IPAexGothic, sans-serif",
    }
}

/// The last characters of a transcript that fit, led by `…` when some were
/// cut.
pub open spec fn transcript_tail(t: Seq<char>) -> Seq<char> {
    if t.len() > 52 {
        seq!['…'] + t.skip(t.len() - 51)
    } else {
        t
    }
}

/// A transcript as shown: its tail, broken after the first line's worth of
/// characters unless the first line already holds a line break.
pub open spec fn spec_display_text(t: Seq<char>) -> Seq<char> {
    let c = transcript_tail(t);
    if c.len() > 26 && !c.take(26).contains('\n') {
        c.take(26) + seq!['\n'] + c.skip(26)
    } else {
        c
    }
}

fn contains_newline(s: &[char], n: usize) -> (r: bool)
    requires
        n <= s@.len(),
    ensures
        r == s@.take(n as int).contains('\n'),
{
    let mut i: usize = 0;
    while i < n
        invariant
            n <= s@.len(),
            0 <= i <= n,
            forall|j: int| 0 <= j < i ==> s@[j] != '\n',
        decreases n - i,
    {
        if s[i] == '\n' {
            assert(s@.take(n as int)[i as int] == '\n');
            return true;
        }
        i = i + 1;
    }
    assert forall|j: int| 0 <= j < s@.take(n as int).len() implies s@.take(n as int)[j] != '\n' by {}
    false
}

fn copy_range(out: &mut Vec<char>, s: &[char], from: usize, to: usize)
    requires
        from <= to <= s@.len(),
    ensures
        final(out)@ == old(out)@ + s@.subrange(from as int, to as int),
{
    let ghost start = out@;
    let mut k: usize = from;
    while k < to
        invariant
            from <= k <= to <= s@.len(),
            out@ == start + s@.subrange(from as int, k as int),
        decreases to - k,
    {
        out.push(s[k]);
        assert(s@.subrange(from as int, k + 1) =~= s@.subrange(from as int, k as int).push(
            s@[k as int],
        ));
        k = k + 1;
    }
}

/// The transcript cut to its last two lines' worth of characters and broken
/// into two lines.
pub fn display_text(text: &str) -> (r: String)
    ensures
        r@ == spec_display_text(text@),
{
    let t = chars_of(text);
    let mut c: Vec<char> = Vec::new();
    if t.len() > TRANSCRIPT_MAX_CHARS {
        c.push('…');
        copy_range(&mut c, t.as_slice(), t.len() - 51, t.len());
        assert(c@ =~= seq!['…'] + t@.skip(t@.len() - 51));
    } else {
        copy_range(&mut c, t.as_slice(), 0, t.len());
        assert(c@ =~= t@);
    }
    let mut out: Vec<char> = Vec::new();
    if c.len() > TRANSCRIPT_LINE_LIMIT && !contains_newline(c.as_slice(), TRANSCRIPT_LINE_LIMIT) {
        copy_range(&mut out, c.as_slice(), 0, TRANSCRIPT_LINE_LIMIT);
        out.push('\n');
        copy_range(&mut out, c.as_slice(), TRANSCRIPT_LINE_LIMIT, c.len());
        assert(out@ =~= c@.take(26) + seq!['\n'] + c@.skip(26));
    } else {
        copy_range(&mut out, c.as_slice(), 0, c.len());
        assert(out@ =~= c@);
    }
    string_of(out.as_slice())
}

/// At most three error lines of 34 characters, joined by line breaks.
pub open spec fn error_lines(t: Seq<char>) -> Seq<char> {
    if t.len() <= 34 {
        t
    } else if t.len() <= 68 {
        t.take(34) + seq!['\n'] + t.skip(34)
    } else {
        t.take(34) + seq!['\n'] + t.subrange(34, 68) + seq!['\n'] + t.skip(68)
    }
}

/// An error as shown: its beginning, wrapped every 34 characters over at
/// most three lines, the last character replaced by `…` when the rest was
/// cut.
pub open spec fn spec_display_error(t: Seq<char>) -> Seq<char> {
    if t.len() > 102 {
        error_lines(t.take(101).push('…'))
    } else {
        error_lines(t)
    }
}

pub fn display_error(text: &str) -> (r: String)
    ensures
        r@ == spec_display_error(text@),
{
    let t = chars_of(text);
    let mut c: Vec<char> = Vec::new();
    if t.len() > ERROR_LINE_LIMIT * ERROR_MAX_LINES {
        copy_range(&mut c, t.as_slice(), 0, 101);
        c.push('…');
        assert(c@ =~= t@.take(101).push('…'));
    } else {
        copy_range(&mut c, t.as_slice(), 0, t.len());
        assert(c@ =~= t@);
    }
    let mut out: Vec<char> = Vec::new();
    if c.len() <= ERROR_LINE_LIMIT {
        copy_range(&mut out, c.as_slice(), 0, c.len());
        assert(out@ =~= c@);
    } else if c.len() <= 2 * ERROR_LINE_LIMIT {
        copy_range(&mut out, c.as_slice(), 0, 34);
        out.push('\n');
        copy_range(&mut out, c.as_slice(), 34, c.len());
        assert(out@ =~= c@.take(34) + seq!['\n'] + c@.skip(34));
    } else {
        copy_range(&mut out, c.as_slice(), 0, 34);
        out.push('\n');
        copy_range(&mut out, c.as_slice(), 34, 68);
        out.push('\n');
        copy_range(&mut out, c.as_slice(), 68, c.len());
        assert(out@ =~= c@.take(34) + seq!['\n'] + c@.subrange(34, 68) + seq!['\n'] + c@.skip(68));
    }
    string_of(out.as_slice())
}

/// Whether the overlay animates: while recognizing always; while warming,
/// connecting or waiting unless motion is reduced; and while it appears.
pub open spec fn spec_motion_needs_ticker(mode: OverlayMode, reduce_motion: bool, appearing: bool) -> bool {
    let moves = match mode {
        OverlayMode::Shown(OverlayKind::Recognizing) => true,
        OverlayMode::Shown(OverlayKind::WarmingUp)
        | OverlayMode::Shown(OverlayKind::Connecting)
        | OverlayMode::Shown(OverlayKind::Finalizing)
        | OverlayMode::Shown(OverlayKind::WaitingForResponse)
        | OverlayMode::Shown(OverlayKind::StartingServer) => !reduce_motion,
        _ => false,
    };
    moves || appearing
}

pub fn motion_needs_ticker(mode: OverlayMode, reduce_motion: bool, appearing: bool) -> (r: bool)
    ensures
        r == spec_motion_needs_ticker(mode, reduce_motion, appearing),
{
    let moves = match mode {
        OverlayMode::Shown(OverlayKind::Recognizing) => true,
        OverlayMode::Shown(OverlayKind::WarmingUp)
        | OverlayMode::Shown(OverlayKind::Connecting)
        | OverlayMode::Shown(OverlayKind::Finalizing)
        | OverlayMode::Shown(OverlayKind::WaitingForResponse)
        | OverlayMode::Shown(OverlayKind::StartingServer) => !reduce_motion,
        _ => false,
    };
    moves || appearing
}

/// The tray icon's look.
#[derive(Debug, Clone, Copy, PartialEq, Eq, Structural)]
pub enum TrayIcon {
    Attention,
    Stopped,
    Normal,
}

/// Attention first; otherwise stopped unless listening is on.
pub fn tray_icon(session: SessionState, attention: bool) -> (r: TrayIcon)
    ensures
        r == (if attention {
            TrayIcon::Attention
        } else if !spec_listening_enabled(session) {
            TrayIcon::Stopped
        } else {
            TrayIcon::Normal
        }),
{
    if attention {
        TrayIcon::Attention
    } else if !session.listening_enabled() {
        TrayIcon::Stopped
    } else {
        TrayIcon::Normal
    }
}

/// The login and logout entries of the tray menu: the login entry's text
/// and whether each can be chosen.
#[derive(Debug, Clone, Copy, PartialEq, Eq)]
pub struct LoginMenu {
    pub login_text: &'static str,
    pub login_enabled: bool,
    pub logout_enabled: bool,
}

/// Logged out or failed: log in. Logging in: wait. Logged in: log out. No
/// login needed: neither.
pub open spec fn spec_login_menu(state: LoginState) -> (Seq<char>, bool, bool) {
    match state {
        LoginState::LoggedOut | LoginState::Failed { .. } => ("ログイン"@, true, false),
        LoginState::InProgress => ("ログイン処理中…"@, false, false),
        LoginState::LoggedIn { .. } => ("ログイン"@, false, true),
        LoginState::NotRequired => ("ログイン"@, false, false),
    }
}

pub fn login_menu(state: &LoginState) -> (r: LoginMenu)
    ensures
        (r.login_text@, r.login_enabled, r.logout_enabled) == spec_login_menu(*state),
{
    match state {
        LoginState::LoggedOut | LoginState::Failed { .. } => LoginMenu {
            login_text: "ログイン",
            login_enabled: true,
            logout_enabled: false,
        },
        LoginState::InProgress => LoginMenu {
            login_text: "ログイン処理中…",
            login_enabled: false,
            logout_enabled: false,
        },
        LoginState::LoggedIn { .. } => LoginMenu {
            login_text: "ログイン",
            login_enabled: false,
            logout_enabled: true,
        },
        LoginState::NotRequired => LoginMenu {
            login_text: "ログイン",
            login_enabled: false,
            logout_enabled: false,
        },
    }
}

/// A run of the transcript in one style: committed, or still tentative.
#[derive(Debug, Clone, PartialEq, Eq)]
pub struct TextPiece {
    pub text: String,
    pub partial: bool,
}

impl View for TextPiece {
    type V = (Seq<char>, bool);

    open spec fn view(&self) -> (Seq<char>, bool) {
        (self.text@, self.partial)
    }
}

/// The pieces of a line by their content.
pub open spec fn pieces_view(v: Seq<TextPiece>) -> Seq<(Seq<char>, bool)> {
    v.map_values(|p: TextPiece| p@)
}

/// The lines of the transcript by their content.
pub open spec fn lines_view(v: Seq<Vec<TextPiece>>) -> Seq<Seq<(Seq<char>, bool)>> {
    v.map_values(|l: Vec<TextPiece>| pieces_view(l@))
}

/// Each character of the transcript marked with whether it is tentative:
/// the committed text, then the tentative text.
pub open spec fn tagged(committed: Seq<char>, partial: Seq<char>) -> Seq<(char, bool)> {
    committed.map_values(|c: char| (c, false)) + partial.map_values(|c: char| (c, true))
}

/// More than two lines' worth is cut to `…` and the last 51 characters.
pub open spec fn transcript_cut(s: Seq<(char, bool)>) -> Seq<(char, bool)> {
    if s.len() > 52 {
        seq![('…', false)] + s.skip(s.len() - 51)
    } else {
        s
    }
}

/// A line break somewhere among the first `n` characters.
pub open spec fn breaks_within(s: Seq<(char, bool)>, n: int) -> bool {
    exists|i: int| 0 <= i < n && i < s.len() && (#[trigger] s[i]).0 == '\n'
}

/// A first line longer than 26 characters is broken after the 26th.
pub open spec fn transcript_wrapped(s: Seq<(char, bool)>) -> Seq<(char, bool)> {
    if s.len() > 26 && !breaks_within(s, 26) {
        s.take(26) + seq![('\n', false)] + s.skip(26)
    } else {
        s
    }
}

/// Where the next line break at or after `from` stands, or the length.
pub open spec fn next_break(s: Seq<(char, bool)>, from: int) -> int
    decreases s.len() - from,
{
    if from >= s.len() {
        s.len() as int
    } else if s[from].0 == '\n' {
        from
    } else {
        next_break(s, from + 1)
    }
}

/// The text up to the first line break, and the text between it and the
/// next one when there is a break: at most two lines.
pub open spec fn two_lines(s: Seq<(char, bool)>) -> Seq<Seq<(char, bool)>> {
    let i = next_break(s, 0);
    if i >= s.len() {
        seq![s]
    } else {
        seq![s.subrange(0, i), s.subrange(i + 1, next_break(s, i + 1))]
    }
}

/// A line as its maximal runs of characters in one style.
pub open spec fn runs(line: Seq<(char, bool)>) -> Seq<(Seq<char>, bool)>
    decreases line.len(),
{
    if line.len() == 0 {
        Seq::empty()
    } else {
        let r = runs(line.drop_last());
        let c = line.last();
        if r.len() > 0 && r.last().1 == c.1 {
            r.update(r.len() - 1, (r.last().0.push(c.0), c.1))
        } else {
            r.push((seq![c.0], c.1))
        }
    }
}

/// The transcript as the overlay lays it out: cut to two lines' worth,
/// broken after 26 characters unless it already breaks there, at most two
/// lines, each as runs of committed and tentative text.
pub open spec fn spec_transcript_lines(committed: Seq<char>, partial: Seq<char>) -> Seq<
    Seq<(Seq<char>, bool)>,
> {
    two_lines(transcript_wrapped(transcript_cut(tagged(committed, partial)))).map_values(
        |l: Seq<(char, bool)>| runs(l),
    )
}

fn tag_chars(out: &mut Vec<(char, bool)>, text: &str, partial: bool)
    ensures
        final(out)@ == old(out)@ + text@.map_values(|c: char| (c, partial)),
{
    let cs = chars_of(text);
    let ghost start = out@;
    let mut i: usize = 0;
    while i < cs.len()
        invariant
            0 <= i <= cs@.len(),
            cs@ == text@,
            out@ == start + cs@.take(i as int).map_values(|c: char| (c, partial)),
        decreases cs.len() - i,
    {
        out.push((cs[i], partial));
        assert(cs@.take(i + 1).map_values(|c: char| (c, partial)) =~= cs@.take(i as int).map_values(
            |c: char| (c, partial),
        ).push((cs@[i as int], partial)));
        i = i + 1;
    }
    assert(cs@.take(i as int) =~= cs@);
}

fn copy_tagged(out: &mut Vec<(char, bool)>, s: &[(char, bool)], from: usize, to: usize)
    requires
        from <= to <= s@.len(),
    ensures
        final(out)@ == old(out)@ + s@.subrange(from as int, to as int),
{
    let ghost start = out@;
    let mut k: usize = from;
    while k < to
        invariant
            from <= k <= to <= s@.len(),
            out@ == start + s@.subrange(from as int, k as int),
        decreases to - k,
    {
        out.push(s[k]);
        assert(s@.subrange(from as int, k + 1) =~= s@.subrange(from as int, k as int).push(
            s@[k as int],
        ));
        k = k + 1;
    }
}

fn find_break(s: &[(char, bool)], from: usize) -> (r: usize)
    requires
        from <= s@.len(),
    ensures
        r == next_break(s@, from as int),
        from <= r <= s@.len(),
{
    let mut k: usize = from;
    while k < s.len()
        invariant
            from <= k <= s@.len(),
            next_break(s@, from as int) == next_break(s@, k as int),
        decreases s.len() - k,
    {
        if s[k].0 == '\n' {
            return k;
        }
        k = k + 1;
    }
    k
}

fn breaks_in_first(s: &[(char, bool)], n: usize) -> (r: bool)
    requires
        n <= s@.len(),
    ensures
        r == breaks_within(s@, n as int),
{
    let mut i: usize = 0;
    while i < n
        invariant
            n <= s@.len(),
            0 <= i <= n,
            forall|j: int| 0 <= j < i ==> s@[j].0 != '\n',
        decreases n - i,
    {
        if s[i].0 == '\n' {
            assert(s@[i as int].0 == '\n');
            return true;
        }
        i = i + 1;
    }
    false
}

fn line_runs(line: &[(char, bool)]) -> (r: Vec<TextPiece>)
    ensures
        pieces_view(r@) == runs(line@),
{
    let mut pieces: Vec<TextPiece> = Vec::new();
    let mut cur: Vec<char> = Vec::new();
    let mut cur_partial: bool = false;
    let mut k: usize = 0;
    assert(line@.take(0) =~= Seq::<(char, bool)>::empty());
    while k < line.len()
        invariant
            0 <= k <= line@.len(),
            k == 0 ==> pieces@.len() == 0,
            k > 0 ==> runs(line@.take(k as int)) == pieces_view(pieces@).push((cur@, cur_partial)),
        decreases line.len() - k,
    {
        let (c, p) = line[k];
        let ghost t = line@.take(k + 1);
        assert(t.drop_last() =~= line@.take(k as int));
        assert(t.last() == (c, p));
        assert(runs(t.drop_last()) == runs(line@.take(k as int)));
        if k > 0 && p == cur_partial {
            let ghost r = pieces_view(pieces@).push((cur@, cur_partial));
            cur.push(c);
            assert(r.update(r.len() - 1, (r.last().0.push(c), p)) =~= pieces_view(pieces@).push(
                (cur@, cur_partial),
            ));
            assert(runs(t) == pieces_view(pieces@).push((cur@, cur_partial)));
        } else {
            if k > 0 {
                let piece = TextPiece { text: string_of(cur.as_slice()), partial: cur_partial };
                let ghost before = pieces_view(pieces@);
                pieces.push(piece);
                assert(pieces_view(pieces@) =~= before.push((piece.text@, piece.partial)));
            }
            cur = Vec::new();
            cur.push(c);
            cur_partial = p;
            assert(cur@ =~= seq![c]);
            assert(runs(t) == pieces_view(pieces@).push((cur@, cur_partial)));
        }
        k = k + 1;
    }
    assert(line@.take(k as int) =~= line@);
    if k > 0 {
        let piece = TextPiece { text: string_of(cur.as_slice()), partial: cur_partial };
        let ghost before = pieces_view(pieces@);
        pieces.push(piece);
        assert(pieces_view(pieces@) =~= before.push((piece.text@, piece.partial)));
    } else {
        assert(pieces_view(pieces@) =~= Seq::<(Seq<char>, bool)>::empty());
    }
    pieces
}

/// The transcript's characters, cut and wrapped (see `transcript_wrapped`).
fn wrapped_chars(committed: &str, partial: &str) -> (r: Vec<(char, bool)>)
    ensures
        r@ == transcript_wrapped(transcript_cut(tagged(committed@, partial@))),
{
    let mut all: Vec<(char, bool)> = Vec::new();
    tag_chars(&mut all, committed, false);
    tag_chars(&mut all, partial, true);
    assert(all@ =~= tagged(committed@, partial@));
    let mut cut: Vec<(char, bool)> = Vec::new();
    if all.len() > TRANSCRIPT_MAX_CHARS {
        cut.push(('…', false));
        copy_tagged(&mut cut, all.as_slice(), all.len() - 51, all.len());
        assert(cut@ =~= seq![('…', false)] + all@.skip(all@.len() - 51));
    } else {
        copy_tagged(&mut cut, all.as_slice(), 0, all.len());
        assert(cut@ =~= all@);
    }
    let mut s: Vec<(char, bool)> = Vec::new();
    if cut.len() > TRANSCRIPT_LINE_LIMIT && !breaks_in_first(cut.as_slice(), TRANSCRIPT_LINE_LIMIT) {
        copy_tagged(&mut s, cut.as_slice(), 0, TRANSCRIPT_LINE_LIMIT);
        s.push(('\n', false));
        copy_tagged(&mut s, cut.as_slice(), TRANSCRIPT_LINE_LIMIT, cut.len());
        assert(s@ =~= cut@.take(26) + seq![('\n', false)] + cut@.skip(26));
    } else {
        copy_tagged(&mut s, cut.as_slice(), 0, cut.len());
        assert(s@ =~= cut@);
    }
    s
}

/// At most two lines, each as runs (see `two_lines`).
fn split_lines(s: &[(char, bool)]) -> (r: Vec<Vec<TextPiece>>)
    ensures
        lines_view(r@) == two_lines(s@).map_values(|l: Seq<(char, bool)>| runs(l)),
{
    let i = find_break(s, 0);
    let mut first: Vec<(char, bool)> = Vec::new();
    copy_tagged(&mut first, s, 0, i);
    let mut lines: Vec<Vec<TextPiece>> = Vec::new();
    lines.push(line_runs(first.as_slice()));
    if i < s.len() {
        let j = find_break(s, i + 1);
        let mut second: Vec<(char, bool)> = Vec::new();
        copy_tagged(&mut second, s, i + 1, j);
        lines.push(line_runs(second.as_slice()));
        assert(lines_view(lines@) =~= two_lines(s@).map_values(|l: Seq<(char, bool)>| runs(l)));
    } else {
        assert(s@.subrange(0, i as int) =~= s@);
        assert(lines_view(lines@) =~= two_lines(s@).map_values(|l: Seq<(char, bool)>| runs(l)));
    }
    lines
}

/// The transcript as the overlay lays it out (see `spec_transcript_lines`).
pub fn transcript_lines(committed: &str, partial: &str) -> (r: Vec<Vec<TextPiece>>)
    ensures
        lines_view(r@) == spec_transcript_lines(committed@, partial@),
{
    let s = wrapped_chars(committed, partial);
    split_lines(s.as_slice())
}

/// Whether the transcript takes two lines.
pub fn has_two_transcript_lines(committed: &str, partial: &str) -> (r: bool)
    ensures
        r == (spec_transcript_lines(committed@, partial@).len() > 1),
{
    let lines = transcript_lines(committed, partial);
    lines.len() > 1
}

/// The characters of runs, one run after the other.
pub open spec fn run_chars(r: Seq<(Seq<char>, bool)>) -> Seq<char>
    decreases r.len(),
{
    if r.len() == 0 {
        Seq::empty()
    } else {
        run_chars(r.drop_last()) + r.last().0
    }
}

/// Grouping a line into runs loses and reorders no character, leaves no run
/// empty, and never puts two runs of one style side by side.
pub proof fn law_runs_keep_every_character(line: Seq<(char, bool)>)
    ensures
        run_chars(runs(line)) == line.map_values(|x: (char, bool)| x.0),
        forall|i: int| 0 <= i < runs(line).len() ==> (#[trigger] runs(line)[i]).0.len() > 0,
        forall|i: int| 0 <= i < runs(line).len() - 1 ==> (#[trigger] runs(line)[i]).1 != runs(line)[i + 1].1,
    decreases line.len(),
{
    if line.len() == 0 {
        assert(line.map_values(|x: (char, bool)| x.0) =~= Seq::<char>::empty());
    } else {
        let d = line.drop_last();
        law_runs_keep_every_character(d);
        let r = runs(d);
        let c = line.last();
        assert(line.map_values(|x: (char, bool)| x.0) =~= d.map_values(|x: (char, bool)| x.0).push(c.0));
        if r.len() > 0 && r.last().1 == c.1 {
            let u = r.update(r.len() - 1, (r.last().0.push(c.0), c.1));
            assert(u.drop_last() =~= r.drop_last());
            assert(run_chars(u) =~= run_chars(r).push(c.0));
        } else {
            let u = r.push((seq![c.0], c.1));
            assert(u.drop_last() =~= r);
            assert(run_chars(u) =~= run_chars(r).push(c.0));
        }
    }
}

/// A shown transcript never holds more than its two lines' worth of
/// characters and one line break, and ends as what was said ends.
pub proof fn law_display_text_keeps_the_end(t: Seq<char>)
    ensures
        spec_display_text(t).len() <= 53,
        t.len() > 0 ==> spec_display_text(t).last() == t.last(),
{
}

/// A shown error starts as the error starts, holds at most three lines'
/// worth of it and two line breaks, and is the error itself when it fits on
/// one line.
pub proof fn law_display_error_keeps_the_beginning(t: Seq<char>)
    ensures
        t.len() <= 34 ==> spec_display_error(t) == t,
        t.len() > 0 ==> spec_display_error(t)[0] == t[0],
        spec_display_error(t).len() <= 104,
{
}

} // verus!
