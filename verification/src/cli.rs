//! How the program is started: the mode its arguments choose, the preview
//! scenarios, the recognition models it fetches, and what it says when the
//! bundled server cannot start.

use crate::check::{replace_all, replaced};
use crate::config::strings_view;
use crate::controller::{blank_overlay, shown, LevelStatus, LoginState, OverlayKind, OverlayView};
use crate::text::{chars_eq, chars_have_prefix, chars_of, decimal, decimal_string, has_prefix, owned, push_char, push_chars, push_str, string_of};
use vstd::prelude::*;

verus! {

/// `args` without any `--serve`.
pub open spec fn without_serve(args: Seq<Seq<char>>) -> Seq<Seq<char>>
    decreases args.len(),
{
    if args.len() == 0 {
        Seq::empty()
    } else if args.last() == "--serve"@ {
        without_serve(args.drop_last())
    } else {
        without_serve(args.drop_last()).push(args.last())
    }
}

/// Whether `a` is among `args`.
pub open spec fn has_arg(args: Seq<Seq<char>>, a: Seq<char>) -> bool {
    exists|i: int| 0 <= i < args.len() && args[i] == a
}

fn any_arg(args: &[String], a: &str) -> (r: bool)
    ensures
        r == has_arg(strings_view(args@), a@),
{
    let ca = chars_of(a);
    let mut i: usize = 0;
    while i < args.len()
        invariant
            0 <= i <= args@.len(),
            ca@ == a@,
            forall|j: int| 0 <= j < i ==> strings_view(args@)[j] != a@,
        decreases args.len() - i,
    {
        let cs = chars_of(args[i].as_str());
        if chars_eq(cs.as_slice(), ca.as_slice()) {
            assert(strings_view(args@)[i as int] == a@);
            return true;
        }
        i = i + 1;
    }
    false
}

/// With `--serve` among the arguments, the others, to hand to the server;
/// otherwise `None`.
pub fn server_arguments(arguments: &[String]) -> (r: Option<Vec<String>>)
    ensures
        has_arg(strings_view(arguments@), "--serve"@) ==> (r matches Some(v) && strings_view(v@)
            == without_serve(strings_view(arguments@))),
        !has_arg(strings_view(arguments@), "--serve"@) ==> r is None,
{
    if !any_arg(arguments, "--serve") {
        return None;
    }
    let serve = chars_of("--serve");
    let mut out: Vec<String> = Vec::new();
    let mut i: usize = 0;
    while i < arguments.len()
        invariant
            0 <= i <= arguments@.len(),
            serve@ == "--serve"@,
            strings_view(out@) == without_serve(strings_view(arguments@).take(i as int)),
        decreases arguments.len() - i,
    {
        let cs = chars_of(arguments[i].as_str());
        let ghost prefix = strings_view(arguments@).take(i + 1);
        assert(prefix.drop_last() =~= strings_view(arguments@).take(i as int));
        assert(prefix.last() == arguments@[i as int]@);
        if !chars_eq(cs.as_slice(), serve.as_slice()) {
            out.push(arguments[i].clone());
            assert(strings_view(out@) =~= without_serve(strings_view(arguments@).take(i as int)).push(
                arguments@[i as int]@,
            ));
        }
        i = i + 1;
    }
    assert(strings_view(arguments@).take(arguments@.len() as int) =~= strings_view(arguments@));
    Some(out)
}

/// The overlay states that can be previewed without audio or a connection.
#[derive(Clone, Copy, Debug, PartialEq, Eq, Structural)]
pub enum PreviewScenario {
    Splash,
    WarmingUp,
    Connecting,
    Listening,
    Finalizing,
    Committed,
    Error,
    Login,
    Settings,
}

/// The scenario a preview argument names.
pub open spec fn scenario_named(value: Seq<char>) -> Option<PreviewScenario> {
    if value == "splash"@ {
        Some(PreviewScenario::Splash)
    } else if value == "warming-up"@ {
        Some(PreviewScenario::WarmingUp)
    } else if value == "connecting"@ {
        Some(PreviewScenario::Connecting)
    } else if value == "listening"@ {
        Some(PreviewScenario::Listening)
    } else if value == "finalizing"@ {
        Some(PreviewScenario::Finalizing)
    } else if value == "committed"@ {
        Some(PreviewScenario::Committed)
    } else if value == "error"@ {
        Some(PreviewScenario::Error)
    } else if value == "login"@ {
        Some(PreviewScenario::Login)
    } else {
        None
    }
}

impl PreviewScenario {
    pub fn parse(value: &str) -> (r: Option<PreviewScenario>)
        ensures
            r == scenario_named(value@),
    {
        let v = chars_of(value);
        let s = v.as_slice();
        if chars_eq(s, chars_of("splash").as_slice()) {
            Some(PreviewScenario::Splash)
        } else if chars_eq(s, chars_of("warming-up").as_slice()) {
            Some(PreviewScenario::WarmingUp)
        } else if chars_eq(s, chars_of("connecting").as_slice()) {
            Some(PreviewScenario::Connecting)
        } else if chars_eq(s, chars_of("listening").as_slice()) {
            Some(PreviewScenario::Listening)
        } else if chars_eq(s, chars_of("finalizing").as_slice()) {
            Some(PreviewScenario::Finalizing)
        } else if chars_eq(s, chars_of("committed").as_slice()) {
            Some(PreviewScenario::Committed)
        } else if chars_eq(s, chars_of("error").as_slice()) {
            Some(PreviewScenario::Error)
        } else if chars_eq(s, chars_of("login").as_slice()) {
            Some(PreviewScenario::Login)
        } else {
            None
        }
    }
}

/// An overlay of `kind` with no text, as a preview shows it.
pub fn preview_overlay(kind: OverlayKind) -> (r: OverlayView)
    ensures
        r@ == shown(kind, Seq::empty(), Seq::empty(), Seq::empty()),
{
    blank_overlay(kind)
}

/// What a preview sends to the interface on each tick.
pub struct PreviewUpdate {
    pub overlay: OverlayView,
    pub login_state: LoginState,
    pub peak: i16,
    pub status: LevelStatus,
}

/// The overlay kind each scenario previews (the splash and the settings
/// preview show none).
pub open spec fn preview_kind(s: PreviewScenario) -> Option<OverlayKind> {
    match s {
        PreviewScenario::WarmingUp => Some(OverlayKind::WarmingUp),
        PreviewScenario::Connecting => Some(OverlayKind::Connecting),
        PreviewScenario::Listening => Some(OverlayKind::Recognizing),
        PreviewScenario::Finalizing => Some(OverlayKind::Finalizing),
        PreviewScenario::Committed => Some(OverlayKind::Committed),
        PreviewScenario::Error => Some(OverlayKind::Error),
        PreviewScenario::Login => Some(OverlayKind::LoginNeeded),
        _ => None,
    }
}

/// The preview of a scenario: its overlay; logged out for the login preview
/// and logged in as a placeholder address otherwise; a level meter at half
/// scale while listening and at rest otherwise.
pub fn preview_update(scenario: PreviewScenario) -> (r: PreviewUpdate)
    ensures
        scenario is Splash ==> r.overlay@ is Splash,
        scenario is Settings ==> r.overlay@ is Hidden,
        preview_kind(scenario) matches Some(k) ==> r.overlay@ == shown(
            k,
            Seq::empty(),
            Seq::empty(),
            Seq::empty(),
        ),
        scenario is Login ==> r.login_state is LoggedOut,
        !(scenario is Login) ==> (r.login_state matches LoginState::LoggedIn { email } && email@
            == "preview@example.invalid"@),
        r.peak == (if scenario is Listening {
            16383i16
        } else {
            0i16
        }),
        r.status == LevelStatus::Normal,
{
    let overlay = match scenario {
        PreviewScenario::Splash => OverlayView::Splash,
        PreviewScenario::Settings => OverlayView::Hidden,
        PreviewScenario::WarmingUp => preview_overlay(OverlayKind::WarmingUp),
        PreviewScenario::Connecting => preview_overlay(OverlayKind::Connecting),
        PreviewScenario::Listening => preview_overlay(OverlayKind::Recognizing),
        PreviewScenario::Finalizing => preview_overlay(OverlayKind::Finalizing),
        PreviewScenario::Committed => preview_overlay(OverlayKind::Committed),
        PreviewScenario::Error => preview_overlay(OverlayKind::Error),
        PreviewScenario::Login => preview_overlay(OverlayKind::LoginNeeded),
    };
    let login_state = if scenario == PreviewScenario::Login {
        LoginState::LoggedOut
    } else {
        LoginState::LoggedIn { email: owned("preview@example.invalid") }
    };
    let peak: i16 = if scenario == PreviewScenario::Listening {
        16383
    } else {
        0
    };
    PreviewUpdate { overlay, login_state, peak, status: LevelStatus::Normal }
}

/// Index of the first argument at or after `k` that starts with `p`.
pub open spec fn first_with_prefix(args: Seq<Seq<char>>, p: Seq<char>, k: nat) -> Option<nat>
    decreases args.len() - k,
{
    if k >= args.len() {
        None
    } else if has_prefix(args[k as int], p) {
        Some(k)
    } else {
        first_with_prefix(args, p, k + 1)
    }
}

proof fn lemma_first_with_prefix(args: Seq<Seq<char>>, p: Seq<char>, k: nat)
    ensures
        first_with_prefix(args, p, k) matches Some(i) ==> k <= i < args.len() && has_prefix(
            args[i as int],
            p,
        ),
    decreases args.len() - k,
{
    if k < args.len() && !has_prefix(args[k as int], p) {
        lemma_first_with_prefix(args, p, k + 1);
    }
}

/// Index of the first argument at or after `k` equal to `a`.
pub open spec fn first_equal(args: Seq<Seq<char>>, a: Seq<char>, k: nat) -> Option<nat>
    decreases args.len() - k,
{
    if k >= args.len() {
        None
    } else if args[k as int] == a {
        Some(k)
    } else {
        first_equal(args, a, k + 1)
    }
}

proof fn lemma_first_equal(args: Seq<Seq<char>>, a: Seq<char>, k: nat)
    ensures
        first_equal(args, a, k) matches Some(i) ==> k <= i < args.len() && args[i as int] == a,
    decreases args.len() - k,
{
    if k < args.len() && args[k as int] != a {
        lemma_first_equal(args, a, k + 1);
    }
}

fn find_prefix(args: &[String], p: &str) -> (r: Option<usize>)
    ensures
        match first_with_prefix(strings_view(args@), p@, 0) {
            Some(i) => r == Some(i as usize),
            None => r is None,
        },
{
    let cp = chars_of(p);
    proof {
        lemma_first_with_prefix(strings_view(args@), p@, 0);
    }
    let mut i: usize = 0;
    while i < args.len()
        invariant
            0 <= i <= args@.len(),
            cp@ == p@,
            first_with_prefix(strings_view(args@), p@, 0) matches Some(j) ==> j < args@.len(),
            first_with_prefix(strings_view(args@), p@, 0) == first_with_prefix(
                strings_view(args@),
                p@,
                i as nat,
            ),
        decreases args.len() - i,
    {
        let cs = chars_of(args[i].as_str());
        if chars_have_prefix(cs.as_slice(), cp.as_slice()) {
            return Some(i);
        }
        i = i + 1;
    }
    None
}

fn find_equal(args: &[String], a: &str) -> (r: Option<usize>)
    ensures
        match first_equal(strings_view(args@), a@, 0) {
            Some(i) => r == Some(i as usize),
            None => r is None,
        },
{
    let ca = chars_of(a);
    let mut i: usize = 0;
    while i < args.len()
        invariant
            0 <= i <= args@.len(),
            ca@ == a@,
            first_equal(strings_view(args@), a@, 0) == first_equal(strings_view(args@), a@, i as nat),
        decreases args.len() - i,
    {
        let cs = chars_of(args[i].as_str());
        if chars_eq(cs.as_slice(), ca.as_slice()) {
            return Some(i);
        }
        i = i + 1;
    }
    None
}

/// What the program does, as its arguments choose.
pub enum LaunchMode {
    /// Run only the ASR server, with these arguments.
    Serve(Vec<String>),
    /// Print the usage text.
    Help,
    /// Print the version.
    Version,
    /// Show the overlay in a scenario, without audio or a connection.
    PreviewOverlay(PreviewScenario),
    /// Show the settings window on a page, without audio or a connection.
    PreviewSettings(String),
    /// Try pasting a text once.
    PasteTest(String),
    /// Start the client; with `check_connection`, only check the connection.
    Client { check_connection: bool },
    /// The arguments cannot be used; the message says why.
    Invalid(String),
}

/// The view of a launch mode, its texts by their characters.
pub enum LaunchView {
    Serve(Seq<Seq<char>>),
    Help,
    Version,
    PreviewOverlay(PreviewScenario),
    PreviewSettings(Seq<char>),
    PasteTest(Seq<char>),
    Client { check_connection: bool },
    Invalid(Seq<char>),
}

impl View for LaunchMode {
    type V = LaunchView;

    open spec fn view(&self) -> LaunchView {
        match self {
            LaunchMode::Serve(a) => LaunchView::Serve(strings_view(a@)),
            LaunchMode::Help => LaunchView::Help,
            LaunchMode::Version => LaunchView::Version,
            LaunchMode::PreviewOverlay(s) => LaunchView::PreviewOverlay(*s),
            LaunchMode::PreviewSettings(p) => LaunchView::PreviewSettings(p@),
            LaunchMode::PasteTest(t) => LaunchView::PasteTest(t@),
            LaunchMode::Client { check_connection } => LaunchView::Client {
                check_connection: *check_connection,
            },
            LaunchMode::Invalid(m) => LaunchView::Invalid(m@),
        }
    }
}

/// The text pasted by the paste test when none is given.
pub open spec fn default_paste_text() -> Seq<char> {
    "Otoa Input 貼り付けテスト"@
}

/// The launch mode of the arguments (the program's name excluded). Checked
/// in this order: `--serve`; `-h`/`--help`; `-V`/`--version`; the first
/// argument starting `--preview-overlay`, which must be
/// `--preview-overlay=<scenario>`; the first starting `--preview-settings`
/// (page `general` unless `=<page>` names one); `--paste-test`, with the
/// next argument as the text unless it starts with `--`; otherwise the
/// client, checking the connection when `--check-connection` is given.
pub open spec fn spec_launch_mode(args: Seq<Seq<char>>) -> LaunchView {
    if has_arg(args, "--serve"@) {
        LaunchView::Serve(without_serve(args))
    } else if has_arg(args, "--help"@) || has_arg(args, "-h"@) {
        LaunchView::Help
    } else if has_arg(args, "--version"@) || has_arg(args, "-V"@) {
        LaunchView::Version
    } else if first_with_prefix(args, "--preview-overlay"@, 0) is Some {
        let a = args[first_with_prefix(args, "--preview-overlay"@, 0)->0 as int];
        if has_prefix(a, "--preview-overlay="@) {
            let value = a.skip(18);
            match scenario_named(value) {
                Some(s) => LaunchView::PreviewOverlay(s),
                None => LaunchView::Invalid(
                    "未知の preview 状態です: "@ + value
                        + "（splash/warming-up/connecting/listening/finalizing/committed/error/login）"@,
                ),
            }
        } else {
            LaunchView::Invalid("--preview-overlay は =状態 で指定してください"@)
        }
    } else if first_with_prefix(args, "--preview-settings"@, 0) is Some {
        let a = args[first_with_prefix(args, "--preview-settings"@, 0)->0 as int];
        if has_prefix(a, "--preview-settings="@) {
            LaunchView::PreviewSettings(a.skip(19))
        } else {
            LaunchView::PreviewSettings("general"@)
        }
    } else if first_equal(args, "--paste-test"@, 0) is Some {
        let i = first_equal(args, "--paste-test"@, 0)->0;
        if i + 1 < args.len() && !has_prefix(args[i + 1int], "--"@) {
            LaunchView::PasteTest(args[i + 1int])
        } else {
            LaunchView::PasteTest(default_paste_text())
        }
    } else {
        LaunchView::Client { check_connection: has_arg(args, "--check-connection"@) }
    }
}

fn skip_chars(s: &[char], n: usize) -> (r: String)
    requires
        n <= s@.len(),
    ensures
        r@ == s@.skip(n as int),
{
    let mut v: Vec<char> = Vec::new();
    let mut k: usize = n;
    while k < s.len()
        invariant
            n <= k <= s@.len(),
            v@ =~= s@.subrange(n as int, k as int),
        decreases s.len() - k,
    {
        v.push(s[k]);
        k = k + 1;
    }
    string_of(v.as_slice())
}

pub fn launch_mode(arguments: &[String]) -> (r: LaunchMode)
    ensures
        r@ == spec_launch_mode(strings_view(arguments@)),
{
    proof {
        lemma_first_with_prefix(strings_view(arguments@), "--preview-overlay"@, 0);
        lemma_first_with_prefix(strings_view(arguments@), "--preview-settings"@, 0);
        lemma_first_equal(strings_view(arguments@), "--paste-test"@, 0);
    }
    proof {
        reveal_strlit("--preview-overlay=");
        reveal_strlit("--preview-settings=");
    }
    if let Some(rest) = server_arguments(arguments) {
        return LaunchMode::Serve(rest);
    }
    if any_arg(arguments, "--help") || any_arg(arguments, "-h") {
        return LaunchMode::Help;
    }
    if any_arg(arguments, "--version") || any_arg(arguments, "-V") {
        return LaunchMode::Version;
    }
    let ghost args = strings_view(arguments@);
    if let Some(i) = find_prefix(arguments, "--preview-overlay") {
        let a = chars_of(arguments[i].as_str());
        assert(a@ == args[i as int]);
        let prefix = chars_of("--preview-overlay=");
        if !chars_have_prefix(a.as_slice(), prefix.as_slice()) {
            return LaunchMode::Invalid(owned("--preview-overlay は =状態 で指定してください"));
        }
        let value = skip_chars(a.as_slice(), 18);
        return match PreviewScenario::parse(value.as_str()) {
            Some(s) => LaunchMode::PreviewOverlay(s),
            None => {
                let mut m = owned("未知の preview 状態です: ");
                push_str(&mut m, value.as_str());
                push_str(
                    &mut m,
                    "（splash/warming-up/connecting/listening/finalizing/committed/error/login）",
                );
                LaunchMode::Invalid(m)
            },
        };
    }
    if let Some(i) = find_prefix(arguments, "--preview-settings") {
        let a = chars_of(arguments[i].as_str());
        assert(a@ == args[i as int]);
        let prefix = chars_of("--preview-settings=");
        if chars_have_prefix(a.as_slice(), prefix.as_slice()) {
            return LaunchMode::PreviewSettings(skip_chars(a.as_slice(), 19));
        }
        return LaunchMode::PreviewSettings(owned("general"));
    }
    if let Some(i) = find_equal(arguments, "--paste-test") {
        let n = arguments.len();
        assert(i < n);
        if n - i > 1 {
            let next = chars_of(arguments[i + 1].as_str());
            assert(next@ == args[i + 1]);
            if !chars_have_prefix(next.as_slice(), chars_of("--").as_slice()) {
                return LaunchMode::PasteTest(arguments[i + 1].clone());
            }
        }
        return LaunchMode::PasteTest(owned("Otoa Input 貼り付けテスト"));
    }
    LaunchMode::Client { check_connection: any_arg(arguments, "--check-connection") }
}

/// The recognition engines the bundled server can run.
#[derive(Clone, Copy, Debug, PartialEq, Eq, Structural)]
pub enum AsrEngine {
    K2,
    Kodama,
}

/// The directory an engine's model is kept in, and a file whose presence
/// shows that the model is there.
pub open spec fn spec_model_details(engine: AsrEngine) -> (Seq<char>, Seq<char>) {
    match engine {
        AsrEngine::K2 => ("reazonspeech-k2-v2"@, "tokens.txt"@),
        AsrEngine::Kodama => ("kodama-ja-streaming-small"@, "tokenizer.json"@),
    }
}

pub fn model_details(engine: AsrEngine) -> (r: (&'static str, &'static str))
    ensures
        (r.0@, r.1@) == spec_model_details(engine),
{
    match engine {
        AsrEngine::K2 => ("reazonspeech-k2-v2", "tokens.txt"),
        AsrEngine::Kodama => ("kodama-ja-streaming-small", "tokenizer.json"),
    }
}

/// How far a model download has come, in bytes over all of the engine's files.
#[derive(Clone, Copy, Debug, PartialEq, Eq, Structural)]
pub struct Progress {
    pub downloaded: u64,
    pub total: u64,
}

/// What to fetch for an engine: the repository, the directory to keep it in,
/// and each file's path in the repository with the name it is saved under.
pub struct ModelPlan {
    pub repo: &'static str,
    pub dir_name: &'static str,
    pub files: Vec<(&'static str, &'static str)>,
}

/// The files of a plan by their names.
pub open spec fn plan_files_view(v: Seq<(&'static str, &'static str)>) -> Seq<(Seq<char>, Seq<char>)> {
    v.map_values(|p: (&'static str, &'static str)| (p.0@, p.1@))
}

/// The repository, directory and files of each engine's model. The k2 model
/// is fetched without its int8 variants; kodama's files live under `onnx/`
/// in the repository and are saved flat.
pub open spec fn spec_plan(engine: AsrEngine) -> (Seq<char>, Seq<char>, Seq<(Seq<char>, Seq<char>)>) {
    match engine {
        AsrEngine::K2 => (
            "reazon-research/reazonspeech-k2-v2"@,
            "reazonspeech-k2-v2"@,
            seq![
                ("encoder-epoch-99-avg-1.onnx"@, "encoder-epoch-99-avg-1.onnx"@),
                ("decoder-epoch-99-avg-1.onnx"@, "decoder-epoch-99-avg-1.onnx"@),
                ("joiner-epoch-99-avg-1.onnx"@, "joiner-epoch-99-avg-1.onnx"@),
                ("tokens.txt"@, "tokens.txt"@),
            ],
        ),
        AsrEngine::Kodama => (
            "ayousanz/kodama-ja-streaming-small"@,
            "kodama-ja-streaming-small"@,
            seq![
                ("onnx/encoder.onnx"@, "encoder.onnx"@),
                ("onnx/encoder.onnx.data"@, "encoder.onnx.data"@),
                ("onnx/cross_kv_prefill.onnx"@, "cross_kv_prefill.onnx"@),
                ("onnx/cross_kv_prefill.onnx.data"@, "cross_kv_prefill.onnx.data"@),
                ("onnx/decoder_step_crosskv.int8a.onnx"@, "decoder_step_crosskv.int8a.onnx"@),
                ("tokenizer.json"@, "tokenizer.json"@),
            ],
        ),
    }
}

pub fn plan(engine: AsrEngine) -> (r: ModelPlan)
    ensures
        (r.repo@, r.dir_name@, plan_files_view(r.files@)) == spec_plan(engine),
{
    match engine {
        AsrEngine::K2 => {
            let files = vec![
                ("encoder-epoch-99-avg-1.onnx", "encoder-epoch-99-avg-1.onnx"),
                ("decoder-epoch-99-avg-1.onnx", "decoder-epoch-99-avg-1.onnx"),
                ("joiner-epoch-99-avg-1.onnx", "joiner-epoch-99-avg-1.onnx"),
                ("tokens.txt", "tokens.txt"),
            ];
            assert(plan_files_view(files@) =~= spec_plan(engine).2);
            ModelPlan { repo: "reazon-research/reazonspeech-k2-v2", dir_name: "reazonspeech-k2-v2", files }
        },
        AsrEngine::Kodama => {
            let files = vec![
                ("onnx/encoder.onnx", "encoder.onnx"),
                ("onnx/encoder.onnx.data", "encoder.onnx.data"),
                ("onnx/cross_kv_prefill.onnx", "cross_kv_prefill.onnx"),
                ("onnx/cross_kv_prefill.onnx.data", "cross_kv_prefill.onnx.data"),
                ("onnx/decoder_step_crosskv.int8a.onnx", "decoder_step_crosskv.int8a.onnx"),
                ("tokenizer.json", "tokenizer.json"),
            ];
            assert(plan_files_view(files@) =~= spec_plan(engine).2);
            ModelPlan {
                repo: "ayousanz/kodama-ja-streaming-small",
                dir_name: "kodama-ja-streaming-small",
                files,
            }
        },
    }
}

/// Where a file of a Hugging Face repository is fetched from: its main
/// revision.
pub open spec fn spec_resolve_url(repo: Seq<char>, remote: Seq<char>) -> Seq<char> {
    "https://huggingface.co/"@ + repo + "/resolve/main/"@ + remote
}

pub fn resolve_url(repo: &str, remote: &str) -> (r: String)
    ensures
        r@ == spec_resolve_url(repo@, remote@),
{
    let mut r = owned("https://huggingface.co/");
    push_str(&mut r, repo);
    push_str(&mut r, "/resolve/main/");
    push_str(&mut r, remote);
    r
}

/// A path's text with its trailing separators and `.` components taken
/// off; a lone `/` stays.
pub open spec fn trim_tail(p: Seq<char>) -> Seq<char>
    decreases p.len(),
{
    if p.len() > 1 && (p.last() == '/' || (p.last() == '.' && p[p.len() - 2] == '/')) {
        trim_tail(p.drop_last())
    } else {
        p
    }
}

/// Index of the last `/` in `s`, or -1 when there is none.
pub open spec fn last_sep(s: Seq<char>) -> int
    decreases s.len(),
{
    if s.len() == 0 {
        -1
    } else if s.last() == '/' {
        s.len() - 1
    } else {
        last_sep(s.drop_last())
    }
}

/// The file name of a path: its last component, unless that is empty, `.`
/// or `..`.
pub open spec fn path_file_name(p: Seq<char>) -> Option<Seq<char>> {
    let q = trim_tail(p);
    let name = q.subrange(last_sep(q) + 1, q.len() as int);
    if name.len() == 0 || name == seq!['.'] || name == seq!['.', '.'] {
        None
    } else {
        Some(name)
    }
}

/// The path without its last component.
pub open spec fn path_parent(p: Seq<char>) -> Seq<char> {
    let q = trim_tail(p);
    trim_tail(q.take(last_sep(q) + 1))
}

/// `name` added to `base` as its last component.
pub open spec fn path_joined(base: Seq<char>, name: Seq<char>) -> Seq<char> {
    if base.len() == 0 {
        name
    } else if base.last() == '/' {
        base + name
    } else {
        base + seq!['/'] + name
    }
}

/// Where a download is written before it is complete: the file name with
/// `.part` added, every extension kept. A path with no file name gets a
/// `.part` component added.
pub open spec fn spec_partial_path(p: Seq<char>) -> Seq<char> {
    match path_file_name(p) {
        Some(name) => path_joined(path_parent(p), name + ".part"@),
        None => path_joined(p, ".part"@),
    }
}

/// Length of `trim_tail` of the first `n0` characters.
fn trim_tail_len(cs: &[char], n0: usize) -> (n: usize)
    requires
        n0 <= cs@.len(),
    ensures
        n <= n0,
        cs@.take(n as int) == trim_tail(cs@.take(n0 as int)),
{
    let mut n = n0;
    while n > 1 && (cs[n - 1] == '/' || (cs[n - 1] == '.' && cs[n - 2] == '/'))
        invariant
            n <= n0 <= cs@.len(),
            trim_tail(cs@.take(n as int)) == trim_tail(cs@.take(n0 as int)),
        decreases n,
    {
        assert(cs@.take(n as int).drop_last() =~= cs@.take(n - 1));
        n = n - 1;
    }
    let ghost t = cs@.take(n as int);
    assert(t.len() > 1 ==> t.last() == cs@[n - 1] && t[t.len() - 2] == cs@[n - 2]);
    n
}

/// One past the last `/` among the first `n` characters (0 when none).
fn after_last_sep(cs: &[char], n: usize) -> (r: usize)
    requires
        n <= cs@.len(),
    ensures
        r <= n,
        r as int == last_sep(cs@.take(n as int)) + 1,
{
    let mut i = n;
    while i > 0 && cs[i - 1] != '/'
        invariant
            i <= n <= cs@.len(),
            last_sep(cs@.take(n as int)) == last_sep(cs@.take(i as int)),
        decreases i,
    {
        assert(cs@.take(i as int).drop_last() =~= cs@.take(i - 1));
        i = i - 1;
    }
    assert(i > 0 ==> cs@.take(i as int).last() == cs@[i - 1]);
    i
}

/// Appends `cs[i..j]`.
fn push_range(s: &mut String, cs: &[char], i: usize, j: usize)
    requires
        i <= j <= cs@.len(),
    ensures
        final(s)@ == old(s)@ + cs@.subrange(i as int, j as int),
{
    let ghost start = s@;
    let mut k = i;
    while k < j
        invariant
            i <= k <= j <= cs@.len(),
            s@ == start + cs@.subrange(i as int, k as int),
        decreases j - k,
    {
        push_char(s, cs[k]);
        assert(cs@.subrange(i as int, k + 1) =~= cs@.subrange(i as int, k as int).push(cs@[k as int]));
        k = k + 1;
    }
}

/// `path_joined`, given `base` as its text so far.
fn push_component(r: &mut String, name: &[char])
    ensures
        final(r)@ == path_joined(old(r)@, name@),
{
    let base = chars_of(r.as_str());
    if base.len() > 0 && base[base.len() - 1] != '/' {
        push_char(r, '/');
    }
    push_chars(r, name);
    assert(old(r)@.len() > 0 ==> base@.last() == old(r)@.last());
    assert(old(r)@.len() > 0 && old(r)@.last() != '/' ==> final(r)@ =~= old(r)@ + seq!['/'] + name@);
}

/// The path a download is written to until it is complete (see
/// `spec_partial_path`); a path is read as text with `/` separators.
pub fn partial_path(dest: &str) -> (r: String)
    ensures
        r@ == spec_partial_path(dest@),
{
    let cs = chars_of(dest);
    let s = cs.as_slice();
    let n = trim_tail_len(s, cs.len());
    let k = after_last_sep(s, n);
    let ghost q = cs@.take(n as int);
    assert(cs@.take(cs@.len() as int) =~= dest@);
    let ghost name = q.subrange(k as int, n as int);
    assert(name =~= cs@.subrange(k as int, n as int));
    let len = n - k;
    let is_dot = len == 1 && cs[k] == '.';
    let is_dots = len == 2 && cs[k] == '.' && cs[k + 1] == '.';
    assert(is_dot <==> name == seq!['.']) by {
        if name == seq!['.'] {
            assert(name[0] == cs@[k as int]);
        }
        if is_dot {
            assert(name =~= seq!['.']);
        }
    }
    assert(is_dots <==> name == seq!['.', '.']) by {
        if name == seq!['.', '.'] {
            assert(name[0] == cs@[k as int] && name[1] == cs@[k + 1]);
        }
        if is_dots {
            assert(name =~= seq!['.', '.']);
        }
    }
    if len > 0 && !is_dot && !is_dots {
        let p = trim_tail_len(s, k);
        assert(q.take(k as int) =~= cs@.take(k as int));
        let mut r = String::new();
        push_range(&mut r, s, 0, p);
        assert(r@ =~= path_parent(dest@));
        let mut file = String::new();
        push_range(&mut file, s, k, n);
        push_str(&mut file, ".part");
        let file_chars = chars_of(file.as_str());
        push_component(&mut r, file_chars.as_slice());
        r
    } else {
        let mut r = owned(dest);
        let part = chars_of(".part");
        push_component(&mut r, part.as_slice());
        r
    }
}

/// The searched places, one `- <path>` line each.
pub open spec fn searched_lines(paths: Seq<Seq<char>>) -> Seq<char>
    decreases paths.len(),
{
    if paths.len() == 0 {
        Seq::empty()
    } else if paths.len() == 1 {
        "- "@ + paths[0]
    } else {
        searched_lines(paths.drop_last()) + "\n- "@ + paths.last()
    }
}

/// The message shown when the bundled server cannot start: the reason, the
/// selected engine, where the model was looked for (or that it was not,
/// for an unknown engine), and that the app starts anyway.
pub open spec fn spec_startup_error(engine: Seq<char>, candidates: Seq<Seq<char>>, reason: Seq<char>) -> Seq<
    char,
> {
    "同梱の ASR サーバーを起動できません: "@ + reason + "\n選択中の認識エンジン: "@ + engine
        + "\nモデルの探索先:\n"@ + (if candidates.len() == 0 {
        "（認識エンジンが未知のため、モデルディレクトリは探索していません）"@
    } else {
        searched_lines(candidates)
    }) + "\nアプリはこのまま起動します。設定画面から reazonspeech または kodama を選べます。"@
}

pub fn startup_error(engine: &str, candidates: &[String], reason: &str) -> (r: String)
    ensures
        r@ == spec_startup_error(engine@, strings_view(candidates@), reason@),
{
    let mut searched = String::new();
    if candidates.len() == 0 {
        push_str(&mut searched, "（認識エンジンが未知のため、モデルディレクトリは探索していません）");
    } else {
        let mut i: usize = 0;
        while i < candidates.len()
            invariant
                0 < candidates@.len(),
                0 <= i <= candidates@.len(),
                searched@ == searched_lines(strings_view(candidates@).take(i as int)),
            decreases candidates.len() - i,
        {
            let ghost before = searched@;
            let ghost taken = strings_view(candidates@).take(i + 1);
            assert(taken.drop_last() =~= strings_view(candidates@).take(i as int));
            if i == 0 {
                push_str(&mut searched, "- ");
                assert(before =~= Seq::<char>::empty());
            } else {
                push_str(&mut searched, "\n- ");
            }
            push_str(&mut searched, candidates[i].as_str());
            proof {
                if i == 0 {
                    assert(searched@ =~= "- "@ + taken[0]);
                } else {
                    assert(searched@ =~= before + "\n- "@ + taken.last());
                }
            }
            i = i + 1;
        }
        assert(strings_view(candidates@).take(candidates@.len() as int) =~= strings_view(
            candidates@,
        ));
    }
    let mut r = owned("同梱の ASR サーバーを起動できません: ");
    push_str(&mut r, reason);
    push_str(&mut r, "\n選択中の認識エンジン: ");
    push_str(&mut r, engine);
    push_str(&mut r, "\nモデルの探索先:\n");
    push_str(&mut r, searched.as_str());
    push_str(&mut r, "\nアプリはこのまま起動します。設定画面から reazonspeech または kodama を選べます。");
    r
}

/// The share of a download done, in percent (what is downloaded past the
/// total counts as the total); none before the total is known.
pub open spec fn spec_download_percent(p: Progress) -> Option<int> {
    if p.total == 0 {
        None
    } else {
        Some((if p.downloaded <= p.total { p.downloaded as int } else { p.total as int }) * 100 / p.total as int)
    }
}

pub fn download_percent(p: Progress) -> (r: Option<u8>)
    ensures
        match spec_download_percent(p) {
            Some(v) => r matches Some(x) && x == v,
            None => r is None,
        },
{
    if p.total == 0 {
        return None;
    }
    let done: u64 = if p.downloaded <= p.total { p.downloaded } else { p.total };
    let scaled: u128 = (done as u128) * 100;
    let percent: u128 = scaled / (p.total as u128);
    assert(percent <= 100) by (nonlinear_arith)
        requires
            done <= p.total,
            p.total > 0,
            scaled == done * 100,
            percent == (scaled as int) / (p.total as int),
    ;
    Some(percent as u8)
}

/// The bytes of all files together.
pub open spec fn sizes_total(sizes: Seq<u64>) -> nat
    decreases sizes.len(),
{
    if sizes.len() == 0 {
        0
    } else {
        sizes_total(sizes.drop_last()) + sizes.last() as nat
    }
}

/// The total a download reports progress against; none when it does not
/// fit in 64 bits.
pub fn download_total(sizes: &[u64]) -> (r: Option<u64>)
    ensures
        match r {
            Some(t) => t == sizes_total(sizes@),
            None => sizes_total(sizes@) > u64::MAX,
        },
{
    let mut total: u64 = 0;
    let mut i: usize = 0;
    while i < sizes.len()
        invariant
            0 <= i <= sizes@.len(),
            total == sizes_total(sizes@.take(i as int)),
        decreases sizes.len() - i,
    {
        let ghost t = sizes@.take(i + 1);
        assert(t.drop_last() =~= sizes@.take(i as int));
        if sizes[i] > u64::MAX - total {
            proof {
                lemma_sizes_total_prefix(sizes@, i + 1);
            }
            return None;
        }
        total = total + sizes[i];
        i = i + 1;
    }
    assert(sizes@.take(i as int) =~= sizes@);
    Some(total)
}

proof fn lemma_sizes_total_prefix(s: Seq<u64>, i: int)
    requires
        0 <= i <= s.len(),
    ensures
        sizes_total(s.take(i)) <= sizes_total(s),
    decreases s.len() - i,
{
    if i < s.len() {
        lemma_sizes_total_prefix(s, i + 1);
        assert(s.take(i + 1).drop_last() =~= s.take(i));
    } else {
        assert(s.take(i) =~= s);
    }
}

/// What the thread that starts the bundled server has reported so far.
pub enum StartupReport {
    Pending,
    /// It stopped with this outcome (it never ends well before listening).
    Ended(Result<(), String>),
    /// It ended without a word.
    Gone,
}

/// The next step of waiting for the bundled server to listen.
#[derive(Debug, PartialEq, Eq)]
pub enum ListenWait {
    Ready,
    Failed(String),
    Wait,
}

/// The message when the bundled server does not listen in time.
pub open spec fn listen_timeout_message(limit_ms: nat) -> Seq<char> {
    decimal(limit_ms / 1000) + " 秒待っても応答しません"@
}

/// Waiting for the bundled server: out of time it fails; otherwise the
/// thread's report decides, and with none the server is ready once it
/// listens.
pub open spec fn spec_listen_wait(elapsed_ms: nat, limit_ms: nat, report: StartupReport, listening: bool) -> Result<
    bool,
    Seq<char>,
> {
    if elapsed_ms >= limit_ms {
        Err(listen_timeout_message(limit_ms))
    } else {
        match report {
            StartupReport::Ended(Ok(())) => Ok(true),
            StartupReport::Ended(Err(m)) => Err(m@),
            StartupReport::Gone => Err("ASR サーバーのスレッドが起動結果を返さず終了しました"@),
            StartupReport::Pending => Ok(listening),
        }
    }
}

pub fn listen_wait_step(elapsed_ms: u64, limit_ms: u64, report: StartupReport, listening: bool) -> (r: ListenWait)
    ensures
        match spec_listen_wait(elapsed_ms as nat, limit_ms as nat, report, listening) {
            Ok(true) => r is Ready,
            Ok(false) => r is Wait,
            Err(m) => r matches ListenWait::Failed(f) && f@ == m,
        },
{
    if elapsed_ms >= limit_ms {
        let mut m = decimal_string(limit_ms / 1000);
        push_str(&mut m, " 秒待っても応答しません");
        return ListenWait::Failed(m);
    }
    match report {
        StartupReport::Ended(Ok(())) => ListenWait::Ready,
        StartupReport::Ended(Err(m)) => ListenWait::Failed(m),
        StartupReport::Gone => ListenWait::Failed(owned("ASR サーバーのスレッドが起動結果を返さず終了しました")),
        StartupReport::Pending => if listening {
            ListenWait::Ready
        } else {
            ListenWait::Wait
        },
    }
}

/// The usage text of the ASR server run on its own.
pub const SERVER_USAGE: &'static str = "otoa-asr-server — Otoa ASR Protocol v1 のサーバー

使い方:
  otoa-asr-server --asr-model-dir=<dir> [オプション]

オプション:
  --host=<addr>               待ち受けアドレス (既定: 127.0.0.1)
  --port=<port>               待ち受けポート (既定: 8770)
  --path=<path>               WebSocket のパス (既定: /asr/v1)
  --asr-model-dir=<dir>       ReazonSpeech k2-v2 の ONNX を置いたディレクトリ
  --asr-threads=<n>           認識スレッド数 (既定: 2)
  --max-utterance-ms=<ms>     finalize が来ないまま話し続けた場合の上限
                              (既定: 25000)
  --partial-interval-ms=<ms>  途中経過を出す間隔 (既定: 500)
  --pseudo-stream[=<bool>]    途中経過の再デコードを有効にする (既定: false)
  --auth-token=<token>        Authorization: Bearer に要求するトークン
  --dump-dir=<dir>            認識へ渡した音声を WAV で書き出す (調査用)
  -h, --help                  この使い方を表示する

すべてのオプションは環境変数でも指定できる。--asr-model-dir なら
OTOA_ASR_ASR_MODEL_DIR。指定の優先順位はコマンド引数、環境変数、既定値。

発話の区切りはクライアントが finalize で決める。このサーバーは終話を
判定しないので、設定 JSON の endpoint_mode は client のみ受け付ける。
";

/// The client's usage text, naming the program as `program`: its
/// commands are run under that name; the settings directory keeps its own.
pub open spec fn spec_usage(program: Seq<char>) -> Seq<char> {
    program + " — 話した内容をカーソル位置へ貼り付ける音声入力\n\n使い方:\n  "@ + program
        + " [オプション]\n  "@ + program + " --serve [サーバーオプション]\n\nオプション:\n  --serve             ASR サーバーだけを動かす（画面は出さない）\n                      詳細は "@
        + program + " --serve --help\n  --check-connection  接続先へ繋いで結果を表示し、終了する\n  --paste-test [文字列]\n                      本文を CLIPBOARD/PRIMARY に置き、既定の Shift+Insert\n                      で 1 回貼り付けて状態をログへ出して終了する。\n                      文字を入れたい場所にカーソルを置いてから実行する\n  --preview-overlay=<状態>\n                      音声・接続なしで入力バーを表示する。\n                      splash/warming-up/connecting/listening/finalizing/committed/error/login\n  --preview-settings[=<面>]\n                      音声・接続なしで設定画面を表示する。\n                      general/mic/asr/advanced/account/about\n  -h, --help          この使い方を表示する\n  -V, --version       版を表示する\n\n設定はトレイアイコンの「設定」から変更する。設定ファイルの場所は\nLinux なら ~/.config/otoa-input-oss/settings.json。\n\n接続先が空のときは、同梱の otoa-asr-server を既定の設定で起動した\nアドレス (ws://127.0.0.1:8770/asr/v1) へ繋ぐ。\n"@
}

pub fn usage(program: &str) -> (r: String)
    ensures
        r@ == spec_usage(program@),
{
    let mut r = owned(program);
    push_str(&mut r, " — 話した内容をカーソル位置へ貼り付ける音声入力\n\n使い方:\n  ");
    push_str(&mut r, program);
    push_str(&mut r, " [オプション]\n  ");
    push_str(&mut r, program);
    push_str(&mut r, " --serve [サーバーオプション]\n\nオプション:\n  --serve             ASR サーバーだけを動かす（画面は出さない）\n                      詳細は ");
    push_str(&mut r, program);
    push_str(&mut r, " --serve --help\n  --check-connection  接続先へ繋いで結果を表示し、終了する\n  --paste-test [文字列]\n                      本文を CLIPBOARD/PRIMARY に置き、既定の Shift+Insert\n                      で 1 回貼り付けて状態をログへ出して終了する。\n                      文字を入れたい場所にカーソルを置いてから実行する\n  --preview-overlay=<状態>\n                      音声・接続なしで入力バーを表示する。\n                      splash/warming-up/connecting/listening/finalizing/committed/error/login\n  --preview-settings[=<面>]\n                      音声・接続なしで設定画面を表示する。\n                      general/mic/asr/advanced/account/about\n  -h, --help          この使い方を表示する\n  -V, --version       版を表示する\n\n設定はトレイアイコンの「設定」から変更する。設定ファイルの場所は\nLinux なら ~/.config/otoa-input-oss/settings.json。\n\n接続先が空のときは、同梱の otoa-asr-server を既定の設定で起動した\nアドレス (ws://127.0.0.1:8770/asr/v1) へ繋ぐ。\n");
    r
}

/// The server's usage text as `program --serve` shows it: the server's
/// name replaced by that command.
pub open spec fn spec_serve_usage(program: Seq<char>) -> Seq<char> {
    replaced(SERVER_USAGE@, "otoa-asr-server"@, program + " --serve"@)
}

pub fn serve_usage(program: &str) -> (r: String)
    ensures
        r@ == spec_serve_usage(program@),
{
    let text = chars_of(SERVER_USAGE);
    let pattern = chars_of("otoa-asr-server");
    proof {
        reveal_strlit("otoa-asr-server");
    }
    let mut name = owned(program);
    push_str(&mut name, " --serve");
    let rep = chars_of(name.as_str());
    let out = replace_all(text.as_slice(), pattern.as_slice(), rep.as_slice());
    string_of(out.as_slice())
}

/// The version line: the program and its version.
pub fn version_line(program: &str, version: &str) -> (r: String)
    ensures
        r@ == program@ + " "@ + version@,
{
    let mut r = owned(program);
    push_str(&mut r, " ");
    push_str(&mut r, version);
    r
}

} // verus!
