//! What the settings window says and offers: the labels of stored values and
//! back, the choices of microphone and recognition engine, and the texts that
//! describe the route and the login.

use crate::controller::{LevelStatus, LoginState};
use crate::number::{parse_unsigned, parse_unsigned_chars};
use crate::text::{chars_of, is_blank, owned, push_str, str_eq, str_is_blank, trim_chars, trimmed};
use vstd::prelude::*;

verus! {

/// Where recognition happens, as the general page says it: on this PC, on
/// the server (naming it), or not known before connecting.
pub open spec fn spec_route_description(route: Option<bool>, server_url: Seq<char>) -> Seq<char> {
    let target = if is_blank(server_url) {
        "既定の接続先"@
    } else {
        server_url
    };
    match route {
        Some(true) => "この PC で認識しています"@,
        Some(false) => "サーバーで認識しています\n接続先: "@ + target,
        None => "認識場所は接続後に表示します\n接続先: "@ + target,
    }
}

pub fn route_description(route: Option<bool>, server_url: &str) -> (r: String)
    ensures
        r@ == spec_route_description(route, server_url@),
{
    let mut out = match route {
        Some(true) => {
            return owned("この PC で認識しています");
        },
        Some(false) => owned("サーバーで認識しています\n接続先: "),
        None => owned("認識場所は接続後に表示します\n接続先: "),
    };
    if str_is_blank(server_url) {
        push_str(&mut out, "既定の接続先");
    } else {
        push_str(&mut out, server_url);
    }
    out
}

/// The advice under the level meter.
pub open spec fn spec_level_message(status: LevelStatus) -> Seq<char> {
    match status {
        LevelStatus::Normal => "ちょうどいい大きさです"@,
        LevelStatus::TooQuiet => "小さすぎます。ゲインを上げるか、マイクに近づいてください"@,
        LevelStatus::Clipped => "大きすぎます。ゲインを下げてください"@,
    }
}

pub fn level_message(status: LevelStatus) -> (r: &'static str)
    ensures
        r@ == spec_level_message(status),
{
    match status {
        LevelStatus::Normal => "ちょうどいい大きさです",
        LevelStatus::TooQuiet => "小さすぎます。ゲインを上げるか、マイクに近づいてください",
        LevelStatus::Clipped => "大きすぎます。ゲインを下げてください",
    }
}

/// The account page's line for the login.
pub open spec fn spec_login_state_text(state: LoginState) -> Seq<char> {
    match state {
        LoginState::LoggedOut => "未ログイン"@,
        LoginState::InProgress => "ログイン処理中（ブラウザで操作待ち）"@,
        LoginState::LoggedIn { email } => email@,
        LoginState::Failed { reason } => "失敗: "@ + reason@,
        LoginState::NotRequired => "不要"@,
    }
}

pub fn login_state_text(state: &LoginState) -> (r: String)
    ensures
        r@ == spec_login_state_text(*state),
{
    match state {
        LoginState::LoggedOut => owned("未ログイン"),
        LoginState::InProgress => owned("ログイン処理中（ブラウザで操作待ち）"),
        LoginState::LoggedIn { email } => owned(email.as_str()),
        LoginState::Failed { reason } => {
            let mut out = owned("失敗: ");
            push_str(&mut out, reason.as_str());
            out
        },
        LoginState::NotRequired => owned("不要"),
    }
}

/// A recognition engine the settings offer: the stored id and its label.
#[derive(Debug, Clone, PartialEq, Eq)]
pub struct AsrEngineChoice {
    pub id: String,
    pub label: String,
}

impl View for AsrEngineChoice {
    type V = (Seq<char>, Seq<char>);

    open spec fn view(&self) -> (Seq<char>, Seq<char>) {
        (self.id@, self.label@)
    }
}

/// The engines offered, in order.
pub open spec fn spec_asr_engine_choices() -> Seq<(Seq<char>, Seq<char>)> {
    seq![("reazonspeech"@, "ReazonSpeech k2-v2"@), ("kodama"@, "kodama-ja-streaming-small"@)]
}

pub fn asr_engine_choices() -> (r: Vec<AsrEngineChoice>)
    ensures
        r@.map_values(|c: AsrEngineChoice| c@) == spec_asr_engine_choices(),
{
    let mut r: Vec<AsrEngineChoice> = Vec::new();
    r.push(AsrEngineChoice { id: owned("reazonspeech"), label: owned("ReazonSpeech k2-v2") });
    r.push(AsrEngineChoice { id: owned("kodama"), label: owned("kodama-ja-streaming-small") });
    assert(r@.map_values(|c: AsrEngineChoice| c@) =~= spec_asr_engine_choices());
    r
}

impl AsrEngineChoice {
    /// How the choice is shown: its label.
    pub fn to_text(&self) -> (r: String)
        ensures
            r@ == self.label@,
    {
        owned(self.label.as_str())
    }
}

/// The language the recognition page shows for the stored hints: by the
/// first hint, Japanese, English, or automatic.
pub open spec fn spec_language_label(hints: Seq<Seq<char>>) -> Seq<char> {
    if hints.len() > 0 && hints[0] == "ja"@ {
        "日本語"@
    } else if hints.len() > 0 && hints[0] == "en"@ {
        "英語"@
    } else {
        "自動"@
    }
}

pub open spec fn strings_view(v: Seq<String>) -> Seq<Seq<char>> {
    v.map_values(|s: String| s@)
}

pub fn language_label(hints: &[String]) -> (r: String)
    ensures
        r@ == spec_language_label(strings_view(hints@)),
{
    if hints.len() > 0 && str_eq(hints[0].as_str(), "ja") {
        owned("日本語")
    } else if hints.len() > 0 && str_eq(hints[0].as_str(), "en") {
        owned("英語")
    } else {
        owned("自動")
    }
}

/// The hints stored for a language chosen on the recognition page.
pub open spec fn spec_language_hints(label: Seq<char>) -> Seq<Seq<char>> {
    if label == "日本語"@ {
        seq!["ja"@]
    } else if label == "英語"@ {
        seq!["en"@]
    } else {
        Seq::empty()
    }
}

pub fn language_hints(label: &str) -> (r: Vec<String>)
    ensures
        strings_view(r@) == spec_language_hints(label@),
{
    let mut r: Vec<String> = Vec::new();
    if str_eq(label, "日本語") {
        r.push(owned("ja"));
    } else if str_eq(label, "英語") {
        r.push(owned("en"));
    }
    assert(strings_view(r@) =~= spec_language_hints(label@));
    r
}

/// The label of a stored overlay position; an unknown one shows as the
/// center.
pub open spec fn spec_overlay_position_label(value: Seq<char>) -> Seq<char> {
    if value == "top"@ {
        "画面の上"@
    } else if value == "bottom"@ {
        "画面の下"@
    } else {
        "中央"@
    }
}

pub fn overlay_position_label(value: &str) -> (r: &'static str)
    ensures
        r@ == spec_overlay_position_label(value@),
{
    if str_eq(value, "top") {
        "画面の上"
    } else if str_eq(value, "bottom") {
        "画面の下"
    } else {
        "中央"
    }
}

/// The position stored for a label; an unknown label stores the center.
pub open spec fn spec_overlay_position_value(label: Seq<char>) -> Seq<char> {
    if label == "画面の上"@ {
        "top"@
    } else if label == "画面の下"@ {
        "bottom"@
    } else {
        "center"@
    }
}

pub fn overlay_position_value(label: &str) -> (r: &'static str)
    ensures
        r@ == spec_overlay_position_value(label@),
{
    if str_eq(label, "画面の上") {
        "top"
    } else if str_eq(label, "画面の下") {
        "bottom"
    } else {
        "center"
    }
}

/// The label of a stored transparency setting; an unknown one shows as
/// automatic.
pub open spec fn spec_overlay_transparent_label(value: Seq<char>) -> Seq<char> {
    if value == "on"@ {
        "使う"@
    } else if value == "off"@ {
        "使わない"@
    } else {
        "自動"@
    }
}

pub fn overlay_transparent_label(value: &str) -> (r: &'static str)
    ensures
        r@ == spec_overlay_transparent_label(value@),
{
    if str_eq(value, "on") {
        "使う"
    } else if str_eq(value, "off") {
        "使わない"
    } else {
        "自動"
    }
}

/// The transparency stored for a label; an unknown label stores automatic.
pub open spec fn spec_overlay_transparent_value(label: Seq<char>) -> Seq<char> {
    if label == "使う"@ {
        "on"@
    } else if label == "使わない"@ {
        "off"@
    } else {
        "auto"@
    }
}

pub fn overlay_transparent_value(label: &str) -> (r: &'static str)
    ensures
        r@ == spec_overlay_transparent_value(label@),
{
    if str_eq(label, "使う") {
        "on"
    } else if str_eq(label, "使わない") {
        "off"
    } else {
        "auto"
    }
}

/// A stored overlay position survives being shown and chosen again; any
/// other stored value comes back as the center.
pub proof fn law_overlay_position_labels_round_trip(value: Seq<char>)
    ensures
        spec_overlay_position_value(spec_overlay_position_label(value)) == (if value == "top"@
            || value == "bottom"@ || value == "center"@ {
            value
        } else {
            "center"@
        }),
{
    reveal_strlit("画面の上");
    reveal_strlit("画面の下");
    reveal_strlit("中央");
    reveal_strlit("top");
    reveal_strlit("bottom");
    reveal_strlit("center");
    assert("画面の上"@ != "画面の下"@) by {
        assert("画面の上"@[3] != "画面の下"@[3]);
    }
    assert("画面の上"@ != "中央"@) by {
        assert("画面の上"@[0] != "中央"@[0]);
    }
    assert("画面の下"@ != "中央"@) by {
        assert("画面の下"@[0] != "中央"@[0]);
    }
    assert("top"@ != "bottom"@) by {
        assert("top"@[0] != "bottom"@[0]);
    }
    assert("top"@ != "center"@) by {
        assert("top"@[0] != "center"@[0]);
    }
    assert("bottom"@ != "center"@) by {
        assert("bottom"@[0] != "center"@[0]);
    }
}

/// A stored transparency setting survives being shown and chosen again;
/// any other stored value comes back as automatic.
pub proof fn law_overlay_transparency_labels_round_trip(value: Seq<char>)
    ensures
        spec_overlay_transparent_value(spec_overlay_transparent_label(value)) == (if value == "on"@
            || value == "off"@ || value == "auto"@ {
            value
        } else {
            "auto"@
        }),
{
    reveal_strlit("使う");
    reveal_strlit("使わない");
    reveal_strlit("自動");
    reveal_strlit("on");
    reveal_strlit("off");
    reveal_strlit("auto");
    assert("使う"@ != "使わない"@) by {
        assert("使う"@[1] != "使わない"@[1]);
    }
    assert("使わない"@ != "自動"@) by {
        assert("使わない"@[0] != "自動"@[0]);
    }
    assert("使う"@ != "自動"@) by {
        assert("使う"@[0] != "自動"@[0]);
    }
    assert("on"@ != "off"@) by {
        assert("on"@[1] != "off"@[1]);
    }
    assert("on"@ != "auto"@) by {
        assert("on"@[0] != "auto"@[0]);
    }
    assert("off"@ != "auto"@) by {
        assert("off"@[0] != "auto"@[0]);
    }
}

/// A chosen language survives being stored and shown again.
pub proof fn law_language_round_trip(label: Seq<char>)
    ensures
        spec_language_label(spec_language_hints(label)) == (if label == "日本語"@ || label == "英語"@ {
            label
        } else {
            "自動"@
        }),
{
    reveal_strlit("ja");
    reveal_strlit("en");
    reveal_strlit("日本語");
    reveal_strlit("英語");
    reveal_strlit("自動");
    assert("ja"@ != "en"@) by {
        assert("ja"@[0] != "en"@[0]);
    }
    assert("日本語"@ != "英語"@) by {
        assert("日本語"@[0] != "英語"@[0]);
    }
    assert("日本語"@ != "自動"@) by {
        assert("日本語"@[0] != "自動"@[0]);
    }
    assert("英語"@ != "自動"@) by {
        assert("英語"@[0] != "自動"@[0]);
    }
}

/// A number typed into the settings, read as `str::parse` reads a `u32`
/// after trimming; what does not read keeps the setting as it was.
pub open spec fn spec_parse_u32_or(value: Seq<char>, fallback: u32) -> u32 {
    match parse_unsigned(trimmed(value), u32::MAX as nat) {
        Ok(n) => n as u32,
        Err(_) => fallback,
    }
}

pub fn parse_u32_or(value: &str, fallback: u32) -> (r: u32)
    ensures
        r == spec_parse_u32_or(value@, fallback),
{
    let cs = chars_of(value);
    let t = trim_chars(cs.as_slice());
    match parse_unsigned_chars(t.as_slice(), u32::MAX as u64) {
        Ok(n) => n as u32,
        Err(_) => fallback,
    }
}

/// The line under a number field: the field's description, or a request
/// for a number when the text does not read as one.
pub fn number_caption(value: &str, description: &'static str) -> (r: &'static str)
    ensures
        r@ == (if parse_unsigned(trimmed(value@), u32::MAX as nat) is Ok {
            description@
        } else {
            "数字を入れてください"@
        }),
{
    let cs = chars_of(value);
    let t = trim_chars(cs.as_slice());
    match parse_unsigned_chars(t.as_slice(), u32::MAX as u64) {
        Ok(_) => description,
        Err(_) => "数字を入れてください",
    }
}

/// A microphone as the system lists it.
pub struct AudioDevice {
    pub id: String,
    pub name: String,
    pub is_default: bool,
    pub card_name: Option<String>,
}

/// `AudioDevice` by its content.
pub struct DeviceView {
    pub id: Seq<char>,
    pub name: Seq<char>,
    pub is_default: bool,
    pub card_name: Option<Seq<char>>,
}

impl View for AudioDevice {
    type V = DeviceView;

    open spec fn view(&self) -> DeviceView {
        DeviceView {
            id: self.id@,
            name: self.name@,
            is_default: self.is_default,
            card_name: match self.card_name {
                Some(c) => Some(c@),
                None => None,
            },
        }
    }
}

pub open spec fn devices_view(v: Seq<AudioDevice>) -> Seq<DeviceView> {
    v.map_values(|d: AudioDevice| d@)
}

/// A microphone the settings offer: the stored id (empty for the system's
/// default) and its label.
#[derive(Debug, Clone, PartialEq, Eq)]
pub struct MicrophoneChoice {
    pub id: String,
    pub label: String,
}

impl View for MicrophoneChoice {
    type V = (Seq<char>, Seq<char>);

    open spec fn view(&self) -> (Seq<char>, Seq<char>) {
        (self.id@, self.label@)
    }
}

pub open spec fn choices_view(v: Seq<MicrophoneChoice>) -> Seq<(Seq<char>, Seq<char>)> {
    v.map_values(|c: MicrophoneChoice| c@)
}

/// How a microphone is named: the well-known system devices by their
/// names, others by card and device name when the card is known.
pub open spec fn spec_microphone_label(id: Seq<char>, name: Seq<char>, card_name: Option<Seq<char>>) -> Seq<
    char,
> {
    if id == "default"@ {
        "既定のデバイス"@
    } else if id == "pipewire"@ {
        "PipeWire"@
    } else if id == "pulse"@ {
        "PulseAudio"@
    } else {
        match card_name {
            Some(c) => if c.len() > 0 {
                c + " ("@ + name + ")"@
            } else {
                name
            },
            None => name,
        }
    }
}

pub fn microphone_label(id: &str, name: &str, card_name: Option<&str>) -> (r: String)
    ensures
        r@ == spec_microphone_label(
            id@,
            name@,
            match card_name {
                Some(c) => Some(c@),
                None => None,
            },
        ),
{
    if str_eq(id, "default") {
        owned("既定のデバイス")
    } else if str_eq(id, "pipewire") {
        owned("PipeWire")
    } else if str_eq(id, "pulse") {
        owned("PulseAudio")
    } else {
        match card_name {
            Some(c) => {
                let cs = chars_of(c);
                if cs.len() > 0 {
                    let mut out = owned(c);
                    push_str(&mut out, " (");
                    push_str(&mut out, name);
                    push_str(&mut out, ")");
                    out
                } else {
                    owned(name)
                }
            },
            None => owned(name),
        }
    }
}

/// The name of the first device marked as the default, if any.
pub open spec fn first_default_name(devices: Seq<DeviceView>) -> Option<Seq<char>>
    decreases devices.len(),
{
    if devices.len() == 0 {
        None
    } else if devices[0].is_default {
        Some(devices[0].name)
    } else {
        first_default_name(devices.drop_first())
    }
}

/// The label of the choice that follows the system's default.
pub open spec fn default_choice_label(devices: Seq<DeviceView>) -> Seq<char> {
    match first_default_name(devices) {
        Some(n) => "既定のデバイス（"@ + n + "）"@,
        None => "既定のデバイス"@,
    }
}

/// The devices other than the default, each as a choice, in order.
pub open spec fn listed_devices(devices: Seq<DeviceView>) -> Seq<(Seq<char>, Seq<char>)>
    decreases devices.len(),
{
    if devices.len() == 0 {
        Seq::empty()
    } else {
        let d = devices.last();
        let rest = listed_devices(devices.drop_last());
        if d.is_default {
            rest
        } else {
            rest.push((d.id, spec_microphone_label(d.id, d.name, d.card_name)))
        }
    }
}

/// Some choice has this id.
pub open spec fn offers(choices: Seq<(Seq<char>, Seq<char>)>, id: Seq<char>) -> bool {
    exists|i: int| 0 <= i < choices.len() && (#[trigger] choices[i]).0 == id
}

/// A stored microphone that is not on offer is added, so that the setting
/// stays visible.
pub open spec fn with_selected(choices: Seq<(Seq<char>, Seq<char>)>, selected_id: Seq<char>) -> Seq<
    (Seq<char>, Seq<char>),
> {
    if selected_id.len() > 0 && !offers(choices, selected_id) {
        choices.push((selected_id, spec_microphone_label(selected_id, selected_id, None)))
    } else {
        choices
    }
}

/// The microphones the settings offer: the system's default first, then
/// every other device, then the stored one if it is not among them.
pub open spec fn spec_microphone_choices(devices: Seq<DeviceView>, selected_id: Seq<char>) -> Seq<
    (Seq<char>, Seq<char>),
> {
    with_selected(seq![(Seq::empty(), default_choice_label(devices))] + listed_devices(devices), selected_id)
}

pub fn add_selected_microphone(choices: &mut Vec<MicrophoneChoice>, selected_id: &str)
    ensures
        choices_view(final(choices)@) == with_selected(choices_view(old(choices)@), selected_id@),
{
    let ghost cv = choices_view(choices@);
    if chars_of(selected_id).len() == 0 {
        return;
    }
    let mut i: usize = 0;
    while i < choices.len()
        invariant
            0 <= i <= choices@.len(),
            cv == choices_view(choices@),
            forall|j: int| 0 <= j < i ==> cv[j].0 != selected_id@,
        decreases choices.len() - i,
    {
        if str_eq(choices[i].id.as_str(), selected_id) {
            assert(cv[i as int].0 == selected_id@);
            return;
        }
        i = i + 1;
    }
    let label = microphone_label(selected_id, selected_id, None);
    choices.push(MicrophoneChoice { id: owned(selected_id), label });
    assert(choices_view(choices@) =~= cv.push((selected_id@, label@)));
}

fn default_label(devices: &[AudioDevice]) -> (r: String)
    ensures
        r@ == default_choice_label(devices_view(devices@)),
{
    let ghost dv = devices_view(devices@);
    let mut i: usize = 0;
    assert(dv.skip(0) =~= dv);
    while i < devices.len()
        invariant
            0 <= i <= devices@.len(),
            dv == devices_view(devices@),
            first_default_name(dv) == first_default_name(dv.skip(i as int)),
        decreases devices.len() - i,
    {
        assert(dv.skip(i as int).drop_first() =~= dv.skip(i + 1));
        if devices[i].is_default {
            let mut out = owned("既定のデバイス（");
            push_str(&mut out, devices[i].name.as_str());
            push_str(&mut out, "）");
            return out;
        }
        i = i + 1;
    }
    owned("既定のデバイス")
}

/// The microphones the settings offer (see `spec_microphone_choices`).
pub fn microphone_choices_from_devices(devices: Vec<AudioDevice>, selected_id: &str) -> (r: Vec<
    MicrophoneChoice,
>)
    ensures
        choices_view(r@) == spec_microphone_choices(devices_view(devices@), selected_id@),
{
    let ghost dv = devices_view(devices@);
    let mut choices: Vec<MicrophoneChoice> = Vec::new();
    choices.push(MicrophoneChoice { id: String::new(), label: default_label(devices.as_slice()) });
    let ghost head = choices_view(choices@);
    assert(head =~= seq![(Seq::<char>::empty(), default_choice_label(dv))]);
    let mut i: usize = 0;
    assert(dv.take(0) =~= Seq::<DeviceView>::empty());
    while i < devices.len()
        invariant
            0 <= i <= devices@.len(),
            dv == devices_view(devices@),
            choices_view(choices@) == head + listed_devices(dv.take(i as int)),
        decreases devices.len() - i,
    {
        let d = &devices[i];
        assert(dv.take(i + 1).drop_last() =~= dv.take(i as int));
        if !d.is_default {
            let card = match &d.card_name {
                Some(c) => Some(c.as_str()),
                None => None,
            };
            let label = microphone_label(d.id.as_str(), d.name.as_str(), card);
            let ghost before = choices_view(choices@);
            choices.push(MicrophoneChoice { id: owned(d.id.as_str()), label });
            assert(choices_view(choices@) =~= before.push((d.id@, label@)));
        }
        i = i + 1;
    }
    assert(dv.take(i as int) =~= dv);
    add_selected_microphone(&mut choices, selected_id);
    choices
}

/// The system's default is offered once, first, under the empty id, as
/// long as no other device has an empty id; and a stored microphone is
/// always on offer.
pub proof fn law_default_microphone_is_offered_once(devices: Seq<DeviceView>, selected_id: Seq<char>)
    requires
        forall|i: int| 0 <= i < devices.len() && !devices[i].is_default ==> (#[trigger] devices[i]).id.len()
            > 0,
    ensures
        spec_microphone_choices(devices, selected_id)[0].0 == Seq::<char>::empty(),
        forall|i: int|
            0 < i < spec_microphone_choices(devices, selected_id).len() ==> (#[trigger] spec_microphone_choices(
                devices,
                selected_id,
            )[i]).0.len() > 0,
        selected_id.len() > 0 ==> offers(spec_microphone_choices(devices, selected_id), selected_id),
{
    lemma_listed_ids_are_not_empty(devices);
    let base = seq![(Seq::<char>::empty(), default_choice_label(devices))] + listed_devices(devices);
    assert forall|i: int| 0 < i < base.len() implies (#[trigger] base[i]).0.len() > 0 by {
        assert(base[i] == listed_devices(devices)[i - 1]);
    }
    if selected_id.len() > 0 && !offers(base, selected_id) {
        let r = base.push((selected_id, spec_microphone_label(selected_id, selected_id, None)));
        assert(r[r.len() - 1].0 == selected_id);
    }
}

proof fn lemma_listed_ids_are_not_empty(devices: Seq<DeviceView>)
    requires
        forall|i: int| 0 <= i < devices.len() && !devices[i].is_default ==> (#[trigger] devices[i]).id.len()
            > 0,
    ensures
        forall|i: int| 0 <= i < listed_devices(devices).len() ==> (#[trigger] listed_devices(devices)[i]).0.len()
            > 0,
    decreases devices.len(),
{
    if devices.len() > 0 {
        let d = devices.drop_last();
        assert forall|i: int| 0 <= i < d.len() && !d[i].is_default implies (#[trigger] d[i]).id.len() > 0 by {
            assert(d[i] == devices[i]);
        }
        lemma_listed_ids_are_not_empty(d);
        let last = devices.last();
        let rest = listed_devices(d);
        assert(last == devices[devices.len() - 1]);
        if !last.is_default {
            let r = rest.push((last.id, spec_microphone_label(last.id, last.name, last.card_name)));
            assert(listed_devices(devices) == r);
            assert forall|i: int| 0 <= i < r.len() implies (#[trigger] r[i]).0.len() > 0 by {
                if i < rest.len() {
                    assert(r[i] == rest[i]);
                }
            }
        } else {
            assert(listed_devices(devices) == rest);
        }
    }
}

} // verus!
