//! Reading the client's display and paste settings, and choosing the server
//! URL.

use crate::text::{is_blank, owned, str_eq, str_is_blank};
use vstd::prelude::*;

verus! {

#[derive(Debug, Clone, Copy, PartialEq, Eq, Structural)]
pub enum OverlayPosition {
    Bottom,
    Top,
    Center,
}

#[derive(Debug, Clone, Copy, PartialEq, Eq, Structural)]
pub enum OverlayTransparency {
    Auto,
    On,
    Off,
}

/// Whether the overlay window is made transparent: as asked, or, left to
/// the program, when a compositor runs.
pub fn overlay_is_transparent(requested: OverlayTransparency, compositor_available: bool) -> (r: bool)
    ensures
        r == match requested {
            OverlayTransparency::On => true,
            OverlayTransparency::Off => false,
            OverlayTransparency::Auto => compositor_available,
        },
{
    match requested {
        OverlayTransparency::On => true,
        OverlayTransparency::Off => false,
        OverlayTransparency::Auto => compositor_available,
    }
}

/// The key used to paste. `Auto` never inspects the target and always uses
/// `Shift+Insert`.
#[derive(Debug, Clone, Copy, PartialEq, Eq, Structural)]
pub enum PasteShortcutSetting {
    Auto,
    CtrlV,
    CtrlShiftV,
    ShiftInsert,
}

/// A key chord that pastes.
#[derive(Debug, Clone, Copy, PartialEq, Eq, Structural)]
pub enum PasteShortcut {
    CtrlV,
    CtrlShiftV,
    ShiftInsert,
}

pub open spec fn spec_paste_shortcut(s: PasteShortcutSetting) -> PasteShortcut {
    match s {
        PasteShortcutSetting::Auto | PasteShortcutSetting::ShiftInsert => PasteShortcut::ShiftInsert,
        PasteShortcutSetting::CtrlV => PasteShortcut::CtrlV,
        PasteShortcutSetting::CtrlShiftV => PasteShortcut::CtrlShiftV,
    }
}

/// The chord a paste setting stands for.
pub fn resolve_paste_shortcut(setting: PasteShortcutSetting) -> (r: PasteShortcut)
    ensures
        r == spec_paste_shortcut(setting),
{
    match setting {
        PasteShortcutSetting::Auto | PasteShortcutSetting::ShiftInsert => PasteShortcut::ShiftInsert,
        PasteShortcutSetting::CtrlV => PasteShortcut::CtrlV,
        PasteShortcutSetting::CtrlShiftV => PasteShortcut::CtrlShiftV,
    }
}

/// The saved values of the overlay position: `top`, `bottom`, `center`
/// (the default, also for anything unknown).
pub open spec fn spec_overlay_position(value: Seq<char>) -> OverlayPosition {
    if value == "top"@ {
        OverlayPosition::Top
    } else if value == "bottom"@ {
        OverlayPosition::Bottom
    } else {
        OverlayPosition::Center
    }
}

/// The saved values of overlay transparency: `on`, `off`, and `auto` for
/// anything else.
pub open spec fn spec_overlay_transparency(value: Seq<char>) -> OverlayTransparency {
    if value == "on"@ {
        OverlayTransparency::On
    } else if value == "off"@ {
        OverlayTransparency::Off
    } else {
        OverlayTransparency::Auto
    }
}

pub fn overlay_position(value: &str) -> (r: OverlayPosition)
    ensures
        r == spec_overlay_position(value@),
{
    if str_eq(value, "top") {
        OverlayPosition::Top
    } else if str_eq(value, "bottom") {
        OverlayPosition::Bottom
    } else {
        OverlayPosition::Center
    }
}

pub fn overlay_transparency(value: &str) -> (r: OverlayTransparency)
    ensures
        r == spec_overlay_transparency(value@),
{
    if str_eq(value, "on") {
        OverlayTransparency::On
    } else if str_eq(value, "off") {
        OverlayTransparency::Off
    } else {
        OverlayTransparency::Auto
    }
}

/// The server URL: the `OTOA_SERVER_URL` environment value if it is not
/// blank, else the configured one if it is not blank, else none (the
/// connection provider then picks its own default).
pub open spec fn spec_resolved_server_url(environment: Option<Seq<char>>, configured: Seq<char>) -> Option<
    Seq<char>,
> {
    match environment {
        Some(e) if !is_blank(e) => Some(e),
        _ => if is_blank(configured) {
            None
        } else {
            Some(configured)
        },
    }
}

pub fn resolve_server_url(environment: Option<&str>, configured: &str) -> (r: Option<String>)
    ensures
        crate::config::option_view(r) == spec_resolved_server_url(
            match environment {
                Some(e) => Some(e@),
                None => None,
            },
            configured@,
        ),
{
    match environment {
        Some(e) => {
            if !str_is_blank(e) {
                return Some(owned(e));
            }
        },
        None => {},
    }
    if str_is_blank(configured) {
        None
    } else {
        Some(owned(configured))
    }
}

/// Restoring the primary selection after a paste is on unless turned off.
pub fn default_restore_primary_selection() -> (r: bool)
    ensures
        r,
{
    true
}

/// The rows of the settings window, by name, so that a distribution can
/// drop the ones that mean nothing to it.
#[derive(Clone, Copy, PartialEq, Eq, Structural, Debug, Hash)]
#[non_exhaustive]
pub enum SettingsRow {
    /// General: start listening at launch.
    StartListening,
    /// General: paste automatically after the text is final.
    AutoPaste,
    /// General: language.
    Language,
    /// General: how long without speech before the connection closes.
    IdleClose,
    /// Microphone: which microphone.
    Microphone,
    /// Microphone: input gain.
    InputGain,
    /// Microphone: input level.
    InputLevel,
    /// Recognition: the recognition engine.
    AsrEngine,
    /// Recognition: the silence that ends an utterance.
    VadMinSilence,
    /// Recognition: the shortest sound taken as speech.
    VadMinSpeech,
    /// Recognition: how easily speech is picked up (the VAD threshold).
    VadThreshold,
    /// Recognition: how far back the start of speech is kept.
    Preroll,
}

} // verus!
