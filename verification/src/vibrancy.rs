//! Which window effect an OpenHarmony window gets: the first configured
//! effect decides, Blur and Acrylic are applied as such, the Mica and Tabbed
//! families are not supported, and the macOS materials fall back to a blur.
use vstd::prelude::*;

verus! {

/// A window effect of the Tauri configuration.
#[derive(Debug, PartialEq, Eq, Structural, Clone, Copy)]
pub enum Effect {
    AppearanceBased,
    Light,
    Dark,
    MediumLight,
    UltraDark,
    Titlebar,
    Selection,
    Menu,
    Popover,
    Sidebar,
    HeaderView,
    Sheet,
    WindowBackground,
    HudWindow,
    FullScreenUI,
    Tooltip,
    ContentBackground,
    UnderWindowBackground,
    UnderPageBackground,
    Mica,
    MicaDark,
    MicaLight,
    Tabbed,
    TabbedDark,
    TabbedLight,
    Blur,
    Acrylic,
}

/// What is done to the window.
#[derive(Debug, PartialEq, Eq, Structural, Clone, Copy)]
pub enum EffectAction {
    /// A blur of the configured radius.
    Blur,
    /// A blur of the configured radius with the configured tint.
    Acrylic,
    /// Nothing: the effect is not supported.
    Skip,
}

/// The action for one effect.
pub open spec fn action_of(e: Effect) -> EffectAction {
    match e {
        Effect::Blur => EffectAction::Blur,
        Effect::Acrylic => EffectAction::Acrylic,
        Effect::Mica | Effect::MicaDark | Effect::MicaLight | Effect::Tabbed | Effect::TabbedDark
        | Effect::TabbedLight => EffectAction::Skip,
        _ => EffectAction::Blur,
    }
}

/// What is applied to a window, given the outcome of looking up its
/// OpenHarmony window id (none when the lookup found no id or failed) and
/// the configured effects: nothing without an id or without an effect;
/// otherwise the action of the first effect, on the id found.
pub fn apply_effects(window: Option<u32>, effects: &Vec<Effect>) -> (r: Option<(u32, EffectAction)>)
    ensures
        window is None ==> r is None,
        effects@.len() == 0 ==> r is None,
        effects@.len() > 0 ==> (window matches Some(w) ==> r == Some((w, action_of(effects@[0])))),
        r matches Some((w, a)) ==> window == Some(w) && effects@.len() > 0 && (a == EffectAction::Skip
            <==> (effects@[0] == Effect::Mica || effects@[0] == Effect::MicaDark || effects@[0]
            == Effect::MicaLight || effects@[0] == Effect::Tabbed || effects@[0] == Effect::TabbedDark
            || effects@[0] == Effect::TabbedLight)) && (a == EffectAction::Acrylic <==> effects@[0]
            == Effect::Acrylic),
{
    let w = match window {
        Some(w) => w,
        None => {
            return None;
        },
    };
    if effects.len() == 0 {
        return None;
    }
    let e = effects[0];
    let a = match e {
        Effect::Blur => EffectAction::Blur,
        Effect::Acrylic => EffectAction::Acrylic,
        Effect::Mica | Effect::MicaDark | Effect::MicaLight | Effect::Tabbed | Effect::TabbedDark
        | Effect::TabbedLight => EffectAction::Skip,
        _ => EffectAction::Blur,
    };
    Some((w, a))
}

/// What each effect does on OpenHarmony: the Mica and Tabbed families are
/// skipped and nothing else is, Acrylic is a tinted blur and nothing else
/// is, and every other effect (Blur and the macOS materials) is a plain
/// blur.
pub proof fn lemma_effect_actions(e: Effect)
    ensures
        action_of(e) == EffectAction::Skip <==> (e == Effect::Mica || e == Effect::MicaDark || e
            == Effect::MicaLight || e == Effect::Tabbed || e == Effect::TabbedDark || e
            == Effect::TabbedLight),
        action_of(e) == EffectAction::Acrylic <==> e == Effect::Acrylic,
        action_of(e) == EffectAction::Blur <==> !(e == Effect::Mica || e == Effect::MicaDark || e
            == Effect::MicaLight || e == Effect::Tabbed || e == Effect::TabbedDark || e
            == Effect::TabbedLight || e == Effect::Acrylic),
{
}

/// Only the first configured effect counts: effects after it never change
/// the action.
pub proof fn lemma_first_effect_decides(effects: Seq<Effect>, more: Seq<Effect>)
    requires
        effects.len() > 0,
    ensures
        action_of((effects + more)[0]) == action_of(effects[0]),
{
}

} // verus!
