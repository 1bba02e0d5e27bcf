//! Following the desktop's light/dark preference: reading the portal's
//! colour-scheme setting, reacting to its change signal, and switching the
//! bar to the configured light or dark theme.

use vstd::prelude::*;
use crate::text::{contains, has_sub, same_text, to_chars, to_uppercase, uppercase};

verus! {

/// The bar's theme-switch settings.
pub struct ThemeSwitch {
    /// Follow the desktop's colour scheme.
    pub auto: bool,
    /// Theme used when the desktop prefers dark.
    pub dark: String,
    /// Theme used when the desktop prefers light.
    pub light: String,
}

/// A resolved theme: its style data and the sensor list and header settings
/// it brings, if any.
pub struct Theme<P, S, H> {
    pub style: P,
    pub sensors: Option<S>,
    pub header: Option<H>,
}

/// The parts of the bar's state that a theme switch touches.
pub struct BarState<P, S, H> {
    /// Name of the active theme.
    pub theme_name: String,
    /// Temperature sensors to read.
    pub sensors: S,
    /// Header settings.
    pub header: H,
    /// The active theme.
    pub theme: Theme<P, S, H>,
}

/// The portal value for the colour-scheme setting that means "prefer dark".
pub const PREFER_DARK: u32 = 1;

/// The session bus address from `$DBUS_SESSION_BUS_ADDRESS`, if set and
/// not empty.
pub fn session_bus_address(var: Option<String>) -> (r: Option<String>)
    ensures
        r matches Some(a) ==> var matches Some(v) && a@ == v@ && v@.len() > 0,
        r is None ==> (var matches Some(v) ==> v@.len() == 0),
{
    match var {
        Some(a) => if a.as_str().is_empty() {
            None
        } else {
            Some(a)
        },
        None => None,
    }
}

/// The switch for a one-off read of the colour-scheme value.
pub open spec fn sync_spec(auto: bool, value: Option<u32>) -> Option<bool> {
    if auto && value is Some {
        Some(value->0 == PREFER_DARK)
    } else {
        None
    }
}

/// The switch for a `SettingChanged` signal.
pub open spec fn signal_spec(
    n: usize,
    namespace: Option<Seq<char>>,
    key: Option<Seq<char>>,
    auto: bool,
    value: Option<u32>,
) -> Option<bool> {
    if n >= 3 && namespace == Some("org.freedesktop.appearance"@) && key == Some("color-scheme"@)
        && auto {
        Some(value == Some(PREFER_DARK))
    } else {
        None
    }
}

/// The view of an optional text.
pub open spec fn opt_str(o: Option<&str>) -> Option<Seq<char>> {
    match o {
        Some(s) => Some(s@),
        None => None,
    }
}

/// The switch to make after reading the colour-scheme setting once: none
/// when following is off or nothing was read, otherwise dark exactly when the
/// value read means "prefer dark".
pub fn sync_target(auto: bool, value: Option<u32>) -> (r: Option<bool>)
    ensures
        r == sync_spec(auto, value),
{
    if !auto {
        return None;
    }
    match value {
        Some(v) => Some(v == PREFER_DARK),
        None => None,
    }
}

/// The switch to make on a `SettingChanged` signal with `n` parameters,
/// namespace and key (when they are strings) and the value (when it is a
/// `u32`): none unless the signal is the appearance colour-scheme and
/// following is on; then dark exactly when the value means "prefer dark",
/// a missing value counting as light.
pub fn setting_changed(
    n: usize,
    namespace: Option<&str>,
    key: Option<&str>,
    auto: bool,
    value: Option<u32>,
) -> (r: Option<bool>)
    ensures
        r == signal_spec(n, opt_str(namespace), opt_str(key), auto, value),
{
    if n < 3 {
        return None;
    }
    let ns_ok = match namespace {
        Some(ns) => same_text(ns, "org.freedesktop.appearance"),
        None => false,
    };
    let key_ok = match key {
        Some(k) => same_text(k, "color-scheme"),
        None => false,
    };
    if !ns_ok || !key_ok {
        return None;
    }
    if !auto {
        return None;
    }
    let dark = match value {
        Some(v) => v == PREFER_DARK,
        None => false,
    };
    Some(dark)
}

/// The style label for a desktop name already in uppercase.
pub open spec fn style_spec(upper: Seq<char>) -> Seq<char> {
    if has_sub(upper, "KDE"@) {
        "kde"@
    } else {
        "gnome"@
    }
}

/// The style label for an uppercase desktop name: "kde" for KDE desktops,
/// "gnome" otherwise.
pub fn style_for_upper(upper: &str) -> (s: &'static str)
    ensures
        s@ == style_spec(upper@),
{
    let v = to_chars(upper);
    if contains(&v, "KDE") {
        "kde"
    } else {
        "gnome"
    }
}

/// The desktop-environment style label for CSS class selection, from
/// `$XDG_CURRENT_DESKTOP` (empty when unset), ignoring case.
pub fn desktop_style(desktop: &str) -> (s: &'static str)
    ensures
        s@ == style_spec(uppercase(desktop@)),
{
    let u = to_uppercase(desktop);
    style_for_upper(u.as_str())
}

/// The name of the theme to switch to.
pub open spec fn theme_name_spec(sw: ThemeSwitch, is_dark: bool) -> Seq<char> {
    if is_dark {
        sw.dark@
    } else {
        sw.light@
    }
}

/// The name of the configured theme for a dark or light preference.
pub fn theme_name(sw: &ThemeSwitch, is_dark: bool) -> (r: String)
    ensures
        r@ == theme_name_spec(*sw, is_dark),
{
    if is_dark {
        sw.dark.clone()
    } else {
        sw.light.clone()
    }
}

/// `after` is `before` switched to the light or dark theme `resolved`: the
/// configured name, the theme itself, and the theme's sensor list and header
/// settings (as clones) where it has them, the bar's own where it has not.
pub open spec fn apply_post<P, S: Clone, H: Clone>(
    before: BarState<P, S, H>,
    after: BarState<P, S, H>,
    sw: ThemeSwitch,
    is_dark: bool,
    resolved: Theme<P, S, H>,
) -> bool {
    &&& after.theme_name@ == theme_name_spec(sw, is_dark)
    &&& after.theme == resolved
    &&& match resolved.sensors {
        Some(s) => cloned(s, after.sensors),
        None => after.sensors == before.sensors,
    }
    &&& match resolved.header {
        Some(h) => cloned(h, after.header),
        None => after.header == before.header,
    }
}

/// Switch the bar to the light or dark theme; `resolved` is the theme that
/// `theme_name` names for this preference. The theme's sensor list and
/// header settings, where it has them, replace the bar's own.
pub fn apply<P, S: Clone, H: Clone>(
    state: &mut BarState<P, S, H>,
    sw: &ThemeSwitch,
    is_dark: bool,
    resolved: Theme<P, S, H>,
)
    ensures
        apply_post(*old(state), *final(state), *sw, is_dark, resolved),
{
    let name = theme_name(sw, is_dark);
    state.theme_name = name;
    if let Some(s) = &resolved.sensors {
        state.sensors = s.clone();
    }
    if let Some(h) = &resolved.header {
        state.header = h.clone();
    }
    state.theme = resolved;
}

/// A live colour-scheme change and a one-off read of the same value pick the
/// same theme.
pub proof fn law_signal_agrees_with_read(n: usize, auto: bool, v: u32)
    requires
        n >= 3,
    ensures
        signal_spec(n, Some("org.freedesktop.appearance"@), Some("color-scheme"@), auto, Some(v))
            == sync_spec(auto, Some(v)),
{
}

/// The style label is always "kde" or "gnome".
pub proof fn law_style_is_kde_or_gnome(upper: Seq<char>)
    ensures
        style_spec(upper) == "kde"@ || style_spec(upper) == "gnome"@,
{
}

/// Switching twice to the same preference, with the same theme resolved
/// both times, leaves the bar as the first switch left it, for sensor and
/// header types whose clones equal what they copy.
pub proof fn law_apply_idempotent<P, S: Clone, H: Clone>(
    s0: BarState<P, S, H>,
    s1: BarState<P, S, H>,
    s2: BarState<P, S, H>,
    sw: ThemeSwitch,
    is_dark: bool,
    resolved: Theme<P, S, H>,
)
    requires
        apply_post(s0, s1, sw, is_dark, resolved),
        apply_post(s1, s2, sw, is_dark, resolved),
        forall|a: S, b: S| #[trigger] cloned(a, b) ==> a == b,
        forall|a: H, b: H| #[trigger] cloned(a, b) ==> a == b,
    ensures
        s2.theme_name@ == s1.theme_name@,
        s2.theme == s1.theme,
        s2.sensors == s1.sensors,
        s2.header == s1.header,
{
    match resolved.sensors {
        Some(s) => {
            assert(cloned(s, s1.sensors));
            assert(cloned(s, s2.sensors));
        },
        None => {},
    }
    match resolved.header {
        Some(h) => {
            assert(cloned(h, s1.header));
            assert(cloned(h, s2.header));
        },
        None => {},
    }
}

} // verus!
