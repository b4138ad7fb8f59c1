//! Desktop-environment detection, from a snapshot of the relevant
//! environment variables to the focus-source variant the daemon runs.

use vstd::prelude::*;
use crate::strings::contains_substring;
use crate::strings::lower_of;
use crate::strings::str_contains_str;
use crate::strings::to_lowercase_owned;

verus! {

/// The detected desktop environment, which picks the focus source.
#[derive(Debug, Clone, Copy, PartialEq, Eq)]
pub enum Environment {
    Gnome,
    Kde,
    Wayland,
    X11,
    Unknown,
}

impl Environment {
    /// Short name of the environment.
    pub fn as_str(&self) -> (r: &'static str)
        ensures
            *self is Gnome ==> r@ == "gnome"@,
            *self is Kde ==> r@ == "kde"@,
            *self is Wayland ==> r@ == "wayland"@,
            *self is X11 ==> r@ == "x11"@,
            *self is Unknown ==> r@ == "unknown"@,
    {
        match self {
            Environment::Gnome => "gnome",
            Environment::Kde => "kde",
            Environment::Wayland => "wayland",
            Environment::X11 => "x11",
            Environment::Unknown => "unknown",
        }
    }
}

/// What the environment snapshot maps to: GNOME when the current
/// desktop names it (case-insensitively) or its setup display is
/// present; then KDE by its session marker; then Wayland by its
/// display; then X11 by its display; else unknown.
pub open spec fn detect_spec(
    current_desktop: Seq<char>,
    gnome_setup_display: bool,
    kde_session: bool,
    wayland_display: bool,
    x11_display: bool,
) -> Environment {
    if contains_substring(lower_of(current_desktop), "gnome"@) || gnome_setup_display {
        Environment::Gnome
    } else if kde_session {
        Environment::Kde
    } else if wayland_display {
        Environment::Wayland
    } else if x11_display {
        Environment::X11
    } else {
        Environment::Unknown
    }
}

/// Detects the environment from the values of `XDG_CURRENT_DESKTOP`
/// (empty when unset) and the presence of `GNOME_SETUP_DISPLAY`,
/// `KDE_SESSION_VERSION`, `WAYLAND_DISPLAY` and `DISPLAY`.
pub fn detect_environment(
    current_desktop: &str,
    gnome_setup_display: bool,
    kde_session: bool,
    wayland_display: bool,
    x11_display: bool,
) -> (r: Environment)
    ensures
        r == detect_spec(
            current_desktop@,
            gnome_setup_display,
            kde_session,
            wayland_display,
            x11_display,
        ),
{
    let lowered = to_lowercase_owned(current_desktop);
    if str_contains_str(lowered.as_str(), "gnome") || gnome_setup_display {
        Environment::Gnome
    } else if kde_session {
        Environment::Kde
    } else if wayland_display {
        Environment::Wayland
    } else if x11_display {
        Environment::X11
    } else {
        Environment::Unknown
    }
}

} // verus!
