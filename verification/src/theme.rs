//! Choice of the icon brightness from what the desktop says about its theme.

use vstd::prelude::*;
use crate::strings::{contains_run, lowercase_of, str_contains, str_to_lowercase};

verus! {

/// Brightness of icons for a dark panel: white.
pub const LIGHT_ICONS: u8 = 255;

/// Brightness of icons for a light panel: black.
pub const DARK_ICONS: u8 = 0;

/// Whether a desktop name, in lower case, belongs to a desktop whose panel
/// is light by default.
pub open spec fn is_light_desktop(desktop_lower: Seq<char>) -> bool {
    contains_run(desktop_lower, "xfce"@) || contains_run(desktop_lower, "elementary"@)
        || contains_run(desktop_lower, "kde"@)
}

/// The brightness of the icons. A theme setting that says `true` for a dark
/// theme asks for white icons. Failing that, a desktop with a light panel
/// asks for black ones, and everything else gets white ones.
pub open spec fn spec_theme_color(
    dark_theme_setting: Option<Seq<char>>,
    desktop_lower: Option<Seq<char>>,
) -> u8 {
    if dark_theme_setting is Some && contains_run(dark_theme_setting->0, "true"@) {
        LIGHT_ICONS
    } else if desktop_lower is Some && is_light_desktop(desktop_lower->0) {
        DARK_ICONS
    } else {
        LIGHT_ICONS
    }
}

/// The view of an optional text.
pub open spec fn text_view(text: Option<&str>) -> Option<Seq<char>> {
    match text {
        Some(t) => Some(t@),
        None => None,
    }
}

/// The view of an optional text in lower case.
pub open spec fn lowercase_view(text: Option<&str>) -> Option<Seq<char>> {
    match text {
        Some(t) => Some(lowercase_of(t@)),
        None => None,
    }
}

/// Chooses the brightness of the icons from the answer of the theme
/// setting, if it could be read, and the name of the desktop in lower case,
/// if it is known.
pub fn theme_color(dark_theme_setting: Option<&str>, desktop_lower: Option<&str>) -> (r: u8)
    ensures
        r == spec_theme_color(text_view(dark_theme_setting), text_view(desktop_lower)),
        r == LIGHT_ICONS || r == DARK_ICONS,
{
    let dark = match dark_theme_setting {
        Some(answer) => str_contains(answer, "true"),
        None => false,
    };
    if dark {
        return LIGHT_ICONS;
    }
    let light_desktop = match desktop_lower {
        Some(name) => str_contains(name, "xfce") || str_contains(name, "elementary") || str_contains(
            name,
            "kde",
        ),
        None => false,
    };
    if light_desktop {
        DARK_ICONS
    } else {
        LIGHT_ICONS
    }
}

/// Chooses the brightness of the icons, 255 for white and 0 for black, from
/// the answer of the desktop's dark-theme setting and the name of the
/// desktop, in whatever case it comes.
pub fn get_text_color(dark_theme_setting: Option<&str>, desktop: Option<&str>) -> (r: u8)
    ensures
        r == spec_theme_color(text_view(dark_theme_setting), lowercase_view(desktop)),
        r == LIGHT_ICONS || r == DARK_ICONS,
{
    match desktop {
        Some(name) => {
            let lower = str_to_lowercase(name);
            theme_color(dark_theme_setting, Some(lower.as_str()))
        },
        None => theme_color(dark_theme_setting, None),
    }
}

} // verus!
