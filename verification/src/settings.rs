//! The persisted settings of the OSD window: where it stands and how opaque it is.

use vstd::prelude::*;

verus! {

/// Position of the OSD window's top-left corner on the screen and its opacity
/// (0 is fully transparent, 255 fully opaque).
#[derive(Debug, Clone, Copy, PartialEq, Eq, Structural)]
pub struct Settings {
    pub x: i32,
    pub y: i32,
    pub opacity: u8,
}

/// The settings used when none were saved, or when the saved ones cannot be read.
pub open spec fn default_settings() -> Settings {
    Settings { x: 100, y: 100, opacity: 200 }
}

/// `s` with its opacity replaced.
pub open spec fn with_opacity(s: Settings, opacity: u8) -> Settings {
    Settings { opacity, ..s }
}

/// `s` with its position replaced.
pub open spec fn with_location(s: Settings, x: i32, y: i32) -> Settings {
    Settings { x, y, ..s }
}

impl Default for Settings {
    fn default() -> (r: Settings)
        ensures
            r == default_settings(),
            r.x == 100,
            r.y == 100,
            r.opacity == 200,
    {
        Settings { x: 100, y: 100, opacity: 200 }
    }
}

/// What loading the settings yields, given what could be read and parsed
/// (`None` when the file is missing, unreadable or malformed).
pub fn settings_or_default(loaded: Option<Settings>) -> (r: Settings)
    ensures
        r == (match loaded {
            Some(s) => s,
            None => default_settings(),
        }),
        loaded matches Some(s) ==> r == s,
        loaded is None ==> r.x == 100 && r.y == 100 && r.opacity == 200,
{
    match loaded {
        Some(s) => s,
        None => Settings::default(),
    }
}

/// The settings after the user picked a new opacity.
pub fn update_opacity(settings: Settings, opacity: u8) -> (r: Settings)
    ensures
        r == with_opacity(settings, opacity),
        r.opacity == opacity,
        r.x == settings.x,
        r.y == settings.y,
{
    let mut s = settings;
    s.opacity = opacity;
    s
}

/// The settings after the user dragged the OSD window to `(x, y)`.
pub fn update_location(settings: Settings, x: i32, y: i32) -> (r: Settings)
    ensures
        r == with_location(settings, x, y),
        r.x == x,
        r.y == y,
        r.opacity == settings.opacity,
{
    let mut s = settings;
    s.x = x;
    s.y = y;
    s
}

/// Moving the window and changing its opacity do not interfere: applied in
/// either order, the two updates give the same settings.
pub proof fn lemma_updates_commute(s: Settings, opacity: u8, x: i32, y: i32)
    ensures
        with_location(with_opacity(s, opacity), x, y) == with_opacity(with_location(s, x, y), opacity),
{
}

/// Of two opacity updates the later one wins.
pub proof fn lemma_opacity_last_write_wins(s: Settings, first: u8, second: u8)
    ensures
        with_opacity(with_opacity(s, first), second) == with_opacity(s, second),
{
}

/// Of two moves the later one wins.
pub proof fn lemma_location_last_write_wins(s: Settings, x1: i32, y1: i32, x2: i32, y2: i32)
    ensures
        with_location(with_location(s, x1, y1), x2, y2) == with_location(s, x2, y2),
{
}

/// Setting the opacity the settings already have changes nothing, and so
/// does moving the window to where it already stands.
pub proof fn lemma_updates_idempotent(s: Settings)
    ensures
        with_opacity(s, s.opacity) == s,
        with_location(s, s.x, s.y) == s,
{
}

} // verus!
