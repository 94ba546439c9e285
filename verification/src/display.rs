use vstd::prelude::*;
use crate::containers::Container;
use crate::decimal::{parse_unsigned_spec, IntErrorKind};

verus! {

/// How the timelines are shown: all side by side, or one main timeline with its
/// own container and column count.
#[derive(Clone, Copy, Debug, PartialEq, Eq, Structural)]
pub enum DisplayMode {
    Default,
    Single { container: Container, column_count: u8 },
}

impl Default for DisplayMode {
    fn default() -> (r: Self)
        ensures
            r == DisplayMode::Default,
    {
        DisplayMode::Default
    }
}

/// The single-timeline mode that the app falls back on.
pub open spec fn default_single() -> DisplayMode {
    DisplayMode::Single { container: Container::Masonry, column_count: 4 }
}

/// Switches between the multi-timeline mode and the last single-timeline mode.
pub fn toggle_display_mode(current: DisplayMode, last_single: DisplayMode) -> (r: DisplayMode)
    ensures
        r == match current {
            DisplayMode::Default => last_single,
            DisplayMode::Single { .. } => DisplayMode::Default,
        },
{
    match current {
        DisplayMode::Default => last_single,
        DisplayMode::Single { .. } => DisplayMode::Default,
    }
}

/// The single-timeline mode to come back to from `mode`.
pub fn last_single_of(mode: DisplayMode) -> (r: DisplayMode)
    ensures
        r == match mode {
            DisplayMode::Single { .. } => mode,
            DisplayMode::Default => default_single(),
        },
{
    match mode {
        DisplayMode::Single { .. } => mode,
        DisplayMode::Default => DisplayMode::Single { container: Container::Masonry, column_count: 4 },
    }
}

/// Sets the main timeline's container; only a single-timeline mode has one.
/// Tells whether it changed anything to redraw.
pub fn set_main_container(mode: &mut DisplayMode, new_container: Container) -> (changed: bool)
    ensures
        changed == (*old(mode) is Single),
        *final(mode) == match *old(mode) {
            DisplayMode::Single { column_count, .. } => DisplayMode::Single { container: new_container, column_count },
            DisplayMode::Default => DisplayMode::Default,
        },
{
    match *mode {
        DisplayMode::Single { column_count, .. } => {
            *mode = DisplayMode::Single { container: new_container, column_count };
            true
        },
        DisplayMode::Default => false,
    }
}

/// Sets the main timeline's column count; only a single-timeline mode has one.
pub fn set_main_column_count(mode: &mut DisplayMode, new_count: u8) -> (changed: bool)
    ensures
        changed == (*old(mode) is Single),
        *final(mode) == match *old(mode) {
            DisplayMode::Single { container, .. } => DisplayMode::Single { container, column_count: new_count },
            DisplayMode::Default => DisplayMode::Default,
        },
{
    match *mode {
        DisplayMode::Single { container, .. } => {
            *mode = DisplayMode::Single { container, column_count: new_count };
            true
        },
        DisplayMode::Default => false,
    }
}

/// The settings dialog's "single timeline" switch for the embedded viewer.
pub fn toggle_favviewer_settings(mode: DisplayMode) -> (r: DisplayMode)
    ensures
        r == match mode {
            DisplayMode::Single { .. } => DisplayMode::Default,
            DisplayMode::Default => DisplayMode::Single { container: Container::Masonry, column_count: 3 },
        },
{
    match mode {
        DisplayMode::Single { .. } => DisplayMode::Default,
        DisplayMode::Default => DisplayMode::Single { container: Container::Masonry, column_count: 3 },
    }
}

/// What `s.parse::<bool>()` gives: only `"true"` and `"false"` are read.
pub open spec fn parse_bool_spec(s: Seq<char>) -> Option<bool> {
    if s == "true"@ { Some(true) } else if s == "false"@ { Some(false) } else { None }
}

/// Reads a boolean as `s.parse::<bool>().ok()` does.
pub fn parse_bool(s: &str) -> (r: Option<bool>)
    ensures
        r == parse_bool_spec(s@),
{
    proof {
        reveal_strlit("true");
        reveal_strlit("false");
    }
    if crate::string_map::str_eq(s, "true") {
        Some(true)
    } else if crate::string_map::str_eq(s, "false") {
        Some(false)
    } else {
        None
    }
}

/// The display mode the app starts in: the stored one, else the one it was
/// embedded with, else a single timeline when the page asks for one (with the
/// page's container, Masonry by default, and column count, 4 by default), else
/// the multi-timeline mode.
pub open spec fn initial_display_mode_spec(
    stored: Option<DisplayMode>,
    embedded: Option<DisplayMode>,
    single_timeline: Option<Seq<char>>,
    container: Option<Container>,
    column_count: Option<Seq<char>>,
) -> DisplayMode {
    let single = match single_timeline {
        Some(s) => match parse_bool_spec(s) { Some(b) => b, None => false },
        None => false,
    };
    if stored is Some {
        stored->0
    } else if embedded is Some {
        embedded->0
    } else if single {
        DisplayMode::Single {
            container: match container { Some(c) => c, None => Container::Masonry },
            column_count: match column_count {
                Some(s) => match parse_unsigned_spec(s, 255) { Ok(v) => v as u8, Err(_) => 4 },
                None => 4,
            },
        }
    } else {
        DisplayMode::Default
    }
}

/// Chooses the display mode the app starts in, from what local storage held,
/// what the page embedding the app asked for, and the page's query parameters.
pub fn initial_display_mode(
    stored: Option<DisplayMode>,
    embedded: Option<DisplayMode>,
    single_timeline: Option<&str>,
    container: Option<Container>,
    column_count: Option<&str>,
) -> (r: DisplayMode)
    ensures
        r == initial_display_mode_spec(
            stored,
            embedded,
            match single_timeline { Some(s) => Some(s@), None => None },
            container,
            match column_count { Some(s) => Some(s@), None => None },
        ),
{
    let single = match single_timeline {
        Some(s) => match parse_bool(s) {
            Some(b) => b,
            None => false,
        },
        None => false,
    };
    if let Some(d) = stored {
        d
    } else if let Some(d) = embedded {
        d
    } else if single {
        let c = match container {
            Some(c) => c,
            None => Container::Masonry,
        };
        let n: u8 = match column_count {
            Some(s) => match crate::decimal::parse_u8(s) {
                Ok(v) => v,
                Err(_) => 4,
            },
            None => 4,
        };
        DisplayMode::Single { container: c, column_count: n }
    } else {
        DisplayMode::Default
    }
}

}
