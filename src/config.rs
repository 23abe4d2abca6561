//! Fixed configuration: the default session settings and the two palettes.
use vstd::prelude::*;

verus! {

/// Settings of a terminal session.
pub struct Config {
    /// Font size in pixels.
    pub font_size: u32,
    pub default_rows: u16,
    pub default_cols: u16,
    pub cursor_blink_ms: u64,
    pub poll_interval_ms: u64,
}

impl Default for Config {
    fn default() -> (r: Config)
        ensures
            r.font_size == 16,
            r.default_rows == 40,
            r.default_cols == 120,
            r.cursor_blink_ms == 500,
            r.poll_interval_ms == 16,
    {
        Config {
            font_size: 16,
            default_rows: 40,
            default_cols: 120,
            cursor_blink_ms: 500,
            poll_interval_ms: 16,
        }
    }
}

/// An RGB triple.
pub type Rgb = (u8, u8, u8);

/// The normal palette, used for every background and for plain foregrounds.
pub open spec fn normal_rgb(i: int) -> Rgb {
    if i == 0 {
        (0, 0, 0)
    } else if i == 1 {
        (170, 0, 0)
    } else if i == 2 {
        (0, 170, 0)
    } else if i == 3 {
        (170, 85, 0)
    } else if i == 4 {
        (0, 0, 170)
    } else if i == 5 {
        (170, 0, 170)
    } else if i == 6 {
        (0, 170, 170)
    } else {
        (170, 170, 170)
    }
}

/// The bright palette, used for bold foregrounds.
pub open spec fn bright_rgb(i: int) -> Rgb {
    if i == 0 {
        (85, 85, 85)
    } else if i == 1 {
        (255, 85, 85)
    } else if i == 2 {
        (85, 255, 85)
    } else if i == 3 {
        (255, 255, 85)
    } else if i == 4 {
        (85, 85, 255)
    } else if i == 5 {
        (255, 85, 255)
    } else if i == 6 {
        (85, 255, 255)
    } else {
        (255, 255, 255)
    }
}

/// Entry `idx` of the normal palette.
pub fn normal_color(idx: u8) -> (r: Rgb)
    requires
        idx < 8,
    ensures
        r == normal_rgb(idx as int),
{
    match idx {
        0 => (0, 0, 0),
        1 => (170, 0, 0),
        2 => (0, 170, 0),
        3 => (170, 85, 0),
        4 => (0, 0, 170),
        5 => (170, 0, 170),
        6 => (0, 170, 170),
        _ => (170, 170, 170),
    }
}

/// Entry `idx` of the bright palette.
pub fn bright_color(idx: u8) -> (r: Rgb)
    requires
        idx < 8,
    ensures
        r == bright_rgb(idx as int),
{
    match idx {
        0 => (85, 85, 85),
        1 => (255, 85, 85),
        2 => (85, 255, 85),
        3 => (255, 255, 85),
        4 => (85, 85, 255),
        5 => (255, 85, 255),
        6 => (85, 255, 255),
        _ => (255, 255, 255),
    }
}

} // verus!
