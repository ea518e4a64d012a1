//! The Micron constant and color table: marker characters recognised by the
//! scanner, divider defaults, and the default, named and section-heading
//! colors.
//!
//! A [`Color`] is a normalized RGBA value: each channel is a fixed-point
//! fraction of [`COLOR_SCALE`], so `COLOR_SCALE` means 1.0 and `0` means 0.0.
//! The scale is chosen so that every channel value the table and the color
//! decoder produce is exact: it is divisible by 255 (hexadecimal codes),
//! by 99 (two-digit grayscale codes) and by 100 (the table's own entries,
//! which are whole percentages).

use vstd::prelude::*;

verus! {

// Marker characters of the Micron language.
pub const LINK_START: char = '[';

pub const LINK_END: char = ']';

/// Separates the label from the target inside a link span.
pub const LINK_SEPARATOR: char = ':';

pub const STYLE_MARKER: char = '`';

pub const ESCAPE_CHAR: char = '\\';

pub const SECTION_MARKER: char = '>';

pub const DEPTH_RESET_MARKER: char = '<';

pub const COMMENT_MARKER: char = '#';

pub const DIVIDER_MARKER: char = '-';

pub const ASCII_ART_MARKER: char = '|';

/// Introduces a divider width when it directly follows the divider marker.
pub const DIVIDER_WIDTH_MARKER: char = '=';

// Divider defaults.
pub const DEFAULT_DIVIDER_WIDTH: usize = 80;

pub const DEFAULT_DIVIDER_CHAR: char = '─';

/// The channel value that stands for 1.0; the least common multiple of
/// 255, 99 and 100.
pub const COLOR_SCALE: u32 = 168300;

/// `COLOR_SCALE / 255`: one step of an 8-bit hexadecimal channel.
pub const HEX_CHANNEL_UNIT: u32 = 660;

/// `COLOR_SCALE / 99`: one step of a two-digit grayscale value.
pub const GRAY_CHANNEL_UNIT: u32 = 1700;

/// `COLOR_SCALE / 100`: one percent of a channel.
pub const PERCENT_CHANNEL_UNIT: u32 = 1683;

/// A normalized RGBA color; each channel ranges over `0..=COLOR_SCALE`.
#[derive(Debug, Clone, Copy, PartialEq, Eq, Structural)]
pub struct Color {
    pub r: u32,
    pub g: u32,
    pub b: u32,
    pub a: u32,
}

/// A fully opaque color given as whole percentages per channel.
pub open spec fn percent_color(r: int, g: int, b: int) -> Color {
    Color {
        r: (r * PERCENT_CHANNEL_UNIT) as u32,
        g: (g * PERCENT_CHANNEL_UNIT) as u32,
        b: (b * PERCENT_CHANNEL_UNIT) as u32,
        a: COLOR_SCALE,
    }
}

impl Color {
    pub open spec fn wf(self) -> bool {
        self.r <= COLOR_SCALE && self.g <= COLOR_SCALE && self.b <= COLOR_SCALE
            && self.a <= COLOR_SCALE
    }

    /// A fully opaque color given as whole percentages per channel.
    pub fn from_percent(r: u32, g: u32, b: u32) -> (c: Color)
        requires
            r <= 100,
            g <= 100,
            b <= 100,
        ensures
            c == percent_color(r as int, g as int, b as int),
            c.wf(),
    {
        Color {
            r: r * PERCENT_CHANNEL_UNIT,
            g: g * PERCENT_CHANNEL_UNIT,
            b: b * PERCENT_CHANNEL_UNIT,
            a: COLOR_SCALE,
        }
    }
}

pub open spec fn spec_default_text_color() -> Color {
    percent_color(87, 87, 87)
}

/// The theme's default foreground: a light gray.
#[verifier::when_used_as_spec(spec_default_text_color)]
pub fn default_text_color() -> (c: Color)
    ensures
        c == spec_default_text_color(),
{
    Color::from_percent(87, 87, 87)
}

pub open spec fn spec_default_bg() -> Color {
    percent_color(0, 0, 0)
}

/// The theme's default background: black.
#[verifier::when_used_as_spec(spec_default_bg)]
pub fn default_bg() -> (c: Color)
    ensures
        c == spec_default_bg(),
{
    Color::from_percent(0, 0, 0)
}

pub open spec fn spec_default_link_color() -> Color {
    percent_color(40, 60, 100)
}

/// The foreground given to link labels: a light blue.
#[verifier::when_used_as_spec(spec_default_link_color)]
pub fn default_link_color() -> (c: Color)
    ensures
        c == spec_default_link_color(),
{
    Color::from_percent(40, 60, 100)
}

/// The background shade of a section heading, by zero-based depth index;
/// deeper headings are darker.  Indices past the table's four entries are
/// clamped to the last shade.
pub open spec fn spec_section_color(i: int) -> Color {
    if i <= 0 {
        percent_color(73, 73, 73)
    } else if i == 1 {
        percent_color(60, 60, 60)
    } else if i == 2 {
        percent_color(47, 47, 47)
    } else {
        percent_color(33, 33, 33)
    }
}

pub fn section_color(i: usize) -> (c: Color)
    ensures
        c == spec_section_color(i as int),
{
    if i == 0 {
        Color::from_percent(73, 73, 73)
    } else if i == 1 {
        Color::from_percent(60, 60, 60)
    } else if i == 2 {
        Color::from_percent(47, 47, 47)
    } else {
        Color::from_percent(33, 33, 33)
    }
}

/// The named-color table consulted by `u`-prefixed color codes.
pub open spec fn spec_named_color(name: Seq<char>) -> Option<Color> {
    if name == "red"@ {
        Some(percent_color(100, 0, 0))
    } else if name == "green"@ {
        Some(percent_color(0, 100, 0))
    } else if name == "blue"@ {
        Some(percent_color(0, 0, 100))
    } else {
        None
    }
}

} // verus!
