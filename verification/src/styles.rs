//! The plain part of the interface styles.  The drawing side of every
//! style lives with the GUI toolkit in the application shell; here stand
//! the style values themselves that the shell builds from.

use vstd::prelude::*;

use crate::renderers::parsers::micron_constants::{percent_color, Color};

verus! {

/// Namespace for the interface's style constructors.
pub struct Styles;

/// Marker for the loading-spinner style.
pub struct SpinnerStyle;

/// Style of the page content container: whether it currently shows
/// content, which selects its background.
pub struct ContentContainerStyle {
    pub has_content: bool,
}

impl ContentContainerStyle {
    pub fn new(has_content: bool) -> (r: Self)
        ensures
            r.has_content == has_content,
    {
        ContentContainerStyle { has_content }
    }
}

impl Styles {
    pub fn content_container(has_content: bool) -> (r: ContentContainerStyle)
        ensures
            r.has_content == has_content,
    {
        ContentContainerStyle::new(has_content)
    }

    /// The status line's color: green when connected, red otherwise.
    pub fn status_text(connected: bool) -> (c: Color)
        ensures
            c == (if connected {
                percent_color(0, 80, 0)
            } else {
                percent_color(80, 0, 0)
            }),
    {
        if connected {
            Color::from_percent(0, 80, 0)
        } else {
            Color::from_percent(80, 0, 0)
        }
    }

    /// The muted gray for secondary text.
    pub fn muted_text() -> (c: Color)
        ensures
            c == percent_color(50, 50, 50),
    {
        Color::from_percent(50, 50, 50)
    }

    /// The ordinary text color.
    pub fn text_color() -> (c: Color)
        ensures
            c == percent_color(87, 87, 87),
    {
        Color::from_percent(87, 87, 87)
    }

    /// A lighter muted text color.
    pub fn text_color_muted() -> (c: Color)
        ensures
            c == percent_color(70, 70, 70),
    {
        Color::from_percent(70, 70, 70)
    }

    /// The color of the renderer label in the status area.
    pub fn renderer_text() -> (c: Color)
        ensures
            c == percent_color(87, 87, 87),
    {
        Color::from_percent(87, 87, 87)
    }
}

} // verus!
