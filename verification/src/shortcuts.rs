//! Keyboard shortcuts: the keys the table reads, modeled as plain values,
//! and the shortcut each key press selects.  The application shell
//! translates its real key events into [`KeyCode`] before asking.

use vstd::prelude::*;

verus! {

/// The keys the shortcut table distinguishes; every other key is `Other`.
#[derive(Debug, Clone, Copy, PartialEq, Eq, Structural)]
pub enum KeyCode {
    F11,
    Enter,
    R,
    Other,
}

#[derive(Debug, Clone, Copy, PartialEq, Eq, Structural)]
pub enum Shortcut {
    Reload,
    OpenSettings,
    LoadPage,
}

/// The shortcut a key press selects: F11 opens the settings, Enter loads
/// the page, and Ctrl+R reloads; anything else selects none.
pub open spec fn spec_shortcut(key: KeyCode, ctrl: bool) -> Option<Shortcut> {
    match key {
        KeyCode::F11 => Some(Shortcut::OpenSettings),
        KeyCode::Enter => Some(Shortcut::LoadPage),
        KeyCode::R => if ctrl {
            Some(Shortcut::Reload)
        } else {
            None
        },
        KeyCode::Other => None,
    }
}

pub fn handle_shortcut(key: KeyCode, ctrl: bool) -> (r: Option<Shortcut>)
    ensures
        r == spec_shortcut(key, ctrl),
{
    match key {
        KeyCode::F11 => Some(Shortcut::OpenSettings),
        KeyCode::Enter => Some(Shortcut::LoadPage),
        KeyCode::R => if ctrl {
            Some(Shortcut::Reload)
        } else {
            None
        },
        KeyCode::Other => None,
    }
}

} // verus!
