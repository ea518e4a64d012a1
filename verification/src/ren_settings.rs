//! Application settings: the plain values themselves and how a settings
//! update changes them.  Loading and saving them from disk, and the
//! settings screen, are the application shell's business.

use vstd::prelude::*;

verus! {

#[derive(Debug, Clone, Copy)]
pub struct WindowSettings {
    pub width: u32,
    pub height: u32,
}

#[derive(Debug, Clone, Copy)]
pub struct AppearanceSettings {
    pub text_size: u16,
    pub sidebar_width: u16,
}

#[derive(Debug, Clone, Copy)]
pub struct FeatureSettings {
    pub html_renderer: bool,
}

#[derive(Debug, Clone, Copy)]
pub struct RenSettings {
    pub window: WindowSettings,
    pub appearance: AppearanceSettings,
    pub features: FeatureSettings,
}

/// One edit made on the settings screen.
#[derive(Debug, Clone, Copy)]
pub enum SettingUpdate {
    WindowWidth(u32),
    WindowHeight(u32),
    TextSize(u16),
    SidebarWidth(u16),
    HtmlRenderer(bool),
    ClearCache,
}

pub open spec fn spec_default_settings() -> RenSettings {
    RenSettings {
        window: WindowSettings { width: 1280, height: 720 },
        appearance: AppearanceSettings { text_size: 14, sidebar_width: 250 },
        features: FeatureSettings { html_renderer: false },
    }
}

/// The settings after one update; `ClearCache` acts on the page cache, not
/// on the settings themselves.
pub open spec fn spec_apply_setting(s: RenSettings, u: SettingUpdate) -> RenSettings {
    match u {
        SettingUpdate::WindowWidth(w) => RenSettings {
            window: WindowSettings { width: w, ..s.window },
            ..s
        },
        SettingUpdate::WindowHeight(h) => RenSettings {
            window: WindowSettings { height: h, ..s.window },
            ..s
        },
        SettingUpdate::TextSize(t) => RenSettings {
            appearance: AppearanceSettings { text_size: t, ..s.appearance },
            ..s
        },
        SettingUpdate::SidebarWidth(w) => RenSettings {
            appearance: AppearanceSettings { sidebar_width: w, ..s.appearance },
            ..s
        },
        SettingUpdate::HtmlRenderer(b) => RenSettings {
            features: FeatureSettings { html_renderer: b },
            ..s
        },
        SettingUpdate::ClearCache => s,
    }
}

impl Default for RenSettings {
    fn default() -> (r: Self)
        ensures
            r == spec_default_settings(),
    {
        RenSettings {
            window: WindowSettings { width: 1280, height: 720 },
            appearance: AppearanceSettings { text_size: 14, sidebar_width: 250 },
            features: FeatureSettings { html_renderer: false },
        }
    }
}

impl RenSettings {
    /// Apply one settings update; returns whether the page cache should be
    /// cleared as a consequence.
    pub fn apply(&mut self, update: SettingUpdate) -> (clear_cache: bool)
        ensures
            *final(self) == spec_apply_setting(*old(self), update),
            clear_cache == (update is ClearCache),
    {
        match update {
            SettingUpdate::WindowWidth(w) => {
                self.window.width = w;
                false
            },
            SettingUpdate::WindowHeight(h) => {
                self.window.height = h;
                false
            },
            SettingUpdate::TextSize(t) => {
                self.appearance.text_size = t;
                false
            },
            SettingUpdate::SidebarWidth(w) => {
                self.appearance.sidebar_width = w;
                false
            },
            SettingUpdate::HtmlRenderer(b) => {
                self.features.html_renderer = b;
                false
            },
            SettingUpdate::ClearCache => true,
        }
    }
}

} // verus!
