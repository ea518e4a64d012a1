//! Browser tabs: the state of one tab, and the two ways a tab is born —
//! an empty new tab and the built-in settings tab.  Drawing a tab belongs
//! to the application shell.

use vstd::prelude::*;

use crate::renderers::mu_renderer::{seg_views, MicronStyle, RendererType, TextAlignment};
use crate::renderers::parsers::micron_model::{spec_default_style, SpecStyle};

verus! {

/// One browser tab: its address, raw and rendered content, and display
/// state.
#[derive(Debug, Clone)]
pub struct Tab {
    pub id: usize,
    pub address: String,
    pub content: String,
    pub loading: bool,
    pub show_address: bool,
    pub rendered_content: Vec<(String, MicronStyle)>,
    pub renderer_type: RendererType,
    pub display_name: Option<String>,
}

impl Tab {
    /// A fresh empty tab with the given id, showing the address bar and
    /// the welcome text.
    pub fn new(id: usize) -> (t: Tab)
        ensures
            t.id == id,
            t.address@ == Seq::<char>::empty(),
            t.content@ == "Welcome to Ren Browser"@,
            !t.loading,
            t.show_address,
            t.rendered_content@.len() == 0,
            t.renderer_type == RendererType::Plain,
            t.display_name matches Some(n) && n@ == "New Tab"@,
    {
        Tab {
            id,
            address: String::new(),
            content: "Welcome to Ren Browser".to_owned(),
            loading: false,
            show_address: true,
            rendered_content: Vec::new(),
            renderer_type: RendererType::default(),
            display_name: Some("New Tab".to_owned()),
        }
    }

    /// The built-in settings tab: fixed id zero, address `settings`, and a
    /// pre-rendered help text whose first segment is centered.
    pub fn settings() -> (t: Tab)
        ensures
            t.id == 0,
            t.address@ == "settings"@,
            t.content@ == Seq::<char>::empty(),
            !t.loading,
            !t.show_address,
            seg_views(t.rendered_content@) == seq![
                ("Settings"@, (SpecStyle {
                    alignment: TextAlignment::Center,
                    foreground: None,
                    ..spec_default_style()
                })),
                ("\nKeyboard Shortcuts:"@, spec_default_style()),
                ("F11: Open Settings"@, spec_default_style()),
                ("Ctrl+R: Reload Page"@, spec_default_style()),
                ("Ctrl+T: New Tab"@, spec_default_style()),
                ("Ctrl+W: Close Tab"@, spec_default_style()),
            ],
            t.renderer_type == RendererType::Plain,
            t.display_name matches Some(n) && n@ == "Settings"@,
    {
        let mut heading_style = MicronStyle::default();
        heading_style.alignment = TextAlignment::Center;
        heading_style.foreground = None;
        let mut rendered: Vec<(String, MicronStyle)> = Vec::new();
        rendered.push(("Settings".to_owned(), heading_style));
        rendered.push(("\nKeyboard Shortcuts:".to_owned(), MicronStyle::default()));
        rendered.push(("F11: Open Settings".to_owned(), MicronStyle::default()));
        rendered.push(("Ctrl+R: Reload Page".to_owned(), MicronStyle::default()));
        rendered.push(("Ctrl+T: New Tab".to_owned(), MicronStyle::default()));
        rendered.push(("Ctrl+W: Close Tab".to_owned(), MicronStyle::default()));
        proof {
            assert(seg_views(rendered@) =~= seq![
                ("Settings"@, (SpecStyle {
                    alignment: TextAlignment::Center,
                    foreground: None,
                    ..spec_default_style()
                })),
                ("\nKeyboard Shortcuts:"@, spec_default_style()),
                ("F11: Open Settings"@, spec_default_style()),
                ("Ctrl+R: Reload Page"@, spec_default_style()),
                ("Ctrl+T: New Tab"@, spec_default_style()),
                ("Ctrl+W: Close Tab"@, spec_default_style()),
            ]);
        }
        Tab {
            id: 0,
            address: "settings".to_owned(),
            content: String::new(),
            loading: false,
            show_address: false,
            rendered_content: rendered,
            renderer_type: RendererType::Plain,
            display_name: Some("Settings".to_owned()),
        }
    }
}

} // verus!
