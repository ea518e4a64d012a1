use ren_browser::api::split_address;
use ren_browser::browser::{relative_time_label, Message as ShellMessage};
use ren_browser::interface::tabs::Tab;
use ren_browser::ren_settings::{RenSettings, SettingUpdate};
use ren_browser::shortcuts::{handle_shortcut, KeyCode, Shortcut};
use ren_browser::styles::{ContentContainerStyle, Styles};
use ren_browser::renderers::mu_renderer::{RendererType, TextAlignment};
use ren_browser::renderers::parsers::micron_constants::{Color, PERCENT_CHANNEL_UNIT};
use ren_browser::Message;

#[test]
fn split_address_valid() {
    let (hash, path) = split_address("abcdef:/page/index.mu").expect("valid address");
    assert_eq!(hash, "abcdef");
    assert_eq!(path, "/page/index.mu");
}

#[test]
fn split_address_rejects_bad_forms() {
    let msg = "Invalid address format. Use: hash:/page/path";
    assert_eq!(split_address("nocolon"), Err(msg.to_string()));
    assert_eq!(split_address("a:b:c"), Err(msg.to_string()));
    assert_eq!(split_address(""), Err(msg.to_string()));
}

#[test]
fn default_settings_values() {
    let s = RenSettings::default();
    assert_eq!(s.window.width, 1280);
    assert_eq!(s.window.height, 720);
    assert_eq!(s.appearance.text_size, 14);
    assert_eq!(s.appearance.sidebar_width, 250);
    assert!(!s.features.html_renderer);
}

#[test]
fn apply_setting_updates() {
    let mut s = RenSettings::default();
    assert!(!s.apply(SettingUpdate::WindowWidth(800)));
    assert!(!s.apply(SettingUpdate::WindowHeight(600)));
    assert!(!s.apply(SettingUpdate::TextSize(16)));
    assert!(!s.apply(SettingUpdate::SidebarWidth(200)));
    assert!(!s.apply(SettingUpdate::HtmlRenderer(true)));
    assert_eq!(s.window.width, 800);
    assert_eq!(s.window.height, 600);
    assert_eq!(s.appearance.text_size, 16);
    assert_eq!(s.appearance.sidebar_width, 200);
    assert!(s.features.html_renderer);
    // Clearing the cache touches no setting, only asks for the clear.
    assert!(s.apply(SettingUpdate::ClearCache));
    assert_eq!(s.window.width, 800);
}

#[test]
fn shortcut_table() {
    assert_eq!(handle_shortcut(KeyCode::F11, false), Some(Shortcut::OpenSettings));
    assert_eq!(handle_shortcut(KeyCode::F11, true), Some(Shortcut::OpenSettings));
    assert_eq!(handle_shortcut(KeyCode::Enter, false), Some(Shortcut::LoadPage));
    assert_eq!(handle_shortcut(KeyCode::R, true), Some(Shortcut::Reload));
    assert_eq!(handle_shortcut(KeyCode::R, false), None);
    assert_eq!(handle_shortcut(KeyCode::Other, true), None);
}

#[test]
fn new_tab_fields() {
    let t = Tab::new(7);
    assert_eq!(t.id, 7);
    assert_eq!(t.address, "");
    assert_eq!(t.content, "Welcome to Ren Browser");
    assert!(!t.loading);
    assert!(t.show_address);
    assert!(t.rendered_content.is_empty());
    assert_eq!(t.renderer_type, RendererType::Plain);
    assert_eq!(t.display_name.as_deref(), Some("New Tab"));
}

#[test]
fn settings_tab_fields() {
    let t = Tab::settings();
    assert_eq!(t.id, 0);
    assert_eq!(t.address, "settings");
    assert!(!t.show_address);
    assert_eq!(t.rendered_content.len(), 6);
    assert_eq!(t.rendered_content[0].0, "Settings");
    assert_eq!(t.rendered_content[0].1.alignment, TextAlignment::Center);
    assert_eq!(t.rendered_content[0].1.foreground, None);
    assert_eq!(t.rendered_content[1].0, "\nKeyboard Shortcuts:");
    assert_eq!(t.rendered_content[5].0, "Ctrl+W: Close Tab");
    assert_eq!(t.display_name.as_deref(), Some("Settings"));
}

#[test]
fn content_container_style() {
    let on = Styles::content_container(true);
    assert!(on.has_content);
    let off = ContentContainerStyle::new(false);
    assert!(!off.has_content);
}

#[test]
fn style_colors() {
    let green = Styles::status_text(true);
    assert_eq!(green.g, 80 * PERCENT_CHANNEL_UNIT);
    assert_eq!(green.r, 0);
    let red = Styles::status_text(false);
    assert_eq!(red.r, 80 * PERCENT_CHANNEL_UNIT);
    assert_eq!(red.g, 0);
    assert_eq!(
        Styles::muted_text(),
        Color {
            r: 50 * PERCENT_CHANNEL_UNIT,
            g: 50 * PERCENT_CHANNEL_UNIT,
            b: 50 * PERCENT_CHANNEL_UNIT,
            a: 100 * PERCENT_CHANNEL_UNIT,
        }
    );
    assert_eq!(Styles::text_color(), Styles::renderer_text());
    assert_eq!(Styles::text_color_muted().r, 70 * PERCENT_CHANNEL_UNIT);
}

#[test]
fn relative_time_labels() {
    assert_eq!(relative_time_label(-5), "just now");
    assert_eq!(relative_time_label(0), "just now");
    assert_eq!(relative_time_label(59), "just now");
    assert_eq!(relative_time_label(60), "1 min ago");
    assert_eq!(relative_time_label(3599), "59 mins ago");
    assert_eq!(relative_time_label(3600), "1 hour ago");
    assert_eq!(relative_time_label(7200), "2 hours ago");
    assert_eq!(relative_time_label(86400), "1 day ago");
    assert_eq!(relative_time_label(3 * 86400), "3 days ago");
    assert_eq!(relative_time_label(2592000), "1 month ago");
    assert_eq!(relative_time_label(31536000), "1 year ago");
    assert_eq!(relative_time_label(2 * 31536000), "2 years ago");
}

#[test]
fn shell_message_from_lib() {
    let msg = Message::PageLoaded(Box::new(Ok("content".to_string())));
    match ShellMessage::from_lib(msg) {
        ShellMessage::PageLoaded(result) => assert_eq!(*result, Ok("content".to_string())),
        _ => panic!("wrong mapping"),
    }
    let msg = Message::ApiStatusReceived(Box::new(Err("down".to_string())));
    match ShellMessage::from_lib(msg) {
        ShellMessage::ApiStatusReceived(result) => {
            assert_eq!(result.unwrap_err(), "down");
        }
        _ => panic!("wrong mapping"),
    }
    // Messages without a shell counterpart fall back to opening a tab.
    match ShellMessage::from_lib(Message::OpenSettings) {
        ShellMessage::AddTab => {}
        _ => panic!("wrong fallback"),
    }
}
