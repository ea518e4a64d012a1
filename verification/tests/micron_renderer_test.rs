use ren_browser::renderers::mu_renderer::{
    classify, collect_links, decode_color, MicronRenderer, RendererType, TextAlignment,
};
use ren_browser::renderers::parsers::micron_constants::{
    default_link_color, default_text_color, section_color, Color, COLOR_SCALE,
};

#[test]
fn plain_document_is_one_segment() {
    let mut r = MicronRenderer::new();
    let segs = r.parse("Hello World");
    assert_eq!(r.get_renderer_type(), RendererType::Plain);
    assert_eq!(segs.len(), 1);
    assert_eq!(segs[0].0, "Hello World");
    assert_eq!(segs[0].1.foreground, Some(default_text_color()));
    assert_eq!(segs[0].1.background, None);
    assert!(!segs[0].1.bold && !segs[0].1.italic && !segs[0].1.underline);
    assert_eq!(segs[0].1.section_depth, 0);
    assert_eq!(segs[0].1.alignment, TextAlignment::Default);
    assert!(segs[0].1.link.is_none());
}

#[test]
fn plain_document_keeps_newlines() {
    let mut r = MicronRenderer::new();
    let segs = r.parse("Hello\nWorld\n");
    assert_eq!(segs.len(), 1);
    assert_eq!(segs[0].0, "Hello\nWorld\n");
}

#[test]
fn empty_document_is_empty() {
    let mut r = MicronRenderer::new();
    let segs = r.parse("");
    assert!(segs.is_empty());
    assert_eq!(r.get_renderer_type(), RendererType::Plain);
}

#[test]
fn classify_by_style_marker() {
    assert_eq!(classify("no markup here"), RendererType::Plain);
    assert_eq!(classify("some `F222markup"), RendererType::Micron);
    assert_eq!(classify("escaped \\` still counts"), RendererType::Micron);
    assert_eq!(classify(""), RendererType::Plain);
}

#[test]
fn foreground_color_command() {
    // `F900 colors the text; `f clears the foreground again.
    let mut r = MicronRenderer::new();
    let segs = r.parse("`F900Red Text`f Normal Text");
    assert_eq!(r.get_renderer_type(), RendererType::Micron);
    assert_eq!(segs.len(), 2);
    assert_eq!(segs[0].0, "Red Text");
    assert_eq!(segs[0].1.foreground, Some(decode_color("900")));
    assert_eq!(segs[1].0, " Normal Text\n");
    assert_eq!(segs[1].1.foreground, None);
}

#[test]
fn bold_toggle_twice_restores() {
    let mut r = MicronRenderer::new();
    let segs = r.parse("a`!b`!c");
    assert_eq!(segs.len(), 3);
    assert_eq!(segs[0].0, "a");
    assert!(!segs[0].1.bold);
    assert_eq!(segs[1].0, "b");
    assert!(segs[1].1.bold);
    assert_eq!(segs[2].0, "c\n");
    assert!(!segs[2].1.bold);
}

#[test]
fn underline_and_italic_toggles() {
    let mut r = MicronRenderer::new();
    let segs = r.parse("`_u`*i`_`*done");
    assert_eq!(segs.len(), 3);
    assert!(segs[0].1.underline && !segs[0].1.italic);
    assert!(segs[1].1.underline && segs[1].1.italic);
    assert!(!segs[2].1.underline && !segs[2].1.italic);
}

#[test]
fn escaped_marker_is_literal() {
    let mut r = MicronRenderer::new();
    let segs = r.parse("\\`hello");
    assert_eq!(r.get_renderer_type(), RendererType::Micron);
    assert_eq!(segs.len(), 1);
    assert_eq!(segs[0].0, "`hello\n");
    assert!(!segs[0].1.bold);
}

#[test]
fn literal_mode_round_trip() {
    let mut r = MicronRenderer::new();
    let segs = r.parse("`=\n >>`!raw  text\n`=");
    assert_eq!(segs.len(), 1);
    assert_eq!(segs[0].0, " >>`!raw  text\n");
    assert_eq!(segs[0].1.foreground, Some(default_text_color()));
    assert!(!segs[0].1.bold);
}

#[test]
fn literal_mode_spans_lines() {
    let mut r = MicronRenderer::new();
    let segs = r.parse("`=\n# not a comment\n-not a divider\n`=\nafter");
    assert_eq!(segs.len(), 3);
    assert_eq!(segs[0].0, "# not a comment\n");
    assert_eq!(segs[1].0, "-not a divider\n");
    assert_eq!(segs[2].0, "after\n");
}

#[test]
fn section_heading_depth_and_background() {
    let mut r = MicronRenderer::new();
    // The lone marker at the end forces the Micron path; it emits nothing
    // itself, only the line's closing newline segment.
    let segs = r.parse(">>Heading\nBody`");
    assert_eq!(segs.len(), 3);
    assert_eq!(segs[0].0, "Heading\n");
    assert_eq!(segs[0].1.section_depth, 2);
    assert_eq!(segs[0].1.background, Some(section_color(1)));
    assert_eq!(segs[1].0, "Body");
    assert_eq!(segs[1].1.section_depth, 0);
    assert_eq!(segs[1].1.background, None);
    assert_eq!(segs[2].0, "\n");
}

#[test]
fn heading_style_reverts_after_line() {
    let mut r = MicronRenderer::new();
    let segs = r.parse(">`F900colored\nplain");
    assert_eq!(segs.len(), 2);
    assert_eq!(segs[0].1.foreground, Some(decode_color("900")));
    assert_eq!(segs[0].1.background, Some(section_color(0)));
    // The heading line's style changes do not leak onto the next line.
    assert_eq!(segs[1].1.foreground, Some(default_text_color()));
    assert_eq!(segs[1].1.background, None);
}

#[test]
fn heading_depth_clamps_to_table() {
    let mut r = MicronRenderer::new();
    let segs = r.parse(">>>>>>H`");
    assert_eq!(segs[0].1.section_depth, 6);
    assert_eq!(segs[0].1.background, Some(section_color(3)));
}

#[test]
fn comment_lines_are_dropped() {
    let mut r = MicronRenderer::new();
    let segs = r.parse("`!\n# hidden\nvisible");
    assert_eq!(segs.len(), 2);
    assert_eq!(segs[0].0, "\n");
    assert_eq!(segs[1].0, "visible\n");
    assert!(segs[1].1.bold);
}

#[test]
fn depth_reset_prefix_is_consumed() {
    let mut r = MicronRenderer::new();
    let segs = r.parse("`!\n<text");
    assert_eq!(segs.len(), 2);
    assert_eq!(segs[1].0, "text\n");
    assert_eq!(segs[1].1.section_depth, 0);
}

#[test]
fn divider_with_width() {
    let mut r = MicronRenderer::new();
    let segs = r.parse("`f\n-=10");
    assert_eq!(segs.len(), 2);
    assert_eq!(segs[1].0, format!("{}\n", "─".repeat(10)));
}

#[test]
fn divider_literal_input_stays_plain() {
    // Without a style marker anywhere, the whole document takes the
    // plain-text path, divider syntax or not.
    let mut r = MicronRenderer::new();
    let segs = r.parse("-=10");
    assert_eq!(r.get_renderer_type(), RendererType::Plain);
    assert_eq!(segs.len(), 1);
    assert_eq!(segs[0].0, "-=10");
}

#[test]
fn divider_custom_character() {
    let mut r = MicronRenderer::new();
    let segs = r.parse("`f\n-*5");
    assert_eq!(segs[1].0, "*****\n");
}

#[test]
fn divider_default_width() {
    let mut r = MicronRenderer::new();
    let segs = r.parse("`f\n-");
    assert_eq!(segs[1].0, format!("{}\n", "─".repeat(80)));
}

#[test]
fn divider_bad_width_falls_back() {
    let mut r = MicronRenderer::new();
    let segs = r.parse("`f\n-*xy");
    assert_eq!(segs[1].0, format!("{}\n", "*".repeat(80)));
}

#[test]
fn ascii_art_line_passes_through() {
    let mut r = MicronRenderer::new();
    let segs = r.parse("`f\n|  [art] `line");
    assert_eq!(segs[1].0, "  [art] `line\n");
}

#[test]
fn link_span_becomes_link_segment() {
    let mut r = MicronRenderer::new();
    let segs = r.parse("``[Click Here:https://example.com]");
    assert_eq!(r.get_renderer_type(), RendererType::Micron);
    assert_eq!(segs.len(), 2);
    assert_eq!(segs[0].0, "Click Here");
    assert!(segs[0].1.underline);
    assert_eq!(segs[0].1.foreground, Some(default_link_color()));
    let link = segs[0].1.link.as_ref().expect("link expected");
    assert_eq!(link.label, "Click Here");
    assert_eq!(link.url, "https://example.com");
    assert!(!link.style.underline);
    // The closing newline segment of the line.
    assert_eq!(segs[1].0, "\n");
    assert!(segs[1].1.link.is_none());
}

#[test]
fn link_literal_input_stays_plain() {
    // No style marker anywhere: the link syntax is not interpreted.
    let mut r = MicronRenderer::new();
    let segs = r.parse("[Click Here:https://example.com]");
    assert_eq!(r.get_renderer_type(), RendererType::Plain);
    assert_eq!(segs.len(), 1);
    assert_eq!(segs[0].0, "[Click Here:https://example.com]");
}

#[test]
fn link_with_text_around() {
    let mut r = MicronRenderer::new();
    let segs = r.parse("``see [docs:page.mu] here");
    assert_eq!(segs.len(), 3);
    assert_eq!(segs[0].0, "see ");
    assert_eq!(segs[1].0, "docs");
    assert_eq!(segs[1].1.link.as_ref().unwrap().url, "page.mu");
    assert_eq!(segs[2].0, " here\n");
    assert!(segs[2].1.link.is_none());
}

#[test]
fn link_without_separator_has_empty_url() {
    let mut r = MicronRenderer::new();
    let segs = r.parse("``[JustLabel]");
    assert_eq!(segs[0].0, "JustLabel");
    assert_eq!(segs[0].1.link.as_ref().unwrap().url, "");
}

#[test]
fn link_url_keeps_later_separators() {
    let mut r = MicronRenderer::new();
    let segs = r.parse("``[a:b:c]");
    let link = segs[0].1.link.as_ref().unwrap();
    assert_eq!(link.label, "a");
    assert_eq!(link.url, "b:c");
}

#[test]
fn unclosed_link_runs_to_line_end() {
    let mut r = MicronRenderer::new();
    let segs = r.parse("``[open:me");
    assert_eq!(segs[0].0, "open");
    assert_eq!(segs[0].1.link.as_ref().unwrap().url, "me");
    assert_eq!(segs[1].0, "\n");
}

#[test]
fn alignment_commands() {
    let mut r = MicronRenderer::new();
    let segs = r.parse("`cC`rR`lL`aA");
    assert_eq!(segs.len(), 4);
    assert_eq!(segs[0].1.alignment, TextAlignment::Center);
    assert_eq!(segs[1].1.alignment, TextAlignment::Right);
    assert_eq!(segs[2].1.alignment, TextAlignment::Left);
    // `a` restores the line's default alignment.
    assert_eq!(segs[3].1.alignment, TextAlignment::Left);
}

#[test]
fn double_marker_resets_style() {
    let mut r = MicronRenderer::new();
    let segs = r.parse("`!`F900x``y");
    assert_eq!(segs.len(), 2);
    assert!(segs[0].1.bold);
    assert_eq!(segs[0].1.foreground, Some(decode_color("900")));
    assert!(!segs[1].1.bold);
    assert_eq!(segs[1].1.foreground, Some(default_text_color()));
}

#[test]
fn unknown_command_is_literal() {
    let mut r = MicronRenderer::new();
    let segs = r.parse("`qrest");
    assert_eq!(segs.len(), 1);
    assert_eq!(segs[0].0, "qrest\n");
}

#[test]
fn background_command() {
    let mut r = MicronRenderer::new();
    let segs = r.parse("`B00fx`by");
    assert_eq!(segs[0].1.background, Some(decode_color("00f")));
    assert_eq!(segs[1].1.background, None);
}

#[test]
fn trailing_newline_keeps_empty_line() {
    let mut r = MicronRenderer::new();
    let segs = r.parse("`!x\n");
    assert_eq!(segs.len(), 2);
    assert_eq!(segs[0].0, "x\n");
    assert_eq!(segs[1].0, "\n");
}

#[test]
fn color_shorthand_matches_full_form() {
    assert_eq!(decode_color("f00"), decode_color("ff0000"));
    assert_eq!(
        decode_color("f00"),
        Color { r: COLOR_SCALE, g: 0, b: 0, a: COLOR_SCALE }
    );
    assert_eq!(decode_color("abc"), decode_color("aabbcc"));
}

#[test]
fn color_named_and_special_codes() {
    assert_eq!(decode_color("default"), default_text_color());
    assert_eq!(
        decode_color("ured"),
        Color { r: COLOR_SCALE, g: 0, b: 0, a: COLOR_SCALE }
    );
    assert_eq!(
        decode_color("ublue"),
        Color { r: 0, g: 0, b: COLOR_SCALE, a: COLOR_SCALE }
    );
    assert_eq!(decode_color("unope"), default_text_color());
}

#[test]
fn color_grayscale_codes() {
    assert_eq!(
        decode_color("g99"),
        Color { r: COLOR_SCALE, g: COLOR_SCALE, b: COLOR_SCALE, a: COLOR_SCALE }
    );
    let mid = decode_color("g50");
    assert_eq!(mid.r, 50 * (COLOR_SCALE / 99));
    assert_eq!(mid.r, mid.g);
    assert_eq!(mid.g, mid.b);
    // Bad digits count as zero: black, not the default gray.
    assert_eq!(decode_color("gxy"), Color { r: 0, g: 0, b: 0, a: COLOR_SCALE });
}

#[test]
fn color_malformed_codes_degrade() {
    assert_eq!(decode_color(""), default_text_color());
    assert_eq!(decode_color("12"), default_text_color());
    assert_eq!(decode_color("xyz"), default_text_color());
    assert_eq!(decode_color("12345"), default_text_color());
    assert_eq!(decode_color("1234567"), default_text_color());
}

#[test]
fn collect_links_gathers_in_order() {
    let mut r = MicronRenderer::new();
    let segs = r.parse("``see [a:one] and [b:two]\nplain line");
    let links = collect_links(&segs);
    assert_eq!(links.len(), 2);
    assert_eq!(links[0].label, "a");
    assert_eq!(links[0].url, "one");
    assert_eq!(links[1].label, "b");
    assert_eq!(links[1].url, "two");
}

#[test]
fn collect_links_empty_without_links() {
    let mut r = MicronRenderer::new();
    let segs = r.parse("just text");
    assert!(collect_links(&segs).is_empty());
}

#[test]
fn node_path_helpers() {
    assert!(MicronRenderer::is_node_path("page/index.mu"));
    assert!(MicronRenderer::is_node_path(":/somewhere"));
    assert!(!MicronRenderer::is_node_path("http://example.com"));
    assert_eq!(MicronRenderer::format_node_url(":/abc"), "abc");
    assert_eq!(MicronRenderer::format_node_url("abc"), "page/abc");
    assert_eq!(MicronRenderer::format_node_url("hash:/page/x.mu"), "hash:/page/x.mu");
}
