//! The mathematical model of the Micron markup language.
//!
//! Everything the renderer promises is stated against the functions in this
//! module: [`spec_parse`] maps a document, as a sequence of characters, to
//! the exact sequence of styled segments the renderer must emit, and
//! [`spec_decode_color`] gives the meaning of a textual color code.  The
//! executable scanner in `mu_renderer` is proved to return precisely these
//! values.

use vstd::prelude::*;

use crate::renderers::mu_renderer::TextAlignment;
use crate::renderers::mu_renderer::LinkStyle;
use crate::renderers::mu_renderer::RendererType;
use crate::renderers::parsers::micron_constants::{
    spec_default_link_color, spec_default_text_color, spec_named_color, spec_section_color,
    Color, ASCII_ART_MARKER, COLOR_SCALE, COMMENT_MARKER, DEFAULT_DIVIDER_CHAR,
    DEFAULT_DIVIDER_WIDTH, DEPTH_RESET_MARKER, DIVIDER_MARKER, DIVIDER_WIDTH_MARKER,
    ESCAPE_CHAR, GRAY_CHANNEL_UNIT, HEX_CHANNEL_UNIT, LINK_END, LINK_SEPARATOR, LINK_START,
    SECTION_MARKER, STYLE_MARKER,
};

verus! {

/// The model of a style snapshot: the exec `MicronStyle` viewed with its
/// link label and target as character sequences.
#[verifier::ext_equal]
pub struct SpecStyle {
    pub bold: bool,
    pub italic: bool,
    pub underline: bool,
    pub foreground: Option<Color>,
    pub background: Option<Color>,
    pub section_depth: u8,
    pub alignment: TextAlignment,
    pub selectable: bool,
    pub link: Option<SpecLink>,
}

/// The model of a link: label, target, and the style snapshot taken just
/// before the link's own decoration was applied.
#[verifier::ext_equal]
pub struct SpecLink {
    pub label: Seq<char>,
    pub url: Seq<char>,
    pub style: LinkStyle,
}

/// The model of the per-parse state threaded from line to line.
#[verifier::ext_equal]
pub struct SpecState {
    pub literal: bool,
    pub style: SpecStyle,
    pub default_align: TextAlignment,
}

/// One emitted segment: its text and the style it carries.
pub type SpecSegment = (Seq<char>, SpecStyle);

pub open spec fn spec_default_style() -> SpecStyle {
    SpecStyle {
        bold: false,
        italic: false,
        underline: false,
        foreground: Some(spec_default_text_color()),
        background: None,
        section_depth: 0,
        alignment: TextAlignment::Default,
        selectable: true,
        link: None,
    }
}

pub open spec fn spec_initial_state() -> SpecState {
    SpecState {
        literal: false,
        style: spec_default_style(),
        default_align: TextAlignment::Left,
    }
}

/// The line that toggles literal mode, exactly.
pub open spec fn lit_toggle() -> Seq<char> {
    seq![STYLE_MARKER, '=']
}

// ---------------------------------------------------------------------------
// Character searching
// ---------------------------------------------------------------------------
/// Index of the first occurrence of `t` in `cs`, or `cs.len()` if absent.
pub open spec fn first_index(cs: Seq<char>, t: char) -> int
    decreases cs.len(),
{
    if cs.len() == 0 {
        0
    } else if cs[0] == t {
        0
    } else {
        1 + first_index(cs.skip(1), t)
    }
}

pub proof fn lemma_first_index(cs: Seq<char>, t: char)
    ensures
        0 <= first_index(cs, t) <= cs.len(),
        first_index(cs, t) < cs.len() ==> cs[first_index(cs, t)] == t,
        first_index(cs, t) == cs.len() ==> !cs.contains(t),
        forall|j: int| 0 <= j < first_index(cs, t) ==> cs[j] != t,
    decreases cs.len(),
{
    if cs.len() == 0 {
    } else if cs[0] == t {
    } else {
        lemma_first_index(cs.skip(1), t);
        let i = first_index(cs, t);
        assert forall|j: int| 0 <= j < i implies cs[j] != t by {
            if j > 0 {
                assert(cs.skip(1)[j - 1] == cs[j]);
            }
        }
        if i == cs.len() {
            assert forall|j: int| 0 <= j < cs.len() implies cs[j] != t by {}
            assert(!cs.contains(t));
        } else {
            assert(cs.skip(1)[i - 1] == cs[i]);
        }
    }
}

/// Length of the run of `t` characters at the front of `cs`.
pub open spec fn leading_run(cs: Seq<char>, t: char) -> int
    decreases cs.len(),
{
    if cs.len() == 0 {
        0
    } else if cs[0] != t {
        0
    } else {
        1 + leading_run(cs.skip(1), t)
    }
}

pub proof fn lemma_leading_run(cs: Seq<char>, t: char)
    ensures
        0 <= leading_run(cs, t) <= cs.len(),
        forall|j: int| 0 <= j < leading_run(cs, t) ==> cs[j] == t,
        leading_run(cs, t) < cs.len() ==> cs[leading_run(cs, t)] != t,
    decreases cs.len(),
{
    if cs.len() == 0 {
    } else if cs[0] != t {
    } else {
        lemma_leading_run(cs.skip(1), t);
        let r = leading_run(cs, t);
        assert forall|j: int| 0 <= j < r implies cs[j] == t by {
            if j > 0 {
                assert(cs.skip(1)[j - 1] == cs[j]);
            }
        }
        if r < cs.len() {
            assert(cs.skip(1)[r - 1] == cs[r]);
        }
    }
}

// ---------------------------------------------------------------------------
// Digits and numbers
// ---------------------------------------------------------------------------
pub open spec fn spec_dec_digit(c: char) -> Option<int> {
    if '0' <= c && c <= '9' {
        Some((c as u32) - ('0' as u32))
    } else {
        None
    }
}

pub open spec fn spec_hex_digit(c: char) -> Option<int> {
    if '0' <= c && c <= '9' {
        Some((c as u32) - ('0' as u32))
    } else if 'a' <= c && c <= 'f' {
        Some(10 + (c as u32) - ('a' as u32))
    } else if 'A' <= c && c <= 'F' {
        Some(10 + (c as u32) - ('A' as u32))
    } else {
        None
    }
}

pub open spec fn all_dec_digits(s: Seq<char>) -> bool {
    forall|i: int| 0 <= i < s.len() ==> #[trigger] spec_dec_digit(s[i]) is Some
}

/// The value of a digit string, most significant digit first; non-digit
/// positions count as zero.
pub open spec fn dec_value(s: Seq<char>) -> int
    decreases s.len(),
{
    if s.len() == 0 {
        0
    } else {
        dec_value(s.drop_last()) * 10 + (match spec_dec_digit(s.last()) {
            Some(d) => d,
            None => 0,
        })
    }
}

pub proof fn lemma_dec_value_nonneg(s: Seq<char>)
    ensures
        dec_value(s) >= 0,
    decreases s.len(),
{
    if s.len() > 0 {
        lemma_dec_value_nonneg(s.drop_last());
    }
}

/// A digit string is worth at least any of its prefixes.
pub proof fn lemma_dec_value_prefix(s: Seq<char>, i: int)
    requires
        0 <= i <= s.len(),
    ensures
        dec_value(s.take(i)) <= dec_value(s),
    decreases s.len(),
{
    if i == s.len() {
        assert(s.take(i) =~= s);
    } else {
        lemma_dec_value_nonneg(s.drop_last());
        lemma_dec_value_prefix(s.drop_last(), i);
        assert(s.take(i) =~= s.drop_last().take(i));
    }
}

/// The number a divider width field denotes: all decimal digits, at least
/// one, and within `usize` range; anything else has no value.
pub open spec fn spec_parse_usize(s: Seq<char>) -> Option<int> {
    if s.len() > 0 && all_dec_digits(s) && dec_value(s) <= usize::MAX {
        Some(dec_value(s))
    } else {
        None
    }
}

// ---------------------------------------------------------------------------
// Color decoding
// ---------------------------------------------------------------------------
/// The meaning of a textual color code:
/// - the literal `default` is the default text color;
/// - `u<name>` looks `<name>` up in the named-color table, unknown names
///   degrade to the default text color;
/// - `g<dd>` with two decimal digits is a gray level out of 99; invalid
///   digits count as zero;
/// - three hexadecimal digits are shorthand RGB, each digit expanded by 17;
/// - six hexadecimal digits are full RGB;
/// - anything else degrades to the default text color.
pub open spec fn spec_decode_color(code: Seq<char>) -> Color {
    if code == "default"@ {
        spec_default_text_color()
    } else if code.len() >= 1 && code[0] == 'u' {
        match spec_named_color(code.skip(1)) {
            Some(c) => c,
            None => spec_default_text_color(),
        }
    } else if code.len() == 3 && code[0] == 'g' {
        match (spec_dec_digit(code[1]), spec_dec_digit(code[2])) {
            (Some(h), Some(l)) => gray_color(h * 10 + l),
            _ => gray_color(0),
        }
    } else if code.len() == 3 {
        match (spec_hex_digit(code[0]), spec_hex_digit(code[1]), spec_hex_digit(code[2])) {
            (Some(r), Some(g), Some(b)) => byte_color(r * 17, g * 17, b * 17),
            _ => spec_default_text_color(),
        }
    } else if code.len() == 6 {
        match (spec_hex_digit(code[0]), spec_hex_digit(code[1]), spec_hex_digit(code[2]),
        spec_hex_digit(code[3]), spec_hex_digit(code[4]), spec_hex_digit(code[5])) {
            (Some(r1), Some(r0), Some(g1), Some(g0), Some(b1), Some(b0)) => byte_color(
                r1 * 16 + r0,
                g1 * 16 + g0,
                b1 * 16 + b0,
            ),
            _ => spec_default_text_color(),
        }
    } else {
        spec_default_text_color()
    }
}

/// A gray level out of 99, fully opaque.
pub open spec fn gray_color(v: int) -> Color {
    Color {
        r: (v * GRAY_CHANNEL_UNIT) as u32,
        g: (v * GRAY_CHANNEL_UNIT) as u32,
        b: (v * GRAY_CHANNEL_UNIT) as u32,
        a: COLOR_SCALE,
    }
}

/// A color from 8-bit channels, fully opaque.
pub open spec fn byte_color(r: int, g: int, b: int) -> Color {
    Color {
        r: (r * HEX_CHANNEL_UNIT) as u32,
        g: (g * HEX_CHANNEL_UNIT) as u32,
        b: (b * HEX_CHANNEL_UNIT) as u32,
        a: COLOR_SCALE,
    }
}

// ---------------------------------------------------------------------------
// Inline scanning
// ---------------------------------------------------------------------------
/// The single-character style commands.
pub open spec fn is_basic_cmd(c: char) -> bool {
    c == 'f' || c == 'b' || c == '!' || c == '_' || c == '*' || c == 'c' || c == 'l' || c == 'r'
        || c == 'a' || c == STYLE_MARKER
}

/// Effect of a single-character style command on the current style;
/// `dal` is the line's default alignment, restored by `a`.
pub open spec fn apply_basic_cmd(st: SpecStyle, cmd: char, dal: TextAlignment) -> SpecStyle {
    if cmd == 'f' {
        SpecStyle { foreground: None, ..st }
    } else if cmd == 'b' {
        SpecStyle { background: None, ..st }
    } else if cmd == '!' {
        SpecStyle { bold: !st.bold, ..st }
    } else if cmd == '_' {
        SpecStyle { underline: !st.underline, ..st }
    } else if cmd == '*' {
        SpecStyle { italic: !st.italic, ..st }
    } else if cmd == 'c' {
        SpecStyle { alignment: TextAlignment::Center, ..st }
    } else if cmd == 'l' {
        SpecStyle { alignment: TextAlignment::Left, ..st }
    } else if cmd == 'r' {
        SpecStyle { alignment: TextAlignment::Right, ..st }
    } else if cmd == 'a' {
        SpecStyle { alignment: dal, ..st }
    } else if cmd == STYLE_MARKER {
        spec_default_style()
    } else {
        st
    }
}

/// The style snapshot stored inside an emitted link.
pub open spec fn spec_link_snapshot(st: SpecStyle) -> LinkStyle {
    LinkStyle {
        bold: st.bold,
        italic: st.italic,
        underline: st.underline,
        foreground: st.foreground,
        background: st.background,
        section_depth: st.section_depth,
        alignment: st.alignment,
        selectable: st.selectable,
    }
}

/// The style an emitted link label carries.
pub open spec fn spec_link_style(st: SpecStyle, label: Seq<char>, url: Seq<char>) -> SpecStyle {
    SpecStyle {
        foreground: Some(spec_default_link_color()),
        underline: true,
        link: Some(SpecLink { label, url, style: spec_link_snapshot(st) }),
        ..st
    }
}

/// The inline scan of (the rest of) one line.
///
/// `cs` are the characters still to scan, `style` the current style, `dal`
/// the line's default alignment and `buf` the plain text accumulated since
/// the last flush.  Yields the segments emitted from this point on and the
/// style left behind when the line ends:
/// - at end of line the buffer is flushed with a trailing newline, even
///   when empty;
/// - the escape character emits the following character literally;
/// - a link span runs to the closing marker (or the end of the line), is
///   split at the first separator into label and target, and is emitted as
///   its own underlined segment carrying the link;
/// - the style marker flushes the buffer and applies a one-character
///   command (`F`/`B` also consume a three-character color code); an
///   unrecognised command character is kept as literal text.
pub open spec fn spec_scan(
    cs: Seq<char>,
    style: SpecStyle,
    dal: TextAlignment,
    buf: Seq<char>,
) -> (Seq<SpecSegment>, SpecStyle)
    decreases cs.len(),
    via spec_scan_decreases
{
    if cs.len() == 0 {
        (seq![(buf.push('\n'), style)], style)
    } else {
        let c = cs[0];
        if c == ESCAPE_CHAR {
            if cs.len() >= 2 {
                spec_scan(cs.skip(2), style, dal, buf.push(cs[1]))
            } else {
                spec_scan(cs.skip(1), style, dal, buf)
            }
        } else if c == LINK_START {
            let flushed = flush_segment(buf, style);
            let rest = cs.skip(1);
            let j = first_index(rest, LINK_END);
            let body = rest.take(j);
            let consumed: int = if j < rest.len() {
                2 + j
            } else {
                1 + j
            };
            let k = first_index(body, LINK_SEPARATOR);
            let label = if k < body.len() {
                body.take(k)
            } else {
                body
            };
            let url = if k < body.len() {
                body.skip(k + 1)
            } else {
                Seq::empty()
            };
            let r = spec_scan(cs.skip(consumed), style, dal, Seq::empty());
            (flushed + seq![(label, spec_link_style(style, label, url))] + r.0, r.1)
        } else if c == STYLE_MARKER {
            let flushed = flush_segment(buf, style);
            if cs.len() == 1 {
                let r = spec_scan(cs.skip(1), style, dal, Seq::empty());
                (flushed + r.0, r.1)
            } else {
                let cmd = cs[1];
                if cmd == 'F' || cmd == 'B' {
                    let m: int = if cs.len() - 2 < 3 {
                        cs.len() - 2
                    } else {
                        3
                    };
                    let color = spec_decode_color(cs.skip(2).take(m));
                    let style2 = if cmd == 'F' {
                        SpecStyle { foreground: Some(color), ..style }
                    } else {
                        SpecStyle { background: Some(color), ..style }
                    };
                    let r = spec_scan(cs.skip(2 + m), style2, dal, Seq::empty());
                    (flushed + r.0, r.1)
                } else if is_basic_cmd(cmd) {
                    let r = spec_scan(cs.skip(2), apply_basic_cmd(style, cmd, dal), dal,
                    Seq::empty());
                    (flushed + r.0, r.1)
                } else {
                    let r = spec_scan(cs.skip(2), style, dal, seq![cmd]);
                    (flushed + r.0, r.1)
                }
            }
        } else {
            spec_scan(cs.skip(1), style, dal, buf.push(c))
        }
    }
}

#[via_fn]
proof fn spec_scan_decreases(cs: Seq<char>, style: SpecStyle, dal: TextAlignment, buf: Seq<char>) {
    if cs.len() > 0 && cs[0] == LINK_START {
        lemma_first_index(cs.skip(1), LINK_END);
    }
}

/// The segment a flush of the buffer emits mid-line: nothing when the
/// buffer is empty, else the buffered text (no newline) under the current
/// style.
pub open spec fn flush_segment(buf: Seq<char>, style: SpecStyle) -> Seq<SpecSegment> {
    if buf.len() > 0 {
        seq![(buf, style)]
    } else {
        Seq::empty()
    }
}

// ---------------------------------------------------------------------------
// Line handling
// ---------------------------------------------------------------------------
/// The segment a divider line emits: the divider character repeated
/// `width` times, then a newline.  The character directly after the marker
/// is the custom divider character, unless it is the width marker `=` (or
/// missing), in which case the default glyph is kept; the characters from
/// position two on give the width, when they form a number.
pub open spec fn spec_divider(line: Seq<char>) -> Seq<char> {
    let ch = if line.len() > 1 && line[1] != DIVIDER_WIDTH_MARKER {
        line[1]
    } else {
        DEFAULT_DIVIDER_CHAR
    };
    let width: int = if line.len() > 2 {
        match spec_parse_usize(line.skip(2)) {
            Some(w) => w,
            None => DEFAULT_DIVIDER_WIDTH as int,
        }
    } else {
        DEFAULT_DIVIDER_WIDTH as int
    };
    Seq::new(width as nat, |i: int| ch).push('\n')
}

/// Processing of one document line, in priority order: the literal-mode
/// toggle, literal-mode passthrough, comments, the depth-reset prefix,
/// section headings, dividers, the verbatim prefix, and otherwise the
/// inline scan.  Yields the emitted segments and the state handed to the
/// next line.  `section_depth` starts at zero on every line; only a
/// heading line carries its own depth, and only for that line.
pub open spec fn spec_line(line: Seq<char>, st: SpecState) -> (Seq<SpecSegment>, SpecState) {
    if line == lit_toggle() {
        (Seq::empty(), SpecState { literal: !st.literal, ..st })
    } else if st.literal {
        (seq![(line.push('\n'), st.style)], st)
    } else {
        let st0 = SpecState { style: SpecStyle { section_depth: 0, ..st.style }, ..st };
        if line.len() == 0 {
            (seq![(seq!['\n'], st0.style)], st0)
        } else if line[0] == COMMENT_MARKER {
            (Seq::empty(), st0)
        } else if line[0] == DEPTH_RESET_MARKER {
            let r = spec_scan(line.skip(1), st0.style, st0.default_align, Seq::empty());
            (r.0, SpecState { style: r.1, ..st0 })
        } else if line[0] == SECTION_MARKER {
            let d = leading_run(line, SECTION_MARKER);
            let idx: int = if d < 4 {
                d - 1
            } else {
                3
            };
            let hstyle = SpecStyle {
                section_depth: (d % 256) as u8,
                background: Some(spec_section_color(idx)),
                ..st0.style
            };
            let r = spec_scan(line.skip(d), hstyle, st0.default_align, Seq::empty());
            (r.0, st0)
        } else if line[0] == DIVIDER_MARKER {
            (seq![(spec_divider(line), st0.style)], st0)
        } else if line[0] == ASCII_ART_MARKER {
            (seq![(line.skip(1).push('\n'), st0.style)], st0)
        } else {
            let r = spec_scan(line, st0.style, st0.default_align, Seq::empty());
            (r.0, SpecState { style: r.1, ..st0 })
        }
    }
}

/// The segments of a list of lines, threading the state through.
pub open spec fn spec_render_lines(lines: Seq<Seq<char>>, st: SpecState) -> Seq<SpecSegment>
    decreases lines.len(),
{
    if lines.len() == 0 {
        Seq::empty()
    } else {
        let r = spec_line(lines[0], st);
        r.0 + spec_render_lines(lines.skip(1), r.1)
    }
}

/// The lines of a document: split at every newline; a trailing newline
/// yields a final empty line, and an empty document is one empty line.
pub open spec fn spec_lines(doc: Seq<char>) -> Seq<Seq<char>>
    decreases doc.len(),
    via spec_lines_decreases
{
    let i = first_index(doc, '\n');
    if i == doc.len() {
        seq![doc]
    } else {
        seq![doc.take(i)] + spec_lines(doc.skip(i + 1))
    }
}

#[via_fn]
proof fn spec_lines_decreases(doc: Seq<char>) {
    lemma_first_index(doc, '\n');
}

/// Which renderer a document selects: the Micron renderer exactly when the
/// style marker occurs anywhere in it.
pub open spec fn spec_classify(doc: Seq<char>) -> RendererType {
    if doc.contains(STYLE_MARKER) {
        RendererType::Micron
    } else {
        RendererType::Plain
    }
}

/// The full parse: an empty document yields no segments; a document
/// without the style marker yields exactly one segment, the document
/// itself under the default style; anything else is rendered line by line
/// from the initial state.
pub open spec fn spec_parse(doc: Seq<char>) -> Seq<SpecSegment> {
    if doc.len() == 0 {
        Seq::empty()
    } else if !doc.contains(STYLE_MARKER) {
        seq![(doc, spec_default_style())]
    } else {
        spec_render_lines(spec_lines(doc), spec_initial_state())
    }
}


// ---------------------------------------------------------------------------
// Laws
// ---------------------------------------------------------------------------
/// A non-empty document without the style marker is classified plain and
/// parses to exactly one segment: the document itself, under the default
/// style.
pub proof fn lemma_plain_document(doc: Seq<char>)
    requires
        doc.len() > 0,
        !doc.contains(STYLE_MARKER),
    ensures
        spec_classify(doc) == RendererType::Plain,
        spec_parse(doc) == seq![(doc, spec_default_style())],
{
}

/// A document holding the style marker anywhere is classified as markup.
pub proof fn lemma_marked_document(doc: Seq<char>)
    requires
        doc.contains(STYLE_MARKER),
    ensures
        spec_classify(doc) == RendererType::Micron,
{
}

/// Three-digit color shorthand decodes to the same color as the six-digit
/// full form with every digit doubled.
pub proof fn lemma_color_shorthand(c1: char, c2: char, c3: char)
    requires
        spec_hex_digit(c1) is Some,
        spec_hex_digit(c2) is Some,
        spec_hex_digit(c3) is Some,
    ensures
        spec_decode_color(seq![c1, c2, c3]) == spec_decode_color(seq![c1, c1, c2, c2, c3, c3]),
{
    reveal_strlit("default");
    let s3 = seq![c1, c2, c3];
    let s6 = seq![c1, c1, c2, c2, c3, c3];
    assert(s3.len() == 3 && s6.len() == 6);
    assert(s3 != "default"@ && s6 != "default"@);
    assert(c1 != 'u' && c1 != 'g');
    let d1 = spec_hex_digit(c1)->Some_0;
    let d2 = spec_hex_digit(c2)->Some_0;
    let d3 = spec_hex_digit(c3)->Some_0;
    assert(spec_decode_color(s3) == byte_color(d1 * 17, d2 * 17, d3 * 17));
    assert(spec_decode_color(s6) == byte_color(d1 * 16 + d1, d2 * 16 + d2, d3 * 16 + d3));
}

/// Applying the bold toggle twice restores the style exactly.
pub proof fn lemma_bold_toggle_involution(st: SpecStyle, dal: TextAlignment)
    ensures
        apply_basic_cmd(apply_basic_cmd(st, '!', dal), '!', dal) == st,
{
    assert(apply_basic_cmd(apply_basic_cmd(st, '!', dal), '!', dal) =~= st);
}

/// In literal mode, every line that is not the toggle line is emitted
/// verbatim, character for character with a trailing newline, under the
/// unchanged entry style.
pub proof fn lemma_literal_mode(lines: Seq<Seq<char>>, st: SpecState)
    requires
        st.literal,
        forall|i: int| 0 <= i < lines.len() ==> lines[i] != lit_toggle(),
    ensures
        spec_render_lines(lines, st) == lines.map_values(
            |l: Seq<char>| (l.push('\n'), st.style),
        ),
    decreases lines.len(),
{
    let f = |l: Seq<char>| (l.push('\n'), st.style);
    if lines.len() == 0 {
        assert(spec_render_lines(lines, st) =~= lines.map_values(f));
    } else {
        assert(lines[0] != lit_toggle());
        assert(spec_line(lines[0], st).0 =~= seq![(lines[0].push('\n'), st.style)]);
        assert(spec_line(lines[0], st).1 == st);
        assert forall|i: int| 0 <= i < lines.skip(1).len() implies lines.skip(1)[i]
            != lit_toggle() by {
            assert(lines.skip(1)[i] == lines[i + 1]);
        }
        lemma_literal_mode(lines.skip(1), st);
        assert(spec_render_lines(lines, st) =~= lines.map_values(f));
    }
}

/// The escape character makes the style marker plain text: scanning an
/// escaped marker equals scanning the rest with a literal marker appended
/// to the buffer, with no style command opened.
pub proof fn lemma_escaped_marker(
    rest: Seq<char>,
    style: SpecStyle,
    dal: TextAlignment,
    buf: Seq<char>,
)
    ensures
        spec_scan(seq![ESCAPE_CHAR, STYLE_MARKER] + rest, style, dal, buf) == spec_scan(
            rest,
            style,
            dal,
            buf.push(STYLE_MARKER),
        ),
{
    let cs = seq![ESCAPE_CHAR, STYLE_MARKER] + rest;
    assert(cs.len() == 2 + rest.len());
    assert(cs[0] == ESCAPE_CHAR);
    assert(cs[1] == STYLE_MARKER);
    assert(cs.skip(2) =~= rest);
}

} // verus!
